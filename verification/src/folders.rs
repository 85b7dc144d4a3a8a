//! Joplin notebooks, listed by title without regard to ASCII case.
use vstd::prelude::*;

use crate::text::{
    ascii_lower, ascii_lowercase, lemma_lex_antisym, lemma_lex_first_difference, lemma_lex_refl,
    lemma_lex_total, lemma_lex_trans, lex_le,
    lex_le_exec, lowercase_chars,
};

verus! {

/// A Joplin notebook.
#[derive(Debug, Clone)]
pub struct Folder {
    pub id: String,
    pub title: String,
}

/// The key by which notebooks are listed: the title in ASCII lower case.
pub open spec fn folder_key(f: Folder) -> Seq<char> {
    ascii_lowercase(f.title@)
}

/// `sorted` holds the notebooks of `original`, each once, where `sorted[i]` is
/// `original[from[i]]`; their keys never decrease; and notebooks with equal
/// keys keep the order they had.
pub open spec fn is_stable_sort(sorted: Seq<Folder>, original: Seq<Folder>, from: Seq<int>) -> bool {
    &&& sorted.len() == original.len()
    &&& from.len() == sorted.len()
    &&& forall|i: int| 0 <= i < sorted.len() ==> 0 <= #[trigger] from[i] < original.len()
    &&& forall|i: int| 0 <= i < sorted.len() ==> #[trigger] sorted[i] == original[from[i]]
    &&& forall|i: int, j: int| 0 <= i < j < sorted.len() ==> #[trigger] from[i] != #[trigger] from[j]
    &&& forall|i: int, j: int|
        0 <= i < j < sorted.len() ==> lex_le(
            folder_key(#[trigger] sorted[i]),
            folder_key(#[trigger] sorted[j]),
        )
    &&& forall|i: int, j: int|
        0 <= i < j < sorted.len() && folder_key(#[trigger] sorted[i]) == folder_key(
            #[trigger] sorted[j],
        ) ==> from[i] < from[j]
}

/// A stable sort of the notebooks lists them by their whole titles in ASCII
/// lower case, in the order of strings; notebooks whose titles are equal that
/// way keep their order.
pub proof fn lemma_listed_by_whole_title(sorted: Seq<Folder>, original: Seq<Folder>, from: Seq<int>)
    requires
        is_stable_sort(sorted, original, from),
    ensures
        forall|i: int, j: int|
            0 <= i < j < sorted.len() ==> lex_le(
                ascii_lowercase(#[trigger] sorted[i].title@),
                ascii_lowercase(#[trigger] sorted[j].title@),
            ),
        forall|i: int, j: int|
            0 <= i < j < sorted.len() && ascii_lowercase(#[trigger] sorted[i].title@)
                == ascii_lowercase(#[trigger] sorted[j].title@) ==> from[i] < from[j],
{
    assert forall|i: int, j: int| 0 <= i < j < sorted.len() implies lex_le(
        ascii_lowercase(#[trigger] sorted[i].title@),
        ascii_lowercase(#[trigger] sorted[j].title@),
    ) by {
        assert(lex_le(folder_key(sorted[i]), folder_key(sorted[j])));
    }
    assert forall|i: int, j: int|
        0 <= i < j < sorted.len() && ascii_lowercase(#[trigger] sorted[i].title@) == ascii_lowercase(
            #[trigger] sorted[j].title@,
        ) implies from[i] < from[j] by {
        assert(folder_key(sorted[i]) == folder_key(sorted[j]));
    }
}

/// Two notebooks whose titles, in ASCII lower case, first differ at position
/// `k` are listed in the order of the characters there.
pub proof fn lemma_listed_by_first_difference(
    sorted: Seq<Folder>,
    original: Seq<Folder>,
    from: Seq<int>,
    i: int,
    j: int,
    k: int,
)
    requires
        is_stable_sort(sorted, original, from),
        0 <= i < sorted.len(),
        0 <= j < sorted.len(),
        0 <= k < sorted[i].title@.len(),
        k < sorted[j].title@.len(),
        ascii_lowercase(sorted[i].title@).take(k) == ascii_lowercase(sorted[j].title@).take(k),
        (ascii_lower(sorted[i].title@[k]) as u32) < (ascii_lower(sorted[j].title@[k]) as u32),
    ensures
        i < j,
{
    let a = ascii_lowercase(sorted[i].title@);
    let b = ascii_lowercase(sorted[j].title@);
    lemma_lex_first_difference(a, b, k);
    if j < i {
        lemma_listed_by_whole_title(sorted, original, from);
        assert(lex_le(b, a));
    } else if j == i {
    }
}

/// Lists notebooks by title, ignoring ASCII case; notebooks whose titles are
/// equal that way keep their order.
pub fn sort_folders(folders: Vec<Folder>) -> (sorted: Vec<Folder>)
    ensures
        exists|from: Seq<int>| is_stable_sort(sorted@, folders@, from),
{
    let ghost original = folders@;
    let ghost n = original.len() as int;
    let mut rest = folders;
    let mut sorted: Vec<Folder> = Vec::new();
    let mut keys: Vec<Vec<char>> = Vec::new();
    let ghost mut from: Seq<int> = Seq::empty();
    while rest.len() > 0
        invariant
            rest@ == original.take(rest@.len() as int),
            rest@.len() <= n == original.len(),
            sorted@.len() == n - rest@.len(),
            keys@.len() == sorted@.len(),
            from.len() == sorted@.len(),
            forall|i: int| 0 <= i < sorted@.len() ==> #[trigger] keys@[i]@ == folder_key(sorted@[i]),
            forall|i: int|
                0 <= i < sorted@.len() ==> rest@.len() <= #[trigger] from[i] < n,
            forall|i: int| 0 <= i < sorted@.len() ==> #[trigger] sorted@[i] == original[from[i]],
            forall|i: int, j: int|
                0 <= i < j < sorted@.len() ==> #[trigger] from[i] != #[trigger] from[j],
            forall|i: int, j: int|
                0 <= i < j < sorted@.len() ==> lex_le(
                    folder_key(#[trigger] sorted@[i]),
                    folder_key(#[trigger] sorted@[j]),
                ),
            forall|i: int, j: int|
                0 <= i < j < sorted@.len() && folder_key(#[trigger] sorted@[i]) == folder_key(
                    #[trigger] sorted@[j],
                ) ==> from[i] < from[j],
        decreases rest@.len(),
    {
        let ghost idx = rest@.len() - 1;
        let item = rest.pop().unwrap();
        assert(item == original[idx]);
        assert(rest@ =~= original.take(idx));
        let key = lowercase_chars(item.title.as_str());
        let mut pos: usize = 0;
        while pos < sorted.len() && !lex_le_exec(&key, &keys[pos])
            invariant
                pos <= sorted@.len() == keys@.len(),
                forall|i: int| 0 <= i < sorted@.len() ==> #[trigger] keys@[i]@ == folder_key(sorted@[i]),
                forall|i: int| 0 <= i < pos ==> !lex_le(key@, #[trigger] folder_key(sorted@[i])),
            decreases sorted@.len() - pos,
        {
            pos = pos + 1;
        }
        let ghost old_sorted = sorted@;
        let ghost old_from = from;
        let ghost k = key@;
        proof {
            assert forall|i: int| 0 <= i < pos implies lex_le(
                #[trigger] folder_key(old_sorted[i]),
                k,
            ) && folder_key(old_sorted[i]) != k by {
                lemma_lex_total(k, folder_key(old_sorted[i]));
                lemma_lex_refl(k);
            }
            assert forall|j: int| pos <= j < old_sorted.len() implies lex_le(
                k,
                #[trigger] folder_key(old_sorted[j]),
            ) by {
                if j > pos {
                    lemma_lex_trans(k, folder_key(old_sorted[pos as int]), folder_key(old_sorted[j]));
                }
            }
        }
        sorted.insert(pos, item);
        keys.insert(pos, key);
        proof {
            from = old_from.insert(pos as int, idx);
            assert forall|i: int, j: int|
                0 <= i < j < sorted@.len() implies lex_le(
                folder_key(#[trigger] sorted@[i]),
                folder_key(#[trigger] sorted@[j]),
            ) by {
                if i < pos && j == pos {
                } else if i == pos {
                } else if i < pos && j > pos {
                    lemma_lex_trans(
                        folder_key(old_sorted[i]),
                        k,
                        folder_key(old_sorted[j - 1]),
                    );
                } else if j < pos {
                    assert(sorted@[i] == old_sorted[i] && sorted@[j] == old_sorted[j]);
                } else {
                    assert(sorted@[i] == old_sorted[i - 1] && sorted@[j] == old_sorted[j - 1]);
                }
            }
            assert forall|i: int, j: int|
                0 <= i < j < sorted@.len() && folder_key(#[trigger] sorted@[i]) == folder_key(
                    #[trigger] sorted@[j],
                ) implies from[i] < from[j] by {
                if i < pos && j == pos {
                    assert(folder_key(old_sorted[i]) != k);
                } else if i == pos {
                    assert(from[j] == old_from[j - 1]);
                } else if i < pos && j > pos {
                    assert(sorted@[i] == old_sorted[i] && sorted@[j] == old_sorted[j - 1]);
                    assert(lex_le(folder_key(old_sorted[i]), k));
                    assert(lex_le(k, folder_key(old_sorted[j - 1])));
                    lemma_lex_antisym(folder_key(old_sorted[i]), k);
                } else if j < pos {
                    assert(sorted@[i] == old_sorted[i] && sorted@[j] == old_sorted[j]);
                } else {
                    assert(sorted@[i] == old_sorted[i - 1] && sorted@[j] == old_sorted[j - 1]);
                }
            }
            assert forall|i: int, j: int|
                0 <= i < j < sorted@.len() implies #[trigger] from[i] != #[trigger] from[j] by {
                if i < pos && j == pos {
                } else if i == pos {
                } else if j < pos {
                } else if i < pos {
                    assert(from[j] == old_from[j - 1]);
                } else {
                    assert(from[i] == old_from[i - 1] && from[j] == old_from[j - 1]);
                }
            }
            assert forall|i: int| 0 <= i < sorted@.len() implies #[trigger] sorted@[i] == original[from[i]] by {
                if i < pos {
                } else if i == pos {
                } else {
                    assert(sorted@[i] == old_sorted[i - 1]);
                    assert(from[i] == old_from[i - 1]);
                }
            }
            assert forall|i: int| 0 <= i < sorted@.len() implies #[trigger] keys@[i]@ == folder_key(sorted@[i]) by {
                if i < pos {
                } else if i == pos {
                } else {
                    assert(sorted@[i] == old_sorted[i - 1]);
                }
            }
            assert forall|i: int| 0 <= i < sorted@.len() implies rest@.len() <= #[trigger] from[i] < n by {
                if i < pos {
                } else if i == pos {
                } else {
                    assert(from[i] == old_from[i - 1]);
                }
            }
        }
    }
    assert(is_stable_sort(sorted@, original, from));
    sorted
}

} // verus!
