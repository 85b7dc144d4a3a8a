//! Recognising an installed Joplin from what the machine shows.
use vstd::prelude::*;

use crate::text::{
    ascii_lowercase, chars_of, contains, contains_exec, lowercase_chars, occurs_at_exec, starts_with,
};

verus! {

/// The extension of a file name, as `Path::extension` finds it: what follows
/// the last `.`, unless there is no `.`, the only `.` leads the name, or the
/// name is `..`.
pub open spec fn file_extension(name: Seq<char>) -> Option<Seq<char>> {
    if name == seq!['.', '.'] {
        None
    } else if exists|i: int| 0 < i < name.len() && name[i] == '.' {
        let i = choose|i: int|
            0 < i < name.len() && name[i] == '.' && forall|j: int| i < j < name.len() ==> name[j] != '.';
        Some(name.skip(i + 1))
    } else {
        None
    }
}

/// A Joplin AppImage: a file whose name starts with `joplin` in any ASCII case
/// and whose extension is `AppImage`.
pub open spec fn is_joplin_appimage_name(name: Seq<char>) -> bool {
    starts_with(ascii_lowercase(name), "joplin"@) && file_extension(name) == Some("AppImage"@)
}

/// Whether a file called `file_name` is a Joplin AppImage.
pub fn is_joplin_appimage(file_name: &str) -> (b: bool)
    ensures
        b == is_joplin_appimage_name(file_name@),
{
    let lower = lowercase_chars(file_name);
    let prefix = chars_of("joplin");
    if !occurs_at_exec(&lower, &prefix, 0) {
        return false;
    }
    let name = chars_of(file_name);
    let n: usize = name.len();
    let mut i: usize = n;
    while i > 0 && name[i - 1] != '.'
        invariant
            i <= n == name@.len(),
            forall|j: int| i <= j < n ==> name@[j] != '.',
        decreases i,
    {
        i = i - 1;
    }
    // `i - 1` is the last dot, if `i > 0`.
    if i <= 1 {
        proof {
            assert(!(exists|k: int| 0 < k < n && name@[k] == '.'));
        }
        return false;
    }
    let ghost dot = i - 1;
    proof {
        assert(0 < dot < n && name@[dot] == '.');
        let c = choose|k: int|
            0 < k < n && name@[k] == '.' && forall|j: int| k < j < n ==> name@[j] != '.';
        assert(c == dot) by {
            if c < dot {
                assert(name@[dot] != '.');
            } else if c > dot {
            }
        }
        if name@ == seq!['.', '.'] {
            assert(dot == 1);
        }
    }
    let is_dotdot = n == 2 && name[0] == '.' && name[1] == '.';
    if is_dotdot {
        proof {
            assert(name@ =~= seq!['.', '.']);
        }
        return false;
    }
    proof {
        assert(name@ != seq!['.', '.']) by {
            if name@ == seq!['.', '.'] {
                assert(name@[0] == '.' && name@[1] == '.');
            }
        }
    }
    let ext = chars_of("AppImage");
    let ext_len: usize = ext.len();
    if n - i != ext_len {
        proof {
            assert(name@.skip(i as int).len() != ext@.len());
        }
        return false;
    }
    let matches = occurs_at_exec(&name, &ext, i);
    proof {
        assert(name@.subrange(i as int, i + ext@.len()) =~= name@.skip(i as int));
    }
    matches
}

/// Whether a `flatpak list` output names Joplin, in any ASCII case.
pub fn flatpak_lists_joplin(listing: &str) -> (b: bool)
    ensures
        b == contains(ascii_lowercase(listing@), "joplin"@),
{
    let lower = lowercase_chars(listing);
    let needle = chars_of("joplin");
    contains_exec(&lower, &needle)
}

} // verus!
