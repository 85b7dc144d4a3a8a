//! Cleaning a whisper transcript and deriving a note title from it.
use vstd::prelude::*;

use crate::text::{
    chars_of, contains, is_blank, is_white, lemma_remove_absent, lemma_trim_bounds,
    lemma_trim_is_slice, lemma_trim_shape, remove_all, remove_all_exec, starts_with, string_of,
    trim, trimmed,
};

verus! {

/// The markers that whisper writes for stretches without speech.
pub open spec fn noise_markers() -> Seq<Seq<char>> {
    seq![
        "[Blank Audio]"@,
        "[BLANK_AUDIO]"@,
        "[ Silence ]"@,
        "[ silence ]"@,
        "[Silence]"@,
        "[noise]"@,
        "[Noise]"@,
        "[Music]"@,
        "[music]"@,
        "(silence)"@,
        "(Silence)"@,
    ]
}

/// `s` after taking out each marker of `markers` in turn, the first marker first.
pub open spec fn strip_markers(s: Seq<char>, markers: Seq<Seq<char>>) -> Seq<char>
    decreases markers.len(),
{
    if markers.len() == 0 {
        s
    } else {
        remove_all(strip_markers(s, markers.drop_last()), markers.last())
    }
}

/// The transcript with the noise markers taken out and the ends trimmed.
pub open spec fn filtered(raw: Seq<char>) -> Seq<char> {
    trim(strip_markers(raw, noise_markers()))
}

/// The characters of `s` before its first line break.
pub open spec fn line_prefix(s: Seq<char>) -> Seq<char>
    decreases s.len(),
{
    if s.len() == 0 || s[0] == '\n' {
        Seq::empty()
    } else {
        seq![s[0]] + line_prefix(s.drop_first())
    }
}

/// The first line of `s`, as `str::lines` yields it: a `\r` just before the
/// line break is not part of it.
pub open spec fn first_line(s: Seq<char>) -> Seq<char> {
    let p = line_prefix(s);
    if p.len() < s.len() && p.len() > 0 && p.last() == '\r' {
        p.drop_last()
    } else {
        p
    }
}

/// The title made from a transcript: its first line, cut to 80 characters.
pub open spec fn derived_title(text: Seq<char>) -> Seq<char> {
    let l = first_line(text);
    if l.len() > 80 {
        l.take(80)
    } else {
        l
    }
}

/// The `k`-th noise marker.
fn noise_marker(k: usize) -> (m: &'static str)
    requires
        k < 11,
    ensures
        m@ == noise_markers()[k as int],
{
    if k == 0 {
        "[Blank Audio]"
    } else if k == 1 {
        "[BLANK_AUDIO]"
    } else if k == 2 {
        "[ Silence ]"
    } else if k == 3 {
        "[ silence ]"
    } else if k == 4 {
        "[Silence]"
    } else if k == 5 {
        "[noise]"
    } else if k == 6 {
        "[Noise]"
    } else if k == 7 {
        "[Music]"
    } else if k == 8 {
        "[music]"
    } else if k == 9 {
        "(silence)"
    } else {
        "(Silence)"
    }
}

/// Takes whisper's noise markers (`[BLANK_AUDIO]`, `[ Silence ]`, `[Music]`, ...)
/// out of a transcript and trims white space from both ends.
pub fn filter_transcript(raw: &str) -> (text: String)
    ensures
        text@ == filtered(raw@),
        trim(text@) == text@,
        is_subsequence(text@, raw@),
{
    let mut t = chars_of(raw);
    let mut k: usize = 0;
    assert(noise_markers().take(0) =~= Seq::<Seq<char>>::empty());
    while k < 11
        invariant
            k <= 11,
            noise_markers().len() == 11,
            t@ == strip_markers(raw@, noise_markers().take(k as int)),
        decreases 11 - k,
    {
        let marker = chars_of(noise_marker(k));
        t = remove_all_exec(&t, &marker);
        proof {
            let m = noise_markers().take(k + 1);
            assert(m.drop_last() =~= noise_markers().take(k as int));
        }
        k = k + 1;
    }
    assert(noise_markers().take(11) =~= noise_markers());
    let text = trimmed(&t);
    proof {
        lemma_trim_idempotent(strip_markers(raw@, noise_markers()));
        lemma_filter_only_removes(raw@);
    }
    text
}

/// Trimming twice is trimming once.
pub proof fn lemma_trim_idempotent(s: Seq<char>)
    ensures
        trim(trim(s)) == trim(s),
{
    let t = trim(s);
    lemma_trim_shape(s);
    if t.len() == 0 {
        lemma_trim_bounds(t, 0, 0);
        assert(t.subrange(0, 0) =~= t);
    } else {
        lemma_trim_bounds(t, 0, t.len() as int);
        assert(t.subrange(0, t.len() as int) =~= t);
    }
}

/// Speech with none of the noise markers in it comes out of the filter only trimmed.
pub proof fn lemma_plain_speech_kept(raw: Seq<char>)
    requires
        forall|k: int| 0 <= k < noise_markers().len() ==> !contains(raw, #[trigger] noise_markers()[k]),
    ensures
        filtered(raw) == trim(raw),
{
    lemma_strip_absent(raw, noise_markers());
}

proof fn lemma_strip_absent(s: Seq<char>, markers: Seq<Seq<char>>)
    requires
        forall|k: int| 0 <= k < markers.len() ==> !contains(s, #[trigger] markers[k]),
    ensures
        strip_markers(s, markers) == s,
    decreases markers.len(),
{
    if markers.len() > 0 {
        let rest = markers.drop_last();
        assert forall|k: int| 0 <= k < rest.len() implies !contains(s, #[trigger] rest[k]) by {
            assert(rest[k] == markers[k]);
        }
        lemma_strip_absent(s, rest);
        assert(!contains(s, markers[markers.len() - 1]));
        lemma_remove_absent(s, markers.last());
    }
}

/// `a` is `b` with some characters left out, `a[i]` being `b[at[i]]`.
pub open spec fn is_subsequence_by(a: Seq<char>, b: Seq<char>, at: Seq<int>) -> bool {
    &&& at.len() == a.len()
    &&& forall|i: int| 0 <= i < a.len() ==> 0 <= #[trigger] at[i] < b.len() && a[i] == b[at[i]]
    &&& forall|i: int, j: int| 0 <= i < j < a.len() ==> #[trigger] at[i] < #[trigger] at[j]
}

/// `a` is `b` with some characters left out.
pub open spec fn is_subsequence(a: Seq<char>, b: Seq<char>) -> bool {
    exists|at: Seq<int>| is_subsequence_by(a, b, at)
}

proof fn lemma_subsequence_trans(a: Seq<char>, b: Seq<char>, c: Seq<char>)
    requires
        is_subsequence(a, b),
        is_subsequence(b, c),
    ensures
        is_subsequence(a, c),
{
    let f = choose|f: Seq<int>| is_subsequence_by(a, b, f);
    let g = choose|g: Seq<int>| is_subsequence_by(b, c, g);
    let h = Seq::new(a.len(), |i: int| g[f[i]]);
    assert forall|i: int, j: int| 0 <= i < j < a.len() implies #[trigger] h[i] < #[trigger] h[j] by {
        assert(f[i] < f[j]);
    }
    assert(is_subsequence_by(a, c, h));
}

proof fn lemma_remove_subsequence(s: Seq<char>, needle: Seq<char>)
    ensures
        is_subsequence(remove_all(s, needle), s),
    decreases s.len(),
{
    let r = remove_all(s, needle);
    if s.len() == 0 || needle.len() == 0 {
        assert(is_subsequence_by(r, s, Seq::new(s.len(), |i: int| i)));
    } else if starts_with(s, needle) {
        let k = needle.len() as int;
        lemma_remove_subsequence(s.skip(k), needle);
        let f = choose|f: Seq<int>| is_subsequence_by(r, s.skip(k), f);
        let g = Seq::new(r.len(), |i: int| f[i] + k);
        assert forall|i: int, j: int| 0 <= i < j < r.len() implies #[trigger] g[i] < #[trigger] g[j] by {
            assert(f[i] < f[j]);
        }
        assert(is_subsequence_by(r, s, g));
    } else {
        let t = s.drop_first();
        lemma_remove_subsequence(t, needle);
        let rt = remove_all(t, needle);
        let f = choose|f: Seq<int>| is_subsequence_by(rt, t, f);
        let g = Seq::new(r.len(), |i: int| if i == 0 { 0 } else { f[i - 1] + 1 });
        assert forall|i: int| 0 <= i < r.len() implies 0 <= #[trigger] g[i] < s.len() && r[i] == s[g[i]] by {
            if i > 0 {
                assert(r[i] == rt[i - 1]);
            }
        }
        assert forall|i: int, j: int| 0 <= i < j < r.len() implies #[trigger] g[i] < #[trigger] g[j] by {
            if i > 0 {
                assert(f[i - 1] < f[j - 1]);
            }
        }
        assert(is_subsequence_by(r, s, g));
    }
}

proof fn lemma_strip_subsequence(s: Seq<char>, markers: Seq<Seq<char>>)
    ensures
        is_subsequence(strip_markers(s, markers), s),
    decreases markers.len(),
{
    if markers.len() == 0 {
        assert(is_subsequence_by(s, s, Seq::new(s.len(), |i: int| i)));
    } else {
        let before = strip_markers(s, markers.drop_last());
        lemma_strip_subsequence(s, markers.drop_last());
        lemma_remove_subsequence(before, markers.last());
        lemma_subsequence_trans(strip_markers(s, markers), before, s);
    }
}

/// The filter only takes characters out of a transcript: whatever it keeps
/// stands in the transcript, in the same order.
pub proof fn lemma_filter_only_removes(raw: Seq<char>)
    ensures
        is_subsequence(filtered(raw), raw),
{
    let stripped = strip_markers(raw, noise_markers());
    lemma_strip_subsequence(raw, noise_markers());
    let a = lemma_trim_is_slice(stripped);
    let t = trim(stripped);
    assert(is_subsequence_by(t, stripped, Seq::new(t.len(), |i: int| i + a)));
    lemma_subsequence_trans(t, stripped, raw);
}

proof fn lemma_line_prefix_take(s: Seq<char>, k: int)
    requires
        0 <= k <= s.len(),
        forall|i: int| 0 <= i < k ==> #[trigger] s[i] != '\n',
        k == s.len() || s[k] == '\n',
    ensures
        line_prefix(s) == s.take(k),
    decreases k,
{
    if k == 0 {
        assert(s.take(0) =~= Seq::<char>::empty());
    } else {
        lemma_line_prefix_take(s.drop_first(), k - 1);
        assert(seq![s[0]] + s.drop_first().take(k - 1) =~= s.take(k));
    }
}

/// The title made from the first line of a transcript.
pub fn title_from_transcript(text: &Vec<char>) -> (title: String)
    ensures
        title@ == derived_title(text@),
{
    let n: usize = text.len();
    let mut k: usize = 0;
    while k < n && text[k] != '\n'
        invariant
            k <= n == text.len(),
            forall|i: int| 0 <= i < k ==> #[trigger] text@[i] != '\n',
        decreases n - k,
    {
        k = k + 1;
    }
    proof {
        lemma_line_prefix_take(text@, k as int);
    }
    let mut end: usize = k;
    if k < n && k > 0 && text[k - 1] == '\r' {
        end = k - 1;
        assert(text@.take(k as int).drop_last() =~= text@.take(end as int));
    }
    if end > 80 {
        end = 80;
        assert(first_line(text@).take(80) =~= text@.take(80));
    }
    let title = string_of(text, 0, end);
    assert(text@.subrange(0, end as int) =~= text@.take(end as int));
    title
}

proof fn lemma_line_prefix_props(s: Seq<char>)
    ensures
        line_prefix(s).len() <= s.len(),
        line_prefix(s) == s.take(line_prefix(s).len() as int),
        forall|i: int| 0 <= i < line_prefix(s).len() ==> #[trigger] line_prefix(s)[i] != '\n',
        line_prefix(s).len() < s.len() ==> s[line_prefix(s).len() as int] == '\n',
    decreases s.len(),
{
    if s.len() == 0 || s[0] == '\n' {
        assert(s.take(0) =~= Seq::<char>::empty());
    } else {
        let t = s.drop_first();
        lemma_line_prefix_props(t);
        let p = line_prefix(s);
        assert(p == seq![s[0]] + line_prefix(t));
        assert(p =~= s.take(p.len() as int));
        assert forall|i: int| 0 <= i < p.len() implies #[trigger] p[i] != '\n' by {
            if i > 0 {
                assert(p[i] == line_prefix(t)[i - 1]);
            }
        }
    }
}

/// The title made from a transcript is a beginning of it of at most 80
/// characters, and never holds a line break.
pub proof fn lemma_title_is_one_line(text: Seq<char>)
    ensures
        derived_title(text).len() <= 80,
        derived_title(text) == text.take(derived_title(text).len() as int),
        forall|i: int|
            0 <= i < derived_title(text).len() ==> #[trigger] derived_title(text)[i] != '\n',
{
    lemma_line_prefix_props(text);
    let p = line_prefix(text);
    let l = first_line(text);
    assert(l == text.take(l.len() as int)) by {
        if p.len() < text.len() && p.len() > 0 && p.last() == '\r' {
            assert(p.drop_last() =~= text.take(p.len() - 1));
        }
    }
    assert forall|i: int| 0 <= i < l.len() implies #[trigger] l[i] != '\n' by {
        assert(l[i] == p[i]);
    }
    let t = derived_title(text);
    if l.len() > 80 {
        assert(t =~= text.take(80));
        assert forall|i: int| 0 <= i < t.len() implies #[trigger] t[i] != '\n' by {
            assert(t[i] == l[i]);
        }
    }
}

/// For a transcript whose first line `a` ends at a line break, the title is
/// `a` without a `\r` at its end, cut to 80 characters.
pub proof fn lemma_title_of_first_line(a: Seq<char>, b: Seq<char>)
    requires
        forall|i: int| 0 <= i < a.len() ==> #[trigger] a[i] != '\n',
    ensures
        ({
            let line = if a.len() > 0 && a.last() == '\r' { a.drop_last() } else { a };
            derived_title(a + seq!['\n'] + b) == if line.len() > 80 { line.take(80) } else { line }
        }),
{
    let text = a + seq!['\n'] + b;
    assert forall|i: int| 0 <= i < a.len() implies #[trigger] text[i] != '\n' by {
        assert(text[i] == a[i]);
    }
    lemma_line_prefix_take(text, a.len() as int);
    assert(text.take(a.len() as int) =~= a);
}

/// A transcript of a single line gives that line, cut to 80 characters, as title.
pub proof fn lemma_title_of_single_line(a: Seq<char>)
    requires
        forall|i: int| 0 <= i < a.len() ==> #[trigger] a[i] != '\n',
    ensures
        derived_title(a) == if a.len() > 80 { a.take(80) } else { a },
{
    lemma_line_prefix_take(a, a.len() as int);
    assert(a.take(a.len() as int) =~= a);
}

/// A transcript that does not begin with white space gives a title that is not blank.
pub proof fn lemma_derived_title_not_blank(text: Seq<char>)
    requires
        text.len() > 0,
        !is_white(text[0]),
    ensures
        !is_blank(derived_title(text)),
{
    assert(text[0] != '\n');
    let p = line_prefix(text);
    assert(p == seq![text[0]] + line_prefix(text.drop_first()));
    assert(p[0] == text[0]);
    let l = first_line(text);
    if p.len() < text.len() && p.len() > 0 && p.last() == '\r' {
        assert(p.len() > 1) by {
            if p.len() == 1 {
                assert(p.last() == text[0]);
            }
        }
        assert(l[0] == text[0]);
    }
    assert(l.len() > 0 && l[0] == text[0]);
    let t = derived_title(text);
    assert(t[0] == text[0]);
    assert(!is_white(t[0]));
}

} // verus!
