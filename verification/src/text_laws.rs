//! What the text operations do to the characters.

use vstd::prelude::*;
use crate::text;

verus! {

proof fn lemma_start(s: Seq<char>) -> (from: int)
    ensures
        0 <= from <= s.len(),
        text::trim_start(s) == s.skip(from),
        forall|i: int| 0 <= i < from ==> text::is_space(#[trigger] s[i]),
        from < s.len() ==> !text::is_space(s[from]),
    decreases s.len(),
{
    if s.len() > 0 && text::is_space(s[0]) {
        let rest = s.drop_first();
        let k = lemma_start(rest);
        assert(rest.skip(k) =~= s.skip(k + 1));
        assert forall|i: int| 0 <= i < k + 1 implies text::is_space(#[trigger] s[i]) by {
            if i > 0 {
                assert(rest[i - 1] == s[i]);
            }
        }
        if k + 1 < s.len() {
            assert(rest[k] == s[k + 1]);
        }
        k + 1
    } else {
        assert(s.skip(0) =~= s);
        0
    }
}

proof fn lemma_end(s: Seq<char>) -> (to: int)
    ensures
        0 <= to <= s.len(),
        text::trim_end(s) == s.take(to),
        forall|i: int| to <= i < s.len() ==> text::is_space(#[trigger] s[i]),
        to > 0 ==> !text::is_space(s[to - 1]),
    decreases s.len(),
{
    if s.len() > 0 && text::is_space(s.last()) {
        let front = s.drop_last();
        let k = lemma_end(front);
        assert(front.take(k) =~= s.take(k));
        assert forall|i: int| k <= i < s.len() implies text::is_space(#[trigger] s[i]) by {
            if i < front.len() {
                assert(front[i] == s[i]);
            }
        }
        k
    } else {
        assert(s.take(s.len() as int) =~= s);
        s.len() as int
    }
}

/// The text between its first and its last character that is no space.
pub open spec fn is_core(s: Seq<char>, core: Seq<char>, from: int, to: int) -> bool {
    &&& 0 <= from <= to <= s.len()
    &&& core == s.subrange(from, to)
    &&& forall|i: int| 0 <= i < from ==> text::is_space(#[trigger] s[i])
    &&& forall|i: int| to <= i < s.len() ==> text::is_space(#[trigger] s[i])
    &&& from < to ==> !text::is_space(s[from]) && !text::is_space(s[to - 1])
}

/// Trimming takes the spaces away on both sides, and nothing else.
pub proof fn lemma_trimming_takes_spaces(s: Seq<char>)
    ensures
        exists|from: int, to: int| #[trigger] is_core(s, text::trimmed(s), from, to),
{
    let from = lemma_start(s);
    let rest = s.skip(from);
    let k = lemma_end(rest);
    assert(text::trimmed(s) == rest.take(k));
    assert(rest.take(k) =~= s.subrange(from, from + k));
    assert forall|i: int| from + k <= i < s.len() implies text::is_space(#[trigger] s[i]) by {
        assert(rest[i - from] == s[i]);
    }
    if k > 0 {
        assert(rest[k - 1] == s[from + k - 1]);
    }
    assert(is_core(s, text::trimmed(s), from, from + k));
}

/// A text is blank exactly where it holds nothing but spaces.
pub proof fn lemma_blank_is_spaces(s: Seq<char>)
    ensures
        text::is_blank(s) <==> forall|i: int| 0 <= i < s.len() ==> text::is_space(#[trigger] s[i]),
{
    lemma_trimming_takes_spaces(s);
    let (from, to) = choose|from: int, to: int| #[trigger] is_core(s, text::trimmed(s), from, to);
    if text::is_blank(s) {
        assert(from == to);
        assert forall|i: int| 0 <= i < s.len() implies text::is_space(#[trigger] s[i]) by {}
    }
}

/// The same character, or the same letter of the other case.
pub open spec fn same_letter(a: char, b: char) -> bool {
    ||| a == b
    ||| 'A' <= a <= 'Z' && b as int == a as int + 32
    ||| 'A' <= b <= 'Z' && a as int == b as int + 32
}

proof fn lemma_letter(a: char, b: char)
    ensures
        text::lower_char(a) == text::lower_char(b) <==> same_letter(a, b),
{
    assert(65 <= a as u32 <= 90 ==> text::lower_char(a) as int == a as int + 32);
    assert(65 <= b as u32 <= 90 ==> text::lower_char(b) as int == b as int + 32);
}

/// Two texts are the same but for case exactly where they are as long and each
/// character is the same letter.
pub proof fn lemma_case_is_ignored(a: Seq<char>, b: Seq<char>)
    ensures
        text::same_ignoring_case(a, b) <==> a.len() == b.len() && forall|i: int|
            0 <= i < a.len() ==> same_letter(#[trigger] a[i], b[i]),
{
    let x = text::lowered(a);
    let y = text::lowered(b);
    assert(x.len() == a.len() && y.len() == b.len());
    if x == y {
        assert forall|i: int| 0 <= i < a.len() implies same_letter(#[trigger] a[i], b[i]) by {
            assert(x[i] == text::lower_char(a[i]) && y[i] == text::lower_char(b[i]));
            lemma_letter(a[i], b[i]);
        }
    }
    if a.len() == b.len() && forall|i: int|
        0 <= i < a.len() ==> same_letter(#[trigger] a[i], b[i]) {
        assert(x =~= y) by {
            assert forall|i: int| 0 <= i < x.len() implies x[i] == y[i] by {
                assert(same_letter(a[i], b[i]));
                lemma_letter(a[i], b[i]);
            }
        }
    }
}

/// A text holds another exactly where it can be parted around it.
pub proof fn lemma_held_text_parts(s: Seq<char>, needle: Seq<char>)
    ensures
        text::holds_text(s, needle) <==> exists|before: Seq<char>, after: Seq<char>|
            s == #[trigger] (before + needle + after),
{
    if text::holds_text(s, needle) {
        let at = choose|at: int| text::occurs_at(s, needle, at);
        let before = s.take(at);
        let after = s.skip(at + needle.len());
        assert(s =~= before + needle + after) by {
            assert forall|i: int| at <= i < at + needle.len() implies s[i] == needle[i - at] by {
                assert(s.subrange(at, at + needle.len())[i - at] == s[i]);
            }
        }
    }
    if exists|before: Seq<char>, after: Seq<char>| s == #[trigger] (before + needle + after) {
        let (before, after) = choose|before: Seq<char>, after: Seq<char>|
            s == #[trigger] (before + needle + after);
        assert(s.subrange(before.len() as int, (before.len() + needle.len()) as int) =~= needle);
        assert(text::occurs_at(s, needle, before.len() as int));
    }
}

} // verus!
