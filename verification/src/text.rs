//! Text helpers: decimal and hexadecimal rendering, trimming, searching,
//! ordering and hashing, each with an exact statement over `Seq<char>`.

use vstd::prelude::*;
use vstd::string::*;
use vstd::utf8::*;

verus! {

/// `String::push` appends one character.
pub assume_specification[ String::push ](s: &mut String, c: char)
    ensures
        final(s)@ == old(s)@.push(c),
;

/// The characters of a string.
pub fn chars_of(text: &str) -> (r: Vec<char>)
    ensures
        r@ == text@,
{
    let mut out: Vec<char> = Vec::new();
    for c in it: text.chars()
        invariant
            it.seq() == text@,
            out@ == text@.take(it.index() as int),
    {
        out.push(c);
        assert(text@.take(it.index() as int + 1) =~= text@.take(it.index() as int).push(
            text@[it.index() as int],
        ));
    }
    assert(out@ =~= text@);
    out
}

/// The string of a range of characters.
pub fn text_of(chars: &Vec<char>, from: usize, to: usize) -> (r: String)
    requires
        from <= to <= chars.len(),
    ensures
        r@ == chars@.subrange(from as int, to as int),
{
    let mut out = String::new();
    let mut i: usize = from;
    while i < to
        invariant
            from <= i <= to <= chars.len(),
            out@ == chars@.subrange(from as int, i as int),
        decreases to - i,
    {
        out.push(chars[i]);
        assert(chars@.subrange(from as int, i as int + 1) =~= chars@.subrange(
            from as int,
            i as int,
        ).push(chars@[i as int]));
        i = i + 1;
    }
    out
}

/// Whether two texts hold the same characters.
pub fn text_eq(a: &str, b: &str) -> (r: bool)
    ensures
        r == (a@ == b@),
{
    let left = a.to_owned();
    let right = b.to_owned();
    left == right
}

// ---------------------------------------------------------------------------
// Numbers
// ---------------------------------------------------------------------------

/// The character of one decimal or lower-case hexadecimal digit.
pub open spec fn digit_char(d: nat) -> char {
    if d < 10 {
        (48 + d) as char
    } else {
        (87 + d) as char
    }
}

/// The decimal text of a number, without leading zeros.
pub open spec fn decimal(n: nat) -> Seq<char>
    decreases n,
{
    if n < 10 {
        seq![digit_char(n)]
    } else {
        decimal(n / 10).push(digit_char(n % 10))
    }
}

fn digit(d: u8) -> (c: char)
    requires
        d < 16,
    ensures
        c == digit_char(d as nat),
{
    if d < 10 {
        (48 + d) as char
    } else {
        (87 + d) as char
    }
}

pub fn decimal_text(n: u64) -> (r: String)
    ensures
        r@ == decimal(n as nat),
    decreases n,
{
    if n < 10 {
        let mut out = String::new();
        out.push(digit(n as u8));
        assert(out@ =~= seq![digit_char(n as nat)]);
        out
    } else {
        let mut out = decimal_text(n / 10);
        out.push(digit((n % 10) as u8));
        out
    }
}

/// The decimal text of a signed number.
pub open spec fn signed_decimal(n: int) -> Seq<char> {
    if n < 0 {
        "-"@ + decimal((-n) as nat)
    } else {
        decimal(n as nat)
    }
}

pub fn signed_text(n: i32) -> (r: String)
    ensures
        r@ == signed_decimal(n as int),
{
    let wide: i64 = n as i64;
    if wide < 0 {
        "-".to_owned().concat(decimal_text((-wide) as u64).as_str())
    } else {
        decimal_text(wide as u64)
    }
}

/// The last `width` hexadecimal digits of a number.
pub open spec fn hex_digits(n: nat, width: nat) -> Seq<char>
    decreases width,
{
    if width == 0 {
        Seq::empty()
    } else {
        hex_digits(n / 16, (width - 1) as nat).push(digit_char(n % 16))
    }
}

pub fn hex_text(n: u64, width: u8) -> (r: String)
    ensures
        r@ == hex_digits(n as nat, width as nat),
    decreases width,
{
    if width == 0 {
        String::new()
    } else {
        let mut out = hex_text(n / 16, width - 1);
        out.push(digit((n % 16) as u8));
        out
    }
}

/// Whether a character is a decimal digit.
pub open spec fn is_digit(c: char) -> bool {
    '0' <= c && c <= '9'
}

/// The number that decimal digits stand for.
pub open spec fn digits_value(s: Seq<char>) -> nat
    decreases s.len(),
{
    if s.len() == 0 {
        0
    } else {
        digits_value(s.drop_last()) * 10 + ((s.last() as int - '0' as int) as nat)
    }
}

/// What stands behind an optional plus sign.
pub open spec fn unsigned_part(s: Seq<char>) -> Seq<char> {
    if s.len() > 0 && s[0] == '+' {
        s.skip(1)
    } else {
        s
    }
}

/// The unsigned number of 64 bits that a text stands for: digits, after an
/// optional plus sign.
pub open spec fn unsigned_value(s: Seq<char>) -> Option<u64> {
    let digits = unsigned_part(s);
    if digits.len() > 0 && (forall|i: int| 0 <= i < digits.len() ==> is_digit(#[trigger] digits[i]))
        && digits_value(digits) <= u64::MAX {
        Some(digits_value(digits) as u64)
    } else {
        None
    }
}

proof fn lemma_digits_value_grows(s: Seq<char>, k: int)
    requires
        0 <= k <= s.len(),
    ensures
        digits_value(s.take(k)) <= digits_value(s),
    decreases s.len(),
{
    if k < s.len() {
        assert(s.drop_last().take(k) =~= s.take(k));
        lemma_digits_value_grows(s.drop_last(), k);
    } else {
        assert(s.take(k) =~= s);
    }
}

/// The unsigned number of 64 bits that a text stands for.
pub fn parse_unsigned(s: &str) -> (r: Option<u64>)
    ensures
        r == unsigned_value(s@),
{
    let chars = chars_of(s);
    let ghost digits = unsigned_part(s@);
    let start: usize = if chars.len() > 0 && chars[0] == '+' {
        1
    } else {
        0
    };
    assert(digits =~= s@.skip(start as int));
    if start == chars.len() {
        return None;
    }
    let mut value: u64 = 0;
    let mut i: usize = start;
    while i < chars.len()
        invariant
            chars@ == s@,
            digits == s@.skip(start as int),
            digits == unsigned_part(s@),
            start <= i <= chars.len(),
            value == digits_value(digits.take(i - start)),
            forall|j: int| 0 <= j < i - start ==> is_digit(#[trigger] digits[j]),
        decreases chars.len() - i,
    {
        let c = chars[i];
        assert(digits[i - start] == c);
        assert(digits.take(i - start + 1).drop_last() =~= digits.take(i - start));
        if !('0' <= c && c <= '9') {
            return None;
        }
        let digit: u64 = (c as u32 - '0' as u32) as u64;
        if value > (u64::MAX - digit) / 10 {
            proof {
                lemma_digits_value_grows(digits, i - start + 1);
            }
            return None;
        }
        value = value * 10 + digit;
        i = i + 1;
    }
    assert(digits.take(i - start) =~= digits);
    Some(value)
}

// ---------------------------------------------------------------------------
// Trimming and case
// ---------------------------------------------------------------------------

/// The Unicode `White_Space` property.
pub open spec fn is_space(c: char) -> bool {
    let n = c as u32;
    ||| 0x9 <= n <= 0xd
    ||| n == 0x20
    ||| n == 0x85
    ||| n == 0xa0
    ||| n == 0x1680
    ||| 0x2000 <= n <= 0x200a
    ||| n == 0x2028
    ||| n == 0x2029
    ||| n == 0x202f
    ||| n == 0x205f
    ||| n == 0x3000
}

pub fn space(c: char) -> (r: bool)
    ensures
        r == is_space(c),
{
    let n: u32 = c as u32;
    (0x9 <= n && n <= 0xd) || n == 0x20 || n == 0x85 || n == 0xa0 || n == 0x1680 || (0x2000 <= n
        && n <= 0x200a) || n == 0x2028 || n == 0x2029 || n == 0x202f || n == 0x205f || n == 0x3000
}

/// A text without its leading white space.
pub open spec fn trim_start(s: Seq<char>) -> Seq<char>
    decreases s.len(),
{
    if s.len() > 0 && is_space(s[0]) {
        trim_start(s.drop_first())
    } else {
        s
    }
}

/// A text without its trailing white space.
pub open spec fn trim_end(s: Seq<char>) -> Seq<char>
    decreases s.len(),
{
    if s.len() > 0 && is_space(s.last()) {
        trim_end(s.drop_last())
    } else {
        s
    }
}

/// A text without its leading and trailing white space.
pub open spec fn trimmed(s: Seq<char>) -> Seq<char> {
    trim_end(trim_start(s))
}

/// Whether a text holds nothing but white space.
pub open spec fn is_blank(s: Seq<char>) -> bool {
    trimmed(s).len() == 0
}

pub fn trim(text: &str) -> (r: String)
    ensures
        r@ == trimmed(text@),
{
    let chars = chars_of(text);
    let mut from: usize = 0;
    assert(chars@.skip(0) =~= text@);
    while from < chars.len() && space(chars[from])
        invariant
            chars@ == text@,
            from <= chars.len(),
            trim_start(chars@.skip(from as int)) == trim_start(text@),
        decreases chars.len() - from,
    {
        assert(chars@.skip(from as int).drop_first() =~= chars@.skip(from as int + 1));
        from = from + 1;
    }
    let mut to: usize = chars.len();
    assert(chars@.subrange(from as int, to as int) =~= chars@.skip(from as int));
    while from < to && space(chars[to - 1])
        invariant
            from <= to <= chars.len(),
            trim_end(chars@.subrange(from as int, to as int)) == trimmed(text@),
        decreases to,
    {
        assert(chars@.subrange(from as int, to as int).drop_last() =~= chars@.subrange(
            from as int,
            to as int - 1,
        ));
        to = to - 1;
    }
    text_of(&chars, from, to)
}

pub fn blank(text: &str) -> (r: bool)
    ensures
        r == is_blank(text@),
{
    trim(text).as_str().is_empty()
}

/// A character with ASCII upper case mapped to lower case.
pub open spec fn lower_char(c: char) -> char {
    if 65 <= c as u32 <= 90 {
        ((c as u32 + 32) as u8) as char
    } else {
        c
    }
}

/// A text with ASCII upper case mapped to lower case.
pub open spec fn lowered(s: Seq<char>) -> Seq<char> {
    Seq::new(s.len(), |i: int| lower_char(s[i]))
}

fn lower(c: char) -> (r: char)
    ensures
        r == lower_char(c),
{
    let n: u32 = c as u32;
    if 65 <= n && n <= 90 {
        ((n + 32) as u8) as char
    } else {
        c
    }
}

pub fn lowercase(text: &str) -> (r: String)
    ensures
        r@ == lowered(text@),
{
    let chars = chars_of(text);
    let mut out = String::new();
    let mut i: usize = 0;
    while i < chars.len()
        invariant
            chars@ == text@,
            i <= chars.len(),
            out@ == lowered(text@.take(i as int)),
        decreases chars.len() - i,
    {
        out.push(lower(chars[i]));
        i = i + 1;
        assert(out@ =~= lowered(text@.take(i as int)));
    }
    assert(text@.take(i as int) =~= text@);
    out
}

/// Whether two texts are equal up to ASCII case.
pub open spec fn same_ignoring_case(a: Seq<char>, b: Seq<char>) -> bool {
    lowered(a) == lowered(b)
}

pub fn eq_ignore_case(a: &str, b: &str) -> (r: bool)
    ensures
        r == same_ignoring_case(a@, b@),
{
    let left = lowercase(a);
    let right = lowercase(b);
    left == right
}

// ---------------------------------------------------------------------------
// Searching
// ---------------------------------------------------------------------------

/// Whether `needle` stands in `s` at position `at`.
pub open spec fn occurs_at(s: Seq<char>, needle: Seq<char>, at: int) -> bool {
    0 <= at && at + needle.len() <= s.len() && s.subrange(at, at + needle.len()) == needle
}

/// Whether `needle` stands anywhere in `s`.
pub open spec fn holds_text(s: Seq<char>, needle: Seq<char>) -> bool {
    exists|at: int| occurs_at(s, needle, at)
}

/// The first position at or after `from` where `needle` stands in `s`.
pub open spec fn first_occurrence(s: Seq<char>, needle: Seq<char>, from: int) -> Option<int>
    decreases s.len() + 1 - from,
{
    if from < 0 || from + needle.len() > s.len() {
        None
    } else if occurs_at(s, needle, from) {
        Some(from)
    } else {
        first_occurrence(s, needle, from + 1)
    }
}

pub proof fn lemma_first_occurrence(s: Seq<char>, needle: Seq<char>, from: int)
    requires
        0 <= from,
    ensures
        match first_occurrence(s, needle, from) {
            Some(at) => from <= at && occurs_at(s, needle, at) && forall|j: int|
                from <= j < at ==> !occurs_at(s, needle, j),
            None => forall|j: int| from <= j ==> !occurs_at(s, needle, j),
        },
    decreases s.len() + 1 - from,
{
    if from + needle.len() <= s.len() && !occurs_at(s, needle, from) {
        lemma_first_occurrence(s, needle, from + 1);
    }
}

fn occurs(s: &Vec<char>, needle: &Vec<char>, at: usize) -> (r: bool)
    requires
        at + needle.len() <= s.len(),
    ensures
        r == occurs_at(s@, needle@, at as int),
{
    let mut i: usize = 0;
    while i < needle.len()
        invariant
            at + needle.len() <= s.len(),
            i <= needle.len(),
            forall|j: int| 0 <= j < i ==> s[at + j] == needle[j],
        decreases needle.len() - i,
    {
        if s[at + i] != needle[i] {
            assert(s@.subrange(at as int, at + needle.len())[i as int] != needle@[i as int]);
            return false;
        }
        i = i + 1;
    }
    assert(s@.subrange(at as int, at + needle.len()) =~= needle@);
    true
}

pub fn find(s: &Vec<char>, needle: &Vec<char>) -> (r: Option<usize>)
    ensures
        match r {
            Some(at) => first_occurrence(s@, needle@, 0) == Some(at as int),
            None => first_occurrence(s@, needle@, 0) is None,
        },
{
    if needle.len() > s.len() {
        return None;
    }
    let last: usize = s.len() - needle.len();
    let mut at: usize = 0;
    while at <= last
        invariant
            last == s.len() - needle.len(),
            at <= last + 1,
            s.len() <= usize::MAX,
            first_occurrence(s@, needle@, 0) == first_occurrence(s@, needle@, at as int),
        decreases last + 1 - at,
    {
        if occurs(s, needle, at) {
            return Some(at);
        }
        if at == last {
            return None;
        }
        at = at + 1;
    }
    None
}

pub fn text_contains(text: &str, needle: &str) -> (r: bool)
    ensures
        r == holds_text(text@, needle@),
{
    let found = find(&chars_of(text), &chars_of(needle));
    proof {
        lemma_first_occurrence(text@, needle@, 0);
    }
    found.is_some()
}

pub fn starts_with(text: &str, prefix: &str) -> (r: bool)
    ensures
        r == prefix@.is_prefix_of(text@),
{
    let s = chars_of(text);
    let p = chars_of(prefix);
    if p.len() > s.len() {
        return false;
    }
    let r = occurs(&s, &p, 0);
    r
}

/// The parts before and after the first occurrence of `needle`.
pub open spec fn split_first(s: Seq<char>, needle: Seq<char>) -> Option<(Seq<char>, Seq<char>)> {
    match first_occurrence(s, needle, 0) {
        Some(at) => Some((s.take(at), s.skip(at + needle.len()))),
        None => None,
    }
}

pub fn split_once(text: &str, needle: &str) -> (r: Option<(String, String)>)
    ensures
        r.deep_view() == split_first(text@, needle@),
{
    let s = chars_of(text);
    let p = chars_of(needle);
    match find(&s, &p) {
        Some(at) => {
            proof {
                lemma_first_occurrence(text@, needle@, 0);
            }
            let head = text_of(&s, 0, at);
            let tail = text_of(&s, at + p.len(), s.len());
            assert(head@ =~= text@.take(at as int));
            assert(tail@ =~= text@.skip(at + needle@.len()));
            Some((head, tail))
        },
        None => None,
    }
}

// ---------------------------------------------------------------------------
// Order
// ---------------------------------------------------------------------------

/// Lexicographic order of texts by code point.
pub open spec fn text_lt(a: Seq<char>, b: Seq<char>) -> bool
    decreases a.len(),
{
    if b.len() == 0 {
        false
    } else if a.len() == 0 {
        true
    } else if a[0] != b[0] {
        (a[0] as int) < (b[0] as int)
    } else {
        text_lt(a.drop_first(), b.drop_first())
    }
}

pub proof fn lemma_text_lt_total(a: Seq<char>, b: Seq<char>)
    ensures
        text_lt(a, b) || text_lt(b, a) || a == b,
        !(text_lt(a, b) && text_lt(b, a)),
        !text_lt(a, a),
    decreases a.len(),
{
    if a.len() == 0 && b.len() == 0 {
        assert(a =~= b);
    } else if a.len() > 0 {
        lemma_text_lt_total(a.drop_first(), a.drop_first());
        if b.len() > 0 && a[0] == b[0] {
            lemma_text_lt_total(a.drop_first(), b.drop_first());
            assert(text_lt(b, a) == text_lt(b.drop_first(), a.drop_first()));
            if a.drop_first() == b.drop_first() {
                assert(a =~= seq![a[0]] + a.drop_first());
                assert(b =~= seq![b[0]] + b.drop_first());
            }
        }
    }
}

pub proof fn lemma_text_lt_transitive(a: Seq<char>, b: Seq<char>, c: Seq<char>)
    requires
        text_lt(a, b),
        text_lt(b, c),
    ensures
        text_lt(a, c),
    decreases a.len(),
{
    if a.len() > 0 && a[0] == b[0] && b[0] == c[0] {
        lemma_text_lt_transitive(a.drop_first(), b.drop_first(), c.drop_first());
    }
}

fn char_less(a: char, b: char) -> (r: bool)
    ensures
        r == ((a as int) < (b as int)),
{
    (a as u32) < (b as u32)
}

pub fn text_less(a: &str, b: &str) -> (r: bool)
    ensures
        r == text_lt(a@, b@),
{
    let left = chars_of(a);
    let right = chars_of(b);
    let mut i: usize = 0;
    assert(left@.skip(0) =~= a@);
    assert(right@.skip(0) =~= b@);
    while i < left.len() && i < right.len()
        invariant
            i <= left.len(),
            i <= right.len(),
            text_lt(a@, b@) == text_lt(left@.skip(i as int), right@.skip(i as int)),
        decreases left.len() - i,
    {
        if left[i] != right[i] {
            return char_less(left[i], right[i]);
        }
        assert(left@.skip(i as int).drop_first() =~= left@.skip(i as int + 1));
        assert(right@.skip(i as int).drop_first() =~= right@.skip(i as int + 1));
        i = i + 1;
    }
    i < right.len()
}

// ---------------------------------------------------------------------------
// Lists
// ---------------------------------------------------------------------------

/// The position before which a text belongs in an ordered list.
pub open spec fn sort_position(rows: Seq<Seq<char>>, s: Seq<char>) -> int
    decreases rows.len(),
{
    if rows.len() == 0 {
        0
    } else if text_lt(s, rows.last()) {
        sort_position(rows.drop_last(), s)
    } else {
        rows.len() as int
    }
}

/// An ordered list with one more text.
pub open spec fn sort_insert(rows: Seq<Seq<char>>, s: Seq<char>) -> Seq<Seq<char>> {
    rows.insert(sort_position(rows, s), s)
}

/// The texts of a list in order.
pub open spec fn sorted(rows: Seq<Seq<char>>) -> Seq<Seq<char>>
    decreases rows.len(),
{
    if rows.len() == 0 {
        Seq::empty()
    } else {
        sort_insert(sorted(rows.drop_last()), rows.last())
    }
}

/// Whether no text stands before a smaller one.
pub open spec fn in_order(rows: Seq<Seq<char>>) -> bool {
    forall|i: int, j: int| 0 <= i < j < rows.len() ==> !text_lt(rows[j], rows[i])
}

proof fn lemma_sort_position(rows: Seq<Seq<char>>, s: Seq<char>)
    requires
        in_order(rows),
    ensures
        0 <= sort_position(rows, s) <= rows.len(),
        forall|j: int| 0 <= j < sort_position(rows, s) ==> !text_lt(s, rows[j]),
        forall|j: int| sort_position(rows, s) <= j < rows.len() ==> text_lt(s, rows[j]),
    decreases rows.len(),
{
    if rows.len() > 0 {
        if text_lt(s, rows.last()) {
            let before = rows.drop_last();
            lemma_sort_position(before, s);
            assert forall|j: int| 0 <= j < sort_position(rows, s) implies !text_lt(s, rows[j]) by {
                assert(before[j] == rows[j]);
            }
            assert forall|j: int| sort_position(rows, s) <= j < rows.len() implies text_lt(
                s,
                rows[j],
            ) by {
                if j < before.len() {
                    assert(before[j] == rows[j]);
                }
            }
        } else {
            assert forall|j: int| 0 <= j < rows.len() implies !text_lt(s, rows[j]) by {
                if text_lt(s, rows[j]) && j < rows.len() - 1 {
                    lemma_text_lt_total(rows[j], rows.last());
                    if text_lt(rows[j], rows.last()) {
                        lemma_text_lt_transitive(s, rows[j], rows.last());
                    }
                }
            }
        }
    }
}

/// Sorting yields the same texts, each as often as before, in order.
pub proof fn lemma_sorted(rows: Seq<Seq<char>>)
    ensures
        in_order(sorted(rows)),
        sorted(rows).to_multiset() == rows.to_multiset(),
        sorted(rows).len() == rows.len(),
    decreases rows.len(),
{
    broadcast use vstd::seq_lib::group_to_multiset_ensures;

    if rows.len() > 0 {
        let before = sorted(rows.drop_last());
        let s = rows.last();
        lemma_sorted(rows.drop_last());
        lemma_sort_position(before, s);
        let at = sort_position(before, s);
        let out = sort_insert(before, s);
        assert forall|i: int, j: int| 0 <= i < j < out.len() implies !text_lt(out[j], out[i]) by {
            if i == at {
                lemma_text_lt_total(before[j - 1], s);
            }
            if j == at {
                lemma_text_lt_total(before[i], s);
            }
        }
        assert(rows =~= rows.drop_last().push(s));
    }
}

/// The texts of a list in order.
pub fn sort_texts(rows: &Vec<String>) -> (r: Vec<String>)
    ensures
        r.deep_view() == sorted(rows.deep_view()),
{
    let ghost all = rows.deep_view();
    let mut out: Vec<String> = Vec::new();
    let mut i: usize = 0;
    assert(out.deep_view() =~= sorted(all.take(0)));
    while i < rows.len()
        invariant
            all == rows.deep_view(),
            i <= rows.len(),
            out.deep_view() == sorted(all.take(i as int)),
        decreases rows.len() - i,
    {
        assert(all.take(i as int + 1).drop_last() =~= all.take(i as int));
        assert(all[i as int] == rows[i as int]@);
        let ghost before = out.deep_view();
        let ghost s = rows[i as int]@;
        let mut at: usize = out.len();
        assert(before.take(at as int) =~= before);
        while at > 0 && text_less(rows[i].as_str(), out[at - 1].as_str())
            invariant
                i < rows.len(),
                s == rows[i as int]@,
                before == out.deep_view(),
                at <= out.len(),
                sort_position(before, s) == sort_position(before.take(at as int), s),
            decreases at,
        {
            assert(before[at - 1] == out[at - 1]@);
            assert(before.take(at as int).drop_last() =~= before.take(at - 1));
            at = at - 1;
        }
        if at > 0 {
            assert(before.take(at as int).last() == out[at - 1]@);
        }
        assert(sort_position(before, s) == at);
        out.insert(at, rows[i].as_str().to_owned());
        assert(out.deep_view() =~= before.insert(at as int, s));
        i = i + 1;
    }
    assert(all.take(i as int) =~= all);
    out
}

/// Texts joined by a separator.
pub open spec fn joined(parts: Seq<Seq<char>>, separator: Seq<char>) -> Seq<char>
    decreases parts.len(),
{
    if parts.len() == 0 {
        Seq::empty()
    } else if parts.len() == 1 {
        parts[0]
    } else {
        joined(parts.drop_last(), separator) + separator + parts.last()
    }
}

pub fn join(parts: &Vec<String>, separator: &str) -> (r: String)
    ensures
        r@ == joined(parts.deep_view(), separator@),
{
    let mut out = String::new();
    let mut i: usize = 0;
    while i < parts.len()
        invariant
            i <= parts.len(),
            out@ == joined(parts.deep_view().take(i as int), separator@),
        decreases parts.len() - i,
    {
        let ghost all = parts.deep_view();
        assert(all.take(i as int + 1).drop_last() =~= all.take(i as int));
        if i > 0 {
            out.append(separator);
        }
        out.append(parts[i].as_str());
        if i == 0 {
            assert(out@ =~= all.take(1)[0]);
        }
        i = i + 1;
    }
    assert(parts.deep_view().take(i as int) =~= parts.deep_view());
    out
}

/// The words of a text: its longest runs without white space.
pub open spec fn words_of(s: Seq<char>) -> Seq<Seq<char>>
    decreases s.len(),
{
    if s.len() == 0 {
        Seq::empty()
    } else {
        let before = words_of(s.drop_last());
        if is_space(s.last()) {
            before
        } else if s.len() == 1 || is_space(s[s.len() - 2]) {
            before.push(seq![s.last()])
        } else {
            before.drop_last().push(before.last().push(s.last()))
        }
    }
}

/// The words of a text.
pub fn words(text: &str) -> (r: Vec<String>)
    ensures
        r.deep_view() == words_of(text@),
{
    let chars = chars_of(text);
    let ghost all = text@;
    let mut out: Vec<String> = Vec::new();
    let mut word = String::new();
    let mut inside: bool = false;
    let mut i: usize = 0;
    assert(out.deep_view() =~= words_of(all.take(0)));
    while i < chars.len()
        invariant
            chars@ == all,
            i <= chars.len(),
            inside == (i > 0 && !is_space(all[i - 1])),
            words_of(all.take(i as int)) == if inside {
                out.deep_view().push(word@)
            } else {
                out.deep_view()
            },
        decreases chars.len() - i,
    {
        let ghost seen = all.take(i as int + 1);
        assert(seen.drop_last() =~= all.take(i as int));
        let ghost done = out.deep_view();
        let c = chars[i];
        if space(c) {
            if inside {
                let finished = word;
                out.push(finished);
                assert(out.deep_view() =~= words_of(seen));
            }
            word = String::new();
            inside = false;
        } else {
            if inside {
                assert(done.push(word@).drop_last() =~= done);
                assert(done.push(word@).last() == word@);
                word.push(c);
            } else {
                word = String::new();
                word.push(c);
                assert(word@ =~= seq![c]);
            }
            inside = true;
        }
        i = i + 1;
    }
    assert(all.take(i as int) =~= all);
    if inside {
        out.push(word);
        assert(out.deep_view() =~= words_of(all));
    }
    out
}

/// The lines of a text: split at line feeds, a carriage return before one
/// dropped, and no line after a final line feed.
pub open spec fn lines_of(s: Seq<char>) -> Seq<Seq<char>>
    decreases s.len(),
{
    match first_occurrence(s, seq!['\n'], 0) {
        Some(at) => if 0 <= at < s.len() {
            seq![without_return(s.take(at))] + lines_of(s.skip(at + 1))
        } else {
            Seq::empty()
        },
        None => if s.len() == 0 {
            Seq::empty()
        } else {
            seq![s]
        },
    }
}

/// A line without the carriage return at its end.
pub open spec fn without_return(s: Seq<char>) -> Seq<char> {
    if s.len() > 0 && s.last() == '\r' {
        s.drop_last()
    } else {
        s
    }
}

pub fn lines(text: &str) -> (r: Vec<String>)
    ensures
        r.deep_view() == lines_of(text@),
    decreases text@.len(),
{
    match split_once(text, "\n") {
        Some((head, tail)) => {
            proof {
                reveal_strlit("\n");
                assert("\n"@ =~= seq!['\n']);
                lemma_first_occurrence(text@, "\n"@, 0);
            }
            let chars = chars_of(&head);
            let end: usize = if chars.len() > 0 && chars[chars.len() - 1] == '\r' {
                chars.len() - 1
            } else {
                chars.len()
            };
            let first = text_of(&chars, 0, end);
            assert(first@ =~= without_return(head@));
            let mut out: Vec<String> = Vec::new();
            out.push(first);
            let mut rest = lines(&tail);
            out.append(&mut rest);
            assert(out.deep_view() =~= lines_of(text@));
            out
        },
        None => {
            proof {
                reveal_strlit("\n");
                assert("\n"@ =~= seq!['\n']);
            }
            let mut out: Vec<String> = Vec::new();
            if !text.is_empty() {
                out.push(text.to_owned());
            }
            assert(out.deep_view() =~= lines_of(text@));
            out
        },
    }
}

// ---------------------------------------------------------------------------
// Excerpts
// ---------------------------------------------------------------------------

/// How many bytes an excerpt keeps at each end.
pub const EDGE_BYTES: usize = 4096;

/// The last character boundary at or before a byte position.
pub open spec fn boundary_before(bytes: Seq<u8>, at: int) -> int
    decreases at,
{
    if at <= 0 || is_char_boundary(bytes, at) {
        at
    } else {
        boundary_before(bytes, at - 1)
    }
}

/// The first character boundary at or after a byte position.
pub open spec fn boundary_after(bytes: Seq<u8>, at: int) -> int
    decreases bytes.len() - at,
{
    if at >= bytes.len() || is_char_boundary(bytes, at) {
        at
    } else {
        boundary_after(bytes, at + 1)
    }
}

/// A text of bounded size: a long one keeps its ends and says how many bytes
/// are left out between them.
pub open spec fn excerpt(s: Seq<char>) -> Seq<char> {
    let bytes = encode_utf8(s);
    if bytes.len() <= EDGE_BYTES * 2 {
        s
    } else {
        let from = boundary_before(bytes, EDGE_BYTES as int);
        let to = boundary_after(bytes, bytes.len() - EDGE_BYTES);
        decode_utf8(bytes.subrange(0, from)) + "\n...["@ + decimal((to - from) as nat)
            + " bytes omitted]...\n"@ + decode_utf8(bytes.subrange(to, bytes.len() as int))
    }
}

pub fn diagnostic_excerpt(value: &str) -> (r: String)
    ensures
        r@ == excerpt(value@),
{
    let raw = value.as_bytes();
    let ghost bytes = encode_utf8(value@);
    let size: usize = raw.len();
    assert(size == bytes.len());
    if size <= EDGE_BYTES * 2 {
        return value.to_owned();
    }
    proof {
        encode_utf8_valid_utf8(value@);
        is_char_boundary_start_end_of_seq(bytes);
    }
    let mut from: usize = EDGE_BYTES;
    while from > 0 && !value.is_char_boundary(from)
        invariant
            bytes == encode_utf8(value@),
            from <= EDGE_BYTES,
            boundary_before(bytes, EDGE_BYTES as int) == boundary_before(bytes, from as int),
        decreases from,
    {
        from = from - 1;
    }
    let mut to: usize = size - EDGE_BYTES;
    while to < size && !value.is_char_boundary(to)
        invariant
            bytes == encode_utf8(value@),
            size == bytes.len(),
            EDGE_BYTES <= to <= size,
            boundary_after(bytes, size - EDGE_BYTES) == boundary_after(bytes, to as int),
        decreases size - to,
    {
        to = to + 1;
    }
    assert(is_char_boundary(bytes, from as int));
    assert(is_char_boundary(bytes, to as int));
    let (head, _) = value.split_at(from);
    let (_, tail) = value.split_at(to);
    proof {
        encode_utf8_decode_utf8(head@);
        encode_utf8_decode_utf8(tail@);
    }
    head.to_owned().concat("\n...[").concat(decimal_text((to - from) as u64).as_str()).concat(
        " bytes omitted]...\n",
    ).concat(tail)
}

// ---------------------------------------------------------------------------
// Hashing
// ---------------------------------------------------------------------------

/// The 64-bit FNV-1a hash.
pub open spec fn fnv_hash(bytes: Seq<u8>) -> u64
    decreases bytes.len(),
{
    if bytes.len() == 0 {
        0xcbf2_9ce4_8422_2325u64
    } else {
        (fnv_hash(bytes.drop_last()) ^ (bytes.last() as u64)).wrapping_mul(0x100_0000_01b3u64)
    }
}

/// The hash of a byte string as hexadecimal text of fixed width.
pub open spec fn fnv_text(bytes: Seq<u8>) -> Seq<char> {
    hex_digits(fnv_hash(bytes) as nat, 16)
}

pub fn fnv1a64(bytes: &[u8]) -> (r: String)
    ensures
        r@ == fnv_text(bytes@),
{
    let mut hash: u64 = 0xcbf2_9ce4_8422_2325;
    let mut i: usize = 0;
    while i < bytes.len()
        invariant
            i <= bytes.len(),
            hash == fnv_hash(bytes@.take(i as int)),
        decreases bytes.len() - i,
    {
        assert(bytes@.take(i as int + 1).drop_last() =~= bytes@.take(i as int));
        hash = (hash ^ (bytes[i] as u64)).wrapping_mul(0x100_0000_01b3);
        i = i + 1;
    }
    assert(bytes@.take(i as int) =~= bytes@);
    hex_text(hash, 16)
}

} // verus!
