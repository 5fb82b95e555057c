//! Text on the level of characters: decimal numbers, white space, searching and splicing.

use vstd::prelude::*;

verus! {

broadcast use vstd::string::group_string_axioms;

/// `String::push` appends the character to the end of the string.
pub assume_specification[ String::push ](s: &mut String, c: char)
    ensures
        final(s)@ == old(s)@.push(c),
;

/// Texts as plain values.
pub open spec fn names_of(v: Seq<String>) -> Seq<Seq<char>> {
    v.map_values(|s: String| s@)
}

/// A character of the Unicode general category `Cc`.
pub open spec fn is_control(c: char) -> bool {
    c as int <= 0x1f || 0x7f <= c as int <= 0x9f
}

/// A character with the Unicode property `White_Space`.
pub open spec fn is_white_space(c: char) -> bool {
    let v = c as int;
    ||| 0x9 <= v <= 0xd
    ||| v == 0x20 || v == 0x85 || v == 0xa0 || v == 0x1680
    ||| 0x2000 <= v <= 0x200a
    ||| v == 0x2028 || v == 0x2029 || v == 0x202f || v == 0x205f || v == 0x3000
}

/// Tests for a control character.
pub fn char_is_control(c: char) -> (r: bool)
    ensures
        r == is_control(c),
{
    let v: u32 = c as u32;
    v <= 0x1f || (0x7f <= v && v <= 0x9f)
}

/// Tests for white space.
pub fn char_is_white_space(c: char) -> (r: bool)
    ensures
        r == is_white_space(c),
{
    let v: u32 = c as u32;
    (0x9 <= v && v <= 0xd) || v == 0x20 || v == 0x85 || v == 0xa0 || v == 0x1680
        || (0x2000 <= v && v <= 0x200a) || v == 0x2028 || v == 0x2029 || v == 0x202f
        || v == 0x205f || v == 0x3000
}

/// The decimal digit for a number below ten.
pub open spec fn digit(d: nat) -> char {
    (48 + d) as char
}

/// A decimal digit.
pub open spec fn is_digit(c: char) -> bool {
    '0' <= c <= '9'
}

/// A natural number in decimal, without leading zeros.
pub open spec fn decimal(n: nat) -> Seq<char>
    decreases n,
{
    if n < 10 {
        seq![digit(n)]
    } else {
        decimal(n / 10).push(digit(n % 10))
    }
}

/// An integer in decimal, with a leading `-` when it is negative.
pub open spec fn signed_decimal(i: int) -> Seq<char> {
    if i < 0 {
        seq!['-'] + decimal((-i) as nat)
    } else {
        decimal(i as nat)
    }
}

/// `s` without the white space it starts with.
pub open spec fn trimmed_start(s: Seq<char>) -> Seq<char>
    decreases s.len(),
{
    if s.len() > 0 && is_white_space(s[0]) {
        trimmed_start(s.drop_first())
    } else {
        s
    }
}

/// `s` without the white space it ends with.
pub open spec fn trimmed_end(s: Seq<char>) -> Seq<char>
    decreases s.len(),
{
    if s.len() > 0 && is_white_space(s.last()) {
        trimmed_end(s.drop_last())
    } else {
        s
    }
}

/// `s` without the white space around it.
pub open spec fn trimmed(s: Seq<char>) -> Seq<char> {
    trimmed_end(trimmed_start(s))
}

/// `needle` stands somewhere in `hay`.
pub open spec fn occurs_in(needle: Seq<char>, hay: Seq<char>) -> bool {
    exists|i: int| #[trigger] occurs_at(needle, hay, i)
}

/// `needle` stands in `hay` from index `i` on.
pub open spec fn occurs_at(needle: Seq<char>, hay: Seq<char>, i: int) -> bool {
    0 <= i && i + needle.len() <= hay.len() && hay.subrange(i, i + needle.len()) == needle
}

/// Trimming at the start keeps a tail.
proof fn lemma_trimmed_start(s: Seq<char>) -> (from: int)
    ensures
        0 <= from <= s.len(),
        trimmed_start(s) == s.subrange(from, s.len() as int),
        from < s.len() ==> !is_white_space(s[from]),
        forall|i: int| 0 <= i < from ==> is_white_space(#[trigger] s[i]),
    decreases s.len(),
{
    if s.len() > 0 && is_white_space(s[0]) {
        let inner = lemma_trimmed_start(s.drop_first());
        assert(s.drop_first().subrange(inner, s.len() - 1) == s.subrange(
            inner + 1,
            s.len() as int,
        ));
        assert forall|i: int| 0 <= i < inner + 1 implies is_white_space(#[trigger] s[i]) by {
            if i > 0 {
                assert(s.drop_first()[i - 1] == s[i]);
            }
        }
        inner + 1
    } else {
        assert(s.subrange(0, s.len() as int) == s);
        0
    }
}

/// Trimming at the end keeps a prefix.
proof fn lemma_trimmed_end(s: Seq<char>) -> (to: int)
    ensures
        0 <= to <= s.len(),
        trimmed_end(s) == s.subrange(0, to),
        to > 0 ==> !is_white_space(s[to - 1]),
        forall|i: int| to <= i < s.len() ==> is_white_space(#[trigger] s[i]),
    decreases s.len(),
{
    if s.len() > 0 && is_white_space(s.last()) {
        let to = lemma_trimmed_end(s.drop_last());
        assert(s.drop_last().subrange(0, to) == s.subrange(0, to));
        assert forall|i: int| to <= i < s.len() implies is_white_space(#[trigger] s[i]) by {
            if i < s.len() - 1 {
                assert(s.drop_last()[i] == s[i]);
            }
        }
        to
    } else {
        assert(s.subrange(0, s.len() as int) == s);
        s.len() as int
    }
}

/// Trimming keeps a part of the text, which neither starts nor ends with white space, and takes
/// nothing but white space away.
pub proof fn lemma_trimmed(s: Seq<char>) -> (part: (int, int))
    ensures
        0 <= part.0 <= part.1 <= s.len(),
        trimmed(s) == s.subrange(part.0, part.1),
        forall|i: int|
            0 <= i < part.0 || part.1 <= i < s.len() ==> is_white_space(#[trigger] s[i]),
        trimmed(s).len() > 0 ==> !is_white_space(trimmed(s)[0]) && !is_white_space(
            trimmed(s).last(),
        ),
{
    let from = lemma_trimmed_start(s);
    let t = trimmed_start(s);
    let to = lemma_trimmed_end(t);
    assert(t.subrange(0, to) == s.subrange(from, from + to));
    assert forall|i: int| 0 <= i < from || from + to <= i < s.len() implies is_white_space(
        #[trigger] s[i],
    ) by {
        if i >= from {
            assert(t[i - from] == s[i]);
        }
    }
    (from, from + to)
}

/// The characters of a string.
pub fn chars_of(s: &str) -> (r: Vec<char>)
    ensures
        r@ == s@,
{
    let mut r: Vec<char> = Vec::new();
    for c in it: s.chars()
        invariant
            it.seq() == s@,
            r@ == s@.take(it.index() as int),
    {
        r.push(c);
    }
    r
}

/// The characters `v[from..to]` as a string.
pub fn string_of(v: &[char], from: usize, to: usize) -> (r: String)
    requires
        from <= to <= v@.len(),
    ensures
        r@ == v@.subrange(from as int, to as int),
{
    let mut r = String::new();
    let mut i: usize = from;
    while i < to
        invariant
            from <= i <= to <= v@.len(),
            r@ == v@.subrange(from as int, i as int),
        decreases to - i,
    {
        r.push(v[i]);
        i += 1;
    }
    r
}

/// Appends `n` in decimal.
pub fn push_decimal(out: &mut String, n: u64)
    ensures
        final(out)@ == old(out)@ + decimal(n as nat),
    decreases n,
{
    if n >= 10 {
        push_decimal(out, n / 10);
    }
    let c: char = (48 + (n % 10) as u8) as char;
    out.push(c);
}

/// Appends `i` in decimal.
pub fn push_signed_decimal(out: &mut String, i: i32)
    ensures
        final(out)@ == old(out)@ + signed_decimal(i as int),
{
    if i < 0 {
        out.push('-');
        push_decimal(out, (-(i as i64)) as u64);
    } else {
        push_decimal(out, i as u64);
    }
}

/// Whether two strings hold the same characters.
pub fn same_text(a: &str, b: &str) -> (r: bool)
    ensures
        r == (a@ == b@),
{
    a.to_owned() == b.to_owned()
}

/// Whether `s` starts with `prefix`.
pub fn starts_with(s: &str, prefix: &str) -> (r: bool)
    ensures
        r == occurs_at(prefix@, s@, 0),
{
    let v = chars_of(s);
    let p = chars_of(prefix);
    matches_at(&p, &v, 0)
}

/// Whether `needle` stands in `hay` from index `at` on.
fn matches_at(needle: &Vec<char>, hay: &Vec<char>, at: usize) -> (r: bool)
    requires
        at <= hay@.len(),
    ensures
        r == occurs_at(needle@, hay@, at as int),
{
    if needle.len() > hay.len() - at {
        return false;
    }
    let mut i: usize = 0;
    while i < needle.len()
        invariant
            i <= needle@.len(),
            at + needle@.len() <= hay.len(),
            forall|k: int| 0 <= k < i ==> #[trigger] needle@[k] == hay@[at + k],
        decreases needle.len() - i,
    {
        if needle[i] != hay[at + i] {
            assert(hay@.subrange(at as int, at + needle@.len())[i as int] != needle@[i as int]);
            return false;
        }
        i += 1;
    }
    assert(hay@.subrange(at as int, at + needle@.len()) =~= needle@);
    true
}

/// Whether `needle` stands somewhere in `hay`.
pub fn contains(hay: &str, needle: &str) -> (r: bool)
    ensures
        r == occurs_in(needle@, hay@),
{
    let h = chars_of(hay);
    let n = chars_of(needle);
    let mut i: usize = 0;
    loop
        invariant
            h@ == hay@,
            n@ == needle@,
            i <= h@.len(),
            forall|k: int| 0 <= k < i ==> !#[trigger] occurs_at(n@, h@, k),
        decreases h@.len() - i,
    {
        if matches_at(&n, &h, i) {
            return true;
        }
        if i == h.len() {
            return false;
        }
        i += 1;
    }
}

/// The text of `v` without the white space around it.
pub fn trim(v: &Vec<char>) -> (r: String)
    ensures
        r@ == trimmed(v@),
{
    let n: usize = v.len();
    let mut from: usize = 0;
    assert(v@.skip(0) == v@);
    while from < n && char_is_white_space(v[from])
        invariant
            n == v@.len(),
            from <= n,
            trimmed_start(v@) == trimmed_start(v@.skip(from as int)),
        decreases n - from,
    {
        assert(v@.skip(from as int).drop_first() == v@.skip(from + 1));
        from += 1;
    }
    assert(trimmed_start(v@) == v@.skip(from as int));
    assert(v@.skip(from as int) == v@.subrange(from as int, n as int));
    let mut to: usize = n;
    while to > from && char_is_white_space(v[to - 1])
        invariant
            from <= to <= n == v@.len(),
            trimmed(v@) == trimmed_end(v@.subrange(from as int, to as int)),
        decreases to,
    {
        assert(v@.subrange(from as int, to as int).drop_last() == v@.subrange(
            from as int,
            to - 1,
        ));
        to -= 1;
    }
    string_of(v, from, to)
}

/// A text stands in another if and only if that is something, the text, and something more.
pub proof fn law_texts_are_found_in_their_surroundings(
    before: Seq<char>,
    needle: Seq<char>,
    after: Seq<char>,
    hay: Seq<char>,
)
    ensures
        occurs_in(needle, before + needle + after),
        occurs_at(needle, needle + after, 0),
        occurs_in(needle, hay) ==> exists|a: Seq<char>, b: Seq<char>| #[trigger]
            (a + needle + b) == hay,
        occurs_at(needle, hay, 0) ==> exists|b: Seq<char>| #[trigger] (needle + b) == hay,
{
    let all = before + needle + after;
    assert(all.subrange(before.len() as int, (before.len() + needle.len()) as int) =~= needle);
    assert(occurs_at(needle, all, before.len() as int));
    assert((needle + after).subrange(0, needle.len() as int) =~= needle);
    if occurs_in(needle, hay) {
        let i = choose|i: int| #[trigger] occurs_at(needle, hay, i);
        let (a, b) = (hay.take(i), hay.skip(i + needle.len()));
        assert forall|k: int| 0 <= k < needle.len() implies needle[k] == hay[i + k] by {
            assert(hay.subrange(i, i + needle.len())[k] == hay[i + k]);
        }
        assert(a + needle + b =~= hay);
    }
    if occurs_at(needle, hay, 0) {
        let b = hay.skip(needle.len() as int);
        assert forall|k: int| 0 <= k < needle.len() implies needle[k] == hay[k] by {
            assert(hay.subrange(0, needle.len() as int)[k] == hay[k]);
        }
        assert(needle + b =~= hay);
    }
}

/// The value that digits stand for.
pub open spec fn value_of(digits: Seq<char>) -> int
    decreases digits.len(),
{
    if digits.len() == 0 {
        0
    } else {
        10 * value_of(digits.drop_last()) + (digits.last() as int - 48)
    }
}

/// The digits of a number stand for it, and there is no zero before them. A negative number has a
/// dash before the digits of its opposite.
pub proof fn law_digits_stand_for_their_number(n: nat)
    ensures
        value_of(decimal(n)) == n,
        decimal(n).len() > 0,
        decimal(n)[0] == '0' ==> n == 0,
        forall|i: int| 0 <= i < decimal(n).len() ==> '0' <= #[trigger] decimal(n)[i] <= '9',
        signed_decimal(n as int) == decimal(n),
        n > 0 ==> signed_decimal(-(n as int)) == seq!['-'] + decimal(n),
    decreases n,
{
    reveal_with_fuel(value_of, 2);
    if n >= 10 {
        law_digits_stand_for_their_number(n / 10);
        assert(decimal(n).drop_last() =~= decimal(n / 10));
    } else {
        assert(decimal(n).drop_last() =~= Seq::empty());
    }
}

/// The control characters are the 32 first ones, and the 33 from 127 on.
pub proof fn law_control_characters(c: char)
    ensures
        is_control(c) <==> (c as int) < 32 || 127 <= c as int && (c as int) < 127 + 33,
{
}

/// White space is the tabulator and what follows it up to the carriage return, the blank, and some
/// characters beyond ASCII.
pub proof fn law_white_space_characters(c: char)
    ensures
        is_white_space(c) <==> 9 <= c as int <= 13 || 8192 <= c as int <= 8202 || seq![
            32int,
            133,
            160,
            5760,
            8232,
            8233,
            8239,
            8287,
            12288,
        ].contains(c as int),
{
    let others = seq![32int, 133, 160, 5760, 8232, 8233, 8239, 8287, 12288];
    assert(others[0] == 32 && others[1] == 133 && others[2] == 160 && others[3] == 5760 && others[4]
        == 8232 && others[5] == 8233 && others[6] == 8239 && others[7] == 8287 && others[8]
        == 12288);
}

} // verus!
