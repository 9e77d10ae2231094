//! Character-level building blocks shared by the tokenizer and the parsers.

use vstd::prelude::*;

verus! {

/// Whether `c` is alphanumeric in the Unicode sense: the answer of
/// `char::is_alphanumeric`. The Unicode tables behind it are not restated
/// here, so proofs treat the predicate as an unknown but fixed function.
pub uninterp spec fn is_alphanumeric_char(c: char) -> bool;

/// Trusted: `char::is_alphanumeric` answers exactly [`is_alphanumeric_char`].
pub assume_specification[ char::is_alphanumeric ](c: char) -> (b: bool)
    ensures
        b == is_alphanumeric_char(c),
;

/// Whether `c` is whitespace in the Unicode sense: the answer of
/// `char::is_whitespace`. The Unicode table behind it is not restated here,
/// so proofs treat the predicate as an unknown but fixed function.
pub uninterp spec fn is_whitespace_char(c: char) -> bool;

/// Trusted: `char::is_whitespace` answers exactly [`is_whitespace_char`].
pub assume_specification[ char::is_whitespace ](c: char) -> (b: bool)
    ensures
        b == is_whitespace_char(c),
;

/// Trusted: `String::push` appends the given character to the end of the string.
pub assume_specification[ String::push ](s: &mut String, c: char)
    ensures
        final(s)@ == old(s)@.push(c),
;

/// For each character of `s`, whether it is alphanumeric.
pub open spec fn alphanumeric_flags(s: Seq<char>) -> Seq<bool> {
    Seq::new(s.len(), |i: int| is_alphanumeric_char(s[i]))
}

/// For each character of `s`, whether it is whitespace.
pub open spec fn whitespace_flags(s: Seq<char>) -> Seq<bool> {
    Seq::new(s.len(), |i: int| is_whitespace_char(s[i]))
}

/// The characters of `s`, in order.
pub fn collect_chars(s: &str) -> (v: Vec<char>)
    ensures
        v@ == s@,
{
    let mut v: Vec<char> = Vec::new();
    for c in it: s.chars()
        invariant
            v@ == it.seq().take(it.index() as int),
            it.seq() == s@,
    {
        v.push(c);
    }
    v
}

/// For each character of `chars`, whether `char::is_alphanumeric` accepts it.
pub fn classify_chars(chars: &Vec<char>) -> (flags: Vec<bool>)
    ensures
        flags@ == alphanumeric_flags(chars@),
{
    let mut flags: Vec<bool> = Vec::new();
    let mut i: usize = 0;
    while i < chars.len()
        invariant
            i <= chars.len(),
            flags@ == alphanumeric_flags(chars@).take(i as int),
        decreases chars.len() - i,
    {
        flags.push(chars[i].is_alphanumeric());
        i += 1;
    }
    flags
}

/// For each character of `chars`, whether `char::is_whitespace` accepts it.
pub fn classify_whitespace(chars: &Vec<char>) -> (flags: Vec<bool>)
    ensures
        flags@ == whitespace_flags(chars@),
{
    let mut flags: Vec<bool> = Vec::new();
    let mut i: usize = 0;
    while i < chars.len()
        invariant
            i <= chars.len(),
            flags@ == whitespace_flags(chars@).take(i as int),
        decreases chars.len() - i,
    {
        flags.push(chars[i].is_whitespace());
        i += 1;
    }
    flags
}

/// A string holding exactly the characters `chars[from..to]`.
pub(crate) fn string_of(chars: &Vec<char>, from: usize, to: usize) -> (s: String)
    requires
        from <= to <= chars.len(),
    ensures
        s@ == chars@.subrange(from as int, to as int),
{
    let mut s = String::new();
    let mut i: usize = from;
    while i < to
        invariant
            from <= i <= to <= chars.len(),
            s@ == chars@.subrange(from as int, i as int),
        decreases to - i,
    {
        s.push(chars[i]);
        i += 1;
    }
    s
}

/// The texts of a sequence of string slices.
pub open spec fn strs_view(items: Seq<&str>) -> Seq<Seq<char>> {
    items.map_values(|s: &str| s@)
}

/// The texts of a sequence of strings.
pub open spec fn strings_view(items: Seq<String>) -> Seq<Seq<char>> {
    items.map_values(|s: String| s@)
}

/// Whether `a` and `b` spell the same text.
pub fn same_text(a: &str, b: &str) -> (same: bool)
    ensures
        same == (a@ == b@),
{
    let left = collect_chars(a);
    let right = collect_chars(b);
    if left.len() != right.len() {
        return false;
    }
    let mut i: usize = 0;
    while i < left.len()
        invariant
            left@ == a@,
            right@ == b@,
            left.len() == right.len(),
            i <= left.len(),
            left@.take(i as int) == right@.take(i as int),
        decreases left.len() - i,
    {
        if left[i] != right[i] {
            return false;
        }
        assert(left@.take(i + 1) =~= left@.take(i as int).push(left@[i as int]));
        assert(right@.take(i + 1) =~= right@.take(i as int).push(right@[i as int]));
        i += 1;
    }
    assert(left@ =~= left@.take(left.len() as int));
    assert(right@ =~= right@.take(right.len() as int));
    true
}

} // verus!
