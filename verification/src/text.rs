//! Character-level text helpers shared by normalization, parsing and the
//! persistence codec: Unicode lower-casing behind a named result, decimal
//! digits, and building a `String` back up from characters.

use vstd::prelude::*;

verus! {

/// Relies on `String::push`: appends the given character to the end of the
/// string.
#[verifier::external_body]
pub(crate) fn push_char(s: &mut String, c: char)
    ensures
        final(s)@ == old(s)@ + seq![c],
{
    s.push(c);
}

/// The Unicode lower-casing of a character sequence, as
/// `str::to_lowercase` computes it: a function of the characters alone.
pub uninterp spec fn lower_of(s: Seq<char>) -> Seq<char>;

/// What the documentation of `str::to_lowercase` gives of [`lower_of`] and
/// the normalization rules need: lower-casing is idempotent, it maps text
/// to empty text exactly when the text was empty, and on the three ASCII
/// display names it gives their familiar lower-case forms.
pub open spec fn lower_of_props() -> bool {
    &&& forall|x: Seq<char>| #[trigger] lower_of(lower_of(x)) == lower_of(x)
    &&& forall|x: Seq<char>| (#[trigger] lower_of(x)).len() == 0 <==> x.len() == 0
    &&& lower_of("Cabin"@) == "cabin"@
    &&& lower_of("House"@) == "house"@
    &&& lower_of("Flat"@) == "flat"@
}

/// Whether a character is a decimal digit.
pub open spec fn is_digit(c: char) -> bool {
    '0' <= c && c <= '9'
}

/// The numeric value of a digit character.
pub open spec fn digit_val(c: char) -> int {
    c as int - '0' as int
}

/// The value of a digit sequence read as a decimal number, most significant
/// digit first.
pub open spec fn seq_val(ds: Seq<char>) -> int
    decreases ds.len(),
{
    if ds.len() == 0 {
        0
    } else {
        seq_val(ds.drop_last()) * 10 + digit_val(ds.last())
    }
}

/// Whether every character of a sequence is a decimal digit.
pub open spec fn all_digits(ds: Seq<char>) -> bool {
    forall|i: int| 0 <= i < ds.len() ==> is_digit(ds[i])
}

/// The reading of a whole string as a `u32`: defined exactly when the string
/// is non-empty, all digits, and its value fits.
pub open spec fn parse_u32_spec(s: Seq<char>) -> Option<u32> {
    if s.len() > 0 && all_digits(s) && seq_val(s) <= u32::MAX {
        Some(seq_val(s) as u32)
    } else {
        None
    }
}

/// Parse a whole string as a decimal `u32`; any non-digit, an empty string,
/// or a value out of range is refused. The grammar is deliberately strict:
/// plain digits only, so a sign such as a leading `+` is malformed input
/// and earns the field error.
pub fn parse_u32(s: &str) -> (r: Option<u32>)
    ensures
        r == parse_u32_spec(s@),
{
    let n = s.unicode_len();
    if n == 0 {
        return None;
    }
    let mut acc: u64 = 0;
    let mut i: usize = 0;
    while i < n
        invariant
            n == s@.len(),
            0 < n,
            0 <= i <= n,
            all_digits(s@.subrange(0, i as int)),
            seq_val(s@.subrange(0, i as int)) <= u32::MAX ==> acc == seq_val(
                s@.subrange(0, i as int),
            ),
            seq_val(s@.subrange(0, i as int)) > u32::MAX ==> acc > u32::MAX,
            acc <= 0xffff_ffffu64 * 10 + 9,
        decreases n - i,
    {
        let c = s.get_char(i);
        let x = c as u32;
        if x < 48 || x > 57 {
            assert(!is_digit(s@[i as int]));
            return None;
        }
        let d = (x - 48) as u64;
        let ghost pre = s@.subrange(0, i as int);
        let ghost post = s@.subrange(0, i as int + 1);
        assert(post.drop_last() =~= pre);
        assert(post.last() == s@[i as int]);
        assert(seq_val(post) == seq_val(pre) * 10 + digit_val(s@[i as int]));
        if acc <= 0xffff_ffffu64 {
            acc = acc * 10 + d;
        } else {
            assert(seq_val(pre) > u32::MAX);
            assert(seq_val(post) > u32::MAX);
        }
        i = i + 1;
    }
    assert(s@.subrange(0, n as int) =~= s@);
    if acc <= 0xffff_ffffu64 {
        Some(acc as u32)
    } else {
        None
    }
}

/// That `r` is the lower-casing of `s`, together with the general facts of
/// [`lower_of_props`].
pub open spec fn lowered_to(r: Seq<char>, s: Seq<char>) -> bool {
    r == lower_of(s) && lower_of_props()
}

/// Relies on `str::to_lowercase`: the result is the Unicode lowercase
/// equivalent of the input, without locale tailoring, so it depends on the
/// characters alone; the facts of [`lower_of_props`] hold of it.
#[verifier::external_body]
pub(crate) fn lower(s: &str) -> (r: String)
    ensures
        r@ == lower_of(s@),
        lowered_to(r@, s@),
{
    s.to_lowercase()
}

} // verus!
