//! Laws of the keyed lists and of the numbers that the library carries.
use vstd::prelude::*;

use crate::scalar::{double_min, is_nan, rank, singles_equal, Double, Single};
use crate::strmap::StrMap;
use crate::text::{comes_before, eq_ignore_ascii_case, parse_u64, signed_decimal_of};

verus! {

/// What is put under a key is found there, and only there; what is removed is not
/// found; every other key keeps what it had.
pub proof fn law_a_key_holds_what_was_put_there<V>(
    m: &mut StrMap<V>,
    n: &mut StrMap<V>,
    key: String,
    value: V,
    gone: &str,
    other: Seq<char>,
)
    requires
        call_ensures(StrMap::<V>::insert, (m, key, value), ()),
        call_ensures(StrMap::<V>::remove, (n, gone), ()),
    ensures
        final(m)@.dom().contains(key@),
        final(m)@[key@] == value,
        other != key@ ==> (final(m)@.dom().contains(other) <==> old(m)@.dom().contains(other)),
        other != key@ && old(m)@.dom().contains(other) ==> final(m)@[other] == old(m)@[other],
        !final(n)@.dom().contains(gone@),
        other != gone@ ==> (final(n)@.dom().contains(other) <==> old(n)@.dom().contains(other)),
        other != gone@ && old(n)@.dom().contains(other) ==> final(n)@[other] == old(n)@[other],
{
}

/// Two numbers are equal where their bits are; the zeros of both signs are equal
/// too, and what is not a number is equal to nothing.
pub proof fn law_numbers_are_equal_by_their_bits(a: Single, b: Single, r: bool)
    requires
        call_ensures(singles_equal, (a, b), r),
    ensures
        a.bits == b.bits && a.bits <= 0x7f80_0000 ==> r,
        a.bits == 0 && b.bits == 0x8000_0000 ==> r,
        r && a.bits != b.bits ==> (a.bits == 0 || a.bits == 0x8000_0000) && (b.bits == 0 || b.bits
            == 0x8000_0000),
        0x7f80_0000 < a.bits < 0x8000_0000 ==> !r,
        a.bits > 0xff80_0000 ==> !r,
        0x7f80_0000 < b.bits < 0x8000_0000 ==> !r,
        b.bits > 0xff80_0000 ==> !r,
{
}

/// The lesser of two numbers is one of them, and neither is below it; what is not
/// a number never wins over a number.
pub proof fn law_the_lesser_number_is_taken(a: Double, b: Double, r: Double)
    requires
        call_ensures(double_min, (a, b), r),
    ensures
        r == a || r == b,
        !is_nan(a) && !is_nan(b) ==> rank(r) <= rank(a) && rank(r) <= rank(b),
        is_nan(a) ==> r == b,
        is_nan(b) && !is_nan(a) ==> r == a,
{
}

/// Numbers stand in the order of their values: from the most negative to the most
/// positive, with zero between.
pub proof fn law_ranks_follow_the_values(a: Double, b: Double)
    ensures
        a.bits < 0x8000_0000_0000_0000 && b.bits < 0x8000_0000_0000_0000 ==> (rank(a) < rank(b)
            <==> a.bits < b.bits),
        a.bits >= 0x8000_0000_0000_0000 && b.bits >= 0x8000_0000_0000_0000 ==> (rank(a) < rank(b)
            <==> a.bits > b.bits),
        a.bits > 0x8000_0000_0000_0000 && b.bits < 0x8000_0000_0000_0000 ==> rank(a) < rank(b),
        is_nan(a) <==> 0x7ff0_0000_0000_0000 < a.bits < 0x8000_0000_0000_0000 || a.bits
            > 0xfff0_0000_0000_0000,
{
}

/// A signed number is written as its digits, behind a minus sign where it is
/// negative, and a number that is written reads back.
pub proof fn law_signed_numbers_are_written_with_their_sign(
    n: i64,
    r: String,
    s: &str,
    q: Option<u64>,
    m: u64,
)
    requires
        call_ensures(signed_decimal_of, (n,), r),
        call_ensures(parse_u64, (s,), q),
    ensures
        n >= 0 ==> crate::text::number_of(r@) == Some(n as nat),
        n < 0 ==> r@.len() > 1 && r@[0] == '-' && crate::text::number_of(r@.skip(1)) == Some(
            (-n) as nat,
        ),
        s@ == crate::text::decimal(m as nat) ==> q == Some(m),
{
    crate::laws::text::law_decimals_read_back(m as nat);
    if n >= 0 {
        crate::laws::text::law_decimals_read_back(n as nat);
    } else {
        let k = (-n) as nat;
        crate::laws::text::law_decimals_read_back(k);
        crate::text::lemma_decimal_digits(k);
        reveal_strlit("-");
        assert(r@[0] == '-');
        assert(r@.skip(1) =~= crate::text::decimal(k));
    }
}

/// Capitals do not matter where case is ignored, and nothing else is ignored.
pub proof fn law_only_case_is_ignored(a: &str, b: &str, r: bool, i: int)
    requires
        call_ensures(eq_ignore_ascii_case, (a, b), r),
    ensures
        a@ == b@ ==> r,
        r ==> a@.len() == b@.len(),
        r && 0 <= i < a@.len() && a@[i] != b@[i] ==> ('A' <= a@[i] <= 'Z' || 'A' <= b@[i] <= 'Z')
            && (a@[i] as int - b@[i] as int == 32 || b@[i] as int - a@[i] as int == 32),
{
    let x = crate::text::ascii_lower(a@);
    let y = crate::text::ascii_lower(b@);
    assert(x.len() == a@.len() && y.len() == b@.len());
    if r && 0 <= i < a@.len() {
        assert(x[i] == y[i]);
        assert(x[i] == crate::text::ascii_lower_char(a@[i]));
        assert(y[i] == crate::text::ascii_lower_char(b@[i]));
    }
}

/// Of two texts that differ exactly one comes first.
pub proof fn law_one_of_two_texts_comes_first(a: &str, b: &str, r: bool, q: bool)
    requires
        call_ensures(comes_before, (a, b), r),
        call_ensures(comes_before, (b, a), q),
    ensures
        !(r && q),
        !r && !q <==> a@ == b@,
{
    crate::text::lemma_text_order(a@, b@, a@);
    crate::text::lemma_text_order(a@, a@, a@);
}

} // verus!
