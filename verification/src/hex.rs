//! Uppercase hexadecimal encoding of byte strings.
//!
//! The wire form of a typed value is the uppercase hex encoding of its
//! canonical byte serialization.  The encoding itself is done by the
//! `data-encoding` crate; its behaviour is pinned down exactly by the
//! spec function [`hex_upper`].

use vstd::prelude::*;

verus! {

/// The uppercase hex digit for a value below 16.
pub open spec fn hex_digit(n: u8) -> char
    recommends
        n < 16,
{
    if n == 0 {
        '0'
    } else if n == 1 {
        '1'
    } else if n == 2 {
        '2'
    } else if n == 3 {
        '3'
    } else if n == 4 {
        '4'
    } else if n == 5 {
        '5'
    } else if n == 6 {
        '6'
    } else if n == 7 {
        '7'
    } else if n == 8 {
        '8'
    } else if n == 9 {
        '9'
    } else if n == 10 {
        'A'
    } else if n == 11 {
        'B'
    } else if n == 12 {
        'C'
    } else if n == 13 {
        'D'
    } else if n == 14 {
        'E'
    } else {
        'F'
    }
}

/// Uppercase hex encoding: two digits per byte, high digit first.
pub open spec fn hex_upper(b: Seq<u8>) -> Seq<char>
    decreases b.len(),
{
    if b.len() == 0 {
        Seq::<char>::empty()
    } else {
        seq![hex_digit(b[0] / 16), hex_digit(b[0] % 16)] + hex_upper(b.drop_first())
    }
}

pub proof fn lemma_hex_upper_len(b: Seq<u8>)
    ensures
        hex_upper(b).len() == 2 * b.len(),
    decreases b.len(),
{
    if b.len() > 0 {
        lemma_hex_upper_len(b.drop_first());
    }
}

proof fn lemma_hex_digit_injective(x: u8, y: u8)
    requires
        x < 16,
        y < 16,
        hex_digit(x) == hex_digit(y),
    ensures
        x == y,
{
}

/// Two byte strings with the same hex encoding are equal.
pub proof fn lemma_hex_upper_injective(a: Seq<u8>, b: Seq<u8>)
    requires
        hex_upper(a) == hex_upper(b),
    ensures
        a == b,
    decreases a.len(),
{
    lemma_hex_upper_len(a);
    lemma_hex_upper_len(b);
    if a.len() == 0 {
        assert(a =~= b);
    } else {
        assert(hex_upper(a)[0] == hex_digit(a[0] / 16) && hex_upper(a)[1] == hex_digit(a[0] % 16));
        assert(hex_upper(b)[0] == hex_digit(b[0] / 16) && hex_upper(b)[1] == hex_digit(b[0] % 16));
        lemma_hex_digit_injective(a[0] / 16, b[0] / 16);
        lemma_hex_digit_injective(a[0] % 16, b[0] % 16);
        assert(a[0] == b[0]) by {
            assert(a[0] / 16 == b[0] / 16 && a[0] % 16 == b[0] % 16);
        };
        assert(hex_upper(a.drop_first()) =~= hex_upper(b.drop_first())) by {
            assert forall|i: int| 0 <= i < hex_upper(a.drop_first()).len() implies hex_upper(
                a.drop_first(),
            )[i] == hex_upper(b.drop_first())[i] by {
                assert(hex_upper(a) == seq![hex_digit(a[0] / 16), hex_digit(a[0] % 16)]
                    + hex_upper(a.drop_first()));
                assert(hex_upper(b) == seq![hex_digit(b[0] / 16), hex_digit(b[0] % 16)]
                    + hex_upper(b.drop_first()));
                assert(hex_upper(a)[i + 2] == hex_upper(a.drop_first())[i]);
                assert(hex_upper(b)[i + 2] == hex_upper(b.drop_first())[i]);
            }
        };
        lemma_hex_upper_injective(a.drop_first(), b.drop_first());
        assert(a =~= seq![a[0]] + a.drop_first());
        assert(b =~= seq![b[0]] + b.drop_first());
    }
}

/// Relies on `data_encoding::HEXUPPER.encode`: two uppercase hex digits per
/// byte, high digit first, over the symbols `0123456789ABCDEF`.
#[verifier::external_body]
pub(crate) fn hex_encode_upper(b: &[u8]) -> (r: String)
    requires
        b@.len() < 0x4000_0000_0000_0000,
    ensures
        r@ == hex_upper(b@),
{
    data_encoding::HEXUPPER.encode(b)
}

/// Relies on `data_encoding::HEXUPPER.decode`: succeeds exactly on strings of
/// uppercase hex digit pairs, returning the bytes they spell.
#[verifier::external_body]
pub(crate) fn hex_decode_upper(s: &str) -> (r: Option<Vec<u8>>)
    ensures
        match r {
            Some(b) => s@ == hex_upper(b@),
            None => forall|b: Seq<u8>| s@ != hex_upper(b),
        },
{
    data_encoding::HEXUPPER.decode(s.as_bytes()).ok()
}

} // verus!
