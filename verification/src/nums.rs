//! Little-endian byte encodings of fixed-width integers, and decimal
//! rendering of `u64` values.
//!
//! The canonical wire form stores every length as a 32-bit little-endian
//! word, and the built-in decoder for 64-bit counters reads an 8-byte
//! little-endian word and renders it in decimal.

use vstd::prelude::*;

verus! {

/// The four little-endian bytes of a 32-bit value.
pub open spec fn le32(n: nat) -> Seq<u8>
    recommends
        n < 0x1_0000_0000,
{
    seq![
        (n % 0x100) as u8,
        ((n / 0x100) % 0x100) as u8,
        ((n / 0x1_0000) % 0x100) as u8,
        ((n / 0x100_0000) % 0x100) as u8,
    ]
}

/// The value spelled by four little-endian bytes.
pub open spec fn from_le32(b: Seq<u8>) -> nat
    recommends
        b.len() == 4,
{
    (b[0] + b[1] * 0x100 + b[2] * 0x1_0000 + b[3] * 0x100_0000) as nat
}

proof fn lemma_recompose_32(m: u32)
    ensures
        m % 0x100 + ((m / 0x100) % 0x100) * 0x100 + ((m / 0x1_0000) % 0x100) * 0x1_0000 + ((m
            / 0x100_0000) % 0x100) * 0x100_0000 == m,
{
    assert(m % 0x100 + ((m / 0x100) % 0x100) * 0x100 + ((m / 0x1_0000) % 0x100) * 0x1_0000 + ((m
        / 0x100_0000) % 0x100) * 0x100_0000 == m) by (bit_vector);
}

pub proof fn lemma_le32_inverse(n: nat)
    requires
        n < 0x1_0000_0000,
    ensures
        from_le32(le32(n)) == n,
{
    let m = n as u32;
    lemma_recompose_32(m);
    assert(le32(n)[0] == (m % 0x100) as u8);
    assert(le32(n)[1] == ((m / 0x100) % 0x100) as u8);
    assert(le32(n)[2] == ((m / 0x1_0000) % 0x100) as u8);
    assert(le32(n)[3] == ((m / 0x100_0000) % 0x100) as u8);
}

/// The eight little-endian bytes of a 64-bit value.
pub open spec fn le64(n: nat) -> Seq<u8>
    recommends
        n < 0x1_0000_0000_0000_0000,
{
    seq![
        (n % 0x100) as u8,
        ((n / 0x100) % 0x100) as u8,
        ((n / 0x1_0000) % 0x100) as u8,
        ((n / 0x100_0000) % 0x100) as u8,
        ((n / 0x1_0000_0000) % 0x100) as u8,
        ((n / 0x100_0000_0000) % 0x100) as u8,
        ((n / 0x1_0000_0000_0000) % 0x100) as u8,
        ((n / 0x100_0000_0000_0000) % 0x100) as u8,
    ]
}

/// The value spelled by eight little-endian bytes.
pub open spec fn from_le64(b: Seq<u8>) -> nat
    recommends
        b.len() == 8,
{
    (b[0] + b[1] * 0x100 + b[2] * 0x1_0000 + b[3] * 0x100_0000 + b[4] * 0x1_0000_0000 + b[5]
        * 0x100_0000_0000 + b[6] * 0x1_0000_0000_0000 + b[7] * 0x100_0000_0000_0000) as nat
}

proof fn lemma_recompose_64(m: u64)
    ensures
        m % 0x100 + ((m / 0x100) % 0x100) * 0x100 + ((m / 0x1_0000) % 0x100) * 0x1_0000 + ((m
            / 0x100_0000) % 0x100) * 0x100_0000 + ((m / 0x1_0000_0000) % 0x100) * 0x1_0000_0000 + ((
        m / 0x100_0000_0000) % 0x100) * 0x100_0000_0000 + ((m / 0x1_0000_0000_0000) % 0x100)
            * 0x1_0000_0000_0000 + ((m / 0x100_0000_0000_0000) % 0x100) * 0x100_0000_0000_0000
            == m,
{
    assert(m % 0x100 + ((m / 0x100) % 0x100) * 0x100 + ((m / 0x1_0000) % 0x100) * 0x1_0000 + ((m
        / 0x100_0000) % 0x100) * 0x100_0000 + ((m / 0x1_0000_0000) % 0x100) * 0x1_0000_0000 + ((m
        / 0x100_0000_0000) % 0x100) * 0x100_0000_0000 + ((m / 0x1_0000_0000_0000) % 0x100)
        * 0x1_0000_0000_0000 + ((m / 0x100_0000_0000_0000) % 0x100) * 0x100_0000_0000_0000 == m)
        by (bit_vector);
}

pub proof fn lemma_le64_inverse(n: nat)
    requires
        n < 0x1_0000_0000_0000_0000,
    ensures
        from_le64(le64(n)) == n,
{
    let m = n as u64;
    lemma_recompose_64(m);
    assert(le64(n)[0] == (m % 0x100) as u8);
    assert(le64(n)[1] == ((m / 0x100) % 0x100) as u8);
    assert(le64(n)[2] == ((m / 0x1_0000) % 0x100) as u8);
    assert(le64(n)[3] == ((m / 0x100_0000) % 0x100) as u8);
    assert(le64(n)[4] == ((m / 0x1_0000_0000) % 0x100) as u8);
    assert(le64(n)[5] == ((m / 0x100_0000_0000) % 0x100) as u8);
    assert(le64(n)[6] == ((m / 0x1_0000_0000_0000) % 0x100) as u8);
    assert(le64(n)[7] == ((m / 0x100_0000_0000_0000) % 0x100) as u8);
}

/// Append the four little-endian bytes of `n`.
pub fn push_u32_le(out: &mut Vec<u8>, n: u32)
    ensures
        final(out)@ == old(out)@ + le32(n as nat),
{
    out.push((n % 0x100) as u8);
    out.push(((n / 0x100) % 0x100) as u8);
    out.push(((n / 0x1_0000) % 0x100) as u8);
    out.push(((n / 0x100_0000) % 0x100) as u8);
    assert(final(out)@ =~= old(out)@ + le32(n as nat));
}

/// Read the 32-bit little-endian word at offset `i`.
pub fn read_u32_le(b: &Vec<u8>, i: usize) -> (r: u32)
    requires
        i + 4 <= b@.len(),
    ensures
        r as nat == from_le32(b@.subrange(i as int, i as int + 4)),
{
    let n = b.len();
    let r: u32 = (b[i] as u32) + (b[i + 1] as u32) * 0x100 + (b[i + 2] as u32) * 0x1_0000 + (b[i
        + 3] as u32) * 0x100_0000;
    proof {
        let s = b@.subrange(i as int, i as int + 4);
        assert(s[0] == b@[i as int] && s[1] == b@[i as int + 1] && s[2] == b@[i as int + 2] && s[3]
            == b@[i as int + 3]);
    }
    r
}

/// Read the 64-bit little-endian word held by an 8-byte string.
pub fn read_u64_le(b: &Vec<u8>) -> (r: u64)
    requires
        b@.len() == 8,
    ensures
        r as nat == from_le64(b@),
{
    let r: u64 = (b[0] as u64) + (b[1] as u64) * 0x100 + (b[2] as u64) * 0x1_0000 + (b[3] as u64)
        * 0x100_0000 + (b[4] as u64) * 0x1_0000_0000 + (b[5] as u64) * 0x100_0000_0000 + (b[6]
        as u64) * 0x1_0000_0000_0000 + (b[7] as u64) * 0x100_0000_0000_0000;
    r
}

/// The decimal digit character for a value below 10.
pub open spec fn dec_digit(n: nat) -> char
    recommends
        n < 10,
{
    if n == 0 {
        '0'
    } else if n == 1 {
        '1'
    } else if n == 2 {
        '2'
    } else if n == 3 {
        '3'
    } else if n == 4 {
        '4'
    } else if n == 5 {
        '5'
    } else if n == 6 {
        '6'
    } else if n == 7 {
        '7'
    } else if n == 8 {
        '8'
    } else {
        '9'
    }
}

/// The decimal representation of a number, most significant digit first,
/// with no leading zeros (a lone zero for 0).
pub open spec fn dec_rep(n: nat) -> Seq<char>
    decreases n,
{
    if n < 10 {
        seq![dec_digit(n)]
    } else {
        dec_rep(n / 10) + seq![dec_digit(n % 10)]
    }
}

fn dec_digit_str(n: u64) -> (r: &'static str)
    requires
        n < 10,
    ensures
        r@ == seq![dec_digit(n as nat)],
{
    proof {
        reveal_strlit("0");
        reveal_strlit("1");
        reveal_strlit("2");
        reveal_strlit("3");
        reveal_strlit("4");
        reveal_strlit("5");
        reveal_strlit("6");
        reveal_strlit("7");
        reveal_strlit("8");
        reveal_strlit("9");
    }
    if n == 0 {
        "0"
    } else if n == 1 {
        "1"
    } else if n == 2 {
        "2"
    } else if n == 3 {
        "3"
    } else if n == 4 {
        "4"
    } else if n == 5 {
        "5"
    } else if n == 6 {
        "6"
    } else if n == 7 {
        "7"
    } else if n == 8 {
        "8"
    } else {
        "9"
    }
}

/// Render a 64-bit value in decimal.
pub fn render_u64(n: u64) -> (s: String)
    ensures
        s@ == dec_rep(n as nat),
    decreases n,
{
    if n < 10 {
        String::from_str(dec_digit_str(n))
    } else {
        let mut s = render_u64(n / 10);
        s.append(dec_digit_str(n % 10));
        s
    }
}

} // verus!
