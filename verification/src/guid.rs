//! GUIDs: their 128-bit value, their bytes as a GPT stores them, and their text.
//!
//! A GUID is held as the number that its 32 hexadecimal digits spell, the
//! first digit being the most significant. A GPT stores the first three
//! fields of a GUID least significant byte first and the last two as they
//! are printed.

use vstd::prelude::*;
use crate::text::hex_digits;

verus! {

/// The `n` least significant bytes of `v`, most significant first.
pub open spec fn be_bytes(v: nat, n: nat) -> Seq<u8>
    decreases n,
{
    if n == 0 {
        Seq::empty()
    } else {
        be_bytes(v / 256, (n - 1) as nat).push((v % 256) as u8)
    }
}

/// The number that a sequence of bytes spells, most significant first.
pub open spec fn be_value(s: Seq<u8>) -> nat
    decreases s.len(),
{
    if s.len() == 0 {
        0
    } else {
        be_value(s.drop_last()) * 256 + s.last() as nat
    }
}

/// Sixteen bytes with the bytes of the first three GUID fields (four, two
/// and two bytes) reversed within each field. Doing it twice gives the
/// bytes back.
pub open spec fn swap_fields(s: Seq<u8>) -> Seq<u8> {
    seq![
        s[3],
        s[2],
        s[1],
        s[0],
        s[5],
        s[4],
        s[7],
        s[6],
        s[8],
        s[9],
        s[10],
        s[11],
        s[12],
        s[13],
        s[14],
        s[15],
    ]
}

/// The sixteen bytes that stand for a GUID in a GPT.
pub open spec fn guid_mixed_endian(g: u128) -> Seq<u8> {
    swap_fields(be_bytes(g as nat, 16))
}

/// The GUID that sixteen bytes of a GPT stand for.
pub open spec fn guid_from_mixed_endian(b: Seq<u8>) -> u128 {
    be_value(swap_fields(b)) as u128
}

/// The text of a GUID: 32 lower-case hexadecimal digits in groups of 8, 4,
/// 4, 4 and 12, with a hyphen between the groups.
pub open spec fn guid_text(g: u128) -> Seq<char> {
    let h = hex_digits(g as nat, 32);
    h.subrange(0, 8) + seq!['-'] + h.subrange(8, 12) + seq!['-'] + h.subrange(12, 16) + seq!['-']
        + h.subrange(16, 20) + seq!['-'] + h.subrange(20, 32)
}

/// Sixteen bytes that are all zero.
pub open spec fn all_zero(b: Seq<u8>) -> bool {
    forall|i: int| 0 <= i < b.len() ==> b[i] == 0
}

/// 256 to the power `n`.
pub open spec fn pow256(n: nat) -> nat
    decreases n,
{
    if n == 0 {
        1
    } else {
        256 * pow256((n - 1) as nat)
    }
}

proof fn lemma_be_bytes_len(v: nat, n: nat)
    ensures
        be_bytes(v, n).len() == n,
    decreases n,
{
    if n > 0 {
        lemma_be_bytes_len(v / 256, (n - 1) as nat);
    }
}

proof fn lemma_be_round_trip(v: nat, n: nat)
    ensures
        be_value(be_bytes(v, n)) == v % pow256(n),
    decreases n,
{
    if n == 0 {
    } else {
        let m = (n - 1) as nat;
        lemma_be_round_trip(v / 256, m);
        lemma_be_bytes_len(v / 256, m);
        let s = be_bytes(v, n);
        assert(s.drop_last() =~= be_bytes(v / 256, m));
        assert(s.last() == (v % 256) as u8);
        let p = pow256(m);
        assert(p > 0) by {
            lemma_pow256_positive(m);
        }
        // v % (256 * p) == (v / 256 % p) * 256 + v % 256
        assert(v % (256 * p) == ((v / 256) % p) * 256 + v % 256) by {
            lemma_split_mod(v, p);
        }
    }
}

proof fn lemma_pow256_positive(n: nat)
    ensures
        pow256(n) > 0,
    decreases n,
{
    if n > 0 {
        lemma_pow256_positive((n - 1) as nat);
    }
}

proof fn lemma_split_mod(v: nat, p: nat)
    requires
        p > 0,
    ensures
        v % (256 * p) == ((v / 256) % p) * 256 + v % 256,
{
    let q = v / 256;
    let r = v % 256;
    let a = q / p;
    let b = q % p;
    assert(v == 256 * q + r);
    assert(q == p * a + b) by {
        vstd::arithmetic::div_mod::lemma_fundamental_div_mod(q as int, p as int);
    }
    assert(v == (256 * p) * a + (b * 256 + r)) by (nonlinear_arith)
        requires
            v == 256 * q + r,
            q == p * a + b,
    ;
    assert(0 <= b * 256 + r < 256 * p) by (nonlinear_arith)
        requires
            0 <= b < p,
            0 <= r < 256,
    ;
    vstd::arithmetic::div_mod::lemma_fundamental_div_mod_converse(
        v as int,
        (256 * p) as int,
        a as int,
        (b * 256 + r) as int,
    );
}

/// A GUID survives the way through a GPT: the bytes that are stored for it
/// stand for the same GUID when they are read back.
pub proof fn lemma_guid_round_trip(g: u128)
    ensures
        guid_mixed_endian(g).len() == 16,
        guid_from_mixed_endian(guid_mixed_endian(g)) == g,
{
    let s = be_bytes(g as nat, 16);
    lemma_be_bytes_len(g as nat, 16);
    assert(swap_fields(swap_fields(s)) =~= s);
    lemma_be_round_trip(g as nat, 16);
    assert(pow256(16) == 0x1_0000_0000_0000_0000_0000_0000_0000_0000) by {
        reveal_with_fuel(pow256, 17);
    }
    assert((g as nat) % pow256(16) == g as nat);
}

/// Only the GUID 0 is stored as sixteen zero bytes.
pub proof fn lemma_guid_zero_bytes(g: u128)
    ensures
        all_zero(guid_mixed_endian(g)) <==> g == 0,
{
    lemma_guid_round_trip(g);
    let b = guid_mixed_endian(g);
    if all_zero(b) {
        let z = swap_fields(b);
        assert forall|i: int| 0 <= i < 16 implies z[i] == 0 by {}
        lemma_zero_value(z);
    }
    if g == 0 {
        lemma_zero_bytes(16);
        assert forall|i: int| 0 <= i < b.len() implies b[i] == 0 by {}
    }
}

proof fn lemma_zero_value(s: Seq<u8>)
    requires
        forall|i: int| 0 <= i < s.len() ==> s[i] == 0,
    ensures
        be_value(s) == 0,
    decreases s.len(),
{
    if s.len() > 0 {
        lemma_zero_value(s.drop_last());
    }
}

proof fn lemma_zero_bytes(n: nat)
    ensures
        be_bytes(0, n).len() == n,
        forall|i: int| 0 <= i < n ==> be_bytes(0, n)[i] == 0,
    decreases n,
{
    if n > 0 {
        lemma_zero_bytes((n - 1) as nat);
    }
}

/// A fresh random GUID, from `uuid::Uuid::new_v4`. Nothing is claimed of
/// its value.
#[verifier::external_body]
pub(crate) fn random_guid() -> (g: u128) {
    uuid::Uuid::new_v4().as_u128()
}

/// The bytes of a GUID as a GPT stores them, from `uuid::Uuid::to_bytes_le`:
/// the big-endian bytes of the value with the first three fields reversed.
#[verifier::external_body]
pub(crate) fn guid_to_bytes_le(g: u128) -> (b: [u8; 16])
    ensures
        b@ == guid_mixed_endian(g),
{
    uuid::Uuid::from_u128(g).to_bytes_le()
}

/// The GUID that bytes of a GPT stand for, from `uuid::Uuid::from_bytes_le`:
/// the first three fields are reversed and the bytes read as a big-endian
/// number.
#[verifier::external_body]
pub(crate) fn guid_from_bytes_le(b: &[u8; 16]) -> (g: u128)
    ensures
        g == guid_from_mixed_endian(b@),
{
    uuid::Uuid::from_bytes_le(*b).as_u128()
}

/// The text of a GUID, from the `Display` of `uuid::Uuid`: lower-case
/// hexadecimal digits in the hyphenated form 8-4-4-4-12.
#[verifier::external_body]
pub(crate) fn guid_to_string(g: u128) -> (s: String)
    ensures
        s@ == guid_text(g),
{
    uuid::Uuid::from_u128(g).to_string()
}

} // verus!
