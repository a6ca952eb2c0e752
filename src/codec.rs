//! The fixed binary layout of campaign records and withdraw requests:
//! fields in order, no tags, integers little-endian, text as a 32-bit
//! length followed by UTF-8 bytes.

use vstd::prelude::*;
use vstd::slice::{slice_subrange, slice_to_vec};

verus! {

/// `n` little-endian bytes of `x` (higher bytes dropped).
pub open spec fn le_bytes(x: nat, n: nat) -> Seq<u8>
    decreases n,
{
    if n == 0 {
        Seq::empty()
    } else {
        seq![(x % 256) as u8].add(le_bytes(x / 256, (n - 1) as nat))
    }
}

/// The number that a little-endian byte string stands for.
pub open spec fn le_value(b: Seq<u8>) -> nat
    decreases b.len(),
{
    if b.len() == 0 {
        0
    } else {
        b[0] as nat + 256 * le_value(b.drop_first())
    }
}

pub open spec fn pow256(n: nat) -> nat
    decreases n,
{
    if n == 0 {
        1
    } else {
        256 * pow256((n - 1) as nat)
    }
}

/// Whether a byte string is well-formed UTF-8, as std's decoder judges it.
pub uninterp spec fn valid_utf8(b: Seq<u8>) -> bool;

pub proof fn lemma_le_len(x: nat, n: nat)
    ensures
        le_bytes(x, n).len() == n,
    decreases n,
{
    if n > 0 {
        lemma_le_len(x / 256, (n - 1) as nat);
    }
}

pub proof fn lemma_le_round_trip(x: nat, n: nat)
    requires
        x < pow256(n),
    ensures
        le_bytes(x, n).len() == n,
        le_value(le_bytes(x, n)) == x,
    decreases n,
{
    if n > 0 {
        let m = (n - 1) as nat;
        assert(x / 256 < pow256(m)) by (nonlinear_arith)
            requires
                x < 256 * pow256(m),
        ;
        lemma_le_round_trip(x / 256, m);
        let b = le_bytes(x, n);
        assert(b.drop_first() =~= le_bytes(x / 256, m));
        assert(x == x % 256 + 256 * (x / 256)) by (nonlinear_arith);
    }
}

pub proof fn lemma_le_injective(x: nat, y: nat, n: nat)
    requires
        x < pow256(n),
        y < pow256(n),
        le_bytes(x, n) == le_bytes(y, n),
    ensures
        x == y,
{
    lemma_le_round_trip(x, n);
    lemma_le_round_trip(y, n);
}

pub proof fn lemma_pow256_values()
    ensures
        pow256(4) == 0x1_0000_0000,
        pow256(8) == 0x1_0000_0000_0000_0000,
{
    reveal_with_fuel(pow256, 9);
}

/// Relies on borsh's `to_vec` for `u32`: the four little-endian bytes
/// (writing into a `Vec` cannot fail).
#[verifier::external_body]
pub(crate) fn u32_to_bytes(x: u32) -> (r: Vec<u8>)
    ensures
        r@ == le_bytes(x as nat, 4),
{
    match borsh::to_vec(&x) {
        Ok(v) => v,
        Err(_) => Vec::new(),
    }
}

/// Relies on borsh's `to_vec` for `u64`: the eight little-endian bytes
/// (writing into a `Vec` cannot fail).
#[verifier::external_body]
pub(crate) fn u64_to_bytes(x: u64) -> (r: Vec<u8>)
    ensures
        r@ == le_bytes(x as nat, 8),
{
    match borsh::to_vec(&x) {
        Ok(v) => v,
        Err(_) => Vec::new(),
    }
}

/// Relies on borsh's `try_from_slice` for `u32`: it accepts exactly four
/// bytes and reads them little-endian.
#[verifier::external_body]
pub(crate) fn u32_from_bytes(b: &[u8]) -> (r: Option<u32>)
    ensures
        r is Some <==> b@.len() == 4,
        r matches Some(x) ==> le_bytes(x as nat, 4) == b@,
{
    <u32 as borsh::BorshDeserialize>::try_from_slice(b).ok()
}

/// Relies on borsh's `try_from_slice` for `u64`: it accepts exactly eight
/// bytes and reads them little-endian.
#[verifier::external_body]
pub(crate) fn u64_from_bytes(b: &[u8]) -> (r: Option<u64>)
    ensures
        r is Some <==> b@.len() == 8,
        r matches Some(x) ==> le_bytes(x as nat, 8) == b@,
{
    <u64 as borsh::BorshDeserialize>::try_from_slice(b).ok()
}

/// Relies on `std::str::from_utf8`: whether the bytes are valid UTF-8.
#[verifier::external_body]
pub(crate) fn is_utf8(b: &[u8]) -> (r: bool)
    ensures
        r == valid_utf8(b@),
{
    std::str::from_utf8(b).is_ok()
}

/// A text field fits the layout: its length fits the 32-bit prefix, and it
/// is UTF-8.
pub open spec fn text_ok(t: Seq<u8>) -> bool {
    t.len() <= u32::MAX && valid_utf8(t)
}

/// A text field as laid out: 32-bit little-endian length, then the bytes.
pub open spec fn text_bytes(t: Seq<u8>) -> Seq<u8> {
    le_bytes(t.len(), 4) + t
}

/// At most one text field is laid out at a given position.
pub proof fn lemma_text_unique(d: Seq<u8>, pos: int, t1: Seq<u8>, t2: Seq<u8>)
    requires
        0 <= pos,
        t1.len() <= u32::MAX,
        t2.len() <= u32::MAX,
        pos + text_bytes(t1).len() <= d.len(),
        pos + text_bytes(t2).len() <= d.len(),
        d.subrange(pos, pos + text_bytes(t1).len()) == text_bytes(t1),
        d.subrange(pos, pos + text_bytes(t2).len()) == text_bytes(t2),
    ensures
        t1 == t2,
{
    lemma_pow256_values();
    lemma_le_round_trip(t1.len(), 4);
    lemma_le_round_trip(t2.len(), 4);
    assert(le_bytes(t1.len(), 4) =~= d.subrange(pos, pos + 4)) by {
        assert(le_bytes(t1.len(), 4) =~= text_bytes(t1).subrange(0, 4));
    }
    assert(le_bytes(t2.len(), 4) =~= d.subrange(pos, pos + 4)) by {
        assert(le_bytes(t2.len(), 4) =~= text_bytes(t2).subrange(0, 4));
    }
    lemma_le_injective(t1.len(), t2.len(), 4);
    assert(t1 =~= text_bytes(t1).subrange(4, 4 + t1.len() as int));
    assert(t2 =~= text_bytes(t2).subrange(4, 4 + t2.len() as int));
    assert(t1 =~= d.subrange(pos + 4, pos + 4 + t1.len()));
    assert(t2 =~= d.subrange(pos + 4, pos + 4 + t2.len()));
}

/// Appends the bytes of `b` to `out`.
pub(crate) fn append_bytes(out: &mut Vec<u8>, b: &[u8])
    ensures
        final(out)@ == old(out)@ + b@,
{
    let mut i: usize = 0;
    while i < b.len()
        invariant
            0 <= i <= b@.len(),
            out@ == old(out)@ + b@.subrange(0, i as int),
        decreases b@.len() - i,
    {
        out.push(b[i]);
        i = i + 1;
        assert(out@ =~= old(out)@ + b@.subrange(0, i as int));
    }
    assert(b@.subrange(0, i as int) =~= b@);
}

/// Appends a text field to `out`.
pub(crate) fn write_text(out: &mut Vec<u8>, t: &[u8])
    requires
        t@.len() <= u32::MAX,
    ensures
        final(out)@ == old(out)@ + text_bytes(t@),
{
    let n = u32_to_bytes(t.len() as u32);
    append_bytes(out, n.as_slice());
    append_bytes(out, t);
    assert(final(out)@ =~= old(out)@ + text_bytes(t@));
}

/// Reads the text field that starts at `pos`, and the position after it.
/// Fails exactly when no well-formed text field is laid out there.
pub(crate) fn read_text(d: &[u8], pos: usize) -> (r: Option<(Vec<u8>, usize)>)
    requires
        pos <= d@.len(),
    ensures
        match r {
            Some((t, end)) => {
                &&& text_ok(t@)
                &&& end == pos + text_bytes(t@).len()
                &&& end <= d@.len()
                &&& d@.subrange(pos as int, end as int) == text_bytes(t@)
            },
            None => forall|t: Seq<u8>|
                text_ok(t) && pos + text_bytes(t).len() <= d@.len() ==> d@.subrange(
                    pos as int,
                    pos + text_bytes(t).len(),
                ) != text_bytes(t),
        },
{
    proof {
        lemma_pow256_values();
    }
    if d.len() - pos < 4 {
        proof {
            assert forall|t: Seq<u8>| text_ok(t) implies pos + text_bytes(t).len() > d@.len() by {
                lemma_le_len(t.len(), 4);
            }
        }
        return None;
    }
    let head = slice_subrange(d, pos, pos + 4);
    let n = match u32_from_bytes(head) {
        Some(n) => n,
        None => return None,
    };
    let start = pos + 4;
    if d.len() - start < n as usize {
        proof {
            assert forall|t: Seq<u8>|
                text_ok(t) && pos + text_bytes(t).len() <= d@.len() implies d@.subrange(
                    pos as int,
                    pos + text_bytes(t).len(),
                ) != text_bytes(t) by {
                if d@.subrange(pos as int, pos + text_bytes(t).len()) == text_bytes(t) {
                    lemma_le_len(t.len(), 4);
                    assert(le_bytes(t.len(), 4) =~= text_bytes(t).subrange(0, 4));
                    assert(head@ =~= d@.subrange(pos as int, pos + text_bytes(t).len()).subrange(0, 4));
                    lemma_le_injective(t.len(), n as nat, 4);
                }
            }
        }
        return None;
    }
    let end = start + n as usize;
    let body = slice_subrange(d, start, end);
    proof {
        lemma_le_len(n as nat, 4);
        assert(d@.subrange(pos as int, end as int) =~= head@ + body@);
    }
    if !is_utf8(body) {
        proof {
            assert forall|t: Seq<u8>|
                text_ok(t) && pos + text_bytes(t).len() <= d@.len() implies d@.subrange(
                    pos as int,
                    pos + text_bytes(t).len(),
                ) != text_bytes(t) by {
                if d@.subrange(pos as int, pos + text_bytes(t).len()) == text_bytes(t) {
                    lemma_text_unique(d@, pos as int, t, body@);
                }
            }
        }
        return None;
    }
    Some((slice_to_vec(body), end))
}

} // verus!
