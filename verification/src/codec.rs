//! The callback payload and its byte codec.
//!
//! The initiating swap attaches the whole plan — path and amounts — as an
//! opaque byte string that the pool hands back verbatim to the callback entry
//! point.  The encoding is sixteen-byte little-endian cells: the two lengths
//! first, then the path, then the amounts.  Decoding accepts exactly the
//! byte strings the encoder produces; anything else is rejected, which the
//! settlement phase treats as hostile input.

use vstd::bytes::{
    lemma_auto_spec_u128_to_from_le_bytes, spec_u128_from_le_bytes, spec_u128_to_le_bytes,
    u128_from_le_bytes, u128_to_le_bytes,
};
use vstd::prelude::*;
use vstd::slice::slice_subrange;

use crate::AccountId;

verus! {

/// The continuation data of an initiated flash swap: the asset path and the
/// priced amount of every hop, `amounts_out[0]` being the borrowed amount.
#[derive(Clone, Debug, PartialEq, Eq)]
pub struct SwapCallData {
    pub path: Vec<AccountId>,
    pub amounts_out: Vec<u128>,
}

/// The bytes of a run of sixteen-byte little-endian cells.
pub open spec fn cell_bytes(v: Seq<u128>) -> Seq<u8>
    decreases v.len(),
{
    if v.len() == 0 {
        Seq::empty()
    } else {
        cell_bytes(v.drop_last()) + spec_u128_to_le_bytes(v.last())
    }
}

/// The bytes of an encoded payload: both lengths, then the cells.
pub open spec fn payload_bytes(path: Seq<u128>, amounts: Seq<u128>) -> Seq<u8> {
    spec_u128_to_le_bytes(path.len() as u128) + spec_u128_to_le_bytes(amounts.len() as u128)
        + cell_bytes(path) + cell_bytes(amounts)
}

/// The cells read back from `b` at `off`, `n` of them.
pub open spec fn read_cells(b: Seq<u8>, off: int, n: int) -> Seq<u128> {
    Seq::new(n as nat, |i: int| spec_u128_from_le_bytes(b.subrange(off + 16 * i, off + 16 * i + 16)))
}

/// What a byte string decodes to: `None` unless it has exactly the shape the
/// encoder produces.
pub open spec fn parse_payload(b: Seq<u8>) -> Option<(Seq<u128>, Seq<u128>)> {
    if b.len() < 32 {
        None
    } else {
        let pl = spec_u128_from_le_bytes(b.subrange(0, 16)) as int;
        let al = spec_u128_from_le_bytes(b.subrange(16, 32)) as int;
        if b.len() == 32 + 16 * (pl + al) {
            Some((read_cells(b, 32, pl), read_cells(b, 32 + 16 * pl, al)))
        } else {
            None
        }
    }
}

/// Appends the sixteen little-endian bytes of `x`.
fn push_cell(out: &mut Vec<u8>, x: u128)
    ensures
        final(out)@ == old(out)@ + spec_u128_to_le_bytes(x),
{
    let mut cell = u128_to_le_bytes(x);
    out.append(&mut cell);
}

/// Appends the cells of `v`.
fn push_cells(out: &mut Vec<u8>, v: &Vec<u128>)
    ensures
        final(out)@ == old(out)@ + cell_bytes(v@),
{
    let n = v.len();
    let mut i: usize = 0;
    while i < n
        invariant
            i <= n,
            n == v@.len(),
            out@ == old(out)@ + cell_bytes(v@.take(i as int)),
        decreases n - i,
    {
        push_cell(out, v[i]);
        proof {
            assert(v@.take(i as int + 1).drop_last() =~= v@.take(i as int));
            assert(v@.take(i as int + 1).last() == v@[i as int]);
        }
        i += 1;
    }
    proof {
        assert(v@.take(n as int) =~= v@);
    }
}

/// Serializes the payload.
pub fn encode_payload(data: &SwapCallData) -> (r: Vec<u8>)
    ensures
        r@ == payload_bytes(data.path@, data.amounts_out@),
{
    let mut out: Vec<u8> = Vec::new();
    push_cell(&mut out, data.path.len() as u128);
    push_cell(&mut out, data.amounts_out.len() as u128);
    push_cells(&mut out, &data.path);
    push_cells(&mut out, &data.amounts_out);
    proof {
        assert(out@ =~= payload_bytes(data.path@, data.amounts_out@));
    }
    out
}

/// Reads the sixteen-byte cell at `off`.
fn read_cell(bytes: &Vec<u8>, off: usize) -> (x: u128)
    requires
        off + 16 <= bytes@.len(),
    ensures
        x == spec_u128_from_le_bytes(bytes@.subrange(off as int, off as int + 16)),
{
    let n = bytes.len();
    u128_from_le_bytes(slice_subrange(bytes.as_slice(), off, off + 16))
}

/// Deserializes a payload.  Accepts exactly the byte strings `encode_payload`
/// produces and reconstructs the encoded value.
pub fn decode_payload(bytes: &Vec<u8>) -> (r: Option<SwapCallData>)
    ensures
        r is Some <==> parse_payload(bytes@) is Some,
        r matches Some(d) ==> parse_payload(bytes@) == Some((d.path@, d.amounts_out@)),
{
    let n = bytes.len();
    if n < 32 {
        return None;
    }
    let pl_raw = read_cell(bytes, 0);
    let al_raw = read_cell(bytes, 16);
    if pl_raw > (n as u128) || al_raw > (n as u128) {
        proof {
            lemma_parse_needs_room(bytes@);
        }
        return None;
    }
    if (n as u128) != 32 + 16 * (pl_raw + al_raw) {
        return None;
    }
    let pl = pl_raw as usize;
    let al = al_raw as usize;

    let mut path: Vec<u128> = Vec::with_capacity(pl);
    let mut i: usize = 0;
    while i < pl
        invariant
            i <= pl,
            32 + 16 * (pl as int) <= n,
            n == bytes@.len(),
            (n as u128) == 32 + 16 * (pl as u128 + al as u128),
            path@.len() == i,
            forall|j: int|
                0 <= j < i ==> path@[j] == spec_u128_from_le_bytes(
                    #[trigger] bytes@.subrange(32 + 16 * j, 32 + 16 * j + 16),
                ),
        decreases pl - i,
    {
        path.push(read_cell(bytes, 32 + 16 * i));
        i += 1;
    }

    let mut amounts_out: Vec<u128> = Vec::with_capacity(al);
    let mut j: usize = 0;
    let base: usize = 32 + 16 * pl;
    while j < al
        invariant
            j <= al,
            base == 32 + 16 * (pl as int),
            base + 16 * (al as int) == n,
            n == bytes@.len(),
            amounts_out@.len() == j,
            forall|m: int|
                0 <= m < j ==> amounts_out@[m] == spec_u128_from_le_bytes(
                    #[trigger] bytes@.subrange(base + 16 * m, base + 16 * m + 16),
                ),
        decreases al - j,
    {
        amounts_out.push(read_cell(bytes, base + 16 * j));
        j += 1;
    }

    proof {
        assert(path@ =~= read_cells(bytes@, 32, pl as int));
        assert(amounts_out@ =~= read_cells(bytes@, 32 + 16 * (pl as int), al as int));
    }
    Some(SwapCallData { path, amounts_out })
}

/// A parsable byte string is long enough to hold the lengths it declares.
proof fn lemma_parse_needs_room(b: Seq<u8>)
    requires
        b.len() >= 32,
    ensures
        parse_payload(b) is Some ==> spec_u128_from_le_bytes(b.subrange(0, 16)) <= b.len()
            && spec_u128_from_le_bytes(b.subrange(16, 32)) <= b.len(),
{
    let pl = spec_u128_from_le_bytes(b.subrange(0, 16)) as int;
    let al = spec_u128_from_le_bytes(b.subrange(16, 32)) as int;
    if parse_payload(b) is Some {
        assert(b.len() == 32 + 16 * (pl + al));
    }
}

/// Each cell run is sixteen bytes per cell.
proof fn lemma_cell_bytes_len(v: Seq<u128>)
    ensures
        cell_bytes(v).len() == 16 * v.len(),
    decreases v.len(),
{
    if v.len() > 0 {
        lemma_cell_bytes_len(v.drop_last());
        lemma_auto_spec_u128_to_from_le_bytes();
    }
}

/// The bytes of cell `i` sit at offset `16 * i` of the run.
proof fn lemma_cell_bytes_index(v: Seq<u128>, i: int)
    requires
        0 <= i < v.len(),
    ensures
        cell_bytes(v).subrange(16 * i, 16 * i + 16) == spec_u128_to_le_bytes(v[i]),
    decreases v.len(),
{
    lemma_auto_spec_u128_to_from_le_bytes();
    lemma_cell_bytes_len(v);
    lemma_cell_bytes_len(v.drop_last());
    if i == v.len() - 1 {
        assert(cell_bytes(v).subrange(16 * i, 16 * i + 16) =~= spec_u128_to_le_bytes(v.last()));
    } else {
        lemma_cell_bytes_index(v.drop_last(), i);
        assert(cell_bytes(v).subrange(16 * i, 16 * i + 16) =~= cell_bytes(v.drop_last()).subrange(
            16 * i,
            16 * i + 16,
        ));
    }
}

/// Decoding inverts encoding: every payload the encoder produces parses back
/// to exactly the encoded path and amounts.
pub proof fn lemma_payload_round_trip(path: Seq<u128>, amounts: Seq<u128>)
    requires
        path.len() < 0x10000000000000000,
        amounts.len() < 0x10000000000000000,
    ensures
        parse_payload(payload_bytes(path, amounts)) == Some((path, amounts)),
{
    lemma_auto_spec_u128_to_from_le_bytes();
    lemma_cell_bytes_len(path);
    lemma_cell_bytes_len(amounts);
    let b = payload_bytes(path, amounts);
    assert(b.subrange(0, 16) =~= spec_u128_to_le_bytes(path.len() as u128));
    assert(b.subrange(16, 32) =~= spec_u128_to_le_bytes(amounts.len() as u128));
    let pl = path.len() as int;
    let al = amounts.len() as int;
    assert(b.len() == 32 + 16 * (pl + al));
    assert forall|i: int| 0 <= i < pl implies #[trigger] read_cells(b, 32, pl)[i] == path[i] by {
        lemma_cell_bytes_index(path, i);
        assert(b.subrange(32 + 16 * i, 32 + 16 * i + 16) =~= cell_bytes(path).subrange(
            16 * i,
            16 * i + 16,
        ));
    }
    assert forall|i: int| 0 <= i < al implies #[trigger] read_cells(b, 32 + 16 * pl, al)[i]
        == amounts[i] by {
        lemma_cell_bytes_index(amounts, i);
        assert(b.subrange(32 + 16 * pl + 16 * i, 32 + 16 * pl + 16 * i + 16) =~= cell_bytes(
            amounts,
        ).subrange(16 * i, 16 * i + 16));
    }
    assert(read_cells(b, 32, pl) =~= path);
    assert(read_cells(b, 32 + 16 * pl, al) =~= amounts);
}

} // verus!
