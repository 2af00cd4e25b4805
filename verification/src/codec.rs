//! The wire codec: a self-consistent binary format for the nine protocol
//! messages. A frame is a fixed 12-byte command tag, NUL-padded ASCII,
//! followed by the payload. Integers are little-endian; byte strings and
//! lists carry a 64-bit length prefix; text is UTF-8. Decoding is proved
//! to invert encoding ([`lemma_codec_round_trip`]).

use vstd::prelude::*;
use vstd::bytes::{
    lemma_auto_spec_u32_to_from_le_bytes, lemma_auto_spec_u64_to_from_le_bytes,
    spec_u32_from_le_bytes, spec_u32_to_le_bytes, spec_u64_from_le_bytes, spec_u64_to_le_bytes,
    u32_from_le_bytes, u32_to_le_bytes, u64_from_le_bytes, u64_to_le_bytes,
};
use vstd::slice::{slice_subrange, slice_to_vec};
use vstd::utf8::{
    decode_utf8, encode_utf8, encode_utf8_decode_utf8, encode_utf8_valid_utf8, is_ascii_chars,
    is_ascii_chars_encode_utf8, valid_utf8,
};
use crate::types::{Block, BlockV, Transaction, TransactionV};
use crate::messages::{
    Blockmsg, BlockmsgV, GetBlocksmsg, GetBlocksmsgV, GetDatamsg, GetDatamsgV, Invmsg, InvmsgV,
    Message, MessageV, SignRequestMsg, SignRequestMsgV, SignResponseMsg, SignResponseMsgV, Txmsg,
    TxmsgV, Versionmsg, VersionmsgV,
};

verus! {

/// Whether a sequence length fits the 64-bit length prefixes of the format.
pub open spec fn fits_u64(n: nat) -> bool {
    n < 0x1_0000_0000_0000_0000
}

// ---------------------------------------------------------------------------
// Specification of the primitive encodings.
// ---------------------------------------------------------------------------

pub open spec fn spec_enc_u64(x: u64) -> Seq<u8> {
    spec_u64_to_le_bytes(x)
}

/// A signed 32-bit value is shifted into `[0, 2^32)` and stored as four
/// little-endian bytes.
pub open spec fn spec_enc_i32(x: i32) -> Seq<u8> {
    spec_u32_to_le_bytes(((x as int) + 0x8000_0000) as u32)
}

pub open spec fn spec_enc_bool(b: bool) -> Seq<u8> {
    seq![if b { 1u8 } else { 0u8 }]
}

pub open spec fn spec_enc_bytes(b: Seq<u8>) -> Seq<u8> {
    spec_enc_u64(b.len() as u64) + b
}

pub open spec fn spec_enc_str(s: Seq<char>) -> Seq<u8> {
    spec_enc_bytes(encode_utf8(s))
}

// ---------------------------------------------------------------------------
// Specification of the primitive parsers. Each consumes a prefix of the
// input and returns the parsed value with the unread remainder.
// ---------------------------------------------------------------------------

pub open spec fn spec_parse_u64(b: Seq<u8>) -> Option<(u64, Seq<u8>)> {
    if b.len() >= 8 {
        Some((spec_u64_from_le_bytes(b.subrange(0, 8)), b.skip(8)))
    } else {
        None
    }
}

pub open spec fn spec_parse_i32(b: Seq<u8>) -> Option<(i32, Seq<u8>)> {
    if b.len() >= 4 {
        Some(((spec_u32_from_le_bytes(b.subrange(0, 4)) - 0x8000_0000) as i32, b.skip(4)))
    } else {
        None
    }
}

pub open spec fn spec_parse_bool(b: Seq<u8>) -> Option<(bool, Seq<u8>)> {
    if b.len() >= 1 && (b[0] == 0u8 || b[0] == 1u8) {
        Some((b[0] == 1u8, b.skip(1)))
    } else {
        None
    }
}

pub open spec fn spec_parse_bytes(b: Seq<u8>) -> Option<(Seq<u8>, Seq<u8>)> {
    match spec_parse_u64(b) {
        None => None,
        Some((n, r)) => if r.len() >= n {
            Some((r.take(n as int), r.skip(n as int)))
        } else {
            None
        },
    }
}

pub open spec fn spec_parse_str(b: Seq<u8>) -> Option<(Seq<char>, Seq<u8>)> {
    match spec_parse_bytes(b) {
        None => None,
        Some((raw, r)) => if valid_utf8(raw) {
            Some((decode_utf8(raw), r))
        } else {
            None
        },
    }
}

// ---------------------------------------------------------------------------
// Round-trip lemmas for the primitives: parsing an encoding followed by
// anything yields the encoded value and leaves exactly that remainder.
// ---------------------------------------------------------------------------

pub proof fn lemma_parse_u64(x: u64, rest: Seq<u8>)
    ensures
        spec_parse_u64(spec_enc_u64(x) + rest) == Some((x, rest)),
{
    lemma_auto_spec_u64_to_from_le_bytes();
    let b = spec_enc_u64(x) + rest;
    assert(b.subrange(0, 8) =~= spec_enc_u64(x));
    assert(b.skip(8) =~= rest);
}

pub proof fn lemma_parse_i32(x: i32, rest: Seq<u8>)
    ensures
        spec_parse_i32(spec_enc_i32(x) + rest) == Some((x, rest)),
{
    lemma_auto_spec_u32_to_from_le_bytes();
    let u = ((x as int) + 0x8000_0000) as u32;
    let b = spec_enc_i32(x) + rest;
    assert(b.subrange(0, 4) =~= spec_enc_i32(x));
    assert(b.skip(4) =~= rest);
    assert(spec_u32_from_le_bytes(spec_u32_to_le_bytes(u)) == u);
    assert(((u - 0x8000_0000) as i32) == x);
}

pub proof fn lemma_parse_bool(v: bool, rest: Seq<u8>)
    ensures
        spec_parse_bool(spec_enc_bool(v) + rest) == Some((v, rest)),
{
    let b = spec_enc_bool(v) + rest;
    assert(b[0] == if v { 1u8 } else { 0u8 });
    assert(b.skip(1) =~= rest);
}

pub proof fn lemma_parse_bytes(raw: Seq<u8>, rest: Seq<u8>)
    requires
        fits_u64(raw.len()),
    ensures
        spec_parse_bytes(spec_enc_bytes(raw) + rest) == Some((raw, rest)),
{
    let b = spec_enc_bytes(raw) + rest;
    assert(b =~= spec_enc_u64(raw.len() as u64) + (raw + rest));
    lemma_parse_u64(raw.len() as u64, raw + rest);
    let r = (raw + rest);
    assert(r.take(raw.len() as int) =~= raw);
    assert(r.skip(raw.len() as int) =~= rest);
}

pub proof fn lemma_parse_str(s: Seq<char>, rest: Seq<u8>)
    requires
        fits_u64(encode_utf8(s).len()),
    ensures
        spec_parse_str(spec_enc_str(s) + rest) == Some((s, rest)),
{
    broadcast use encode_utf8_valid_utf8, encode_utf8_decode_utf8;

    lemma_parse_bytes(encode_utf8(s), rest);
}

// ---------------------------------------------------------------------------
// Executable writers. Each appends the specified encoding to `out`.
// ---------------------------------------------------------------------------

pub fn write_u64(out: &mut Vec<u8>, x: u64)
    ensures
        final(out)@ == old(out)@ + spec_enc_u64(x),
{
    let mut b = u64_to_le_bytes(x);
    out.append(&mut b);
}

pub fn write_i32(out: &mut Vec<u8>, x: i32)
    ensures
        final(out)@ == old(out)@ + spec_enc_i32(x),
{
    let u: u32 = ((x as i64) + 0x8000_0000i64) as u32;
    let mut b = u32_to_le_bytes(u);
    out.append(&mut b);
}

pub fn write_bool(out: &mut Vec<u8>, b: bool)
    ensures
        final(out)@ == old(out)@ + spec_enc_bool(b),
{
    out.push(if b { 1u8 } else { 0u8 });
    proof {
        assert(out@ =~= old(out)@ + spec_enc_bool(b));
    }
}

pub fn write_bytes(out: &mut Vec<u8>, b: &[u8])
    ensures
        final(out)@ == old(out)@ + spec_enc_bytes(b@),
{
    write_u64(out, b.len() as u64);
    let mut v = slice_to_vec(b);
    out.append(&mut v);
    proof {
        assert(out@ =~= old(out)@ + spec_enc_bytes(b@));
    }
}

pub fn write_str(out: &mut Vec<u8>, s: &str)
    ensures
        final(out)@ == old(out)@ + spec_enc_str(s@),
{
    write_bytes(out, s.as_bytes());
}

// ---------------------------------------------------------------------------
// Executable readers over a byte slice and a cursor. Each reader's result
// agrees with the specification parser applied to the unread suffix.
// ---------------------------------------------------------------------------

pub fn read_u64(bytes: &[u8], pos: usize) -> (r: Option<(u64, usize)>)
    requires
        pos <= bytes@.len(),
    ensures
        match r {
            Some(p) => p.1 <= bytes@.len() && spec_parse_u64(bytes@.skip(pos as int)) == Some(
                (p.0, bytes@.skip(p.1 as int)),
            ),
            None => spec_parse_u64(bytes@.skip(pos as int)) is None,
        },
{
    if bytes.len() - pos >= 8 {
        let s = slice_subrange(bytes, pos, pos + 8);
        let x = u64_from_le_bytes(s);
        proof {
            assert(bytes@.subrange(pos as int, pos as int + 8) =~= bytes@.skip(
                pos as int,
            ).subrange(0, 8));
            assert(bytes@.skip(pos as int + 8) =~= bytes@.skip(pos as int).skip(8));
        }
        Some((x, pos + 8))
    } else {
        None
    }
}

pub fn read_i32(bytes: &[u8], pos: usize) -> (r: Option<(i32, usize)>)
    requires
        pos <= bytes@.len(),
    ensures
        match r {
            Some(p) => p.1 <= bytes@.len() && spec_parse_i32(bytes@.skip(pos as int)) == Some(
                (p.0, bytes@.skip(p.1 as int)),
            ),
            None => spec_parse_i32(bytes@.skip(pos as int)) is None,
        },
{
    if bytes.len() - pos >= 4 {
        let s = slice_subrange(bytes, pos, pos + 4);
        let u = u32_from_le_bytes(s);
        let x: i32 = ((u as i64) - 0x8000_0000i64) as i32;
        proof {
            assert(bytes@.subrange(pos as int, pos as int + 4) =~= bytes@.skip(
                pos as int,
            ).subrange(0, 4));
            assert(bytes@.skip(pos as int + 4) =~= bytes@.skip(pos as int).skip(4));
        }
        Some((x, pos + 4))
    } else {
        None
    }
}

pub fn read_bool(bytes: &[u8], pos: usize) -> (r: Option<(bool, usize)>)
    requires
        pos <= bytes@.len(),
    ensures
        match r {
            Some(p) => p.1 <= bytes@.len() && spec_parse_bool(bytes@.skip(pos as int)) == Some(
                (p.0, bytes@.skip(p.1 as int)),
            ),
            None => spec_parse_bool(bytes@.skip(pos as int)) is None,
        },
{
    if bytes.len() - pos >= 1 {
        let v = bytes[pos];
        proof {
            assert(bytes@.skip(pos as int)[0] == bytes@[pos as int]);
            assert(bytes@.skip(pos as int + 1) =~= bytes@.skip(pos as int).skip(1));
        }
        if v == 0 {
            Some((false, pos + 1))
        } else if v == 1 {
            Some((true, pos + 1))
        } else {
            None
        }
    } else {
        None
    }
}

pub fn read_bytes(bytes: &[u8], pos: usize) -> (r: Option<(Vec<u8>, usize)>)
    requires
        pos <= bytes@.len(),
    ensures
        match r {
            Some(p) => p.1 <= bytes@.len() && spec_parse_bytes(bytes@.skip(pos as int)) == Some(
                (p.0@, bytes@.skip(p.1 as int)),
            ),
            None => spec_parse_bytes(bytes@.skip(pos as int)) is None,
        },
{
    match read_u64(bytes, pos) {
        None => None,
        Some((n, p1)) => {
            if n <= (bytes.len() - p1) as u64 {
                let len = n as usize;
                let s = slice_subrange(bytes, p1, p1 + len);
                let v = slice_to_vec(s);
                proof {
                    assert(bytes@.subrange(p1 as int, p1 as int + n) =~= bytes@.skip(
                        p1 as int,
                    ).take(n as int));
                    assert(bytes@.skip(p1 as int + n) =~= bytes@.skip(p1 as int).skip(n as int));
                }
                Some((v, p1 + len))
            } else {
                None
            }
        },
    }
}

/// Relies on `String::from_utf8`: it succeeds exactly on valid UTF-8 input,
/// and the returned string's UTF-8 encoding is the input bytes.
#[verifier::external_body]
fn vec_to_string(v: Vec<u8>) -> (r: Option<String>)
    ensures
        r is Some <==> valid_utf8(v@),
        r matches Some(s) ==> encode_utf8(s@) == v@,
{
    match String::from_utf8(v) {
        Ok(s) => Some(s),
        Err(_) => None,
    }
}

pub fn read_str(bytes: &[u8], pos: usize) -> (r: Option<(String, usize)>)
    requires
        pos <= bytes@.len(),
    ensures
        match r {
            Some(p) => p.1 <= bytes@.len() && spec_parse_str(bytes@.skip(pos as int)) == Some(
                (p.0@, bytes@.skip(p.1 as int)),
            ),
            None => spec_parse_str(bytes@.skip(pos as int)) is None,
        },
{
    broadcast use encode_utf8_decode_utf8;

    match read_bytes(bytes, pos) {
        None => None,
        Some((raw, p1)) => match vec_to_string(raw) {
            None => None,
            Some(s) => Some((s, p1)),
        },
    }
}

// ---------------------------------------------------------------------------
// Compound encodings: transactions, blocks, and length-prefixed lists.
// ---------------------------------------------------------------------------

pub open spec fn spec_enc_tx(t: TransactionV) -> Seq<u8> {
    spec_enc_str(t.id) + spec_enc_bytes(t.body)
}

pub open spec fn spec_enc_txs(txs: Seq<TransactionV>) -> Seq<u8>
    decreases txs.len(),
{
    if txs.len() == 0 {
        Seq::empty()
    } else {
        spec_enc_tx(txs[0]) + spec_enc_txs(txs.drop_first())
    }
}

pub open spec fn spec_enc_tx_list(txs: Seq<TransactionV>) -> Seq<u8> {
    spec_enc_u64(txs.len() as u64) + spec_enc_txs(txs)
}

pub open spec fn spec_enc_block(b: BlockV) -> Seq<u8> {
    spec_enc_str(b.hash) + spec_enc_tx_list(b.txs)
}

pub open spec fn spec_enc_strs(items: Seq<Seq<char>>) -> Seq<u8>
    decreases items.len(),
{
    if items.len() == 0 {
        Seq::empty()
    } else {
        spec_enc_str(items[0]) + spec_enc_strs(items.drop_first())
    }
}

pub open spec fn spec_enc_str_list(items: Seq<Seq<char>>) -> Seq<u8> {
    spec_enc_u64(items.len() as u64) + spec_enc_strs(items)
}

pub open spec fn spec_parse_tx(b: Seq<u8>) -> Option<(TransactionV, Seq<u8>)> {
    match spec_parse_str(b) {
        None => None,
        Some((id, r1)) => match spec_parse_bytes(r1) {
            None => None,
            Some((body, r2)) => Some((TransactionV { id, body }, r2)),
        },
    }
}

pub open spec fn spec_parse_txs(b: Seq<u8>, n: nat) -> Option<(Seq<TransactionV>, Seq<u8>)>
    decreases n,
{
    if n == 0 {
        Some((Seq::empty(), b))
    } else {
        match spec_parse_tx(b) {
            None => None,
            Some((t, r)) => match spec_parse_txs(r, (n - 1) as nat) {
                None => None,
                Some((ts, r2)) => Some((seq![t] + ts, r2)),
            },
        }
    }
}

pub open spec fn spec_parse_tx_list(b: Seq<u8>) -> Option<(Seq<TransactionV>, Seq<u8>)> {
    match spec_parse_u64(b) {
        None => None,
        Some((n, r)) => spec_parse_txs(r, n as nat),
    }
}

pub open spec fn spec_parse_block(b: Seq<u8>) -> Option<(BlockV, Seq<u8>)> {
    match spec_parse_str(b) {
        None => None,
        Some((hash, r1)) => match spec_parse_tx_list(r1) {
            None => None,
            Some((txs, r2)) => Some((BlockV { hash, txs }, r2)),
        },
    }
}

pub open spec fn spec_parse_strs(b: Seq<u8>, n: nat) -> Option<(Seq<Seq<char>>, Seq<u8>)>
    decreases n,
{
    if n == 0 {
        Some((Seq::empty(), b))
    } else {
        match spec_parse_str(b) {
            None => None,
            Some((s, r)) => match spec_parse_strs(r, (n - 1) as nat) {
                None => None,
                Some((ss, r2)) => Some((seq![s] + ss, r2)),
            },
        }
    }
}

pub open spec fn spec_parse_str_list(b: Seq<u8>) -> Option<(Seq<Seq<char>>, Seq<u8>)> {
    match spec_parse_u64(b) {
        None => None,
        Some((n, r)) => spec_parse_strs(r, n as nat),
    }
}

// ---------------------------------------------------------------------------
// Well-formedness: every length that the format stores must fit its 64-bit
// prefix. Executable values always satisfy this.
// ---------------------------------------------------------------------------

pub open spec fn wf_str(s: Seq<char>) -> bool {
    fits_u64(encode_utf8(s).len())
}

pub open spec fn wf_tx(t: TransactionV) -> bool {
    wf_str(t.id) && fits_u64(t.body.len())
}

pub open spec fn wf_block(b: BlockV) -> bool {
    wf_str(b.hash) && fits_u64(b.txs.len()) && forall|i: int|
        0 <= i < b.txs.len() ==> wf_tx(#[trigger] b.txs[i])
}

pub open spec fn wf_strs(items: Seq<Seq<char>>) -> bool {
    fits_u64(items.len()) && forall|i: int| 0 <= i < items.len() ==> wf_str(#[trigger] items[i])
}

// ---------------------------------------------------------------------------
// Round-trip lemmas for the compound encodings.
// ---------------------------------------------------------------------------

pub proof fn lemma_parse_tx(t: TransactionV, rest: Seq<u8>)
    requires
        wf_tx(t),
    ensures
        spec_parse_tx(spec_enc_tx(t) + rest) == Some((t, rest)),
{
    assert(spec_enc_tx(t) + rest =~= spec_enc_str(t.id) + (spec_enc_bytes(t.body) + rest));
    lemma_parse_str(t.id, spec_enc_bytes(t.body) + rest);
    lemma_parse_bytes(t.body, rest);
}

pub proof fn lemma_parse_txs(txs: Seq<TransactionV>, rest: Seq<u8>)
    requires
        forall|i: int| 0 <= i < txs.len() ==> wf_tx(#[trigger] txs[i]),
    ensures
        spec_parse_txs(spec_enc_txs(txs) + rest, txs.len()) == Some((txs, rest)),
    decreases txs.len(),
{
    if txs.len() == 0 {
        assert(spec_enc_txs(txs) + rest =~= rest);
        assert(spec_parse_txs(rest, 0) == Some((Seq::<TransactionV>::empty(), rest)));
        assert(txs =~= Seq::<TransactionV>::empty());
    } else {
        let tail = txs.drop_first();
        assert(spec_enc_txs(txs) + rest =~= spec_enc_tx(txs[0]) + (spec_enc_txs(tail) + rest));
        lemma_parse_tx(txs[0], spec_enc_txs(tail) + rest);
        lemma_parse_txs(tail, rest);
        assert(seq![txs[0]] + tail =~= txs);
    }
}

pub proof fn lemma_parse_tx_list(txs: Seq<TransactionV>, rest: Seq<u8>)
    requires
        fits_u64(txs.len()),
        forall|i: int| 0 <= i < txs.len() ==> wf_tx(#[trigger] txs[i]),
    ensures
        spec_parse_tx_list(spec_enc_tx_list(txs) + rest) == Some((txs, rest)),
{
    assert(spec_enc_tx_list(txs) + rest =~= spec_enc_u64(txs.len() as u64) + (spec_enc_txs(txs)
        + rest));
    lemma_parse_u64(txs.len() as u64, spec_enc_txs(txs) + rest);
    lemma_parse_txs(txs, rest);
}

pub proof fn lemma_parse_block(b: BlockV, rest: Seq<u8>)
    requires
        wf_block(b),
    ensures
        spec_parse_block(spec_enc_block(b) + rest) == Some((b, rest)),
{
    assert(spec_enc_block(b) + rest =~= spec_enc_str(b.hash) + (spec_enc_tx_list(b.txs) + rest));
    lemma_parse_str(b.hash, spec_enc_tx_list(b.txs) + rest);
    lemma_parse_tx_list(b.txs, rest);
}

pub proof fn lemma_parse_strs(items: Seq<Seq<char>>, rest: Seq<u8>)
    requires
        forall|i: int| 0 <= i < items.len() ==> wf_str(#[trigger] items[i]),
    ensures
        spec_parse_strs(spec_enc_strs(items) + rest, items.len()) == Some((items, rest)),
    decreases items.len(),
{
    if items.len() == 0 {
        assert(spec_enc_strs(items) + rest =~= rest);
        assert(items =~= Seq::<Seq<char>>::empty());
    } else {
        let tail = items.drop_first();
        assert(spec_enc_strs(items) + rest =~= spec_enc_str(items[0]) + (spec_enc_strs(tail)
            + rest));
        lemma_parse_str(items[0], spec_enc_strs(tail) + rest);
        lemma_parse_strs(tail, rest);
        assert(seq![items[0]] + tail =~= items);
    }
}

pub proof fn lemma_parse_str_list(items: Seq<Seq<char>>, rest: Seq<u8>)
    requires
        wf_strs(items),
    ensures
        spec_parse_str_list(spec_enc_str_list(items) + rest) == Some((items, rest)),
{
    assert(spec_enc_str_list(items) + rest =~= spec_enc_u64(items.len() as u64) + (spec_enc_strs(
        items,
    ) + rest));
    lemma_parse_u64(items.len() as u64, spec_enc_strs(items) + rest);
    lemma_parse_strs(items, rest);
}

// Appending one element to a list extends its encoding by that element's
// encoding; this lets a forward loop build the recursive encoding.

pub proof fn lemma_enc_txs_push(txs: Seq<TransactionV>, t: TransactionV)
    ensures
        spec_enc_txs(txs.push(t)) == spec_enc_txs(txs) + spec_enc_tx(t),
    decreases txs.len(),
{
    if txs.len() == 0 {
        assert(txs.push(t)[0] == t);
        assert(txs.push(t).drop_first() =~= Seq::<TransactionV>::empty());
        assert(spec_enc_txs(Seq::<TransactionV>::empty()) == Seq::<u8>::empty());
        assert(spec_enc_txs(txs.push(t)) =~= spec_enc_txs(txs) + spec_enc_tx(t));
    } else {
        let l = txs.push(t);
        assert(l[0] == txs[0]);
        assert(l.drop_first() =~= txs.drop_first().push(t));
        lemma_enc_txs_push(txs.drop_first(), t);
        assert(spec_enc_txs(l) == spec_enc_tx(txs[0]) + (spec_enc_txs(txs.drop_first())
            + spec_enc_tx(t)));
        assert(spec_enc_tx(txs[0]) + (spec_enc_txs(txs.drop_first()) + spec_enc_tx(t))
            =~= (spec_enc_tx(txs[0]) + spec_enc_txs(txs.drop_first())) + spec_enc_tx(t));
    }
}

pub proof fn lemma_enc_strs_push(items: Seq<Seq<char>>, s: Seq<char>)
    ensures
        spec_enc_strs(items.push(s)) == spec_enc_strs(items) + spec_enc_str(s),
    decreases items.len(),
{
    if items.len() == 0 {
        assert(items.push(s)[0] == s);
        assert(items.push(s).drop_first() =~= Seq::<Seq<char>>::empty());
        assert(spec_enc_strs(Seq::<Seq<char>>::empty()) == Seq::<u8>::empty());
        assert(spec_enc_strs(items.push(s)) =~= spec_enc_strs(items) + spec_enc_str(s));
    } else {
        let l = items.push(s);
        assert(l[0] == items[0]);
        assert(l.drop_first() =~= items.drop_first().push(s));
        lemma_enc_strs_push(items.drop_first(), s);
        assert(spec_enc_strs(l) == spec_enc_str(items[0]) + (spec_enc_strs(items.drop_first())
            + spec_enc_str(s)));
        assert(spec_enc_str(items[0]) + (spec_enc_strs(items.drop_first()) + spec_enc_str(s))
            =~= (spec_enc_str(items[0]) + spec_enc_strs(items.drop_first())) + spec_enc_str(s));
    }
}

// ---------------------------------------------------------------------------
// Executable writers and readers for the compound encodings.
// ---------------------------------------------------------------------------

pub fn write_tx(out: &mut Vec<u8>, t: &Transaction)
    ensures
        final(out)@ == old(out)@ + spec_enc_tx(t@),
{
    write_str(out, t.id.as_str());
    write_bytes(out, t.body.as_slice());
    proof {
        assert(out@ =~= old(out)@ + spec_enc_tx(t@));
    }
}

pub fn read_tx(bytes: &[u8], pos: usize) -> (r: Option<(Transaction, usize)>)
    requires
        pos <= bytes@.len(),
    ensures
        match r {
            Some(p) => p.1 <= bytes@.len() && spec_parse_tx(bytes@.skip(pos as int)) == Some(
                (p.0@, bytes@.skip(p.1 as int)),
            ),
            None => spec_parse_tx(bytes@.skip(pos as int)) is None,
        },
{
    match read_str(bytes, pos) {
        None => None,
        Some((id, p1)) => match read_bytes(bytes, p1) {
            None => None,
            Some((body, p2)) => Some((Transaction { id, body }, p2)),
        },
    }
}

pub fn write_str_list(out: &mut Vec<u8>, items: &Vec<String>)
    ensures
        final(out)@ == old(out)@ + spec_enc_str_list(items.deep_view()),
{
    write_u64(out, items.len() as u64);
    let ghost base = out@;
    let mut i: usize = 0;
    while i < items.len()
        invariant
            i <= items.len(),
            out@ == base + spec_enc_strs(items.deep_view().take(i as int)),
        decreases items.len() - i,
    {
        proof {
            assert(spec_enc_strs(Seq::<Seq<char>>::empty()) == Seq::<u8>::empty());
            lemma_enc_strs_push(items.deep_view().take(i as int), items.deep_view()[i as int]);
            assert(items.deep_view().take(i as int + 1) =~= items.deep_view().take(
                i as int,
            ).push(items.deep_view()[i as int]));
        }
        write_str(out, items[i].as_str());
        i += 1;
        proof {
            assert(out@ =~= base + spec_enc_strs(items.deep_view().take(i as int)));
        }
    }
    proof {
        assert(items.deep_view().take(items@.len() as int) =~= items.deep_view());
        assert(out@ =~= old(out)@ + spec_enc_str_list(items.deep_view()));
    }
}

pub fn read_str_list(bytes: &[u8], pos: usize) -> (r: Option<(Vec<String>, usize)>)
    requires
        pos <= bytes@.len(),
    ensures
        match r {
            Some(p) => p.1 <= bytes@.len() && spec_parse_str_list(bytes@.skip(pos as int)) == Some(
                (p.0.deep_view(), bytes@.skip(p.1 as int)),
            ),
            None => spec_parse_str_list(bytes@.skip(pos as int)) is None,
        },
{
    match read_u64(bytes, pos) {
        None => None,
        Some((n, p1)) => {
            let mut acc: Vec<String> = Vec::new();
            let mut p = p1;
            let mut i: u64 = 0;
            loop
                invariant
                    i <= n,
                    p <= bytes@.len(),
                    pos <= bytes@.len(),
                    acc.deep_view().len() == i,
                    spec_parse_str_list(bytes@.skip(pos as int)) == spec_parse_strs(
                        bytes@.skip(p1 as int),
                        n as nat,
                    ),
                    spec_parse_strs(bytes@.skip(p1 as int), n as nat) == (
                    match spec_parse_strs(bytes@.skip(p as int), (n - i) as nat) {
                        None => None::<(Seq<Seq<char>>, Seq<u8>)>,
                        Some((ss, r2)) => Some((acc.deep_view() + ss, r2)),
                    }),
                decreases n - i,
            {
                if i == n {
                    proof {
                        assert(acc.deep_view() + Seq::<Seq<char>>::empty() =~= acc.deep_view());
                    }
                    return Some((acc, p));
                }
                match read_str(bytes, p) {
                    None => {
                        return None;
                    },
                    Some((s, p2)) => {
                        let ghost accv = acc.deep_view();
                        acc.push(s);
                        proof {
                            assert(acc.deep_view() =~= accv.push(s@));
                            assert(forall|ss: Seq<Seq<char>>|
                                accv + (seq![s@] + ss) =~= #[trigger] (accv.push(s@) + ss));
                        }
                        p = p2;
                        i += 1;
                    },
                }
            }
        },
    }
}

pub fn write_tx_list(out: &mut Vec<u8>, txs: &Vec<Transaction>)
    ensures
        final(out)@ == old(out)@ + spec_enc_tx_list(txs.deep_view()),
{
    write_u64(out, txs.len() as u64);
    let ghost base = out@;
    let mut i: usize = 0;
    while i < txs.len()
        invariant
            i <= txs.len(),
            out@ == base + spec_enc_txs(txs.deep_view().take(i as int)),
        decreases txs.len() - i,
    {
        proof {
            assert(spec_enc_txs(Seq::<TransactionV>::empty()) == Seq::<u8>::empty());
            lemma_enc_txs_push(txs.deep_view().take(i as int), txs.deep_view()[i as int]);
            assert(txs.deep_view().take(i as int + 1) =~= txs.deep_view().take(i as int).push(
                txs.deep_view()[i as int],
            ));
        }
        write_tx(out, &txs[i]);
        i += 1;
        proof {
            assert(out@ =~= base + spec_enc_txs(txs.deep_view().take(i as int)));
        }
    }
    proof {
        assert(txs.deep_view().take(txs@.len() as int) =~= txs.deep_view());
        assert(out@ =~= old(out)@ + spec_enc_tx_list(txs.deep_view()));
    }
}

pub fn read_tx_list(bytes: &[u8], pos: usize) -> (r: Option<(Vec<Transaction>, usize)>)
    requires
        pos <= bytes@.len(),
    ensures
        match r {
            Some(p) => p.1 <= bytes@.len() && spec_parse_tx_list(bytes@.skip(pos as int)) == Some(
                (p.0.deep_view(), bytes@.skip(p.1 as int)),
            ),
            None => spec_parse_tx_list(bytes@.skip(pos as int)) is None,
        },
{
    match read_u64(bytes, pos) {
        None => None,
        Some((n, p1)) => {
            let mut acc: Vec<Transaction> = Vec::new();
            let mut p = p1;
            let mut i: u64 = 0;
            loop
                invariant
                    i <= n,
                    p <= bytes@.len(),
                    pos <= bytes@.len(),
                    acc.deep_view().len() == i,
                    spec_parse_tx_list(bytes@.skip(pos as int)) == spec_parse_txs(
                        bytes@.skip(p1 as int),
                        n as nat,
                    ),
                    spec_parse_txs(bytes@.skip(p1 as int), n as nat) == (
                    match spec_parse_txs(bytes@.skip(p as int), (n - i) as nat) {
                        None => None::<(Seq<TransactionV>, Seq<u8>)>,
                        Some((ts, r2)) => Some((acc.deep_view() + ts, r2)),
                    }),
                decreases n - i,
            {
                if i == n {
                    proof {
                        assert(acc.deep_view() + Seq::<TransactionV>::empty() =~= acc.deep_view());
                    }
                    return Some((acc, p));
                }
                match read_tx(bytes, p) {
                    None => {
                        return None;
                    },
                    Some((t, p2)) => {
                        let ghost accv = acc.deep_view();
                        acc.push(t);
                        proof {
                            assert(acc.deep_view() =~= accv.push(acc@[i as int]@));
                            assert(forall|ts: Seq<TransactionV>|
                                accv + (seq![acc@[i as int]@] + ts) =~= #[trigger] (accv.push(
                                    acc@[i as int]@,
                                ) + ts));
                        }
                        p = p2;
                        i += 1;
                    },
                }
            }
        },
    }
}

pub fn write_block(out: &mut Vec<u8>, b: &Block)
    ensures
        final(out)@ == old(out)@ + spec_enc_block(b@),
{
    write_str(out, b.hash.as_str());
    write_tx_list(out, &b.txs);
    proof {
        assert(out@ =~= old(out)@ + spec_enc_block(b@));
    }
}

pub fn read_block(bytes: &[u8], pos: usize) -> (r: Option<(Block, usize)>)
    requires
        pos <= bytes@.len(),
    ensures
        match r {
            Some(p) => p.1 <= bytes@.len() && spec_parse_block(bytes@.skip(pos as int)) == Some(
                (p.0@, bytes@.skip(p.1 as int)),
            ),
            None => spec_parse_block(bytes@.skip(pos as int)) is None,
        },
{
    match read_str(bytes, pos) {
        None => None,
        Some((hash, p1)) => match read_tx_list(bytes, p1) {
            None => None,
            Some((txs, p2)) => Some((Block { hash, txs }, p2)),
        },
    }
}

// ---------------------------------------------------------------------------
// Command tags: 12 bytes of ASCII, NUL-padded.
// ---------------------------------------------------------------------------

/// NUL-pads a byte sequence to 12 bytes.
pub open spec fn spec_pad12(b: Seq<u8>) -> Seq<u8> {
    if b.len() <= 12 {
        b + Seq::new((12 - b.len()) as nat, |i: int| 0u8)
    } else {
        b.take(12)
    }
}

/// The 12-byte wire tag of a command name.
pub open spec fn spec_tag(s: Seq<char>) -> Seq<u8> {
    spec_pad12(encode_utf8(s))
}

/// Turns a command name into its fixed-width wire tag.
pub fn cmd_to_bytes(cmd: &str) -> (r: Vec<u8>)
    requires
        encode_utf8(cmd@).len() <= 12,
    ensures
        r@ == spec_tag(cmd@),
        r@.len() == 12,
{
    let b = cmd.as_bytes();
    let mut out = slice_to_vec(b);
    while out.len() < 12
        invariant
            encode_utf8(cmd@).len() <= out@.len() <= 12,
            out@ =~= encode_utf8(cmd@) + Seq::new(
                (out@.len() - encode_utf8(cmd@).len()) as nat,
                |i: int| 0u8,
            ),
        decreases 12 - out@.len(),
    {
        out.push(0u8);
        proof {
            assert(out@ =~= encode_utf8(cmd@) + Seq::new(
                (out@.len() - encode_utf8(cmd@).len()) as nat,
                |i: int| 0u8,
            ));
        }
    }
    proof {
        assert(out@ =~= spec_tag(cmd@));
    }
    out
}

/// The byte facts about the nine command tags that tag dispatch relies on:
/// each is 12 bytes, and they are pairwise distinguished by the bytes named
/// here.
pub proof fn lemma_tag_facts()
    ensures
        encode_utf8("addr"@).len() == 4,
        encode_utf8("block"@).len() == 5,
        encode_utf8("inv"@).len() == 3,
        encode_utf8("getblocks"@).len() == 9,
        encode_utf8("getdata"@).len() == 7,
        encode_utf8("tx"@).len() == 2,
        encode_utf8("version"@).len() == 7,
        encode_utf8("signreq"@).len() == 7,
        encode_utf8("signres"@).len() == 7,
        spec_tag("addr"@).len() == 12,
        spec_tag("block"@).len() == 12,
        spec_tag("inv"@).len() == 12,
        spec_tag("getblocks"@).len() == 12,
        spec_tag("getdata"@).len() == 12,
        spec_tag("tx"@).len() == 12,
        spec_tag("version"@).len() == 12,
        spec_tag("signreq"@).len() == 12,
        spec_tag("signres"@).len() == 12,
        spec_tag("addr"@)[0] == 97u8,
        spec_tag("block"@)[0] == 98u8,
        spec_tag("inv"@)[0] == 105u8,
        spec_tag("getblocks"@)[0] == 103u8,
        spec_tag("getdata"@)[0] == 103u8,
        spec_tag("getblocks"@)[3] == 98u8,
        spec_tag("getdata"@)[3] == 100u8,
        spec_tag("tx"@)[0] == 116u8,
        spec_tag("version"@)[0] == 118u8,
        spec_tag("signreq"@)[0] == 115u8,
        spec_tag("signres"@)[0] == 115u8,
        spec_tag("signreq"@)[6] == 113u8,
        spec_tag("signres"@)[6] == 115u8,
{
    reveal_strlit("addr");
    reveal_strlit("block");
    reveal_strlit("inv");
    reveal_strlit("getblocks");
    reveal_strlit("getdata");
    reveal_strlit("tx");
    reveal_strlit("version");
    reveal_strlit("signreq");
    reveal_strlit("signres");
    assert(is_ascii_chars("addr"@));
    assert(is_ascii_chars("block"@));
    assert(is_ascii_chars("inv"@));
    assert(is_ascii_chars("getblocks"@));
    assert(is_ascii_chars("getdata"@));
    assert(is_ascii_chars("tx"@));
    assert(is_ascii_chars("version"@));
    assert(is_ascii_chars("signreq"@));
    assert(is_ascii_chars("signres"@));
    is_ascii_chars_encode_utf8("addr"@);
    is_ascii_chars_encode_utf8("block"@);
    is_ascii_chars_encode_utf8("inv"@);
    is_ascii_chars_encode_utf8("getblocks"@);
    is_ascii_chars_encode_utf8("getdata"@);
    is_ascii_chars_encode_utf8("tx"@);
    is_ascii_chars_encode_utf8("version"@);
    is_ascii_chars_encode_utf8("signreq"@);
    is_ascii_chars_encode_utf8("signres"@);
}

/// Whether a 12-byte prefix is one of the nine known command tags.
pub open spec fn spec_known_tag(t: Seq<u8>) -> bool {
    ||| t == spec_tag("addr"@)
    ||| t == spec_tag("block"@)
    ||| t == spec_tag("inv"@)
    ||| t == spec_tag("getblocks"@)
    ||| t == spec_tag("getdata"@)
    ||| t == spec_tag("tx"@)
    ||| t == spec_tag("version"@)
    ||| t == spec_tag("signreq"@)
    ||| t == spec_tag("signres"@)
}

/// Compares the first 12 bytes of `bytes` with the tag of `cmd`.
fn tag_is(bytes: &[u8], cmd: &str) -> (r: bool)
    requires
        bytes@.len() >= 12,
        encode_utf8(cmd@).len() <= 12,
    ensures
        r == (bytes@.take(12) == spec_tag(cmd@)),
{
    let t = cmd_to_bytes(cmd);
    let mut i: usize = 0;
    while i < 12
        invariant
            i <= 12,
            bytes@.len() >= 12,
            t@ == spec_tag(cmd@),
            t@.len() == 12,
            forall|j: int| 0 <= j < i ==> bytes@[j] == t@[j],
        decreases 12 - i,
    {
        if bytes[i] != t[i] {
            proof {
                assert(bytes@.take(12)[i as int] == bytes@[i as int]);
            }
            return false;
        }
        i += 1;
    }
    proof {
        assert(bytes@.take(12) =~= t@);
    }
    true
}

// ---------------------------------------------------------------------------
// Message encoding: the command tag followed by the payload fields in order.
// ---------------------------------------------------------------------------

pub open spec fn spec_enc_message(m: MessageV) -> Seq<u8> {
    match m {
        MessageV::Addr(items) => spec_tag("addr"@) + spec_enc_str_list(items),
        MessageV::Version(v) => spec_tag("version"@) + spec_enc_str(v.addr_from) + spec_enc_i32(
            v.version,
        ) + spec_enc_i32(v.best_height),
        MessageV::Tx(t) => spec_tag("tx"@) + spec_enc_str(t.addr_from) + spec_enc_tx(
            t.transaction,
        ),
        MessageV::GetData(g) => spec_tag("getdata"@) + spec_enc_str(g.addr_from) + spec_enc_str(
            g.kind,
        ) + spec_enc_str(g.id),
        MessageV::GetBlock(g) => spec_tag("getblocks"@) + spec_enc_str(g.addr_from),
        MessageV::Inv(i) => spec_tag("inv"@) + spec_enc_str(i.addr_from) + spec_enc_str(i.kind)
            + spec_enc_str_list(i.items),
        MessageV::Block(b) => spec_tag("block"@) + spec_enc_str(b.addr_from) + spec_enc_block(
            b.block,
        ),
        MessageV::SignRequest(s) => spec_tag("signreq"@) + spec_enc_str(s.addr_from)
            + spec_enc_str(s.address) + spec_enc_tx(s.transaction),
        MessageV::SignResponse(s) => spec_tag("signres"@) + spec_enc_str(s.addr_from)
            + spec_enc_tx(s.transaction) + spec_enc_bool(s.success) + spec_enc_str(
            s.error_message,
        ),
    }
}

/// Whether every length stored by the encoding of `m` fits its 64-bit
/// prefix; every message built from executable values satisfies this.
pub open spec fn wf_message(m: MessageV) -> bool {
    match m {
        MessageV::Addr(items) => wf_strs(items),
        MessageV::Version(v) => wf_str(v.addr_from),
        MessageV::Tx(t) => wf_str(t.addr_from) && wf_tx(t.transaction),
        MessageV::GetData(g) => wf_str(g.addr_from) && wf_str(g.kind) && wf_str(g.id),
        MessageV::GetBlock(g) => wf_str(g.addr_from),
        MessageV::Inv(i) => wf_str(i.addr_from) && wf_str(i.kind) && wf_strs(i.items),
        MessageV::Block(b) => wf_str(b.addr_from) && wf_block(b.block),
        MessageV::SignRequest(s) => wf_str(s.addr_from) && wf_str(s.address) && wf_tx(
            s.transaction,
        ),
        MessageV::SignResponse(s) => wf_str(s.addr_from) && wf_tx(s.transaction) && wf_str(
            s.error_message,
        ),
    }
}

// Payload parsers, one per message kind.

pub open spec fn spec_parse_addr_payload(b: Seq<u8>) -> Option<(MessageV, Seq<u8>)> {
    match spec_parse_str_list(b) {
        None => None,
        Some((items, r)) => Some((MessageV::Addr(items), r)),
    }
}

pub open spec fn spec_parse_version_payload(b: Seq<u8>) -> Option<(MessageV, Seq<u8>)> {
    match spec_parse_str(b) {
        None => None,
        Some((addr_from, r1)) => match spec_parse_i32(r1) {
            None => None,
            Some((version, r2)) => match spec_parse_i32(r2) {
                None => None,
                Some((best_height, r3)) => Some(
                    (MessageV::Version(VersionmsgV { addr_from, version, best_height }), r3),
                ),
            },
        },
    }
}

pub open spec fn spec_parse_tx_payload(b: Seq<u8>) -> Option<(MessageV, Seq<u8>)> {
    match spec_parse_str(b) {
        None => None,
        Some((addr_from, r1)) => match spec_parse_tx(r1) {
            None => None,
            Some((transaction, r2)) => Some(
                (MessageV::Tx(TxmsgV { addr_from, transaction }), r2),
            ),
        },
    }
}

pub open spec fn spec_parse_getdata_payload(b: Seq<u8>) -> Option<(MessageV, Seq<u8>)> {
    match spec_parse_str(b) {
        None => None,
        Some((addr_from, r1)) => match spec_parse_str(r1) {
            None => None,
            Some((kind, r2)) => match spec_parse_str(r2) {
                None => None,
                Some((id, r3)) => Some((MessageV::GetData(GetDatamsgV { addr_from, kind, id }), r3)),
            },
        },
    }
}

pub open spec fn spec_parse_getblocks_payload(b: Seq<u8>) -> Option<(MessageV, Seq<u8>)> {
    match spec_parse_str(b) {
        None => None,
        Some((addr_from, r1)) => Some((MessageV::GetBlock(GetBlocksmsgV { addr_from }), r1)),
    }
}

pub open spec fn spec_parse_inv_payload(b: Seq<u8>) -> Option<(MessageV, Seq<u8>)> {
    match spec_parse_str(b) {
        None => None,
        Some((addr_from, r1)) => match spec_parse_str(r1) {
            None => None,
            Some((kind, r2)) => match spec_parse_str_list(r2) {
                None => None,
                Some((items, r3)) => Some((MessageV::Inv(InvmsgV { addr_from, kind, items }), r3)),
            },
        },
    }
}

pub open spec fn spec_parse_block_payload(b: Seq<u8>) -> Option<(MessageV, Seq<u8>)> {
    match spec_parse_str(b) {
        None => None,
        Some((addr_from, r1)) => match spec_parse_block(r1) {
            None => None,
            Some((block, r2)) => Some((MessageV::Block(BlockmsgV { addr_from, block }), r2)),
        },
    }
}

pub open spec fn spec_parse_signreq_payload(b: Seq<u8>) -> Option<(MessageV, Seq<u8>)> {
    match spec_parse_str(b) {
        None => None,
        Some((addr_from, r1)) => match spec_parse_str(r1) {
            None => None,
            Some((address, r2)) => match spec_parse_tx(r2) {
                None => None,
                Some((transaction, r3)) => Some(
                    (MessageV::SignRequest(SignRequestMsgV { addr_from, address, transaction }), r3),
                ),
            },
        },
    }
}

pub open spec fn spec_parse_signres_payload(b: Seq<u8>) -> Option<(MessageV, Seq<u8>)> {
    match spec_parse_str(b) {
        None => None,
        Some((addr_from, r1)) => match spec_parse_tx(r1) {
            None => None,
            Some((transaction, r2)) => match spec_parse_bool(r2) {
                None => None,
                Some((success, r3)) => match spec_parse_str(r3) {
                    None => None,
                    Some((error_message, r4)) => Some(
                        (
                            MessageV::SignResponse(
                                SignResponseMsgV { addr_from, transaction, success, error_message },
                            ),
                            r4,
                        ),
                    ),
                },
            },
        },
    }
}

/// Dispatches on the tag and requires the payload to be consumed in full.
pub open spec fn spec_decode(bytes: Seq<u8>) -> Option<MessageV> {
    if bytes.len() < 12 {
        None
    } else {
        let tag = bytes.take(12);
        let payload = bytes.skip(12);
        let parsed = if tag == spec_tag("addr"@) {
            spec_parse_addr_payload(payload)
        } else if tag == spec_tag("block"@) {
            spec_parse_block_payload(payload)
        } else if tag == spec_tag("inv"@) {
            spec_parse_inv_payload(payload)
        } else if tag == spec_tag("getblocks"@) {
            spec_parse_getblocks_payload(payload)
        } else if tag == spec_tag("getdata"@) {
            spec_parse_getdata_payload(payload)
        } else if tag == spec_tag("tx"@) {
            spec_parse_tx_payload(payload)
        } else if tag == spec_tag("version"@) {
            spec_parse_version_payload(payload)
        } else if tag == spec_tag("signreq"@) {
            spec_parse_signreq_payload(payload)
        } else if tag == spec_tag("signres"@) {
            spec_parse_signres_payload(payload)
        } else {
            None
        };
        match parsed {
            None => None,
            Some((m, rest)) => if rest.len() == 0 {
                Some(m)
            } else {
                None
            },
        }
    }
}

/// Why a frame failed to decode.
#[derive(Debug, PartialEq, Eq)]
pub enum CodecError {
    /// The frame is shorter than the 12-byte command tag.
    TooShort,
    /// The 12-byte tag names no known command.
    UnknownCommand,
    /// The payload does not parse as the tagged kind, or leaves bytes over.
    BadPayload,
}

/// Encodes a message as its wire frame: the command tag, then the payload.
pub fn encode_message(msg: &Message) -> (r: Vec<u8>)
    ensures
        r@ == spec_enc_message(msg@),
{
    proof {
        lemma_tag_facts();
    }
    match msg {
        Message::Addr(items) => {
            let mut out = cmd_to_bytes("addr");
            write_str_list(&mut out, items);
            out
        },
        Message::Version(v) => {
            let mut out = cmd_to_bytes("version");
            write_str(&mut out, v.addr_from.as_str());
            write_i32(&mut out, v.version);
            write_i32(&mut out, v.best_height);
            out
        },
        Message::Tx(t) => {
            let mut out = cmd_to_bytes("tx");
            write_str(&mut out, t.addr_from.as_str());
            write_tx(&mut out, &t.transaction);
            out
        },
        Message::GetData(g) => {
            let mut out = cmd_to_bytes("getdata");
            write_str(&mut out, g.addr_from.as_str());
            write_str(&mut out, g.kind.as_str());
            write_str(&mut out, g.id.as_str());
            out
        },
        Message::GetBlock(g) => {
            let mut out = cmd_to_bytes("getblocks");
            write_str(&mut out, g.addr_from.as_str());
            out
        },
        Message::Inv(i) => {
            let mut out = cmd_to_bytes("inv");
            write_str(&mut out, i.addr_from.as_str());
            write_str(&mut out, i.kind.as_str());
            write_str_list(&mut out, &i.items);
            out
        },
        Message::Block(b) => {
            let mut out = cmd_to_bytes("block");
            write_str(&mut out, b.addr_from.as_str());
            write_block(&mut out, &b.block);
            out
        },
        Message::SignRequest(s) => {
            let mut out = cmd_to_bytes("signreq");
            write_str(&mut out, s.addr_from.as_str());
            write_str(&mut out, s.address.as_str());
            write_tx(&mut out, &s.transaction);
            out
        },
        Message::SignResponse(s) => {
            let mut out = cmd_to_bytes("signres");
            write_str(&mut out, s.addr_from.as_str());
            write_tx(&mut out, &s.transaction);
            write_bool(&mut out, s.success);
            write_str(&mut out, s.error_message.as_str());
            out
        },
    }
}

fn read_addr_payload(bytes: &[u8], pos: usize) -> (r: Option<(Message, usize)>)
    requires
        pos <= bytes@.len(),
    ensures
        match r {
            Some(p) => p.1 <= bytes@.len() && spec_parse_addr_payload(bytes@.skip(pos as int))
                == Some((p.0@, bytes@.skip(p.1 as int))),
            None => spec_parse_addr_payload(bytes@.skip(pos as int)) is None,
        },
{
    match read_str_list(bytes, pos) {
        None => None,
        Some((items, p)) => Some((Message::Addr(items), p)),
    }
}

fn read_version_payload(bytes: &[u8], pos: usize) -> (r: Option<(Message, usize)>)
    requires
        pos <= bytes@.len(),
    ensures
        match r {
            Some(p) => p.1 <= bytes@.len() && spec_parse_version_payload(bytes@.skip(pos as int))
                == Some((p.0@, bytes@.skip(p.1 as int))),
            None => spec_parse_version_payload(bytes@.skip(pos as int)) is None,
        },
{
    match read_str(bytes, pos) {
        None => None,
        Some((addr_from, p1)) => match read_i32(bytes, p1) {
            None => None,
            Some((version, p2)) => match read_i32(bytes, p2) {
                None => None,
                Some((best_height, p3)) => Some(
                    (Message::Version(Versionmsg { addr_from, version, best_height }), p3),
                ),
            },
        },
    }
}

fn read_tx_payload(bytes: &[u8], pos: usize) -> (r: Option<(Message, usize)>)
    requires
        pos <= bytes@.len(),
    ensures
        match r {
            Some(p) => p.1 <= bytes@.len() && spec_parse_tx_payload(bytes@.skip(pos as int))
                == Some((p.0@, bytes@.skip(p.1 as int))),
            None => spec_parse_tx_payload(bytes@.skip(pos as int)) is None,
        },
{
    match read_str(bytes, pos) {
        None => None,
        Some((addr_from, p1)) => match read_tx(bytes, p1) {
            None => None,
            Some((transaction, p2)) => Some((Message::Tx(Txmsg { addr_from, transaction }), p2)),
        },
    }
}

fn read_getdata_payload(bytes: &[u8], pos: usize) -> (r: Option<(Message, usize)>)
    requires
        pos <= bytes@.len(),
    ensures
        match r {
            Some(p) => p.1 <= bytes@.len() && spec_parse_getdata_payload(bytes@.skip(pos as int))
                == Some((p.0@, bytes@.skip(p.1 as int))),
            None => spec_parse_getdata_payload(bytes@.skip(pos as int)) is None,
        },
{
    match read_str(bytes, pos) {
        None => None,
        Some((addr_from, p1)) => match read_str(bytes, p1) {
            None => None,
            Some((kind, p2)) => match read_str(bytes, p2) {
                None => None,
                Some((id, p3)) => Some((Message::GetData(GetDatamsg { addr_from, kind, id }), p3)),
            },
        },
    }
}

fn read_getblocks_payload(bytes: &[u8], pos: usize) -> (r: Option<(Message, usize)>)
    requires
        pos <= bytes@.len(),
    ensures
        match r {
            Some(p) => p.1 <= bytes@.len() && spec_parse_getblocks_payload(
                bytes@.skip(pos as int),
            ) == Some((p.0@, bytes@.skip(p.1 as int))),
            None => spec_parse_getblocks_payload(bytes@.skip(pos as int)) is None,
        },
{
    match read_str(bytes, pos) {
        None => None,
        Some((addr_from, p1)) => Some((Message::GetBlock(GetBlocksmsg { addr_from }), p1)),
    }
}

fn read_inv_payload(bytes: &[u8], pos: usize) -> (r: Option<(Message, usize)>)
    requires
        pos <= bytes@.len(),
    ensures
        match r {
            Some(p) => p.1 <= bytes@.len() && spec_parse_inv_payload(bytes@.skip(pos as int))
                == Some((p.0@, bytes@.skip(p.1 as int))),
            None => spec_parse_inv_payload(bytes@.skip(pos as int)) is None,
        },
{
    match read_str(bytes, pos) {
        None => None,
        Some((addr_from, p1)) => match read_str(bytes, p1) {
            None => None,
            Some((kind, p2)) => match read_str_list(bytes, p2) {
                None => None,
                Some((items, p3)) => Some((Message::Inv(Invmsg { addr_from, kind, items }), p3)),
            },
        },
    }
}

fn read_block_payload(bytes: &[u8], pos: usize) -> (r: Option<(Message, usize)>)
    requires
        pos <= bytes@.len(),
    ensures
        match r {
            Some(p) => p.1 <= bytes@.len() && spec_parse_block_payload(bytes@.skip(pos as int))
                == Some((p.0@, bytes@.skip(p.1 as int))),
            None => spec_parse_block_payload(bytes@.skip(pos as int)) is None,
        },
{
    match read_str(bytes, pos) {
        None => None,
        Some((addr_from, p1)) => match read_block(bytes, p1) {
            None => None,
            Some((block, p2)) => Some((Message::Block(Blockmsg { addr_from, block }), p2)),
        },
    }
}

fn read_signreq_payload(bytes: &[u8], pos: usize) -> (r: Option<(Message, usize)>)
    requires
        pos <= bytes@.len(),
    ensures
        match r {
            Some(p) => p.1 <= bytes@.len() && spec_parse_signreq_payload(bytes@.skip(pos as int))
                == Some((p.0@, bytes@.skip(p.1 as int))),
            None => spec_parse_signreq_payload(bytes@.skip(pos as int)) is None,
        },
{
    match read_str(bytes, pos) {
        None => None,
        Some((addr_from, p1)) => match read_str(bytes, p1) {
            None => None,
            Some((address, p2)) => match read_tx(bytes, p2) {
                None => None,
                Some((transaction, p3)) => Some(
                    (Message::SignRequest(SignRequestMsg { addr_from, address, transaction }), p3),
                ),
            },
        },
    }
}

fn read_signres_payload(bytes: &[u8], pos: usize) -> (r: Option<(Message, usize)>)
    requires
        pos <= bytes@.len(),
    ensures
        match r {
            Some(p) => p.1 <= bytes@.len() && spec_parse_signres_payload(bytes@.skip(pos as int))
                == Some((p.0@, bytes@.skip(p.1 as int))),
            None => spec_parse_signres_payload(bytes@.skip(pos as int)) is None,
        },
{
    match read_str(bytes, pos) {
        None => None,
        Some((addr_from, p1)) => match read_tx(bytes, p1) {
            None => None,
            Some((transaction, p2)) => match read_bool(bytes, p2) {
                None => None,
                Some((success, p3)) => match read_str(bytes, p3) {
                    None => None,
                    Some((error_message, p4)) => Some(
                        (
                            Message::SignResponse(
                                SignResponseMsg { addr_from, transaction, success, error_message },
                            ),
                            p4,
                        ),
                    ),
                },
            },
        },
    }
}

/// Decodes a wire frame. Succeeds exactly on the frames [`spec_decode`]
/// accepts; an unrecognized 12-byte tag always fails with
/// [`CodecError::UnknownCommand`].
pub fn bytes_to_cmd(bytes: &[u8]) -> (r: Result<Message, CodecError>)
    ensures
        match r {
            Ok(m) => spec_decode(bytes@) == Some(m@),
            Err(e) => spec_decode(bytes@) is None && ((e == CodecError::TooShort) <==> bytes@.len()
                < 12) && ((e == CodecError::UnknownCommand) <==> (bytes@.len() >= 12
                && !spec_known_tag(bytes@.take(12)))),
        },
{
    if bytes.len() < 12 {
        return Err(CodecError::TooShort);
    }
    proof {
        lemma_tag_facts();
    }
    let parsed = if tag_is(bytes, "addr") {
        read_addr_payload(bytes, 12)
    } else if tag_is(bytes, "block") {
        read_block_payload(bytes, 12)
    } else if tag_is(bytes, "inv") {
        read_inv_payload(bytes, 12)
    } else if tag_is(bytes, "getblocks") {
        read_getblocks_payload(bytes, 12)
    } else if tag_is(bytes, "getdata") {
        read_getdata_payload(bytes, 12)
    } else if tag_is(bytes, "tx") {
        read_tx_payload(bytes, 12)
    } else if tag_is(bytes, "version") {
        read_version_payload(bytes, 12)
    } else if tag_is(bytes, "signreq") {
        read_signreq_payload(bytes, 12)
    } else if tag_is(bytes, "signres") {
        read_signres_payload(bytes, 12)
    } else {
        return Err(CodecError::UnknownCommand);
    };
    match parsed {
        None => Err(CodecError::BadPayload),
        Some((msg, p)) => {
            if p == bytes.len() {
                Ok(msg)
            } else {
                Err(CodecError::BadPayload)
            }
        },
    }
}

/// The codec round trip: decoding the encoding of any well-formed message,
/// of any of the nine kinds, yields that message again.
proof fn lemma_round_trip_addr(items: Seq<Seq<char>>)
    requires
        wf_message(MessageV::Addr(items)),
    ensures
        spec_decode(spec_enc_message(MessageV::Addr(items))) == Some(MessageV::Addr(items)),
{
    lemma_tag_facts();
    let b = spec_enc_message(MessageV::Addr(items));
    let nil = Seq::<u8>::empty();
    assert(b.take(12) =~= spec_tag("addr"@));
    assert(b.skip(12) =~= spec_enc_str_list(items) + nil);
    lemma_parse_str_list(items, nil);
}

proof fn lemma_round_trip_version(v: VersionmsgV)
    requires
        wf_message(MessageV::Version(v)),
    ensures
        spec_decode(spec_enc_message(MessageV::Version(v))) == Some(MessageV::Version(v)),
{
    lemma_tag_facts();
    let b = spec_enc_message(MessageV::Version(v));
    let nil = Seq::<u8>::empty();
    assert(b.take(12) =~= spec_tag("version"@));
    let r2 = spec_enc_i32(v.version) + (spec_enc_i32(v.best_height) + nil);
    assert(b.skip(12) =~= spec_enc_str(v.addr_from) + r2);
    lemma_parse_str(v.addr_from, r2);
    lemma_parse_i32(v.version, spec_enc_i32(v.best_height) + nil);
    lemma_parse_i32(v.best_height, nil);
}

proof fn lemma_round_trip_tx(t: TxmsgV)
    requires
        wf_message(MessageV::Tx(t)),
    ensures
        spec_decode(spec_enc_message(MessageV::Tx(t))) == Some(MessageV::Tx(t)),
{
    lemma_tag_facts();
    let b = spec_enc_message(MessageV::Tx(t));
    let nil = Seq::<u8>::empty();
    assert(b.take(12) =~= spec_tag("tx"@));
    let r2 = spec_enc_tx(t.transaction) + nil;
    assert(b.skip(12) =~= spec_enc_str(t.addr_from) + r2);
    lemma_parse_str(t.addr_from, r2);
    lemma_parse_tx(t.transaction, nil);
}

proof fn lemma_round_trip_getdata(g: GetDatamsgV)
    requires
        wf_message(MessageV::GetData(g)),
    ensures
        spec_decode(spec_enc_message(MessageV::GetData(g))) == Some(MessageV::GetData(g)),
{
    lemma_tag_facts();
    let b = spec_enc_message(MessageV::GetData(g));
    let nil = Seq::<u8>::empty();
    assert(b.take(12) =~= spec_tag("getdata"@));
    let r2 = spec_enc_str(g.kind) + (spec_enc_str(g.id) + nil);
    assert(b.skip(12) =~= spec_enc_str(g.addr_from) + r2);
    lemma_parse_str(g.addr_from, r2);
    lemma_parse_str(g.kind, spec_enc_str(g.id) + nil);
    lemma_parse_str(g.id, nil);
}

proof fn lemma_round_trip_getblocks(g: GetBlocksmsgV)
    requires
        wf_message(MessageV::GetBlock(g)),
    ensures
        spec_decode(spec_enc_message(MessageV::GetBlock(g))) == Some(MessageV::GetBlock(g)),
{
    lemma_tag_facts();
    let b = spec_enc_message(MessageV::GetBlock(g));
    let nil = Seq::<u8>::empty();
    assert(b.take(12) =~= spec_tag("getblocks"@));
    assert(b.skip(12) =~= spec_enc_str(g.addr_from) + nil);
    lemma_parse_str(g.addr_from, nil);
}

#[verifier::rlimit(50)]
proof fn lemma_round_trip_inv(i: InvmsgV)
    requires
        wf_message(MessageV::Inv(i)),
    ensures
        spec_decode(spec_enc_message(MessageV::Inv(i))) == Some(MessageV::Inv(i)),
{
    lemma_tag_facts();
    let b = spec_enc_message(MessageV::Inv(i));
    let nil = Seq::<u8>::empty();
    assert(b.take(12) =~= spec_tag("inv"@));
    let r2 = spec_enc_str(i.kind) + (spec_enc_str_list(i.items) + nil);
    assert(b.skip(12) =~= spec_enc_str(i.addr_from) + r2);
    lemma_parse_str(i.addr_from, r2);
    lemma_parse_str(i.kind, spec_enc_str_list(i.items) + nil);
    lemma_parse_str_list(i.items, nil);
}

#[verifier::rlimit(50)]
proof fn lemma_round_trip_block(bl: BlockmsgV)
    requires
        wf_message(MessageV::Block(bl)),
    ensures
        spec_decode(spec_enc_message(MessageV::Block(bl))) == Some(MessageV::Block(bl)),
{
    lemma_tag_facts();
    let b = spec_enc_message(MessageV::Block(bl));
    let nil = Seq::<u8>::empty();
    assert(b.take(12) =~= spec_tag("block"@));
    let r2 = spec_enc_block(bl.block) + nil;
    assert(b.skip(12) =~= spec_enc_str(bl.addr_from) + r2);
    lemma_parse_str(bl.addr_from, r2);
    lemma_parse_block(bl.block, nil);
}

#[verifier::rlimit(50)]
proof fn lemma_round_trip_signreq(s: SignRequestMsgV)
    requires
        wf_message(MessageV::SignRequest(s)),
    ensures
        spec_decode(spec_enc_message(MessageV::SignRequest(s))) == Some(MessageV::SignRequest(s)),
{
    lemma_tag_facts();
    let b = spec_enc_message(MessageV::SignRequest(s));
    let nil = Seq::<u8>::empty();
    assert(b.take(12) =~= spec_tag("signreq"@));
    let r2 = spec_enc_str(s.address) + (spec_enc_tx(s.transaction) + nil);
    assert(b.skip(12) =~= spec_enc_str(s.addr_from) + r2);
    lemma_parse_str(s.addr_from, r2);
    lemma_parse_str(s.address, spec_enc_tx(s.transaction) + nil);
    lemma_parse_tx(s.transaction, nil);
}

#[verifier::rlimit(50)]
proof fn lemma_round_trip_signres(s: SignResponseMsgV)
    requires
        wf_message(MessageV::SignResponse(s)),
    ensures
        spec_decode(spec_enc_message(MessageV::SignResponse(s))) == Some(
            MessageV::SignResponse(s),
        ),
{
    lemma_tag_facts();
    let b = spec_enc_message(MessageV::SignResponse(s));
    let nil = Seq::<u8>::empty();
    assert(b.take(12) =~= spec_tag("signres"@));
    let r2 = spec_enc_tx(s.transaction) + (spec_enc_bool(s.success) + (spec_enc_str(
        s.error_message,
    ) + nil));
    assert(b.skip(12) =~= spec_enc_str(s.addr_from) + r2);
    lemma_parse_str(s.addr_from, r2);
    lemma_parse_tx(s.transaction, spec_enc_bool(s.success) + (spec_enc_str(s.error_message) + nil));
    lemma_parse_bool(s.success, spec_enc_str(s.error_message) + nil);
    lemma_parse_str(s.error_message, nil);
}

/// The codec round trip: decoding the encoding of any well-formed message,
/// of any of the nine kinds, yields that message again.
pub proof fn lemma_codec_round_trip(m: MessageV)
    requires
        wf_message(m),
    ensures
        spec_decode(spec_enc_message(m)) == Some(m),
{
    match m {
        MessageV::Addr(items) => lemma_round_trip_addr(items),
        MessageV::Version(v) => lemma_round_trip_version(v),
        MessageV::Tx(t) => lemma_round_trip_tx(t),
        MessageV::GetData(g) => lemma_round_trip_getdata(g),
        MessageV::GetBlock(g) => lemma_round_trip_getblocks(g),
        MessageV::Inv(i) => lemma_round_trip_inv(i),
        MessageV::Block(bl) => lemma_round_trip_block(bl),
        MessageV::SignRequest(s) => lemma_round_trip_signreq(s),
        MessageV::SignResponse(s) => lemma_round_trip_signres(s),
    }
}

/// An unrecognized 12-byte tag always fails decoding.
pub proof fn lemma_unknown_tag_fails(bytes: Seq<u8>)
    requires
        bytes.len() >= 12,
        !spec_known_tag(bytes.take(12)),
    ensures
        spec_decode(bytes) is None,
{
}

} // verus!
