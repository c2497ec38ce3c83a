//! Packed training samples and their exact byte codec. One record is 38
//! bytes: four 64-bit packed bitboard words, the side-to-move flag, the
//! fixed-point search score and the game-result byte, all little-endian.
//! Encoding and decoding invert each other exactly.

use vstd::prelude::*;
use crate::score::{Score, SCORE_UNIT};

verus! {

/// Result labels: loss, draw, win for the recorded side to move.
pub const RESULT_LOSS: u8 = 0;

pub const RESULT_DRAW: u8 = 1;

pub const RESULT_WIN: u8 = 2;

/// Bytes of one encoded record.
pub const RECORD_BYTES: usize = 38;

/// One training sample: a packed position, whose side was to move, the
/// search score from that side's perspective, and the final game result.
#[derive(Clone, Copy, PartialEq, Eq, Structural, Debug)]
pub struct SampleRecord {
    pub bb0: u64,
    pub bb1: u64,
    pub bb2: u64,
    pub bb3: u64,
    pub stm_white: bool,
    pub score: Score,
    pub result: u8,
}

impl SampleRecord {
    pub open spec fn wf(self) -> bool {
        &&& self.score.wf()
        &&& self.result <= RESULT_WIN
    }
}

/// The eight little-endian bytes of a 64-bit word.
pub open spec fn spec_u64_le(x: u64) -> Seq<u8> {
    seq![
        (x & 0xFF) as u8,
        ((x >> 8) & 0xFF) as u8,
        ((x >> 16) & 0xFF) as u8,
        ((x >> 24) & 0xFF) as u8,
        ((x >> 32) & 0xFF) as u8,
        ((x >> 40) & 0xFF) as u8,
        ((x >> 48) & 0xFF) as u8,
        ((x >> 56) & 0xFF) as u8,
    ]
}

/// The 64-bit word eight little-endian bytes carry.
pub open spec fn spec_u64_from(b: Seq<u8>) -> u64 {
    (b[0] as u64) | ((b[1] as u64) << 8) | ((b[2] as u64) << 16) | ((b[3] as u64) << 24) | (
    (b[4] as u64) << 32) | ((b[5] as u64) << 40) | ((b[6] as u64) << 48) | ((b[7] as u64) << 56)
}

/// Reading back the bytes of `x` gives `x`.
pub proof fn lemma_u64_le_from(x: u64)
    ensures
        spec_u64_from(spec_u64_le(x)) == x,
{
    assert((((x & 0xFF) as u8) as u64) | ((((x >> 8) & 0xFF) as u8) as u64) << 8 | ((((x >> 16)
        & 0xFF) as u8) as u64) << 16 | ((((x >> 24) & 0xFF) as u8) as u64) << 24 | ((((x >> 32)
        & 0xFF) as u8) as u64) << 32 | ((((x >> 40) & 0xFF) as u8) as u64) << 40 | ((((x >> 48)
        & 0xFF) as u8) as u64) << 48 | ((((x >> 56) & 0xFF) as u8) as u64) << 56 == x)
        by (bit_vector);
}

/// Re-encoding the word eight bytes carry gives back those bytes.
pub proof fn lemma_u64_from_le(b0: u8, b1: u8, b2: u8, b3: u8, b4: u8, b5: u8, b6: u8, b7: u8)
    ensures
        spec_u64_le(
            (b0 as u64) | ((b1 as u64) << 8) | ((b2 as u64) << 16) | ((b3 as u64) << 24) | (
            (b4 as u64) << 32) | ((b5 as u64) << 40) | ((b6 as u64) << 48) | ((b7 as u64) << 56),
        ) == seq![b0, b1, b2, b3, b4, b5, b6, b7],
{
    let x = (b0 as u64) | ((b1 as u64) << 8) | ((b2 as u64) << 16) | ((b3 as u64) << 24) | (
    (b4 as u64) << 32) | ((b5 as u64) << 40) | ((b6 as u64) << 48) | ((b7 as u64) << 56);
    assert(((x & 0xFF) as u8) == b0 && (((x >> 8) & 0xFF) as u8) == b1 && (((x >> 16)
        & 0xFF) as u8) == b2 && (((x >> 24) & 0xFF) as u8) == b3 && (((x >> 32) & 0xFF) as u8)
        == b4 && (((x >> 40) & 0xFF) as u8) == b5 && (((x >> 48) & 0xFF) as u8) == b6 && (((x >> 56)
        & 0xFF) as u8) == b7) by (bit_vector)
        requires
            x == (b0 as u64) | ((b1 as u64) << 8) | ((b2 as u64) << 16) | ((b3 as u64) << 24) | (
            (b4 as u64) << 32) | ((b5 as u64) << 40) | ((b6 as u64) << 48) | ((b7 as u64) << 56),
    ;
    assert(spec_u64_le(x) =~= seq![b0, b1, b2, b3, b4, b5, b6, b7]);
}

/// The 38 bytes of one record.
pub open spec fn spec_encode_rec(r: SampleRecord) -> Seq<u8> {
    spec_u64_le(r.bb0) + spec_u64_le(r.bb1) + spec_u64_le(r.bb2) + spec_u64_le(r.bb3) + seq![
        (if r.stm_white {
            1u8
        } else {
            0u8
        }),
        (r.score.win & 0xFF) as u8,
        ((r.score.win >> 8) & 0xFF) as u8,
        (r.score.draw & 0xFF) as u8,
        ((r.score.draw >> 8) & 0xFF) as u8,
        r.result,
    ]
}

/// Parse 38 bytes; `None` when the flag, score or result is out of range.
pub open spec fn spec_decode_rec(b: Seq<u8>) -> Option<SampleRecord> {
    let win = (b[33] as u16) | ((b[34] as u16) << 8);
    let draw = (b[35] as u16) | ((b[36] as u16) << 8);
    let r = SampleRecord {
        bb0: spec_u64_from(b.subrange(0, 8)),
        bb1: spec_u64_from(b.subrange(8, 16)),
        bb2: spec_u64_from(b.subrange(16, 24)),
        bb3: spec_u64_from(b.subrange(24, 32)),
        stm_white: b[32] == 1,
        score: Score { win, draw },
        result: b[37],
    };
    if b[32] <= 1 && win + draw <= SCORE_UNIT && b[37] <= RESULT_WIN {
        Some(r)
    } else {
        None
    }
}

/// Law (one record): parsing bytes and re-encoding the record gives the
/// identical bytes.
pub proof fn lemma_rec_encode_decode(b: Seq<u8>, r: SampleRecord)
    requires
        b.len() == RECORD_BYTES,
        spec_decode_rec(b) == Some(r),
    ensures
        spec_encode_rec(r) == b,
{
    lemma_u64_from_le(b[0], b[1], b[2], b[3], b[4], b[5], b[6], b[7]);
    lemma_u64_from_le(b[8], b[9], b[10], b[11], b[12], b[13], b[14], b[15]);
    lemma_u64_from_le(b[16], b[17], b[18], b[19], b[20], b[21], b[22], b[23]);
    lemma_u64_from_le(b[24], b[25], b[26], b[27], b[28], b[29], b[30], b[31]);
    assert(b.subrange(0, 8) =~= seq![b[0], b[1], b[2], b[3], b[4], b[5], b[6], b[7]]);
    assert(b.subrange(8, 16) =~= seq![b[8], b[9], b[10], b[11], b[12], b[13], b[14], b[15]]);
    assert(b.subrange(16, 24) =~= seq![b[16], b[17], b[18], b[19], b[20], b[21], b[22], b[23]]);
    assert(b.subrange(24, 32) =~= seq![b[24], b[25], b[26], b[27], b[28], b[29], b[30], b[31]]);
    let w0 = b[33];
    let w1 = b[34];
    let d0 = b[35];
    let d1 = b[36];
    let win = (w0 as u16) | ((w1 as u16) << 8);
    let draw = (d0 as u16) | ((d1 as u16) << 8);
    assert(((win & 0xFF) as u8) == w0 && (((win >> 8) & 0xFF) as u8) == w1) by (bit_vector)
        requires
            win == (w0 as u16) | ((w1 as u16) << 8),
    ;
    assert(((draw & 0xFF) as u8) == d0 && (((draw >> 8) & 0xFF) as u8) == d1) by (bit_vector)
        requires
            draw == (d0 as u16) | ((d1 as u16) << 8),
    ;
    assert(b[32] == 1 || b[32] == 0);
    assert(spec_encode_rec(r) =~= b);
}

/// Law (one record): a well-formed record survives an encode-decode round
/// trip unchanged.
pub proof fn lemma_rec_decode_encode(r: SampleRecord)
    requires
        r.wf(),
    ensures
        spec_decode_rec(spec_encode_rec(r)) == Some(r),
{
    let b = spec_encode_rec(r);
    lemma_u64_le_from(r.bb0);
    lemma_u64_le_from(r.bb1);
    lemma_u64_le_from(r.bb2);
    lemma_u64_le_from(r.bb3);
    assert(b.subrange(0, 8) =~= spec_u64_le(r.bb0));
    assert(b.subrange(8, 16) =~= spec_u64_le(r.bb1));
    assert(b.subrange(16, 24) =~= spec_u64_le(r.bb2));
    assert(b.subrange(24, 32) =~= spec_u64_le(r.bb3));
    let win = r.score.win;
    let draw = r.score.draw;
    assert((((win & 0xFF) as u8) as u16) | ((((win >> 8) & 0xFF) as u8) as u16) << 8 == win)
        by (bit_vector);
    assert((((draw & 0xFF) as u8) as u16) | ((((draw >> 8) & 0xFF) as u8) as u16) << 8 == draw)
        by (bit_vector);
}

/// A whole blob: the records' encodings, concatenated.
pub open spec fn spec_encode_blob(rs: Seq<SampleRecord>) -> Seq<u8>
    decreases rs.len(),
{
    if rs.len() == 0 {
        Seq::empty()
    } else {
        spec_encode_rec(rs[0]) + spec_encode_blob(rs.drop_first())
    }
}

/// Parse a blob of whole records; `None` on a ragged length or any
/// malformed record.
pub open spec fn spec_decode_blob(b: Seq<u8>) -> Option<Seq<SampleRecord>>
    decreases b.len(),
{
    if b.len() == 0 {
        Some(Seq::empty())
    } else if b.len() < RECORD_BYTES {
        None
    } else {
        match spec_decode_rec(b.take(RECORD_BYTES as int)) {
            None => None,
            Some(r) => match spec_decode_blob(b.skip(RECORD_BYTES as int)) {
                None => None,
                Some(rest) => Some(seq![r] + rest),
            },
        }
    }
}

/// Law: the packed-sample codec is exact. Re-encoding whatever a
/// well-formed blob decodes to reproduces the blob byte for byte.
pub proof fn lemma_blob_encode_decode(b: Seq<u8>, rs: Seq<SampleRecord>)
    requires
        spec_decode_blob(b) == Some(rs),
    ensures
        spec_encode_blob(rs) == b,
    decreases b.len(),
{
    if b.len() == 0 {
        assert(rs =~= Seq::<SampleRecord>::empty());
        assert(spec_encode_blob(rs) =~= b);
    } else {
        let head = spec_decode_rec(b.take(RECORD_BYTES as int)).unwrap();
        let rest = spec_decode_blob(b.skip(RECORD_BYTES as int)).unwrap();
        lemma_blob_encode_decode(b.skip(RECORD_BYTES as int), rest);
        lemma_rec_encode_decode(b.take(RECORD_BYTES as int), head);
        assert(rs == seq![head] + rest);
        assert(rs[0] == head);
        assert(rs.drop_first() =~= rest);
        assert(b.take(RECORD_BYTES as int) + b.skip(RECORD_BYTES as int) =~= b);
    }
}

/// Law: a batch of well-formed records survives an encode-decode round trip
/// unchanged.
pub proof fn lemma_blob_decode_encode(rs: Seq<SampleRecord>)
    requires
        forall|i: int| 0 <= i < rs.len() ==> (#[trigger] rs[i]).wf(),
    ensures
        spec_decode_blob(spec_encode_blob(rs)) == Some(rs),
    decreases rs.len(),
{
    if rs.len() == 0 {
        assert(spec_encode_blob(rs) =~= Seq::<u8>::empty());
        assert(rs =~= Seq::<SampleRecord>::empty());
    } else {
        let b = spec_encode_blob(rs);
        lemma_rec_decode_encode(rs[0]);
        assert forall|i: int| 0 <= i < rs.drop_first().len() implies (#[trigger] rs.drop_first()[i]).wf() by {
            assert(rs.drop_first()[i] == rs[i + 1]);
        }
        lemma_blob_decode_encode(rs.drop_first());
        assert(spec_encode_rec(rs[0]).len() == RECORD_BYTES);
        assert(b.take(RECORD_BYTES as int) =~= spec_encode_rec(rs[0]));
        assert(b.skip(RECORD_BYTES as int) =~= spec_encode_blob(rs.drop_first()));
        assert(seq![rs[0]] + rs.drop_first() =~= rs);
    }
}

/// Appending one record to a batch appends its encoding to the blob.
pub proof fn lemma_encode_blob_push(rs: Seq<SampleRecord>, r: SampleRecord)
    ensures
        spec_encode_blob(rs.push(r)) == spec_encode_blob(rs) + spec_encode_rec(r),
    decreases rs.len(),
{
    if rs.len() == 0 {
        assert(rs.push(r).drop_first() =~= Seq::<SampleRecord>::empty());
        assert(rs.push(r)[0] == r);
        assert(spec_encode_blob(rs.push(r)) == spec_encode_rec(r) + spec_encode_blob(
            rs.push(r).drop_first(),
        ));
        assert(spec_encode_rec(r) + Seq::<u8>::empty() =~= spec_encode_rec(r));
        assert(Seq::<u8>::empty() + spec_encode_rec(r) =~= spec_encode_rec(r));
    } else {
        lemma_encode_blob_push(rs.drop_first(), r);
        assert(rs.push(r).drop_first() =~= rs.drop_first().push(r));
        assert(rs.push(r)[0] == rs[0]);
        assert(spec_encode_blob(rs.push(r)) == spec_encode_rec(rs[0]) + spec_encode_blob(
            rs.drop_first().push(r),
        ));
        assert(spec_encode_blob(rs.drop_first().push(r)) == spec_encode_blob(rs.drop_first())
            + spec_encode_rec(r));
        assert(spec_encode_blob(rs) == spec_encode_rec(rs[0]) + spec_encode_blob(rs.drop_first()));
        assert(spec_encode_rec(rs[0]) + (spec_encode_blob(rs.drop_first()) + spec_encode_rec(r))
            =~= (spec_encode_rec(rs[0]) + spec_encode_blob(rs.drop_first())) + spec_encode_rec(r));
    }
}

fn push_u64_le(out: &mut Vec<u8>, x: u64)
    ensures
        final(out)@ == old(out)@ + spec_u64_le(x),
{
    proof {
        assert((x & 0xFF) < 256 && ((x >> 8) & 0xFF) < 256 && ((x >> 16) & 0xFF) < 256 && ((x >> 24)
            & 0xFF) < 256 && ((x >> 32) & 0xFF) < 256 && ((x >> 40) & 0xFF) < 256 && ((x >> 48)
            & 0xFF) < 256 && ((x >> 56) & 0xFF) < 256) by (bit_vector);
    }
    out.push((x & 0xFF) as u8);
    out.push(((x >> 8) & 0xFF) as u8);
    out.push(((x >> 16) & 0xFF) as u8);
    out.push(((x >> 24) & 0xFF) as u8);
    out.push(((x >> 32) & 0xFF) as u8);
    out.push(((x >> 40) & 0xFF) as u8);
    out.push(((x >> 48) & 0xFF) as u8);
    out.push(((x >> 56) & 0xFF) as u8);
    proof {
        assert(out@ =~= old(out)@ + spec_u64_le(x));
    }
}

/// Append the 38-byte encoding of `r`.
pub fn encode_record_into(r: &SampleRecord, out: &mut Vec<u8>)
    ensures
        final(out)@ == old(out)@ + spec_encode_rec(*r),
{
    push_u64_le(out, r.bb0);
    push_u64_le(out, r.bb1);
    push_u64_le(out, r.bb2);
    push_u64_le(out, r.bb3);
    out.push(
        if r.stm_white {
            1
        } else {
            0
        },
    );
    let win = r.score.win;
    let draw = r.score.draw;
    proof {
        assert((win & 0xFF) < 256 && ((win >> 8) & 0xFF) < 256) by (bit_vector);
        assert((draw & 0xFF) < 256 && ((draw >> 8) & 0xFF) < 256) by (bit_vector);
    }
    out.push((win & 0xFF) as u8);
    out.push(((win >> 8) & 0xFF) as u8);
    out.push((draw & 0xFF) as u8);
    out.push(((draw >> 8) & 0xFF) as u8);
    out.push(r.result);
    proof {
        assert(out@ =~= old(out)@ + spec_encode_rec(*r));
    }
}

/// Encode a batch of samples as one blob.
pub fn encode_samples(records: &Vec<SampleRecord>) -> (out: Vec<u8>)
    ensures
        out@ == spec_encode_blob(records@),
{
    let mut out: Vec<u8> = Vec::new();
    let mut i: usize = 0;
    while i < records.len()
        invariant
            i <= records.len(),
            out@ == spec_encode_blob(records@.take(i as int)),
        decreases records.len() - i,
    {
        encode_record_into(&records[i], &mut out);
        proof {
            lemma_encode_blob_push(records@.take(i as int), records@[i as int]);
            assert(records@.take(i as int).push(records@[i as int]) =~= records@.take(i + 1));
        }
        i = i + 1;
    }
    proof {
        assert(records@.take(records@.len() as int) =~= records@);
    }
    out
}

fn read_u64_le(bytes: &Vec<u8>, off: usize) -> (x: u64)
    requires
        off + 8 <= bytes@.len(),
    ensures
        x == spec_u64_from(bytes@.subrange(off as int, off as int + 8)),
{
    let n = bytes.len();
    let x = (bytes[off] as u64) | ((bytes[off + 1] as u64) << 8u64) | ((bytes[off + 2] as u64)
        << 16u64) | ((bytes[off + 3] as u64) << 24u64) | ((bytes[off + 4] as u64) << 32u64) | ((
    bytes[off + 5] as u64) << 40u64) | ((bytes[off + 6] as u64) << 48u64) | ((bytes[off
        + 7] as u64) << 56u64);
    proof {
        assert(bytes@.subrange(off as int, off as int + 8) =~= seq![
            bytes@[off as int],
            bytes@[off as int + 1],
            bytes@[off as int + 2],
            bytes@[off as int + 3],
            bytes@[off as int + 4],
            bytes@[off as int + 5],
            bytes@[off as int + 6],
            bytes@[off as int + 7],
        ]);
    }
    x
}

/// Parse the record at byte offset `off`.
pub fn decode_record_at(bytes: &Vec<u8>, off: usize) -> (r: Option<SampleRecord>)
    requires
        off + RECORD_BYTES <= bytes@.len(),
    ensures
        r == spec_decode_rec(bytes@.subrange(off as int, off as int + RECORD_BYTES as int)),
{
    let ghost chunk = bytes@.subrange(off as int, off as int + RECORD_BYTES as int);
    let n = bytes.len();
    let bb0 = read_u64_le(bytes, off);
    let bb1 = read_u64_le(bytes, off + 8);
    let bb2 = read_u64_le(bytes, off + 16);
    let bb3 = read_u64_le(bytes, off + 24);
    let stm = bytes[off + 32];
    let win: u16 = (bytes[off + 33] as u16) | ((bytes[off + 34] as u16) << 8u16);
    let draw: u16 = (bytes[off + 35] as u16) | ((bytes[off + 36] as u16) << 8u16);
    let result = bytes[off + 37];
    proof {
        assert(chunk.subrange(0, 8) =~= bytes@.subrange(off as int, off as int + 8));
        assert(chunk.subrange(8, 16) =~= bytes@.subrange(off as int + 8, off as int + 16));
        assert(chunk.subrange(16, 24) =~= bytes@.subrange(off as int + 16, off as int + 24));
        assert(chunk.subrange(24, 32) =~= bytes@.subrange(off as int + 24, off as int + 32));
    }
    if stm <= 1 && win as u32 + draw as u32 <= SCORE_UNIT as u32 && result <= RESULT_WIN {
        Some(
            SampleRecord {
                bb0,
                bb1,
                bb2,
                bb3,
                stm_white: stm == 1,
                score: Score { win, draw },
                result,
            },
        )
    } else {
        None
    }
}

/// Parse a whole blob back into samples; `None` on a ragged length or any
/// malformed record.
pub fn decode_samples(bytes: &Vec<u8>) -> (r: Option<Vec<SampleRecord>>)
    ensures
        match r {
            Some(rs) => spec_decode_blob(bytes@) == Some(rs@),
            None => spec_decode_blob(bytes@) is None,
        },
{
    let n = bytes.len();
    let mut acc: Vec<SampleRecord> = Vec::new();
    let mut off: usize = 0;
    proof {
        assert(bytes@.skip(0) =~= bytes@);
        if spec_decode_blob(bytes@) is Some {
            let rest = spec_decode_blob(bytes@).unwrap();
            assert(acc@ + rest =~= rest);
        }
    }
    while off < n
        invariant
            off <= n,
            n == bytes@.len(),
            off % RECORD_BYTES == 0,
            spec_decode_blob(bytes@) == (match spec_decode_blob(bytes@.skip(off as int)) {
                Some(rest) => Some(acc@ + rest),
                None => None::<Seq<SampleRecord>>,
            }),
        decreases n - off,
    {
        if n - off < RECORD_BYTES {
            proof {
                assert(bytes@.skip(off as int).len() == n - off);
            }
            return None;
        }
        let rec = decode_record_at(bytes, off);
        proof {
            assert(bytes@.skip(off as int).take(RECORD_BYTES as int) =~= bytes@.subrange(
                off as int,
                off as int + RECORD_BYTES as int,
            ));
            assert(bytes@.skip(off as int).skip(RECORD_BYTES as int) =~= bytes@.skip(
                off as int + RECORD_BYTES as int,
            ));
        }
        match rec {
            None => {
                return None;
            },
            Some(rr) => {
                let ghost prev = acc@;
                acc.push(rr);
                proof {
                    if spec_decode_blob(bytes@.skip(off as int + RECORD_BYTES as int)) is Some {
                        let rest = spec_decode_blob(
                            bytes@.skip(off as int + RECORD_BYTES as int),
                        ).unwrap();
                        assert(prev + (seq![rr] + rest) =~= acc@ + rest);
                    }
                }
            },
        }
        off = off + RECORD_BYTES;
    }
    proof {
        assert(bytes@.skip(off as int) =~= Seq::<u8>::empty());
        assert(acc@ + Seq::<SampleRecord>::empty() =~= acc@);
    }
    Some(acc)
}

} // verus!
