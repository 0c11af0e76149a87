//! Incremental reassembly of records from a byte stream delivered in
//! arbitrary chunks.
//!
//! The reader is a state machine fed with byte chunks; it buffers bytes until
//! a full header and content are present, emits the record, and discards the
//! announced padding.  Its model is [`scan`], the greedy parse of the
//! concatenation of everything fed so far: the emitted records are exactly
//! `scan(fed).records`, so they depend on the byte stream alone and never on
//! how it was cut into chunks.

use vstd::prelude::*;
use vstd::slice::{slice_subrange, slice_to_vec};
use super::records::{Record, RecordView};

verus! {

/// Request id of the header starting at offset 0 (big-endian).
pub open spec fn hdr_request_id(b: Seq<u8>) -> u16 {
    ((b[2] as u16) << 8) | (b[3] as u16)
}

/// Content length announced by the header starting at offset 0 (big-endian).
pub open spec fn hdr_content_len(b: Seq<u8>) -> int {
    (((b[4] as u16) << 8) | (b[5] as u16)) as int
}

/// Padding length announced by the header starting at offset 0.
pub open spec fn hdr_padding_len(b: Seq<u8>) -> int {
    b[6] as int
}

/// The record whose header starts at offset 0 and whose content follows it.
pub open spec fn hdr_record(b: Seq<u8>) -> RecordView {
    RecordView {
        version: b[0],
        rec_type: b[1],
        request_id: hdr_request_id(b),
        content: b.subrange(8, 8 + hdr_content_len(b)),
    }
}

/// Result of greedily parsing a byte sequence into records.
pub ghost struct ScanState {
    /// The records whose header and content are completely present.
    pub records: Seq<RecordView>,
    /// How many leading bytes were consumed (records plus available padding).
    pub consumed: int,
    /// Padding bytes of the last record that have not arrived yet.
    pub pad_owed: int,
}

/// Greedy parse of `b`: records are taken as long as a full header and full
/// content are present; padding is discarded as far as it is present.  Bytes
/// of an incomplete header or content stay unconsumed.
pub open spec fn scan(b: Seq<u8>) -> ScanState
    decreases b.len(),
{
    if b.len() < 8 {
        ScanState { records: seq![], consumed: 0, pad_owed: 0 }
    } else {
        let cl = hdr_content_len(b);
        let pl = hdr_padding_len(b);
        if b.len() < 8 + cl {
            ScanState { records: seq![], consumed: 0, pad_owed: 0 }
        } else if 8 + cl + pl > b.len() {
            ScanState {
                records: seq![hdr_record(b)],
                consumed: b.len() as int,
                pad_owed: 8 + cl + pl - b.len(),
            }
        } else {
            let rest = scan(b.subrange(8 + cl + pl, b.len() as int));
            ScanState {
                records: seq![hdr_record(b)] + rest.records,
                consumed: 8 + cl + pl + rest.consumed,
                pad_owed: rest.pad_owed,
            }
        }
    }
}

/// The parser never consumes more bytes than are present, and padding debt
/// arises only once the whole sequence is consumed.
pub proof fn lemma_scan_bounds(b: Seq<u8>)
    ensures
        0 <= scan(b).consumed <= b.len(),
        scan(b).pad_owed >= 0,
        scan(b).pad_owed > 0 ==> scan(b).consumed == b.len(),
    decreases b.len(),
{
    if b.len() < 8 {
    } else {
        let cl = hdr_content_len(b);
        let pl = hdr_padding_len(b);
        if b.len() < 8 + cl {
        } else if 8 + cl + pl > b.len() {
        } else {
            lemma_scan_bounds(b.subrange(8 + cl + pl, b.len() as int));
        }
    }
}

/// Extending the stream continues the parse exactly where it stopped: the
/// records of `fed + c` are those of `fed` followed by those of the stalled
/// suffix (after paying owed padding out of `c`) continued with `c`.
pub proof fn lemma_scan_extend(fed: Seq<u8>, c: Seq<u8>)
    ensures
        ({
            let s = scan(fed);
            let buf = fed.skip(s.consumed);
            let k: int = if s.pad_owed <= c.len() {
                s.pad_owed
            } else {
                c.len() as int
            };
            let s2 = scan(buf + c.skip(k));
            &&& scan(fed + c).records == s.records + s2.records
            &&& scan(fed + c).consumed == s.consumed + k + s2.consumed
            &&& scan(fed + c).pad_owed == if s.pad_owed > c.len() {
                s.pad_owed - c.len()
            } else {
                s2.pad_owed
            }
        }),
    decreases fed.len(),
{
    let s = scan(fed);
    let buf = fed.skip(s.consumed);
    let k: int = if s.pad_owed <= c.len() {
        s.pad_owed
    } else {
        c.len() as int
    };
    let whole = fed + c;
    if fed.len() < 8 || fed.len() < 8 + hdr_content_len(fed) {
        assert(buf =~= fed);
        assert(c.skip(0) =~= c);
        assert(buf + c.skip(k) =~= whole);
    } else {
        let cl = hdr_content_len(fed);
        let pl = hdr_padding_len(fed);
        assert(hdr_content_len(whole) == cl && hdr_padding_len(whole) == pl);
        assert(whole.subrange(8, 8 + cl) =~= fed.subrange(8, 8 + cl));
        assert(hdr_record(whole) == hdr_record(fed));
        if 8 + cl + pl > fed.len() {
            let po = 8 + cl + pl - fed.len();
            assert(buf =~= Seq::<u8>::empty());
            if c.len() < po {
                assert(8 + cl + pl > whole.len());
                assert(c.skip(k) =~= Seq::<u8>::empty());
                assert(buf + c.skip(k) =~= Seq::<u8>::empty());
            } else {
                assert(8 + cl + pl <= whole.len());
                assert(whole.subrange(8 + cl + pl, whole.len() as int) =~= c.skip(po));
                assert(buf + c.skip(k) =~= c.skip(po));
                assert(scan(whole).records =~= s.records + scan(c.skip(po)).records);
            }
        } else {
            let step = 8 + cl + pl;
            let fed2 = fed.subrange(step, fed.len() as int);
            let srest = scan(fed2);
            lemma_scan_extend(fed2, c);
            assert(whole.subrange(step, whole.len() as int) =~= fed2 + c);
            assert(buf =~= fed2.skip(srest.consumed)) by {
                lemma_scan_bounds(fed2);
                assert(s.consumed == step + srest.consumed);
                assert(fed.skip(step + srest.consumed) =~= fed2.skip(srest.consumed));
            }
            let s2 = scan(buf + c.skip(k));
            assert(scan(whole).records =~= s.records + s2.records);
        }
    }
}

/// Incremental record reader over a chunked byte stream.
pub struct RecordInputStream {
    /// Bytes received but not yet consumed by a complete record.
    pub buffer: Vec<u8>,
    /// Padding bytes of the last emitted record still to be discarded.
    pub padding_left: usize,
    /// Every byte ever fed to this reader, in order.
    pub fed: Ghost<Seq<u8>>,
    /// Every record ever emitted by this reader, in order.
    pub emitted: Ghost<Seq<RecordView>>,
}

impl RecordInputStream {
    /// The reader's state agrees with the greedy parse of all bytes fed.
    pub open spec fn wf(self) -> bool {
        let s = scan(self.fed@);
        &&& self.emitted@ == s.records
        &&& self.buffer@ == self.fed@.skip(s.consumed)
        &&& self.padding_left == s.pad_owed
    }

    /// A fresh reader with nothing fed.
    pub fn new() -> (r: RecordInputStream)
        ensures
            r.wf(),
            r.fed@ == Seq::<u8>::empty(),
            r.emitted@ == Seq::<RecordView>::empty(),
    {
        let r = RecordInputStream {
            buffer: Vec::new(),
            padding_left: 0,
            fed: Ghost(Seq::empty()),
            emitted: Ghost(Seq::empty()),
        };
        proof {
            assert(r.fed@.skip(0) =~= Seq::<u8>::empty());
        }
        r
    }

    /// Feeds one chunk of the stream and returns the records completed by it,
    /// in stream order.
    pub fn push_bytes(&mut self, chunk: &[u8]) -> (recs: Vec<Record>)
        requires
            old(self).wf(),
        ensures
            final(self).wf(),
            final(self).fed@ == old(self).fed@ + chunk@,
            final(self).emitted@ == old(self).emitted@ + recs@.map_values(|r: Record| r@),
    {
        let ghost old_fed = self.fed@;
        let ghost s_old = scan(old_fed);
        proof {
            lemma_scan_extend(old_fed, chunk@);
            lemma_scan_bounds(old_fed);
        }
        self.fed = Ghost(self.fed@ + chunk@);
        let ghost new_fed = self.fed@;
        // Pay owed padding out of the front of the chunk.
        let k: usize = if self.padding_left <= chunk.len() {
            self.padding_left
        } else {
            chunk.len()
        };
        self.padding_left = self.padding_left - k;
        let mut out: Vec<Record> = Vec::new();
        proof {
            assert(out@.map_values(|r: Record| r@) =~= Seq::<RecordView>::empty());
        }
        if self.padding_left > 0 {
            // The whole chunk was padding; nothing else can have completed.
            proof {
                // pad_owed > 0, so the old buffer was empty.
                assert(self.buffer@ =~= Seq::<u8>::empty());
                assert(chunk@.skip(k as int) =~= Seq::<u8>::empty());
                assert(self.buffer@ + chunk@.skip(k as int) =~= Seq::<u8>::empty());
                let s2 = scan(self.buffer@ + chunk@.skip(k as int));
                assert(s2.records =~= Seq::<RecordView>::empty());
                assert(scan(new_fed).records =~= s_old.records);
                assert(self.emitted@ + out@.map_values(|r: Record| r@) =~= self.emitted@);
                assert(scan(new_fed).consumed == new_fed.len());
                assert(new_fed.skip(scan(new_fed).consumed) =~= Seq::<u8>::empty());
            }
            return out;
        }
        let mut tail = slice_to_vec(slice_subrange(chunk, k, chunk.len()));
        self.buffer.append(&mut tail);
        let ghost b0 = self.buffer@;
        let ghost s_goal = scan(b0);
        proof {
            assert(b0 =~= old_fed.skip(s_old.consumed) + chunk@.skip(k as int));
        }
        let ghost mut d: int = 0;
        loop
            invariant_except_break
                self.fed@ == new_fed,
                self.emitted@ == s_old.records,
                self.buffer@ == b0.skip(d),
                0 <= d <= b0.len(),
                self.padding_left > 0 ==> self.buffer@.len() == 0,
                s_goal.records == out@.map_values(|r: Record| r@) + scan(self.buffer@).records,
                s_goal.consumed == d + scan(self.buffer@).consumed,
                s_goal.pad_owed == if self.padding_left > 0 {
                    self.padding_left as int
                } else {
                    scan(self.buffer@).pad_owed
                },
            ensures
                self.fed@ == new_fed,
                self.emitted@ == s_old.records,
                self.buffer@ == b0.skip(d),
                0 <= d <= b0.len(),
                s_goal.records == out@.map_values(|r: Record| r@),
                s_goal.consumed == d,
                s_goal.pad_owed == self.padding_left as int,
                scan(self.buffer@).records == Seq::<RecordView>::empty(),
                scan(self.buffer@).consumed == 0,
                scan(self.buffer@).pad_owed == 0,
            decreases b0.len() - d,
        {
            let blen = self.buffer.len();
            if blen < 8 {
                break;
            }
            let cl = ((((self.buffer[4] as u16) << 8) | (self.buffer[5] as u16))) as usize;
            if blen < 8 + cl {
                break;
            }
            let pl = self.buffer[6] as usize;
            let request_id = ((self.buffer[2] as u16) << 8) | (self.buffer[3] as u16);
            let content = slice_to_vec(slice_subrange(self.buffer.as_slice(), 8, 8 + cl));
            let rec = Record {
                version: self.buffer[0],
                rec_type: self.buffer[1],
                request_id,
                content_data: content,
            };
            let ghost bprev = self.buffer@;
            let ghost out_views = out@.map_values(|r: Record| r@);
            proof {
                assert(rec@ == hdr_record(bprev));
            }
            if 8 + cl + pl > blen {
                self.padding_left = (8 + cl + pl) - blen;
                let empty: Vec<u8> = Vec::new();
                self.buffer = empty;
                out.push(rec);
                proof {
                    d = d + bprev.len();
                    assert(self.buffer@ =~= b0.skip(d));
                    assert(scan(bprev).records == seq![rec@]);
                    assert(out@.map_values(|r: Record| r@) =~= out_views + seq![rec@]);
                    assert(s_goal.records =~= out@.map_values(|r: Record| r@) + scan(
                        self.buffer@,
                    ).records);
                }
                break;
            } else {
                let step = 8 + cl + pl;
                let new_buf = slice_to_vec(slice_subrange(self.buffer.as_slice(), step, blen));
                self.buffer = new_buf;
                out.push(rec);
                proof {
                    assert(self.buffer@ =~= bprev.subrange(step as int, bprev.len() as int));
                    assert(scan(bprev).records == seq![rec@] + scan(self.buffer@).records);
                    d = d + step;
                    assert(self.buffer@ =~= b0.skip(d));
                    assert(out@.map_values(|r: Record| r@) =~= out_views + seq![rec@]);
                    assert(s_goal.records =~= out@.map_values(|r: Record| r@) + scan(
                        self.buffer@,
                    ).records);
                }
            }
        }
        self.emitted = Ghost(self.emitted@ + out@.map_values(|r: Record| r@));
        proof {
            // Stitch the machine state to the scan of the whole stream.
            let k_spec: int = if s_old.pad_owed <= chunk@.len() {
                s_old.pad_owed
            } else {
                chunk@.len() as int
            };
            assert(k as int == k_spec);
            let s2 = scan(old_fed.skip(s_old.consumed) + chunk@.skip(k_spec));
            assert(scan(new_fed).records == s_old.records + s2.records);
            assert(s2 == s_goal);
            assert(self.emitted@ =~= scan(new_fed).records);
            assert(scan(new_fed).consumed == s_old.consumed + k + s_goal.consumed);
            if k > 0 {
                assert(old_fed.skip(s_old.consumed) =~= Seq::<u8>::empty());
                assert(b0 =~= chunk@.skip(k as int));
                assert(new_fed.skip(scan(new_fed).consumed) =~= b0.skip(d));
            } else {
                assert(chunk@.skip(0) =~= chunk@);
                assert(new_fed.skip(s_old.consumed) =~= old_fed.skip(s_old.consumed) + chunk@);
                assert(new_fed.skip(scan(new_fed).consumed) =~= b0.skip(d));
            }
            assert(self.buffer@ =~= new_fed.skip(scan(new_fed).consumed));
        }
        out
    }
}

/// Chunk boundaries are irrelevant: two readers fed the same bytes, however
/// split, have emitted the same records.
pub proof fn lemma_chunking_irrelevant(r1: RecordInputStream, r2: RecordInputStream)
    requires
        r1.wf(),
        r2.wf(),
        r1.fed@ == r2.fed@,
    ensures
        r1.emitted@ == r2.emitted@,
{
}

} // verus!
