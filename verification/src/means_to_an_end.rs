//! The binary range-aggregation protocol: fixed 9-byte frames, one tag byte
//! and two big-endian 4-byte signed integers. An insert frame stores a
//! (key, value) pair, overwriting any prior value for that key; a query frame
//! answers the truncated integer mean of the values whose key lies in the
//! inclusive range, `0` if the range matches nothing or is inverted. Any
//! other tag terminates the connection. The connection's socket loop reads
//! whole frames and writes replies; everything it decides is here.

use vstd::arithmetic::div_mod::{lemma_div_is_ordered, lemma_div_multiples_vanish};
use vstd::prelude::*;

verus! {

/// The insert tag byte `I`.
pub const TAG_INSERT: u8 = 73;

/// The query tag byte `Q`.
pub const TAG_QUERY: u8 = 81;

/// The unsigned value of four big-endian bytes.
pub open spec fn spec_be_u32(b0: u8, b1: u8, b2: u8, b3: u8) -> int {
    b0 * 0x100_0000 + b1 * 0x1_0000 + b2 * 0x100 + b3
}

/// The two's-complement signed value of four big-endian bytes.
pub open spec fn spec_be_i32(b0: u8, b1: u8, b2: u8, b3: u8) -> int {
    let u = spec_be_u32(b0, b1, b2, b3);
    if u < 0x8000_0000 {
        u
    } else {
        u - 0x1_0000_0000
    }
}

/// The four big-endian bytes of a signed 32-bit value.
pub open spec fn spec_i32_be(v: int) -> Seq<u8> {
    let u = if v >= 0 {
        v
    } else {
        v + 0x1_0000_0000
    };
    seq![
        ((u / 0x100_0000) % 0x100) as u8,
        ((u / 0x1_0000) % 0x100) as u8,
        ((u / 0x100) % 0x100) as u8,
        (u % 0x100) as u8,
    ]
}

/// Reads a signed 32-bit integer from four big-endian bytes.
pub fn decode_be_i32(b0: u8, b1: u8, b2: u8, b3: u8) -> (r: i32)
    ensures
        r as int == spec_be_i32(b0, b1, b2, b3),
{
    let u: u32 = (b0 as u32) * 0x100_0000 + (b1 as u32) * 0x1_0000 + (b2 as u32) * 0x100 + (
    b3 as u32);
    if u < 0x8000_0000 {
        u as i32
    } else {
        ((u as i64) - 0x1_0000_0000i64) as i32
    }
}

/// Writes a signed 32-bit integer as four big-endian bytes.
pub fn encode_be_i32(v: i32) -> (r: Vec<u8>)
    ensures
        r@ == spec_i32_be(v as int),
        r@.len() == 4,
{
    let u: u32 = if v >= 0 {
        v as u32
    } else {
        ((v as i64) + 0x1_0000_0000i64) as u32
    };
    let mut out: Vec<u8> = Vec::new();
    out.push(((u / 0x100_0000) % 0x100) as u8);
    out.push(((u / 0x1_0000) % 0x100) as u8);
    out.push(((u / 0x100) % 0x100) as u8);
    out.push((u % 0x100) as u8);
    proof {
        assert(out@ =~= spec_i32_be(v as int));
    }
    out
}

/// No two stored entries share a key.
pub open spec fn unique_keys(s: Seq<(i32, i32)>) -> bool {
    forall|i: int, j: int|
        0 <= i < j < s.len() ==> (#[trigger] s[i]).0 != (#[trigger] s[j]).0
}

/// Whether some entry has this key.
pub open spec fn spec_contains_key(s: Seq<(i32, i32)>, k: i32) -> bool {
    exists|i: int| 0 <= i < s.len() && (#[trigger] s[i]).0 == k
}

/// The index of the entry with this key (unique when `unique_keys` holds).
pub open spec fn spec_key_index(s: Seq<(i32, i32)>, k: i32) -> int {
    choose|i: int| 0 <= i < s.len() && (#[trigger] s[i]).0 == k
}

/// Storing a pair: overwrite the entry with the same key, or add a new one.
pub open spec fn spec_insert(s: Seq<(i32, i32)>, k: i32, v: i32) -> Seq<(i32, i32)> {
    if spec_contains_key(s, k) {
        s.update(spec_key_index(s, k), (k, v))
    } else {
        s.push((k, v))
    }
}

/// How many entries have a key in the inclusive range.
pub open spec fn spec_range_count(s: Seq<(i32, i32)>, lo: i32, hi: i32) -> nat
    decreases s.len(),
{
    if s.len() == 0 {
        0
    } else {
        spec_range_count(s.drop_last(), lo, hi) + (if lo <= s.last().0 && s.last().0 <= hi {
            1nat
        } else {
            0nat
        })
    }
}

/// The sum of the values whose key lies in the inclusive range.
pub open spec fn spec_range_sum(s: Seq<(i32, i32)>, lo: i32, hi: i32) -> int
    decreases s.len(),
{
    if s.len() == 0 {
        0
    } else {
        spec_range_sum(s.drop_last(), lo, hi) + (if lo <= s.last().0 && s.last().0 <= hi {
            s.last().1 as int
        } else {
            0
        })
    }
}

/// Integer division truncated toward zero, as the wire protocol's mean is.
pub open spec fn spec_mean_trunc(sum: int, count: int) -> int
    recommends
        count > 0,
{
    if sum >= 0 {
        sum / count
    } else {
        -((-sum) / count)
    }
}

/// The query answer: the truncated mean over the range, `0` when the range
/// matches nothing (in particular whenever it is inverted).
pub open spec fn spec_query(s: Seq<(i32, i32)>, lo: i32, hi: i32) -> int {
    let count = spec_range_count(s, lo, hi);
    if count == 0 {
        0
    } else {
        spec_mean_trunc(spec_range_sum(s, lo, hi), count as int)
    }
}

/// An inverted range matches no entry.
proof fn lemma_inverted_range_empty(s: Seq<(i32, i32)>, lo: i32, hi: i32)
    requires
        lo > hi,
    ensures
        spec_range_count(s, lo, hi) == 0,
    decreases s.len(),
{
    if s.len() > 0 {
        lemma_inverted_range_empty(s.drop_last(), lo, hi);
    }
}

/// The per-connection store of the range-aggregation protocol.
pub struct PriceDb {
    entries: Vec<(i32, i32)>,
}

impl PriceDb {
    /// The stored entries, for contracts.
    pub closed spec fn entries(self) -> Seq<(i32, i32)> {
        self.entries@
    }

    /// The store's invariant: one entry per key.
    pub open spec fn wf(self) -> bool {
        unique_keys(self.entries())
    }

    /// A fresh, empty store.
    pub fn new() -> (db: Self)
        ensures
            db.wf(),
            db.entries() == Seq::<(i32, i32)>::empty(),
    {
        let db = PriceDb { entries: Vec::new() };
        proof {
            assert(db.entries() =~= Seq::<(i32, i32)>::empty());
        }
        db
    }

    /// Stores a pair, overwriting any prior value for the key.
    pub fn insert(&mut self, key: i32, value: i32)
        requires
            old(self).wf(),
        ensures
            final(self).wf(),
            final(self).entries() == spec_insert(old(self).entries(), key, value),
    {
        let ghost s = self.entries@;
        let n = self.entries.len();
        let mut i: usize = 0;
        while i < n
            invariant
                n == self.entries.len(),
                0 <= i <= n,
                unique_keys(s),
                self.entries@ == s,
                old(self).entries() == s,
                forall|j: int| 0 <= j < i ==> (#[trigger] s[j]).0 != key,
            decreases n - i,
        {
            if self.entries[i].0 == key {
                let ghost w = spec_key_index(s, key);
                proof {
                    assert(spec_contains_key(s, key));
                    assert(0 <= w < s.len() && s[w].0 == key);
                    assert(w == i);
                }
                self.entries.remove(i);
                self.entries.insert(i, (key, value));
                proof {
                    assert(self.entries@ =~= s.update(i as int, (key, value)));
                }
                return ;
            }
            i = i + 1;
        }
        proof {
            assert(!spec_contains_key(s, key));
        }
        self.entries.push((key, value));
    }

    /// Answers a query: the truncated integer mean of the values whose key
    /// lies in `[start, end]`, and `0` when nothing matches — in particular,
    /// always `0` for an inverted range, whatever is stored.
    pub fn query(&self, start: i32, end: i32) -> (r: i32)
        ensures
            r as int == spec_query(self.entries(), start, end),
            start > end ==> r == 0,
            spec_range_count(self.entries(), start, end) == 0 ==> r == 0,
    {
        let ghost s = self.entries@;
        let n = self.entries.len();
        let mut count: usize = 0;
        let mut sum: i128 = 0;
        let mut i: usize = 0;
        proof {
            assert(s.take(0) =~= Seq::<(i32, i32)>::empty());
        }
        while i < n
            invariant
                n == self.entries.len(),
                self.entries@ == s,
                0 <= i <= n,
                count == spec_range_count(s.take(i as int), start, end),
                sum == spec_range_sum(s.take(i as int), start, end),
                count <= i,
                -(count * 0x8000_0000) <= sum <= count * 0x7fff_ffff,
            decreases n - i,
        {
            let (k, v) = self.entries[i];
            proof {
                assert(s.take(i + 1).drop_last() =~= s.take(i as int));
                assert(s.take(i + 1).last() == s[i as int]);
            }
            if start <= k && k <= end {
                count = count + 1;
                sum = sum + (v as i128);
            }
            i = i + 1;
        }
        proof {
            assert(s.take(n as int) =~= s);
        }
        if count == 0 {
            return 0;
        }
        proof {
            if start > end {
                lemma_inverted_range_empty(s, start, end);
            }
        }
        if sum >= 0 {
            let q: u128 = (sum as u128) / (count as u128);
            proof {
                lemma_div_is_ordered(sum as int, count * 0x7fff_ffff, count as int);
                lemma_div_multiples_vanish(0x7fff_ffff, count as int);
            }
            q as i32
        } else {
            let mag: i128 = -sum;
            let q: u128 = (mag as u128) / (count as u128);
            proof {
                lemma_div_is_ordered(mag as int, count * 0x8000_0000, count as int);
                lemma_div_multiples_vanish(0x8000_0000, count as int);
            }
            (-(q as i64)) as i32
        }
    }
}

/// What one 9-byte frame led to.
pub enum FrameOutcome {
    /// An insert frame: the pair is stored, no reply.
    Stored,
    /// A query frame: these four bytes answer it.
    Reply(Vec<u8>),
    /// An unknown tag: the connection ends, without error.
    Disconnect,
}

/// Applies one whole 9-byte frame to the store: tag byte, then two
/// big-endian 4-byte signed integers.
pub fn apply_frame(db: &mut PriceDb, frame: &[u8]) -> (out: FrameOutcome)
    requires
        old(db).wf(),
        frame@.len() == 9,
    ensures
        final(db).wf(),
        frame@[0] == TAG_INSERT ==> (final(db).entries() == spec_insert(
            old(db).entries(),
            decoded(frame@[1], frame@[2], frame@[3], frame@[4]),
            decoded(frame@[5], frame@[6], frame@[7], frame@[8]),
        ) && out is Stored),
        frame@[0] == TAG_QUERY ==> (*final(db) == *old(db) && (out matches FrameOutcome::Reply(r)
            && r@ == spec_i32_be(
            spec_query(
                old(db).entries(),
                decoded(frame@[1], frame@[2], frame@[3], frame@[4]),
                decoded(frame@[5], frame@[6], frame@[7], frame@[8]),
            ),
        ))),
        frame@[0] != TAG_INSERT && frame@[0] != TAG_QUERY ==> (*final(db) == *old(db)
            && out is Disconnect),
{
    let tag = frame[0];
    if tag == TAG_INSERT {
        let key = decode_be_i32(frame[1], frame[2], frame[3], frame[4]);
        let value = decode_be_i32(frame[5], frame[6], frame[7], frame[8]);
        db.insert(key, value);
        FrameOutcome::Stored
    } else if tag == TAG_QUERY {
        let start = decode_be_i32(frame[1], frame[2], frame[3], frame[4]);
        let end = decode_be_i32(frame[5], frame[6], frame[7], frame[8]);
        let mean = db.query(start, end);
        FrameOutcome::Reply(encode_be_i32(mean))
    } else {
        FrameOutcome::Disconnect
    }
}

/// The `i32` carried by four big-endian bytes, as an `i32`.
pub open spec fn decoded(b0: u8, b1: u8, b2: u8, b3: u8) -> i32 {
    spec_be_i32(b0, b1, b2, b3) as i32
}

/// Law: storing a key twice is the same as storing its second value once;
/// the first value is gone without trace.
pub proof fn lemma_insert_overwrites(s: Seq<(i32, i32)>, k: i32, v1: i32, v2: i32)
    requires
        unique_keys(s),
    ensures
        spec_insert(spec_insert(s, k, v1), k, v2) == spec_insert(s, k, v2),
{
    if spec_contains_key(s, k) {
        let w = spec_key_index(s, k);
        let s1 = s.update(w, (k, v1));
        assert(s1[w].0 == k);
        assert(spec_contains_key(s1, k));
        let w1 = spec_key_index(s1, k);
        assert(0 <= w1 < s1.len() && s1[w1].0 == k);
        assert(w1 == w);
        assert(s1.update(w, (k, v2)) =~= s.update(w, (k, v2)));
    } else {
        let s1 = s.push((k, v1));
        assert(s1[s.len() as int].0 == k);
        assert(spec_contains_key(s1, k));
        let w1 = spec_key_index(s1, k);
        assert(0 <= w1 < s1.len() && s1[w1].0 == k);
        assert(forall|j: int| 0 <= j < s.len() ==> (#[trigger] s[j]).0 != k);
        assert(w1 == s.len());
        assert(s1.update(w1, (k, v2)) =~= s.push((k, v2)));
    }
}

} // verus!
