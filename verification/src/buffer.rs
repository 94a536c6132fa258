//! Fixed-capacity ring buffer of audio samples with an RMS loudness query.
//!
//! The buffer always holds exactly `CAPACITY` samples — zeros before any
//! audio has arrived — and a cursor marking the next slot to overwrite, so a
//! push always succeeds and overwrites the oldest retained sample. Samples
//! are fixed-point units of 1e-5 of full scale (see the crate root), held as
//! `i32`. `rms` returns the integer square root of the mean of the squares
//! of the stored samples, in the same units.

use vstd::prelude::*;

verus! {

/// Number of samples the buffer retains: the most recent `CAPACITY` pushes.
pub const CAPACITY: usize = 4096;

/// One step of the ring: the contents with `v` written at the cursor, and
/// the cursor advanced by one, wrapping to zero at the end of the buffer.
pub open spec fn ring_push(c: Seq<i32>, cur: int, v: i32) -> (Seq<i32>, int) {
    (c.update(cur, v), if cur + 1 == c.len() { 0 } else { cur + 1 })
}

/// Contents and cursor after pushing every sample of `s` in order.
pub open spec fn ring_push_all(c: Seq<i32>, cur: int, s: Seq<i32>) -> (Seq<i32>, int)
    decreases s.len(),
{
    if s.len() == 0 {
        (c, cur)
    } else {
        let stepped = ring_push(c, cur, s[0]);
        ring_push_all(stepped.0, stepped.1, s.skip(1))
    }
}

/// Sum of the squares of the elements of `s`.
pub open spec fn sum_sq(s: Seq<i32>) -> int
    decreases s.len(),
{
    if s.len() == 0 {
        0
    } else {
        sum_sq(s.drop_last()) + s.last() * s.last()
    }
}

/// Age of buffer slot `j` relative to cursor `cur`: how many pushes after a
/// push at `cur` would land on `j`. Ranges over `[0, CAPACITY)`.
pub open spec fn ring_offset(cur: int, j: int) -> int {
    if j >= cur {
        j - cur
    } else {
        j + CAPACITY - cur
    }
}

/// Pushing the concatenation of two blocks is pushing the first and then
/// the second: delivery chunking does not matter, only the sample order.
pub proof fn lemma_ring_push_all_append(c: Seq<i32>, cur: int, a: Seq<i32>, b: Seq<i32>)
    ensures
        ring_push_all(c, cur, a + b) == ring_push_all(
            ring_push_all(c, cur, a).0,
            ring_push_all(c, cur, a).1,
            b,
        ),
    decreases a.len(),
{
    if a.len() == 0 {
        assert(a + b =~= b);
    } else {
        let stepped = ring_push(c, cur, a[0]);
        assert((a + b)[0] == a[0]);
        assert((a + b).skip(1) =~= a.skip(1) + b);
        lemma_ring_push_all_append(stepped.0, stepped.1, a.skip(1), b);
    }
}

/// Pushing one more sample after a block steps the ring once more.
pub proof fn lemma_ring_push_all_snoc(c: Seq<i32>, cur: int, s: Seq<i32>, v: i32)
    ensures
        ring_push_all(c, cur, s.push(v)) == ring_push(
            ring_push_all(c, cur, s).0,
            ring_push_all(c, cur, s).1,
            v,
        ),
{
    assert(s.push(v) =~= s + seq![v]);
    lemma_ring_push_all_append(c, cur, s, seq![v]);
    let mid = ring_push_all(c, cur, s);
    let stepped = ring_push(mid.0, mid.1, v);
    assert(seq![v][0] == v);
    assert(seq![v].skip(1).len() == 0);
    assert(ring_push_all(stepped.0, stepped.1, seq![v].skip(1)) == stepped);
    assert(ring_push_all(mid.0, mid.1, seq![v]) == stepped);
}

/// Pushing preserves the buffer length and keeps the cursor in range.
pub proof fn lemma_ring_push_all_shape(c: Seq<i32>, cur: int, s: Seq<i32>)
    requires
        c.len() == CAPACITY,
        0 <= cur < CAPACITY,
    ensures
        ring_push_all(c, cur, s).0.len() == CAPACITY,
        0 <= ring_push_all(c, cur, s).1 < CAPACITY,
    decreases s.len(),
{
    if s.len() > 0 {
        let stepped = ring_push(c, cur, s[0]);
        lemma_ring_push_all_shape(stepped.0, stepped.1, s.skip(1));
    }
}

/// Pushing at most `CAPACITY` samples writes each of them at its ring
/// offset from the starting cursor and leaves every other slot unchanged.
pub proof fn lemma_ring_push_all_window(c: Seq<i32>, cur: int, s: Seq<i32>)
    requires
        c.len() == CAPACITY,
        0 <= cur < CAPACITY,
        s.len() <= CAPACITY,
    ensures
        ring_push_all(c, cur, s).1 == if cur + s.len() >= CAPACITY {
            cur + s.len() - CAPACITY
        } else {
            cur + s.len() as int
        },
        forall|j: int|
            0 <= j < CAPACITY ==> ring_push_all(c, cur, s).0[j] == (if ring_offset(cur, j)
                < s.len() {
                s[ring_offset(cur, j)]
            } else {
                c[j]
            }),
    decreases s.len(),
{
    if s.len() > 0 {
        let stepped = ring_push(c, cur, s[0]);
        let c1 = stepped.0;
        let cur1 = stepped.1;
        lemma_ring_push_all_window(c1, cur1, s.skip(1));
        let fin = ring_push_all(c, cur, s);
        assert(fin == ring_push_all(c1, cur1, s.skip(1)));
        assert forall|j: int| 0 <= j < CAPACITY implies fin.0[j] == (if ring_offset(cur, j)
            < s.len() {
            s[ring_offset(cur, j)]
        } else {
            c[j]
        }) by {
            let off = ring_offset(cur, j);
            let off1 = ring_offset(cur1, j);
            if j == cur {
                assert(off == 0);
                assert(off1 == CAPACITY - 1);
                assert(fin.0[j] == c1[j]);
                assert(c1[cur] == s[0]);
            } else {
                assert(off1 == off - 1);
                if off < s.len() {
                    assert(fin.0[j] == s.skip(1)[off - 1]);
                    assert(s.skip(1)[off - 1] == s[off]);
                } else {
                    assert(fin.0[j] == c1[j]);
                    assert(c1[j] == c[j]);
                }
            }
        }
    }
}

/// Filling a buffer with exactly `CAPACITY` samples, starting at cursor
/// zero, stores exactly those samples in push order, whatever was there
/// before, and returns the cursor to zero.
pub proof fn lemma_fill_exact(c: Seq<i32>, s: Seq<i32>)
    requires
        c.len() == CAPACITY,
        s.len() == CAPACITY,
    ensures
        ring_push_all(c, 0, s).0 == s,
        ring_push_all(c, 0, s).1 == 0,
{
    lemma_ring_push_all_shape(c, 0, s);
    lemma_ring_push_all_window(c, 0, s);
    assert(ring_push_all(c, 0, s).0 =~= s);
}

/// The stored energy adds up over concatenation.
pub proof fn lemma_sum_sq_append(a: Seq<i32>, b: Seq<i32>)
    ensures
        sum_sq(a + b) == sum_sq(a) + sum_sq(b),
    decreases b.len(),
{
    if b.len() == 0 {
        assert(a + b =~= a);
    } else {
        assert((a + b).drop_last() =~= a + b.drop_last());
        lemma_sum_sq_append(a, b.drop_last());
        assert((a + b).last() == b.last());
    }
}

/// Ring overwrite: once at least `CAPACITY` samples have been pushed, the
/// stored energy — and with it the RMS — is that of the most recent
/// `CAPACITY` samples alone. Older samples and the prior contents and
/// cursor of the buffer have no effect.
pub proof fn lemma_ring_overwrite(c: Seq<i32>, cur: int, s: Seq<i32>)
    requires
        c.len() == CAPACITY,
        0 <= cur < CAPACITY,
        s.len() >= CAPACITY,
    ensures
        sum_sq(ring_push_all(c, cur, s).0) == sum_sq(s.skip(s.len() - CAPACITY)),
{
    let n = s.len() as int;
    let head = s.take(n - CAPACITY);
    let tail = s.skip(n - CAPACITY);
    assert(s =~= head + tail);
    lemma_ring_push_all_append(c, cur, head, tail);
    let mid = ring_push_all(c, cur, head);
    lemma_ring_push_all_shape(c, cur, head);
    lemma_ring_push_all_shape(mid.0, mid.1, tail);
    lemma_ring_push_all_window(mid.0, mid.1, tail);
    let fin = ring_push_all(mid.0, mid.1, tail);
    let k = mid.1;
    let m = CAPACITY - k;
    assert(fin.0 =~= tail.skip(m) + tail.take(m)) by {
        assert forall|j: int| 0 <= j < CAPACITY implies fin.0[j] == (tail.skip(m) + tail.take(m))[j] by {
            assert(fin.0[j] == tail[ring_offset(k, j)]);
            if j < k {
                assert((tail.skip(m) + tail.take(m))[j] == tail[m + j]);
            } else {
                assert((tail.skip(m) + tail.take(m))[j] == tail[j - k]);
            }
        }
    }
    lemma_sum_sq_append(tail.skip(m), tail.take(m));
    lemma_sum_sq_append(tail.take(m), tail.skip(m));
    assert(tail =~= tail.take(m) + tail.skip(m));
}

/// The most recent `CAPACITY` samples, all zero before any audio arrives.
pub struct AudioBuffer {
    samples: Vec<i32>,
    index: usize,
}

impl AudioBuffer {
    /// The stored samples, indexed by buffer slot (not by age).
    pub closed spec fn contents(&self) -> Seq<i32> {
        self.samples@
    }

    /// The slot the next push overwrites.
    pub closed spec fn cursor(&self) -> int {
        self.index as int
    }

    /// A buffer holds exactly `CAPACITY` samples and a cursor inside them.
    pub open spec fn wf(&self) -> bool {
        &&& self.contents().len() == CAPACITY
        &&& 0 <= self.cursor() < CAPACITY
    }

    /// A fresh buffer: all zeros, cursor at the first slot.
    pub fn new() -> (r: AudioBuffer)
        ensures
            r.wf(),
            r.contents() == Seq::new(CAPACITY as nat, |i: int| 0i32),
            r.cursor() == 0,
    {
        let mut samples: Vec<i32> = Vec::new();
        let mut n: usize = 0;
        while n < CAPACITY
            invariant
                n <= CAPACITY,
                samples@.len() == n,
                forall|i: int| 0 <= i < n ==> samples@[i] == 0i32,
            decreases CAPACITY - n,
        {
            samples.push(0);
            n = n + 1;
        }
        proof {
            assert(samples@ =~= Seq::new(CAPACITY as nat, |i: int| 0i32));
        }
        AudioBuffer { samples, index: 0 }
    }

    /// Writes `value` at the cursor and advances it, wrapping modulo
    /// `CAPACITY`: the oldest retained sample is overwritten, nothing fails.
    pub fn push(&mut self, value: i32)
        requires
            old(self).wf(),
        ensures
            final(self).wf(),
            (final(self).contents(), final(self).cursor()) == ring_push(
                old(self).contents(),
                old(self).cursor(),
                value,
            ),
    {
        self.samples.set(self.index, value);
        self.index = self.index + 1;
        if self.index >= CAPACITY {
            self.index = 0;
        }
    }

    /// Pushes every sample of a delivered block in delivery order, exactly
    /// as that many single pushes would.
    pub fn push_block(&mut self, block: &[i32])
        requires
            old(self).wf(),
        ensures
            final(self).wf(),
            (final(self).contents(), final(self).cursor()) == ring_push_all(
                old(self).contents(),
                old(self).cursor(),
                block@,
            ),
    {
        let mut k: usize = 0;
        while k < block.len()
            invariant
                self.wf(),
                k <= block@.len(),
                (self.contents(), self.cursor()) == ring_push_all(
                    old(self).contents(),
                    old(self).cursor(),
                    block@.take(k as int),
                ),
            decreases block@.len() - k,
        {
            let v = block[k];
            self.push(v);
            proof {
                assert(block@.take(k as int + 1) =~= block@.take(k as int).push(block@[k as int]));
                lemma_ring_push_all_snoc(
                    old(self).contents(),
                    old(self).cursor(),
                    block@.take(k as int),
                    block@[k as int],
                );
            }
            k = k + 1;
        }
        proof {
            assert(block@.take(block@.len() as int) =~= block@);
        }
    }

    /// Root-mean-square loudness of the stored window: the integer square
    /// root of the mean of the squares of all `CAPACITY` stored samples,
    /// pre-fill zeros included. Pure; the buffer is not changed.
    pub fn rms(&self) -> (r: u64)
        requires
            self.wf(),
        ensures
            (r as int) * (r as int) <= sum_sq(self.contents()) / (CAPACITY as int),
            sum_sq(self.contents()) / (CAPACITY as int) < (r as int + 1) * (r as int + 1),
    {
        let mut acc: u128 = 0;
        let mut i: usize = 0;
        while i < self.samples.len()
            invariant
                self.wf(),
                i <= CAPACITY,
                acc as int == sum_sq(self.contents().take(i as int)),
                acc as int <= (i as int) * 0x4000_0000_0000_0000,
            decreases CAPACITY - i,
        {
            let v = self.samples[i];
            let ghost x = v as int;
            proof {
                assert(0 <= x * x <= 0x4000_0000_0000_0000) by (nonlinear_arith)
                    requires
                        -0x8000_0000 <= x <= 0x7fff_ffff,
                ;
            }
            let prod: i64 = (v as i64) * (v as i64);
            proof {
                assert(self.contents().take(i as int + 1).drop_last() =~= self.contents().take(
                    i as int,
                ));
            }
            acc = acc + (prod as u128);
            i = i + 1;
        }
        proof {
            assert(self.contents().take(CAPACITY as int) =~= self.contents());
            assert(acc as int / 4096 <= 0x4000_0000_0000_0000) by (nonlinear_arith)
                requires
                    acc as int <= 0x400_0000_0000_0000_0000,
            ;
        }
        let mean: u64 = (acc / 4096u128) as u64;
        isqrt_u64(mean)
    }
}

/// Integer square root: the greatest `r` with `r * r <= n`.
fn isqrt_u64(n: u64) -> (r: u64)
    requires
        n <= 0x4000_0000_0000_0000,
    ensures
        (r as int) * (r as int) <= n as int,
        (n as int) < (r as int + 1) * (r as int + 1),
{
    let mut lo: u64 = 0;
    let mut hi: u64 = 0x8000_0001;
    while lo + 1 < hi
        invariant
            lo < hi <= 0x8000_0001,
            (lo as int) * (lo as int) <= n as int,
            (n as int) < (hi as int) * (hi as int),
        decreases hi - lo,
    {
        let mid = lo + (hi - lo) / 2;
        proof {
            assert(0 <= (mid as int) * (mid as int) <= 0x4000_0000_0000_0000) by (nonlinear_arith)
                requires
                    0 <= mid as int <= 0x8000_0000,
            ;
        }
        if mid * mid <= n {
            lo = mid;
        } else {
            hi = mid;
        }
    }
    lo
}

/// A query that returns the integer square root of a value is a function of
/// that value alone: two results for the same value are equal. In
/// particular, repeated `rms` calls with no push in between agree.
pub proof fn lemma_rms_value_unique(m: int, r1: int, r2: int)
    requires
        0 <= r1,
        0 <= r2,
        r1 * r1 <= m,
        m < (r1 + 1) * (r1 + 1),
        r2 * r2 <= m,
        m < (r2 + 1) * (r2 + 1),
    ensures
        r1 == r2,
{
    assert(r1 == r2) by (nonlinear_arith)
        requires
            0 <= r1,
            0 <= r2,
            r1 * r1 <= m,
            m < (r1 + 1) * (r1 + 1),
            r2 * r2 <= m,
            m < (r2 + 1) * (r2 + 1),
    ;
}

impl Default for AudioBuffer {
    /// Same as `AudioBuffer::new`: all zeros, cursor at the first slot.
    fn default() -> (r: AudioBuffer)
        ensures
            r.wf(),
            r.contents() == Seq::new(CAPACITY as nat, |i: int| 0i32),
            r.cursor() == 0,
    {
        AudioBuffer::new()
    }
}

} // verus!
