use vstd::prelude::*;

verus! {

/// Largest sample magnitude counted by the level.
pub const MAX_MAGNITUDE: u64 = 32767;

/// Largest ring buffer capacity; it keeps every sum of magnitudes and the
/// scale arithmetic built on it within machine integers.
pub const MAX_CAPACITY: usize = 4294967295;

/// A sample's magnitude, saturated at `MAX_MAGNITUDE` (the most negative sample
/// counts as full scale).
pub open spec fn magnitude(s: i16) -> nat {
    if s < 0 {
        if s == -32768 { 32767 } else { (-s) as nat }
    } else {
        s as nat
    }
}

/// Sum of the magnitudes of the samples in `s`.
pub open spec fn sum_magnitudes(s: Seq<i16>) -> nat
    decreases s.len(),
{
    if s.len() == 0 {
        0
    } else {
        sum_magnitudes(s.drop_last()) + magnitude(s.last())
    }
}

/// The ring `buf` after writing `batch` one sample at a time from position `pos`,
/// each sample at the next position modulo the capacity.
pub open spec fn write_ring(buf: Seq<i16>, pos: nat, batch: Seq<i16>) -> Seq<i16>
    decreases batch.len(),
{
    if batch.len() == 0 {
        buf
    } else {
        write_ring(buf, pos, batch.drop_last()).update(
            (pos + batch.len() - 1) % (buf.len() as int),
            batch.last(),
        )
    }
}

/// The level over a buffer, as the fraction `total / count` of full scale:
/// the level in percent is `100 * total / (count * MAX_MAGNITUDE)`.
#[derive(Clone, Copy, Debug, PartialEq, Eq, Structural)]
pub struct Level {
    pub total: u64,
    pub count: u64,
}

impl Level {
    pub open spec fn wf(&self) -> bool {
        &&& 1 <= self.count <= MAX_CAPACITY
        &&& self.total <= self.count * MAX_MAGNITUDE
    }
}

/// Fixed-capacity ring of signed 16-bit samples with a write cursor.
pub struct AudioMonitor {
    buffer: Vec<i16>,
    pos: usize,
}

impl AudioMonitor {
    /// The samples, in buffer order.
    pub closed spec fn samples(&self) -> Seq<i16> {
        self.buffer@
    }

    /// Where the next sample goes.
    pub closed spec fn cursor(&self) -> nat {
        self.pos as nat
    }

    pub open spec fn wf(&self) -> bool {
        &&& 1 <= self.samples().len() <= MAX_CAPACITY
        &&& self.cursor() < self.samples().len()
    }

    /// A ring of `capacity` zero samples, the cursor at its start.
    pub fn new(capacity: usize) -> (r: AudioMonitor)
        requires
            1 <= capacity <= MAX_CAPACITY,
        ensures
            r.wf(),
            r.samples() == Seq::new(capacity as nat, |i: int| 0i16),
            r.cursor() == 0,
    {
        let mut buffer: Vec<i16> = Vec::new();
        let mut i: usize = 0;
        while i < capacity
            invariant
                i <= capacity,
                buffer@ == Seq::new(i as nat, |k: int| 0i16),
            decreases capacity - i,
        {
            buffer.push(0);
            i = i + 1;
        }
        AudioMonitor { buffer, pos: 0 }
    }

    pub fn capacity(&self) -> (r: usize)
        requires
            self.wf(),
        ensures
            r == self.samples().len(),
    {
        self.buffer.len()
    }

    /// The sample at position `i` of the ring.
    pub fn sample(&self, i: usize) -> (r: i16)
        requires
            i < self.samples().len(),
        ensures
            r == self.samples()[i as int],
    {
        self.buffer[i]
    }

    /// Where the next sample goes.
    pub fn position(&self) -> (r: usize)
        ensures
            r == self.cursor(),
    {
        self.pos
    }

    /// Changes the capacity: samples past the new end are dropped, new places
    /// hold zero, and the cursor goes back to the start.
    pub fn set_capacity(&mut self, capacity: usize)
        requires
            1 <= capacity <= MAX_CAPACITY,
        ensures
            final(self).wf(),
            final(self).cursor() == 0,
            final(self).samples().len() == capacity,
            forall|i: int|
                0 <= i < capacity ==> #[trigger] final(self).samples()[i] == if i < old(
                    self,
                ).samples().len() {
                    old(self).samples()[i]
                } else {
                    0i16
                },
    {
        if capacity <= self.buffer.len() {
            self.buffer.truncate(capacity);
        } else {
            while self.buffer.len() < capacity
                invariant
                    self.buffer@.len() <= capacity,
                    self.buffer@.len() >= old(self).buffer@.len(),
                    forall|i: int|
                        0 <= i < self.buffer@.len() ==> #[trigger] self.buffer@[i] == if i < old(
                            self,
                        ).buffer@.len() {
                            old(self).buffer@[i]
                        } else {
                            0i16
                        },
                decreases capacity - self.buffer@.len(),
            {
                self.buffer.push(0);
            }
        }
        self.pos = 0;
    }

    /// Writes each sample of `batch` at the cursor, advancing the cursor and
    /// wrapping it at the capacity.
    pub fn on_samples(&mut self, batch: &[i16])
        requires
            old(self).wf(),
        ensures
            final(self).wf(),
            final(self).samples() == write_ring(old(self).samples(), old(self).cursor(), batch@),
            final(self).cursor() == ((old(self).cursor() + batch@.len()) as int) % (old(
                self,
            ).samples().len() as int),
    {
        let cap = self.buffer.len();
        let mut i: usize = 0;
        proof {
            vstd::arithmetic::div_mod::lemma_small_mod(self.pos as nat, cap as nat);
            assert(batch@.take(0) =~= Seq::<i16>::empty());
        }
        while i < batch.len()
            invariant
                0 <= i <= batch@.len(),
                cap == old(self).buffer@.len(),
                1 <= cap <= MAX_CAPACITY,
                self.buffer@.len() == cap,
                self.pos < cap,
                self.pos == (old(self).pos + i) % (cap as int),
                self.buffer@ == write_ring(old(self).buffer@, old(self).pos as nat, batch@.take(i as int)),
            decreases batch@.len() - i,
        {
            let ghost before = self.buffer@;
            self.buffer.set(self.pos, batch[i]);
            proof {
                let b = batch@.take(i + 1);
                assert(b.drop_last() == batch@.take(i as int));
                assert(b.last() == batch@[i as int]);
                vstd::arithmetic::div_mod::lemma_add_mod_noop(old(self).pos as int, i as int, cap as int);
                assert((old(self).pos + i) % (cap as int) == self.pos);
            }
            self.pos = if self.pos + 1 < cap { self.pos + 1 } else { 0 };
            proof {
                let p = old(self).pos as int;
                vstd::arithmetic::div_mod::lemma_add_mod_noop(p + i, 1, cap as int);
                if cap > 1 {
                    vstd::arithmetic::div_mod::lemma_small_mod(1, cap as nat);
                } else {
                    assert(((p + i) % 1 + 1) % 1 == 0);
                    assert((p + i + 1) % 1 == 0);
                }
                if (p + i) % (cap as int) + 1 < cap {
                    vstd::arithmetic::div_mod::lemma_small_mod(((p + i) % (cap as int) + 1) as nat, cap as nat);
                } else {
                    vstd::arithmetic::div_mod::lemma_mod_self_0(cap as int);
                }
            }
            i = i + 1;
        }
        assert(batch@.take(batch@.len() as int) == batch@);
    }

    /// The current level: the sum of all sample magnitudes over the capacity.
    pub fn level(&self) -> (r: Level)
        requires
            self.wf(),
        ensures
            r.wf(),
            r.total == sum_magnitudes(self.samples()),
            r.count == self.samples().len(),
    {
        let mut total: u64 = 0;
        let mut i: usize = 0;
        while i < self.buffer.len()
            invariant
                i <= self.buffer@.len(),
                self.wf(),
                total == sum_magnitudes(self.buffer@.take(i as int)),
                total <= i * MAX_MAGNITUDE,
            decreases self.buffer@.len() - i,
        {
            let s = self.buffer[i];
            let m: u64 = if s < 0 {
                if s == -32768 { 32767 } else { (-s) as u64 }
            } else {
                s as u64
            };
            proof {
                let t = self.buffer@.take(i + 1);
                assert(t.drop_last() == self.buffer@.take(i as int));
                assert(t.last() == s);
            }
            total = total + m;
            i = i + 1;
        }
        assert(self.buffer@.take(self.buffer@.len() as int) == self.buffer@);
        Level { total, count: self.buffer.len() as u64 }
    }
}

proof fn lemma_write_ring_len(buf: Seq<i16>, pos: nat, batch: Seq<i16>)
    requires
        buf.len() >= 1,
    ensures
        write_ring(buf, pos, batch).len() == buf.len(),
    decreases batch.len(),
{
    if batch.len() > 0 {
        lemma_write_ring_len(buf, pos, batch.drop_last());
    }
}

proof fn lemma_mod_distinct(a: int, b: int, m: int)
    requires
        0 < m,
        0 <= a < b < a + m,
    ensures
        a % m != b % m,
{
    vstd::arithmetic::div_mod::lemma_fundamental_div_mod(a, m);
    vstd::arithmetic::div_mod::lemma_fundamental_div_mod(b, m);
    let qa = a / m;
    let qb = b / m;
    if a % m == b % m {
        let r = a % m;
        assert(false) by (nonlinear_arith)
            requires
                a == m * qa + r,
                b == m * qb + r,
                0 < b - a < m,
        ;
    }
}

/// Sample `j` of a batch stays in the ring as long as fewer than a capacity's
/// worth of samples follow it.
proof fn lemma_write_ring_recent(buf: Seq<i16>, pos: nat, batch: Seq<i16>, j: int)
    requires
        buf.len() >= 1,
        0 <= j < batch.len(),
        batch.len() - buf.len() <= j,
    ensures
        write_ring(buf, pos, batch)[(pos + j) % (buf.len() as int)] == batch[j],
    decreases batch.len(),
{
    let cap = buf.len() as int;
    let n = batch.len() as int;
    lemma_write_ring_len(buf, pos, batch.drop_last());
    if j < n - 1 {
        lemma_write_ring_recent(buf, pos, batch.drop_last(), j);
        lemma_mod_distinct(pos + j, pos + n - 1, cap);
    }
}

/// Writing a capacity plus `k` samples (`0 < k < capacity`) into the ring leaves
/// exactly the latest capacity's worth of them: read from the cursor on, the ring
/// holds samples `k`, `k + 1`, ... of the batch, the first `k` being overwritten.
pub proof fn lemma_ring_keeps_latest(buf: Seq<i16>, pos: nat, batch: Seq<i16>, k: nat)
    requires
        buf.len() >= 1,
        pos < buf.len(),
        0 < k < buf.len(),
        batch.len() == buf.len() + k,
    ensures
        write_ring(buf, pos, batch).len() == buf.len(),
        forall|j: int|
            0 <= j < buf.len() ==> #[trigger] write_ring(buf, pos, batch)[(pos + k + j) % (
            buf.len() as int)] == batch[k + j],
{
    lemma_write_ring_len(buf, pos, batch);
    assert forall|j: int| 0 <= j < buf.len() implies #[trigger] write_ring(buf, pos, batch)[(pos + k
        + j) % (buf.len() as int)] == batch[k + j] by {
        lemma_write_ring_recent(buf, pos, batch, k + j);
    }
}

/// A batch exactly as long as the ring, written from position 0, replaces it whole.
proof fn lemma_write_ring_fill(buf: Seq<i16>, batch: Seq<i16>)
    requires
        buf.len() >= 1,
        batch.len() == buf.len(),
    ensures
        write_ring(buf, 0, batch) == batch,
{
    lemma_write_ring_len(buf, 0, batch);
    assert forall|j: int| 0 <= j < batch.len() implies write_ring(buf, 0, batch)[j] == batch[j] by {
        lemma_write_ring_recent(buf, 0, batch, j);
        vstd::arithmetic::div_mod::lemma_small_mod(j as nat, buf.len());
    }
    assert(write_ring(buf, 0, batch) =~= batch);
}

proof fn lemma_sum_constant(s: Seq<i16>, m: nat)
    requires
        forall|i: int| 0 <= i < s.len() ==> magnitude(#[trigger] s[i]) == m,
    ensures
        sum_magnitudes(s) == s.len() * m,
    decreases s.len(),
{
    if s.len() > 0 {
        lemma_sum_constant(s.drop_last(), m);
        assert(s.len() * m == (s.len() - 1) * m + m) by (nonlinear_arith);
    }
}

/// A silent ring has level 0; a ring whose samples all sit at full scale has
/// level 100 (its total is `count * MAX_MAGNITUDE`).
pub proof fn lemma_level_bounds_reached(s: Seq<i16>)
    ensures
        (forall|i: int| 0 <= i < s.len() ==> #[trigger] s[i] == 0) ==> sum_magnitudes(s) == 0,
        (forall|i: int| 0 <= i < s.len() ==> magnitude(#[trigger] s[i]) == MAX_MAGNITUDE)
            ==> sum_magnitudes(s) == s.len() * MAX_MAGNITUDE,
{
    if forall|i: int| 0 <= i < s.len() ==> #[trigger] s[i] == 0 {
        lemma_sum_constant(s, 0);
    }
    if forall|i: int| 0 <= i < s.len() ==> magnitude(#[trigger] s[i]) == MAX_MAGNITUDE {
        lemma_sum_constant(s, MAX_MAGNITUDE as nat);
    }
}

/// Two batches of constant magnitudes `ma < mb`, each filling a fresh (silent)
/// ring of the same capacity, give levels in the same order: the totals are
/// `capacity * ma < capacity * mb` over the same count.
pub proof fn lemma_level_monotonic(cap: nat, a: Seq<i16>, b: Seq<i16>, ma: nat, mb: nat)
    requires
        cap >= 1,
        a.len() == cap,
        b.len() == cap,
        forall|i: int| 0 <= i < a.len() ==> magnitude(#[trigger] a[i]) == ma,
        forall|i: int| 0 <= i < b.len() ==> magnitude(#[trigger] b[i]) == mb,
        ma < mb,
    ensures
        sum_magnitudes(write_ring(Seq::new(cap, |i: int| 0i16), 0, a)) == cap * ma,
        sum_magnitudes(write_ring(Seq::new(cap, |i: int| 0i16), 0, b)) == cap * mb,
        sum_magnitudes(write_ring(Seq::new(cap, |i: int| 0i16), 0, a)) < sum_magnitudes(
            write_ring(Seq::new(cap, |i: int| 0i16), 0, b),
        ),
{
    let z = Seq::new(cap, |i: int| 0i16);
    lemma_write_ring_fill(z, a);
    lemma_write_ring_fill(z, b);
    lemma_sum_constant(a, ma);
    lemma_sum_constant(b, mb);
    assert(cap * ma < cap * mb) by (nonlinear_arith)
        requires
            cap >= 1,
            ma < mb,
    ;
}

} // verus!
