use vstd::prelude::*;
use crate::error::{NotifyError, Op, Violation};

verus! {

/// A signal number that can be sent to another process: positive, and not one
/// of the two highest real-time signals, which the platform refuses to deliver
/// between processes.
pub open spec fn usable_signal(s: int) -> bool {
    s >= 1 && s != 63 && s != 64
}

/// The usable signal numbers of `[min, max]`, in increasing order.
pub open spec fn range_pool(min: int, max: int) -> Seq<u32>
    decreases max - min + 1,
{
    if max < min {
        seq![]
    } else if usable_signal(max) {
        range_pool(min, max - 1).push(max as u32)
    } else {
        range_pool(min, max - 1)
    }
}

/// One allocation's effect on the set of occupied ids, out of the ids `ids`:
/// either a free id is claimed and returned, or every id is occupied, nothing
/// changes and `None` comes back.
pub open spec fn alloc_step(ids: Set<u64>, before: Set<u64>, r: Option<u64>, after: Set<u64>) -> bool {
    match r {
        Some(id) => ids.contains(id) && !before.contains(id) && after == before.insert(id),
        None => before == ids && after == before,
    }
}

/// A release's effect on the set of occupied ids: the id leaves it, if it
/// was there.
pub open spec fn release_step(before: Set<u64>, id: u64, after: Set<u64>) -> bool {
    after == before.remove(id)
}

/// The position that probe number `k` of an allocation looks at, when the
/// allocation starts at position `start` and probes `span` positions in turn,
/// coming back to zero after the last.
pub open spec fn probe_at(start: int, k: int, span: int) -> int {
    if start + k < span {
        start + k
    } else {
        start + k - span
    }
}

/// `m` is a power of two.
pub open spec fn is_pow2(m: nat) -> bool
    decreases m,
{
    if m <= 1 {
        m == 1
    } else {
        m % 2 == 0 && is_pow2(m / 2)
    }
}

/// Relies on libc::SIGRTMIN: the lowest real-time signal number of the C
/// library in use, as the platform reports it.
#[verifier::external_body]
fn rt_min() -> (r: i32) {
    libc::SIGRTMIN()
}

/// Relies on libc::SIGRTMAX: the highest real-time signal number of the C
/// library in use, as the platform reports it.
#[verifier::external_body]
fn rt_max() -> (r: i32) {
    libc::SIGRTMAX()
}

/// The smallest power of two that is at least `p`.
fn probe_span(p: usize) -> (m: usize)
    requires
        p <= usize::MAX / 2,
    ensures
        m >= 1,
        m >= p,
        is_pow2(m as nat),
        m == 1 || m / 2 < p,
{
    let mut m: usize = 1;
    while m < p
        invariant
            m >= 1,
            is_pow2(m as nat),
            m == 1 || m / 2 < p,
            p <= usize::MAX / 2,
        decreases usize::MAX - m,
    {
        assert((2 * m) as nat / 2 == m as nat);
        assert((2 * m) as nat % 2 == 0);
        m = m * 2;
    }
    m
}

/// A signal to send: which process, and which signal number.
#[derive(Clone, Copy, Debug, PartialEq, Eq, Structural)]
pub struct Kill {
    pub pid: i32,
    pub signal: i32,
}

/// A fixed pool of real-time signal numbers, one slot each, and the cursor
/// that spreads claims round-robin over the slots.
///
/// The pool is changed through `&mut self` only, so callers that share one
/// pool serialise their calls (behind a lock, say): allocation here is not
/// the lock-free per-slot test-and-set of an atomic table, and its guarantee
/// of no double allocation is the one that holds for calls made one after
/// another.
pub struct SignalNotification {
    /// The usable signal numbers, in increasing order.
    signals: Vec<u32>,
    /// Occupancy of each slot, by position in `signals`.
    used: Vec<bool>,
    /// The smallest power of two that is at least the pool's size.
    span: usize,
    /// The allocation cursor, kept reduced modulo `span`: each probe takes
    /// the position it holds and moves it on by one.
    next: usize,
}

/// What an allocation from `before` that leaves `after` and returns `r` does:
/// the pool and its probe span stay; `r` claims a free id or is `None` when
/// every id is occupied (`alloc_step`); the id claimed is the first free slot
/// in probe order from the cursor, and the cursor moves just past it; after
/// `None` the cursor is where it was.
pub open spec fn alloc_outcome(
    before: SignalNotification,
    after: SignalNotification,
    r: Option<u64>,
) -> bool {
    &&& after.pool() == before.pool()
    &&& after.ids() == before.ids()
    &&& after.span() == before.span()
    &&& alloc_step(before.ids(), before.occupied(), r, after.occupied())
    &&& match r {
        Some(id) => exists|k: int|
            0 <= k < before.span() && !before.probe_misses(k) && before.pool()[probe_at(
                before.cursor(),
                k,
                before.span(),
            )] as u64 == id && (forall|j: int| 0 <= j < k ==> #[trigger] before.probe_misses(j))
                && after.cursor() == probe_at(before.cursor(), k + 1, before.span()),
        None => after.cursor() == before.cursor(),
    }
}

impl SignalNotification {
    /// The signal numbers of the pool, in increasing order.
    pub closed spec fn pool(&self) -> Seq<u32> {
        self.signals@
    }

    /// Which slots are occupied, by position in the pool.
    pub closed spec fn held(&self) -> Seq<bool> {
        self.used@
    }

    /// Where the next allocation starts probing.
    pub closed spec fn cursor(&self) -> int {
        self.next as int
    }

    /// How many positions an allocation probes: the smallest power of two
    /// that is at least the pool's size.
    pub closed spec fn span(&self) -> int {
        self.span as int
    }

    /// Probe `k` of an allocation from this state finds no free slot.
    pub open spec fn probe_misses(&self, k: int) -> bool {
        let pos = probe_at(self.cursor(), k, self.span());
        pos >= self.pool().len() || self.held()[pos]
    }

    pub closed spec fn wf(&self) -> bool {
        &&& self.used@.len() == self.signals@.len()
        &&& forall|i: int, j: int|
            0 <= i < j < self.signals@.len() ==> self.signals@[i] < self.signals@[j]
        &&& self.span >= 1
        &&& self.span >= self.signals@.len()
        &&& is_pow2(self.span as nat)
        &&& (self.span == 1 || self.span / 2 < self.signals@.len())
        &&& self.next < self.span
        &&& forall|i: int| 0 <= i < self.signals@.len() ==> 1 <= #[trigger] self.signals@[i] <= i32::MAX
    }

    /// The ids (signal numbers) this backend knows.
    pub open spec fn ids(&self) -> Set<u64> {
        Set::new(|id: u64| exists|i: int| 0 <= i < self.pool().len() && self.pool()[i] as u64 == id)
    }

    /// The ids whose slot is occupied.
    pub open spec fn occupied(&self) -> Set<u64> {
        Set::new(
            |id: u64|
                exists|i: int|
                    0 <= i < self.pool().len() && #[trigger] self.held()[i] && self.pool()[i] as u64
                        == id,
        )
    }

    /// A pool of the usable signal numbers of `[min, max]`, all slots free.
    pub fn from_range(min: i32, max: i32) -> (r: SignalNotification)
        ensures
            r.wf(),
            r.pool() == range_pool(min as int, max as int),
            r.occupied() == Set::<u64>::empty(),
            r.cursor() == 0,
            r.span() >= 1,
            r.span() >= r.pool().len(),
            is_pow2(r.span() as nat),
            r.span() == 1 || r.span() / 2 < r.pool().len(),
    {
        let mut signals: Vec<u32> = Vec::new();
        let mut used: Vec<bool> = Vec::new();
        let mut i: i64 = min as i64;
        while i <= max as i64
            invariant
                min as int <= i <= max as int + 1 || (i == min && max < min),
                min as int <= i,
                signals@ == range_pool(min as int, i - 1),
                used@.len() == signals@.len(),
                forall|k: int| 0 <= k < used@.len() ==> !used@[k],
                forall|a: int, b: int| 0 <= a < b < signals@.len() ==> signals@[a] < signals@[b],
                forall|a: int| 0 <= a < signals@.len() ==> 1 <= #[trigger] signals@[a] < i,
                i <= i32::MAX + 1,
                signals@.len() <= if i >= 1 { i - 1 } else { 0 },
            decreases max as int + 1 - i,
        {
            if i >= 1 && i != 63 && i != 64 {
                signals.push(i as u32);
                used.push(false);
            }
            i = i + 1;
        }
        let span = probe_span(signals.len());
        let r = SignalNotification { signals, used, span, next: 0 };
        assert(r.occupied() =~= Set::<u64>::empty());
        r
    }

    /// The pool of the platform's real-time signals, less those that cannot be
    /// sent between processes.
    pub fn new() -> (r: SignalNotification)
        ensures
            r.wf(),
            r.occupied() == Set::<u64>::empty(),
            r.cursor() == 0,
            exists|lo: i32, hi: i32| r.pool() == range_pool(lo as int, hi as int),
    {
        let min = rt_min();
        let max = rt_max();
        SignalNotification::from_range(min, max)
    }

    /// The number of slots in the pool.
    pub fn size(&self) -> (r: usize)
        requires
            self.wf(),
        ensures
            r == self.pool().len(),
    {
        self.signals.len()
    }

    /// The position in the pool of signal number `id`, if it is there.
    fn position(&self, id: u64) -> (r: Option<usize>)
        requires
            self.wf(),
        ensures
            match r {
                Some(i) => i < self.pool().len() && self.pool()[i as int] as u64 == id,
                None => !self.ids().contains(id),
            },
    {
        let mut i: usize = 0;
        while i < self.signals.len()
            invariant
                self.wf(),
                i <= self.signals@.len(),
                forall|k: int| 0 <= k < i ==> self.signals@[k] as u64 != id,
            decreases self.signals@.len() - i,
        {
            if self.signals[i] as u64 == id {
                return Some(i);
            }
            i = i + 1;
        }
        None
    }

    /// Two positions that hold the same signal number are the same position.
    proof fn lemma_positions_unique(&self, i: int, j: int)
        requires
            self.wf(),
            0 <= i < self.pool().len(),
            0 <= j < self.pool().len(),
            self.pool()[i] as u64 == self.pool()[j] as u64,
        ensures
            i == j,
    {
        if i < j {
            assert(self.signals@[i] < self.signals@[j]);
        } else if j < i {
            assert(self.signals@[j] < self.signals@[i]);
        }
    }

    /// Claims a free slot and returns its signal number, or returns `None`
    /// when every slot is occupied.
    ///
    /// The probe starts at the cursor and moves on by one position per
    /// attempt, over as many positions as the probe span holds, so each slot
    /// is looked at once; positions past the end of the pool are skipped.
    pub fn new_id(&mut self) -> (r: Option<u64>)
        requires
            old(self).wf(),
        ensures
            final(self).wf(),
            alloc_outcome(*old(self), *final(self), r),
    {
        let p = self.signals.len();
        let m = self.span;
        let start = self.next;
        let mut k: usize = 0;
        while k < m
            invariant
                self.wf(),
                self.signals@ == old(self).signals@,
                self.used@ == old(self).used@,
                self.span == m,
                p == self.signals@.len(),
                start < m,
                k <= m,
                self.next as int == probe_at(start as int, k as int, m as int),
                start == old(self).next,
                m == old(self).span,
                forall|j: int| 0 <= j < k ==> #[trigger] old(self).probe_misses(j),
            decreases m - k,
        {
            let index = self.next;
            self.next = if self.next + 1 < m {
                self.next + 1
            } else {
                0
            };
            if index < p && !self.used[index] {
                self.used.set(index, true);
                let id = self.signals[index] as u64;
                proof {
                    assert(!old(self).probe_misses(k as int));
                    assert(self.held()[index as int]);
                    assert forall|x: u64|
                        self.occupied().contains(x) == old(self).occupied().insert(id).contains(
                            x,
                        ) by {
                        if self.occupied().contains(x) && x != id {
                            let i = choose|i: int|
                                0 <= i < p && #[trigger] self.held()[i] && self.pool()[i] as u64
                                    == x;
                            assert(i != index);
                            assert(old(self).held()[i]);
                        }
                        if old(self).occupied().contains(x) {
                            let i = choose|i: int|
                                0 <= i < p && #[trigger] old(self).held()[i]
                                    && old(self).pool()[i] as u64 == x;
                            assert(self.held()[i]);
                        }
                    }
                    assert(self.occupied() =~= old(self).occupied().insert(id));
                    if old(self).occupied().contains(id) {
                        let i = choose|i: int|
                            0 <= i < p && #[trigger] old(self).held()[i]
                                && old(self).pool()[i] as u64 == id;
                        old(self).lemma_positions_unique(i, index as int);
                    }
                    assert(old(self).ids().contains(id));
                }
                assert(self.ids() =~= old(self).ids());
                return Some(id);
            }
            k = k + 1;
        }
        proof {
            assert forall|x: u64| old(self).ids().contains(x) implies old(
                self,
            ).occupied().contains(x) by {
                let i = choose|i: int| 0 <= i < p && old(self).pool()[i] as u64 == x;
                let j = if i >= start { i - start } else { i + m - start };
                assert(probe_at(start as int, j, m as int) == i);
                assert(old(self).probe_misses(j));
            }
            assert(old(self).occupied() =~= old(self).ids());
            assert(self.ids() =~= old(self).ids());
            assert(self.occupied() =~= old(self).occupied());
        }
        None
    }

    /// Checks `id` for operation `op`: the signal number, or an `UnknownId`
    /// error when `id` is not one of the pool's signal numbers. Waiting on or
    /// ringing such an id is a broken contract, which the caller treats as
    /// fatal.
    pub fn check_id(&self, op: Op, id: u64) -> (r: Result<i32, NotifyError>)
        requires
            self.wf(),
        ensures
            self.ids().contains(id) ==> r == Ok::<i32, NotifyError>(id as i32) && id <= i32::MAX,
            !self.ids().contains(id) ==> r == Err::<i32, NotifyError>(
                NotifyError { kind: Violation::UnknownId, op, id },
            ),
    {
        match self.position(id) {
            Some(i) => Ok(self.signals[i] as i32),
            None => Err(NotifyError { kind: Violation::UnknownId, op, id }),
        }
    }

    /// Checks that `id` may be released: it is one of the pool's signal
    /// numbers and its slot is occupied. Otherwise the error names the
    /// violation (`UnknownId` or `DoubleRelease`), which the caller treats as
    /// fatal.
    pub fn check_release(&self, id: u64) -> (r: Result<(), NotifyError>)
        requires
            self.wf(),
        ensures
            self.occupied().contains(id) ==> r == Ok::<(), NotifyError>(()),
            !self.ids().contains(id) ==> r == Err::<(), NotifyError>(
                NotifyError { kind: Violation::UnknownId, op: Op::Release, id },
            ),
            self.ids().contains(id) && !self.occupied().contains(id) ==> r == Err::<
                (),
                NotifyError,
            >(NotifyError { kind: Violation::DoubleRelease, op: Op::Release, id }),
    {
        match self.position(id) {
            None => {
                proof {
                    if self.occupied().contains(id) {
                        let i = choose|i: int|
                            0 <= i < self.pool().len() && #[trigger] self.held()[i]
                                && self.pool()[i] as u64 == id;
                        assert(self.ids().contains(id));
                    }
                }
                Err(NotifyError { kind: Violation::UnknownId, op: Op::Release, id })
            },
            Some(index) => {
                proof {
                    assert(self.ids().contains(id));
                }
                if self.used[index] {
                    proof {
                        assert(self.held()[index as int]);
                    }
                    Ok(())
                } else {
                    proof {
                        if self.occupied().contains(id) {
                            let i = choose|i: int|
                                0 <= i < self.pool().len() && #[trigger] self.held()[i]
                                    && self.pool()[i] as u64 == id;
                            self.lemma_positions_unique(i, index as int);
                        }
                    }
                    Err(NotifyError { kind: Violation::DoubleRelease, op: Op::Release, id })
                }
            },
        }
    }

    /// The signal number whose next delivery wakes a waiter on `id`, which
    /// must be one of the pool's signal numbers.
    pub fn wait_on(&self, id: u64) -> (r: i32)
        requires
            self.wf(),
            self.ids().contains(id),
        ensures
            r as u64 == id,
            r == id as i32,
    {
        proof {
            self.lemma_ids_bounded(id);
        }
        match self.check_id(Op::Wait, id) {
            Ok(s) => s,
            Err(_) => 0,
        }
    }

    /// The signal to send to process `process` (taken as a process id) to
    /// ring `id` there; `id` must be one of the pool's signal numbers.
    pub fn notify(&self, process: u64, id: u64) -> (r: Kill)
        requires
            self.wf(),
            self.ids().contains(id),
        ensures
            r == (Kill { pid: process as i32, signal: id as i32 }),
            r.signal as u64 == id,
    {
        proof {
            self.lemma_ids_bounded(id);
        }
        let signal = match self.check_id(Op::Notify, id) {
            Ok(s) => s,
            Err(_) => 0,
        };
        Kill { pid: process as i32, signal }
    }

    /// Every id of the pool is a signal number that fits in an `i32`.
    pub proof fn lemma_ids_bounded(&self, id: u64)
        requires
            self.wf(),
            self.ids().contains(id),
        ensures
            1 <= id <= i32::MAX,
    {
        let i = choose|i: int| 0 <= i < self.pool().len() && self.pool()[i] as u64 == id;
        assert(self.signals@[i] <= i32::MAX);
        assert(1 <= self.signals@[i]);
    }

    /// Frees the slot of `id`, which must be occupied (releasing a free slot
    /// is a broken contract: see `check_release`). Nothing else changes.
    pub fn release_id(&mut self, id: u64)
        requires
            old(self).wf(),
            old(self).occupied().contains(id),
        ensures
            final(self).wf(),
            final(self).pool() == old(self).pool(),
            final(self).cursor() == old(self).cursor(),
            final(self).span() == old(self).span(),
            release_step(old(self).occupied(), id, final(self).occupied()),
    {
        proof {
            let i = choose|i: int|
                0 <= i < old(self).pool().len() && #[trigger] old(self).held()[i]
                    && old(self).pool()[i] as u64 == id;
        }
        match self.position(id) {
            None => {},
            Some(index) => {
                self.used.set(index, false);
                proof {
                    let p = self.pool().len();
                    assert(old(self).held()[index as int]) by {
                        let i = choose|i: int|
                            0 <= i < p && #[trigger] old(self).held()[i]
                                && old(self).pool()[i] as u64 == id;
                        old(self).lemma_positions_unique(i, index as int);
                    }
                    assert forall|x: u64|
                        self.occupied().contains(x) == old(self).occupied().remove(id).contains(
                            x,
                        ) by {
                        if self.occupied().contains(x) {
                            let i = choose|i: int|
                                0 <= i < p && #[trigger] self.held()[i] && self.pool()[i] as u64
                                    == x;
                            assert(i != index);
                            assert(old(self).held()[i]);
                            if x == id {
                                self.lemma_positions_unique(i, index as int);
                            }
                        }
                        if old(self).occupied().contains(x) && x != id {
                            let i = choose|i: int|
                                0 <= i < p && #[trigger] old(self).held()[i]
                                    && old(self).pool()[i] as u64 == x;
                            assert(i != index);
                            assert(self.held()[i]);
                        }
                    }
                    assert(self.occupied() =~= old(self).occupied().remove(id));
                }
            },
        }
    }
}

} // verus!
