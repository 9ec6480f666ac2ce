use vstd::prelude::*;
use crate::error::{NotifyError, Op, Violation};
use crate::handle::{
    backend_of, backend_of_tag, decode, encode, handle_of, inner_of, lemma_decode_encode, tag_of,
    Backend, SIGNAL_TAG,
};
use crate::signal::{alloc_outcome, alloc_step, Kill, SignalNotification};

verus! {

/// What every notification backend offers over its own id space: ids are
/// handed out while free ones remain and taken back only while in use. Using
/// an id the backend does not know, or releasing one that is not in use, is a
/// broken contract: the checks report it, and the operations exclude it.
pub trait NotificationIf: Sized {
    /// The backend's state is well formed.
    spec fn backend_inv(&self) -> bool;

    /// The ids this backend knows.
    spec fn id_space(&self) -> Set<u64>;

    /// The ids that are handed out.
    spec fn in_use(&self) -> Set<u64>;

    /// Hands out a free id, or returns `None` when every id is in use.
    fn new_id(&mut self) -> (r: Option<u64>)
        requires
            old(self).backend_inv(),
        ensures
            final(self).backend_inv(),
            final(self).id_space() == old(self).id_space(),
            alloc_step(old(self).id_space(), old(self).in_use(), r, final(self).in_use()),
    ;

    /// Accepts `id` for operation `op` when the backend knows it.
    fn check_id(&self, op: Op, id: u64) -> (r: Result<(), NotifyError>)
        requires
            self.backend_inv(),
        ensures
            self.id_space().contains(id) ==> r == Ok::<(), NotifyError>(()),
            !self.id_space().contains(id) ==> r == Err::<(), NotifyError>(
                NotifyError { kind: Violation::UnknownId, op, id },
            ),
    ;

    /// Accepts `id` for release when it is in use, and names the violation
    /// otherwise.
    fn check_release(&self, id: u64) -> (r: Result<(), NotifyError>)
        requires
            self.backend_inv(),
        ensures
            self.in_use().contains(id) ==> r == Ok::<(), NotifyError>(()),
            !self.id_space().contains(id) ==> r == Err::<(), NotifyError>(
                NotifyError { kind: Violation::UnknownId, op: Op::Release, id },
            ),
            self.id_space().contains(id) && !self.in_use().contains(id) ==> r == Err::<
                (),
                NotifyError,
            >(NotifyError { kind: Violation::DoubleRelease, op: Op::Release, id }),
    ;

    /// Takes back an id that is in use.
    fn release_id(&mut self, id: u64)
        requires
            old(self).backend_inv(),
            old(self).in_use().contains(id),
        ensures
            final(self).backend_inv(),
            final(self).id_space() == old(self).id_space(),
            final(self).in_use() == old(self).in_use().remove(id),
    ;
}

impl NotificationIf for SignalNotification {
    open spec fn backend_inv(&self) -> bool {
        self.wf()
    }

    open spec fn id_space(&self) -> Set<u64> {
        self.ids()
    }

    open spec fn in_use(&self) -> Set<u64> {
        self.occupied()
    }

    fn new_id(&mut self) -> (r: Option<u64>) {
        SignalNotification::new_id(self)
    }

    fn check_id(&self, op: Op, id: u64) -> (r: Result<(), NotifyError>) {
        match SignalNotification::check_id(self, op, id) {
            Ok(_) => Ok(()),
            Err(e) => Err(e),
        }
    }

    fn check_release(&self, id: u64) -> (r: Result<(), NotifyError>) {
        SignalNotification::check_release(self, id)
    }

    fn release_id(&mut self, id: u64) {
        SignalNotification::release_id(self, id);
        proof {
            assert(final(self).ids() =~= old(self).ids());
        }
    }
}

/// Where an operation on a handle goes once its tag is known.
#[derive(Clone, Copy, Debug, PartialEq, Eq, Structural)]
pub enum Route {
    /// The signal backend, with the signal number of the handle.
    Signal(i32),
    /// The interrupt backend, with the handle's inner id.
    Interrupt(u64),
}

/// What ringing a handle in a peer process takes.
#[derive(Clone, Copy, Debug, PartialEq, Eq, Structural)]
pub enum Delivery {
    /// Send this signal.
    Signal(Kill),
    /// Hand the inner id and the process to the interrupt backend.
    Interrupt { process: u64, id: u64 },
}

/// The dispatcher: it decodes each handle's tag and forwards the operation to
/// the backend that the tag selects. It owns the signal backend's pool.
///
/// A handle whose tag selects no backend, a signal handle outside the pool,
/// and the release of a signal slot that is not occupied are broken
/// contracts. `route` and `check_release` name them; `wait_on`, `notify` and
/// `release_id` require that there is none, and a caller that finds one
/// aborts.
pub struct Notification {
    signal: SignalNotification,
}

impl Notification {
    /// The signal backend's pool.
    pub closed spec fn signals(&self) -> SignalNotification {
        self.signal
    }

    pub open spec fn wf(&self) -> bool {
        self.signals().wf()
    }

    /// What `op` on handle `id` is routed to, or the violation it commits.
    pub open spec fn route_of(&self, op: Op, id: u64) -> Result<Route, NotifyError> {
        match backend_of_tag(tag_of(id)) {
            None => Err(NotifyError { kind: Violation::UnknownTag, op, id }),
            Some(Backend::Interrupt) => Ok(Route::Interrupt(inner_of(id))),
            Some(Backend::Signal) => if self.signals().ids().contains(inner_of(id)) {
                Ok(Route::Signal(inner_of(id) as i32))
            } else {
                Err(NotifyError { kind: Violation::UnknownId, op, id })
            },
        }
    }

    /// Where releasing `id` is routed to, or the violation it commits: that
    /// of `route_of`, or a double release of a signal slot that is free.
    pub open spec fn release_route_of(&self, id: u64) -> Result<Route, NotifyError> {
        match self.route_of(Op::Release, id) {
            Ok(Route::Signal(s)) => if self.signals().occupied().contains(inner_of(id)) {
                Ok(Route::Signal(s))
            } else {
                Err(NotifyError { kind: Violation::DoubleRelease, op: Op::Release, id })
            },
            other => other,
        }
    }

    /// A dispatcher over the given signal pool.
    pub fn with_signals(signal: SignalNotification) -> (r: Notification)
        requires
            signal.wf(),
        ensures
            r.wf(),
            r.signals() == signal,
    {
        Notification { signal }
    }

    /// A dispatcher over the platform's real-time signal pool, all free.
    pub fn new() -> (r: Notification)
        ensures
            r.wf(),
            r.signals().occupied() == Set::<u64>::empty(),
            r.signals().cursor() == 0,
            exists|lo: i32, hi: i32|
                r.signals().pool() == crate::signal::range_pool(lo as int, hi as int),
    {
        Notification { signal: SignalNotification::new() }
    }

    /// Allocation is backend-specific: the dispatcher has no pool of its own
    /// and always returns `None`. Use `new_id_signal`.
    pub fn new_id(&self) -> (r: Option<u64>)
        ensures
            r == None::<u64>,
    {
        None
    }

    /// Claims a slot of the signal backend exactly as its `new_id` does and
    /// returns the handle of that slot, tagged for the signal backend, or
    /// `None` when every slot is occupied.
    pub fn new_id_signal(&mut self) -> (r: Option<u64>)
        requires
            old(self).wf(),
        ensures
            final(self).wf(),
            match r {
                Some(h) => {
                    &&& tag_of(h) == SIGNAL_TAG
                    &&& h == handle_of(SIGNAL_TAG, inner_of(h))
                    &&& alloc_outcome(old(self).signals(), final(self).signals(), Some(inner_of(h)))
                },
                None => alloc_outcome(old(self).signals(), final(self).signals(), None),
            },
    {
        match self.signal.new_id() {
            Some(id) => {
                proof {
                    old(self).signals().lemma_ids_bounded(id);
                    lemma_decode_encode(SIGNAL_TAG, id);
                }
                Some(encode(SIGNAL_TAG, id))
            },
            None => None,
        }
    }

    /// Decodes `id` and checks it with its backend for operation `op`: where
    /// it goes, or the violation it commits.
    pub fn route(&self, op: Op, id: u64) -> (r: Result<Route, NotifyError>)
        requires
            self.wf(),
        ensures
            r == self.route_of(op, id),
    {
        let (_, inner) = decode(id);
        match backend_of(id) {
            None => Err(NotifyError { kind: Violation::UnknownTag, op, id }),
            Some(Backend::Interrupt) => Ok(Route::Interrupt(inner)),
            Some(Backend::Signal) => match self.signal.check_id(op, inner) {
                Ok(s) => Ok(Route::Signal(s)),
                Err(_) => Err(NotifyError { kind: Violation::UnknownId, op, id }),
            },
        }
    }

    /// Checks that `id` may be released: where the release goes, or the
    /// violation it commits.
    pub fn check_release(&self, id: u64) -> (r: Result<Route, NotifyError>)
        requires
            self.wf(),
        ensures
            r == self.release_route_of(id),
    {
        match self.route(Op::Release, id) {
            Ok(Route::Signal(s)) => {
                let (_, inner) = decode(id);
                match self.signal.check_release(inner) {
                    Ok(()) => Ok(Route::Signal(s)),
                    Err(_) => Err(NotifyError { kind: Violation::DoubleRelease, op: Op::Release, id }),
                }
            },
            other => other,
        }
    }

    /// Where a wait on `id` goes: the signal to await, or the interrupt
    /// backend's id. `id` must route without a violation.
    pub fn wait_on(&self, id: u64) -> (r: Route)
        requires
            self.wf(),
            self.route_of(Op::Wait, id) is Ok,
        ensures
            self.route_of(Op::Wait, id) == Ok::<Route, NotifyError>(r),
    {
        match self.route(Op::Wait, id) {
            Ok(route) => route,
            Err(_) => Route::Interrupt(0),
        }
    }

    /// What ringing `id` in process `process` takes. `id` must route without
    /// a violation.
    pub fn notify(&self, process: u64, id: u64) -> (r: Delivery)
        requires
            self.wf(),
            self.route_of(Op::Notify, id) is Ok,
        ensures
            match self.route_of(Op::Notify, id) {
                Ok(Route::Signal(s)) => r == Delivery::Signal(Kill { pid: process as i32, signal: s }),
                Ok(Route::Interrupt(inner)) => r == (Delivery::Interrupt { process, id: inner }),
                Err(_) => false,
            },
    {
        match self.route(Op::Notify, id) {
            Ok(Route::Signal(s)) => Delivery::Signal(Kill { pid: process as i32, signal: s }),
            Ok(Route::Interrupt(inner)) => Delivery::Interrupt { process, id: inner },
            Err(_) => Delivery::Interrupt { process, id: 0 },
        }
    }

    /// Releases `id`, which must be releasable (see `check_release`). A
    /// signal handle's slot is freed here and nothing else of the pool
    /// changes; an interrupt handle is routed to its backend and the signal
    /// pool stays as it was.
    pub fn release_id(&mut self, id: u64) -> (r: Route)
        requires
            old(self).wf(),
            old(self).release_route_of(id) is Ok,
        ensures
            final(self).wf(),
            old(self).release_route_of(id) == Ok::<Route, NotifyError>(r),
            final(self).signals().pool() == old(self).signals().pool(),
            final(self).signals().cursor() == old(self).signals().cursor(),
            final(self).signals().span() == old(self).signals().span(),
            match r {
                Route::Signal(_) => final(self).signals().occupied() == old(
                    self,
                ).signals().occupied().remove(inner_of(id)),
                Route::Interrupt(_) => final(self).signals() == old(self).signals(),
            },
    {
        match self.route(Op::Release, id) {
            Ok(Route::Signal(s)) => {
                let (_, inner) = decode(id);
                self.signal.release_id(inner);
                Route::Signal(s)
            },
            Ok(Route::Interrupt(inner)) => Route::Interrupt(inner),
            Err(_) => Route::Interrupt(0),
        }
    }
}

} // verus!
