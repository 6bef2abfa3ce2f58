use vstd::prelude::*;
use vstd::layout::size_of;
use vstd::utf8::encode_utf8;
use crate::errors::Error;
use crate::ident::IDENTIFIER_LIMIT;
use crate::region::NamedRegion;

verus! {

/// The abstract state of a one-slot signalling channel: the pending value,
/// if any, and whether the wake-up event is signaled.
pub struct ChannelView<T> {
    pub slot: Option<T>,
    pub signaled: bool,
}

/// Sending overwrites whatever was pending and signals the event; it never
/// blocks and never fails.
pub open spec fn spec_send<T>(s: ChannelView<T>, v: T) -> ChannelView<T> {
    ChannelView { slot: Some(v), signaled: true }
}

/// Receiving takes the pending value, if any, and clears the event; with
/// nothing pending it changes nothing.
pub open spec fn spec_try_recv<T>(s: ChannelView<T>) -> (ChannelView<T>, Option<T>) {
    match s.slot {
        Some(v) => (ChannelView { slot: None, signaled: false }, Some(v)),
        None => (s, None),
    }
}

/// One-slot delivery: after a send, a single receive returns exactly the
/// sent value, and a second receive returns nothing.
pub proof fn lemma_send_then_try_recv<T>(s: ChannelView<T>, v: T)
    ensures
        spec_try_recv(spec_send(s, v)).1 == Some(v),
        spec_try_recv(spec_try_recv(spec_send(s, v)).0).1 is None,
{
}

/// Overwrite on send: of two sends before a receive, only the second value
/// is ever delivered.
pub proof fn lemma_send_overwrites<T>(s: ChannelView<T>, v1: T, v2: T)
    ensures
        spec_try_recv(spec_send(spec_send(s, v1), v2)).1 == Some(v2),
{
}

/// A double send wakes the receiver exactly once: after the single
/// delivery the event is clear and nothing is pending, so the next receive
/// returns nothing.
pub proof fn lemma_double_send_single_wake<T>(s: ChannelView<T>, v1: T, v2: T)
    ensures
        !spec_try_recv(spec_send(spec_send(s, v1), v2)).0.signaled,
        spec_try_recv(spec_send(spec_send(s, v1), v2)).0.slot is None,
        spec_try_recv(spec_try_recv(spec_send(spec_send(s, v1), v2)).0).1 is None,
{
}

/// The in-process form of the channel state machine. The cross-process
/// channel keeps the same three words in shared memory and steps them with
/// [`try_recv_step`] and [`recv_wake_step`] under its mutex.
pub struct ChannelCell<T> {
    slot: Option<T>,
    signaled: bool,
}

impl<T> View for ChannelCell<T> {
    type V = ChannelView<T>;

    closed spec fn view(&self) -> ChannelView<T> {
        ChannelView { slot: self.slot, signaled: self.signaled }
    }
}

impl<T: Copy> ChannelCell<T> {
    /// A channel with nothing pending, as a freshly created zero-filled
    /// region reads.
    pub fn empty() -> (r: ChannelCell<T>)
        ensures
            r@ == (ChannelView { slot: None::<T>, signaled: false }),
    {
        ChannelCell { slot: None, signaled: false }
    }

    /// Stores the value, overwriting any unread one, and signals.
    pub fn send(&mut self, data: &T)
        ensures
            final(self)@ == spec_send(old(self)@, *data),
    {
        self.slot = Some(*data);
        self.signaled = true;
    }

    /// Takes the pending value, if any, clearing the event with it.
    pub fn try_recv(&mut self) -> (r: Option<T>)
        ensures
            final(self)@ == spec_try_recv(old(self)@).0,
            r == spec_try_recv(old(self)@).1,
    {
        match self.slot {
            Some(v) => {
                self.slot = None;
                self.signaled = false;
                Some(v)
            },
            None => None,
        }
    }

    /// One wake of a blocking receive, given whether a termination signal
    /// has arrived since the wait began.
    pub fn recv_wake(&mut self, termination_requested: bool) -> (r: RecvStep<T>)
        ensures
            termination_requested ==> r is Terminate && final(self)@ == old(self)@,
            !termination_requested ==> final(self)@ == spec_try_recv(old(self)@).0,
            !termination_requested ==> r == match spec_try_recv(old(self)@).1 {
                Some(v) => RecvStep::Deliver(v),
                None => RecvStep::KeepWaiting,
            },
    {
        if termination_requested {
            return RecvStep::Terminate;
        }
        match self.try_recv() {
            Some(v) => RecvStep::Deliver(v),
            None => RecvStep::KeepWaiting,
        }
    }
}

/// What one wake of the blocking receive decides.
#[derive(Clone, Copy, Debug, PartialEq, Eq, Structural)]
pub enum RecvStep<T> {
    /// A value was pending; hand it to the caller.
    Deliver(T),
    /// A termination signal arrived; the process must stop cleanly instead
    /// of waiting on.
    Terminate,
    /// Spurious wake with nothing pending; wait again.
    KeepWaiting,
}

/// What a receive does to the payload slot: the slot's new content, whether
/// the event must be cleared, and the value taken.
#[derive(Clone, Copy, Debug, PartialEq, Eq, Structural)]
pub struct TryRecvStep<T> {
    pub new_slot: Option<T>,
    pub clear_event: bool,
    pub taken: Option<T>,
}

/// The receive step on a bare payload slot, for the process glue that holds
/// the slot in shared memory: empty the slot, clear the event exactly when
/// something was pending, return what was pending.
pub fn try_recv_step<T: Copy>(slot: Option<T>) -> (r: TryRecvStep<T>)
    ensures
        r.new_slot is None,
        r.taken == slot,
        r.clear_event == (slot is Some),
{
    match slot {
        Some(v) => TryRecvStep { new_slot: None, clear_event: true, taken: Some(v) },
        None => TryRecvStep { new_slot: None, clear_event: false, taken: None },
    }
}

/// Applying [`try_recv_step`] to the slot of any channel state performs
/// exactly the receive transition of the model.
pub proof fn lemma_try_recv_step_models<T>(s: ChannelView<T>, r: TryRecvStep<T>)
    requires
        r.new_slot is None,
        r.taken == s.slot,
        r.clear_event == (s.slot is Some),
    ensures
        (ChannelView {
            slot: r.new_slot,
            signaled: if r.clear_event {
                false
            } else {
                s.signaled
            },
        }) == spec_try_recv(s).0,
        r.taken == spec_try_recv(s).1,
{
}

/// The decision of one wake of the blocking receive, on bare values, for
/// the process glue: a termination request ends the process before
/// anything else; otherwise a pending value is delivered; otherwise the
/// wait continues.
pub fn recv_wake_step<T: Copy>(termination_requested: bool, slot: Option<T>) -> (r: RecvStep<T>)
    ensures
        termination_requested ==> r is Terminate,
        !termination_requested ==> (slot matches Some(v) ==> r == RecvStep::Deliver(v)),
        !termination_requested && slot is None ==> r is KeepWaiting,
{
    if termination_requested {
        RecvStep::Terminate
    } else {
        match slot {
            Some(v) => RecvStep::Deliver(v),
            None => RecvStep::KeepWaiting,
        }
    }
}

/// Relies on raw_sync::events::Event::size_of(None): the byte size of the
/// event header placed at the start of a channel region.
#[verifier::external_body]
fn event_header_size() -> (r: usize) {
    <raw_sync::events::Event as raw_sync::events::EventInit>::size_of(None)
}

/// Relies on raw_sync::locks::Mutex::size_of(None): the byte size of the
/// mutex header placed after the event header of a channel region.
#[verifier::external_body]
fn mutex_header_size() -> (r: usize) {
    <raw_sync::locks::Mutex as raw_sync::locks::LockInit>::size_of(None)
}

/// Shared memory between two processes holding a `T` behind a
/// cross-process mutex.
pub fn shared_memory_with_mutex<T>(is_owner: bool, identifier: String) -> (r: Result<
    MutexRegion<T>,
    Error,
>)
    ensures
        r matches Ok(m) ==> m.id() == identifier@ && m.owner() == is_owner,
        r matches Ok(m) ==> m.spec_mutex_bytes() as nat + size_of::<T>()
            <= m.spec_region_size() as nat,
        r matches Ok(m) ==> is_owner ==> m.spec_region_size() as nat
            == m.spec_mutex_bytes() as nat + size_of::<T>(),
        encode_utf8(identifier@).len() >= IDENTIFIER_LIMIT as nat <==> r == Err::<
            MutexRegion<T>,
            Error,
        >(Error::IdentifierTooLong),
        r matches Err(e) ==> (e == Error::IdentifierTooLong || e == Error::AllocationFailed || (
        !is_owner && e == Error::NotFound)),
{
    MutexRegion::new(is_owner, identifier)
}

/// A cross-process channel with a familiar one-slot send/receive API: its
/// backing region, ready for the event, the mutex and the payload slot.
pub fn shared_channel<T: Copy>(is_owner: bool, identifier: String) -> (r: Result<
    ChannelRegion<T>,
    Error,
>)
    ensures
        r matches Ok(c) ==> c.id() == identifier@ && c.owner() == is_owner,
        r matches Ok(c) ==> c.spec_event_bytes() as nat + c.spec_mutex_bytes() as nat + size_of::<
            Option<T>,
        >() <= c.spec_region_size() as nat,
        r matches Ok(c) ==> is_owner ==> c.spec_region_size() as nat == c.spec_event_bytes() as nat
            + c.spec_mutex_bytes() as nat + size_of::<Option<T>>(),
        encode_utf8(identifier@).len() >= IDENTIFIER_LIMIT as nat <==> r == Err::<
            ChannelRegion<T>,
            Error,
        >(Error::IdentifierTooLong),
        r matches Err(e) ==> (e == Error::IdentifierTooLong || e == Error::AllocationFailed || (
        !is_owner && e == Error::NotFound)),
{
    ChannelRegion::new(is_owner, identifier)
}

/// The backing region of a mutex-guarded shared value of `T`, laid out as
/// mutex header, then the value. The process glue constructs the mutex in
/// place, at the byte offsets this handle reports, and serializes access to
/// the value with it.
pub struct MutexRegion<T> {
    region: NamedRegion,
    mutex_bytes: usize,
    elem: core::marker::PhantomData<T>,
}

impl<T> MutexRegion<T> {
    /// The mutex header and the guarded value always fit inside the
    /// backing region.
    #[verifier::type_invariant]
    pub closed spec fn wf(&self) -> bool {
        self.mutex_bytes as nat + size_of::<T>() <= self.region.spec_size() as nat
    }

    /// The OS name backing this value.
    pub closed spec fn id(&self) -> Seq<char> {
        self.region.id()
    }

    /// Whether this side created the region.
    pub closed spec fn owner(&self) -> bool {
        self.region.spec_owner()
    }

    /// The byte size of the backing region.
    pub closed spec fn spec_region_size(&self) -> usize {
        self.region.spec_size()
    }

    /// The bytes reserved for the mutex header at the region's base; the
    /// guarded value sits right after them.
    pub closed spec fn spec_mutex_bytes(&self) -> usize {
        self.mutex_bytes
    }

    /// Creates (owner) or opens (reloadable) the region under `identifier`,
    /// sized for exactly the mutex header and the guarded value.
    pub fn new(is_owner: bool, identifier: String) -> (r: Result<MutexRegion<T>, Error>)
        ensures
            r matches Ok(m) ==> m.id() == identifier@ && m.owner() == is_owner,
            r matches Ok(m) ==> m.spec_mutex_bytes() as nat + size_of::<T>()
                <= m.spec_region_size() as nat,
            r matches Ok(m) ==> is_owner ==> m.spec_region_size() as nat
                == m.spec_mutex_bytes() as nat + size_of::<T>(),
            encode_utf8(identifier@).len() >= IDENTIFIER_LIMIT as nat <==> r == Err::<
                MutexRegion<T>,
                Error,
            >(Error::IdentifierTooLong),
            r matches Err(e) ==> (e == Error::IdentifierTooLong || e == Error::AllocationFailed
                || (!is_owner && e == Error::NotFound)),
    {
        if !crate::ident::identifier_fits(identifier.as_str()) {
            return Err(Error::IdentifierTooLong);
        }
        let mutex_bytes = mutex_header_size();
        let bytes = match mutex_bytes.checked_add(core::mem::size_of::<T>()) {
            Some(b) => b,
            None => {
                return Err(Error::AllocationFailed);
            },
        };
        if is_owner {
            match NamedRegion::create(identifier, bytes) {
                Ok(region) => Ok(
                    MutexRegion { region, mutex_bytes, elem: core::marker::PhantomData },
                ),
                Err(e) => Err(e),
            }
        } else {
            match NamedRegion::open(identifier) {
                Ok(region) => {
                    if bytes <= region.size() {
                        Ok(MutexRegion { region, mutex_bytes, elem: core::marker::PhantomData })
                    } else {
                        Err(Error::AllocationFailed)
                    }
                },
                Err(e) => Err(e),
            }
        }
    }

    /// The bytes reserved for the mutex header at the region's base.
    pub fn mutex_header_bytes(&self) -> (r: usize)
        ensures
            r == self.spec_mutex_bytes(),
    {
        self.mutex_bytes
    }

    /// The backing region.
    pub fn region(&self) -> (r: &NamedRegion)
        ensures
            r.id() == self.id(),
            r.spec_owner() == self.owner(),
            r.spec_size() == self.spec_region_size(),
            self.spec_mutex_bytes() as nat + size_of::<T>() <= r.spec_size() as nat,
    {
        proof {
            use_type_invariant(self);
        }
        &self.region
    }
}

/// The backing region of a cross-process channel of `T`, laid out as event
/// header, then mutex header, then the `Option<T>` payload slot, at the
/// byte offsets this handle reports. The process glue constructs the two
/// synchronization primitives in place and runs the channel protocol on
/// the slot.
pub struct ChannelRegion<T: Copy> {
    region: NamedRegion,
    event_bytes: usize,
    mutex_bytes: usize,
    elem: core::marker::PhantomData<T>,
}

impl<T: Copy> ChannelRegion<T> {
    /// Both headers and the payload slot always fit inside the backing
    /// region.
    #[verifier::type_invariant]
    pub closed spec fn wf(&self) -> bool {
        self.event_bytes as nat + self.mutex_bytes as nat + size_of::<Option<T>>()
            <= self.region.spec_size() as nat
    }

    /// The OS name backing this channel.
    pub closed spec fn id(&self) -> Seq<char> {
        self.region.id()
    }

    /// Whether this side created the region.
    pub closed spec fn owner(&self) -> bool {
        self.region.spec_owner()
    }

    /// The byte size of the backing region.
    pub closed spec fn spec_region_size(&self) -> usize {
        self.region.spec_size()
    }

    /// The bytes reserved for the event header at the region's base; the
    /// mutex header sits right after them.
    pub closed spec fn spec_event_bytes(&self) -> usize {
        self.event_bytes
    }

    /// The bytes reserved for the mutex header; the payload slot sits
    /// right after both headers.
    pub closed spec fn spec_mutex_bytes(&self) -> usize {
        self.mutex_bytes
    }

    /// Creates (owner) or opens (reloadable) the channel region under
    /// `identifier`, sized for exactly the event header, the mutex header
    /// and the payload slot.
    pub fn new(is_owner: bool, identifier: String) -> (r: Result<ChannelRegion<T>, Error>)
        ensures
            r matches Ok(c) ==> c.id() == identifier@ && c.owner() == is_owner,
            r matches Ok(c) ==> c.spec_event_bytes() as nat + c.spec_mutex_bytes() as nat
                + size_of::<Option<T>>() <= c.spec_region_size() as nat,
            r matches Ok(c) ==> is_owner ==> c.spec_region_size() as nat
                == c.spec_event_bytes() as nat + c.spec_mutex_bytes() as nat + size_of::<
                Option<T>,
            >(),
            encode_utf8(identifier@).len() >= IDENTIFIER_LIMIT as nat <==> r == Err::<
                ChannelRegion<T>,
                Error,
            >(Error::IdentifierTooLong),
            r matches Err(e) ==> (e == Error::IdentifierTooLong || e == Error::AllocationFailed
                || (!is_owner && e == Error::NotFound)),
    {
        if !crate::ident::identifier_fits(identifier.as_str()) {
            return Err(Error::IdentifierTooLong);
        }
        let event_bytes = event_header_size();
        let mutex_bytes = mutex_header_size();
        let headers = match event_bytes.checked_add(mutex_bytes) {
            Some(b) => b,
            None => {
                return Err(Error::AllocationFailed);
            },
        };
        let bytes = match headers.checked_add(core::mem::size_of::<Option<T>>()) {
            Some(b) => b,
            None => {
                return Err(Error::AllocationFailed);
            },
        };
        if is_owner {
            match NamedRegion::create(identifier, bytes) {
                Ok(region) => Ok(
                    ChannelRegion {
                        region,
                        event_bytes,
                        mutex_bytes,
                        elem: core::marker::PhantomData,
                    },
                ),
                Err(e) => Err(e),
            }
        } else {
            match NamedRegion::open(identifier) {
                Ok(region) => {
                    if bytes <= region.size() {
                        Ok(
                            ChannelRegion {
                                region,
                                event_bytes,
                                mutex_bytes,
                                elem: core::marker::PhantomData,
                            },
                        )
                    } else {
                        Err(Error::AllocationFailed)
                    }
                },
                Err(e) => Err(e),
            }
        }
    }

    /// The bytes reserved for the event header at the region's base.
    pub fn event_header_bytes(&self) -> (r: usize)
        ensures
            r == self.spec_event_bytes(),
    {
        self.event_bytes
    }

    /// The bytes reserved for the mutex header after the event header.
    pub fn mutex_header_bytes(&self) -> (r: usize)
        ensures
            r == self.spec_mutex_bytes(),
    {
        self.mutex_bytes
    }

    /// The backing region.
    pub fn region(&self) -> (r: &NamedRegion)
        ensures
            r.id() == self.id(),
            r.spec_owner() == self.owner(),
            r.spec_size() == self.spec_region_size(),
            self.spec_event_bytes() as nat + self.spec_mutex_bytes() as nat + size_of::<
                Option<T>,
            >() <= r.spec_size() as nat,
    {
        proof {
            use_type_invariant(self);
        }
        &self.region
    }
}

} // verus!
