//! Interests, event sets and the event loop that watches descriptors.
use vstd::prelude::*;
use crate::io::event::{filter_of, timer_record, watch_record, Event};
use crate::io::kevent::{EventFilter, KEvent, EV_ADD, EV_DELETE};

verus! {

/// What a descriptor is watched for.
#[derive(Clone, Copy, Debug, PartialEq, Eq, Structural)]
pub enum Interest {
    Read,
    Write,
}

/// A descriptor together with what it is watched for.
pub struct Identifier {
    fd: i32,
    filter: Interest,
}

impl View for Identifier {
    type V = (i32, Interest);

    closed spec fn view(&self) -> (i32, Interest) {
        (self.fd, self.filter)
    }
}

impl Identifier {
    /// Pairs a descriptor with an interest.
    pub fn new(fd: i32, interest: Interest) -> (id: Identifier)
        ensures
            id@ == (fd, interest),
    {
        Identifier { fd: fd, filter: interest }
    }

    /// The watched descriptor.
    pub fn get_fd(&self) -> (fd: i32)
        ensures
            fd == self@.0,
    {
        self.fd
    }

    /// Whether the descriptor is watched for reading.
    pub fn readable(&self) -> (b: bool)
        ensures
            b == (self@.1 == Interest::Read),
    {
        match self.filter {
            Interest::Read => true,
            _ => false,
        }
    }

    /// Whether the descriptor is watched for writing.
    pub fn writable(&self) -> (b: bool)
        ensures
            b == (self@.1 == Interest::Write),
    {
        match self.filter {
            Interest::Write => true,
            _ => false,
        }
    }
}

/// The readiness bits of a fired event and the amount of data it reports.
pub struct EventSet(usize, usize);

impl View for EventSet {
    type V = (usize, usize);

    closed spec fn view(&self) -> (usize, usize) {
        (self.0, self.1)
    }
}

/// Bit of a readable event set.
pub open spec fn readable_bit() -> usize {
    0x001
}

/// Bit of a writable event set.
pub open spec fn writable_bit() -> usize {
    0x002
}

/// Whether readiness bits `k` have the readable bit.
pub open spec fn bits_readable(k: usize) -> bool {
    k & readable_bit() == readable_bit()
}

/// Whether readiness bits `k` have the writable bit.
pub open spec fn bits_writable(k: usize) -> bool {
    k & writable_bit() == writable_bit()
}

/// The three kinds of event set are told apart by `is_readable` and
/// `is_writable`: a readable set is not writable, a writable set is not
/// readable, and a fresh set is neither.
pub proof fn lemma_event_set_kinds()
    ensures
        bits_readable(readable_bit()),
        !bits_writable(readable_bit()),
        bits_writable(writable_bit()),
        !bits_readable(writable_bit()),
        !bits_readable(0),
        !bits_writable(0),
{
    assert(0x001usize & 0x001usize == 0x001usize) by (bit_vector);
    assert(0x001usize & 0x002usize != 0x002usize) by (bit_vector);
    assert(0x002usize & 0x002usize == 0x002usize) by (bit_vector);
    assert(0x002usize & 0x001usize != 0x001usize) by (bit_vector);
    assert(0usize & 0x001usize != 0x001usize) by (bit_vector);
    assert(0usize & 0x002usize != 0x002usize) by (bit_vector);
}

impl EventSet {
    /// An event set that is neither readable nor writable, with no data.
    pub fn new() -> (s: EventSet)
        ensures
            s@ == (0usize, 0usize),
    {
        EventSet(0, 0)
    }

    /// A readable event set with no data.
    pub fn readable() -> (s: EventSet)
        ensures
            s@ == (readable_bit(), 0usize),
    {
        EventSet(0x001, 0)
    }

    /// A writable event set with no data.
    pub fn writable() -> (s: EventSet)
        ensures
            s@ == (writable_bit(), 0usize),
    {
        EventSet(0x002, 0)
    }

    /// Records the amount of data the event reports.
    pub fn set_data(&mut self, data: usize)
        ensures
            final(self)@ == (old(self)@.0, data),
    {
        self.1 = data;
    }

    /// The amount of data the event reports.
    pub fn get_data(&self) -> (d: usize)
        ensures
            d == self@.1,
    {
        self.1
    }

    /// Whether the readable bit is set.
    pub fn is_readable(&self) -> (b: bool)
        ensures
            b == bits_readable(self@.0),
    {
        self.0 & 0x001 == 0x001
    }

    /// Whether the writable bit is set.
    pub fn is_writable(&self) -> (b: bool)
        ensures
            b == bits_writable(self@.0),
    {
        self.0 & 0x002 == 0x002
    }

    /// Error events are not told apart yet: this does nothing.
    pub fn is_error(&self) {
    }
}

/// Reacts to the events that the event loop hands out.
///
/// A handler keeps, as spec values, the log of the events it has been
/// handed and the log of the change records it has made on the event loop:
/// each call of `ready` adds the event it is given to the end of the first,
/// and the changes it records on the loop, and no others, to the end of
/// the second. A handler that Verus checks defines both logs; the defaults,
/// empty logs, are there only so that handlers outside Verus need not name
/// them.
pub trait Handler {
    /// The events this handler has been handed so far, oldest first: for
    /// each, its descriptor and its event set.
    closed spec fn received(&self) -> Seq<(i32, (usize, usize))> {
        Seq::empty()
    }

    /// The change records this handler has made on the event loop so far,
    /// oldest first.
    closed spec fn queued(&self) -> Seq<KEvent> {
        Seq::empty()
    }

    /// Called once for each fired event of descriptor `id`; it may record
    /// changes on `event_loop`, and does nothing else to it.
    fn ready(&mut self, id: i32, ev_set: EventSet, event_loop: &mut EventLoop)
        ensures
            final(self).received() == old(self).received().push((id, ev_set@)),
            old(self).queued().len() <= final(self).queued().len(),
            final(self).queued().take(old(self).queued().len() as int) == old(self).queued(),
            final(event_loop)@ == (EventLoopView {
                pending: old(event_loop)@.pending + final(self).queued().skip(old(self).queued().len() as int),
                ..old(event_loop)@
            }),
    ;
}

/// When a log `q1` extends `q0` and `q2` extends `q1`, `q2` extends `q0`,
/// and what `q2` adds to `q0` is what `q1` added followed by what `q2` added.
pub(crate) proof fn lemma_log_extends(q0: Seq<KEvent>, q1: Seq<KEvent>, q2: Seq<KEvent>)
    requires
        q0.len() <= q1.len(),
        q1.take(q0.len() as int) == q0,
        q1.len() <= q2.len(),
        q2.take(q1.len() as int) == q1,
    ensures
        q0.len() <= q2.len(),
        q2.take(q0.len() as int) == q0,
        q2.skip(q0.len() as int) == q1.skip(q0.len() as int) + q2.skip(q1.len() as int),
{
    assert(q2.take(q0.len() as int) =~= q0) by {
        assert forall|i: int| 0 <= i < q0.len() implies q2[i] == q0[i] by {
            assert(q2.take(q1.len() as int)[i] == q2[i]);
            assert(q1.take(q0.len() as int)[i] == q1[i]);
        }
    }
    assert(q2.skip(q0.len() as int) =~= q1.skip(q0.len() as int) + q2.skip(q1.len() as int)) by {
        assert forall|i: int| q0.len() <= i < q1.len() implies q2[i] == q1[i] by {
            assert(q2.take(q1.len() as int)[i] == q2[i]);
        }
    }
}

/// The events that the fired records `fired` are handed out as, in order:
/// each record's identifier as a descriptor, with its event set.
pub open spec fn handed_out(fired: Seq<KEvent>) -> Seq<(i32, (usize, usize))> {
    fired.map_values(|k: KEvent| (k.ident as i32, event_set_of_record(k)))
}

/// The loop hands out one event per fired record, in order, and event `i`
/// carries record `i`'s own identifier as its descriptor. Its event set is
/// readable, and carries the record's data, exactly for a read record; it
/// is writable exactly for a write record; otherwise it is neither and
/// carries no data.
pub proof fn lemma_handed_out(fired: Seq<KEvent>)
    ensures
        handed_out(fired).len() == fired.len(),
        forall|i: int| 0 <= i < fired.len() ==> {
            let (id, s) = #[trigger] handed_out(fired)[i];
            &&& id == fired[i].ident as i32
            &&& bits_readable(s.0) == (fired[i].filter == EventFilter::Read)
            &&& bits_writable(s.0) == (fired[i].filter == EventFilter::Write)
            &&& fired[i].filter == EventFilter::Read ==> s.1 == fired[i].data as usize
            &&& fired[i].filter != EventFilter::Read ==> s.1 == 0
        },
{
    lemma_event_set_kinds();
}

/// The record that removes the watch of descriptor `fd` with `filter`.
pub open spec fn unwatch_record(fd: i32, filter: EventFilter) -> KEvent {
    KEvent { flags: EV_DELETE, ..watch_record(fd, filter) }
}

/// The watches in `w` once the change record `k` has been applied: a
/// record with the delete flag removes the watch of its descriptor and
/// filter, one with the add flag adds it, and any other leaves `w` as it is.
pub open spec fn apply_change(w: Set<(usize, EventFilter)>, k: KEvent) -> Set<(usize, EventFilter)> {
    if k.flags & EV_DELETE == EV_DELETE {
        w.remove((k.ident, k.filter))
    } else if k.flags & EV_ADD == EV_ADD {
        w.insert((k.ident, k.filter))
    } else {
        w
    }
}

/// The watches in `w` once the change records `cs` have been applied in order.
pub open spec fn apply_changes(w: Set<(usize, EventFilter)>, cs: Seq<KEvent>) -> Set<(usize, EventFilter)>
    decreases cs.len(),
{
    if cs.len() == 0 {
        w
    } else {
        apply_change(apply_changes(w, cs.drop_last()), cs.last())
    }
}

/// Applying two runs of change records one after the other is applying
/// their concatenation.
pub proof fn lemma_apply_changes_concat(w: Set<(usize, EventFilter)>, a: Seq<KEvent>, b: Seq<KEvent>)
    ensures
        apply_changes(w, a + b) == apply_changes(apply_changes(w, a), b),
    decreases b.len(),
{
    if b.len() == 0 {
        assert(a + b =~= a);
    } else {
        assert((a + b).drop_last() =~= a + b.drop_last());
        lemma_apply_changes_concat(w, a, b.drop_last());
    }
}

/// A watch record adds the watch of its descriptor and filter; an unwatch
/// record removes it.
pub proof fn lemma_watch_unwatch(w: Set<(usize, EventFilter)>, fd: i32, f: EventFilter)
    ensures
        apply_change(w, watch_record(fd, f)) == w.insert((fd as usize, f)),
        apply_change(w, unwatch_record(fd, f)) == w.remove((fd as usize, f)),
{
    assert((0x0001u16 | 0x0004u16) & 0x0002u16 != 0x0002u16) by (bit_vector);
    assert((0x0001u16 | 0x0004u16) & 0x0001u16 == 0x0001u16) by (bit_vector);
    assert(0x0002u16 & 0x0002u16 == 0x0002u16) by (bit_vector);
}

/// The readiness bits and data that a fired record `k` is handed out with.
pub open spec fn event_set_of_record(k: KEvent) -> (usize, usize) {
    match k.filter {
        EventFilter::Read => (readable_bit(), k.data as usize),
        EventFilter::Write => (writable_bit(), 0usize),
        _ => (0usize, 0usize),
    }
}

/// The abstract state of an event loop: the queue's descriptor, the
/// records it polls into, and the changes made since they were last taken.
pub struct EventLoopView {
    pub kqueue: i32,
    pub slots: Seq<KEvent>,
    pub pending: Seq<KEvent>,
}

/// Watches descriptors through a kernel event queue.
///
/// Registrations are recorded in order as change records; whoever drives the
/// queue takes them with `take_changes` and hands them to the kernel.
pub struct EventLoop {
    kqueue: i32,
    ev_list: Vec<KEvent>,
    changes: Vec<KEvent>,
}

impl View for EventLoop {
    type V = EventLoopView;

    closed spec fn view(&self) -> EventLoopView {
        EventLoopView { kqueue: self.kqueue, slots: self.ev_list@, pending: self.changes@ }
    }
}

impl EventLoop {
    /// An event loop over the kernel queue `kqueue`, polling one event at a
    /// time, with no pending change.
    pub fn new(kqueue: i32) -> (el: EventLoop)
        ensures
            el@.kqueue == kqueue,
            el@.slots == seq![timer_record(0, 0)],
            el@.pending == Seq::<KEvent>::empty(),
    {
        let mut ev_list = Vec::new();
        ev_list.push(Event::new_timer_event(0, 0).kevent);
        EventLoop { kqueue: kqueue, ev_list: ev_list, changes: Vec::new() }
    }

    /// The kernel queue's descriptor.
    pub fn kqueue(&self) -> (fd: i32)
        ensures
            fd == self@.kqueue,
    {
        self.kqueue
    }

    /// How many events one poll can hand out.
    pub fn capacity(&self) -> (n: usize)
        ensures
            n == self@.slots.len(),
    {
        self.ev_list.len()
    }

    fn ev_register(&mut self, event: Event)
        ensures
            final(self)@ == (EventLoopView {
                pending: old(self)@.pending.push(event.kevent),
                ..old(self)@
            }),
    {
        self.changes.push(event.kevent);
    }

    /// Starts watching `id`'s descriptor for what `id` is interested in.
    pub fn register(&mut self, id: &Identifier)
        ensures
            final(self)@ == (EventLoopView {
                pending: old(self)@.pending.push(watch_record(id@.0, filter_of(id@.1))),
                ..old(self)@
            }),
    {
        let event = Event::new(id);
        self.ev_register(event);
    }

    /// Changing a watch in place is not supported: this does nothing.
    pub fn reregister() {
    }

    /// Stops watching `id`'s descriptor for what `id` is interested in.
    pub fn deregister(&mut self, id: &Identifier)
        ensures
            final(self)@ == (EventLoopView {
                pending: old(self)@.pending.push(unwatch_record(id@.0, filter_of(id@.1))),
                ..old(self)@
            }),
    {
        let mut event = Event::new(id);
        event.ev_set_delete();
        self.ev_register(event);
    }

    /// Takes the change records made since the last call, oldest first.
    pub fn take_changes(&mut self) -> (changes: Vec<KEvent>)
        ensures
            changes@ == old(self)@.pending,
            final(self)@ == (EventLoopView { pending: Seq::<KEvent>::empty(), ..old(self)@ }),
    {
        let mut changes = Vec::new();
        std::mem::swap(&mut changes, &mut self.changes);
        changes
    }

    /// The event set that a fired record is handed to the handler with:
    /// a read record gives a readable set carrying the record's data, a
    /// write record a writable set, any other an empty set.
    pub fn event_set_of(k: &KEvent) -> (s: EventSet)
        ensures
            s@ == event_set_of_record(*k),
    {
        match k.filter {
            EventFilter::Read => {
                let mut ev_set = EventSet::readable();
                ev_set.set_data(k.data as usize);
                ev_set
            },
            EventFilter::Write => EventSet::writable(),
            _ => EventSet::new(),
        }
    }

    /// Hands each record that one poll of the loop fired (at most as many
    /// as the loop has slots), in order, to `handler` together with its
    /// descriptor and event set.
    pub fn run<H: Handler>(&mut self, fired: &Vec<KEvent>, handler: &mut H)
        requires
            fired@.len() <= old(self)@.slots.len(),
        ensures
            final(handler).received() == old(handler).received() + handed_out(fired@),
            old(handler).queued().len() <= final(handler).queued().len(),
            final(handler).queued().take(old(handler).queued().len() as int) == old(handler).queued(),
            final(self)@ == (EventLoopView {
                pending: old(self)@.pending + final(handler).queued().skip(old(handler).queued().len() as int),
                ..old(self)@
            }),
    {
        let n = fired.len();
        proof {
            assert(handler.queued().take(handler.queued().len() as int) =~= handler.queued());
            assert(self@.pending + handler.queued().skip(handler.queued().len() as int) =~= self@.pending);
        }
        for i in 0..n
            invariant
                n == fired.len(),
                handler.received() == old(handler).received() + handed_out(fired@.take(i as int)),
                old(handler).queued().len() <= handler.queued().len(),
                handler.queued().take(old(handler).queued().len() as int) == old(handler).queued(),
                self@ == (EventLoopView {
                    pending: old(self)@.pending + handler.queued().skip(old(handler).queued().len() as int),
                    ..old(self)@
                }),
        {
            let ev_set = Self::event_set_of(&fired[i]);
            let id = fired[i].ident as i32;
            let ghost q1 = handler.queued();
            handler.ready(id, ev_set, self);
            proof {
                lemma_log_extends(old(handler).queued(), q1, handler.queued());
                assert(self@.pending =~= old(self)@.pending + handler.queued().skip(old(handler).queued().len() as int));
            }
            assert(handed_out(fired@.take(i + 1)) =~= handed_out(fired@.take(i as int)).push(
                (fired@[i as int].ident as i32, event_set_of_record(fired@[i as int])),
            ));
        }
        assert(fired@.take(n as int) =~= fired@);
    }
}

} // verus!
