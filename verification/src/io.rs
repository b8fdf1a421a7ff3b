//! Kernel event queue records and the event loops that watch descriptors.
//!
//! This module holds the first form of the event loop, whose handlers get
//! the raw event record; `notification` holds the form whose handlers get
//! an `EventSet`, and `event` the records that form registers.
pub mod event;
pub mod kevent;
pub mod notification;
use vstd::prelude::*;
use crate::io::event::{flags_have_error, timer_record, watch_record};
use crate::io::kevent::{EventFilter, KEvent, EV_ADD, EV_DELETE, EV_ENABLE, EV_ERROR};
use crate::io::notification::{EventLoopView, lemma_log_extends};

verus! {

/// How many events one poll of the first-form event loop can hand out.
pub const MAX_EVENT_COUNT: usize = 1024;

/// Reacts to the event records that the event loop hands out.
///
/// A handler keeps, as spec values, the log of the records it has been
/// handed and the log of the change records it has made on the event loop:
/// each call of `ready` adds the record it is given to the end of the
/// first, and the changes it records on the loop, and no others, to the end
/// of the second. A handler that Verus checks defines both logs; the
/// defaults, empty logs, are there only so that handlers outside Verus need
/// not name them.
pub trait Handler {
    /// The records this handler has been handed so far, oldest first, each
    /// with its descriptor.
    closed spec fn received(&self) -> Seq<(i32, KEvent)> {
        Seq::empty()
    }

    /// The change records this handler has made on the event loop so far,
    /// oldest first.
    closed spec fn queued(&self) -> Seq<KEvent> {
        Seq::empty()
    }

    /// Called once for each fired record of descriptor `id`; it may record
    /// changes on `event_loop`, and does nothing else to it.
    fn ready(&mut self, id: i32, event: Event, event_loop: &mut EventLoop)
        ensures
            final(self).received() == old(self).received().push((id, event@)),
            old(self).queued().len() <= final(self).queued().len(),
            final(self).queued().take(old(self).queued().len() as int) == old(self).queued(),
            final(event_loop)@ == (EventLoopView {
                pending: old(event_loop)@.pending + final(self).queued().skip(old(self).queued().len() as int),
                ..old(event_loop)@
            }),
    ;
}

/// The records `fired` as they are handed out, in order: each with its
/// identifier as a descriptor.
pub open spec fn records_handed_out(fired: Seq<KEvent>) -> Seq<(i32, KEvent)> {
    fired.map_values(|k: KEvent| (k.ident as i32, k))
}

/// The first-form loop hands out one entry per fired record, in order, and
/// entry `i` carries record `i` itself, unchanged, with that record's own
/// identifier as its descriptor.
pub proof fn lemma_records_handed_out(fired: Seq<KEvent>)
    ensures
        records_handed_out(fired).len() == fired.len(),
        forall|i: int| 0 <= i < fired.len() ==> {
            &&& (#[trigger] records_handed_out(fired)[i]).0 == fired[i].ident as i32
            &&& records_handed_out(fired)[i].1 == fired[i]
        },
{
}

/// An event record of the first-form event loop.
pub struct Event {
    kevent: KEvent,
}

impl View for Event {
    type V = KEvent;

    closed spec fn view(&self) -> KEvent {
        self.kevent
    }
}

impl Event {
    fn new(kevent: KEvent) -> (e: Event)
        ensures
            e@ == kevent,
    {
        Event { kevent: kevent }
    }

    /// The record's data, truncated to 32 bits.
    pub fn get_data(&self) -> (d: u32)
        ensures
            d == self@.data as u32,
    {
        self.kevent.data as u32
    }

    /// Whether the record watches for reading.
    pub fn is_readable(&self) -> (b: bool)
        ensures
            b == (self@.filter == EventFilter::Read),
    {
        self.kevent.filter == EventFilter::Read
    }

    /// Whether the record watches for writing.
    pub fn is_writable(&self) -> (b: bool)
        ensures
            b == (self@.filter == EventFilter::Write),
    {
        self.kevent.filter == EventFilter::Write
    }

    /// Whether the kernel marked the record as an error.
    pub fn is_error(&self) -> (b: bool)
        ensures
            b == flags_have_error(self@.flags),
    {
        (self.kevent.flags & EV_ERROR) == EV_ERROR
    }

    /// Hang-up is not told apart yet: this does nothing.
    pub fn is_hup(&self) {
    }

    fn ev_set_add(&mut self)
        ensures
            final(self)@ == (KEvent { flags: EV_ADD | EV_ENABLE, ..old(self)@ }),
    {
        self.kevent.flags = EV_ADD | EV_ENABLE;
    }

    fn ev_set_delete(&mut self)
        ensures
            final(self)@ == (KEvent { flags: EV_DELETE, ..old(self)@ }),
    {
        self.kevent.flags = EV_DELETE;
    }

    /// The record that adds and enables a read watch of the socket `fd`.
    pub fn new_socket_event(fd: i32) -> (e: Event)
        ensures
            e@ == watch_record(fd, EventFilter::Read),
    {
        let new_event = KEvent {
            ident: fd as usize,
            filter: EventFilter::Read,
            flags: EV_ADD | EV_ENABLE,
            fflags: 0,
            data: 0,
            udata: 0,
        };
        Event { kevent: new_event }
    }

    /// A timer record with identifier `id` that fires every `timer` milliseconds.
    pub fn new_timer_event(id: usize, timer: isize) -> (e: Event)
        ensures
            e@ == timer_record(id, timer),
    {
        let new_event = KEvent {
            ident: id,
            filter: EventFilter::Timer,
            flags: EV_ADD | EV_ENABLE,
            fflags: 0,
            data: timer,
            udata: 0,
        };
        Event { kevent: new_event }
    }
}

/// The first-form event loop: watches descriptors through a kernel event
/// queue and hands fired records to a handler as they are.
///
/// Registrations are recorded in order as change records; whoever drives the
/// queue takes them with `take_changes` and hands them to the kernel.
pub struct EventLoop {
    kqueue: i32,
    ev_list: Vec<KEvent>,
    changes: Vec<KEvent>,
}

impl View for EventLoop {
    type V = EventLoopView;

    closed spec fn view(&self) -> EventLoopView {
        EventLoopView { kqueue: self.kqueue, slots: self.ev_list@, pending: self.changes@ }
    }
}

impl EventLoop {
    /// An event loop over the kernel queue `kqueue`, polling up to
    /// `MAX_EVENT_COUNT` events at a time, with no pending change.
    pub fn new(kqueue: i32) -> (el: EventLoop)
        ensures
            el@.kqueue == kqueue,
            el@.slots.len() == MAX_EVENT_COUNT,
            forall|i: int| 0 <= i < MAX_EVENT_COUNT ==> #[trigger] el@.slots[i] == timer_record(0, 0),
            el@.pending == Seq::<KEvent>::empty(),
    {
        let timer = Event::new_timer_event(0, 0).kevent;
        let mut ev_list: Vec<KEvent> = Vec::new();
        for i in 0..MAX_EVENT_COUNT
            invariant
                ev_list@.len() == i,
                timer == timer_record(0, 0),
                forall|j: int| 0 <= j < i ==> #[trigger] ev_list@[j] == timer_record(0, 0),
        {
            ev_list.push(timer);
        }
        EventLoop { kqueue: kqueue, ev_list: ev_list, changes: Vec::new() }
    }

    /// The kernel queue's descriptor.
    pub fn kqueue(&self) -> (fd: i32)
        ensures
            fd == self@.kqueue,
    {
        self.kqueue
    }

    /// How many events one poll can hand out.
    pub fn capacity(&self) -> (n: usize)
        ensures
            n == self@.slots.len(),
    {
        self.ev_list.len()
    }

    /// Marks `event` as one that adds and enables its watch and records it
    /// as a change.
    pub fn register(&mut self, event: &mut Event)
        ensures
            final(event)@ == (KEvent { flags: EV_ADD | EV_ENABLE, ..old(event)@ }),
            final(self)@ == (EventLoopView { pending: old(self)@.pending.push(final(event)@), ..old(self)@ }),
    {
        event.ev_set_add();
        self.changes.push(event.kevent);
    }

    /// Starts watching the socket `fd` for reading.
    pub fn register_socket(&mut self, fd: i32)
        ensures
            final(self)@ == (EventLoopView {
                pending: old(self)@.pending.push(watch_record(fd, EventFilter::Read)),
                ..old(self)@
            }),
    {
        let mut event: Event = Event::new_socket_event(fd);
        self.register(&mut event);
    }

    /// Changing a watch in place is not supported: this does nothing.
    pub fn reregister() {
    }

    /// Marks `event` as one that removes its watch and records it as a change.
    pub fn deregister(&mut self, event: &mut Event)
        ensures
            final(event)@ == (KEvent { flags: EV_DELETE, ..old(event)@ }),
            final(self)@ == (EventLoopView { pending: old(self)@.pending.push(final(event)@), ..old(self)@ }),
    {
        event.ev_set_delete();
        self.changes.push(event.kevent);
    }

    /// Stops watching the socket `fd` for reading.
    pub fn deregister_socket(&mut self, fd: i32)
        ensures
            final(self)@ == (EventLoopView {
                pending: old(self)@.pending.push(KEvent { flags: EV_DELETE, ..watch_record(fd, EventFilter::Read) }),
                ..old(self)@
            }),
    {
        let mut event = Event::new_socket_event(fd);
        self.deregister(&mut event);
    }

    /// Takes the change records made since the last call, oldest first.
    pub fn take_changes(&mut self) -> (changes: Vec<KEvent>)
        ensures
            changes@ == old(self)@.pending,
            final(self)@ == (EventLoopView { pending: Seq::<KEvent>::empty(), ..old(self)@ }),
    {
        let mut changes = Vec::new();
        std::mem::swap(&mut changes, &mut self.changes);
        changes
    }

    /// Hands each record that one poll of the loop fired (at most as many
    /// as the loop has slots), in order and unchanged, to `handler` together
    /// with its descriptor.
    pub fn run<H: Handler>(&mut self, fired: &Vec<KEvent>, handler: &mut H)
        requires
            fired@.len() <= old(self)@.slots.len(),
        ensures
            final(handler).received() == old(handler).received() + records_handed_out(fired@),
            old(handler).queued().len() <= final(handler).queued().len(),
            final(handler).queued().take(old(handler).queued().len() as int) == old(handler).queued(),
            final(self)@ == (EventLoopView {
                pending: old(self)@.pending + final(handler).queued().skip(old(handler).queued().len() as int),
                ..old(self)@
            }),
    {
        let n = fired.len();
        proof {
            assert(handler.queued().take(handler.queued().len() as int) =~= handler.queued());
            assert(self@.pending + handler.queued().skip(handler.queued().len() as int) =~= self@.pending);
        }
        for i in 0..n
            invariant
                n == fired.len(),
                handler.received() == old(handler).received() + records_handed_out(fired@.take(i as int)),
                old(handler).queued().len() <= handler.queued().len(),
                handler.queued().take(old(handler).queued().len() as int) == old(handler).queued(),
                self@ == (EventLoopView {
                    pending: old(self)@.pending + handler.queued().skip(old(handler).queued().len() as int),
                    ..old(self)@
                }),
        {
            let k = fired[i];
            let id = k.ident as i32;
            let ghost q1 = handler.queued();
            handler.ready(id, Event::new(k), self);
            proof {
                lemma_log_extends(old(handler).queued(), q1, handler.queued());
                assert(self@.pending =~= old(self)@.pending + handler.queued().skip(old(handler).queued().len() as int));
            }
            assert(records_handed_out(fired@.take(i + 1)) =~= records_handed_out(
                fired@.take(i as int),
            ).push((k.ident as i32, k)));
        }
        assert(fired@.take(n as int) =~= fired@);
    }
}

} // verus!
