//! An event record that registers or removes a watched descriptor.
use vstd::prelude::*;
use crate::io::kevent::{EventFilter, KEvent, EV_ADD, EV_DELETE, EV_ENABLE, EV_ERROR};
use crate::io::notification::{Identifier, Interest};

verus! {

/// The record that watches descriptor `fd` with `filter`, to be added and enabled.
pub open spec fn watch_record(fd: i32, filter: EventFilter) -> KEvent {
    KEvent {
        ident: fd as usize,
        filter: filter,
        flags: EV_ADD | EV_ENABLE,
        fflags: 0,
        data: 0,
        udata: 0,
    }
}

/// The filter that watches for `interest`.
pub open spec fn filter_of(interest: Interest) -> EventFilter {
    match interest {
        Interest::Read => EventFilter::Read,
        Interest::Write => EventFilter::Write,
    }
}

/// The timer record with identifier `id` that fires every `timer` milliseconds.
pub open spec fn timer_record(id: usize, timer: isize) -> KEvent {
    KEvent {
        ident: id,
        filter: EventFilter::Timer,
        flags: EV_ADD | EV_ENABLE,
        fflags: 0,
        data: timer,
        udata: 0,
    }
}

/// Whether error flag is set in `flags`.
pub open spec fn flags_have_error(flags: u16) -> bool {
    flags & EV_ERROR == EV_ERROR
}

/// A change or a fired event, as one kevent record.
pub struct Event {
    pub kevent: KEvent,
}

impl Event {
    /// The record that adds and enables a watch of `id`'s descriptor for
    /// what `id` is interested in.
    pub fn new(id: &Identifier) -> (e: Event)
        ensures
            e.kevent == watch_record(id@.0, filter_of(id@.1)),
    {
        let mut kevent = Event::new_kevent(&id.get_fd());
        if id.readable() {
            kevent.filter = EventFilter::Read;
            Event { kevent: kevent }
        } else {
            kevent.filter = EventFilter::Write;
            Event { kevent: kevent }
        }
    }

    /// Wraps a record as it is.
    pub fn new_from_kevent(kevent: KEvent) -> (e: Event)
        ensures
            e.kevent == kevent,
    {
        Event { kevent: kevent }
    }

    /// The record's data, truncated to 32 bits.
    pub fn get_data(&self) -> (d: u32)
        ensures
            d == self.kevent.data as u32,
    {
        self.kevent.data as u32
    }

    /// Whether the record watches for reading.
    pub fn is_readable(&self) -> (b: bool)
        ensures
            b == (self.kevent.filter == EventFilter::Read),
    {
        self.kevent.filter == EventFilter::Read
    }

    /// Whether the record watches for writing.
    pub fn is_writable(&self) -> (b: bool)
        ensures
            b == (self.kevent.filter == EventFilter::Write),
    {
        self.kevent.filter == EventFilter::Write
    }

    /// Whether the kernel marked the record as an error.
    pub fn is_error(&self) -> (b: bool)
        ensures
            b == flags_have_error(self.kevent.flags),
    {
        (self.kevent.flags & EV_ERROR) == EV_ERROR
    }

    /// Hang-up is not told apart yet: this does nothing.
    pub fn is_hup(&self) {
    }

    /// Marks the record as one that adds and enables its watch.
    pub fn ev_set_add(&mut self)
        ensures
            final(self).kevent == (KEvent { flags: EV_ADD | EV_ENABLE, ..old(self).kevent }),
    {
        self.kevent.flags = EV_ADD | EV_ENABLE;
    }

    /// Turns the record into one that adds and enables a watch for writing.
    pub fn ev_set_write(&mut self)
        ensures
            final(self).kevent == (KEvent {
                filter: EventFilter::Write,
                flags: EV_ADD | EV_ENABLE,
                ..old(self).kevent
            }),
    {
        self.kevent.filter = EventFilter::Write;
        self.kevent.flags = EV_ADD | EV_ENABLE;
    }

    /// Marks the record as one that removes its watch.
    pub fn ev_set_delete(&mut self)
        ensures
            final(self).kevent == (KEvent { flags: EV_DELETE, ..old(self).kevent }),
    {
        self.kevent.flags = EV_DELETE;
    }

    /// The record that adds and enables a read watch of descriptor `id`.
    fn new_kevent(id: &i32) -> (k: KEvent)
        ensures
            k == watch_record(*id, EventFilter::Read),
    {
        KEvent {
            ident: *id as usize,
            filter: EventFilter::Read,
            flags: EV_ADD | EV_ENABLE,
            fflags: 0,
            data: 0,
            udata: 0,
        }
    }

    /// A timer record with identifier `id` that fires every `timer` milliseconds.
    pub fn new_timer_event(id: usize, timer: isize) -> (e: Event)
        ensures
            e.kevent == timer_record(id, timer),
    {
        let new_event = KEvent {
            ident: id,
            filter: EventFilter::Timer,
            flags: EV_ADD | EV_ENABLE,
            fflags: 0,
            data: timer,
            udata: 0,
        };
        Event { kevent: new_event }
    }
}

} // verus!
