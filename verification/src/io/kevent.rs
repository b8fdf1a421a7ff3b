//! A plain model of a kqueue event record.
use vstd::prelude::*;

verus! {

/// Flag: add the event to the queue.
pub const EV_ADD: u16 = 0x0001;

/// Flag: remove the event from the queue.
pub const EV_DELETE: u16 = 0x0002;

/// Flag: enable the event.
pub const EV_ENABLE: u16 = 0x0004;

/// Flag set by the kernel on an error record.
pub const EV_ERROR: u16 = 0x4000;

/// The filter of an event record: what condition it watches.
#[derive(Clone, Copy, Debug, PartialEq, Eq, Hash, Structural)]
pub enum EventFilter {
    Read,
    Write,
    Timer,
    Other,
}

/// One kevent record, its fields held as plain values.
#[derive(Clone, Copy, Debug, PartialEq, Eq, Structural)]
pub struct KEvent {
    pub ident: usize,
    pub filter: EventFilter,
    pub flags: u16,
    pub fflags: u32,
    pub data: isize,
    pub udata: usize,
}

} // verus!
