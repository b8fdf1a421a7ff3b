use carbon::io;
use carbon::io::event::Event;
use carbon::io::kevent::{EventFilter, KEvent, EV_ADD, EV_DELETE, EV_ENABLE, EV_ERROR};
use carbon::io::notification::{EventLoop, EventSet, Handler, Identifier, Interest};

#[test]
fn event_set_kinds() {
    let n = EventSet::new();
    assert!(!n.is_readable() && !n.is_writable());
    assert_eq!(n.get_data(), 0);
    let r = EventSet::readable();
    assert!(r.is_readable() && !r.is_writable());
    let w = EventSet::writable();
    assert!(w.is_writable() && !w.is_readable());
    w.is_error();
}

#[test]
fn event_set_data_read_back() {
    let mut r = EventSet::readable();
    r.set_data(4096);
    assert_eq!(r.get_data(), 4096);
    assert!(r.is_readable());
}

#[test]
fn identifier_interest() {
    let i = Identifier::new(7, Interest::Read);
    assert_eq!(i.get_fd(), 7);
    assert!(i.readable() && !i.writable());
    let j = Identifier::new(8, Interest::Write);
    assert!(j.writable() && !j.readable());
}

#[test]
fn event_records() {
    let e = Event::new(&Identifier::new(7, Interest::Write));
    assert_eq!(
        e.kevent,
        KEvent { ident: 7, filter: EventFilter::Write, flags: EV_ADD | EV_ENABLE, fflags: 0, data: 0, udata: 0 }
    );
    assert!(e.is_writable() && !e.is_readable() && !e.is_error());
    let mut d = Event::new(&Identifier::new(7, Interest::Read));
    d.ev_set_delete();
    assert_eq!(d.kevent.flags, EV_DELETE);
    d.ev_set_write();
    assert_eq!(d.kevent.filter, EventFilter::Write);
    assert_eq!(d.kevent.flags, EV_ADD | EV_ENABLE);
    d.ev_set_add();
    assert_eq!(d.kevent.flags, EV_ADD | EV_ENABLE);
    d.is_hup();
    let t = Event::new_timer_event(3, 250);
    assert_eq!(t.kevent.filter, EventFilter::Timer);
    assert_eq!(t.kevent.data, 250);
    let big = Event::new_from_kevent(KEvent { data: 0x1_0000_0005, flags: EV_ERROR, ..t.kevent });
    assert_eq!(big.get_data(), 5);
    assert!(big.is_error());
}

#[test]
fn event_set_of_fired_records() {
    let k = KEvent { ident: 5, filter: EventFilter::Read, flags: 0, fflags: 0, data: 12, udata: 0 };
    let s = EventLoop::event_set_of(&k);
    assert!(s.is_readable());
    assert_eq!(s.get_data(), 12);
    let w = EventLoop::event_set_of(&KEvent { filter: EventFilter::Write, ..k });
    assert!(w.is_writable());
    assert_eq!(w.get_data(), 0);
    let t = EventLoop::event_set_of(&KEvent { filter: EventFilter::Timer, ..k });
    assert!(!t.is_readable() && !t.is_writable());
}

struct Recorder {
    seen: Vec<(i32, bool, usize)>,
}

impl Handler for Recorder {
    fn ready(&mut self, id: i32, ev_set: EventSet, event_loop: &mut EventLoop) {
        self.seen.push((id, ev_set.is_readable(), ev_set.get_data()));
        event_loop.register(&Identifier::new(id, Interest::Write));
    }
}

#[test]
fn run_hands_out_fired_events_in_order() {
    let mut el = EventLoop::new(3);
    assert_eq!(el.capacity(), 1);
    EventLoop::reregister();
    let first = vec![KEvent { ident: 5, filter: EventFilter::Read, flags: 0, fflags: 0, data: 9, udata: 0 }];
    let second = vec![KEvent { ident: 6, filter: EventFilter::Write, flags: 0, fflags: 0, data: 0, udata: 0 }];
    let mut h = Recorder { seen: Vec::new() };
    el.run(&first, &mut h);
    el.run(&second, &mut h);
    el.run(&Vec::new(), &mut h);
    assert_eq!(h.seen, vec![(5, true, 9), (6, false, 0)]);
    assert_eq!(el.take_changes().len(), 2);
    el.deregister(&Identifier::new(5, Interest::Read));
    assert_eq!(el.take_changes()[0].flags, EV_DELETE);
}

struct OldRecorder {
    seen: Vec<(i32, bool)>,
}

impl io::Handler for OldRecorder {
    fn ready(&mut self, id: i32, event: io::Event, event_loop: &mut io::EventLoop) {
        self.seen.push((id, event.is_readable()));
        event_loop.register_socket(id);
    }
}

#[test]
fn first_form_event_loop() {
    let mut el = io::EventLoop::new(4);
    assert_eq!(el.capacity(), io::MAX_EVENT_COUNT);
    assert_eq!(el.kqueue(), 4);
    let mut e = io::Event::new_socket_event(11);
    el.deregister(&mut e);
    el.register(&mut e);
    el.deregister_socket(12);
    let changes = el.take_changes();
    assert_eq!(changes.len(), 3);
    assert_eq!(changes[0].flags, EV_DELETE);
    assert_eq!(changes[1].flags, EV_ADD | EV_ENABLE);
    assert_eq!(changes[2].ident, 12);
    let fired = vec![KEvent { ident: 11, filter: EventFilter::Read, flags: 0, fflags: 0, data: 3, udata: 0 }];
    let mut h = OldRecorder { seen: Vec::new() };
    el.run(&fired, &mut h);
    assert_eq!(h.seen, vec![(11, true)]);
    assert_eq!(el.take_changes().len(), 1);
    let t = io::Event::new_timer_event(1, 5);
    assert!(!t.is_readable() && !t.is_writable() && !t.is_error());
    assert_eq!(t.get_data(), 5);
    t.is_hup();
    io::EventLoop::reregister();
}
