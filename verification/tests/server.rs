use carbon::io::kevent::{EventFilter, KEvent, EV_ADD, EV_DELETE, EV_ENABLE};
use carbon::io::notification::{EventLoop, EventSet};
use carbon::server::{Client, Dispatcher, Message, Server, Step};
use carbon::service::Service;

struct Echo;

impl Service for Echo {
    fn ready(&mut self, message: Message) -> Message {
        let mut reply = Message::new();
        reply.write(b"echo:");
        reply.write(&message.buf);
        reply
    }
}

fn change(fd: usize, filter: EventFilter, flags: u16) -> KEvent {
    KEvent { ident: fd, filter, flags, fflags: 0, data: 0, udata: 0 }
}

#[test]
fn message_basics() {
    let mut m = Message::new();
    assert_eq!(m.length(), 0);
    assert_eq!(m.write(b"ab"), 2);
    assert_eq!(m.write(b"c"), 1);
    assert_eq!(m.length(), 3);
    assert_eq!(m.to_str(), "abc");
    m.flush();
    assert_eq!(m.buf, b"abc".to_vec());
}

#[test]
fn client_sends_last_queued_first() {
    let mut c = Client::new();
    assert!(c.write_message().is_none());
    c.send_message(Message { buf: b"one".to_vec() });
    c.send_message(Message { buf: b"two".to_vec() });
    assert_eq!(c.write_message().unwrap().buf, b"two".to_vec());
    assert_eq!(c.write_message().unwrap().buf, b"one".to_vec());
    assert!(c.write_message().is_none());
}

#[test]
fn decide_steps() {
    let d = Dispatcher::new(3, Echo);
    assert_eq!(d.as_raw_fd(), 3);
    assert_eq!(d.decide(3, &EventSet::readable()), Step::Accept);
    let mut r = EventSet::readable();
    assert_eq!(d.decide(5, &r), Step::Close(5));
    r.set_data(17);
    assert_eq!(d.decide(5, &r), Step::Receive(5, 17));
    assert_eq!(d.decide(5, &EventSet::writable()), Step::Send(5));
    assert_eq!(d.decide(5, &EventSet::new()), Step::Idle);
}

#[test]
fn connection_lifecycle() {
    let mut el = EventLoop::new(9);
    let mut d = Dispatcher::new(3, Echo);
    d.accept(5, &mut el);
    assert!(d.has_connection(5));
    assert!(!d.has_connection(6));
    d.respond(5, Message { buf: b"hi".to_vec() }, &mut el);
    let out = d.send(5, &mut el).unwrap();
    assert_eq!(out.buf, b"echo:hi".to_vec());
    assert!(d.send(5, &mut el).is_none());
    d.close(5, &mut el);
    assert!(!d.has_connection(5));
    let add = EV_ADD | EV_ENABLE;
    assert_eq!(
        el.take_changes(),
        vec![
            change(5, EventFilter::Read, add),
            change(5, EventFilter::Read, EV_DELETE),
            change(5, EventFilter::Write, add),
            change(5, EventFilter::Write, EV_DELETE),
            change(5, EventFilter::Read, add),
            change(5, EventFilter::Write, EV_DELETE),
            change(5, EventFilter::Read, add),
            change(5, EventFilter::Read, EV_DELETE),
            change(5, EventFilter::Write, EV_DELETE),
        ]
    );
    assert!(el.take_changes().is_empty());
}

#[test]
fn queued_reply_is_sent_next() {
    let mut el = EventLoop::new(9);
    let mut d = Dispatcher::new(3, Echo);
    d.accept(8, &mut el);
    d.queue_reply(8, Message { buf: b"first".to_vec() }, &mut el);
    d.queue_reply(8, Message { buf: b"second".to_vec() }, &mut el);
    assert_eq!(d.send(8, &mut el).unwrap().buf, b"second".to_vec());
    assert_eq!(d.send(8, &mut el).unwrap().buf, b"first".to_vec());
}

#[test]
fn server_initialize_watches_listener() {
    let mut s = Server::new(9, 4, Echo);
    s.initialize();
    assert_eq!(s.event_loop.kqueue(), 9);
    assert_eq!(s.event_loop.take_changes(), vec![change(4, EventFilter::Read, EV_ADD | EV_ENABLE)]);
}

fn apply(watched: &mut std::collections::HashSet<(usize, EventFilter)>, changes: Vec<KEvent>) {
    for k in changes {
        if k.flags & EV_DELETE == EV_DELETE {
            watched.remove(&(k.ident, k.filter));
        } else if k.flags & EV_ADD == EV_ADD {
            watched.insert((k.ident, k.filter));
        }
    }
}

fn watched_dirs(watched: &std::collections::HashSet<(usize, EventFilter)>, fd: usize) -> (bool, bool) {
    (watched.contains(&(fd, EventFilter::Read)), watched.contains(&(fd, EventFilter::Write)))
}

#[test]
fn each_connection_watched_one_way_at_a_time() {
    let mut s = Server::new(9, 4, Echo);
    let mut watched = std::collections::HashSet::new();
    s.initialize();
    apply(&mut watched, s.event_loop.take_changes());
    assert_eq!(watched_dirs(&watched, 4), (true, false));
    s.dispatcher.accept(5, &mut s.event_loop);
    s.dispatcher.accept(6, &mut s.event_loop);
    apply(&mut watched, s.event_loop.take_changes());
    assert_eq!(watched_dirs(&watched, 5), (true, false));
    s.dispatcher.respond(5, Message { buf: b"x".to_vec() }, &mut s.event_loop);
    apply(&mut watched, s.event_loop.take_changes());
    assert_eq!(watched_dirs(&watched, 5), (false, true));
    assert_eq!(watched_dirs(&watched, 6), (true, false));
    let _ = s.dispatcher.send(5, &mut s.event_loop);
    apply(&mut watched, s.event_loop.take_changes());
    assert_eq!(watched_dirs(&watched, 5), (true, false));
    s.dispatcher.close(6, &mut s.event_loop);
    apply(&mut watched, s.event_loop.take_changes());
    assert_eq!(watched_dirs(&watched, 6), (false, false));
    assert_eq!(watched_dirs(&watched, 4), (true, false));
}

#[test]
fn fired_records_to_steps() {
    let d = Dispatcher::new(3, Echo);
    let k = KEvent { ident: 7, filter: EventFilter::Read, flags: 0, fflags: 0, data: 0, udata: 0 };
    assert_eq!(d.decide(7, &EventLoop::event_set_of(&k)), Step::Close(7));
    let k2 = KEvent { data: 300, ..k };
    assert_eq!(d.decide(7, &EventLoop::event_set_of(&k2)), Step::Receive(7, 300));
    let k3 = KEvent { filter: EventFilter::Write, ..k };
    assert_eq!(d.decide(7, &EventLoop::event_set_of(&k3)), Step::Send(7));
    let k4 = KEvent { filter: EventFilter::Timer, ..k };
    assert_eq!(d.decide(7, &EventLoop::event_set_of(&k4)), Step::Idle);
    assert_eq!(d.decide(3, &EventLoop::event_set_of(&k4)), Step::Accept);
}

#[test]
fn take_byte_reads_until_count_or_end() {
    let mut m = Message::new();
    assert_eq!(m.take_byte(Some(b'a'), 3), Some(2));
    assert_eq!(m.take_byte(Some(b'b'), 2), Some(1));
    assert_eq!(m.take_byte(Some(b'c'), 1), None);
    assert_eq!(m.buf, b"abc".to_vec());
    let mut e = Message::new();
    assert_eq!(e.take_byte(None, 5), None);
    assert_eq!(e.length(), 0);
}
