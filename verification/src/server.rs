//! Messages, clients and the dispatcher that decides what each fired event
//! means for the listening socket and the accepted connections.
use vstd::prelude::*;
use std::collections::HashMap;
use vstd::utf8::{encode_utf8, valid_utf8};
use crate::io::kevent::KEvent;
use crate::io::notification::{
    EventLoop, EventLoopView, EventSet, Identifier, Interest, apply_changes, bits_readable,
    bits_writable, event_set_of_record, lemma_event_set_kinds, lemma_watch_unwatch,
    lemma_apply_changes_concat, unwatch_record,
};
use crate::io::event::{timer_record, watch_record};
use crate::io::kevent::EventFilter;
use crate::service::Service;

verus! {

broadcast use vstd::std_specs::hash::group_hash_axioms;

/// A block of bytes received from or sent to a client.
#[derive(Clone, Debug)]
pub struct Message {
    pub buf: Vec<u8>,
}

/// Decodes `bytes` as UTF-8.
///
/// Calls `std::str::from_utf8`; the contract claims what its documentation
/// says: it succeeds exactly on valid UTF-8, and the text it gives back has
/// `bytes` as its encoding.
#[verifier::external_body]
fn utf8_str(bytes: &[u8]) -> (r: Option<&str>)
    ensures
        r is Some <==> valid_utf8(bytes@),
        r matches Some(s) ==> encode_utf8(s@) == bytes@,
{
    std::str::from_utf8(bytes).ok()
}

impl Message {
    /// An empty message.
    pub fn new() -> (m: Message)
        ensures
            m.buf@ == Seq::<u8>::empty(),
    {
        Message { buf: Vec::new() }
    }

    /// The number of bytes in the message.
    pub fn length(&self) -> (n: usize)
        ensures
            n == self.buf@.len(),
    {
        self.buf.len()
    }

    /// Appends `buf` to the message and reports how many bytes were taken:
    /// all of them.
    pub fn write(&mut self, buf: &[u8]) -> (n: usize)
        ensures
            final(self).buf@ == old(self).buf@ + buf@,
            n == buf@.len(),
    {
        self.buf.extend_from_slice(buf);
        assert(self.buf@ =~= old(self).buf@ + buf@);
        buf.len()
    }

    /// One step of reading a message byte by byte, with `count` bytes still
    /// wanted: appends `byte` if the read gave one. Gives the number of
    /// bytes still wanted after this one, or `None` when reading stops
    /// (the read gave no byte, or this was the last byte wanted).
    pub fn take_byte(&mut self, byte: Option<u8>, count: u32) -> (next: Option<u32>)
        requires
            count > 0,
        ensures
            final(self).buf@ == (match byte {
                Some(c) => old(self).buf@.push(c),
                None => old(self).buf@,
            }),
            next == (if byte is None || count == 1 { None::<u32> } else { Some((count - 1) as u32) }),
    {
        let count = count - 1;
        match byte {
            Some(c) => {
                self.buf.push(c);
            },
            None => {
                return None;
            },
        }
        if count == 0 {
            None
        } else {
            Some(count)
        }
    }

    /// Nothing is buffered outside the message: this does nothing.
    pub fn flush(&mut self)
        ensures
            final(self).buf@ == old(self).buf@,
    {
    }

    /// The message read as UTF-8 text.
    pub fn to_str(&self) -> (s: &str)
        requires
            valid_utf8(self.buf@),
        ensures
            encode_utf8(s@) == self.buf@,
    {
        match utf8_str(self.buf.as_slice()) {
            Some(s) => s,
            None => {
                assert(false);
                ""
            },
        }
    }
}

/// The bytes of each message in `msgs`, in order.
pub open spec fn message_bytes(msgs: Seq<Message>) -> Seq<Seq<u8>> {
    msgs.map_values(|m: Message| m.buf@)
}

/// An accepted connection's queue of messages waiting to be sent.
pub struct Client {
    send_queue: Vec<Message>,
}

impl View for Client {
    type V = Seq<Seq<u8>>;

    closed spec fn view(&self) -> Seq<Seq<u8>> {
        message_bytes(self.send_queue@)
    }
}

impl Client {
    /// A client with nothing waiting to be sent.
    pub fn new() -> (c: Client)
        ensures
            c@ == Seq::<Seq<u8>>::empty(),
    {
        let c = Client { send_queue: Vec::with_capacity(1024) };
        assert(c@ =~= Seq::<Seq<u8>>::empty());
        c
    }

    /// Queues `message` to be sent.
    pub fn send_message(&mut self, message: Message)
        ensures
            final(self)@ == old(self)@.push(message.buf@),
    {
        self.send_queue.push(message);
        assert(self@ =~= old(self)@.push(message.buf@));
    }

    /// Takes the message to be written next: the one queued last.
    pub fn write_message(&mut self) -> (m: Option<Message>)
        ensures
            old(self)@.len() == 0 ==> m is None && final(self)@ == old(self)@,
            old(self)@.len() > 0 ==> (m matches Some(msg) && msg.buf@ == old(self)@.last()
                && final(self)@ == old(self)@.drop_last()),
    {
        let m = self.send_queue.pop();
        proof {
            if old(self)@.len() > 0 {
                assert(self@ =~= old(self)@.drop_last());
            }
        }
        m
    }
}

/// What the dispatcher decides a fired event calls for.
#[derive(Clone, Copy, Debug, PartialEq, Eq, Structural)]
pub enum Step {
    /// The listening socket is ready: accept a new connection.
    Accept,
    /// The connection has been closed by its peer.
    Close(i32),
    /// The connection has this many bytes to be read as a request.
    Receive(i32, u32),
    /// The connection can be written to.
    Send(i32),
    /// Nothing to do.
    Idle,
}

/// The step that an event on descriptor `id` with readiness bits `k` and
/// data `data` calls for, where `listener` is the listening descriptor.
pub open spec fn step_for(listener: i32, id: i32, k: usize, data: usize) -> Step {
    if id == listener {
        Step::Accept
    } else if bits_readable(k) {
        if data == 0 {
            Step::Close(id)
        } else {
            Step::Receive(id, data as u32)
        }
    } else if bits_writable(k) {
        Step::Send(id)
    } else {
        Step::Idle
    }
}

/// The change records that stop watching `fd` for reading and start
/// watching it for writing.
pub open spec fn read_to_write(fd: i32) -> Seq<KEvent> {
    seq![unwatch_record(fd, EventFilter::Read), watch_record(fd, EventFilter::Write)]
}

/// The change records that stop watching `fd` for writing and start
/// watching it for reading.
pub open spec fn write_to_read(fd: i32) -> Seq<KEvent> {
    seq![unwatch_record(fd, EventFilter::Write), watch_record(fd, EventFilter::Read)]
}

/// The change records that stop watching `fd` altogether.
pub open spec fn unwatch_all(fd: i32) -> Seq<KEvent> {
    seq![unwatch_record(fd, EventFilter::Read), unwatch_record(fd, EventFilter::Write)]
}

/// A server: the event loop that watches its descriptors and the
/// dispatcher that decides what each event calls for.
pub struct Server<T: Service> {
    pub event_loop: EventLoop,
    pub dispatcher: Dispatcher<T>,
}

impl<T: Service> Server<T> {
    /// A server on the kernel queue `kqueue` and the listening descriptor
    /// `listener`, whose requests `service` answers; nothing is watched yet
    /// and there is no connection.
    pub fn new(kqueue: i32, listener: i32, service: T) -> (s: Server<T>)
        ensures
            s.event_loop@.kqueue == kqueue,
            s.event_loop@.slots == seq![timer_record(0, 0)],
            s.event_loop@.pending == Seq::<KEvent>::empty(),
            s.dispatcher.listener() == listener,
            s.dispatcher.queues() == Map::<i32, Seq<Seq<u8>>>::empty(),
            s.dispatcher.service() == service,
    {
        Server { event_loop: EventLoop::new(kqueue), dispatcher: Dispatcher::new(listener, service) }
    }

    /// Starts watching the listening descriptor for incoming connections.
    pub fn initialize(&mut self)
        ensures
            final(self).event_loop@ == with_changes(
                old(self).event_loop@,
                seq![watch_record(old(self).dispatcher.listener(), EventFilter::Read)],
            ),
            final(self).dispatcher == old(self).dispatcher,
    {
        let identifier = Identifier::new(self.dispatcher.as_raw_fd(), Interest::Read);
        self.event_loop.register(&identifier);
        assert(self.event_loop@.pending =~= old(self).event_loop@.pending
            + seq![watch_record(old(self).dispatcher.listener(), EventFilter::Read)]);
    }
}

/// How the watches of a connection move through its life. Accepting `fd`
/// watches it for reading; answering a request (`respond`, `queue_reply`)
/// trades the read watch for a write watch; sending (`send`) trades it
/// back; closing drops both. Whatever was watched before, after any of these
/// steps the connection is watched for at most one direction, and the
/// watches of every other descriptor are as they were.
pub proof fn lemma_connection_watches(w: Set<(usize, EventFilter)>, fd: i32)
    ensures
        apply_changes(w, seq![watch_record(fd, EventFilter::Read)])
            == w.insert((fd as usize, EventFilter::Read)),
        apply_changes(w, read_to_write(fd))
            == w.remove((fd as usize, EventFilter::Read)).insert((fd as usize, EventFilter::Write)),
        apply_changes(w, write_to_read(fd))
            == w.remove((fd as usize, EventFilter::Write)).insert((fd as usize, EventFilter::Read)),
        apply_changes(w, unwatch_all(fd))
            == w.remove((fd as usize, EventFilter::Read)).remove((fd as usize, EventFilter::Write)),
{
    reveal_with_fuel(apply_changes, 3);
    let r = watch_record(fd, EventFilter::Read);
    assert(seq![r].drop_last() =~= Seq::<KEvent>::empty());
    lemma_watch_unwatch(w, fd, EventFilter::Read);
    let rw = read_to_write(fd);
    assert(rw.drop_last() =~= seq![unwatch_record(fd, EventFilter::Read)]);
    assert(rw.drop_last().drop_last() =~= Seq::<KEvent>::empty());
    lemma_watch_unwatch(w.remove((fd as usize, EventFilter::Read)), fd, EventFilter::Write);
    let wr = write_to_read(fd);
    assert(wr.drop_last() =~= seq![unwatch_record(fd, EventFilter::Write)]);
    assert(wr.drop_last().drop_last() =~= Seq::<KEvent>::empty());
    lemma_watch_unwatch(w, fd, EventFilter::Write);
    lemma_watch_unwatch(w.remove((fd as usize, EventFilter::Write)), fd, EventFilter::Read);
    let ua = unwatch_all(fd);
    assert(ua.drop_last() =~= seq![unwatch_record(fd, EventFilter::Read)]);
    assert(ua.drop_last().drop_last() =~= Seq::<KEvent>::empty());
    lemma_watch_unwatch(w.remove((fd as usize, EventFilter::Read)), fd, EventFilter::Write);
}

/// Serving one request on a freshly accepted connection (accept, respond,
/// send) leaves it watched for reading again and not for writing, so that
/// the next request on it is read.
pub proof fn lemma_served_connection_reads_again(w: Set<(usize, EventFilter)>, fd: i32)
    ensures
        ({
            let after = apply_changes(
                w,
                seq![watch_record(fd, EventFilter::Read)] + read_to_write(fd) + write_to_read(fd),
            );
            &&& after.contains((fd as usize, EventFilter::Read))
            &&& !after.contains((fd as usize, EventFilter::Write))
            &&& after == w.remove((fd as usize, EventFilter::Write)).insert((fd as usize, EventFilter::Read))
        }),
{
    let a = seq![watch_record(fd, EventFilter::Read)];
    lemma_apply_changes_concat(w, a + read_to_write(fd), write_to_read(fd));
    lemma_apply_changes_concat(w, a, read_to_write(fd));
    lemma_connection_watches(w, fd);
    let w1 = w.insert((fd as usize, EventFilter::Read));
    lemma_connection_watches(w1, fd);
    let w2 = w1.remove((fd as usize, EventFilter::Read)).insert((fd as usize, EventFilter::Write));
    lemma_connection_watches(w2, fd);
    assert(apply_changes(w, a + read_to_write(fd) + write_to_read(fd))
        =~= w.remove((fd as usize, EventFilter::Write)).insert((fd as usize, EventFilter::Read)));
}

/// The reply queued for a connection is the next message sent to it, and
/// once it is sent the send queues are as they were before it was queued.
pub proof fn lemma_reply_is_sent_next(q: Map<i32, Seq<Seq<u8>>>, id: i32, reply: Seq<u8>)
    requires
        q.contains_key(id),
    ensures
        ({
            let q1 = q.insert(id, q[id].push(reply));
            &&& q1[id].len() > 0
            &&& q1[id].last() == reply
            &&& q1.insert(id, q1[id].drop_last()) == q
        }),
{
    let q1 = q.insert(id, q[id].push(reply));
    assert(q1[id].drop_last() =~= q[id]);
    assert(q1.insert(id, q1[id].drop_last()) =~= q);
}

/// What a fired record calls for, once the event loop has turned it into
/// an event set and the dispatcher has looked at it: a read record of a
/// connection closes it when it carries no data and else receives that many
/// bytes; a write record sends; a record of any other filter does nothing;
/// any record of the listener accepts.
pub proof fn lemma_fired_record_step(listener: i32, k: KEvent)
    ensures
        ({
            let s = event_set_of_record(k);
            let step = step_for(listener, k.ident as i32, s.0, s.1);
            let id = k.ident as i32;
            &&& id == listener ==> step == Step::Accept
            &&& id != listener && k.filter == EventFilter::Read && k.data as usize == 0
                ==> step == Step::Close(id)
            &&& id != listener && k.filter == EventFilter::Read && k.data as usize != 0
                ==> step == Step::Receive(id, (k.data as usize) as u32)
            &&& id != listener && k.filter == EventFilter::Write ==> step == Step::Send(id)
            &&& id != listener && (k.filter == EventFilter::Timer || k.filter == EventFilter::Other)
                ==> step == Step::Idle
        }),
{
    lemma_event_set_kinds();
}

/// Distinct descriptors name distinct watch identifiers.
pub proof fn lemma_fd_ident_injective(a: i32, b: i32)
    ensures
        a != b ==> a as usize != b as usize,
{
    assert(a != b ==> a as usize != b as usize) by (bit_vector);
}

/// Whether descriptor `fd` is watched as its connection state asks: for
/// exactly one of reading and writing while it is a connection, for neither
/// once it is not.
pub open spec fn watched_as_connection(w: Set<(usize, EventFilter)>, q: Map<i32, Seq<Seq<u8>>>, fd: i32) -> bool {
    let r = w.contains((fd as usize, EventFilter::Read));
    let wr = w.contains((fd as usize, EventFilter::Write));
    if q.contains_key(fd) {
        r != wr
    } else {
        !r && !wr
    }
}

/// Whether the watches `w` fit a dispatcher with listening descriptor
/// `listener` and send queues `q`: the listener is watched for reading and
/// is no connection, and every other descriptor is watched as its
/// connection state asks.
pub open spec fn watches_consistent(w: Set<(usize, EventFilter)>, q: Map<i32, Seq<Seq<u8>>>, listener: i32) -> bool {
    &&& w.contains((listener as usize, EventFilter::Read))
    &&& !q.contains_key(listener)
    &&& forall|fd: i32| fd != listener ==> #[trigger] watched_as_connection(w, q, fd)
}

/// A server that has just been initialized has consistent watches: its
/// listener is watched for reading and there is no connection.
pub proof fn lemma_initialized_server_consistent(listener: i32)
    ensures
        watches_consistent(
            apply_changes(Set::empty(), seq![watch_record(listener, EventFilter::Read)]),
            Map::empty(),
            listener,
        ),
{
    lemma_connection_watches(Set::empty(), listener);
    let w = Set::<(usize, EventFilter)>::empty().insert((listener as usize, EventFilter::Read));
    assert forall|fd: i32| fd != listener implies #[trigger] watched_as_connection(w, Map::empty(), fd) by {
        lemma_fd_ident_injective(fd, listener);
    }
}

/// Each step of the dispatcher keeps the watches consistent with its
/// connections: accepting a fresh descriptor, closing a connection,
/// answering a request on one (`respond`, `queue_reply`) and sending to one
/// (`send`). So, at every moment, each connection is watched for exactly
/// one of reading and writing, no closed descriptor is watched, and the
/// listener stays watched for reading.
pub proof fn lemma_steps_keep_watches_consistent(
    w: Set<(usize, EventFilter)>,
    q: Map<i32, Seq<Seq<u8>>>,
    listener: i32,
    fd: i32,
    reply: Seq<u8>,
)
    requires
        watches_consistent(w, q, listener),
    ensures
        fd != listener && !q.contains_key(fd) ==> watches_consistent(
            apply_changes(w, seq![watch_record(fd, EventFilter::Read)]),
            q.insert(fd, Seq::empty()),
            listener,
        ),
        q.contains_key(fd) ==> watches_consistent(apply_changes(w, unwatch_all(fd)), q.remove(fd), listener),
        q.contains_key(fd) ==> watches_consistent(
            apply_changes(w, read_to_write(fd)),
            q.insert(fd, q[fd].push(reply)),
            listener,
        ),
        q.contains_key(fd) && q[fd].len() > 0 ==> watches_consistent(
            apply_changes(w, write_to_read(fd)),
            q.insert(fd, q[fd].drop_last()),
            listener,
        ),
        q.contains_key(fd) && q[fd].len() == 0 ==> watches_consistent(
            apply_changes(w, write_to_read(fd)),
            q,
            listener,
        ),
{
    lemma_connection_watches(w, fd);
    lemma_fd_ident_injective(fd, listener);
    let rd = (fd as usize, EventFilter::Read);
    let wt = (fd as usize, EventFilter::Write);
    if fd != listener && !q.contains_key(fd) {
        let w1 = w.insert(rd);
        let q1 = q.insert(fd, Seq::<Seq<u8>>::empty());
        assert(watched_as_connection(w, q, fd));
        assert forall|g: i32| g != listener implies #[trigger] watched_as_connection(w1, q1, g) by {
            lemma_fd_ident_injective(g, fd);
            assert(watched_as_connection(w, q, g));
        }
    }
    if q.contains_key(fd) {
        let w2 = w.remove(rd).remove(wt);
        let q2 = q.remove(fd);
        assert forall|g: i32| g != listener implies #[trigger] watched_as_connection(w2, q2, g) by {
            lemma_fd_ident_injective(g, fd);
            assert(watched_as_connection(w, q, g));
        }
        let w3 = w.remove(rd).insert(wt);
        let q3 = q.insert(fd, q[fd].push(reply));
        assert forall|g: i32| g != listener implies #[trigger] watched_as_connection(w3, q3, g) by {
            lemma_fd_ident_injective(g, fd);
            assert(watched_as_connection(w, q, g));
        }
        let w4 = w.remove(wt).insert(rd);
        let q4 = if q[fd].len() > 0 { q.insert(fd, q[fd].drop_last()) } else { q };
        assert forall|g: i32| g != listener implies #[trigger] watched_as_connection(w4, q4, g) by {
            lemma_fd_ident_injective(g, fd);
            assert(watched_as_connection(w, q, g));
        }
    }
}

/// `el` with `changes` appended to its pending changes.
pub open spec fn with_changes(el: EventLoopView, changes: Seq<KEvent>) -> EventLoopView {
    EventLoopView { pending: el.pending + changes, ..el }
}

/// The state a server keeps about its listening socket and its accepted
/// connections, and the service that answers their requests.
pub struct Dispatcher<T: Service> {
    id: i32,
    connections: HashMap<i32, Client>,
    service: T,
}

impl<T: Service> Dispatcher<T> {
    /// The send queue of each accepted connection, by descriptor.
    pub closed spec fn queues(&self) -> Map<i32, Seq<Seq<u8>>> {
        self.connections@.map_values(|c: Client| c@)
    }

    /// The listening descriptor.
    pub closed spec fn listener(&self) -> i32 {
        self.id
    }

    /// The service that answers requests.
    pub closed spec fn service(&self) -> T {
        self.service
    }

    /// A dispatcher for the listening descriptor `id`, with no connection.
    pub fn new(id: i32, service: T) -> (d: Dispatcher<T>)
        ensures
            d.listener() == id,
            d.queues() == Map::<i32, Seq<Seq<u8>>>::empty(),
            d.service() == service,
    {
        let d = Dispatcher { id: id, connections: HashMap::new(), service: service };
        assert(d.queues() =~= Map::<i32, Seq<Seq<u8>>>::empty());
        d
    }

    /// The listening descriptor.
    pub fn as_raw_fd(&self) -> (fd: i32)
        ensures
            fd == self.listener(),
    {
        self.id
    }

    /// Whether `fd` is an accepted connection.
    pub fn has_connection(&self, fd: i32) -> (b: bool)
        ensures
            b == self.queues().contains_key(fd),
    {
        self.connections.contains_key(&fd)
    }

    /// What an event on descriptor `id` calls for: accepting on the
    /// listening socket; closing a readable connection with no data;
    /// reading that many bytes from a readable one; writing to a writable one.
    pub fn decide(&self, id: i32, ev_set: &EventSet) -> (step: Step)
        ensures
            step == step_for(self.listener(), id, ev_set@.0, ev_set@.1),
    {
        if self.id == id {
            Step::Accept
        } else if ev_set.is_readable() {
            if ev_set.get_data() == 0 {
                Step::Close(id)
            } else {
                Step::Receive(id, ev_set.get_data() as u32)
            }
        } else if ev_set.is_writable() {
            Step::Send(id)
        } else {
            Step::Idle
        }
    }

    /// Takes on the newly accepted connection `fd`: watches it for reading
    /// and gives it an empty send queue.
    pub fn accept(&mut self, fd: i32, event_loop: &mut EventLoop)
        ensures
            final(self).queues() == old(self).queues().insert(fd, Seq::<Seq<u8>>::empty()),
            final(self).listener() == old(self).listener(),
            final(self).service() == old(self).service(),
            final(event_loop)@ == with_changes(old(event_loop)@, seq![watch_record(fd, EventFilter::Read)]),
    {
        let identifier = Identifier::new(fd, Interest::Read);
        event_loop.register(&identifier);
        let client = Client::new();
        self.connections.insert(fd, client);
        assert(self.queues() =~= old(self).queues().insert(fd, Seq::<Seq<u8>>::empty()));
        assert(event_loop@.pending =~= old(event_loop)@.pending + seq![watch_record(fd, EventFilter::Read)]);
    }

    /// Drops the connection `id`, closed by its peer: stops watching it for
    /// reading and for writing and forgets its send queue.
    pub fn close(&mut self, id: i32, event_loop: &mut EventLoop)
        requires
            old(self).queues().contains_key(id),
        ensures
            final(self).queues() == old(self).queues().remove(id),
            final(self).listener() == old(self).listener(),
            final(self).service() == old(self).service(),
            final(event_loop)@ == with_changes(old(event_loop)@, unwatch_all(id)),
    {
        let identifier = Identifier::new(id, Interest::Read);
        event_loop.deregister(&identifier);
        let identifier2 = Identifier::new(id, Interest::Write);
        event_loop.deregister(&identifier2);
        self.connections.remove(&id);
        assert(self.queues() =~= old(self).queues().remove(id));
        assert(event_loop@.pending =~= old(event_loop)@.pending + unwatch_all(id));
    }

    /// Queues `reply` to be sent to connection `id`, then watches `id` for
    /// writing instead of reading.
    pub fn queue_reply(&mut self, id: i32, reply: Message, event_loop: &mut EventLoop)
        requires
            old(self).queues().contains_key(id),
        ensures
            final(self).queues() == old(self).queues().insert(id, old(self).queues()[id].push(reply.buf@)),
            final(self).listener() == old(self).listener(),
            final(self).service() == old(self).service(),
            final(event_loop)@ == with_changes(old(event_loop)@, read_to_write(id)),
    {
        let mut client = match self.connections.remove(&id) {
            Some(c) => c,
            None => {
                assert(false);
                Client::new()
            },
        };
        client.send_message(reply);
        self.connections.insert(id, client);
        assert(self.queues() =~= old(self).queues().insert(id, old(self).queues()[id].push(reply.buf@)));
        let identifier = Identifier::new(id, Interest::Read);
        event_loop.deregister(&identifier);
        let identifier2 = Identifier::new(id, Interest::Write);
        event_loop.register(&identifier2);
        assert(event_loop@.pending =~= old(event_loop)@.pending + read_to_write(id));
    }

    /// Answers the request `message` received on connection `id`: the
    /// service is handed `message` once, its reply is queued to be sent,
    /// and `id` is watched for writing instead of reading.
    pub fn respond(&mut self, id: i32, message: Message, event_loop: &mut EventLoop)
        requires
            old(self).queues().contains_key(id),
        ensures
            final(self).queues() == old(self).queues().insert(
                id,
                old(self).queues()[id].push(final(self).queues()[id].last()),
            ),
            old(self).service().answers(message.buf@, final(self).queues()[id].last()),
            final(self).service().requests() == old(self).service().requests().push(message.buf@),
            final(self).listener() == old(self).listener(),
            final(event_loop)@ == with_changes(old(event_loop)@, read_to_write(id)),
    {
        let reply = self.service.ready(message);
        self.queue_reply(id, reply, event_loop);
    }

    /// Takes the message to be written to connection `id` next, if any, and
    /// watches `id` for reading instead of writing.
    pub fn send(&mut self, id: i32, event_loop: &mut EventLoop) -> (m: Option<Message>)
        requires
            old(self).queues().contains_key(id),
        ensures
            old(self).queues()[id].len() == 0 ==> m is None && final(self).queues() == old(self).queues(),
            old(self).queues()[id].len() > 0 ==> (m matches Some(msg)
                && msg.buf@ == old(self).queues()[id].last()
                && final(self).queues() == old(self).queues().insert(id, old(self).queues()[id].drop_last())),
            final(self).listener() == old(self).listener(),
            final(self).service() == old(self).service(),
            final(event_loop)@ == with_changes(old(event_loop)@, write_to_read(id)),
    {
        let mut client = match self.connections.remove(&id) {
            Some(c) => c,
            None => {
                assert(false);
                Client::new()
            },
        };
        let m = client.write_message();
        self.connections.insert(id, client);
        proof {
            if old(self).queues()[id].len() == 0 {
                assert(self.queues() =~= old(self).queues());
            } else {
                assert(self.queues() =~= old(self).queues().insert(id, old(self).queues()[id].drop_last()));
            }
        }
        let identifier = Identifier::new(id, Interest::Write);
        let identifier2 = Identifier::new(id, Interest::Read);
        event_loop.deregister(&identifier);
        event_loop.register(&identifier2);
        assert(event_loop@.pending =~= old(event_loop)@.pending + write_to_read(id));
        m
    }
}

} // verus!
