//! The client as a mathematical value, the steps that it can take, and what
//! holds of them.

use crate::errors::ErrorView;
use crate::protocol::{
    assignment_frame, decode_assignment, decode_update, law_assignment_reading_is_stable,
    law_assignment_reading_stops, law_payload_has_announced_type, law_update_reading_is_stable,
    law_update_reading_stops, update_frame, update_id, EntryView, Parse, ValueView,
    CLIENT_REQUEST_ID, ENTRY_ASSIGNMENT, ENTRY_UPDATE, HELLO_COMPLETE, KEEP_ALIVE,
};
use crate::sequence_numbers::{serial_lt, serial_succ};
use vstd::prelude::*;

verus! {

/// The send loop emits a keep-alive on every tick whose number is a multiple
/// of this: once a second at a tick of 20 ms.
pub const KEEP_ALIVE_CUTOFF: u64 = 50;

/// The state of a session as a mathematical value.
pub enum StateView {
    Initializing,
    Connected,
    Closed,
    Error(ErrorView),
}

impl StateView {
    /// The session is still going: neither closed nor failed.
    pub open spec fn live(self) -> bool {
        self is Initializing || self is Connected
    }
}

/// What the receive loop does next.
#[derive(Debug, Clone, Copy, PartialEq, Eq, Structural)]
pub enum Listen {
    /// The message is not complete. Read this many bytes more, add them to
    /// the message and offer it again.
    More(usize),
    /// The first bytes of what was offered, as many as this, were one
    /// message, and it has been dealt with.
    Done(usize),
    /// A fatal error has been recorded. The loop ends.
    Stop,
}

impl Listen {
    /// The same step, counted from one byte earlier: from the message's tag.
    pub open spec fn after_tag(self) -> Listen {
        match self {
            Listen::Done(used) => Listen::Done((used + 1) as usize),
            step => step,
        }
    }

    /// What the step is after `more` further bytes, if it was this on the
    /// bytes before them: the same, or that fewer bytes are missing.
    pub open spec fn after(self, more: nat) -> Listen {
        match self {
            Listen::More(missing) => Listen::More((missing - more) as usize),
            decided => decided,
        }
    }

    /// `more` further bytes leave the step predictable: it is final, or it
    /// asked for more bytes than these.
    pub open spec fn holds_for(self, more: nat) -> bool {
        match self {
            Listen::More(missing) => more < missing,
            _ => true,
        }
    }
}

/// The two maps hold the same entries: each entry stands under its own name
/// and under its own id.
pub open spec fn maps_agree(
    by_name: Map<Seq<char>, EntryView>,
    by_id: Map<u16, EntryView>,
) -> bool {
    &&& forall|name: Seq<char>| #[trigger]
        by_name.contains_key(name) ==> {
            &&& by_name[name].name == name
            &&& by_id.contains_key(by_name[name].id)
            &&& by_id[by_name[name].id] == by_name[name]
        }
    &&& forall|id: u16| #[trigger]
        by_id.contains_key(id) ==> {
            &&& by_id[id].id == id
            &&& by_name.contains_key(by_id[id].name)
            &&& by_name[by_id[id].name] == by_id[id]
        }
}

/// The message by which the send loop announces a queued entry: an
/// assignment where the entry still waits for an id, an update otherwise.
pub open spec fn entry_frame(e: EntryView) -> Seq<u8> {
    if e.id == CLIENT_REQUEST_ID {
        assignment_frame(e)
    } else {
        update_frame(e)
    }
}

/// The messages for a queue of entries, first entry first.
pub open spec fn queue_frames(queue: Seq<EntryView>) -> Seq<u8>
    decreases queue.len(),
{
    if queue.len() == 0 {
        Seq::empty()
    } else {
        queue_frames(queue.drop_last()) + entry_frame(queue.last())
    }
}

/// A client as a mathematical value.
pub struct ClientView {
    /// The confirmed entries, by name.
    pub entries_by_name: Map<Seq<char>, EntryView>,
    /// The confirmed entries, by id.
    pub entries_by_id: Map<u16, EntryView>,
    /// What the send loop has still to send, oldest first.
    pub send_queue: Seq<EntryView>,
    pub state: StateView,
    /// The errors that were not fatal, oldest first.
    pub errors: Seq<ErrorView>,
    /// The ticks of the send loop since the last keep-alive.
    pub ticks: nat,
}

impl ClientView {
    /// A client that has just greeted the server.
    pub open spec fn initial() -> ClientView {
        ClientView {
            entries_by_name: Map::empty(),
            entries_by_id: Map::empty(),
            send_queue: Seq::empty(),
            state: StateView::Initializing,
            errors: Seq::empty(),
            ticks: 0,
        }
    }

    /// What holds of every client: the two maps agree, and a keep-alive is
    /// never overdue.
    pub open spec fn consistent(self) -> bool {
        &&& maps_agree(self.entries_by_name, self.entries_by_id)
        &&& self.ticks < KEEP_ALIVE_CUTOFF
    }

    /// The client with one more error in its log.
    pub open spec fn log_error(self, error: ErrorView) -> ClientView {
        ClientView { errors: self.errors.push(error), ..self }
    }

    /// The client after a fatal error: a live session fails with it, a
    /// session that is over only logs it.
    pub open spec fn log_fatal(self, error: ErrorView) -> ClientView {
        if self.state.live() {
            ClientView { state: StateView::Error(error), ..self }
        } else {
            self.log_error(error)
        }
    }

    /// The client after the server's "hello complete".
    pub open spec fn hello_complete(self) -> ClientView {
        if self.state is Initializing {
            ClientView { state: StateView::Connected, ..self }
        } else {
            self
        }
    }

    /// The client after the user has closed it.
    pub open spec fn close(self) -> ClientView {
        if self.state.live() {
            ClientView { state: StateView::Closed, ..self }
        } else {
            self
        }
    }

    /// The value under `name`.
    pub open spec fn get(self, name: Seq<char>) -> Option<ValueView> {
        if self.entries_by_name.contains_key(name) {
            Some(self.entries_by_name[name].value)
        } else {
            None
        }
    }

    /// The name and the value under `id`.
    pub open spec fn lookup(self, id: u16) -> Option<(Seq<char>, ValueView)> {
        if self.entries_by_id.contains_key(id) {
            Some((self.entries_by_id[id].name, self.entries_by_id[id].value))
        } else {
            None
        }
    }

    /// The boolean under `name`, if there is a value and it is a boolean.
    pub open spec fn get_bool(self, name: Seq<char>) -> Option<bool> {
        match self.get(name) {
            Some(ValueView::Boolean(b)) => Some(b),
            _ => None,
        }
    }

    /// The number under `name`, as its bits, if there is a value and it is a
    /// number.
    pub open spec fn get_number(self, name: Seq<char>) -> Option<u64> {
        match self.get(name) {
            Some(ValueView::Number(n)) => Some(n),
            _ => None,
        }
    }

    /// The string under `name`, if there is a value and it is a string.
    pub open spec fn get_string(self, name: Seq<char>) -> Option<Seq<char>> {
        match self.get(name) {
            Some(ValueView::String(s)) => Some(s),
            _ => None,
        }
    }

    /// The entry that a local `set` queues: the stored entry with the new
    /// value and the next sequence number, or, for a new name, a request for
    /// an id with sequence number 1.
    pub open spec fn next_entry(self, name: Seq<char>, value: ValueView) -> EntryView {
        if self.entries_by_name.contains_key(name) {
            EntryView {
                value,
                sequence: serial_succ(self.entries_by_name[name].sequence),
                ..self.entries_by_name[name]
            }
        } else {
            EntryView { name, id: CLIENT_REQUEST_ID, sequence: 1, value }
        }
    }

    /// The client after a local `set`: one more entry in the queue, the maps
    /// as they were.
    pub open spec fn set(self, name: Seq<char>, value: ValueView) -> ClientView {
        ClientView { send_queue: self.send_queue.push(self.next_entry(name, value)), ..self }
    }

    /// The table takes the assignment `e`: neither its name nor its id is
    /// taken.
    pub open spec fn accepts(self, e: EntryView) -> bool {
        !self.entries_by_name.contains_key(e.name) && !self.entries_by_id.contains_key(e.id)
    }

    /// The two maps are those of `other`.
    pub open spec fn same_table(self, other: ClientView) -> bool {
        self.entries_by_name == other.entries_by_name && self.entries_by_id == other.entries_by_id
    }

    /// The client with `e` under its name and under its id.
    pub open spec fn with_entry(self, e: EntryView) -> ClientView {
        ClientView {
            entries_by_name: self.entries_by_name.insert(e.name, e),
            entries_by_id: self.entries_by_id.insert(e.id, e),
            ..self
        }
    }

    /// The client after the server's assignment `e`. A name that is taken
    /// is logged as `KeyAlreadyExists`, else an id that is taken as
    /// `IdAlreadyExists`, and the assignment is dropped.
    pub open spec fn install_assignment(self, e: EntryView) -> ClientView {
        if self.entries_by_name.contains_key(e.name) {
            self.log_error(ErrorView::KeyAlreadyExists(e.name))
        } else if self.entries_by_id.contains_key(e.id) {
            self.log_error(ErrorView::IdAlreadyExists(e.id))
        } else {
            self.with_entry(e)
        }
    }

    /// The table holds an entry with the name and the id of `e`.
    pub open spec fn knows(self, e: EntryView) -> bool {
        self.entries_by_name.contains_key(e.name) && self.entries_by_name[e.name].id == e.id
    }

    /// The client after the server's update `e`. An update for an entry that
    /// the table does not hold is fatal. One whose sequence number does not
    /// come after the stored one is logged as `OutOfOrderSequenceNumbers`
    /// and dropped.
    pub open spec fn install_update(self, e: EntryView) -> ClientView {
        if !self.knows(e) {
            self.log_fatal(ErrorView::IdDoesntExist(e.id))
        } else if !serial_lt(self.entries_by_name[e.name].sequence, e.sequence) {
            self.log_error(
                ErrorView::OutOfOrderSequenceNumbers(
                    self.entries_by_name[e.name].sequence,
                    e.sequence,
                ),
            )
        } else {
            self.with_entry(e)
        }
    }

    /// The client after an assignment whose bytes, behind the tag, are
    /// `body`, and what the receive loop does next.
    pub open spec fn handle_assignment(self, body: Seq<u8>) -> (ClientView, Listen) {
        match decode_assignment(body) {
            Parse::Complete(e, used) => (self.install_assignment(e), Listen::Done(used)),
            Parse::Incomplete(missing) => (self, Listen::More(missing)),
            Parse::Invalid(error) => (self.log_fatal(error), Listen::Stop),
        }
    }

    /// The client after an update whose bytes, behind the tag, are `body`,
    /// and what the receive loop does next.
    pub open spec fn handle_update(self, body: Seq<u8>) -> (ClientView, Listen) {
        match decode_update(body, self.lookup(update_id(body))) {
            Parse::Complete(e, used) => (self.install_update(e), Listen::Done(used)),
            Parse::Incomplete(missing) => (self, Listen::More(missing)),
            Parse::Invalid(error) => (self.log_fatal(error), Listen::Stop),
        }
    }

    /// The client after the receive loop has offered `msg`, the bytes read
    /// since the last message, and what the loop does next. A message with
    /// an unknown tag is passed over.
    pub open spec fn listen(self, msg: Seq<u8>) -> (ClientView, Listen) {
        if msg.len() == 0 {
            (self, Listen::More(1))
        } else if msg[0] == HELLO_COMPLETE {
            (self.hello_complete(), Listen::Done(1))
        } else if msg[0] == ENTRY_ASSIGNMENT {
            (
                self.handle_assignment(msg.skip(1)).0,
                self.handle_assignment(msg.skip(1)).1.after_tag(),
            )
        } else if msg[0] == ENTRY_UPDATE {
            (self.handle_update(msg.skip(1)).0, self.handle_update(msg.skip(1)).1.after_tag())
        } else {
            (self, Listen::Done(1))
        }
    }

    /// A keep-alive is due on the coming tick.
    pub open spec fn keep_alive_due(self) -> bool {
        (self.ticks + 1) % (KEEP_ALIVE_CUTOFF as nat) == 0
    }

    /// What a tick of the send loop writes: the queue, then a keep-alive if
    /// one is due.
    pub open spec fn tick_output(self) -> Seq<u8> {
        if self.keep_alive_due() {
            queue_frames(self.send_queue) + seq![KEEP_ALIVE]
        } else {
            queue_frames(self.send_queue)
        }
    }

    /// The client after a tick of the send loop: the queue is empty.
    pub open spec fn tick(self) -> ClientView {
        ClientView {
            send_queue: Seq::empty(),
            ticks: if self.keep_alive_due() {
                0
            } else {
                self.ticks + 1
            },
            ..self
        }
    }
}

/// A client at its start is consistent.
pub proof fn law_initial_consistent()
    ensures
        ClientView::initial().consistent(),
{
}

/// Whatever happens to the session or the queue, the table stays as it is
/// and the client stays consistent.
pub proof fn law_session_steps_keep_table(
    v: ClientView,
    error: ErrorView,
    name: Seq<char>,
    value: ValueView,
)
    requires
        v.consistent(),
    ensures
        v.log_error(error).consistent() && v.log_error(error).same_table(v),
        v.log_fatal(error).consistent() && v.log_fatal(error).same_table(v),
        v.hello_complete().consistent() && v.hello_complete().same_table(v),
        v.close().consistent() && v.close().same_table(v),
        v.set(name, value).consistent() && v.set(name, value).same_table(v),
        v.tick().consistent() && v.tick().same_table(v),
{
}

/// An assignment or an update of the server leaves the client consistent.
pub proof fn law_installs_keep_consistent(v: ClientView, e: EntryView)
    requires
        v.consistent(),
    ensures
        v.install_assignment(e).consistent(),
        v.install_update(e).consistent(),
{
}

/// Whatever the receive loop offers, the client stays consistent.
pub proof fn law_listen_keeps_consistent(v: ClientView, msg: Seq<u8>)
    requires
        v.consistent(),
    ensures
        v.listen(msg).0.consistent(),
{
    let body = msg.skip(1);
    match decode_assignment(body) {
        Parse::Complete(e, _) => {
            law_installs_keep_consistent(v, e);
        },
        _ => {},
    }
    match decode_update(body, v.lookup(update_id(body))) {
        Parse::Complete(e, _) => {
            law_installs_keep_consistent(v, e);
        },
        _ => {},
    }
}

/// After an assignment that the table took, the entry is found under its
/// name and under its id, and the log of errors is as it was.
pub proof fn law_assignment_installed(v: ClientView, e: EntryView)
    requires
        v.accepts(e),
    ensures
        v.install_assignment(e).entries_by_name[e.name] == e,
        v.install_assignment(e).entries_by_id[e.id] == e,
        v.install_assignment(e).entries_by_name[e.name].id == e.id,
        v.install_assignment(e).entries_by_id[e.id].name == e.name,
        v.install_assignment(e).get(e.name) == Some(e.value),
        v.install_assignment(e).errors == v.errors,
{
}

/// An assignment for a name that the table holds leaves the table as it is
/// and adds `KeyAlreadyExists` to the log.
pub proof fn law_assignment_of_taken_name(v: ClientView, e: EntryView)
    requires
        v.entries_by_name.contains_key(e.name),
    ensures
        v.install_assignment(e).same_table(v),
        v.install_assignment(e) == v.log_error(ErrorView::KeyAlreadyExists(e.name)),
        v.install_assignment(e).errors == v.errors.push(ErrorView::KeyAlreadyExists(e.name)),
{
}

/// Of two assignments for one name, the first of which the table took, the
/// second leaves the table as it is and adds `KeyAlreadyExists` to the log.
pub proof fn law_second_assignment_rejected(v: ClientView, first: EntryView, second: EntryView)
    requires
        v.accepts(first),
        second.name == first.name,
    ensures
        v.install_assignment(first).install_assignment(second).same_table(
            v.install_assignment(first),
        ),
        v.install_assignment(first).install_assignment(second).errors == v.install_assignment(
            first,
        ).errors.push(ErrorView::KeyAlreadyExists(second.name)),
{
}

/// An update for an entry that the table holds either comes after the
/// stored entry and replaces it, or leaves the table as it is and adds
/// `OutOfOrderSequenceNumbers` to the log.
pub proof fn law_update_installed(v: ClientView, e: EntryView)
    requires
        v.knows(e),
    ensures
        serial_lt(v.entries_by_name[e.name].sequence, e.sequence) ==> {
            &&& v.install_update(e).entries_by_name[e.name] == e
            &&& v.install_update(e).entries_by_id[e.id] == e
            &&& v.install_update(e).errors == v.errors
            &&& serial_lt(
                v.entries_by_name[e.name].sequence,
                v.install_update(e).entries_by_name[e.name].sequence,
            )
        },
        !serial_lt(v.entries_by_name[e.name].sequence, e.sequence) ==> {
            &&& v.install_update(e).same_table(v)
            &&& v.install_update(e).errors == v.errors.push(
                ErrorView::OutOfOrderSequenceNumbers(
                    v.entries_by_name[e.name].sequence,
                    e.sequence,
                ),
            )
        },
        v.install_update(e).state == v.state,
{
}

/// A local `set` shows in the queue only: what `get` returns does not
/// change until the server answers.
pub proof fn law_set_is_not_seen(v: ClientView, name: Seq<char>, value: ValueView, other: Seq<char>)
    ensures
        v.set(name, value).get(other) == v.get(other),
        v.set(name, value).send_queue.last() == v.next_entry(name, value),
{
}

/// The entry that a local `set` queues has the name and the value that were
/// given, and a sequence number that comes after the stored one.
pub proof fn law_set_queues_next(v: ClientView, name: Seq<char>, value: ValueView)
    requires
        v.consistent(),
    ensures
        v.next_entry(name, value).name == name,
        v.next_entry(name, value).value == value,
        v.entries_by_name.contains_key(name) ==> {
            &&& v.next_entry(name, value).id == v.entries_by_name[name].id
            &&& serial_lt(v.entries_by_name[name].sequence, v.next_entry(name, value).sequence)
        },
        !v.entries_by_name.contains_key(name) ==> {
            &&& v.next_entry(name, value).id == CLIENT_REQUEST_ID
            &&& v.next_entry(name, value).sequence == 1
        },
{
}

/// Once a session is closed or has failed, its state stays: a later fatal
/// error is only logged.
pub proof fn law_end_is_final(v: ClientView, error: ErrorView, msg: Seq<u8>)
    requires
        !v.state.live(),
    ensures
        v.log_fatal(error).state == v.state,
        v.log_fatal(error).errors == v.errors.push(error),
        v.hello_complete().state == v.state,
        v.close().state == v.state,
        v.listen(msg).0.state == v.state,
        v.tick().state == v.state,
{
}

/// An assignment may arrive in pieces of any size: see
/// [`law_listen_is_stable`].
pub proof fn law_assignment_handling_is_stable(v: ClientView, body: Seq<u8>, rest: Seq<u8>)
    requires
        v.handle_assignment(body).1.holds_for(rest.len()),
    ensures
        v.handle_assignment(body).1 is More ==> v.handle_assignment(body).0 == v,
        v.handle_assignment(body).1 matches Listen::More(missing) ==> 1 <= missing,
        v.handle_assignment(body).1 matches Listen::Done(used) ==> 1 <= used <= body.len(),
        v.handle_assignment(body + rest).0 == v.handle_assignment(body).0,
        v.handle_assignment(body + rest).1 == v.handle_assignment(body).1.after(rest.len()),
{
    law_assignment_reading_is_stable(body, rest);
}

/// An update may arrive in pieces of any size: see
/// [`law_listen_is_stable`].
pub proof fn law_update_handling_is_stable(v: ClientView, body: Seq<u8>, rest: Seq<u8>)
    requires
        v.handle_update(body).1.holds_for(rest.len()),
    ensures
        v.handle_update(body).1 is More ==> v.handle_update(body).0 == v,
        v.handle_update(body).1 matches Listen::More(missing) ==> 1 <= missing,
        v.handle_update(body).1 matches Listen::Done(used) ==> 1 <= used <= body.len(),
        v.handle_update(body + rest).0 == v.handle_update(body).0,
        v.handle_update(body + rest).1 == v.handle_update(body).1.after(rest.len()),
{
    let found = v.lookup(update_id(body));
    let later = v.lookup(update_id(body + rest));
    law_update_reading_is_stable(body, found, rest);
    if body.len() < 4 {
        law_update_reading_is_stable(body, later, rest);
        assert(decode_update(body, found) == decode_update(body, later));
    } else {
        assert(found == later);
    }
}

/// The receive loop may read in pieces of any size. While a message is not
/// whole the client does not change, and the step says how many bytes are
/// missing: with fewer than that, it asks for the remainder. Once a message
/// is whole, bytes that follow it change neither what becomes of the client
/// nor how many bytes the message took.
pub proof fn law_listen_is_stable(v: ClientView, msg: Seq<u8>, rest: Seq<u8>)
    requires
        v.listen(msg).1.holds_for(rest.len()),
    ensures
        v.listen(msg).1 is More ==> v.listen(msg).0 == v,
        v.listen(msg).1 matches Listen::More(missing) ==> 1 <= missing,
        v.listen(msg).1 matches Listen::Done(used) ==> 1 <= used <= msg.len(),
        v.listen(msg + rest).0 == v.listen(msg).0,
        v.listen(msg + rest).1 == v.listen(msg).1.after(rest.len()),
{
    let long = msg + rest;
    if msg.len() > 0 {
        let body = msg.skip(1);
        assert(long[0] == msg[0]);
        assert(long.skip(1) == body + rest) by {
            assert(long.skip(1) =~= body + rest);
        }
        if msg[0] == HELLO_COMPLETE {
        } else if msg[0] == ENTRY_ASSIGNMENT {
            let short_step = v.handle_assignment(body);
            let long_step = v.handle_assignment(body + rest);
            assert(v.listen(msg) == (short_step.0, short_step.1.after_tag()));
            assert(v.listen(long) == (long_step.0, long_step.1.after_tag()));
            assert(short_step.1.holds_for(rest.len()));
            law_assignment_handling_is_stable(v, body, rest);
        } else if msg[0] == ENTRY_UPDATE {
            let short_step = v.handle_update(body);
            let long_step = v.handle_update(body + rest);
            assert(v.listen(msg) == (short_step.0, short_step.1.after_tag()));
            assert(v.listen(long) == (long_step.0, long_step.1.after_tag()));
            assert(short_step.1.holds_for(rest.len()));
            law_update_handling_is_stable(v, body, rest);
        } else {
        }
    } else {
        assert(rest.len() == 0);
        assert(long =~= msg);
    }
}

/// A message is dealt with on its own bytes alone: what follows them does
/// not matter.
pub proof fn law_listen_stops(v: ClientView, msg: Seq<u8>)
    ensures
        v.listen(msg).1 matches Listen::Done(used) ==> v.listen(msg.take(used as int))
            == v.listen(msg),
{
    if let Listen::Done(used) = v.listen(msg).1 {
        let short = msg.take(used as int);
        let body = msg.skip(1);
        law_listen_is_stable(v, msg, Seq::empty());
        assert(short[0] == msg[0]);
        if msg[0] == ENTRY_ASSIGNMENT {
            law_assignment_reading_stops(body);
            assert(short.skip(1) =~= body.take(used - 1));
        } else if msg[0] == ENTRY_UPDATE {
            let found = v.lookup(update_id(body));
            law_update_reading_stops(body, found);
            assert(short.skip(1) =~= body.take(used - 1));
        }
    }
}

/// What the receive loop does next on `msg`, kept apart from how it is
/// worked out.
#[verifier::opaque]
spec fn next_step(v: ClientView, msg: Seq<u8>) -> Listen {
    v.listen(msg).1
}

/// [`law_listen_is_stable`], of the step alone.
proof fn lemma_step_is_stable(v: ClientView, msg: Seq<u8>, rest: Seq<u8>)
    requires
        next_step(v, msg).holds_for(rest.len()),
    ensures
        next_step(v, msg + rest) == next_step(v, msg).after(rest.len()),
        next_step(v, msg) matches Listen::Done(used) ==> used <= msg.len(),
{
    reveal(next_step);
    law_listen_is_stable(v, msg, rest);
}

/// [`law_listen_stops`], of the step alone.
proof fn lemma_step_stops(v: ClientView, msg: Seq<u8>)
    ensures
        next_step(v, msg) matches Listen::Done(used) ==> next_step(v, msg.take(used as int))
            == next_step(v, msg),
{
    reveal(next_step);
    law_listen_stops(v, msg);
}

/// [`law_listen_never_overreads`], of the step alone.
proof fn lemma_step_never_overreads(
    v: ClientView,
    msg: Seq<u8>,
    rest: Seq<u8>,
    missing: usize,
    used: usize,
)
    requires
        next_step(v, msg) == Listen::More(missing),
        next_step(v, msg + rest) == Listen::Done(used),
    ensures
        msg.len() + missing <= used,
{
    let long = msg + rest;
    if used < msg.len() + missing {
        let cut = long.take(used as int);
        lemma_step_stops(v, long);
        lemma_step_is_stable(v, long, Seq::empty());
        if used <= msg.len() {
            assert(cut + msg.skip(used as int) =~= msg);
            lemma_step_is_stable(v, cut, msg.skip(used as int));
        } else {
            let part = rest.take(used - msg.len());
            assert(msg + part =~= cut);
            lemma_step_is_stable(v, msg, part);
        }
    }
}

/// The receive loop never reads into the next message. If the client asks
/// for a number of bytes, then the message, however it goes on, ends no
/// earlier than behind that many further bytes.
pub proof fn law_listen_never_overreads(v: ClientView, msg: Seq<u8>, rest: Seq<u8>)
    ensures
        v.listen(msg).1 matches Listen::More(missing) ==> (v.listen(
            msg + rest,
        ).1 matches Listen::Done(used) ==> msg.len() + missing <= used),
{
    reveal(next_step);
    if let Listen::More(missing) = next_step(v, msg) {
        if let Listen::Done(used) = next_step(v, msg + rest) {
            lemma_step_never_overreads(v, msg, rest, missing, used);
        }
    }
}

/// The server cannot take an entry away, move it to another id or change
/// the type of its value: whatever the receive loop offers, an entry of the
/// table stays under its name with its id and its type. Its sequence number
/// stays or goes forward.
pub proof fn law_listen_keeps_entries(v: ClientView, msg: Seq<u8>, name: Seq<char>)
    requires
        v.consistent(),
        v.entries_by_name.contains_key(name),
    ensures
        v.listen(msg).0.entries_by_name.contains_key(name),
        v.listen(msg).0.entries_by_name[name].id == v.entries_by_name[name].id,
        v.listen(msg).0.entries_by_name[name].value.type_tag()
            == v.entries_by_name[name].value.type_tag(),
        v.listen(msg).0.entries_by_name[name] == v.entries_by_name[name] || serial_lt(
            v.entries_by_name[name].sequence,
            v.listen(msg).0.entries_by_name[name].sequence,
        ),
{
    let body = msg.skip(1);
    match v.lookup(update_id(body)) {
        Some((_, sample)) => {
            law_payload_has_announced_type(sample.type_tag(), body.skip(4));
        },
        None => {},
    }
}

/// What a tick writes for a queue is what it writes for the queue without
/// its last entry, and then that entry's message.
pub proof fn law_queue_goes_out_in_order(queue: Seq<EntryView>, e: EntryView)
    ensures
        queue_frames(Seq::empty()) == Seq::<u8>::empty(),
        queue_frames(queue.push(e)) == queue_frames(queue) + entry_frame(e),
{
    assert(queue.push(e).drop_last() =~= queue);
}

/// A keep-alive goes out on the tick that brings the count to fifty, and on
/// no other; the count then starts again.
pub proof fn law_keep_alive_every_fiftieth_tick(v: ClientView)
    requires
        v.consistent(),
    ensures
        v.keep_alive_due() <==> v.ticks == KEEP_ALIVE_CUTOFF - 1,
        v.keep_alive_due() ==> v.tick().ticks == 0 && v.tick_output() == queue_frames(
            v.send_queue,
        ) + seq![KEEP_ALIVE],
        !v.keep_alive_due() ==> v.tick().ticks == v.ticks + 1 && v.tick_output() == queue_frames(
            v.send_queue,
        ),
        v.tick().send_queue.len() == 0,
{
}

} // verus!
