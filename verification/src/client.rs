//! The table of entries that a client keeps, the state of its session, and
//! the steps of its two loops.

use crate::errors::{ErrorView, NtError, NtErrorKind, NtResult};
use crate::model::{
    maps_agree, queue_frames, ClientView, Listen, StateView, KEEP_ALIVE_CUTOFF,
};
use crate::protocol::{
    found_view, scan_assignment, scan_update, write_assignment, write_hello, write_keep_alive,
    write_update, Entry, EntryType, EntryView, Parse, ValueView, CLIENT_REQUEST_ID,
    ENTRY_ASSIGNMENT, ENTRY_UPDATE, HELLO_COMPLETE, KEEP_ALIVE,
};
use crate::sequence_numbers::SequenceNumber;
use std::collections::HashMap;
use vstd::hash_map::StringHashMap;
use vstd::prelude::*;
use vstd::slice::slice_subrange;

verus! {

broadcast use vstd::std_specs::hash::group_hash_axioms;

/// The state of the client's connection.
#[derive(Debug, PartialEq, Eq)]
pub enum State {
    /// Between the start and the server's "hello complete".
    Initializing,
    /// After the server's "hello complete".
    Connected,
    /// Closed by the user.
    Closed,
    /// A fatal error has occurred.
    Error(NtError),
}

impl View for State {
    type V = StateView;

    open spec fn view(&self) -> StateView {
        match *self {
            State::Initializing => StateView::Initializing,
            State::Connected => StateView::Connected,
            State::Closed => StateView::Closed,
            State::Error(e) => StateView::Error(e@),
        }
    }
}

impl Clone for State {
    fn clone(&self) -> (s: State)
        ensures
            s == *self,
    {
        match self {
            State::Initializing => State::Initializing,
            State::Connected => State::Connected,
            State::Closed => State::Closed,
            State::Error(e) => State::Error(e.clone()),
        }
    }
}

/// The entries of a queue as mathematical values.
pub open spec fn entry_views(entries: Seq<Entry>) -> Seq<EntryView> {
    entries.map_values(|e: Entry| e@)
}

/// The errors of a log as mathematical values.
pub open spec fn error_views(errors: Seq<NtError>) -> Seq<ErrorView> {
    errors.map_values(|e: NtError| e@)
}

/// The confirmed entries, each held under its name and under its id.
struct Table {
    by_name: StringHashMap<Entry>,
    by_id: HashMap<u16, Entry>,
}

impl Table {
    /// The entries by name, as mathematical values.
    spec fn names(&self) -> Map<Seq<char>, EntryView> {
        self.by_name@.map_values(|e: Entry| e@)
    }

    /// The entries by id, as mathematical values.
    spec fn ids(&self) -> Map<u16, EntryView> {
        self.by_id@.map_values(|e: Entry| e@)
    }

    /// The two maps hold the same entries.
    spec fn wf(&self) -> bool {
        maps_agree(self.names(), self.ids())
    }

    /// A table without entries.
    fn new() -> (table: Table)
        ensures
            table.wf(),
            table.names() == Map::<Seq<char>, EntryView>::empty(),
            table.ids() == Map::<u16, EntryView>::empty(),
    {
        let table = Table { by_name: StringHashMap::new(), by_id: HashMap::new() };
        assert(table.names() =~= Map::<Seq<char>, EntryView>::empty());
        assert(table.ids() =~= Map::<u16, EntryView>::empty());
        table
    }

    /// The entry under `name`.
    fn by_name(&self, name: &str) -> (found: Option<&Entry>)
        ensures
            found is Some <==> self.names().contains_key(name@),
            found matches Some(e) ==> e@ == self.names()[name@],
    {
        self.by_name.get(name)
    }

    /// The entry under `id`.
    fn by_id(&self, id: u16) -> (found: Option<&Entry>)
        ensures
            found is Some <==> self.ids().contains_key(id),
            found matches Some(e) ==> e@ == self.ids()[id],
    {
        self.by_id.get(&id)
    }

    /// Puts `entry` under its name and under its id. Either both are free,
    /// or the entry replaces the one that holds both.
    fn put(&mut self, entry: Entry)
        requires
            old(self).wf(),
            old(self).names().contains_key(entry@.name) ==> old(self).names()[entry@.name].id
                == entry@.id,
            !old(self).names().contains_key(entry@.name) ==> !old(self).ids().contains_key(
                entry@.id,
            ),
        ensures
            final(self).wf(),
            final(self).names() == old(self).names().insert(entry@.name, entry@),
            final(self).ids() == old(self).ids().insert(entry@.id, entry@),
    {
        let name = entry.name.clone();
        let id: u16 = entry.id;
        self.by_name.insert(name, entry.clone());
        self.by_id.insert(id, entry);
        assert(self.names() =~= old(self).names().insert(entry@.name, entry@));
        assert(self.ids() =~= old(self).ids().insert(entry@.id, entry@));
    }
}

/// A NetworkTables 2.0 client: a table of named values that is kept in step
/// with a server, and the state of the session with that server.
pub struct Client {
    table: Table,
    send_queue: Vec<Entry>,
    state: State,
    errors: Vec<NtError>,
    ticks: u64,
}

impl View for Client {
    type V = ClientView;

    closed spec fn view(&self) -> ClientView {
        ClientView {
            entries_by_name: self.table.names(),
            entries_by_id: self.table.ids(),
            send_queue: entry_views(self.send_queue@),
            state: self.state@,
            errors: error_views(self.errors@),
            ticks: self.ticks as nat,
        }
    }
}

impl Client {
    /// What every client keeps at all times: see [`ClientView::consistent`].
    #[verifier::type_invariant]
    spec fn valid(&self) -> bool {
        self.table.wf() && self.ticks < KEEP_ALIVE_CUTOFF
    }

    /// A client at the start of its session. Its greeting is appended to
    /// `w`: these are the first bytes that the server must get.
    pub fn new(w: &mut Vec<u8>) -> (client: Client)
        ensures
            client@ == ClientView::initial(),
            client@.consistent(),
            final(w)@ == old(w)@ + seq![0x01u8, 0x02u8, 0x00u8],
    {
        let _ = write_hello(w);
        let client = Client {
            table: Table::new(),
            send_queue: Vec::new(),
            state: State::Initializing,
            errors: Vec::new(),
            ticks: 0,
        };
        assert(entry_views(client.send_queue@) =~= Seq::<EntryView>::empty());
        assert(error_views(client.errors@) =~= Seq::<ErrorView>::empty());
        client
    }

    /// The state of the session.
    pub fn get_state(&self) -> (state: State)
        ensures
            state@ == self@.state,
            self@.consistent(),
    {
        proof {
            use_type_invariant(self);
        }
        self.state.clone()
    }

    /// The errors that were not fatal, oldest first.
    pub fn get_errors(&self) -> (errors: Vec<NtError>)
        ensures
            error_views(errors@) == self@.errors,
            self@.consistent(),
    {
        proof {
            use_type_invariant(self);
        }
        let errors = self.errors.clone();
        assert(error_views(errors@) =~= error_views(self.errors@));
        errors
    }

    /// Adds `err` to the log of errors that were not fatal.
    pub fn log_error(&mut self, err: NtError)
        ensures
            final(self)@ == old(self)@.log_error(err@),
            final(self)@.consistent(),
    {
        proof {
            use_type_invariant(&*self);
        }
        let mut errors = Vec::new();
        core::mem::swap(&mut errors, &mut self.errors);
        errors.push(err);
        self.errors = errors;
        assert(error_views(self.errors@) =~= error_views(old(self).errors@).push(err@));
    }

    /// Records a fatal error: a live session fails with it, and a session
    /// that is over only logs it.
    pub fn log_fatal(&mut self, err: NtError)
        ensures
            final(self)@ == old(self)@.log_fatal(err@),
            final(self)@.consistent(),
    {
        proof {
            use_type_invariant(&*self);
        }
        match self.state {
            State::Closed | State::Error(_) => self.log_error(err),
            State::Initializing | State::Connected => {
                self.state = State::Error(err);
            },
        }
    }

    /// Closes the session: a live session becomes `Closed`. Says whether the
    /// socket is to be shut down now, which it is unless the session was
    /// closed before.
    pub fn close(&mut self) -> (shut_down: bool)
        ensures
            final(self)@ == old(self)@.close(),
            shut_down == !(old(self)@.state is Closed),
            final(self)@.consistent(),
    {
        proof {
            use_type_invariant(&*self);
        }
        match self.state {
            State::Initializing | State::Connected => {
                self.state = State::Closed;
                true
            },
            State::Closed => false,
            State::Error(_) => true,
        }
    }

    /// Takes note of the server's "hello complete": a session that was
    /// `Initializing` is `Connected`.
    pub fn handle_hello_complete(&mut self)
        ensures
            final(self)@ == old(self)@.hello_complete(),
            final(self)@.consistent(),
    {
        proof {
            use_type_invariant(&*self);
        }
        if let State::Initializing = self.state {
            self.state = State::Connected;
        }
    }

    /// The value that the table holds under `key`.
    pub fn get_entry(&self, key: String) -> (value: Option<EntryType>)
        ensures
            value_view(value) == self@.get(key@),
    {
        match self.table.by_name(key.as_str()) {
            Some(entry) => Some(entry.value.clone()),
            None => None,
        }
    }

    /// Queues a new value for `key`, to be sent on the next tick. The table
    /// itself changes only when the server answers.
    pub fn set_entry(&mut self, key: String, value: EntryType) -> (res: NtResult<()>)
        ensures
            res is Ok,
            final(self)@ == old(self)@.set(key@, value@),
            final(self)@.consistent(),
    {
        proof {
            use_type_invariant(&*self);
        }
        let mut entry = match self.table.by_name(key.as_str()) {
            Some(entry) => entry.clone(),
            None => Entry {
                name: key,
                id: CLIENT_REQUEST_ID,
                sequence: SequenceNumber(0u16),
                value: EntryType::Boolean(false),
            },
        };
        entry.value = value;
        entry.sequence.increment();
        let mut queue = Vec::new();
        core::mem::swap(&mut queue, &mut self.send_queue);
        queue.push(entry);
        self.send_queue = queue;
        assert(entry_views(self.send_queue@) =~= entry_views(old(self).send_queue@).push(entry@));
        Ok(())
    }

    /// The name and the value that the table holds under `id`.
    pub fn id_lookup(&self, id: u16) -> (found: Option<(String, EntryType)>)
        ensures
            found_view(found) == self@.lookup(id),
    {
        let entry = match self.table.by_id(id) {
            Some(entry) => entry.clone(),
            None => { return None; },
        };
        Some((entry.name, entry.value))
    }

    /// Installs an assignment of the server. If the name is taken,
    /// `KeyAlreadyExists` is logged, else if the id is taken,
    /// `IdAlreadyExists`, and the table stays as it is.
    pub fn install_assignment(&mut self, entry: Entry)
        ensures
            final(self)@ == old(self)@.install_assignment(entry@),
            final(self)@.consistent(),
    {
        proof {
            use_type_invariant(&*self);
        }
        if self.table.by_name(entry.name.as_str()).is_some() {
            self.log_error(NtError { kind: NtErrorKind::KeyAlreadyExists(entry.name) });
            return ;
        }
        if self.table.by_id(entry.id).is_some() {
            self.log_error(NtError { kind: NtErrorKind::IdAlreadyExists(entry.id) });
            return ;
        }
        let mut table = Table::new();
        core::mem::swap(&mut table, &mut self.table);
        table.put(entry);
        self.table = table;
    }

    /// Installs an update of the server. If the table holds no entry with
    /// the update's name and id, that is fatal (`IdDoesntExist`). If the
    /// update's sequence number does not come after the stored one,
    /// `OutOfOrderSequenceNumbers` is logged and the table stays as it is.
    pub fn install_update(&mut self, entry: Entry)
        ensures
            final(self)@ == old(self)@.install_update(entry@),
            final(self)@.consistent(),
    {
        proof {
            use_type_invariant(&*self);
        }
        let (old_id, old_sequence) = match self.table.by_name(entry.name.as_str()) {
            Some(old_entry) => (old_entry.id, old_entry.sequence),
            None => {
                self.log_fatal(NtError { kind: NtErrorKind::IdDoesntExist(entry.id) });
                return ;
            },
        };
        if old_id != entry.id {
            self.log_fatal(NtError { kind: NtErrorKind::IdDoesntExist(entry.id) });
            return ;
        }
        if old_sequence >= entry.sequence {
            self.log_error(
                NtError {
                    kind: NtErrorKind::OutOfOrderSequenceNumbers(old_sequence, entry.sequence),
                },
            );
            return ;
        }
        let mut table = Table::new();
        core::mem::swap(&mut table, &mut self.table);
        table.put(entry);
        self.table = table;
    }

    /// Deals with an assignment of the server, whose bytes behind the tag
    /// are `body`. A whole assignment is installed. One that is not whole is
    /// left alone. One that cannot be read is a fatal error.
    pub fn handle_entry_assignment(&mut self, body: &[u8]) -> (step: Listen)
        ensures
            (final(self)@, step) == old(self)@.handle_assignment(body@),
            step matches Listen::Done(used) ==> used <= body@.len(),
            final(self)@.consistent(),
    {
        proof {
            use_type_invariant(&*self);
        }
        match scan_assignment(body) {
            Parse::Complete(entry, used) => {
                self.install_assignment(entry);
                Listen::Done(used)
            },
            Parse::Incomplete(missing) => Listen::More(missing),
            Parse::Invalid(error) => {
                self.log_fatal(error);
                Listen::Stop
            },
        }
    }

    /// Deals with an update of the server, whose bytes behind the tag are
    /// `body`. The value is read as the type that the table holds under the
    /// update's id. A whole update is installed. One that is not whole is
    /// left alone. One that cannot be read, or whose id the table does not
    /// hold, is a fatal error.
    pub fn handle_entry_update(&mut self, body: &[u8]) -> (step: Listen)
        ensures
            (final(self)@, step) == old(self)@.handle_update(body@),
            step matches Listen::Done(used) ==> used <= body@.len(),
            final(self)@.consistent(),
    {
        proof {
            use_type_invariant(&*self);
        }
        let lookup = |id: u16| -> (found: Option<(String, EntryType)>)
            ensures
                found_view(found) == self@.lookup(id),
            { self.id_lookup(id) };
        match scan_update(body, lookup) {
            Parse::Complete(entry, used) => {
                self.install_update(entry);
                Listen::Done(used)
            },
            Parse::Incomplete(missing) => Listen::More(missing),
            Parse::Invalid(error) => {
                self.log_fatal(error);
                Listen::Stop
            },
        }
    }

    /// One step of the receive loop. `msg` holds the bytes read since the
    /// last message, the tag first; it may be empty. The step says whether
    /// more bytes are needed, how many bytes the message took, or that the
    /// loop is over. A message with an unknown tag is passed over.
    pub fn listen(&mut self, msg: &[u8]) -> (step: Listen)
        ensures
            (final(self)@, step) == old(self)@.listen(msg@),
            step matches Listen::Done(used) ==> 1 <= used <= msg@.len(),
            final(self)@.consistent(),
    {
        proof {
            use_type_invariant(&*self);
        }
        if msg.len() == 0 {
            return Listen::More(1);
        }
        let tag: u8 = msg[0];
        let body = slice_subrange(msg, 1, msg.len());
        assert(body@ == msg@.skip(1));
        if tag == HELLO_COMPLETE {
            self.handle_hello_complete();
            Listen::Done(1)
        } else if tag == ENTRY_ASSIGNMENT {
            match self.handle_entry_assignment(body) {
                Listen::Done(used) => Listen::Done(used + 1),
                step => step,
            }
        } else if tag == ENTRY_UPDATE {
            match self.handle_entry_update(body) {
                Listen::Done(used) => Listen::Done(used + 1),
                step => step,
            }
        } else {
            Listen::Done(1)
        }
    }

    /// Appends the messages for all queued entries to `w`, oldest first, and
    /// empties the queue. An entry that waits for an id goes out as an
    /// assignment, any other as an update.
    pub fn send_queue(&mut self, w: &mut Vec<u8>) -> (res: NtResult<()>)
        ensures
            res is Ok,
            final(w)@ == old(w)@ + queue_frames(old(self)@.send_queue),
            final(self)@ == (ClientView { send_queue: Seq::empty(), ..old(self)@ }),
            final(self)@.consistent(),
    {
        proof {
            use_type_invariant(&*self);
        }
        let mut queue = Vec::new();
        core::mem::swap(&mut queue, &mut self.send_queue);
        assert(entry_views(self.send_queue@) =~= Seq::<EntryView>::empty());
        let ghost all = entry_views(queue@);
        let mut i: usize = 0;
        while i < queue.len()
            invariant
                i <= queue.len(),
                all == entry_views(queue@),
                w@ == old(w)@ + queue_frames(all.take(i as int)),
            decreases queue.len() - i,
        {
            let entry = &queue[i];
            if entry.id == CLIENT_REQUEST_ID {
                write_assignment(w, entry)?;
            } else {
                write_update(w, entry)?;
            }
            proof {
                let next = all.take(i + 1);
                assert(next.drop_last() =~= all.take(i as int));
                assert(next.last() == entry@);
                assert(w@ =~= old(w)@ + queue_frames(next));
            }
            i = i + 1;
        }
        assert(all.take(i as int) =~= all);
        Ok(())
    }

    /// Appends a keep-alive to `w`.
    pub fn send_keep_alive(&self, w: &mut Vec<u8>) -> (res: NtResult<()>)
        ensures
            res is Ok,
            final(w)@ == old(w)@ + seq![KEEP_ALIVE],
    {
        write_keep_alive(w)
    }

    /// One tick of the send loop: appends to `w` what is to be written now.
    /// That is the queue, which is then empty, and on every fiftieth tick a
    /// keep-alive behind it.
    pub fn send(&mut self, w: &mut Vec<u8>) -> (res: NtResult<()>)
        ensures
            res is Ok,
            final(w)@ == old(w)@ + old(self)@.tick_output(),
            final(self)@ == old(self)@.tick(),
            final(self)@.consistent(),
    {
        proof {
            use_type_invariant(&*self);
        }
        self.send_queue(w)?;
        let counter: u64 = self.ticks + 1;
        if counter % KEEP_ALIVE_CUTOFF == 0 {
            self.ticks = 0;
            self.send_keep_alive(w)?;
            assert(w@ =~= old(w)@ + old(self)@.tick_output());
        } else {
            self.ticks = counter;
        }
        Ok(())
    }
}

/// A value that may be missing, as a mathematical value.
pub open spec fn value_view(value: Option<EntryType>) -> Option<ValueView> {
    match value {
        Some(v) => Some(v@),
        None => None,
    }
}

/// A string that may be missing, as a mathematical value.
pub open spec fn text_view(text: Option<String>) -> Option<Seq<char>> {
    match text {
        Some(s) => Some(s@),
        None => None,
    }
}

/// Getting a value of one type by its key.
pub trait Get<T> {
    /// The value under `key`, if the table holds one and it is of this type.
    fn get(&self, key: String) -> Option<T>;
}

/// Setting a value of one type by its key.
pub trait SetValue<T> {
    /// Queues `value` for `key`, to be sent to the server.
    fn set(&mut self, key: String, value: T) -> NtResult<()>;
}

impl Get<bool> for Client {
    fn get(&self, key: String) -> Option<bool>
        returns
            self@.get_bool(key@),
    {
        match self.get_entry(key) {
            Some(EntryType::Boolean(b)) => Some(b),
            _ => None,
        }
    }
}

/// A number is got as the sixty-four bits of its binary64 form.
impl Get<u64> for Client {
    fn get(&self, key: String) -> Option<u64>
        returns
            self@.get_number(key@),
    {
        match self.get_entry(key) {
            Some(EntryType::Number(n)) => Some(n),
            _ => None,
        }
    }
}

impl Get<String> for Client {
    fn get(&self, key: String) -> (value: Option<String>)
        ensures
            text_view(value) == self@.get_string(key@),
    {
        match self.get_entry(key) {
            Some(EntryType::String(s)) => Some(s),
            _ => None,
        }
    }
}

impl SetValue<bool> for Client {
    fn set(&mut self, key: String, value: bool) -> (res: NtResult<()>)
        ensures
            res is Ok,
            final(self)@ == old(self)@.set(key@, ValueView::Boolean(value)),
    {
        self.set_entry(key, EntryType::Boolean(value))
    }
}

/// A number is set as the sixty-four bits of its binary64 form.
impl SetValue<u64> for Client {
    fn set(&mut self, key: String, value: u64) -> (res: NtResult<()>)
        ensures
            res is Ok,
            final(self)@ == old(self)@.set(key@, ValueView::Number(value)),
    {
        self.set_entry(key, EntryType::Number(value))
    }
}

impl SetValue<String> for Client {
    fn set(&mut self, key: String, value: String) -> (res: NtResult<()>)
        ensures
            res is Ok,
            final(self)@ == old(self)@.set(key@, ValueView::String(value@)),
    {
        self.set_entry(key, EntryType::String(value))
    }
}

} // verus!
