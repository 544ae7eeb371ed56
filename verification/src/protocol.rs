//! The wire format: what each message looks like as bytes, and how bytes are
//! read back into entries.
//!
//! Writers append to a `Vec<u8>`. Readers take a slice that starts where the
//! item starts and say how many bytes the item took, so that the caller can go
//! on behind it.

use crate::bytes::{
    be16, be64, from_be16, from_be64, lemma_be16_read_back, lemma_be64_read_back, read_be_u16,
    read_be_u64, write_be_u16, write_be_u64,
};
use crate::errors::{end_of_file, ErrorView, IoCause, NtError, NtErrorKind, NtResult};
use crate::sequence_numbers::SequenceNumber;
use vstd::prelude::*;
use vstd::slice::{slice_subrange, slice_to_vec};
use vstd::utf8::{
    decode_utf8, encode_utf8, encode_utf8_decode_utf8, encode_utf8_valid_utf8, valid_utf8,
};

verus! {

/// The version of the protocol that this client speaks.
pub const VERSION: u16 = 0x0200;

/// The id that a client puts into an assignment to ask the server for an id.
pub const CLIENT_REQUEST_ID: u16 = 0xFFFF;

pub const KEEP_ALIVE: u8 = 0x00;

pub const HELLO: u8 = 0x01;

pub const HELLO_COMPLETE: u8 = 0x03;

pub const ENTRY_ASSIGNMENT: u8 = 0x10;

pub const ENTRY_UPDATE: u8 = 0x11;

pub const TYPE_BOOLEAN: u8 = 0x00;

pub const TYPE_NUMBER: u8 = 0x01;

pub const TYPE_STRING: u8 = 0x02;

/// The value of an entry.
#[derive(Debug, PartialEq, Eq)]
pub enum EntryType {
    Boolean(bool),
    /// A binary64 number, held as its sixty-four bits.
    Number(u64),
    String(String),
}

/// An [`EntryType`] as a mathematical value.
pub enum ValueView {
    Boolean(bool),
    Number(u64),
    String(Seq<char>),
}

impl View for EntryType {
    type V = ValueView;

    open spec fn view(&self) -> ValueView {
        match *self {
            EntryType::Boolean(b) => ValueView::Boolean(b),
            EntryType::Number(n) => ValueView::Number(n),
            EntryType::String(s) => ValueView::String(s@),
        }
    }
}

impl Clone for EntryType {
    fn clone(&self) -> (v: EntryType)
        ensures
            v == *self,
    {
        match self {
            EntryType::Boolean(b) => EntryType::Boolean(*b),
            EntryType::Number(n) => EntryType::Number(*n),
            EntryType::String(s) => EntryType::String(s.clone()),
        }
    }
}

impl ValueView {
    /// The byte that announces a value of this type.
    pub open spec fn type_tag(self) -> u8 {
        match self {
            ValueView::Boolean(_) => TYPE_BOOLEAN,
            ValueView::Number(_) => TYPE_NUMBER,
            ValueView::String(_) => TYPE_STRING,
        }
    }

    /// The value fits the wire: a string of at most 65535 bytes.
    pub open spec fn fits(self) -> bool {
        self matches ValueView::String(s) ==> encode_utf8(s).len() <= 65535
    }
}

/// A named, typed, sequenced value of the table.
#[derive(Debug, PartialEq, Eq)]
pub struct Entry {
    pub name: String,
    pub id: u16,
    pub sequence: SequenceNumber,
    pub value: EntryType,
}

/// An [`Entry`] as a mathematical value.
pub struct EntryView {
    pub name: Seq<char>,
    pub id: u16,
    pub sequence: u16,
    pub value: ValueView,
}

impl View for Entry {
    type V = EntryView;

    open spec fn view(&self) -> EntryView {
        EntryView {
            name: self.name@,
            id: self.id,
            sequence: self.sequence.0,
            value: self.value@,
        }
    }
}

impl Clone for Entry {
    fn clone(&self) -> (e: Entry)
        ensures
            e == *self,
    {
        Entry {
            name: self.name.clone(),
            id: self.id,
            sequence: self.sequence,
            value: self.value.clone(),
        }
    }
}

impl EntryView {
    /// The entry fits the wire: its name, and its value if that is a string,
    /// take at most 65535 bytes.
    pub open spec fn fits(self) -> bool {
        encode_utf8(self.name).len() <= 65535 && self.value.fits()
    }
}

/// A string on the wire: the number of its bytes in two bytes, then the bytes.
/// Of a length above 65535 only the low sixteen bits are written.
pub open spec fn string_frame(s: Seq<char>) -> Seq<u8> {
    be16((encode_utf8(s).len() % 65536) as u16) + encode_utf8(s)
}

/// A value on the wire: one byte for a boolean, eight for a number, a string
/// with its length before it.
pub open spec fn payload_frame(v: ValueView) -> Seq<u8> {
    match v {
        ValueView::Boolean(b) => seq![if b { 1u8 } else { 0u8 }],
        ValueView::Number(n) => be64(n),
        ValueView::String(s) => string_frame(s),
    }
}

/// The greeting of a client.
pub open spec fn hello_frame() -> Seq<u8> {
    seq![HELLO] + be16(VERSION)
}

/// The message that asks the server to create `e`, or tells of its creation.
pub open spec fn assignment_frame(e: EntryView) -> Seq<u8> {
    seq![ENTRY_ASSIGNMENT] + string_frame(e.name) + seq![e.value.type_tag()] + be16(e.id) + be16(
        e.sequence,
    ) + payload_frame(e.value)
}

/// The message that carries a new value for the entry with the id of `e`.
pub open spec fn update_frame(e: EntryView) -> Seq<u8> {
    seq![ENTRY_UPDATE] + be16(e.id) + be16(e.sequence) + payload_frame(e.value)
}

/// Appends the greeting: the bytes `01 02 00`.
pub fn write_hello(w: &mut Vec<u8>) -> (res: NtResult<()>)
    ensures
        res is Ok,
        final(w)@ == old(w)@ + hello_frame(),
        hello_frame() == seq![0x01u8, 0x02u8, 0x00u8],
{
    w.push(HELLO);
    write_be_u16(w, VERSION);
    assert(w@ =~= old(w)@ + hello_frame());
    assert(hello_frame() =~= seq![0x01u8, 0x02u8, 0x00u8]);
    Ok(())
}

/// Appends a keep-alive: the byte `00`.
pub fn write_keep_alive(w: &mut Vec<u8>) -> (res: NtResult<()>)
    ensures
        res is Ok,
        final(w)@ == old(w)@ + seq![KEEP_ALIVE],
{
    w.push(KEEP_ALIVE);
    assert(w@ =~= old(w)@ + seq![KEEP_ALIVE]);
    Ok(())
}

/// Appends `s` as a string of the wire.
pub fn write_string(w: &mut Vec<u8>, s: String) -> (res: NtResult<()>)
    ensures
        res is Ok,
        final(w)@ == old(w)@ + string_frame(s@),
{
    let bytes = s.as_str().as_bytes();
    let n: usize = bytes.len();
    write_be_u16(w, (n % 65536) as u16);
    w.extend_from_slice(bytes);
    assert(w@ =~= old(w)@ + string_frame(s@));
    Ok(())
}

/// Appends a value.
fn write_payload(w: &mut Vec<u8>, value: &EntryType)
    ensures
        final(w)@ == old(w)@ + payload_frame(value@),
{
    match value {
        EntryType::Boolean(b) => {
            w.push(if *b { 0x01u8 } else { 0x00u8 });
            assert(w@ =~= old(w)@ + payload_frame(value@));
        },
        EntryType::Number(n) => {
            write_be_u64(w, *n);
        },
        EntryType::String(s) => {
            let _ = write_string(w, s.clone());
        },
    }
}

/// Appends the assignment of `entry`.
pub fn write_assignment(w: &mut Vec<u8>, entry: &Entry) -> (res: NtResult<()>)
    ensures
        res is Ok,
        final(w)@ == old(w)@ + assignment_frame(entry@),
{
    w.push(ENTRY_ASSIGNMENT);
    write_string(w, entry.name.clone())?;
    w.push(
        match entry.value {
            EntryType::Boolean(_) => TYPE_BOOLEAN,
            EntryType::Number(_) => TYPE_NUMBER,
            EntryType::String(_) => TYPE_STRING,
        },
    );
    write_be_u16(w, entry.id);
    write_be_u16(w, entry.sequence.as_u16());
    write_payload(w, &entry.value);
    assert(w@ =~= old(w)@ + assignment_frame(entry@));
    Ok(())
}

/// Appends the update that `entry` describes.
pub fn write_update(w: &mut Vec<u8>, entry: &Entry) -> (res: NtResult<()>)
    ensures
        res is Ok,
        final(w)@ == old(w)@ + update_frame(entry@),
{
    w.push(ENTRY_UPDATE);
    write_be_u16(w, entry.id);
    write_be_u16(w, entry.sequence.as_u16());
    write_payload(w, &entry.value);
    assert(w@ =~= old(w)@ + update_frame(entry@));
    Ok(())
}

/// What a reader made of the bytes it was given.
#[derive(Debug, PartialEq, Eq)]
pub enum Parse<T, E> {
    /// A whole item, and the number of bytes that it took.
    Complete(T, usize),
    /// The bytes end before the item does. The number says how many more are
    /// needed before the reader can tell more.
    Incomplete(usize),
    /// The bytes do not spell an item.
    Invalid(E),
}

impl<T: View, E: View> View for Parse<T, E> {
    type V = Parse<T::V, E::V>;

    open spec fn view(&self) -> Parse<T::V, E::V> {
        match *self {
            Parse::Complete(item, used) => Parse::Complete(item@, used),
            Parse::Incomplete(missing) => Parse::Incomplete(missing),
            Parse::Invalid(error) => Parse::Invalid(error@),
        }
    }
}

/// The error that stands for a stream that ended too early.
pub open spec fn short_read() -> ErrorView {
    ErrorView::NetworkProblem(end_of_file())
}

impl<T> Parse<T, ErrorView> {
    /// The same outcome for a reader that cannot wait for more bytes: missing
    /// bytes are a short read.
    pub open spec fn settled(self) -> Result<(T, usize), ErrorView> {
        match self {
            Parse::Complete(item, used) => Ok((item, used)),
            Parse::Incomplete(_) => Err(short_read()),
            Parse::Invalid(error) => Err(error),
        }
    }

    /// The outcome is one that a reader can give on `len` bytes: an item
    /// took at least one byte and no more than there were, and where bytes
    /// are missing, at least one is.
    pub open spec fn within(self, len: nat) -> bool {
        match self {
            Parse::Complete(_, used) => 1 <= used <= len,
            Parse::Incomplete(missing) => 1 <= missing,
            Parse::Invalid(_) => true,
        }
    }

    /// What is known after `more` further bytes, if the outcome on the bytes
    /// before them was this: the same, or that fewer bytes are missing.
    pub open spec fn after(self, more: nat) -> Parse<T, ErrorView> {
        match self {
            Parse::Incomplete(missing) => Parse::Incomplete((missing - more) as usize),
            decided => decided,
        }
    }

    /// `more` further bytes leave the outcome predictable: it is final, or
    /// the reader asked for more bytes than these.
    pub open spec fn holds_for(self, more: nat) -> bool {
        match self {
            Parse::Incomplete(missing) => more < missing,
            _ => true,
        }
    }
}

/// A result of one of the `parse_` functions as a mathematical value.
pub open spec fn parsed<T: View>(res: NtResult<(T, usize)>) -> Result<(T::V, usize), ErrorView> {
    match res {
        Ok((item, used)) => Ok((item@, used)),
        Err(error) => Err(error@),
    }
}

/// The string at the start of `r`: two bytes of length, then that many bytes,
/// which must be UTF-8.
pub open spec fn decode_string(r: Seq<u8>) -> Parse<Seq<char>, ErrorView> {
    if r.len() < 2 {
        Parse::Incomplete((2 - r.len()) as usize)
    } else if r.len() < 2 + from_be16(r) {
        Parse::Incomplete((2 + from_be16(r) - r.len()) as usize)
    } else if !valid_utf8(r.subrange(2, 2 + from_be16(r))) {
        Parse::Invalid(ErrorView::StringConversionError)
    } else {
        Parse::Complete(decode_utf8(r.subrange(2, 2 + from_be16(r))), (2 + from_be16(r)) as usize)
    }
}

/// The value at the start of `r`, read as the type that `tag` announces. A
/// boolean is true unless its byte is zero.
pub open spec fn decode_payload(tag: u8, r: Seq<u8>) -> Parse<ValueView, ErrorView> {
    if tag == TYPE_BOOLEAN {
        if r.len() < 1 {
            Parse::Incomplete(1)
        } else {
            Parse::Complete(ValueView::Boolean(r[0] != 0), 1)
        }
    } else if tag == TYPE_NUMBER {
        if r.len() < 8 {
            Parse::Incomplete((8 - r.len()) as usize)
        } else {
            Parse::Complete(ValueView::Number(from_be64(r)), 8)
        }
    } else if tag == TYPE_STRING {
        match decode_string(r) {
            Parse::Complete(s, used) => Parse::Complete(ValueView::String(s), used),
            Parse::Incomplete(missing) => Parse::Incomplete(missing),
            Parse::Invalid(error) => Parse::Invalid(error),
        }
    } else {
        Parse::Invalid(ErrorView::UnsupportedType(tag))
    }
}

/// The assignment at the start of `r`, which begins behind the message's tag:
/// name, type, id, sequence number, value.
pub open spec fn decode_assignment(r: Seq<u8>) -> Parse<EntryView, ErrorView> {
    match decode_string(r) {
        Parse::Incomplete(missing) => Parse::Incomplete(missing),
        Parse::Invalid(error) => Parse::Invalid(error),
        Parse::Complete(name, n) => {
            if r.len() < n + 5 {
                Parse::Incomplete((n + 5 - r.len()) as usize)
            } else {
                match decode_payload(r[n as int], r.skip(n + 5)) {
                    Parse::Incomplete(missing) => Parse::Incomplete(missing),
                    Parse::Invalid(error) => Parse::Invalid(error),
                    Parse::Complete(value, m) => Parse::Complete(
                        EntryView {
                            name,
                            id: from_be16(r.skip(n + 1)),
                            sequence: from_be16(r.skip(n + 3)),
                            value,
                        },
                        (n + 5 + m) as usize,
                    ),
                }
            }
        },
    }
}

/// The id at the start of an update, which begins behind the message's tag.
pub open spec fn update_id(r: Seq<u8>) -> u16
    recommends
        r.len() >= 2,
{
    from_be16(r)
}

/// The update at the start of `r`, which begins behind the message's tag: id,
/// sequence number, value. `found` is what the table holds under the id: the
/// name of the entry and a value of its type, by which the new value is read.
pub open spec fn decode_update(r: Seq<u8>, found: Option<(Seq<char>, ValueView)>) -> Parse<
    EntryView,
    ErrorView,
> {
    if r.len() < 4 {
        Parse::Incomplete((4 - r.len()) as usize)
    } else {
        match found {
            None => Parse::Invalid(ErrorView::IdDoesntExist(update_id(r))),
            Some((name, sample)) => match decode_payload(sample.type_tag(), r.skip(4)) {
                Parse::Incomplete(missing) => Parse::Incomplete(missing),
                Parse::Invalid(error) => Parse::Invalid(error),
                Parse::Complete(value, m) => Parse::Complete(
                    EntryView { name, id: update_id(r), sequence: from_be16(r.skip(2)), value },
                    (4 + m) as usize,
                ),
            },
        }
    }
}

/// What the table holds under an id, as mathematical values.
pub open spec fn found_view(found: Option<(String, EntryType)>) -> Option<(Seq<char>, ValueView)> {
    match found {
        Some((name, sample)) => Some((name@, sample@)),
        None => None,
    }
}

/// `String::from_utf8` of std, whose result is taken on trust: the text that
/// `bytes` spell in UTF-8, and `None` exactly if they are not UTF-8.
#[verifier::external_body]
fn string_from_utf8(bytes: Vec<u8>) -> (res: Option<String>)
    ensures
        res is Some <==> valid_utf8(bytes@),
        res matches Some(s) ==> s@ == decode_utf8(bytes@),
{
    String::from_utf8(bytes).ok()
}

/// Reads the string at the start of `r`.
pub fn scan_string(r: &[u8]) -> (res: Parse<String, NtError>)
    ensures
        res@ == decode_string(r@),
{
    if r.len() < 2 {
        return Parse::Incomplete(2 - r.len());
    }
    let length: usize = read_be_u16(r) as usize;
    if r.len() - 2 < length {
        return Parse::Incomplete(length - (r.len() - 2));
    }
    let vec = slice_to_vec(slice_subrange(r, 2, 2 + length));
    match string_from_utf8(vec) {
        Some(s) => Parse::Complete(s, 2 + length),
        None => Parse::Invalid(NtError { kind: NtErrorKind::StringConversionError }),
    }
}

/// Reads the value at the start of `r` as the type that `tag` announces.
pub fn scan_payload(tag: u8, r: &[u8]) -> (res: Parse<EntryType, NtError>)
    ensures
        res@ == decode_payload(tag, r@),
{
    if tag == TYPE_BOOLEAN {
        if r.len() < 1 {
            Parse::Incomplete(1)
        } else {
            Parse::Complete(EntryType::Boolean(r[0] != 0u8), 1)
        }
    } else if tag == TYPE_NUMBER {
        if r.len() < 8 {
            Parse::Incomplete(8 - r.len())
        } else {
            Parse::Complete(EntryType::Number(read_be_u64(r)), 8)
        }
    } else if tag == TYPE_STRING {
        match scan_string(r) {
            Parse::Complete(s, used) => Parse::Complete(EntryType::String(s), used),
            Parse::Incomplete(missing) => Parse::Incomplete(missing),
            Parse::Invalid(error) => Parse::Invalid(error),
        }
    } else {
        Parse::Invalid(NtError { kind: NtErrorKind::UnsupportedType(tag) })
    }
}

/// Reads the assignment at the start of `r`, which begins behind the
/// message's tag.
pub fn scan_assignment(r: &[u8]) -> (res: Parse<Entry, NtError>)
    ensures
        res@ == decode_assignment(r@),
{
    let (name, n) = match scan_string(r) {
        Parse::Complete(name, n) => (name, n),
        Parse::Incomplete(missing) => { return Parse::Incomplete(missing); },
        Parse::Invalid(error) => { return Parse::Invalid(error); },
    };
    if r.len() - n < 5 {
        return Parse::Incomplete(5 - (r.len() - n));
    }
    let typ: u8 = r[n];
    let id: u16 = read_be_u16(slice_subrange(r, n + 1, r.len()));
    let seq_number = SequenceNumber(read_be_u16(slice_subrange(r, n + 3, r.len())));
    match scan_payload(typ, slice_subrange(r, n + 5, r.len())) {
        Parse::Complete(value, m) => Parse::Complete(
            Entry { name, id, sequence: seq_number, value },
            n + 5 + m,
        ),
        Parse::Incomplete(missing) => Parse::Incomplete(missing),
        Parse::Invalid(error) => Parse::Invalid(error),
    }
}

/// Reads the update at the start of `r`, which begins behind the message's
/// tag. Once id and sequence number are there, `f` is asked for the entry
/// with that id: its name, and a value of its type.
pub fn scan_update<F: FnOnce(u16) -> Option<(String, EntryType)>>(r: &[u8], f: F) -> (res: Parse<
    Entry,
    NtError,
>)
    requires
        r@.len() >= 4 ==> call_requires(f, (update_id(r@),)),
    ensures
        r@.len() < 4 ==> res@ == decode_update(r@, None),
        r@.len() >= 4 ==> exists|found: Option<(String, EntryType)>|
            {
                &&& call_ensures(f, (update_id(r@),), found)
                &&& res@ == decode_update(r@, found_view(found))
            },
{
    if r.len() < 4 {
        return Parse::Incomplete(4 - r.len());
    }
    let id: u16 = read_be_u16(r);
    let seq_number = SequenceNumber(read_be_u16(slice_subrange(r, 2, r.len())));
    let found = f(id);
    let ghost answer = found;
    let (name, entry_type) = match found {
        Some((name, entry_type)) => (name, entry_type),
        None => {
            let res = Parse::Invalid(NtError { kind: NtErrorKind::IdDoesntExist(id) });
            assert(res@ == decode_update(r@, found_view(answer)));
            return res;
        },
    };
    let tag: u8 = match entry_type {
        EntryType::Boolean(_) => TYPE_BOOLEAN,
        EntryType::Number(_) => TYPE_NUMBER,
        EntryType::String(_) => TYPE_STRING,
    };
    let res = match scan_payload(tag, slice_subrange(r, 4, r.len())) {
        Parse::Complete(value, m) => Parse::Complete(
            Entry { name, id, sequence: seq_number, value },
            4 + m,
        ),
        Parse::Incomplete(missing) => Parse::Incomplete(missing),
        Parse::Invalid(error) => Parse::Invalid(error),
    };
    assert(res@ == decode_update(r@, found_view(answer)));
    res
}

/// Settles an outcome for a caller that cannot wait for more bytes.
fn settle<T: View>(outcome: Parse<T, NtError>) -> (res: NtResult<(T, usize)>)
    ensures
        parsed(res) == outcome@.settled(),
{
    match outcome {
        Parse::Complete(item, used) => Ok((item, used)),
        Parse::Incomplete(_) => Err(NtError::from(IoCause::end_of_file())),
        Parse::Invalid(error) => Err(error),
    }
}

/// Reads the string at the start of `r`, and says how many bytes it took.
/// Fails with `NetworkProblem` if `r` ends too early and with
/// `StringConversionError` if the bytes are not UTF-8.
pub fn parse_string(r: &[u8]) -> (res: NtResult<(String, usize)>)
    ensures
        parsed(res) == decode_string(r@).settled(),
{
    settle(scan_string(r))
}

/// Reads the assignment at the start of `r`, which begins behind the
/// message's tag, and says how many bytes it took. Fails with
/// `NetworkProblem` if `r` ends too early, with `StringConversionError` if a
/// string is not UTF-8 and with `UnsupportedType` if the type is none of
/// boolean, number and string.
pub fn parse_assignment(r: &[u8]) -> (res: NtResult<(Entry, usize)>)
    ensures
        parsed(res) == decode_assignment(r@).settled(),
{
    settle(scan_assignment(r))
}

/// Reads the update at the start of `r`, which begins behind the message's
/// tag, and says how many bytes it took. `f` is asked for the entry with the
/// update's id. Fails with `NetworkProblem` if `r` ends too early, with
/// `IdDoesntExist` if `f` knows no such entry and with
/// `StringConversionError` if a string is not UTF-8.
pub fn parse_update<F: FnOnce(u16) -> Option<(String, EntryType)>>(r: &[u8], f: F) -> (res:
    NtResult<(Entry, usize)>)
    requires
        r@.len() >= 4 ==> call_requires(f, (update_id(r@),)),
    ensures
        r@.len() < 4 ==> parsed(res) == decode_update(r@, None).settled(),
        r@.len() >= 4 ==> exists|found: Option<(String, EntryType)>|
            {
                &&& call_ensures(f, (update_id(r@),), found)
                &&& parsed(res) == decode_update(r@, found_view(found)).settled()
            },
{
    settle(scan_update(r, f))
}

/// A string that takes at most 65535 bytes is read back as it was written,
/// whatever follows it.
pub proof fn law_string_round_trip(s: Seq<char>, rest: Seq<u8>)
    requires
        encode_utf8(s).len() <= 65535,
    ensures
        decode_string(string_frame(s) + rest) == Parse::<Seq<char>, ErrorView>::Complete(
            s,
            string_frame(s).len() as usize,
        ),
        string_frame(s).len() == 2 + encode_utf8(s).len(),
{
    let bytes = encode_utf8(s);
    let n = bytes.len() as u16;
    let r = string_frame(s) + rest;
    assert(r =~= be16(n) + (bytes + rest));
    lemma_be16_read_back(n, bytes + rest);
    assert(r.subrange(2, 2 + n) =~= bytes);
    encode_utf8_valid_utf8(s);
    encode_utf8_decode_utf8(s);
}

/// A value that fits the wire is read back as it was written, whatever
/// follows it.
pub proof fn law_payload_round_trip(v: ValueView, rest: Seq<u8>)
    requires
        v.fits(),
    ensures
        decode_payload(v.type_tag(), payload_frame(v) + rest) == Parse::<
            ValueView,
            ErrorView,
        >::Complete(v, payload_frame(v).len() as usize),
        1 <= payload_frame(v).len() <= 65537,
{
    match v {
        ValueView::Boolean(b) => {},
        ValueView::Number(n) => {
            lemma_be64_read_back(n, rest);
        },
        ValueView::String(s) => {
            law_string_round_trip(s, rest);
        },
    }
}

/// Behind a first part of any bytes, a type tag, an id and a sequence number
/// are found where an assignment keeps them.
proof fn lemma_assignment_middle(first: Seq<u8>, tag: u8, id: u16, sequence: u16, last: Seq<u8>)
    ensures
        ({
            let r = first + (seq![tag] + be16(id) + be16(sequence) + last);
            let n = first.len() as int;
            &&& r.len() == n + 5 + last.len()
            &&& r[n] == tag
            &&& from_be16(r.skip(n + 1)) == id
            &&& from_be16(r.skip(n + 3)) == sequence
            &&& r.skip(n + 5) == last
        }),
{
    let r = first + (seq![tag] + be16(id) + be16(sequence) + last);
    let n = first.len() as int;
    assert(r.skip(n + 1) =~= be16(id) + (be16(sequence) + last));
    lemma_be16_read_back(id, be16(sequence) + last);
    assert(r.skip(n + 3) =~= be16(sequence) + last);
    lemma_be16_read_back(sequence, last);
    assert(r.skip(n + 5) =~= last);
}

/// An assignment written for an entry that fits the wire is read back as
/// that entry, whatever follows it: name, id, sequence number and value are
/// those that were written.
pub proof fn law_assignment_round_trip(e: EntryView, rest: Seq<u8>)
    requires
        e.fits(),
    ensures
        assignment_frame(e)[0] == ENTRY_ASSIGNMENT,
        decode_assignment(assignment_frame(e).skip(1) + rest) == Parse::<
            EntryView,
            ErrorView,
        >::Complete(e, (assignment_frame(e).len() - 1) as usize),
{
    let name = string_frame(e.name);
    let tag = e.value.type_tag();
    let last = payload_frame(e.value) + rest;
    let tail = seq![tag] + be16(e.id) + be16(e.sequence) + last;
    let r = assignment_frame(e).skip(1) + rest;
    assert(r =~= name + tail);
    law_string_round_trip(e.name, tail);
    lemma_assignment_middle(name, tag, e.id, e.sequence, last);
    law_payload_round_trip(e.value, rest);
}

/// An update written for an entry whose value fits the wire is read back as
/// that entry, whatever follows it, if the table answers the id with the
/// entry's name and with a value of the same type as the entry's.
pub proof fn law_update_round_trip(e: EntryView, sample: ValueView, rest: Seq<u8>)
    requires
        e.value.fits(),
        sample.type_tag() == e.value.type_tag(),
    ensures
        update_frame(e)[0] == ENTRY_UPDATE,
        update_id(update_frame(e).skip(1) + rest) == e.id,
        decode_update(update_frame(e).skip(1) + rest, Some((e.name, sample))) == Parse::<
            EntryView,
            ErrorView,
        >::Complete(e, (update_frame(e).len() - 1) as usize),
{
    let r = update_frame(e).skip(1) + rest;
    assert(r =~= be16(e.id) + (be16(e.sequence) + payload_frame(e.value) + rest));
    lemma_be16_read_back(e.id, be16(e.sequence) + payload_frame(e.value) + rest);
    assert(r.skip(2) =~= be16(e.sequence) + (payload_frame(e.value) + rest));
    lemma_be16_read_back(e.sequence, payload_frame(e.value) + rest);
    assert(r.skip(4) =~= payload_frame(e.value) + rest);
    law_payload_round_trip(e.value, rest);
}

/// A string is read in the same way whatever follows it, and while bytes of
/// it are missing the reader says how many.
pub proof fn law_string_reading_is_stable(r: Seq<u8>, rest: Seq<u8>)
    requires
        decode_string(r).holds_for(rest.len()),
    ensures
        decode_string(r + rest) == decode_string(r).after(rest.len()),
        decode_string(r).within(r.len()),
{
    let long = r + rest;
    if r.len() >= 2 {
        assert(long[0] == r[0] && long[1] == r[1]);
        let n = from_be16(r) as int;
        if r.len() >= 2 + n {
            assert(long.subrange(2, 2 + n) =~= r.subrange(2, 2 + n));
        }
    }
}

/// A value is read in the same way whatever follows it, and while bytes of
/// it are missing the reader says how many.
pub proof fn law_payload_reading_is_stable(tag: u8, r: Seq<u8>, rest: Seq<u8>)
    requires
        decode_payload(tag, r).holds_for(rest.len()),
    ensures
        decode_payload(tag, r + rest) == decode_payload(tag, r).after(rest.len()),
        decode_payload(tag, r).within(r.len()),
{
    let long = r + rest;
    if tag == TYPE_BOOLEAN {
        if r.len() >= 1 {
            assert(long[0] == r[0]);
        }
    } else if tag == TYPE_NUMBER {
        if r.len() >= 8 {
            assert(long[0] == r[0] && long[1] == r[1] && long[2] == r[2] && long[3] == r[3]);
            assert(long[4] == r[4] && long[5] == r[5] && long[6] == r[6] && long[7] == r[7]);
        }
    } else if tag == TYPE_STRING {
        law_string_reading_is_stable(r, rest);
    }
}

/// An assignment is read in the same way whatever follows it, and while
/// bytes of it are missing the reader says how many.
pub proof fn law_assignment_reading_is_stable(r: Seq<u8>, rest: Seq<u8>)
    requires
        decode_assignment(r).holds_for(rest.len()),
    ensures
        decode_assignment(r + rest) == decode_assignment(r).after(rest.len()),
        decode_assignment(r).within(r.len()),
{
    let long = r + rest;
    law_string_reading_is_stable(r, rest);
    match decode_string(r) {
        Parse::Complete(name, n) => {
            if r.len() >= n + 5 {
                assert(long[n as int] == r[n as int]);
                assert(long.skip(n + 1)[0] == r.skip(n + 1)[0]);
                assert(long.skip(n + 1)[1] == r.skip(n + 1)[1]);
                assert(long.skip(n + 3)[0] == r.skip(n + 3)[0]);
                assert(long.skip(n + 3)[1] == r.skip(n + 3)[1]);
                assert(long.skip(n + 5) =~= r.skip(n + 5) + rest);
                law_payload_reading_is_stable(r[n as int], r.skip(n + 5), rest);
            }
        },
        _ => {},
    }
}

/// An update is read in the same way whatever follows it, and while bytes
/// of it are missing the reader says how many.
pub proof fn law_update_reading_is_stable(
    r: Seq<u8>,
    found: Option<(Seq<char>, ValueView)>,
    rest: Seq<u8>,
)
    requires
        decode_update(r, found).holds_for(rest.len()),
    ensures
        decode_update(r + rest, found) == decode_update(r, found).after(rest.len()),
        decode_update(r, found).within(r.len()),
        r.len() >= 2 ==> update_id(r + rest) == update_id(r),
{
    let long = r + rest;
    if r.len() >= 2 {
        assert(long[0] == r[0] && long[1] == r[1]);
    }
    if r.len() >= 4 {
        assert(long.skip(2)[0] == r.skip(2)[0]);
        assert(long.skip(2)[1] == r.skip(2)[1]);
        assert(long.skip(4) =~= r.skip(4) + rest);
        match found {
            Some((_, sample)) => {
                law_payload_reading_is_stable(sample.type_tag(), r.skip(4), rest);
            },
            None => {},
        }
    }
}

/// The value that a reader gives is of the type that was announced.
pub proof fn law_payload_has_announced_type(tag: u8, r: Seq<u8>)
    ensures
        decode_payload(tag, r) matches Parse::Complete(value, _) ==> value.type_tag() == tag,
{
}

/// A string is read from its own bytes alone: what follows them does not
/// matter.
pub proof fn law_string_reading_stops(r: Seq<u8>)
    ensures
        decode_string(r) matches Parse::Complete(_, used) ==> decode_string(r.take(used as int))
            == decode_string(r),
{
    if let Parse::Complete(_, used) = decode_string(r) {
        let short = r.take(used as int);
        assert(short[0] == r[0] && short[1] == r[1]);
        assert(short.subrange(2, used as int) =~= r.subrange(2, used as int));
    }
}

/// A value is read from its own bytes alone: what follows them does not
/// matter.
pub proof fn law_payload_reading_stops(tag: u8, r: Seq<u8>)
    ensures
        decode_payload(tag, r) matches Parse::Complete(_, used) ==> decode_payload(
            tag,
            r.take(used as int),
        ) == decode_payload(tag, r),
{
    if let Parse::Complete(_, used) = decode_payload(tag, r) {
        let short = r.take(used as int);
        if tag == TYPE_BOOLEAN {
            assert(short[0] == r[0]);
        } else if tag == TYPE_NUMBER {
            assert(short[0] == r[0] && short[1] == r[1] && short[2] == r[2] && short[3] == r[3]);
            assert(short[4] == r[4] && short[5] == r[5] && short[6] == r[6] && short[7] == r[7]);
        } else {
            law_string_reading_stops(r);
        }
    }
}

/// An assignment is read from its own bytes alone: what follows them does
/// not matter.
pub proof fn law_assignment_reading_stops(r: Seq<u8>)
    ensures
        decode_assignment(r) matches Parse::Complete(_, used) ==> decode_assignment(
            r.take(used as int),
        ) == decode_assignment(r),
{
    if let Parse::Complete(_, used) = decode_assignment(r) {
        let short = r.take(used as int);
        if let Parse::Complete(name, n) = decode_string(r) {
            let tag = r[n as int];
            let value = r.skip(n + 5);
            assert(decode_string(short) == decode_string(r)) by {
                assert(short[0] == r[0] && short[1] == r[1]);
                assert(short.subrange(2, n as int) =~= r.subrange(2, n as int));
            }
            assert(short[n as int] == tag);
            assert(from_be16(short.skip(n + 1)) == from_be16(r.skip(n + 1))) by {
                assert(short.skip(n + 1)[0] == r.skip(n + 1)[0]);
                assert(short.skip(n + 1)[1] == r.skip(n + 1)[1]);
            }
            assert(from_be16(short.skip(n + 3)) == from_be16(r.skip(n + 3))) by {
                assert(short.skip(n + 3)[0] == r.skip(n + 3)[0]);
                assert(short.skip(n + 3)[1] == r.skip(n + 3)[1]);
            }
            assert(decode_payload(tag, short.skip(n + 5)) == decode_payload(tag, value)) by {
                law_payload_reading_stops(tag, value);
                assert(short.skip(n + 5) =~= value.take(used - n - 5));
            }
        }
    }
}

/// An update is read from its own bytes alone: what follows them does not
/// matter.
pub proof fn law_update_reading_stops(r: Seq<u8>, found: Option<(Seq<char>, ValueView)>)
    ensures
        decode_update(r, found) matches Parse::Complete(_, used) ==> decode_update(
            r.take(used as int),
            found,
        ) == decode_update(r, found) && update_id(r.take(used as int)) == update_id(r),
{
    if let Parse::Complete(_, used) = decode_update(r, found) {
        let short = r.take(used as int);
        assert(short[0] == r[0] && short[1] == r[1]);
        assert(short.skip(2)[0] == r.skip(2)[0]);
        assert(short.skip(2)[1] == r.skip(2)[1]);
        if let Some((_, sample)) = found {
            law_payload_reading_stops(sample.type_tag(), r.skip(4));
            assert(short.skip(4) =~= r.skip(4).take(used - 4));
        }
    }
}

} // verus!
