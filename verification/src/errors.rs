//! What can go wrong in a session, as values.

use crate::sequence_numbers::SequenceNumber;
use vstd::prelude::*;
use vstd::std_specs::convert::FromSpecImpl;
use vstd::string::StringExecFns;

verus! {

pub type NtResult<T> = Result<T, NtError>;

/// The way in which the transport failed.
#[derive(Debug, Clone, Copy, PartialEq, Eq, Structural)]
pub enum IoCauseKind {
    /// The stream ended before the bytes that were asked for had arrived.
    EndOfFile,
    ConnectionRefused,
    ConnectionReset,
    ConnectionAborted,
    NotConnected,
    BrokenPipe,
    TimedOut,
    /// Any other failure.
    Other,
}

/// A failure of the transport: its kind and, where there is one, the text that
/// came with it.
#[derive(Debug, PartialEq, Eq)]
pub struct IoCause {
    pub kind: IoCauseKind,
    pub detail: Option<String>,
}

/// An [`IoCause`] as a mathematical value.
pub struct IoCauseView {
    pub kind: IoCauseKind,
    pub detail: Option<Seq<char>>,
}

impl View for IoCause {
    type V = IoCauseView;

    open spec fn view(&self) -> IoCauseView {
        IoCauseView {
            kind: self.kind,
            detail: match self.detail {
                Some(s) => Some(s@),
                None => None,
            },
        }
    }
}

impl IoCause {
    /// The cause that the decoders report when a message stops short.
    pub fn end_of_file() -> (c: IoCause)
        ensures
            c@ == end_of_file(),
    {
        IoCause { kind: IoCauseKind::EndOfFile, detail: None }
    }
}

/// The stream ended early, and nothing more is known.
pub open spec fn end_of_file() -> IoCauseView {
    IoCauseView { kind: IoCauseKind::EndOfFile, detail: None }
}

impl Clone for IoCause {
    fn clone(&self) -> (c: IoCause)
        ensures
            c == *self,
    {
        IoCause {
            kind: self.kind,
            detail: match &self.detail {
                Some(s) => Some(s.clone()),
                None => None,
            },
        }
    }
}

/// The kinds of error, each with what identifies the offending input.
#[derive(Debug, PartialEq, Eq)]
pub enum NtErrorKind {
    /// A value-type byte that stands for no supported type.
    UnsupportedType(u8),
    /// Bytes sent as a string were not UTF-8.
    StringConversionError,
    /// An assignment named a key that the table already holds.
    KeyAlreadyExists(String),
    /// An assignment carried an id that the table already holds.
    IdAlreadyExists(u16),
    /// An update referred to an id that the table does not hold.
    IdDoesntExist(u16),
    /// An update whose sequence number (the second) does not come after the
    /// stored one (the first).
    OutOfOrderSequenceNumbers(SequenceNumber, SequenceNumber),
    /// The transport failed.
    NetworkProblem(IoCause),
}

/// An [`NtErrorKind`] as a mathematical value.
pub enum ErrorView {
    UnsupportedType(u8),
    StringConversionError,
    KeyAlreadyExists(Seq<char>),
    IdAlreadyExists(u16),
    IdDoesntExist(u16),
    OutOfOrderSequenceNumbers(u16, u16),
    NetworkProblem(IoCauseView),
}

impl View for NtErrorKind {
    type V = ErrorView;

    open spec fn view(&self) -> ErrorView {
        match *self {
            NtErrorKind::UnsupportedType(t) => ErrorView::UnsupportedType(t),
            NtErrorKind::StringConversionError => ErrorView::StringConversionError,
            NtErrorKind::KeyAlreadyExists(key) => ErrorView::KeyAlreadyExists(key@),
            NtErrorKind::IdAlreadyExists(id) => ErrorView::IdAlreadyExists(id),
            NtErrorKind::IdDoesntExist(id) => ErrorView::IdDoesntExist(id),
            NtErrorKind::OutOfOrderSequenceNumbers(old_seq, new_seq) => {
                ErrorView::OutOfOrderSequenceNumbers(old_seq.0, new_seq.0)
            },
            NtErrorKind::NetworkProblem(cause) => ErrorView::NetworkProblem(cause@),
        }
    }
}

impl Clone for NtErrorKind {
    fn clone(&self) -> (k: NtErrorKind)
        ensures
            k == *self,
    {
        match self {
            NtErrorKind::UnsupportedType(t) => NtErrorKind::UnsupportedType(*t),
            NtErrorKind::StringConversionError => NtErrorKind::StringConversionError,
            NtErrorKind::KeyAlreadyExists(key) => NtErrorKind::KeyAlreadyExists(key.clone()),
            NtErrorKind::IdAlreadyExists(id) => NtErrorKind::IdAlreadyExists(*id),
            NtErrorKind::IdDoesntExist(id) => NtErrorKind::IdDoesntExist(*id),
            NtErrorKind::OutOfOrderSequenceNumbers(old_seq, new_seq) => {
                NtErrorKind::OutOfOrderSequenceNumbers(*old_seq, *new_seq)
            },
            NtErrorKind::NetworkProblem(cause) => NtErrorKind::NetworkProblem(cause.clone()),
        }
    }
}

/// An error of the client.
#[derive(Debug, PartialEq, Eq)]
pub struct NtError {
    pub kind: NtErrorKind,
}

impl View for NtError {
    type V = ErrorView;

    open spec fn view(&self) -> ErrorView {
        self.kind@
    }
}

impl Clone for NtError {
    fn clone(&self) -> (e: NtError)
        ensures
            e == *self,
    {
        NtError { kind: self.kind.clone() }
    }
}

impl From<IoCause> for NtError {
    fn from(err: IoCause) -> (e: NtError) {
        NtError { kind: NtErrorKind::NetworkProblem(err) }
    }
}

impl FromSpecImpl<IoCause> for NtError {
    open spec fn obeys_from_spec() -> bool {
        true
    }

    open spec fn from_spec(err: IoCause) -> NtError {
        NtError { kind: NtErrorKind::NetworkProblem(err) }
    }
}

/// The character for a digit.
pub open spec fn digit_char(d: nat) -> char
    recommends
        d < 10,
{
    if d == 0 {
        '0'
    } else if d == 1 {
        '1'
    } else if d == 2 {
        '2'
    } else if d == 3 {
        '3'
    } else if d == 4 {
        '4'
    } else if d == 5 {
        '5'
    } else if d == 6 {
        '6'
    } else if d == 7 {
        '7'
    } else if d == 8 {
        '8'
    } else {
        '9'
    }
}

/// A number in decimal digits, without leading zeros.
pub open spec fn decimal_text(n: nat) -> Seq<char>
    decreases n,
{
    if n < 10 {
        seq![digit_char(n)]
    } else {
        decimal_text(n / 10).push(digit_char(n % 10))
    }
}

/// What kind of error this is, in a few words.
pub open spec fn description_text(error: ErrorView) -> Seq<char> {
    match error {
        ErrorView::UnsupportedType(_) => "Unsupported entry type."@,
        ErrorView::StringConversionError => "Error parsing string."@,
        ErrorView::KeyAlreadyExists(_) => "Key={} already exists."@,
        ErrorView::IdAlreadyExists(_) => "ID={} already exists."@,
        ErrorView::IdDoesntExist(_) => "ID={} Doesn't exists."@,
        ErrorView::OutOfOrderSequenceNumbers(_, _) => "Sequence number {} does not follow {}."@,
        ErrorView::NetworkProblem(_) => "Problem connecting to server."@,
    }
}

/// The error in words, with the input that caused it, where there is more to
/// say than its description does.
pub open spec fn detail_text(error: ErrorView) -> Option<Seq<char>> {
    match error {
        ErrorView::UnsupportedType(t) => Some(
            "Unsupported entry type="@ + decimal_text(t as nat) + "."@,
        ),
        ErrorView::StringConversionError => None,
        ErrorView::KeyAlreadyExists(key) => Some("Key="@ + key + " already exists."@),
        ErrorView::IdAlreadyExists(id) => Some(
            "ID="@ + decimal_text(id as nat) + " already exists."@,
        ),
        ErrorView::IdDoesntExist(id) => Some(
            "ID="@ + decimal_text(id as nat) + " Doesn't exists."@,
        ),
        ErrorView::OutOfOrderSequenceNumbers(old_seq, new_seq) => Some(
            "Sequence number "@ + decimal_text(new_seq as nat) + " does not follow "@
                + decimal_text(old_seq as nat) + "."@,
        ),
        ErrorView::NetworkProblem(cause) => cause.detail,
    }
}

/// The text for one digit.
fn digit(d: u16) -> (text: &'static str)
    requires
        d < 10,
    ensures
        text@ == seq![digit_char(d as nat)],
{
    proof {
        reveal_strlit("0");
        reveal_strlit("1");
        reveal_strlit("2");
        reveal_strlit("3");
        reveal_strlit("4");
        reveal_strlit("5");
        reveal_strlit("6");
        reveal_strlit("7");
        reveal_strlit("8");
        reveal_strlit("9");
    }
    let text = if d == 0 {
        "0"
    } else if d == 1 {
        "1"
    } else if d == 2 {
        "2"
    } else if d == 3 {
        "3"
    } else if d == 4 {
        "4"
    } else if d == 5 {
        "5"
    } else if d == 6 {
        "6"
    } else if d == 7 {
        "7"
    } else if d == 8 {
        "8"
    } else {
        "9"
    };
    assert(text@ =~= seq![digit_char(d as nat)]);
    text
}

/// Appends `n` in decimal digits.
fn append_decimal(text: &mut String, n: u16)
    ensures
        final(text)@ == old(text)@ + decimal_text(n as nat),
    decreases n,
{
    if n >= 10 {
        append_decimal(text, n / 10);
    }
    text.append(digit(n % 10));
    assert(text@ =~= old(text)@ + decimal_text(n as nat));
}

impl NtError {
    /// What kind of error this is, in a few words.
    pub fn description(&self) -> (text: &'static str)
        ensures
            text@ == description_text(self@),
    {
        match self.kind {
            NtErrorKind::UnsupportedType(_) => "Unsupported entry type.",
            NtErrorKind::StringConversionError => "Error parsing string.",
            NtErrorKind::KeyAlreadyExists(_) => "Key={} already exists.",
            NtErrorKind::IdAlreadyExists(_) => "ID={} already exists.",
            NtErrorKind::IdDoesntExist(_) => "ID={} Doesn't exists.",
            NtErrorKind::OutOfOrderSequenceNumbers(_, _) => {
                "Sequence number {} does not follow {}."
            },
            NtErrorKind::NetworkProblem(_) => "Problem connecting to server.",
        }
    }

    /// The error in words, with the input that caused it. `None` where
    /// there is no more to say than the description does.
    pub fn detail(&self) -> (text: Option<String>)
        ensures
            text is Some <==> detail_text(self@) is Some,
            text matches Some(s) ==> Some(s@) == detail_text(self@),
    {
        match &self.kind {
            NtErrorKind::UnsupportedType(entry_type) => {
                let mut text = String::from_str("Unsupported entry type=");
                append_decimal(&mut text, *entry_type as u16);
                text.append(".");
                Some(text)
            },
            NtErrorKind::StringConversionError => None,
            NtErrorKind::KeyAlreadyExists(key) => {
                let mut text = String::from_str("Key=");
                text.append(key.as_str());
                text.append(" already exists.");
                Some(text)
            },
            NtErrorKind::IdAlreadyExists(id) => {
                let mut text = String::from_str("ID=");
                append_decimal(&mut text, *id);
                text.append(" already exists.");
                Some(text)
            },
            NtErrorKind::IdDoesntExist(id) => {
                let mut text = String::from_str("ID=");
                append_decimal(&mut text, *id);
                text.append(" Doesn't exists.");
                Some(text)
            },
            NtErrorKind::OutOfOrderSequenceNumbers(old_seq, new_seq) => {
                let mut text = String::from_str("Sequence number ");
                append_decimal(&mut text, new_seq.as_u16());
                text.append(" does not follow ");
                append_decimal(&mut text, old_seq.as_u16());
                text.append(".");
                Some(text)
            },
            NtErrorKind::NetworkProblem(err) => match &err.detail {
                Some(s) => Some(s.clone()),
                None => None,
            },
        }
    }

    /// The failure of the transport that lies behind this error, if one does.
    pub fn cause(&self) -> (cause: Option<&IoCause>)
        ensures
            match self.kind {
                NtErrorKind::NetworkProblem(err) => cause == Some(&err),
                _ => cause is None,
            },
    {
        match &self.kind {
            NtErrorKind::NetworkProblem(err) => Some(err),
            _ => None,
        }
    }
}

} // verus!
