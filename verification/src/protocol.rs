//! What passes between the dev server and its clients: the frames that a
//! client sends, the frame that tells a client to run a bundle, and the
//! account of a runtime error, in which every line of the bundle is led back
//! to the module it came from.

use vstd::prelude::*;
use vstd::string::StringExecFns;
use crate::decode::{get_texts, texts_of};
use crate::encode::{strings_text, write_strings};
use crate::json::{json_document, parse_json};
use crate::source_map::{locate_line, map_to_source, SourceMap};
use crate::text::views;

verus! {

/// A runtime error as a client reports it. The line numbers are lines of the
/// bundle.
#[derive(Debug)]
pub struct ErrorLog {
    /// The lines that the message names.
    pub message_lines: Vec<usize>,
    /// The lines of the stack trace, innermost first.
    pub stack_trace_lines: Vec<usize>,
    /// The message.
    pub message_content: String,
}

/// A frame from a client.
#[derive(Debug)]
pub enum ClientMessage {
    /// The client has connected, under this name.
    Connected(String),
    /// The client reports a runtime error, as the JSON text of an `ErrorLog`.
    Error(String),
    /// Anything else.
    Unknown,
}

/// A `ClientMessage` with its text as characters.
pub enum MessageView {
    Connected(Seq<char>),
    Error(Seq<char>),
    Unknown,
}

impl View for ClientMessage {
    type V = MessageView;

    open spec fn view(&self) -> MessageView {
        match self {
            ClientMessage::Connected(name) => MessageView::Connected(name@),
            ClientMessage::Error(payload) => MessageView::Error(payload@),
            ClientMessage::Unknown => MessageView::Unknown,
        }
    }
}

/// The strings of the JSON array that a text holds, or none where the text
/// is no JSON array of strings.
pub open spec fn frame_strings(text: Seq<char>) -> Option<Seq<Seq<char>>> {
    match json_document(text) {
        Some(json) => texts_of(json),
        None => None,
    }
}

/// What a frame says: its first string is the kind, its second the payload.
pub open spec fn classified(parts: Seq<Seq<char>>) -> MessageView {
    if parts.len() >= 2 && parts[0] == "connected"@ {
        MessageView::Connected(parts[1])
    } else if parts.len() >= 2 && parts[0] == "error"@ {
        MessageView::Error(parts[1])
    } else {
        MessageView::Unknown
    }
}

/// The strings of the frame that tells a client to run a bundle.
pub open spec fn exec_parts(bundle: Seq<char>) -> Seq<Seq<char>> {
    seq!["exec"@, bundle]
}

/// One decimal digit.
pub open spec fn digit(d: nat) -> char {
    if d == 0 {
        '0'
    } else if d == 1 {
        '1'
    } else if d == 2 {
        '2'
    } else if d == 3 {
        '3'
    } else if d == 4 {
        '4'
    } else if d == 5 {
        '5'
    } else if d == 6 {
        '6'
    } else if d == 7 {
        '7'
    } else if d == 8 {
        '8'
    } else {
        '9'
    }
}

/// A number in decimal, without leading zeros.
pub open spec fn decimal(n: nat) -> Seq<char>
    decreases n,
{
    if n < 10 {
        seq![digit(n)]
    } else {
        decimal(n / 10).push(digit(n % 10))
    }
}

/// The module and the line within it that a line of the bundle stands for;
/// `Unknown` and 0 where the map does not know the line.
pub open spec fn origin(map: SourceMap, line: usize) -> (Seq<char>, int) {
    match locate_line(views(map.files@), map.sources@, line) {
        Some(found) => found,
        None => ("Unknown"@, 0),
    }
}

/// A place in the sources: `<module>:<line>`.
pub open spec fn position_text(map: SourceMap, line: usize) -> Seq<char> {
    origin(map, line).0 + ":"@ + decimal(origin(map, line).1 as nat)
}

/// A line of the stack trace: a tab, then `File '<module>:<line>'`.
pub open spec fn stack_text(map: SourceMap, line: usize) -> Seq<char> {
    "\tFile '"@ + position_text(map, line) + "'"@
}

/// Says what a frame of strings is: `connected` with a name, `error` with a
/// report, or neither.
pub fn classify(parts: &Vec<String>) -> (message: ClientMessage)
    ensures
        message@ == classified(views(parts@)),
{
    if parts.len() < 2 {
        return ClientMessage::Unknown;
    }
    proof {
        assert(views(parts@)[0] == parts@[0]@);
        assert(views(parts@)[1] == parts@[1]@);
    }
    if parts[0] == String::from_str("connected") {
        ClientMessage::Connected(parts[1].clone())
    } else if parts[0] == String::from_str("error") {
        ClientMessage::Error(parts[1].clone())
    } else {
        ClientMessage::Unknown
    }
}

/// Reads the text of a frame from a client. The error says what is wrong
/// with a text that is no JSON array of strings.
pub fn receive(text: &str) -> (received: Result<ClientMessage, String>)
    ensures
        match received {
            Ok(message) => frame_strings(text@) is Some && message@ == classified(
                frame_strings(text@)->0,
            ),
            Err(_) => frame_strings(text@) is None,
        },
{
    match parse_json(text) {
        Ok(json) => match get_texts(&json) {
            Some(parts) => Ok(classify(&parts)),
            None => Err(String::from_str("a frame is an array of strings")),
        },
        Err(message) => Err(message),
    }
}

/// The text of the frame that tells a client to run `bundle`: the JSON array
/// of `exec` and the bundle.
pub fn exec_message(bundle: &str) -> (message: String)
    ensures
        message@ == strings_text(exec_parts(bundle@)),
{
    let mut parts: Vec<String> = Vec::new();
    parts.push(String::from_str("exec"));
    parts.push(String::from_str(bundle));
    proof {
        assert(views(parts@) =~= exec_parts(bundle@));
    }
    write_strings(&parts)
}

fn digit_str(d: usize) -> (text: &'static str)
    requires
        d < 10,
    ensures
        text@ == seq![digit(d as nat)],
{
    proof {
        reveal_strlit("0");
        reveal_strlit("1");
        reveal_strlit("2");
        reveal_strlit("3");
        reveal_strlit("4");
        reveal_strlit("5");
        reveal_strlit("6");
        reveal_strlit("7");
        reveal_strlit("8");
        reveal_strlit("9");
    }
    let text = if d == 0 {
        "0"
    } else if d == 1 {
        "1"
    } else if d == 2 {
        "2"
    } else if d == 3 {
        "3"
    } else if d == 4 {
        "4"
    } else if d == 5 {
        "5"
    } else if d == 6 {
        "6"
    } else if d == 7 {
        "7"
    } else if d == 8 {
        "8"
    } else {
        "9"
    };
    proof {
        assert(text@ =~= seq![digit(d as nat)]);
    }
    text
}

/// Writes a number in decimal.
pub fn decimal_string(n: usize) -> (text: String)
    ensures
        text@ == decimal(n as nat),
    decreases n,
{
    if n < 10 {
        String::from_str(digit_str(n))
    } else {
        let mut text = decimal_string(n / 10);
        text.append(digit_str(n % 10));
        proof {
            assert(text@ =~= decimal((n / 10) as nat).push(digit((n % 10) as nat)));
        }
        text
    }
}

/// The place in the sources that a line of the bundle stands for, as
/// `<module>:<line>`; `Unknown:0` where the map does not know the line.
pub fn position(line: usize, map: &SourceMap) -> (text: String)
    ensures
        text@ == position_text(*map, line),
{
    let (file, real_line) = match map_to_source(line, map) {
        Some(found) => found,
        None => (String::from_str("Unknown"), 0),
    };
    let mut text = file;
    text.append(":");
    let number = decimal_string(real_line);
    text.append(number.as_str());
    text
}

/// The places that the message of a report names, in order.
pub fn message_positions(log: &ErrorLog, map: &SourceMap) -> (places: Vec<String>)
    ensures
        places@.len() == log.message_lines@.len(),
        forall|i: int|
            0 <= i < places@.len() ==> places@[i]@ == position_text(*map, log.message_lines@[i]),
{
    let mut places: Vec<String> = Vec::new();
    let mut i: usize = 0;
    while i < log.message_lines.len()
        invariant
            i <= log.message_lines.len(),
            places@.len() == i,
            forall|j: int|
                0 <= j < i ==> places@[j]@ == position_text(*map, log.message_lines@[j]),
        decreases log.message_lines.len() - i,
    {
        places.push(position(log.message_lines[i], map));
        i = i + 1;
    }
    places
}

/// The lines of the stack trace of a report, in order: each a tab and
/// `File '<module>:<line>'`.
pub fn stack_entries(log: &ErrorLog, map: &SourceMap) -> (entries: Vec<String>)
    ensures
        entries@.len() == log.stack_trace_lines@.len(),
        forall|i: int|
            0 <= i < entries@.len() ==> entries@[i]@ == stack_text(
                *map,
                log.stack_trace_lines@[i],
            ),
{
    let mut entries: Vec<String> = Vec::new();
    let mut i: usize = 0;
    while i < log.stack_trace_lines.len()
        invariant
            i <= log.stack_trace_lines.len(),
            entries@.len() == i,
            forall|j: int|
                0 <= j < i ==> entries@[j]@ == stack_text(*map, log.stack_trace_lines@[j]),
        decreases log.stack_trace_lines.len() - i,
    {
        let mut entry = String::from_str("\tFile '");
        let place = position(log.stack_trace_lines[i], map);
        entry.append(place.as_str());
        entry.append("'");
        entries.push(entry);
        i = i + 1;
    }
    entries
}

} // verus!
