//! The command socket's framing: how the backend reads one command line from
//! a client, and how the command-line client checks a command and the reply.
use vstd::prelude::*;
use vstd::string::StringSliceAdditionalSpecFns;
use vstd::utf8::*;

use crate::bytes::utf8_text;
use crate::text::{chars_of, string_of, trim, trim_range};

verus! {

/// The longest command a client may send, in bytes, without its newline.
pub const MAX_COMMAND_BYTES: usize = 128;

/// The longest reply the command-line client accepts, in bytes.
pub const MAX_REPLY_BYTES: usize = 65536;

/// What reading one more byte (or the end of input) means.
#[derive(Clone, Copy, Debug, PartialEq, Eq, Structural)]
pub enum ReadStep {
    /// Keep reading.
    More,
    /// The command is complete.
    Complete,
    /// The input is not a command: the client gets
    /// `error: Invalid or incomplete command`.
    Invalid,
}

/// The bytes of a command read so far.
pub struct CommandReader {
    pub bytes: Vec<u8>,
}

impl CommandReader {
    pub fn new() -> (r: CommandReader)
        ensures
            r.bytes@.len() == 0,
    {
        CommandReader { bytes: Vec::new() }
    }

    /// A byte arrived. A newline ends the command; a command longer than
    /// `MAX_COMMAND_BYTES` is refused.
    pub fn byte(&mut self, b: u8) -> (r: ReadStep)
        ensures
            b == 10u8 ==> r == ReadStep::Complete && final(self).bytes@ == old(self).bytes@,
            b != 10u8 && old(self).bytes@.len() < MAX_COMMAND_BYTES ==> r == ReadStep::More
                && final(self).bytes@ == old(self).bytes@.push(b),
            b != 10u8 && old(self).bytes@.len() >= MAX_COMMAND_BYTES ==> r == ReadStep::Invalid
                && final(self).bytes@ == old(self).bytes@,
    {
        if b == 10u8 {
            ReadStep::Complete
        } else if self.bytes.len() < MAX_COMMAND_BYTES {
            self.bytes.push(b);
            ReadStep::More
        } else {
            ReadStep::Invalid
        }
    }

    /// The client closed its side: what was sent so far is the command,
    /// unless nothing was.
    pub fn end(&self) -> (r: ReadStep)
        ensures
            r == (if self.bytes@.len() > 0 {
                ReadStep::Complete
            } else {
                ReadStep::Invalid
            }),
    {
        if self.bytes.len() > 0 {
            ReadStep::Complete
        } else {
            ReadStep::Invalid
        }
    }

    /// The command as text; `None` when it is not UTF-8.
    pub fn command(&self) -> (r: Option<String>)
        ensures
            r is Some <==> valid_utf8(self.bytes@),
            r matches Some(s) ==> s@ == decode_utf8(self.bytes@),
    {
        match utf8_text(self.bytes.as_slice()) {
            Some(text) => Some(text.to_owned()),
            None => None,
        }
    }
}

/// A command the client may send: short enough, and on one line.
pub open spec fn spec_valid_command(command: &str) -> bool {
    &&& command.spec_bytes().len() <= MAX_COMMAND_BYTES
    &&& forall|i: int|
        0 <= i < command@.len() ==> #[trigger] command@[i] != '\n' && command@[i] != '\r'
            && command@[i] != '\0'
}

pub fn valid_command(command: &str) -> (r: bool)
    ensures
        r == spec_valid_command(command),
{
    if command.as_bytes().len() > MAX_COMMAND_BYTES {
        return false;
    }
    let chars = chars_of(command);
    let mut i: usize = 0;
    while i < chars.len()
        invariant
            chars@ == command@,
            i <= chars@.len(),
            forall|j: int|
                0 <= j < i ==> #[trigger] chars@[j] != '\n' && chars@[j] != '\r' && chars@[j]
                    != '\0',
        decreases chars@.len() - i,
    {
        let c = chars[i];
        if c == '\n' || c == '\r' || c == '\0' {
            return false;
        }
        i = i + 1;
    }
    true
}

/// What the command-line client makes of the backend's reply.
#[derive(Clone, Copy, Debug, PartialEq, Eq, Structural)]
pub enum ReplyOutcome {
    /// Print the reply (the status).
    Print,
    /// The command was carried out.
    Done,
    /// The reply is longer than `MAX_REPLY_BYTES`.
    Oversized,
    /// The backend closed the connection without a reply.
    Empty,
    /// The backend refused the command (the reply, trimmed, says why).
    Refused,
    /// Anything but `ok` for a command other than `status`.
    Unexpected,
}

pub open spec fn starts_with_chars(s: Seq<char>, prefix: Seq<char>) -> bool {
    prefix.len() <= s.len() && s.take(prefix.len() as int) == prefix
}

/// The outcome of a reply, checked in this order: its size, whether it is
/// empty, a refusal, the status, and `ok`.
pub open spec fn spec_reply_outcome(command: Seq<char>, response: &str) -> ReplyOutcome {
    if response.spec_bytes().len() > MAX_REPLY_BYTES {
        ReplyOutcome::Oversized
    } else if response@.len() == 0 {
        ReplyOutcome::Empty
    } else if starts_with_chars(response@, "error:"@) {
        ReplyOutcome::Refused
    } else if command == "status"@ {
        ReplyOutcome::Print
    } else if response@ == "ok\n"@ {
        ReplyOutcome::Done
    } else {
        ReplyOutcome::Unexpected
    }
}

pub fn reply_outcome(command: &str, response: &str) -> (r: ReplyOutcome)
    ensures
        r == spec_reply_outcome(command@, response),
{
    if response.as_bytes().len() > MAX_REPLY_BYTES {
        return ReplyOutcome::Oversized;
    }
    if response.is_empty() {
        return ReplyOutcome::Empty;
    }
    let chars = chars_of(response);
    let prefix = chars_of("error:");
    if prefix.len() <= chars.len() && crate::text::chars_equal(&chars, 0, prefix.len(), &prefix) {
        assert(chars@.subrange(0, prefix@.len() as int) =~= chars@.take(prefix@.len() as int));
        return ReplyOutcome::Refused;
    }
    proof {
        if starts_with_chars(response@, "error:"@) {
            assert(chars@.subrange(0, prefix@.len() as int) =~= chars@.take(prefix@.len() as int));
        }
    }
    if crate::bytes::str_equal(command, "status") {
        return ReplyOutcome::Print;
    }
    if crate::bytes::str_equal(response, "ok\n") {
        ReplyOutcome::Done
    } else {
        ReplyOutcome::Unexpected
    }
}

/// A text without its leading and trailing whitespace, as `str::trim` gives it.
pub fn trimmed(text: &str) -> (r: String)
    ensures
        r@ == trim(text@),
{
    let chars = chars_of(text);
    let (a, b) = trim_range(&chars, 0, chars.len());
    assert(chars@.subrange(0, chars@.len() as int) =~= chars@);
    string_of(&chars, a, b)
}

} // verus!
