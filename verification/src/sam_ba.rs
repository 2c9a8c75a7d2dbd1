//! The boot monitor's command protocol.
//!
//! The monitor reads short ASCII commands, each closed by `#`, and answers
//! some of them. Nothing here touches the serial line: a command is a
//! function that gives the bytes to send, and a response is a function from
//! the bytes received to their meaning. `SamBa` keeps track of the one piece
//! of state that the protocol has, the monitor's mode.

use vstd::prelude::*;
use vstd::slice::slice_to_vec;
use vstd::utf8::{encode_utf8, valid_utf8};
use crate::hex::{decode_word, parse_word, push_word, word_digits, WORD_DIGITS};
use crate::result::Error;

verus! {

/// `N`, the command that switches the monitor to normal mode.
pub const NORMAL_MODE: u8 = 0x4E;

/// `V`, the command that asks for the monitor's version.
pub const VERSION: u8 = 0x56;

/// `W`, the command that writes a word.
pub const WRITE_WORD: u8 = 0x57;

/// `w`, the command that reads a word.
pub const READ_WORD: u8 = 0x77;

/// `,`, which separates the arguments of a command.
pub const SEPARATOR: u8 = 0x2C;

/// `4`, the number of bytes that a word read asks for.
pub const WORD_BYTES: u8 = 0x34;

/// `#`, which closes every command.
pub const END: u8 = 0x23;

/// The first byte of the monitor's line terminator.
pub const LINE_FEED: u8 = 0x0A;

/// The second byte of the monitor's line terminator.
pub const CARRIAGE_RETURN: u8 = 0x0D;

/// The longest line that is accepted from the monitor, terminator included.
pub const MAX_LINE: usize = 256;

/// The bytes of the command that switches the monitor to normal mode.
pub open spec fn normal_mode_command() -> Seq<u8> {
    seq![NORMAL_MODE, END]
}

/// The bytes of the command that asks for the version.
pub open spec fn version_command() -> Seq<u8> {
    seq![VERSION, END]
}

/// The bytes of the command that writes `value` to `address`: `W`, the
/// address as eight digits, a comma, the value as eight digits, and `#`.
pub open spec fn write_word_command(address: u32, value: u32) -> Seq<u8> {
    seq![WRITE_WORD] + word_digits(address) + seq![SEPARATOR] + word_digits(value) + seq![END]
}

/// The bytes of the command that reads the word at `address`: `w`, the
/// address as eight digits, and `,4#`.
pub open spec fn read_word_command(address: u32) -> Seq<u8> {
    seq![READ_WORD] + word_digits(address) + seq![SEPARATOR, WORD_BYTES, END]
}

/// Whether the last two bytes of `bytes` are the line terminator.
pub open spec fn ends_line(bytes: Seq<u8>) -> bool {
    &&& bytes.len() >= 2
    &&& bytes[bytes.len() - 2] == LINE_FEED
    &&& bytes[bytes.len() - 1] == CARRIAGE_RETURN
}

/// Whether `bytes` is one line as the monitor sends it: it ends with the
/// terminator, holds no terminator before that, and is not longer than
/// `MAX_LINE`.
pub open spec fn is_line(bytes: Seq<u8>) -> bool {
    &&& ends_line(bytes)
    &&& bytes.len() <= MAX_LINE
    &&& forall|n: int| 2 <= n < bytes.len() ==> !ends_line(#[trigger] bytes.take(n))
}

/// What the monitor's answer to a word read means: exactly eight
/// hexadecimal digits, of either case, are the word, and anything else is a
/// protocol error.
pub open spec fn word_response(response: Seq<u8>) -> Result<u32, Error> {
    match parse_word(response) {
        Some(word) => Ok(word),
        None => Err(Error::Protocol),
    }
}

/// One word-sized access to the target's memory, performed by the monitor.
#[derive(Clone, Copy, Debug, PartialEq, Eq, Structural)]
pub enum Access {
    /// Store `value` at `address`.
    Write { address: u32, value: u32 },
    /// Load the word at `address`.
    Read { address: u32 },
}

impl Access {
    /// The bytes of the command that asks the monitor for this access.
    pub open spec fn command(self) -> Seq<u8> {
        match self {
            Access::Write { address, value } => write_word_command(address, value),
            Access::Read { address } => read_word_command(address),
        }
    }

    /// Number of bytes with which the monitor answers: eight digits for a
    /// read, nothing for a write.
    pub open spec fn spec_response_len(self) -> usize {
        match self {
            Access::Write { .. } => 0,
            Access::Read { .. } => WORD_DIGITS,
        }
    }

    /// What the access yields, given the monitor's answer: the word that a
    /// read returned, and zero for a write, which has no answer.
    pub open spec fn outcome(self, response: Seq<u8>) -> Result<u32, Error> {
        match self {
            Access::Write { .. } => if response.len() == 0 {
                Ok(0)
            } else {
                Err(Error::Protocol)
            },
            Access::Read { .. } => word_response(response),
        }
    }

    /// Number of bytes with which the monitor answers.
    #[verifier::when_used_as_spec(spec_response_len)]
    pub fn response_len(self) -> (len: usize)
        ensures
            len == self.spec_response_len(),
    {
        match self {
            Access::Write { .. } => 0,
            Access::Read { .. } => WORD_DIGITS,
        }
    }
}

/// Whether more bytes must be read before `received` can be a line: it does
/// not end with the terminator yet and has room left.
pub fn awaits_line(received: &[u8]) -> (more: bool)
    ensures
        more == (!ends_line(received@) && received@.len() < MAX_LINE),
{
    let len = received.len();
    if len >= MAX_LINE {
        false
    } else if len < 2 {
        true
    } else {
        !(received[len - 2] == LINE_FEED && received[len - 1] == CARRIAGE_RETURN)
    }
}

/// Whether `bytes` is one line as the monitor sends it.
pub fn check_line(bytes: &[u8]) -> (ok: bool)
    ensures
        ok == is_line(bytes@),
{
    let len = bytes.len();
    if len < 2 || len > MAX_LINE {
        return false;
    }
    if !(bytes[len - 2] == LINE_FEED && bytes[len - 1] == CARRIAGE_RETURN) {
        return false;
    }
    let mut n: usize = 2;
    while n < len
        invariant
            2 <= n <= len,
            len == bytes@.len(),
            forall|m: int| 2 <= m < n ==> !ends_line(#[trigger] bytes@.take(m)),
        decreases len - n,
    {
        if bytes[n - 2] == LINE_FEED && bytes[n - 1] == CARRIAGE_RETURN {
            assert(ends_line(bytes@.take(n as int)));
            return false;
        }
        assert(!ends_line(bytes@.take(n as int)));
        n += 1;
    }
    true
}

/// The monitor's mode, as far as the session knows it.
#[derive(Clone, Copy, Debug, PartialEq, Eq, Structural)]
pub enum Mode {
    /// The monitor is as it starts: it has not been told to switch.
    Startup,
    /// The switch to normal mode was asked for and is not confirmed yet.
    Switching,
    /// The monitor confirmed the switch to normal mode.
    Normal,
}

/// The error with which `std::string::String::from_utf8` refuses bytes.
#[verifier::external_type_specification]
#[verifier::external_body]
pub struct ExFromUtf8Error(std::string::FromUtf8Error);

/// Calls `String::from_utf8`, which turns bytes into a string without
/// changing them and refuses exactly the bytes that are not valid UTF-8.
#[verifier::external_body]
fn string_from_utf8(bytes: Vec<u8>) -> (text: Result<String, std::string::FromUtf8Error>)
    ensures
        text is Ok <==> valid_utf8(bytes@),
        text matches Ok(t) ==> encode_utf8(t@) == bytes@,
{
    String::from_utf8(bytes)
}

/// A session with the boot monitor.
///
/// The monitor frames its answers differently before and after the switch
/// to normal mode, and every other command relies on the framing of normal
/// mode. So the session gives out the switch command once, and any other
/// command only after the monitor has confirmed the switch.
pub struct SamBa {
    mode: Mode,
}

impl SamBa {
    /// The monitor's mode, as far as the session knows it.
    pub closed spec fn spec_mode(&self) -> Mode {
        self.mode
    }

    /// A session with a monitor that has just started.
    pub fn new() -> (session: SamBa)
        ensures
            session.mode() == Mode::Startup,
    {
        SamBa { mode: Mode::Startup }
    }

    /// The monitor's mode, as far as the session knows it.
    #[verifier::when_used_as_spec(spec_mode)]
    pub fn mode(&self) -> (mode: Mode)
        ensures
            mode == self.spec_mode(),
    {
        self.mode
    }

    /// Gives the command that switches the monitor to normal mode. It is
    /// given once, to a session that has not asked for the switch before;
    /// any other session gets a protocol error and stays as it is.
    pub fn set_normal_mode(&mut self) -> (command: Result<Vec<u8>, Error>)
        ensures
            old(self).mode() == Mode::Startup ==> (command matches Ok(bytes) && bytes@
                == normal_mode_command() && final(self).mode() == Mode::Switching),
            old(self).mode() != Mode::Startup ==> (command matches Err(e) && e == Error::Protocol
                && final(self).mode() == old(self).mode()),
    {
        match self.mode {
            Mode::Startup => {
                let mut bytes: Vec<u8> = Vec::new();
                bytes.push(NORMAL_MODE);
                bytes.push(END);
                assert(bytes@ =~= normal_mode_command());
                self.mode = Mode::Switching;
                Ok(bytes)
            },
            _ => Err(Error::Protocol),
        }
    }

    /// Takes the monitor's answer to the switch command. The monitor
    /// confirms the switch with its line terminator; whatever it sent on
    /// that line before, such as a startup banner, is discarded. With one
    /// line as the answer the session is in normal mode. Any other answer is
    /// a protocol error and leaves the session where it started; so does an
    /// answer that no switch command went before.
    pub fn confirm_normal_mode(&mut self, response: &[u8]) -> (confirmed: Result<(), Error>)
        ensures
            old(self).mode() == Mode::Switching && is_line(response@) ==> (confirmed is Ok
                && final(self).mode() == Mode::Normal),
            old(self).mode() == Mode::Switching && !is_line(response@) ==> (confirmed matches Err(e)
                && e == Error::Protocol && final(self).mode() == Mode::Startup),
            old(self).mode() != Mode::Switching ==> (confirmed matches Err(e) && e
                == Error::Protocol && final(self).mode() == old(self).mode()),
    {
        match self.mode {
            Mode::Switching => {
                if check_line(response) {
                    self.mode = Mode::Normal;
                    Ok(())
                } else {
                    self.mode = Mode::Startup;
                    Err(Error::Protocol)
                }
            },
            _ => Err(Error::Protocol),
        }
    }

    /// Gives the command that asks for the monitor's version, or a protocol
    /// error outside normal mode.
    pub fn display_version(&self) -> (command: Result<Vec<u8>, Error>)
        ensures
            self.mode() == Mode::Normal ==> (command matches Ok(bytes) && bytes@
                == version_command()),
            self.mode() != Mode::Normal ==> (command matches Err(e) && e == Error::Protocol),
    {
        match self.mode {
            Mode::Normal => {
                let mut bytes: Vec<u8> = Vec::new();
                bytes.push(VERSION);
                bytes.push(END);
                assert(bytes@ =~= version_command());
                Ok(bytes)
            },
            _ => Err(Error::Protocol),
        }
    }

    /// Takes the monitor's answer to the version command and returns it as
    /// text, terminator included. The answer must be one line of valid
    /// UTF-8; anything else is a protocol error.
    pub fn version(&self, response: &[u8]) -> (text: Result<String, Error>)
        ensures
            text is Ok <==> self.mode() == Mode::Normal && is_line(response@) && valid_utf8(
                response@,
            ),
            text matches Ok(t) ==> encode_utf8(t@) == response@,
            text matches Err(e) ==> e == Error::Protocol,
    {
        match self.mode {
            Mode::Normal => {
                if !check_line(response) {
                    return Err(Error::Protocol);
                }
                match string_from_utf8(slice_to_vec(response)) {
                    Ok(text) => Ok(text),
                    Err(_) => Err(Error::Protocol),
                }
            },
            _ => Err(Error::Protocol),
        }
    }

    /// Gives the command that writes `value` to `address`, or a protocol
    /// error outside normal mode. The monitor does not answer a write.
    pub fn write_word(&self, address: u32, value: u32) -> (command: Result<Vec<u8>, Error>)
        ensures
            self.mode() == Mode::Normal ==> (command matches Ok(bytes) && bytes@
                == write_word_command(address, value)),
            self.mode() != Mode::Normal ==> (command matches Err(e) && e == Error::Protocol),
    {
        match self.mode {
            Mode::Normal => {
                let mut bytes: Vec<u8> = Vec::new();
                bytes.push(WRITE_WORD);
                push_word(&mut bytes, address);
                bytes.push(SEPARATOR);
                push_word(&mut bytes, value);
                bytes.push(END);
                assert(bytes@ =~= write_word_command(address, value));
                Ok(bytes)
            },
            _ => Err(Error::Protocol),
        }
    }

    /// Gives the command that reads the word at `address`, or a protocol
    /// error outside normal mode.
    pub fn read_word(&self, address: u32) -> (command: Result<Vec<u8>, Error>)
        ensures
            self.mode() == Mode::Normal ==> (command matches Ok(bytes) && bytes@
                == read_word_command(address)),
            self.mode() != Mode::Normal ==> (command matches Err(e) && e == Error::Protocol),
    {
        match self.mode {
            Mode::Normal => {
                let mut bytes: Vec<u8> = Vec::new();
                bytes.push(READ_WORD);
                push_word(&mut bytes, address);
                bytes.push(SEPARATOR);
                bytes.push(WORD_BYTES);
                bytes.push(END);
                assert(bytes@ =~= read_word_command(address));
                Ok(bytes)
            },
            _ => Err(Error::Protocol),
        }
    }

    /// Takes the monitor's answer to a word read: exactly eight hexadecimal
    /// digits, of either case, give the word. Anything else is a protocol
    /// error, and so is any answer outside normal mode.
    pub fn word(&self, response: &[u8]) -> (word: Result<u32, Error>)
        ensures
            self.mode() == Mode::Normal ==> word == word_response(response@),
            self.mode() != Mode::Normal ==> word == Err::<u32, Error>(Error::Protocol),
    {
        match self.mode {
            Mode::Normal => match decode_word(response) {
                Some(word) => Ok(word),
                None => Err(Error::Protocol),
            },
            _ => Err(Error::Protocol),
        }
    }

    /// Gives the command for `access`, or a protocol error outside normal
    /// mode.
    pub fn request(&self, access: Access) -> (command: Result<Vec<u8>, Error>)
        ensures
            self.mode() == Mode::Normal ==> (command matches Ok(bytes) && bytes@
                == access.command()),
            self.mode() != Mode::Normal ==> (command matches Err(e) && e == Error::Protocol),
    {
        match access {
            Access::Write { address, value } => self.write_word(address, value),
            Access::Read { address } => self.read_word(address),
        }
    }

    /// Takes the monitor's answer to the command for `access` and gives
    /// what the access yields: the word read, or zero for a write, which the
    /// monitor leaves unanswered. An answer of the wrong shape is a protocol
    /// error, and so is any answer outside normal mode.
    pub fn complete(&self, access: Access, response: &[u8]) -> (outcome: Result<u32, Error>)
        ensures
            self.mode() == Mode::Normal ==> outcome == access.outcome(response@),
            self.mode() != Mode::Normal ==> outcome == Err::<u32, Error>(Error::Protocol),
    {
        match access {
            Access::Write { .. } => match self.mode {
                Mode::Normal => if response.len() == 0 {
                    Ok(0)
                } else {
                    Err(Error::Protocol)
                },
                _ => Err(Error::Protocol),
            },
            Access::Read { .. } => self.word(response),
        }
    }
}

} // verus!
