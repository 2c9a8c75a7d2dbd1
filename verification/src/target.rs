//! A simulated target: a boot monitor in front of a memory of words.
//!
//! The simulation answers the monitor's commands as the real monitor does,
//! as far as this library uses them. Its memory is plain: every address
//! holds the word last written to it, and zero before that. It serves to
//! state what the protocol guarantees end to end, and to try the library
//! without a device.

use std::collections::HashMap;
use vstd::prelude::*;
use vstd::slice::slice_subrange;
use crate::hex::{decode_word, lemma_parse_word_digits, parse_word, push_word, word_digits};
use crate::result::Error;
use crate::sam_ba::{
    normal_mode_command, read_word_command, version_command, write_word_command, Access,
    CARRIAGE_RETURN, END, LINE_FEED, NORMAL_MODE, READ_WORD, SEPARATOR, VERSION, WORD_BYTES,
    WRITE_WORD,
};

verus! {

broadcast use vstd::std_specs::hash::group_hash_axioms;

/// Length of a write command: `W`, eight digits, `,`, eight digits, `#`.
pub const WRITE_COMMAND_LEN: usize = 19;

/// Length of a read command: `w`, eight digits, `,4#`.
pub const READ_COMMAND_LEN: usize = 12;

/// A command as the monitor understands it.
#[derive(Clone, Copy, Debug, PartialEq, Eq, Structural)]
pub enum Request {
    /// Switch to normal mode.
    NormalMode,
    /// Report the version.
    Version,
    /// Store `value` at `address`.
    Write { address: u32, value: u32 },
    /// Load the word at `address`.
    Read { address: u32 },
}

impl Request {
    /// The bytes that stand for the command on the line.
    pub open spec fn wire(self) -> Seq<u8> {
        match self {
            Request::NormalMode => normal_mode_command(),
            Request::Version => version_command(),
            Request::Write { address, value } => write_word_command(address, value),
            Request::Read { address } => read_word_command(address),
        }
    }

    /// The command that `bytes` stand for, if they stand for one. Digits
    /// are accepted in either case.
    pub open spec fn parse(bytes: Seq<u8>) -> Option<Request> {
        if bytes == normal_mode_command() {
            Some(Request::NormalMode)
        } else if bytes == version_command() {
            Some(Request::Version)
        } else if bytes.len() == WRITE_COMMAND_LEN && bytes[0] == WRITE_WORD && bytes[9]
            == SEPARATOR && bytes[18] == END {
            match (parse_word(bytes.subrange(1, 9)), parse_word(bytes.subrange(10, 18))) {
                (Some(address), Some(value)) => Some(Request::Write { address, value }),
                _ => None,
            }
        } else if bytes.len() == READ_COMMAND_LEN && bytes[0] == READ_WORD && bytes[9] == SEPARATOR
            && bytes[10] == WORD_BYTES && bytes[11] == END {
            match parse_word(bytes.subrange(1, 9)) {
                Some(address) => Some(Request::Read { address }),
                None => None,
            }
        } else {
            None
        }
    }

    /// Reads a command from the bytes received.
    pub fn decode(bytes: &[u8]) -> (request: Option<Request>)
        ensures
            request == Request::parse(bytes@),
    {
        let len = bytes.len();
        if len == 2 && bytes[1] == END && bytes[0] == NORMAL_MODE {
            assert(bytes@ =~= normal_mode_command());
            Some(Request::NormalMode)
        } else if len == 2 && bytes[1] == END && bytes[0] == VERSION {
            assert(bytes@ =~= version_command());
            Some(Request::Version)
        } else if len == WRITE_COMMAND_LEN && bytes[0] == WRITE_WORD && bytes[9] == SEPARATOR
            && bytes[18] == END {
            let address = decode_word(slice_subrange(bytes, 1, 9));
            let value = decode_word(slice_subrange(bytes, 10, 18));
            match (address, value) {
                (Some(address), Some(value)) => Some(Request::Write { address, value }),
                _ => None,
            }
        } else if len == READ_COMMAND_LEN && bytes[0] == READ_WORD && bytes[9] == SEPARATOR
            && bytes[10] == WORD_BYTES && bytes[11] == END {
            match decode_word(slice_subrange(bytes, 1, 9)) {
                Some(address) => Some(Request::Read { address }),
                None => None,
            }
        } else {
            None
        }
    }
}

/// The monitor reads every command as the command that was written:
/// parsing the bytes of a command gives that command back.
pub proof fn lemma_parse_wire(request: Request)
    ensures
        Request::parse(request.wire()) == Some(request),
{
    match request {
        Request::NormalMode => {},
        Request::Version => {},
        Request::Write { address, value } => {
            let bytes = write_word_command(address, value);
            lemma_parse_word_digits(address);
            lemma_parse_word_digits(value);
            assert(bytes.subrange(1, 9) =~= word_digits(address));
            assert(bytes.subrange(10, 18) =~= word_digits(value));
        },
        Request::Read { address } => {
            let bytes = read_word_command(address);
            lemma_parse_word_digits(address);
            assert(bytes.subrange(1, 9) =~= word_digits(address));
        },
    }
}

/// The state of the simulated target.
pub struct TargetState {
    /// Whether the monitor was switched to normal mode.
    pub normal: bool,
    /// The text with which the monitor answers the version command.
    pub version: Seq<u8>,
    /// The words that were written, by address.
    pub memory: Map<u32, u32>,
}

impl TargetState {
    /// The word at `address`: the one last written there, or zero.
    pub open spec fn load(self, address: u32) -> u32 {
        if self.memory.contains_key(address) {
            self.memory[address]
        } else {
            0
        }
    }

    /// The state after `value` was written to `address`.
    pub open spec fn store(self, address: u32, value: u32) -> TargetState {
        TargetState { memory: self.memory.insert(address, value), ..self }
    }

    /// The state after the target received `request`, and its answer.
    ///
    /// The switch to normal mode is confirmed with the line terminator.
    /// Until that switch every other command is left unanswered and has no
    /// effect, and so are bytes that are no command. In normal mode the
    /// version command is answered with the version and the terminator, a
    /// read with the eight digits of the word, and a write with nothing.
    pub open spec fn receive(self, request: Seq<u8>) -> (TargetState, Seq<u8>) {
        match Request::parse(request) {
            Some(Request::NormalMode) => (
                TargetState { normal: true, ..self },
                seq![LINE_FEED, CARRIAGE_RETURN],
            ),
            Some(Request::Version) if self.normal => (
                self,
                self.version + seq![LINE_FEED, CARRIAGE_RETURN],
            ),
            Some(Request::Write { address, value }) if self.normal => (
                self.store(address, value),
                Seq::empty(),
            ),
            Some(Request::Read { address }) if self.normal => (
                self,
                word_digits(self.load(address)),
            ),
            _ => (self, Seq::empty()),
        }
    }
}

/// A word written through the monitor is the word read back: after the
/// command that writes `value` to `address`, the answer to the command that
/// reads `address` is `value`, whatever the memory held before.
pub proof fn lemma_write_then_read(target: TargetState, address: u32, value: u32)
    requires
        target.normal,
    ensures
        ({
            let write = Access::Write { address, value };
            let read = Access::Read { address };
            let (written, silence) = target.receive(write.command());
            let (after, answer) = written.receive(read.command());
            &&& write.outcome(silence) == Ok::<u32, Error>(0)
            &&& silence.len() == write.spec_response_len()
            &&& read.outcome(answer) == Ok::<u32, Error>(value)
            &&& answer.len() == read.spec_response_len()
            &&& after == written
            &&& written == target.store(address, value)
        }),
{
    lemma_parse_wire(Request::Write { address, value });
    lemma_parse_wire(Request::Read { address });
    lemma_parse_word_digits(value);
}

/// A write changes the word at its address and no other word.
pub proof fn lemma_write_is_local(target: TargetState, address: u32, value: u32, other: u32)
    requires
        target.normal,
    ensures
        ({
            let (written, _) = target.receive(write_word_command(address, value));
            written.load(other) == if other == address {
                value
            } else {
                target.load(other)
            }
        }),
{
    lemma_parse_wire(Request::Write { address, value });
}

/// A simulated target.
pub struct Target {
    normal: bool,
    version: Vec<u8>,
    memory: HashMap<u32, u32>,
}

impl View for Target {
    type V = TargetState;

    closed spec fn view(&self) -> TargetState {
        TargetState { normal: self.normal, version: self.version@, memory: self.memory@ }
    }
}

impl Target {
    /// A target that has just started, with an empty memory, whose monitor
    /// reports `version`.
    pub fn new(version: Vec<u8>) -> (target: Target)
        ensures
            target@ == (TargetState { normal: false, version: version@, memory: Map::empty() }),
    {
        Target { normal: false, version, memory: HashMap::new() }
    }

    /// The word at `address`.
    pub fn load(&self, address: u32) -> (word: u32)
        ensures
            word == self@.load(address),
    {
        match self.memory.get(&address) {
            Some(word) => *word,
            None => 0,
        }
    }

    /// Puts `value` at `address` directly, as the hardware behind the
    /// monitor would.
    pub fn store(&mut self, address: u32, value: u32)
        ensures
            final(self)@ == old(self)@.store(address, value),
    {
        self.memory.insert(address, value);
    }

    /// Takes the bytes of one command and gives the monitor's answer.
    pub fn receive(&mut self, request: &[u8]) -> (response: Vec<u8>)
        ensures
            (final(self)@, response@) == old(self)@.receive(request@),
    {
        let mut response: Vec<u8> = Vec::new();
        match Request::decode(request) {
            Some(Request::NormalMode) => {
                self.normal = true;
                response.push(LINE_FEED);
                response.push(CARRIAGE_RETURN);
                assert(response@ =~= seq![LINE_FEED, CARRIAGE_RETURN]);
            },
            Some(Request::Version) => {
                if self.normal {
                    let mut i: usize = 0;
                    while i < self.version.len()
                        invariant
                            i <= self.version@.len(),
                            response@ == self.version@.take(i as int),
                        decreases self.version@.len() - i,
                    {
                        response.push(self.version[i]);
                        assert(self.version@.take(i + 1) =~= self.version@.take(i as int).push(
                            self.version@[i as int],
                        ));
                        i += 1;
                    }
                    response.push(LINE_FEED);
                    response.push(CARRIAGE_RETURN);
                    assert(response@ =~= self.version@ + seq![LINE_FEED, CARRIAGE_RETURN]);
                }
            },
            Some(Request::Write { address, value }) => {
                if self.normal {
                    self.memory.insert(address, value);
                }
            },
            Some(Request::Read { address }) => {
                if self.normal {
                    let word = self.load(address);
                    push_word(&mut response, word);
                    assert(response@ =~= word_digits(word));
                }
            },
            None => {},
        }
        response
    }
}

} // verus!
