//! The enhanced embedded flash controller: its registers, its commands, and
//! the sequence of memory accesses that carries one command out.
//!
//! The controller is driven through plain word reads and writes. A command is
//! written to the command register together with a key; the status register
//! is then polled until the controller reports that it is ready, and a result,
//! if the command has one, is read from the result register.

use vstd::prelude::*;
use crate::result::{CommandError, Error};
use crate::sam_ba::Access;

verus! {

/// The key that must stand in the top byte of every word written to the
/// command register. The controller ignores a word without it.
pub const KEY: u32 = 0x5A;

/// Bit of the status register that is set once the controller is ready for a
/// new command.
pub const STATUS_READY: u32 = 0x1;

/// Bit of the status register that is set when the last command was refused.
pub const STATUS_COMMAND_ERROR: u32 = 0x2;

/// How often the status register is read, at most, while waiting for one
/// command to complete.
pub const MAX_STATUS_POLLS: u32 = 1000;

/// Size of a flash page in bytes.
pub const PAGE_SIZE: u32 = 256;

/// Size of the one flash plane that is supported, in bytes.
pub const FLASH_CAPACITY: u32 = 0x4_0000;

/// Number of pages in the flash plane.
pub const PAGE_COUNT: u32 = 1024;

/// A general-purpose non-volatile memory bit of the controller.
#[derive(Clone, Copy, Debug, PartialEq, Eq, Structural)]
pub enum GpnvmNumber {
    /// Bit 0: the security bit.
    Security,
    /// Bit 1: whether the device boots from flash rather than from the monitor.
    BootModeSelection,
    /// Bit 2: which of the two flash planes the device boots from.
    FlashSelection,
}

impl GpnvmNumber {
    /// The position of the bit among the non-volatile bits.
    pub open spec fn spec_index(self) -> u8 {
        match self {
            GpnvmNumber::Security => 0,
            GpnvmNumber::BootModeSelection => 1,
            GpnvmNumber::FlashSelection => 2,
        }
    }

    /// The word in which only this bit is set: one shifted left by the index.
    pub open spec fn spec_mask(self) -> u32 {
        match self {
            GpnvmNumber::Security => 0x1,
            GpnvmNumber::BootModeSelection => 0x2,
            GpnvmNumber::FlashSelection => 0x4,
        }
    }

    /// The position of the bit among the non-volatile bits.
    #[verifier::when_used_as_spec(spec_index)]
    pub fn index(self) -> (index: u8)
        ensures
            index == self.spec_index(),
    {
        match self {
            GpnvmNumber::Security => 0,
            GpnvmNumber::BootModeSelection => 1,
            GpnvmNumber::FlashSelection => 2,
        }
    }

    /// The word in which only this bit is set.
    #[verifier::when_used_as_spec(spec_mask)]
    pub fn mask(self) -> (mask: u32)
        ensures
            mask == self.spec_mask(),
            mask == 1u32 << self.index(),
    {
        assert(1u32 << 0u8 == 1 && 1u32 << 1u8 == 2 && 1u32 << 2u8 == 4) by (bit_vector);
        match self {
            GpnvmNumber::Security => 0x1,
            GpnvmNumber::BootModeSelection => 0x2,
            GpnvmNumber::FlashSelection => 0x4,
        }
    }

    /// Whether this bit is set in `bits`, the word that the controller
    /// reports for its non-volatile bits.
    pub fn is_set(self, bits: u32) -> (set: bool)
        ensures
            set == (bits & (1u32 << self.index()) != 0),
    {
        bits & self.mask() != 0
    }
}

/// The index of a flash page. Page `n` holds the bytes from `n * 256` up to
/// `(n + 1) * 256` of the plane.
#[derive(Clone, Copy, Debug, PartialEq, Eq, Structural)]
pub struct Page(pub u16);

impl Page {
    /// Whether the page lies within the flash plane.
    pub open spec fn in_flash(self) -> bool {
        self.0 * PAGE_SIZE < FLASH_CAPACITY
    }

    /// The page with the given index, if the plane has such a page.
    pub fn new(index: u16) -> (page: Option<Page>)
        ensures
            page is Some <==> index * PAGE_SIZE < FLASH_CAPACITY,
            page matches Some(p) ==> p.0 == index && p.in_flash(),
    {
        if (index as u32) < PAGE_COUNT {
            Some(Page(index))
        } else {
            None
        }
    }

    /// Offset of the page's first byte from the start of the plane.
    pub fn offset(self) -> (offset: u32)
        ensures
            offset == self.0 * PAGE_SIZE,
    {
        (self.0 as u32) * PAGE_SIZE
    }
}

/// A command of the flash controller, with its argument.
#[derive(Clone, Copy, Debug, PartialEq, Eq, Structural)]
pub enum Command {
    /// Report the non-volatile bits; the result is the requested bit.
    GetGpnvmBit(GpnvmNumber),
    /// Set one non-volatile bit.
    SetGpnvmBit(GpnvmNumber),
    /// Erase one page and program it from the latch buffer.
    ErasePageAndWritePage(Page),
}

impl Command {
    /// The code by which the controller knows the command.
    pub open spec fn spec_opcode(self) -> u8 {
        match self {
            Command::GetGpnvmBit(_) => 0x0D,
            Command::SetGpnvmBit(_) => 0x0B,
            Command::ErasePageAndWritePage(_) => 0x03,
        }
    }

    /// The argument of the command: a bit index or a page index.
    pub open spec fn spec_argument(self) -> u16 {
        match self {
            Command::GetGpnvmBit(number) => number.spec_index() as u16,
            Command::SetGpnvmBit(number) => number.spec_index() as u16,
            Command::ErasePageAndWritePage(page) => page.0,
        }
    }

    /// Whether the controller leaves a result for the command in its result
    /// register.
    pub open spec fn spec_has_result(self) -> bool {
        self is GetGpnvmBit
    }

    /// The word to write to the command register: the key in bits 24 to 31,
    /// the argument in bits 8 to 23, the opcode in bits 0 to 7.
    pub open spec fn spec_word(self) -> u32 {
        (KEY * 0x100_0000 + self.spec_argument() * 0x100 + self.spec_opcode()) as u32
    }

    /// What the command returns, given the content of the result register:
    /// for `GetGpnvmBit` the requested bit, in its place, and zero otherwise.
    pub open spec fn spec_decode(self, result: u32) -> u32 {
        match self {
            Command::GetGpnvmBit(number) => result & (1u32 << number.spec_index()),
            _ => 0,
        }
    }

    /// The code by which the controller knows the command.
    #[verifier::when_used_as_spec(spec_opcode)]
    pub fn opcode(self) -> (opcode: u8)
        ensures
            opcode == self.spec_opcode(),
    {
        match self {
            Command::GetGpnvmBit(_) => 0x0D,
            Command::SetGpnvmBit(_) => 0x0B,
            Command::ErasePageAndWritePage(_) => 0x03,
        }
    }

    /// The argument of the command: a bit index or a page index.
    #[verifier::when_used_as_spec(spec_argument)]
    pub fn argument(self) -> (argument: u16)
        ensures
            argument == self.spec_argument(),
    {
        match self {
            Command::GetGpnvmBit(number) => number.index() as u16,
            Command::SetGpnvmBit(number) => number.index() as u16,
            Command::ErasePageAndWritePage(page) => page.0,
        }
    }

    /// Whether the controller leaves a result for the command.
    #[verifier::when_used_as_spec(spec_has_result)]
    pub fn has_result(self) -> (has: bool)
        ensures
            has == self.spec_has_result(),
    {
        match self {
            Command::GetGpnvmBit(_) => true,
            _ => false,
        }
    }

    /// Builds the word to write to the command register.
    #[verifier::when_used_as_spec(spec_word)]
    pub fn word(self) -> (word: u32)
        ensures
            word == self.spec_word(),
            word >> 24 == KEY,
            (word >> 8) & 0xFFFF == self.argument(),
            word & 0xFF == self.opcode(),
    {
        let argument: u32 = self.argument() as u32;
        let opcode: u32 = self.opcode() as u32;
        let word = (KEY << 24) | (argument << 8) | opcode;
        assert(word == 0x5A * 0x100_0000 + argument * 0x100 + opcode && word >> 24 == 0x5A && (word
            >> 8) & 0xFFFF == argument && word & 0xFF == opcode) by (bit_vector)
            requires
                word == (0x5Au32 << 24) | (argument << 8) | opcode,
                argument <= 0xFFFF,
                opcode <= 0xFF,
        ;
        word
    }

    /// Interprets the content of the result register.
    #[verifier::when_used_as_spec(spec_decode)]
    pub fn decode(self, result: u32) -> (value: u32)
        ensures
            value == self.spec_decode(result),
    {
        match self {
            Command::GetGpnvmBit(number) => result & number.mask(),
            _ => 0,
        }
    }
}

/// One of the two flash controllers of the device. A value of this type
/// stands for the controller's registers; their addresses are fixed by the
/// hardware.
#[derive(Clone, Copy, Debug, PartialEq, Eq, Structural)]
pub enum Eefc {
    /// The controller of the first flash plane.
    Eefc0,
    /// The controller of the second flash plane.
    Eefc1,
}

impl Eefc {
    /// Address of the controller's first register.
    pub open spec fn spec_base(self) -> u32 {
        match self {
            Eefc::Eefc0 => 0x400E_0A00,
            Eefc::Eefc1 => 0x400E_0C00,
        }
    }

    /// Address of the mode register, which holds the number of wait states.
    pub open spec fn spec_mode_register(self) -> u32 {
        self.spec_base()
    }

    /// Address of the command register.
    pub open spec fn spec_command_register(self) -> u32 {
        (self.spec_base() + 0x04) as u32
    }

    /// Address of the status register.
    pub open spec fn spec_status_register(self) -> u32 {
        (self.spec_base() + 0x08) as u32
    }

    /// Address of the result register.
    pub open spec fn spec_result_register(self) -> u32 {
        (self.spec_base() + 0x0C) as u32
    }

    /// The controller of the first flash plane.
    pub fn eefc_0() -> (eefc: Eefc)
        ensures
            eefc == Eefc::Eefc0,
    {
        Eefc::Eefc0
    }

    /// The controller of the second flash plane.
    pub fn eefc_1() -> (eefc: Eefc)
        ensures
            eefc == Eefc::Eefc1,
    {
        Eefc::Eefc1
    }

    fn base(self) -> (address: u32)
        ensures
            address == self.spec_base(),
    {
        match self {
            Eefc::Eefc0 => 0x400E_0A00,
            Eefc::Eefc1 => 0x400E_0C00,
        }
    }

    /// Address of the mode register, which holds the number of wait states.
    #[verifier::when_used_as_spec(spec_mode_register)]
    pub fn mode_register(self) -> (address: u32)
        ensures
            address == self.spec_mode_register(),
    {
        self.base()
    }

    /// Address of the command register.
    #[verifier::when_used_as_spec(spec_command_register)]
    pub fn command_register(self) -> (address: u32)
        ensures
            address == self.spec_command_register(),
    {
        self.base() + 0x04
    }

    /// Address of the status register.
    #[verifier::when_used_as_spec(spec_status_register)]
    pub fn status_register(self) -> (address: u32)
        ensures
            address == self.spec_status_register(),
    {
        self.base() + 0x08
    }

    /// Address of the result register.
    #[verifier::when_used_as_spec(spec_result_register)]
    pub fn result_register(self) -> (address: u32)
        ensures
            address == self.spec_result_register(),
    {
        self.base() + 0x0C
    }

    /// Begins the execution of `command` on this controller. Nothing has been
    /// sent yet: the first access of the execution writes the command word.
    pub fn execute_command(self, command: Command) -> (execution: Execution)
        ensures
            execution == Execution::begin(self, command),
    {
        Execution { eefc: self, command, stage: Stage::Issue }
    }

    /// Begins reading the non-volatile bit `index`. The execution yields the
    /// bit in its place within the word; `Execution::boot_bit` gives it as a
    /// truth value.
    pub fn get_boot_bit(self, index: GpnvmNumber) -> (execution: Execution)
        ensures
            execution == Execution::begin(self, Command::GetGpnvmBit(index)),
    {
        self.execute_command(Command::GetGpnvmBit(index))
    }

    /// Begins setting the non-volatile bit `index`. The execution yields no
    /// result beyond its success.
    pub fn set_boot_bit(self, index: GpnvmNumber) -> (execution: Execution)
        ensures
            execution == Execution::begin(self, Command::SetGpnvmBit(index)),
    {
        self.execute_command(Command::SetGpnvmBit(index))
    }
}

/// Whether a status word reports that the controller is ready.
pub open spec fn is_ready(status: u32) -> bool {
    status & STATUS_READY != 0
}

/// Whether a status word reports that the last command was refused.
pub open spec fn is_refused(status: u32) -> bool {
    status & STATUS_COMMAND_ERROR != 0
}

/// How far the execution of a command has come.
#[derive(Clone, Copy, Debug, PartialEq, Eq)]
pub enum Stage {
    /// The command word has not been written yet.
    Issue,
    /// The command word is written and the controller is not known to be
    /// ready; the status register may be read `remaining` more times.
    Poll { remaining: u32 },
    /// The controller is ready and the result register has not been read yet.
    Fetch,
    /// The execution is over, with this result.
    Done(Result<u32, Error>),
}

/// The execution of one command, as a state machine over memory accesses.
///
/// In every state but the last the execution waits for one access,
/// `pending`. The caller performs it and reports how it went with `supply`;
/// the execution then moves on. It never performs an access itself.
#[derive(Clone, Copy, Debug, PartialEq, Eq)]
pub struct Execution {
    /// The controller that executes the command.
    pub eefc: Eefc,
    /// The command being executed.
    pub command: Command,
    /// How far the execution has come.
    pub stage: Stage,
}

impl Execution {
    /// The execution of `command` on `eefc` before anything was sent.
    pub open spec fn begin(eefc: Eefc, command: Command) -> Execution {
        Execution { eefc, command, stage: Stage::Issue }
    }

    /// The access that the execution waits for, or `None` once it is over.
    pub open spec fn spec_pending(&self) -> Option<Access> {
        match self.stage {
            Stage::Issue => Some(
                Access::Write {
                    address: self.eefc.spec_command_register(),
                    value: self.command.spec_word(),
                },
            ),
            Stage::Poll { .. } => Some(Access::Read { address: self.eefc.spec_status_register() }),
            Stage::Fetch => Some(Access::Read { address: self.eefc.spec_result_register() }),
            Stage::Done(_) => None,
        }
    }

    /// The result of the execution, or `None` while it is under way.
    pub open spec fn spec_result(&self) -> Option<Result<u32, Error>> {
        match self.stage {
            Stage::Done(result) => Some(result),
            _ => None,
        }
    }

    /// The stage that follows a read of the status register that gave
    /// `status`, with `remaining` reads allowed before it.
    pub open spec fn after_status(self, remaining: u32, status: u32) -> Stage {
        if is_ready(status) {
            if is_refused(status) {
                Stage::Done(Err(Error::Command(CommandError::Rejected)))
            } else if self.command.spec_has_result() {
                Stage::Fetch
            } else {
                Stage::Done(Ok(0))
            }
        } else if remaining <= 1 {
            Stage::Done(Err(Error::Command(CommandError::TimedOut)))
        } else {
            Stage::Poll { remaining: (remaining - 1) as u32 }
        }
    }

    /// The execution after the pending access went as `outcome` says: `Ok`
    /// with the word read (any word, for a write), or the error that stopped
    /// it. A failed access ends the execution with that error; an execution
    /// that is over stays as it is.
    pub open spec fn after(self, outcome: Result<u32, Error>) -> Execution {
        let stage = match (self.stage, outcome) {
            (Stage::Done(result), _) => Stage::Done(result),
            (_, Err(error)) => Stage::Done(Err(error)),
            (Stage::Issue, Ok(_)) => Stage::Poll { remaining: MAX_STATUS_POLLS },
            (Stage::Poll { remaining }, Ok(status)) => self.after_status(remaining, status),
            (Stage::Fetch, Ok(result)) => Stage::Done(Ok(self.command.spec_decode(result))),
        };
        Execution { stage, ..self }
    }

    /// The execution after a series of accesses, each reported in turn.
    pub open spec fn run(self, outcomes: Seq<Result<u32, Error>>) -> Execution
        decreases outcomes.len(),
    {
        if outcomes.len() == 0 {
            self
        } else {
            self.run(outcomes.drop_last()).after(outcomes.last())
        }
    }

    /// The access that the execution waits for, or `None` once it is over.
    #[verifier::when_used_as_spec(spec_pending)]
    pub fn pending(&self) -> (access: Option<Access>)
        ensures
            access == self.spec_pending(),
    {
        match self.stage {
            Stage::Issue => Some(
                Access::Write {
                    address: self.eefc.command_register(),
                    value: self.command.word(),
                },
            ),
            Stage::Poll { .. } => Some(Access::Read { address: self.eefc.status_register() }),
            Stage::Fetch => Some(Access::Read { address: self.eefc.result_register() }),
            Stage::Done(_) => None,
        }
    }

    /// Reports how the pending access went, and moves the execution on.
    pub fn supply(&mut self, outcome: Result<u32, Error>)
        ensures
            *final(self) == old(self).after(outcome),
    {
        let stage = match (self.stage, outcome) {
            (Stage::Done(result), _) => Stage::Done(result),
            (_, Err(error)) => Stage::Done(Err(error)),
            (Stage::Issue, Ok(_)) => Stage::Poll { remaining: MAX_STATUS_POLLS },
            (Stage::Poll { remaining }, Ok(status)) => {
                if status & STATUS_READY != 0 {
                    if status & STATUS_COMMAND_ERROR != 0 {
                        Stage::Done(Err(Error::Command(CommandError::Rejected)))
                    } else if self.command.has_result() {
                        Stage::Fetch
                    } else {
                        Stage::Done(Ok(0))
                    }
                } else if remaining <= 1 {
                    Stage::Done(Err(Error::Command(CommandError::TimedOut)))
                } else {
                    Stage::Poll { remaining: remaining - 1 }
                }
            },
            (Stage::Fetch, Ok(result)) => Stage::Done(Ok(self.command.decode(result))),
        };
        self.stage = stage;
    }

    /// The result of the execution, or `None` while it is under way.
    #[verifier::when_used_as_spec(spec_result)]
    pub fn result(&self) -> (result: Option<Result<u32, Error>>)
        ensures
            result == self.spec_result(),
    {
        match self.stage {
            Stage::Done(result) => Some(result),
            _ => None,
        }
    }

    /// The result of the execution as a truth value: whether the word it
    /// yielded has any bit set. For `GetGpnvmBit` this is the state of the
    /// requested bit.
    pub fn boot_bit(&self) -> (bit: Option<Result<bool, Error>>)
        ensures
            bit == match self.spec_result() {
                Some(Ok(value)) => Some(Ok::<bool, Error>(value != 0)),
                Some(Err(error)) => Some(Err::<bool, Error>(error)),
                None => None::<Result<bool, Error>>,
            },
    {
        match self.stage {
            Stage::Done(Ok(value)) => Some(Ok(value != 0)),
            Stage::Done(Err(error)) => Some(Err(error)),
            _ => None,
        }
    }
}

/// Whether `outcome` is a read that succeeded and gave a status word without
/// the ready flag.
pub open spec fn is_busy(outcome: Result<u32, Error>) -> bool {
    outcome matches Ok(status) && !is_ready(status)
}

/// Whether every one of `outcomes` is a successful read of a status word
/// without the ready flag.
pub open spec fn all_busy(outcomes: Seq<Result<u32, Error>>) -> bool {
    forall|i: int| 0 <= i < outcomes.len() ==> is_busy(#[trigger] outcomes[i])
}

/// The largest number of accesses that an execution in this stage can still
/// make.
pub open spec fn accesses_left(stage: Stage) -> nat {
    match stage {
        Stage::Issue => (MAX_STATUS_POLLS + 2) as nat,
        Stage::Poll { remaining } => if remaining <= 1 {
            2
        } else {
            (remaining + 1) as nat
        },
        Stage::Fetch => 1,
        Stage::Done(_) => 0,
    }
}

/// Running one more access is the same as running the others first.
pub proof fn lemma_run_push(
    execution: Execution,
    outcomes: Seq<Result<u32, Error>>,
    last: Result<u32, Error>,
)
    ensures
        execution.run(outcomes.push(last)) == execution.run(outcomes).after(last),
{
    assert(outcomes.push(last).drop_last() =~= outcomes);
}

/// Every access uses up the execution's allowance: an execution that is not
/// over can make fewer accesses after one than before it.
pub proof fn lemma_access_is_counted(execution: Execution, outcome: Result<u32, Error>)
    ensures
        execution.stage is Done ==> execution.after(outcome) == execution,
        !(execution.stage is Done) ==> accesses_left(execution.after(outcome).stage)
            < accesses_left(execution.stage),
{
}

/// An execution is over after at most `MAX_STATUS_POLLS + 2` accesses,
/// whatever the target answers: one write of the command, the polls of the
/// status register, and one read of the result.
pub proof fn lemma_execution_is_bounded(
    eefc: Eefc,
    command: Command,
    outcomes: Seq<Result<u32, Error>>,
)
    requires
        outcomes.len() >= MAX_STATUS_POLLS + 2,
    ensures
        Execution::begin(eefc, command).run(outcomes).spec_result() is Some,
{
    lemma_allowance_shrinks(Execution::begin(eefc, command), outcomes);
}

proof fn lemma_allowance_shrinks(execution: Execution, outcomes: Seq<Result<u32, Error>>)
    ensures
        accesses_left(execution.run(outcomes).stage) + outcomes.len() <= accesses_left(
            execution.stage,
        ) || execution.run(outcomes).stage is Done,
        execution.run(outcomes).eefc == execution.eefc,
        execution.run(outcomes).command == execution.command,
    decreases outcomes.len(),
{
    if outcomes.len() > 0 {
        lemma_allowance_shrinks(execution, outcomes.drop_last());
        lemma_access_is_counted(execution.run(outcomes.drop_last()), outcomes.last());
    }
}

/// While the target answers every poll without the ready flag, the execution
/// keeps polling, and the `MAX_STATUS_POLLS`-th such answer ends it.
pub proof fn lemma_polling(
    eefc: Eefc,
    command: Command,
    written: u32,
    polls: Seq<Result<u32, Error>>,
)
    requires
        all_busy(polls),
        polls.len() <= MAX_STATUS_POLLS,
    ensures
        Execution::begin(eefc, command).run(seq![Ok(written)] + polls) == (Execution {
            eefc,
            command,
            stage: if polls.len() < MAX_STATUS_POLLS {
                Stage::Poll { remaining: (MAX_STATUS_POLLS - polls.len()) as u32 }
            } else {
                Stage::Done(Err(Error::Command(CommandError::TimedOut)))
            },
        }),
    decreases polls.len(),
{
    let start = Execution::begin(eefc, command);
    let issue = seq![Ok::<u32, Error>(written)];
    if polls.len() == 0 {
        assert(issue + polls =~= Seq::empty().push(Ok::<u32, Error>(written)));
        lemma_run_push(start, Seq::empty(), Ok(written));
    } else {
        let earlier = polls.drop_last();
        assert(all_busy(earlier)) by {
            assert forall|i: int| 0 <= i < earlier.len() implies is_busy(#[trigger] earlier[i]) by {
                assert(earlier[i] == polls[i]);
            }
        }
        lemma_polling(eefc, command, written, earlier);
        assert(issue + polls =~= (issue + earlier).push(polls.last()));
        lemma_run_push(start, issue + earlier, polls.last());
        assert(is_busy(polls[polls.len() - 1]));
    }
}

/// A target that never raises the ready flag makes the execution fail with
/// a timeout after exactly `MAX_STATUS_POLLS` reads of the status register:
/// the execution does not go on polling for ever.
pub proof fn lemma_never_ready_times_out(
    eefc: Eefc,
    command: Command,
    written: u32,
    polls: Seq<Result<u32, Error>>,
)
    requires
        all_busy(polls),
        polls.len() == MAX_STATUS_POLLS,
    ensures
        Execution::begin(eefc, command).run(seq![Ok(written)] + polls).spec_result() == Some(
            Err::<u32, Error>(Error::Command(CommandError::TimedOut)),
        ),
        forall|n: int|
            0 <= n < MAX_STATUS_POLLS ==> (#[trigger] Execution::begin(eefc, command).run(
                seq![Ok(written)] + polls.take(n),
            )).spec_pending() == Some(Access::Read { address: eefc.spec_status_register() }),
{
    lemma_polling(eefc, command, written, polls);
    assert forall|n: int| 0 <= n < MAX_STATUS_POLLS implies (#[trigger] Execution::begin(
        eefc,
        command,
    ).run(seq![Ok(written)] + polls.take(n))).spec_pending() == Some(
        Access::Read { address: eefc.spec_status_register() },
    ) by {
        let earlier = polls.take(n);
        assert forall|i: int| 0 <= i < earlier.len() implies is_busy(#[trigger] earlier[i]) by {
            assert(earlier[i] == polls[i]);
        }
        lemma_polling(eefc, command, written, earlier);
    }
}

/// Once the target raises the ready flag within the polling limit, that
/// status word decides: a refused command fails, a command without a result
/// succeeds at once, and a command with a result succeeds with the decoded
/// content of the result register, read next.
pub proof fn lemma_ready_completes(
    eefc: Eefc,
    command: Command,
    written: u32,
    polls: Seq<Result<u32, Error>>,
    status: u32,
    result: u32,
)
    requires
        all_busy(polls),
        polls.len() < MAX_STATUS_POLLS,
        is_ready(status),
    ensures
        ({
            let ready = Execution::begin(eefc, command).run(
                (seq![Ok(written)] + polls).push(Ok(status)),
            );
            &&& is_refused(status) ==> ready.spec_result() == Some(
                Err::<u32, Error>(Error::Command(CommandError::Rejected)),
            )
            &&& !is_refused(status) && !command.spec_has_result() ==> ready.spec_result() == Some(
                Ok::<u32, Error>(0),
            )
            &&& !is_refused(status) && command.spec_has_result() ==> {
                &&& ready.spec_pending() == Some(
                    Access::Read { address: eefc.spec_result_register() },
                )
                &&& ready.after(Ok(result)).spec_result() == Some(
                    Ok::<u32, Error>(command.spec_decode(result)),
                )
            }
        }),
{
    lemma_polling(eefc, command, written, polls);
    lemma_run_push(Execution::begin(eefc, command), seq![Ok(written)] + polls, Ok(status));
}

/// Reading a non-volatile bit yields exactly that bit of the result
/// register: the execution's word is the register masked with one shifted
/// left by the bit's index.
pub proof fn lemma_boot_bit_is_read(eefc: Eefc, number: GpnvmNumber, bits: u32)
    ensures
        (Execution { eefc, command: Command::GetGpnvmBit(number), stage: Stage::Fetch }).after(
            Ok(bits),
        ).spec_result() == Some(Ok::<u32, Error>(bits & (1u32 << number.spec_index()))),
{
}

} // verus!
