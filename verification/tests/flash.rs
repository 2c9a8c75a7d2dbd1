use uploader::eefc::{
    Command, Eefc, Execution, GpnvmNumber, Page, Stage, KEY, MAX_STATUS_POLLS, STATUS_COMMAND_ERROR,
    STATUS_READY,
};
use uploader::result::{CommandError, Error};
use uploader::sam_ba::Access;

const COMMAND_REGISTER: u32 = 0x400E_0A04;
const STATUS_REGISTER: u32 = 0x400E_0A08;
const RESULT_REGISTER: u32 = 0x400E_0A0C;

#[test]
fn set_boot_bit_command_word() {
    let word = Command::SetGpnvmBit(GpnvmNumber::BootModeSelection).word();
    assert_eq!(word, 0x5A00_010B);
    assert_eq!(word >> 24, KEY);
    assert_eq!((word >> 8) & 0xFF, 1);
    assert_eq!(word & 0xFF, 0x0B);
    assert_eq!(Command::SetGpnvmBit(GpnvmNumber::Security).word(), 0x5A00_000B);
    assert_eq!(Command::SetGpnvmBit(GpnvmNumber::FlashSelection).word(), 0x5A00_020B);
}

#[test]
fn command_words_of_all_variants() {
    assert_eq!(Command::GetGpnvmBit(GpnvmNumber::BootModeSelection).word(), 0x5A00_010D);
    assert_eq!(Command::ErasePageAndWritePage(Page(0)).word(), 0x5A00_0003);
    assert_eq!(Command::ErasePageAndWritePage(Page(3)).word(), 0x5A00_0303);
    assert_eq!(Command::ErasePageAndWritePage(Page(1023)).word(), 0x5A03_FF03);
    assert_eq!(Command::ErasePageAndWritePage(Page(0xFFFF)).word(), 0x5AFF_FF03);
    assert_eq!(Command::ErasePageAndWritePage(Page(7)).opcode(), 0x03);
    assert_eq!(Command::ErasePageAndWritePage(Page(7)).argument(), 7);
    assert_eq!(Command::GetGpnvmBit(GpnvmNumber::FlashSelection).argument(), 2);
    assert!(Command::GetGpnvmBit(GpnvmNumber::Security).has_result());
    assert!(!Command::SetGpnvmBit(GpnvmNumber::Security).has_result());
    assert!(!Command::ErasePageAndWritePage(Page(0)).has_result());
}

#[test]
fn pages_lie_within_the_plane() {
    assert_eq!(Page::new(0), Some(Page(0)));
    assert_eq!(Page::new(1023), Some(Page(1023)));
    assert_eq!(Page::new(1024), None);
    assert_eq!(Page::new(u16::MAX), None);
    assert_eq!(Page(0).offset(), 0);
    assert_eq!(Page(1).offset(), 256);
    assert_eq!(Page(1023).offset(), 0x3_FF00);
}

#[test]
fn boot_bits_have_their_index_and_mask() {
    assert_eq!(GpnvmNumber::Security.index(), 0);
    assert_eq!(GpnvmNumber::BootModeSelection.index(), 1);
    assert_eq!(GpnvmNumber::FlashSelection.index(), 2);
    assert_eq!(GpnvmNumber::Security.mask(), 1);
    assert_eq!(GpnvmNumber::BootModeSelection.mask(), 2);
    assert_eq!(GpnvmNumber::FlashSelection.mask(), 4);
    assert!(GpnvmNumber::BootModeSelection.is_set(0x2));
    assert!(GpnvmNumber::BootModeSelection.is_set(0x7));
    assert!(!GpnvmNumber::BootModeSelection.is_set(0x5));
    assert!(!GpnvmNumber::BootModeSelection.is_set(0));
}

#[test]
fn registers_of_both_controllers() {
    let first = Eefc::eefc_0();
    assert_eq!(first.mode_register(), 0x400E_0A00);
    assert_eq!(first.command_register(), COMMAND_REGISTER);
    assert_eq!(first.status_register(), STATUS_REGISTER);
    assert_eq!(first.result_register(), RESULT_REGISTER);
    let second = Eefc::eefc_1();
    assert_eq!(second.mode_register(), 0x400E_0C00);
    assert_eq!(second.command_register(), 0x400E_0C04);
    assert_eq!(second.status_register(), 0x400E_0C08);
    assert_eq!(second.result_register(), 0x400E_0C0C);
}

#[test]
fn command_without_result_completes_when_ready() {
    let command = Command::ErasePageAndWritePage(Page(5));
    let mut execution = Eefc::eefc_0().execute_command(command);
    assert_eq!(execution.result(), None);
    assert_eq!(
        execution.pending(),
        Some(Access::Write { address: COMMAND_REGISTER, value: 0x5A00_0503 })
    );
    execution.supply(Ok(0));
    for _ in 0..3 {
        assert_eq!(execution.pending(), Some(Access::Read { address: STATUS_REGISTER }));
        assert_eq!(execution.result(), None);
        execution.supply(Ok(0));
    }
    assert_eq!(execution.pending(), Some(Access::Read { address: STATUS_REGISTER }));
    execution.supply(Ok(STATUS_READY));
    assert_eq!(execution.pending(), None);
    assert_eq!(execution.result(), Some(Ok(0)));
    execution.supply(Ok(77));
    execution.supply(Err(Error::Transport));
    assert_eq!(execution.result(), Some(Ok(0)));
}

#[test]
fn get_boot_bit_returns_the_bit_of_the_result_register() {
    for (bits, index, expected) in [
        (0x2u32, GpnvmNumber::BootModeSelection, true),
        (0x5, GpnvmNumber::BootModeSelection, false),
        (0x7, GpnvmNumber::BootModeSelection, true),
        (0x0, GpnvmNumber::BootModeSelection, false),
        (0x1, GpnvmNumber::Security, true),
        (0x6, GpnvmNumber::Security, false),
        (0x4, GpnvmNumber::FlashSelection, true),
        (0xFFFF_FFFB, GpnvmNumber::FlashSelection, false),
    ] {
        let mut execution = Eefc::eefc_0().get_boot_bit(index);
        assert_eq!(
            execution.pending(),
            Some(Access::Write {
                address: COMMAND_REGISTER,
                value: 0x5A00_000D | ((index.index() as u32) << 8)
            })
        );
        execution.supply(Ok(0));
        execution.supply(Ok(STATUS_READY));
        assert_eq!(execution.boot_bit(), None);
        assert_eq!(execution.pending(), Some(Access::Read { address: RESULT_REGISTER }));
        execution.supply(Ok(bits));
        assert_eq!(execution.pending(), None);
        assert_eq!(execution.result(), Some(Ok(bits & (1 << index.index()))));
        assert_eq!(execution.boot_bit(), Some(Ok(expected)));
    }
}

#[test]
fn set_boot_bit_has_no_result() {
    let mut execution = Eefc::eefc_0().set_boot_bit(GpnvmNumber::BootModeSelection);
    assert_eq!(execution.command, Command::SetGpnvmBit(GpnvmNumber::BootModeSelection));
    assert_eq!(
        execution.pending(),
        Some(Access::Write { address: COMMAND_REGISTER, value: 0x5A00_010B })
    );
    execution.supply(Ok(0));
    execution.supply(Ok(STATUS_READY));
    assert_eq!(execution.result(), Some(Ok(0)));
    assert_eq!(execution.boot_bit(), Some(Ok(false)));
}

#[test]
fn refused_command_fails() {
    for command in [
        Command::ErasePageAndWritePage(Page(2000)),
        Command::GetGpnvmBit(GpnvmNumber::Security),
        Command::SetGpnvmBit(GpnvmNumber::FlashSelection),
    ] {
        let mut execution = Eefc::eefc_1().execute_command(command);
        execution.supply(Ok(0));
        execution.supply(Ok(STATUS_READY | STATUS_COMMAND_ERROR));
        assert_eq!(execution.pending(), None);
        assert_eq!(execution.result(), Some(Err(Error::Command(CommandError::Rejected))));
        assert_eq!(execution.boot_bit(), Some(Err(Error::Command(CommandError::Rejected))));
    }
    let mut busy = Eefc::eefc_0().execute_command(Command::ErasePageAndWritePage(Page(1)));
    busy.supply(Ok(0));
    busy.supply(Ok(STATUS_COMMAND_ERROR));
    assert_eq!(busy.result(), None);
}

#[test]
fn target_that_is_never_ready_times_out() {
    let mut execution = Eefc::eefc_0().execute_command(Command::ErasePageAndWritePage(Page(0)));
    execution.supply(Ok(0));
    let mut polls = 0u32;
    while let Some(access) = execution.pending() {
        assert_eq!(access, Access::Read { address: STATUS_REGISTER });
        execution.supply(Ok(0xFFFF_FFFE));
        polls += 1;
        assert!(polls <= MAX_STATUS_POLLS);
    }
    assert_eq!(polls, MAX_STATUS_POLLS);
    assert_eq!(polls, 1000);
    assert_eq!(execution.result(), Some(Err(Error::Command(CommandError::TimedOut))));
}

#[test]
fn ready_at_the_last_poll_still_counts() {
    let mut execution = Eefc::eefc_0().execute_command(Command::SetGpnvmBit(GpnvmNumber::Security));
    execution.supply(Ok(0));
    for _ in 0..MAX_STATUS_POLLS - 1 {
        execution.supply(Ok(0));
    }
    assert_eq!(execution.stage, Stage::Poll { remaining: 1 });
    execution.supply(Ok(STATUS_READY));
    assert_eq!(execution.result(), Some(Ok(0)));
}

#[test]
fn failed_access_ends_the_execution() {
    let command = Command::GetGpnvmBit(GpnvmNumber::BootModeSelection);
    let mut at_issue = Eefc::eefc_0().execute_command(command);
    at_issue.supply(Err(Error::Transport));
    assert_eq!(at_issue.result(), Some(Err(Error::Transport)));
    assert_eq!(at_issue.pending(), None);

    let mut at_poll = Eefc::eefc_0().execute_command(command);
    at_poll.supply(Ok(0));
    at_poll.supply(Err(Error::Protocol));
    assert_eq!(at_poll.result(), Some(Err(Error::Protocol)));

    let mut at_fetch = Eefc::eefc_0().execute_command(command);
    at_fetch.supply(Ok(0));
    at_fetch.supply(Ok(STATUS_READY));
    at_fetch.supply(Err(Error::Transport));
    assert_eq!(at_fetch.result(), Some(Err(Error::Transport)));
    assert_eq!(
        at_fetch,
        Execution { eefc: Eefc::Eefc0, command, stage: Stage::Done(Err(Error::Transport)) }
    );
}
