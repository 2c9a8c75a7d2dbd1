//! What the command line asks for, and what the program prints in return.
//!
//! The program is called with a device path, a command and the command's
//! arguments. This module chooses the action for a command word and builds
//! the lines that the program prints; reading the arguments and printing are
//! left to the program.

use vstd::prelude::*;
use vstd::string::StringExecFns;
use crate::upload::Report;

verus! {

/// What a command word asks the program to do.
#[derive(Clone, Copy, Debug, PartialEq, Eq, Structural)]
pub enum Invocation {
    /// `version`: print the monitor's version.
    Version,
    /// `boot-mode`: print the bit that selects the boot source.
    BootMode,
    /// `boot-from-flash`: set that bit, so that the device boots from flash.
    BootFromFlash,
    /// `upload-file`: program a file into flash and set that bit.
    UploadFile,
    /// Any other word: say so, and end without an error.
    Unknown,
}

/// The action that the command word `command` selects.
pub open spec fn select(command: Seq<char>) -> Invocation {
    if command == "version"@ {
        Invocation::Version
    } else if command == "boot-mode"@ {
        Invocation::BootMode
    } else if command == "boot-from-flash"@ {
        Invocation::BootFromFlash
    } else if command == "upload-file"@ {
        Invocation::UploadFile
    } else {
        Invocation::Unknown
    }
}

/// The character for a decimal digit.
pub open spec fn decimal_digit(value: nat) -> char {
    if value == 0 {
        '0'
    } else if value == 1 {
        '1'
    } else if value == 2 {
        '2'
    } else if value == 3 {
        '3'
    } else if value == 4 {
        '4'
    } else if value == 5 {
        '5'
    } else if value == 6 {
        '6'
    } else if value == 7 {
        '7'
    } else if value == 8 {
        '8'
    } else {
        '9'
    }
}

/// A number in decimal, without leading zeros.
pub open spec fn decimal(value: nat) -> Seq<char>
    decreases value,
{
    if value < 10 {
        seq![decimal_digit(value)]
    } else {
        decimal(value / 10).push(decimal_digit(value % 10))
    }
}

/// The character for a hexadecimal digit, in lower case.
pub open spec fn lower_hex_digit(value: nat) -> char {
    if value < 10 {
        decimal_digit(value)
    } else if value == 10 {
        'a'
    } else if value == 11 {
        'b'
    } else if value == 12 {
        'c'
    } else if value == 13 {
        'd'
    } else if value == 14 {
        'e'
    } else {
        'f'
    }
}

/// The `width` least significant hexadecimal digits of a number, in lower
/// case, most significant first.
pub open spec fn lower_hex(value: nat, width: nat) -> Seq<char>
    decreases width,
{
    if width == 0 {
        Seq::empty()
    } else {
        lower_hex(value / 16, (width - 1) as nat).push(lower_hex_digit(value % 16))
    }
}

/// The line that answers an unknown command.
pub open spec fn unknown_command_line(command: Seq<char>) -> Seq<char> {
    "Unknown command: "@ + command + "\n"@
}

/// The line that reports a completed upload.
pub open spec fn upload_line(report: Report) -> Seq<char> {
    "Wrote "@ + decimal(report.bytes as nat) + " bytes ("@ + decimal(report.pages as nat)
        + " pages)\n"@
}

/// The line that shows the boot bit as it stands in the controller's
/// result: eight hexadecimal digits in lower case.
pub open spec fn boot_mode_line(bit: u32) -> Seq<char> {
    lower_hex(bit as nat, 8) + "\n"@
}

fn same_text(a: &str, b: &str) -> (same: bool)
    ensures
        same == (a@ == b@),
{
    a.to_owned() == b.to_owned()
}

fn digit_text(value: u32) -> (text: &'static str)
    requires
        value < 16,
    ensures
        text@ == seq![lower_hex_digit(value as nat)],
{
    proof {
        reveal_strlit("0");
        reveal_strlit("1");
        reveal_strlit("2");
        reveal_strlit("3");
        reveal_strlit("4");
        reveal_strlit("5");
        reveal_strlit("6");
        reveal_strlit("7");
        reveal_strlit("8");
        reveal_strlit("9");
        reveal_strlit("a");
        reveal_strlit("b");
        reveal_strlit("c");
        reveal_strlit("d");
        reveal_strlit("e");
        reveal_strlit("f");
    }
    let text = if value == 0 {
        "0"
    } else if value == 1 {
        "1"
    } else if value == 2 {
        "2"
    } else if value == 3 {
        "3"
    } else if value == 4 {
        "4"
    } else if value == 5 {
        "5"
    } else if value == 6 {
        "6"
    } else if value == 7 {
        "7"
    } else if value == 8 {
        "8"
    } else if value == 9 {
        "9"
    } else if value == 10 {
        "a"
    } else if value == 11 {
        "b"
    } else if value == 12 {
        "c"
    } else if value == 13 {
        "d"
    } else if value == 14 {
        "e"
    } else {
        "f"
    };
    assert(text@ =~= seq![lower_hex_digit(value as nat)]);
    text
}

fn push_decimal(out: &mut String, value: u32)
    ensures
        final(out)@ == old(out)@ + decimal(value as nat),
    decreases value,
{
    if value >= 10 {
        push_decimal(out, value / 10);
    }
    out.append(digit_text(value % 10));
    assert(final(out)@ =~= old(out)@ + decimal(value as nat));
}

fn push_lower_hex(out: &mut String, value: u32, width: u8)
    ensures
        final(out)@ == old(out)@ + lower_hex(value as nat, width as nat),
    decreases width,
{
    if width > 0 {
        push_lower_hex(out, value / 16, width - 1);
        out.append(digit_text(value % 16));
    }
    assert(final(out)@ =~= old(out)@ + lower_hex(value as nat, width as nat));
}

impl Invocation {
    /// Chooses the action for a command word. The four commands are
    /// `version`, `boot-mode`, `boot-from-flash` and `upload-file`, spelled
    /// exactly so; every other word is unknown.
    pub fn parse(command: &str) -> (invocation: Invocation)
        ensures
            invocation == select(command@),
    {
        if same_text(command, "version") {
            Invocation::Version
        } else if same_text(command, "boot-mode") {
            Invocation::BootMode
        } else if same_text(command, "boot-from-flash") {
            Invocation::BootFromFlash
        } else if same_text(command, "upload-file") {
            Invocation::UploadFile
        } else {
            Invocation::Unknown
        }
    }

    /// Whether the command takes the path of a file as its argument.
    pub fn takes_path(self) -> (takes: bool)
        ensures
            takes == (self == Invocation::UploadFile),
    {
        match self {
            Invocation::UploadFile => true,
            _ => false,
        }
    }
}

/// The line that the program prints for a command it does not know:
/// `Unknown command: ` and the command as it was given. The program ends
/// without an error after it.
pub fn unknown_command(command: &str) -> (line: String)
    ensures
        line@ == unknown_command_line(command@),
{
    let mut line = String::from_str("Unknown command: ");
    line.append(command);
    line.append("\n");
    line
}

/// The line that the program prints after an upload: `Wrote `, the size in
/// bytes, ` bytes (`, the number of pages, and ` pages)`.
pub fn upload_message(report: Report) -> (line: String)
    ensures
        line@ == upload_line(report),
{
    let mut line = String::from_str("Wrote ");
    push_decimal(&mut line, report.bytes);
    line.append(" bytes (");
    push_decimal(&mut line, report.pages);
    line.append(" pages)\n");
    line
}

/// The line that the program prints for the boot bit.
pub fn boot_mode_message(bit: u32) -> (line: String)
    ensures
        line@ == boot_mode_line(bit),
{
    let mut line = String::new();
    push_lower_hex(&mut line, bit, 8);
    line.append("\n");
    assert(line@ =~= boot_mode_line(bit));
    line
}

/// A command word other than the four that the program knows selects no
/// action but the notice, and the notice names the word as it was given.
pub proof fn lemma_unknown_command(command: Seq<char>)
    requires
        command != "version"@,
        command != "boot-mode"@,
        command != "boot-from-flash"@,
        command != "upload-file"@,
    ensures
        select(command) == Invocation::Unknown,
        unknown_command_line(command) == "Unknown command: "@ + command + "\n"@,
        unknown_command_line(command).len() == command.len() + 18,
        unknown_command_line(command).subrange(17, 17 + command.len() as int) == command,
{
    reveal_strlit("Unknown command: ");
    reveal_strlit("\n");
    assert(unknown_command_line(command).subrange(17, 17 + command.len() as int) =~= command);
}

} // verus!
