use uploader::cli::{boot_mode_message, unknown_command, upload_message, Invocation};
use uploader::upload::Report;

#[test]
fn known_commands_are_selected() {
    assert_eq!(Invocation::parse("version"), Invocation::Version);
    assert_eq!(Invocation::parse("boot-mode"), Invocation::BootMode);
    assert_eq!(Invocation::parse("boot-from-flash"), Invocation::BootFromFlash);
    assert_eq!(Invocation::parse("upload-file"), Invocation::UploadFile);
    assert!(Invocation::UploadFile.takes_path());
    assert!(!Invocation::Version.takes_path());
    assert!(!Invocation::BootMode.takes_path());
    assert!(!Invocation::BootFromFlash.takes_path());
    assert!(!Invocation::Unknown.takes_path());
}

#[test]
fn any_other_word_is_unknown() {
    for word in ["", "Version", "version ", "upload", "upload-file2", "boot", "boot_mode", "erase", "ünïcode"] {
        assert_eq!(Invocation::parse(word), Invocation::Unknown);
    }
}

#[test]
fn unknown_command_is_named_in_the_notice() {
    assert_eq!(unknown_command("erase"), "Unknown command: erase\n");
    assert_eq!(unknown_command(""), "Unknown command: \n");
    assert_eq!(unknown_command("two words"), "Unknown command: two words\n");
    assert_eq!(unknown_command("ünïcode"), "Unknown command: ünïcode\n");
}

#[test]
fn upload_is_reported_in_bytes_and_pages() {
    assert_eq!(upload_message(Report { bytes: 300, pages: 2 }), "Wrote 300 bytes (2 pages)\n");
    assert_eq!(upload_message(Report { bytes: 0, pages: 0 }), "Wrote 0 bytes (0 pages)\n");
    assert_eq!(
        upload_message(Report { bytes: 262144, pages: 1024 }),
        "Wrote 262144 bytes (1024 pages)\n"
    );
    assert_eq!(
        upload_message(Report { bytes: u32::MAX, pages: 10 }),
        "Wrote 4294967295 bytes (10 pages)\n"
    );
    assert_eq!(upload_message(Report { bytes: 1090, pages: 5 }), "Wrote 1090 bytes (5 pages)\n");
}

#[test]
fn boot_bit_is_shown_as_eight_lower_case_digits() {
    assert_eq!(boot_mode_message(0), "00000000\n");
    assert_eq!(boot_mode_message(2), "00000002\n");
    assert_eq!(boot_mode_message(0xDEAD_BEEF), "deadbeef\n");
    assert_eq!(boot_mode_message(0x0123_4567), "01234567\n");
    assert_eq!(boot_mode_message(0x89AB_CDEF), "89abcdef\n");
    assert_eq!(boot_mode_message(u32::MAX), "ffffffff\n");
}
