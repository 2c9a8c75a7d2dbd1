use uploader::hex::{decode_digit, decode_word, push_word};
use uploader::result::Error;
use uploader::sam_ba::{awaits_line, check_line, Access, Mode, SamBa};
use uploader::target::{Request, Target};

fn normal_session() -> SamBa {
    let mut session = SamBa::new();
    session.set_normal_mode().unwrap();
    session.confirm_normal_mode(b"\n\r").unwrap();
    session
}

fn normal_target() -> Target {
    let mut target = Target::new(b"v1.1 Dec 15 2010 19:25:04".to_vec());
    assert_eq!(target.receive(b"N#"), b"\n\r".to_vec());
    target
}

fn exchange(session: &SamBa, target: &mut Target, access: Access) -> Result<u32, Error> {
    let command = session.request(access)?;
    let response = target.receive(&command);
    assert_eq!(response.len(), access.response_len());
    session.complete(access, &response)
}

#[test]
fn word_is_formatted_as_eight_upper_case_digits() {
    let mut out = Vec::new();
    push_word(&mut out, 0x400E_0A04);
    assert_eq!(out, b"400E0A04".to_vec());
    push_word(&mut out, 0);
    assert_eq!(out, b"400E0A0400000000".to_vec());
    let mut max = vec![b'x'];
    push_word(&mut max, 0xFFFF_FFFF);
    assert_eq!(max, b"xFFFFFFFF".to_vec());
}

#[test]
fn digits_of_both_cases_are_read() {
    assert_eq!(decode_digit(b'0'), Some(0));
    assert_eq!(decode_digit(b'9'), Some(9));
    assert_eq!(decode_digit(b'a'), Some(10));
    assert_eq!(decode_digit(b'F'), Some(15));
    assert_eq!(decode_digit(b'g'), None);
    assert_eq!(decode_digit(b'/'), None);
    assert_eq!(decode_digit(b':'), None);
    assert_eq!(decode_digit(b'@'), None);
    assert_eq!(decode_digit(b'`'), None);
}

#[test]
fn word_is_parsed_from_exactly_eight_digits() {
    assert_eq!(decode_word(b"deadBEEF"), Some(0xDEAD_BEEF));
    assert_eq!(decode_word(b"00000000"), Some(0));
    assert_eq!(decode_word(b"FFFFFFFF"), Some(0xFFFF_FFFF));
    assert_eq!(decode_word(b"0000002a"), Some(42));
    assert_eq!(decode_word(b"1234567"), None);
    assert_eq!(decode_word(b"123456789"), None);
    assert_eq!(decode_word(b"1234567G"), None);
    assert_eq!(decode_word(b"0x123456"), None);
    assert_eq!(decode_word(b""), None);
}

#[test]
fn formatting_then_parsing_gives_the_word_back() {
    for word in [0u32, 1, 0x10, 0xABCD_EF01, 0x8000_0000, 0x7FFF_FFFF, u32::MAX] {
        let mut text = Vec::new();
        push_word(&mut text, word);
        assert_eq!(text.len(), 8);
        assert_eq!(decode_word(&text), Some(word));
    }
}

#[test]
fn commands_have_the_documented_bytes() {
    let session = normal_session();
    assert_eq!(session.display_version(), Ok(b"V#".to_vec()));
    assert_eq!(session.write_word(0x400E_0A00, 0x0000_0600), Ok(b"W400E0A00,00000600#".to_vec()));
    assert_eq!(session.read_word(0x0008_0000), Ok(b"w00080000,4#".to_vec()));
    assert_eq!(
        session.request(Access::Write { address: 0x0008_0004, value: 0xDEAD_BEEF }),
        Ok(b"W00080004,DEADBEEF#".to_vec())
    );
    assert_eq!(session.request(Access::Read { address: 0x400E_0A08 }), Ok(b"w400E0A08,4#".to_vec()));
}

#[test]
fn mode_switch_is_given_once() {
    let mut session = SamBa::new();
    assert_eq!(session.mode(), Mode::Startup);
    assert_eq!(session.set_normal_mode(), Ok(b"N#".to_vec()));
    assert_eq!(session.mode(), Mode::Switching);
    assert_eq!(session.set_normal_mode(), Err(Error::Protocol));
    assert_eq!(session.mode(), Mode::Switching);
    assert_eq!(session.confirm_normal_mode(b"\n\r"), Ok(()));
    assert_eq!(session.mode(), Mode::Normal);
    assert_eq!(session.set_normal_mode(), Err(Error::Protocol));
    assert_eq!(session.confirm_normal_mode(b"\n\r"), Err(Error::Protocol));
    assert_eq!(session.mode(), Mode::Normal);
}

#[test]
fn no_command_before_the_mode_switch() {
    let mut session = SamBa::new();
    assert_eq!(session.display_version(), Err(Error::Protocol));
    assert_eq!(session.write_word(0, 0), Err(Error::Protocol));
    assert_eq!(session.read_word(0), Err(Error::Protocol));
    assert_eq!(session.word(b"00000000"), Err(Error::Protocol));
    assert_eq!(session.version(b"v1\n\r"), Err(Error::Protocol));
    assert_eq!(session.complete(Access::Write { address: 0, value: 0 }, b""), Err(Error::Protocol));
    assert_eq!(session.confirm_normal_mode(b"\n\r"), Err(Error::Protocol));
    session.set_normal_mode().unwrap();
    assert_eq!(session.read_word(0), Err(Error::Protocol));
    assert_eq!(session.request(Access::Read { address: 0 }), Err(Error::Protocol));
}

#[test]
fn startup_banner_is_discarded() {
    let mut session = SamBa::new();
    session.set_normal_mode().unwrap();
    assert_eq!(session.confirm_normal_mode(b"SAM-BA boot monitor\n\r"), Ok(()));
    assert_eq!(session.mode(), Mode::Normal);
}

#[test]
fn unexpected_response_to_mode_switch_is_a_protocol_error() {
    for response in [&b""[..], b"\n", b"\r\n", b"garbage", b"\n\r>", b"a\n\rb\n\r"] {
        let mut session = SamBa::new();
        session.set_normal_mode().unwrap();
        assert_eq!(session.confirm_normal_mode(response), Err(Error::Protocol));
        assert_eq!(session.mode(), Mode::Startup);
    }
    let mut long = vec![b'x'; 255];
    long.extend_from_slice(b"\n\r");
    let mut session = SamBa::new();
    session.set_normal_mode().unwrap();
    assert_eq!(session.confirm_normal_mode(&long), Err(Error::Protocol));
}

#[test]
fn line_framing() {
    assert!(awaits_line(b""));
    assert!(awaits_line(b"\n"));
    assert!(awaits_line(b"v1.1"));
    assert!(awaits_line(b"v1.1\n"));
    assert!(awaits_line(b"v1.1\r\n"));
    assert!(!awaits_line(b"v1.1\n\r"));
    assert!(!awaits_line(b"\n\r"));
    assert!(!awaits_line(&vec![b'x'; 256]));
    assert!(awaits_line(&vec![b'x'; 255]));
    assert!(check_line(b"\n\r"));
    assert!(check_line(b"v1.1\n\r"));
    assert!(!check_line(b"v1.1"));
    assert!(!check_line(b"\n\r\n\r"));
    assert!(!check_line(b"\r"));
    let mut longest = vec![b'x'; 254];
    longest.extend_from_slice(b"\n\r");
    assert!(check_line(&longest));
    longest.insert(0, b'x');
    assert!(!check_line(&longest));
}

#[test]
fn version_is_returned_as_text() {
    let session = normal_session();
    assert_eq!(
        session.version(b"v1.1 Dec 15 2010 19:25:04\n\r"),
        Ok(String::from("v1.1 Dec 15 2010 19:25:04\n\r"))
    );
    assert_eq!(session.version("vé\n\r".as_bytes()), Ok(String::from("vé\n\r")));
    assert_eq!(session.version(b"v1.1"), Err(Error::Protocol));
    assert_eq!(session.version(&[0xFF, 0x0A, 0x0D]), Err(Error::Protocol));
    assert_eq!(session.version(&[0xC3, 0x0A, 0x0D]), Err(Error::Protocol));
}

#[test]
fn word_response_is_eight_digits() {
    let session = normal_session();
    assert_eq!(session.word(b"0000002A"), Ok(42));
    assert_eq!(session.word(b"0000002a"), Ok(42));
    assert_eq!(session.word(b"2A"), Err(Error::Protocol));
    assert_eq!(session.word(b"0000002A\n\r"), Err(Error::Protocol));
    assert_eq!(session.word(b"0x00002A"), Err(Error::Protocol));
    let read = Access::Read { address: 4 };
    let write = Access::Write { address: 4, value: 1 };
    assert_eq!(read.response_len(), 8);
    assert_eq!(write.response_len(), 0);
    assert_eq!(session.complete(read, b"80000001"), Ok(0x8000_0001));
    assert_eq!(session.complete(read, b""), Err(Error::Protocol));
    assert_eq!(session.complete(write, b""), Ok(0));
    assert_eq!(session.complete(write, b"00000001"), Err(Error::Protocol));
}

#[test]
fn monitor_reads_commands() {
    assert_eq!(Request::decode(b"N#"), Some(Request::NormalMode));
    assert_eq!(Request::decode(b"V#"), Some(Request::Version));
    assert_eq!(
        Request::decode(b"W00080004,deadBEEF#"),
        Some(Request::Write { address: 0x0008_0004, value: 0xDEAD_BEEF })
    );
    assert_eq!(Request::decode(b"w400E0A08,4#"), Some(Request::Read { address: 0x400E_0A08 }));
    for bytes in [
        &b""[..],
        b"#",
        b"N",
        b"n#",
        b"W00080004,DEADBEEF",
        b"W00080004;DEADBEEF#",
        b"W0008000G,DEADBEEF#",
        b"W00080004,DEADBEE#",
        b"w400E0A08,2#",
        b"w400E0A08,4",
        b"w400E0A0,4#",
        b"X400E0A08,4#",
    ] {
        assert_eq!(Request::decode(bytes), None);
    }
}

#[test]
fn word_written_is_word_read() {
    let session = normal_session();
    let mut target = normal_target();
    let cases = [
        (0u32, 0u32),
        (0x0008_0000, 0xDEAD_BEEF),
        (0x400E_0A04, 0x5A00_010B),
        (u32::MAX, u32::MAX),
        (0x2007_0000, 1),
        (0x0008_0000, 0x0123_4567),
    ];
    for (address, value) in cases {
        assert_eq!(exchange(&session, &mut target, Access::Write { address, value }), Ok(0));
        assert_eq!(exchange(&session, &mut target, Access::Read { address }), Ok(value));
        assert_eq!(target.load(address), value);
    }
    assert_eq!(exchange(&session, &mut target, Access::Read { address: 0x0008_0004 }), Ok(0));
    assert_eq!(exchange(&session, &mut target, Access::Read { address: u32::MAX }), Ok(u32::MAX));
}

#[test]
fn target_answers_as_the_monitor() {
    let mut target = Target::new(b"v1.1".to_vec());
    assert_eq!(target.receive(b"V#"), Vec::<u8>::new());
    assert_eq!(target.receive(b"W00000010,00000007#"), Vec::<u8>::new());
    assert_eq!(target.load(0x10), 0);
    assert_eq!(target.receive(b"w00000010,4#"), Vec::<u8>::new());
    assert_eq!(target.receive(b"N#"), b"\n\r".to_vec());
    assert_eq!(target.receive(b"V#"), b"v1.1\n\r".to_vec());
    assert_eq!(target.receive(b"w00000010,4#"), b"00000000".to_vec());
    assert_eq!(target.receive(b"W00000010,00000007#"), Vec::<u8>::new());
    assert_eq!(target.receive(b"w00000010,4#"), b"00000007".to_vec());
    assert_eq!(target.receive(b"w00000014,4#"), b"00000000".to_vec());
    assert_eq!(target.receive(b"bogus"), Vec::<u8>::new());
    target.store(0x14, 0xABCD_0123);
    assert_eq!(target.receive(b"w00000014,4#"), b"ABCD0123".to_vec());
    assert_eq!(target.load(0x10), 7);
}

#[test]
fn session_reads_the_target_version() {
    let mut session = SamBa::new();
    let mut target = Target::new(b"v1.1 Dec 15 2010 19:25:04".to_vec());
    let switch = session.set_normal_mode().unwrap();
    let confirmation = target.receive(&switch);
    assert!(!awaits_line(&confirmation));
    assert_eq!(session.confirm_normal_mode(&confirmation), Ok(()));
    let query = session.display_version().unwrap();
    let answer = target.receive(&query);
    assert_eq!(session.version(&answer), Ok(String::from("v1.1 Dec 15 2010 19:25:04\n\r")));
}
