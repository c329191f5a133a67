use ectf_2024_lib::error::ErrorKind;
use ectf_2024_lib::hex::{parse_hex_u32, to_hex8, to_hex_min};
use ectf_2024_lib::host_msg::{parse_arguments, read_arg, read_line};

fn b(s: &str) -> Vec<u8> {
    s.as_bytes().to_vec()
}

#[test]
fn parse_arguments_three_argument_form() {
    let args = parse_arguments(&b("replace TOKEN123 0x1A 0x1B"), 3);
    assert_eq!(args, vec![b("TOKEN123"), b("0x1A"), b("0x1B")]);
}

#[test]
fn parse_arguments_last_argument_swallows_remainder() {
    let args = parse_arguments(&b("attest PIN 0x2C extra tokens"), 2);
    assert_eq!(args, vec![b("PIN"), b("0x2C extra tokens")]);
}

#[test]
fn parse_arguments_leading_separators_collapse() {
    let args = parse_arguments(&b("  replace A B C"), 3);
    assert_eq!(args, vec![b("A"), b("B"), b("C")]);
}

#[test]
fn parse_arguments_inner_separators_do_not_collapse() {
    let args = parse_arguments(&b("cmd a  b"), 3);
    assert_eq!(args, vec![b("a"), b(""), b("b")]);
}

#[test]
fn parse_arguments_bare_command() {
    assert_eq!(parse_arguments(&b("list"), 3), Vec::<Vec<u8>>::new());
    assert_eq!(parse_arguments(&b("list "), 3), Vec::<Vec<u8>>::new());
    assert_eq!(parse_arguments(&b(""), 3), Vec::<Vec<u8>>::new());
}

#[test]
fn parse_hex_exact_values() {
    assert_eq!(parse_hex_u32(&b("0x0")).unwrap(), 0);
    assert_eq!(parse_hex_u32(&b("0x1A")).unwrap(), 0x1A);
    assert_eq!(parse_hex_u32(&b("0xdeadBEEF")).unwrap(), 0xDEAD_BEEF);
    assert_eq!(parse_hex_u32(&b("0xffffffff")).unwrap(), u32::MAX);
    assert_eq!(parse_hex_u32(&b("0x000000001A")).unwrap(), 0x1A);
}

#[test]
fn parse_hex_rejects_malformed_input() {
    assert_eq!(parse_hex_u32(&b("")).unwrap_err(), ErrorKind::ParseFailure);
    assert_eq!(parse_hex_u32(&b("0x")).unwrap_err(), ErrorKind::ParseFailure);
    assert_eq!(parse_hex_u32(&b("1A")).unwrap_err(), ErrorKind::ParseFailure);
    assert_eq!(parse_hex_u32(&b("0x1G")).unwrap_err(), ErrorKind::ParseFailure);
    assert_eq!(parse_hex_u32(&b("0x1A ")).unwrap_err(), ErrorKind::ParseFailure);
    // One nibble past the largest value.
    assert_eq!(parse_hex_u32(&b("0x100000000")).unwrap_err(), ErrorKind::ParseFailure);
}

#[test]
fn format_hex_eight_digits() {
    assert_eq!(to_hex8(0x1001), b("00001001"));
    assert_eq!(to_hex8(0), b("00000000"));
    assert_eq!(to_hex8(0xDEAD_BEEF), b("deadbeef"));
    assert_eq!(to_hex8(u32::MAX), b("ffffffff"));
}

#[test]
fn format_hex_minimal_digits() {
    assert_eq!(to_hex_min(0), b("0"));
    assert_eq!(to_hex_min(0x2C), b("2c"));
    assert_eq!(to_hex_min(0x1001), b("1001"));
    assert_eq!(to_hex_min(u32::MAX), b("ffffffff"));
}

#[test]
fn hex_round_trip() {
    for v in [0u32, 1, 0x1A, 0x1001, 0xDEAD_BEEF, u32::MAX] {
        let mut spelled = b("0x");
        spelled.extend_from_slice(&to_hex8(v));
        assert_eq!(parse_hex_u32(&spelled).unwrap(), v);
    }
}

#[test]
fn read_arg_stops_at_carriage_return() {
    let mut buffer = vec![0u8; 16];
    let count = read_arg(&b("hello\rworld"), &mut buffer);
    assert_eq!(count, 5);
    assert_eq!(&buffer[..5], b"hello");
    assert_eq!(buffer.len(), 16);
}

#[test]
fn read_arg_truncates_silently_when_input_is_long() {
    // The per-argument reader has no overflow signal: it fills the buffer
    // and stops, never writing out of bounds.
    let mut buffer = vec![0u8; 4];
    let count = read_arg(&b("abcdefgh\r"), &mut buffer);
    assert_eq!(count, 4);
    assert_eq!(buffer, b"abcd".to_vec());
    assert_eq!(buffer.len(), 4);
}

#[test]
fn read_line_reports_overflow_when_input_is_long() {
    // The line reader, unlike the per-argument reader, signals the
    // truncation.
    let mut buffer = vec![0u8; 4];
    let r = read_line(&b("abcdefgh\r"), &mut buffer);
    assert_eq!(r.unwrap_err(), ErrorKind::Overflow);
    assert_eq!(buffer.len(), 4);
}

#[test]
fn read_line_accepts_terminated_input() {
    let mut buffer = vec![0u8; 16];
    let count = read_line(&b("boot\r"), &mut buffer).unwrap();
    assert_eq!(count, 4);
    assert_eq!(&buffer[..4], b"boot");
}

#[test]
fn read_line_overflow_on_unterminated_input() {
    let mut buffer = vec![0u8; 16];
    let r = read_line(&b("boot"), &mut buffer);
    assert_eq!(r.unwrap_err(), ErrorKind::Overflow);
}
