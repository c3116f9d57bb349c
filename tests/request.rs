use mpc::export::push_hex;
use mpc::request::{parse_opcode_body, parse_opcode_text, OpcodeParseError};
use mpc::vm::VM;

#[test]
fn hex_and_decimal_bodies_agree() {
    assert_eq!(parse_opcode_body(b"0x2A"), Ok(42));
    assert_eq!(parse_opcode_body(b"42"), Ok(42));
    let mut a = VM::new();
    let mut b = VM::new();
    assert_eq!(a.run(parse_opcode_body(b"0x2A").unwrap()), b.run(parse_opcode_body(b"42").unwrap()));
    assert_eq!(a.state_report(), b.state_report());
}

#[test]
fn body_is_trimmed() {
    assert_eq!(parse_opcode_body(b"  4660\n"), Ok(0x1234));
    assert_eq!(parse_opcode_body(b"\t0X1f\r\n"), Ok(31));
    assert_eq!(parse_opcode_body("\u{3000}7\u{a0}".as_bytes()), Ok(7));
}

#[test]
fn body_errors() {
    assert_eq!(parse_opcode_body(&[0xFF, 0x34]), Err(OpcodeParseError::InvalidUtf8));
    assert_eq!(parse_opcode_body(b"0xZZ"), Err(OpcodeParseError::InvalidHex));
    assert_eq!(parse_opcode_body(b"0x"), Err(OpcodeParseError::InvalidHex));
    assert_eq!(parse_opcode_body(b"0x10000"), Err(OpcodeParseError::InvalidHex));
    assert_eq!(parse_opcode_body(b"65536"), Err(OpcodeParseError::InvalidDecimal));
    assert_eq!(parse_opcode_body(b"abc"), Err(OpcodeParseError::InvalidDecimal));
    assert_eq!(parse_opcode_body(b""), Err(OpcodeParseError::InvalidDecimal));
    assert_eq!(parse_opcode_body(b"-1"), Err(OpcodeParseError::InvalidDecimal));
    assert_eq!(parse_opcode_body("4\u{e9}".as_bytes()), Err(OpcodeParseError::InvalidDecimal));
    assert_eq!(parse_opcode_body("0x\u{e9}".as_bytes()), Err(OpcodeParseError::InvalidHex));
}

#[test]
fn text_bounds() {
    assert_eq!(parse_opcode_text("65535"), Ok(65535));
    assert_eq!(parse_opcode_text("0xffff"), Ok(65535));
    assert_eq!(parse_opcode_text("0000000000012"), Ok(12));
    assert_eq!(parse_opcode_text("0"), Ok(0));
    assert_eq!(parse_opcode_text("0x0"), Ok(0));
    assert_eq!(parse_opcode_text(" 1"), Err(OpcodeParseError::InvalidDecimal));
}

#[test]
fn hex_rendering() {
    let mut s = String::from("v=");
    push_hex(&mut s, 0);
    assert_eq!(s, "v=0");
    let mut t = String::new();
    push_hex(&mut t, 0xBEEF);
    assert_eq!(t, "beef");
    let mut u = String::new();
    push_hex(&mut u, 65536);
    assert_eq!(u, "10000");
}
