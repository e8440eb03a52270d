use binary_inspector::text::escape_bytes;

#[test]
fn escapes_terminal_controls_and_invalid_utf8() {
    assert_eq!(escape_bytes(b"ok\x1b[31m\xff\\"), "ok\\x1B[31m\\xFF\\x5C");
}
