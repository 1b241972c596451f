use sigresolve::diagnostics::found_line;

#[test]
fn found_line_writes_a_fixed_width_address() {
    let line = found_line("frame_update", 0x1000);
    assert_eq!(line, "found frame_update at 0x0000000000001000");
}

#[test]
fn found_line_writes_every_digit_value() {
    let line = found_line("x", 0x0123_4567_89ab_cdef);
    assert_eq!(line, "found x at 0x0123456789abcdef");
}

#[test]
fn found_line_handles_address_zero() {
    let line = found_line("origin", 0);
    assert_eq!(line, "found origin at 0x0000000000000000");
}

#[test]
fn found_line_handles_the_largest_address() {
    let line = found_line("top", usize::MAX);
    let expected = format!("found top at 0x{:016x}", usize::MAX);
    assert_eq!(line, expected);
}
