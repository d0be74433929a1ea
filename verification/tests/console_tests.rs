use rvkernel::console::{putchar, SbiCall, Writer, SBI_CONSOLE_PUTCHAR};

fn expected(code: isize) -> SbiCall {
    SbiCall { arg0: code, arg1: 0, arg2: 0, arg3: 0, arg4: 0, arg5: 0, fid: 0, eid: 1 }
}

#[test]
fn putchar_builds_console_putchar_call() {
    let call = putchar('A');
    assert_eq!(call, expected(65));
    assert_eq!(call.eid, SBI_CONSOLE_PUTCHAR);
    assert_eq!(call.fid, 0);
}

#[test]
fn putchar_passes_code_point_of_non_ascii_char() {
    assert_eq!(putchar('é').arg0, 0xE9);
    assert_eq!(putchar('\n').arg0, 10);
}

#[test]
fn write_str_makes_one_call_per_char() {
    let mut w = Writer;
    let calls = w.write_str("AB\n");
    assert_eq!(calls, vec![expected(65), expected(66), expected(10)]);
}

#[test]
fn write_str_counts_chars_not_bytes() {
    let mut w = Writer;
    let calls = w.write_str("aé");
    assert_eq!(calls, vec![expected(97), expected(0xE9)]);
}

#[test]
fn write_str_of_empty_string_makes_no_call() {
    let mut w = Writer;
    assert!(w.write_str("").is_empty());
}
