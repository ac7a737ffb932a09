use porthole::pid_file::{
    clear_failure_message, parse_pid_file, pid_file_contents, read_failure_message, PidFileError,
};
use porthole::text::IntErrorKind;

#[test]
fn pid_file_round_trip_works() {
    let contents = pid_file_contents(12345);
    assert_eq!(contents, "12345");
    assert_eq!(parse_pid_file(&contents), Ok(12345));
}

#[test]
fn invalid_pid_file_content_is_rejected() {
    let error = parse_pid_file("not-a-pid").expect_err("invalid pid should fail");
    assert_eq!(error, PidFileError::NotANumber(IntErrorKind::InvalidDigit));
    assert_eq!(error.message(), "PID 文件内容不是有效数字: invalid digit found in string");
}

#[test]
fn pid_text_is_trimmed_and_bounded() {
    assert_eq!(parse_pid_file("  42\n"), Ok(42));
    assert_eq!(parse_pid_file("+7"), Ok(7));
    assert_eq!(parse_pid_file("4294967295"), Ok(u32::MAX));
    assert_eq!(
        parse_pid_file("4294967296"),
        Err(PidFileError::NotANumber(IntErrorKind::PosOverflow))
    );
    assert_eq!(parse_pid_file(" \n\t"), Err(PidFileError::Empty));
    assert_eq!(PidFileError::Empty.message(), "PID 文件内容为空");
    assert_eq!(parse_pid_file("-1"), Err(PidFileError::NotANumber(IntErrorKind::InvalidDigit)));
}

#[test]
fn every_written_pid_reads_back() {
    for pid in [0u32, 1, 9, 10, 99, 100, 65535, 1_000_000, u32::MAX] {
        assert_eq!(parse_pid_file(&pid_file_contents(pid)), Ok(pid));
    }
}

#[test]
fn pid_file_io_messages() {
    assert_eq!(read_failure_message("denied"), "读取 PID 文件失败: denied");
    assert_eq!(clear_failure_message("busy"), "清理 PID 文件失败: busy");
}
