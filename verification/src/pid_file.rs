//! The contents of the gost PID file: the PID is written in decimal and read
//! back from the trimmed text. Reading, writing and removing the file itself
//! is the application's part.

use vstd::prelude::*;
use vstd::string::*;
use crate::text::{
    chars_of, dec_str, decimal_string, digit_char, is_dec_digit, is_ws, parse_unsigned,
    parse_unsigned_chars, trim, trim_chars, first_non_ws, end_non_ws, IntErrorKind,
};

verus! {

/// Why the text of a PID file holds no PID; both are `InvalidData` errors.
#[derive(Debug, Clone, Copy, PartialEq, Eq, Structural)]
pub enum PidFileError {
    /// The file holds only whitespace.
    Empty,
    /// The trimmed text is not a `u32`.
    NotANumber(IntErrorKind),
}

impl PidFileError {
    pub open spec fn spec_message(self) -> Seq<char> {
        match self {
            PidFileError::Empty => "PID 文件内容为空"@,
            PidFileError::NotANumber(k) => "PID 文件内容不是有效数字: "@ + k.spec_message(),
        }
    }

    /// The text of the error.
    pub fn message(&self) -> (r: String)
        ensures
            r@ == self.spec_message(),
    {
        match self {
            PidFileError::Empty => String::from_str("PID 文件内容为空"),
            PidFileError::NotANumber(k) => {
                let mut m = String::from_str("PID 文件内容不是有效数字: ");
                let d = k.message();
                m.append(d.as_str());
                m
            },
        }
    }
}

/// What the text of a PID file reads as: the trimmed text parsed as a `u32`.
pub open spec fn read_pid(contents: Seq<char>) -> Result<nat, PidFileError> {
    let t = trim(contents);
    if t.len() == 0 {
        Err(PidFileError::Empty)
    } else {
        match parse_unsigned(t, u32::MAX as nat) {
            Ok(v) => Ok(v),
            Err(k) => Err(PidFileError::NotANumber(k)),
        }
    }
}

/// The text written to the PID file: the PID in decimal.
pub fn pid_file_contents(pid: u32) -> (r: String)
    ensures
        r@ == dec_str(pid as nat),
{
    decimal_string(pid as u64)
}

/// Reads the PID out of the text of a PID file.
pub fn parse_pid_file(contents: &str) -> (r: Result<u32, PidFileError>)
    ensures
        match read_pid(contents@) {
            Ok(v) => r == Ok::<u32, PidFileError>(v as u32),
            Err(e) => r == Err::<u32, PidFileError>(e),
        },
{
    let cs = chars_of(contents);
    let t = trim_chars(cs.as_slice());
    if t.len() == 0 {
        return Err(PidFileError::Empty);
    }
    match parse_unsigned_chars(t.as_slice(), 0xFFFF_FFFF) {
        Ok(v) => Ok(v as u32),
        Err(k) => Err(PidFileError::NotANumber(k)),
    }
}

/// The message of a PID file that could not be read.
pub fn read_failure_message(err: &str) -> (r: String)
    ensures
        r@ == "读取 PID 文件失败: "@ + err@,
{
    let mut m = String::from_str("读取 PID 文件失败: ");
    m.append(err);
    m
}

/// The message of a PID file that could not be removed.
pub fn clear_failure_message(err: &str) -> (r: String)
    ensures
        r@ == "清理 PID 文件失败: "@ + err@,
{
    let mut m = String::from_str("清理 PID 文件失败: ");
    m.append(err);
    m
}

proof fn lemma_dec_str_digits(n: nat)
    ensures
        dec_str(n).len() > 0,
        forall|i: int| 0 <= i < dec_str(n).len() ==> is_dec_digit(#[trigger] dec_str(n)[i]),
    decreases n,
{
    if n >= 10 {
        lemma_dec_str_digits(n / 10);
        let d = (n % 10) as int;
        assert(is_dec_digit(digit_char(d)));
        assert forall|i: int| 0 <= i < dec_str(n).len() implies is_dec_digit(#[trigger] dec_str(n)[i]) by {
            if i < dec_str(n / 10).len() {
                assert(dec_str(n)[i] == dec_str(n / 10)[i]);
            }
        }
    } else {
        assert(is_dec_digit(digit_char(n as int)));
    }
}

/// A text of digits is its own trimmed form.
proof fn lemma_trim_digits(s: Seq<char>)
    requires
        s.len() > 0,
        forall|i: int| 0 <= i < s.len() ==> is_dec_digit(#[trigger] s[i]),
    ensures
        trim(s) == s,
{
    assert(is_dec_digit(s[0]));
    assert(!is_ws(s[0]));
    assert(first_non_ws(s, 0) == 0);
    assert(is_dec_digit(s[s.len() - 1]));
    assert(!is_ws(s[s.len() - 1]));
    assert(end_non_ws(s, s.len() as int) == s.len());
    assert(s.subrange(0, s.len() as int) =~= s);
}

/// Law: the PID written to the file is the PID read back from it.
pub proof fn law_pid_file_round_trip(pid: u32)
    ensures
        read_pid(dec_str(pid as nat)) == Ok::<nat, PidFileError>(pid as nat),
{
    lemma_dec_str_digits(pid as nat);
    lemma_trim_digits(dec_str(pid as nat));
    crate::text::law_parse_decimal_roundtrip(pid as nat, u32::MAX as nat);
}

} // verus!
