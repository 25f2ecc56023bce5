//! What a finished command left behind, and how its captured output reads
//! as text.

use std::string::FromUtf8Error;
use vstd::prelude::*;
use vstd::std_specs::iter::IteratorSpec;
use vstd::utf8::{decode_utf8, valid_utf8};

verus! {

/// How a process ended.
#[derive(Debug, Clone)]
pub struct ExitStatus {
    pub code: Option<i32>,
    pub description: String,
}

/// What a finished process left behind.
#[derive(Debug, Clone)]
pub struct Output {
    pub status: ExitStatus,
    pub stdout: Vec<u8>,
    pub stderr: Vec<u8>,
}

impl ExitStatus {
    /// Whether the process ended well: it exited, and with code zero.
    pub open spec fn succeeded(&self) -> bool {
        self.code == Some(0i32)
    }

    /// A status with the given exit code, absent where the process did not
    /// exit by itself, and the words that describe the status.
    pub fn new(code: Option<i32>, description: &str) -> (status: Self)
        ensures
            status.code == code,
            status.description@ == description@,
    {
        ExitStatus { code, description: description.to_owned() }
    }

    /// Tells whether the process ended well.
    pub fn success(&self) -> (ok: bool)
        ensures
            ok == self.succeeded(),
    {
        match self.code {
            Some(code) => code == 0,
            None => false,
        }
    }
}

/// A text without the newlines at its end.
pub open spec fn trimmed(text: Seq<char>) -> Seq<char>
    decreases text.len(),
{
    if text.len() > 0 && text.last() == '\n' {
        trimmed(text.drop_last())
    } else {
        text
    }
}

/// Trimming drops the newlines at the end and changes nothing else: the
/// trimmed text is the front part of the text, it does not end in a newline,
/// and what was dropped is newlines only.
pub proof fn lemma_trimmed_drops_only_newlines(text: Seq<char>)
    ensures
        trimmed(text).len() <= text.len(),
        trimmed(text) == text.take(trimmed(text).len() as int),
        trimmed(text).len() > 0 ==> trimmed(text).last() != '\n',
        forall|i: int| trimmed(text).len() <= i < text.len() ==> text[i] == '\n',
    decreases text.len(),
{
    if text.len() > 0 && text.last() == '\n' {
        let shorter = text.drop_last();
        lemma_trimmed_drops_only_newlines(shorter);
        assert(shorter.take(trimmed(text).len() as int) =~= text.take(trimmed(text).len() as int));
        assert forall|i: int| trimmed(text).len() <= i < text.len() implies text[i] == '\n' by {
            if i < shorter.len() {
                assert(text[i] == shorter[i]);
            }
        }
    } else {
        assert(text.take(text.len() as int) =~= text);
    }
}

/// Copies a text without the newlines at its end.
pub fn trim_newlines(text: &str) -> (short: String)
    ensures
        short@ == trimmed(text@),
{
    let total = text.unicode_len();
    let mut keep: usize = 0;
    let mut seen: usize = 0;
    let mut chars = text.chars();
    loop
        invariant
            seen <= total,
            total == text@.len(),
            keep <= seen,
            keep == trimmed(text@.take(seen as int)).len(),
            chars.remaining() == text@.skip(seen as int),
        ensures
            seen == total,
            keep == trimmed(text@.take(seen as int)).len(),
        decreases total - seen,
    {
        match chars.next() {
            Some(c) => {
                seen = seen + 1;
                proof {
                    let front = text@.take(seen as int);
                    assert(front.drop_last() =~= text@.take(seen - 1));
                    assert(front.last() == c);
                }
                if c != '\n' {
                    keep = seen;
                }
            },
            None => {
                break ;
            },
        }
    }
    proof {
        assert(text@.take(seen as int) =~= text@);
        lemma_trimmed_drops_only_newlines(text@);
    }
    text.substring_char(0, keep).to_owned()
}

/// `std::string::FromUtf8Error`: why bytes were not read as text. Nothing is
/// known of what it holds.
#[verifier::external_type_specification]
#[verifier::external_body]
pub struct ExFromUtf8Error(FromUtf8Error);

/// `String::from_utf8`: succeeds exactly on well-formed UTF-8, and then
/// gives the characters that the bytes encode.
pub assume_specification[ String::from_utf8 ](vec: Vec<u8>) -> (text: Result<
    String,
    FromUtf8Error,
>)
    ensures
        text is Ok <==> valid_utf8(vec@),
        text is Ok ==> text->Ok_0@ == decode_utf8(vec@),
;

/// The text that `String::from_utf8_lossy` reads from `bytes`: the
/// characters that they encode, with U+FFFD wherever they encode none.
pub uninterp spec fn utf8_lossy(bytes: Seq<u8>) -> Seq<char>;

/// `String::from_utf8_lossy`, as an owned string. Its result is a function
/// of the bytes alone, named `utf8_lossy`; on well-formed UTF-8 it is the
/// text that the bytes encode.
#[verifier::external_body]
pub(crate) fn decode_lossy(bytes: &[u8]) -> (text: String)
    ensures
        text@ == utf8_lossy(bytes@),
        valid_utf8(bytes@) ==> text@ == decode_utf8(bytes@),
{
    String::from_utf8_lossy(bytes).into_owned()
}

/// Reads bytes as text and drops the newlines at its end. Fails exactly
/// where the bytes are not well-formed UTF-8.
pub fn read_text(bytes: &Vec<u8>) -> (text: Result<String, FromUtf8Error>)
    ensures
        text is Ok <==> valid_utf8(bytes@),
        text is Ok ==> text->Ok_0@ == trimmed(decode_utf8(bytes@)),
{
    match String::from_utf8(bytes.clone()) {
        Ok(text) => Ok(trim_newlines(text.as_str())),
        Err(error) => Err(error),
    }
}

/// Reads bytes as text, with U+FFFD in place of what is not well-formed
/// UTF-8, and drops the newlines at its end.
pub fn read_text_lossy(bytes: &Vec<u8>) -> (text: String)
    ensures
        text@ == trimmed(utf8_lossy(bytes@)),
        valid_utf8(bytes@) ==> text@ == trimmed(decode_utf8(bytes@)),
{
    let text = decode_lossy(bytes.as_slice());
    trim_newlines(text.as_str())
}

/// Captured output read as text, without the newlines at its end.
pub trait OutputExt {
    /// The bytes captured from standard output.
    spec fn stdout_bytes(&self) -> Seq<u8>;

    /// The bytes captured from standard error.
    spec fn stderr_bytes(&self) -> Seq<u8>;

    /// Standard output as text, if it is well-formed UTF-8.
    fn stdout(&self) -> (text: Result<String, FromUtf8Error>)
        ensures
            text is Ok <==> valid_utf8(self.stdout_bytes()),
            text is Ok ==> text->Ok_0@ == trimmed(decode_utf8(self.stdout_bytes())),
    ;

    /// Standard error as text, if it is well-formed UTF-8.
    fn stderr(&self) -> (text: Result<String, FromUtf8Error>)
        ensures
            text is Ok <==> valid_utf8(self.stderr_bytes()),
            text is Ok ==> text->Ok_0@ == trimmed(decode_utf8(self.stderr_bytes())),
    ;

    /// Standard output as text, whatever it holds.
    fn stdout_lossy(&self) -> (text: String)
        ensures
            text@ == trimmed(utf8_lossy(self.stdout_bytes())),
            valid_utf8(self.stdout_bytes()) ==> text@ == trimmed(
                decode_utf8(self.stdout_bytes()),
            ),
    ;

    /// Standard error as text, whatever it holds.
    fn stderr_lossy(&self) -> (text: String)
        ensures
            text@ == trimmed(utf8_lossy(self.stderr_bytes())),
            valid_utf8(self.stderr_bytes()) ==> text@ == trimmed(
                decode_utf8(self.stderr_bytes()),
            ),
    ;
}

impl OutputExt for Output {
    open spec fn stdout_bytes(&self) -> Seq<u8> {
        self.stdout@
    }

    open spec fn stderr_bytes(&self) -> Seq<u8> {
        self.stderr@
    }

    fn stdout(&self) -> (text: Result<String, FromUtf8Error>) {
        read_text(&self.stdout)
    }

    fn stderr(&self) -> (text: Result<String, FromUtf8Error>) {
        read_text(&self.stderr)
    }

    fn stdout_lossy(&self) -> (text: String) {
        read_text_lossy(&self.stdout)
    }

    fn stderr_lossy(&self) -> (text: String) {
        read_text_lossy(&self.stderr)
    }
}

} // verus!
