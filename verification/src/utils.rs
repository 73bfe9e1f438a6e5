//! Utility functions for commands.

use crate::js_bin::{WasmJsWriter, WriterError};
use std::time::Duration;
use vstd::prelude::*;
use vstd::string::*;
use vstd::utf8::encode_utf8;

verus! {

/// How a line ends in the text that is written out.
#[derive(Clone, Copy, Debug, PartialEq, Eq, Structural)]
pub enum LineEnding {
    /// A line feed.
    Lf,
    /// A carriage return and a line feed.
    CrLf,
}

impl LineEnding {
    /// The bytes of this line ending.
    pub open spec fn bytes(self) -> Seq<u8> {
        match self {
            LineEnding::Lf => seq![10u8],
            LineEnding::CrLf => seq![13u8, 10u8],
        }
    }
}

/// `text` with every line break replaced by `line_ending`. A line break is a
/// carriage return followed by a line feed, or either of them alone.
pub open spec fn with_line_endings(text: Seq<u8>, line_ending: LineEnding) -> Seq<u8>
    decreases text.len(),
{
    if text.len() == 0 {
        Seq::empty()
    } else if text[0] == 13 && text.len() >= 2 && text[1] == 10 {
        line_ending.bytes() + with_line_endings(text.skip(2), line_ending)
    } else if text[0] == 13 || text[0] == 10 {
        line_ending.bytes() + with_line_endings(text.skip(1), line_ending)
    } else {
        seq![text[0]] + with_line_endings(text.skip(1), line_ending)
    }
}

/// The bytes of the text `text` in UTF-8, every line break replaced by
/// `line_ending`.
pub open spec fn os_text(text: Seq<char>, line_ending: LineEnding) -> Seq<u8> {
    with_line_endings(encode_utf8(text), line_ending)
}

/// Appends `bytes` to `out`.
pub(crate) fn append_bytes(out: &mut Vec<u8>, bytes: &[u8])
    ensures
        final(out)@ == old(out)@ + bytes@,
{
    out.extend_from_slice(bytes);
    assert(out@ =~= old(out)@ + bytes@);
}

fn push_line_ending(out: &mut Vec<u8>, line_ending: LineEnding)
    ensures
        final(out)@ == old(out)@ + line_ending.bytes(),
{
    match line_ending {
        LineEnding::Lf => {
            out.push(10);
        },
        LineEnding::CrLf => {
            out.push(13);
            out.push(10);
        },
    }
}

/// Strings as the bytes of a text file.
pub trait StrUtils {
    /// The bytes of the string in UTF-8, every line break replaced by
    /// `line_ending`.
    spec fn os_bytes(&self, line_ending: LineEnding) -> Seq<u8>;

    /// The bytes of the string in UTF-8, with every line break (`\r\n`, `\r`
    /// or `\n`) replaced by `line_ending`.
    fn to_os_bytes(&self, line_ending: LineEnding) -> (bytes: Vec<u8>)
        ensures
            bytes@ == self.os_bytes(line_ending),
    ;
}

impl StrUtils for str {
    open spec fn os_bytes(&self, line_ending: LineEnding) -> Seq<u8> {
        os_text(self@, line_ending)
    }

    fn to_os_bytes(&self, line_ending: LineEnding) -> (bytes: Vec<u8>) {
        let text = self.as_bytes();
        let mut out: Vec<u8> = Vec::new();
        let mut i: usize = 0;
        assert(text@.skip(0) =~= text@);
        while i < text.len()
            invariant
                i <= text.len(),
                out@ + with_line_endings(text@.skip(i as int), line_ending) == with_line_endings(
                    text@,
                    line_ending,
                ),
            decreases text.len() - i,
        {
            let ghost rest = text@.skip(i as int);
            let b = text[i];
            if b == 13 && i + 1 < text.len() && text[i + 1] == 10 {
                push_line_ending(&mut out, line_ending);
                assert(rest.skip(2) =~= text@.skip(i + 2));
                i += 2;
            } else if b == 13 || b == 10 {
                push_line_ending(&mut out, line_ending);
                assert(rest.skip(1) =~= text@.skip(i + 1));
                i += 1;
            } else {
                out.push(b);
                assert(rest.skip(1) =~= text@.skip(i + 1));
                i += 1;
            }
        }
        out
    }
}

/// Where the crate is to be looked for.
pub enum CratePath {
    /// The crate is in this directory.
    Found(String),
    /// The directory to try next: the crate is there if it holds a
    /// `Cargo.toml`.
    Look(String),
}

/// If an explicit path is given, then use it, otherwise the search for the
/// manifest starts in the current directory `cwd`.
pub fn get_crate_path(path: Option<String>, cwd: String) -> (place: CratePath)
    ensures
        place == match path {
            Some(p) => CratePath::Found(p),
            None => CratePath::Look(cwd),
        },
{
    match path {
        Some(p) => CratePath::Found(p),
        None => CratePath::Look(cwd),
    }
}

/// One step of the search up the path for the manifest file. `dir` is the
/// directory that was tried, `has_manifest` says whether a `Cargo.toml` is a
/// file in it, and `parent` is the directory above it, if there is one. The
/// search ends in `dir` if it has the manifest, goes on in `parent` if not,
/// and ends in `.` where there is no parent, so that the error names the
/// current directory.
pub fn find_manifest_step(dir: String, has_manifest: bool, parent: Option<String>) -> (place:
    CratePath)
    ensures
        has_manifest ==> place == CratePath::Found(dir),
        !has_manifest ==> match parent {
            Some(up) => place == CratePath::Look(up),
            None => place matches CratePath::Found(here) && here@ == "."@,
        },
{
    if has_manifest {
        CratePath::Found(dir)
    } else {
        match parent {
            Some(up) => CratePath::Look(up),
            None => CratePath::Found(String::from_str(".")),
        }
    }
}

/// The zlib stream that `flate2` makes of `input` at its best compression
/// level, or `None` if its compressor fails on `input`.
pub uninterp spec fn zlib_stream(input: Seq<u8>) -> Option<Seq<u8>>;

/// The error of std's I/O.
#[verifier::external_type_specification]
#[verifier::external_body]
pub struct ExIoError(std::io::Error);

/// Feeds `input` to a `flate2::write::ZlibEncoder` with
/// `Compression::best()` that writes to a vector, and finishes it. The
/// contract names what comes out, the stream or the failure: both depend on
/// `input` alone, since a vector takes every write.
#[verifier::external_body]
fn zlib_compress(input: &[u8]) -> (compressed: Result<Vec<u8>, std::io::Error>)
    ensures
        match compressed {
            Ok(bytes) => zlib_stream(input@) == Some(bytes@),
            Err(_) => zlib_stream(input@) is None,
        },
{
    let mut encoder = flate2::write::ZlibEncoder::new(Vec::new(), flate2::Compression::best());
    std::io::Write::write_all(&mut encoder, input)?;
    encoder.finish()
}

/// Compresses `input` as a zlib stream and writes the stream to `out`.
/// Succeeds exactly when `out` is not finished and the compressor takes
/// `input`; where it fails, nothing changes.
pub fn read_and_compress(out: &mut WasmJsWriter, input: &[u8]) -> (result: Result<
    (),
    WriterError,
>)
    requires
        old(out).wf(),
    ensures
        final(out).wf(),
        result is Ok <==> !old(out)@.finished && zlib_stream(input@) is Some,
        match result {
            Ok(_) => final(out)@ == old(out)@.after_write(zlib_stream(input@)->0),
            Err(e) => final(out)@ == old(out)@ && e == WriterError::Io,
        },
{
    match zlib_compress(input) {
        Ok(bytes) => match out.write(bytes.as_slice()) {
            Ok(_) => Ok(()),
            Err(e) => Err(e),
        },
        Err(_) => Err(WriterError::Io),
    }
}

/// Whether `part` stands somewhere in `text`.
pub open spec fn occurs_in(part: Seq<char>, text: Seq<char>) -> bool {
    exists|i: int|
        0 <= i <= text.len() - part.len() && #[trigger] text.subrange(i, i + part.len()) == part
}

/// `text` with every `-` replaced by `_`.
pub open spec fn underscored(text: Seq<char>) -> Seq<char> {
    text.map_values(
        |c: char|
            if c == '-' {
                '_'
            } else {
                c
            },
    )
}

/// Calls `str::starts_with` with a string as the pattern. The contract claims
/// what std documents: the result says whether `text` begins with `prefix`.
#[verifier::external_body]
pub(crate) fn starts_with(text: &str, prefix: &str) -> (yes: bool)
    ensures
        yes == prefix@.is_prefix_of(text@),
{
    text.starts_with(prefix)
}

/// Calls `str::contains` with a string as the pattern. The contract claims
/// what std documents: the result says whether `part` is a sub-slice of
/// `text`.
#[verifier::external_body]
pub(crate) fn contains(text: &str, part: &str) -> (yes: bool)
    ensures
        yes == occurs_in(part@, text@),
{
    text.contains(part)
}

/// Calls `str::replace` to put `_` in the place of every `-`. The contract
/// claims what std documents of a replacement of all matches, for a pattern
/// and a replacement of one character each: the result is `name` with that
/// character exchanged wherever it stands.
#[verifier::external_body]
pub(crate) fn hyphens_to_underscores(name: &str) -> (replaced: String)
    ensures
        replaced@ == underscored(name@),
{
    name.replace("-", "_")
}

/// The character of the decimal digit `d`.
pub open spec fn digit_char(d: nat) -> char
    recommends
        d < 10,
{
    if d == 0 {
        '0'
    } else if d == 1 {
        '1'
    } else if d == 2 {
        '2'
    } else if d == 3 {
        '3'
    } else if d == 4 {
        '4'
    } else if d == 5 {
        '5'
    } else if d == 6 {
        '6'
    } else if d == 7 {
        '7'
    } else if d == 8 {
        '8'
    } else {
        '9'
    }
}

/// The number `n` in decimal digits, without leading zeros.
pub open spec fn decimal_text(n: nat) -> Seq<char>
    decreases n,
{
    if n < 10 {
        seq![digit_char(n)]
    } else {
        decimal_text(n / 10).push(digit_char(n % 10))
    }
}

/// The number `n` in decimal digits, with a leading zero if it has one digit
/// only.
pub open spec fn two_digits(n: nat) -> Seq<char> {
    if n < 10 {
        seq!['0', digit_char(n)]
    } else {
        decimal_text(n)
    }
}

/// How a duration of `secs` seconds and `subsec_nanos` nanoseconds is shown:
/// minutes and seconds from one minute on, seconds and hundredths below.
pub open spec fn elapsed_text(secs: nat, subsec_nanos: nat) -> Seq<char> {
    if secs >= 60 {
        decimal_text(secs / 60) + seq!['m', ' '] + two_digits(secs % 60) + seq!['s']
    } else {
        decimal_text(secs) + seq!['.'] + two_digits(subsec_nanos / 10_000_000) + seq!['s']
    }
}

fn digit_str(d: u64) -> (digit: &'static str)
    requires
        d < 10,
    ensures
        digit@ == seq![digit_char(d as nat)],
{
    proof {
        reveal_strlit("0");
        reveal_strlit("1");
        reveal_strlit("2");
        reveal_strlit("3");
        reveal_strlit("4");
        reveal_strlit("5");
        reveal_strlit("6");
        reveal_strlit("7");
        reveal_strlit("8");
        reveal_strlit("9");
    }
    let digit = if d == 0 {
        "0"
    } else if d == 1 {
        "1"
    } else if d == 2 {
        "2"
    } else if d == 3 {
        "3"
    } else if d == 4 {
        "4"
    } else if d == 5 {
        "5"
    } else if d == 6 {
        "6"
    } else if d == 7 {
        "7"
    } else if d == 8 {
        "8"
    } else {
        "9"
    };
    assert(digit@ =~= seq![digit_char(d as nat)]);
    digit
}

/// Appends the decimal digits of `n` to `text`.
fn push_decimal(text: &mut String, n: u64)
    ensures
        final(text)@ == old(text)@ + decimal_text(n as nat),
    decreases n,
{
    if n >= 10 {
        push_decimal(text, n / 10);
    }
    text.append(digit_str(n % 10));
    assert(text@ =~= old(text)@ + decimal_text(n as nat));
}

/// Appends the decimal digits of `n` to `text`, two of them at least.
fn push_two_digits(text: &mut String, n: u64)
    ensures
        final(text)@ == old(text)@ + two_digits(n as nat),
{
    if n < 10 {
        text.append(digit_str(0));
    }
    push_decimal(text, n);
    assert(text@ =~= old(text)@ + two_digits(n as nat));
}

/// Render a duration, given as whole seconds and the nanoseconds beyond
/// them, to a form suitable for display on a console.
pub fn elapsed_parts(secs: u64, subsec_nanos: u32) -> (text: String)
    ensures
        text@ == elapsed_text(secs as nat, subsec_nanos as nat),
{
    proof {
        reveal_strlit("m ");
        reveal_strlit(".");
        reveal_strlit("s");
    }
    let mut text = String::new();
    if secs >= 60 {
        push_decimal(&mut text, secs / 60);
        text.append("m ");
        push_two_digits(&mut text, secs % 60);
    } else {
        push_decimal(&mut text, secs);
        text.append(".");
        push_two_digits(&mut text, (subsec_nanos / 10_000_000) as u64);
    }
    text.append("s");
    assert(text@ =~= elapsed_text(secs as nat, subsec_nanos as nat));
    text
}

/// `Duration::as_secs` of std: the whole seconds of a duration.
pub assume_specification[ Duration::as_secs ](duration: &Duration) -> (secs: u64)
;

/// `Duration::subsec_nanos` of std: the part of a duration beyond its whole
/// seconds, in nanoseconds; std documents that it is less than one second.
pub assume_specification[ Duration::subsec_nanos ](duration: &Duration) -> (nanos: u32)
    ensures
        nanos < 1_000_000_000,
;

/// Render a `Duration` to a form suitable for display on a console: what
/// `elapsed_parts` gives for its seconds and nanoseconds.
pub fn elapsed(duration: Duration) -> (text: String)
    ensures
        exists|secs: nat, nanos: nat| nanos < 1_000_000_000 && text@ == elapsed_text(secs, nanos),
{
    let secs = duration.as_secs();
    let nanos = duration.subsec_nanos();
    elapsed_parts(secs, nanos)
}

} // verus!
