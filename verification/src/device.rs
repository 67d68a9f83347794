use crate::error::{Error, ExitError};
use crate::path::RawPath;
use crate::raw::{lines_of, views, RawStr, RawString};
use vstd::prelude::*;
use vstd::string::StringSliceAdditionalSpecFns;
use vstd::utf8::decode_utf8;
use vstd::utf8::valid_utf8;

verus! {

/// The bytes by which a connected device is told apart from others.
#[derive(Debug)]
pub struct SerialNumber(RawString);

impl View for SerialNumber {
    type V = Seq<u8>;

    closed spec fn view(&self) -> Seq<u8> {
        self.0@
    }
}

impl SerialNumber {
    /// Takes the given bytes as a serial number.
    pub fn new(raw: RawString) -> (r: SerialNumber)
        ensures
            r@ == raw@,
    {
        SerialNumber(raw)
    }

    /// The bytes of the serial number.
    pub fn as_str(&self) -> (r: RawStr<'_>)
        ensures
            r@ == self@,
    {
        self.0.as_str()
    }
}

/// The bytes can be handed to a command as one argument: they are
/// well-formed UTF-8 and hold no zero byte.
pub open spec fn is_argument(s: Seq<u8>) -> bool {
    valid_utf8(s) && !s.contains(0u8)
}

/// The arguments as the host takes them, or `InvalidData` where one of
/// them cannot be handed to a command.
pub fn command_args(args: &Vec<RawString>) -> (r: Result<Vec<String>, Error>)
    ensures
        (forall|i: int| 0 <= i < args@.len() ==> is_argument(#[trigger] args@[i]@)) ==> r is Ok
            && r->Ok_0@.len() == args@.len() && forall|i: int|
            0 <= i < args@.len() ==> (#[trigger] r->Ok_0@[i])@ == decode_utf8(args@[i]@),
        (exists|i: int| 0 <= i < args@.len() && !is_argument(#[trigger] args@[i]@)) ==> r is Err
            && r->Err_0 is InvalidData,
{
    let mut out: Vec<String> = Vec::new();
    let mut i: usize = 0;
    while i < args.len()
        invariant
            i <= args.len(),
            out@.len() == i,
            forall|k: int| 0 <= k < i ==> is_argument(#[trigger] args@[k]@),
            forall|k: int| 0 <= k < i ==> (#[trigger] out@[k])@ == decode_utf8(args@[k]@),
        decreases args.len() - i,
    {
        let arg = args[i].as_str();
        if arg.contains_byte(0) {
            return Err(Error::InvalidData);
        }
        match arg.to_text() {
            Ok(text) => {
                out.push(text);
            },
            Err(e) => {
                return Err(e);
            },
        }
        i += 1;
    }
    Ok(out)
}

/// What a finished command amounts to: its standard output where it
/// ended with status zero, otherwise a failure that carries the status and
/// both outputs.
pub fn command_output(status: Option<i32>, stdout: Vec<u8>, stderr: Vec<u8>) -> (r: Result<
    Vec<u8>,
    Error,
>)
    ensures
        status == Some(0i32) ==> r is Ok && r->Ok_0@ == stdout@,
        status != Some(0i32) ==> r is Err && r->Err_0 is ExternalCommandFailed
            && r->Err_0->ExternalCommandFailed_0.status == status
            && r->Err_0->ExternalCommandFailed_0.stdout@ == stdout@
            && r->Err_0->ExternalCommandFailed_0.stderr@ == stderr@,
{
    match status {
        Some(code) => {
            if code == 0 {
                return Ok(stdout);
            }
        },
        None => {},
    }
    Err(Error::ExternalCommandFailed(ExitError { status, stdout, stderr }))
}

/// The only line of a text: `UnexpectedEof` where the text has no line,
/// `InvalidData` where it has more than one or the one is empty.
pub fn single_line<'a>(text: &RawStr<'a>) -> (r: Result<RawStr<'a>, Error>)
    ensures
        lines_of(text@).len() == 0 ==> r is Err && r->Err_0 is UnexpectedEof,
        lines_of(text@).len() > 1 ==> r is Err && r->Err_0 is InvalidData,
        lines_of(text@).len() == 1 && lines_of(text@)[0].len() == 0 ==> r is Err
            && r->Err_0 is InvalidData,
        lines_of(text@).len() == 1 && lines_of(text@)[0].len() > 0 ==> r is Ok && r->Ok_0@
            == lines_of(text@)[0],
{
    let lines = text.lines();
    assert(views(lines@).len() == lines@.len());
    if lines.len() == 0 {
        return Err(Error::UnexpectedEof);
    }
    if lines.len() > 1 {
        return Err(Error::InvalidData);
    }
    let line = lines[0];
    assert(views(lines@)[0] == line@);
    if line.len() == 0 {
        return Err(Error::InvalidData);
    }
    Ok(line)
}

/// The arguments of the command that asks for the serial number.
pub fn get_serialno_args() -> (r: Vec<RawString>)
    ensures
        r@.len() == 1,
        r@[0]@ == "get-serialno".spec_bytes(),
{
    let mut args: Vec<RawString> = Vec::new();
    args.push(RawString::of_str("get-serialno"));
    args
}

/// The serial number in the output of the command that asks for it: the
/// output must be exactly one line that is not empty.
pub fn get_serialno(output: &RawStr<'_>) -> (r: Result<SerialNumber, Error>)
    ensures
        lines_of(output@).len() == 0 ==> r is Err && r->Err_0 is UnexpectedEof,
        lines_of(output@).len() > 1 ==> r is Err && r->Err_0 is InvalidData,
        lines_of(output@).len() == 1 && lines_of(output@)[0].len() == 0 ==> r is Err
            && r->Err_0 is InvalidData,
        lines_of(output@).len() == 1 && lines_of(output@)[0].len() > 0 ==> r is Ok && r->Ok_0@
            == lines_of(output@)[0],
{
    match single_line(output) {
        Ok(line) => Ok(SerialNumber(line.to_owned())),
        Err(e) => Err(e),
    }
}

/// The arguments of the command that lists the directory at `path`.
pub fn ls_args(serial_number: &SerialNumber, path: &RawPath<'_>) -> (r: Vec<RawString>)
    ensures
        r@.len() == 4,
        r@[0]@ == "-s".spec_bytes(),
        r@[1]@ == serial_number@,
        r@[2]@ == "ls".spec_bytes(),
        r@[3]@ == path@,
{
    let mut args: Vec<RawString> = Vec::new();
    args.push(RawString::of_str("-s"));
    args.push(serial_number.as_str().to_owned());
    args.push(RawString::of_str("ls"));
    args.push(path.as_raw().to_owned());
    args
}

/// The arguments of the command that writes out the file at `path`. The
/// path goes in as it is, without any quoting.
pub fn pull_args(serial_number: &SerialNumber, path: &RawPath<'_>) -> (r: Vec<RawString>)
    ensures
        r@.len() == 5,
        r@[0]@ == "-s".spec_bytes(),
        r@[1]@ == serial_number@,
        r@[2]@ == "exec-out".spec_bytes(),
        r@[3]@ == "cat".spec_bytes(),
        r@[4]@ == path@,
{
    let mut args: Vec<RawString> = Vec::new();
    args.push(RawString::of_str("-s"));
    args.push(serial_number.as_str().to_owned());
    args.push(RawString::of_str("exec-out"));
    args.push(RawString::of_str("cat"));
    args.push(path.as_raw().to_owned());
    args
}

/// Accepts what was read of a file only if it has the size that the
/// listing gave: anything else is `InvalidData`, never a shorter or longer
/// file.
pub fn pull_impl(file: Vec<u8>, expected_size: u32) -> (r: Result<Vec<u8>, Error>)
    ensures
        file@.len() == expected_size ==> r is Ok && r->Ok_0@ == file@,
        file@.len() != expected_size ==> r is Err && r->Err_0 is InvalidData,
{
    if file.len() == expected_size as usize {
        Ok(file)
    } else {
        Err(Error::InvalidData)
    }
}

/// Accepts what was read of a file only if it has the size that the
/// listing gave.
pub fn pull(file: Vec<u8>, expected_size: u32) -> (r: Result<Vec<u8>, Error>)
    ensures
        file@.len() == expected_size ==> r is Ok && r->Ok_0@ == file@,
        file@.len() != expected_size ==> r is Err && r->Err_0 is InvalidData,
{
    pull_impl(file, expected_size)
}

} // verus!
