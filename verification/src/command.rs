//! The processes that staging runs, spelled out, and what is read from
//! what they print.

use crate::chars::chars_of;
use vstd::prelude::*;
use vstd::string::StringExecFns;
use vstd::utf8::{decode_utf8, valid_utf8};

verus! {

/// The directory of the memory-backed file system that the host provides.
pub const NATIVE_DIR: &'static str = "/dev/shm";

/// The name of the RAM volume that is made where the host provides none.
pub const VOLUME_NAME: &'static str = "lifecrypt";

/// Where a volume of that name is mounted.
pub const VOLUME_DIR: &'static str = "/Volumes/lifecrypt";

/// The size of that volume, in megabytes.
pub const VOLUME_MEGABYTES: u32 = 10;

/// Unicode white space, as it is trimmed from the ends of a text.
pub open spec fn is_space(c: char) -> bool {
    let code = c as u32;
    ||| 0x09 <= code <= 0x0D
    ||| code == 0x20
    ||| code == 0x85
    ||| code == 0xA0
    ||| code == 0x1680
    ||| 0x2000 <= code <= 0x200A
    ||| code == 0x2028
    ||| code == 0x2029
    ||| code == 0x202F
    ||| code == 0x205F
    ||| code == 0x3000
}

/// The first index from `i` on that holds no white space.
pub open spec fn content_start(text: Seq<char>, i: int) -> int
    decreases text.len() - i,
{
    if 0 <= i < text.len() && is_space(text[i]) {
        content_start(text, i + 1)
    } else {
        i
    }
}

/// The least index from `start` up to `j` behind which all is white space
/// up to `j`.
pub open spec fn content_end(text: Seq<char>, start: int, j: int) -> int
    decreases j - start,
{
    if start < j <= text.len() && is_space(text[j - 1]) {
        content_end(text, start, j - 1)
    } else {
        j
    }
}

/// A text without the white space at its two ends.
pub open spec fn trimmed(text: Seq<char>) -> Seq<char> {
    let start = content_start(text, 0);
    text.subrange(start, content_end(text, start, text.len() as int))
}

/// Tests [`is_space`].
fn is_space_char(c: char) -> (space: bool)
    ensures
        space == is_space(c),
{
    let code = c as u32;
    (0x09 <= code && code <= 0x0D) || code == 0x20 || code == 0x85 || code == 0xA0 || code == 0x1680
        || (0x2000 <= code && code <= 0x200A) || code == 0x2028 || code == 0x2029 || code == 0x202F
        || code == 0x205F || code == 0x3000
}

/// Removes the white space at the two ends of a text.
pub fn trim(text: &str) -> (inner: String)
    ensures
        inner@ == trimmed(text@),
{
    let chars = chars_of(text);
    let mut start: usize = 0;
    while start < chars.len() && is_space_char(chars[start])
        invariant
            start <= chars@.len(),
            content_start(chars@, 0) == content_start(chars@, start as int),
        decreases chars@.len() - start,
    {
        start = start + 1;
    }
    let mut end: usize = chars.len();
    while start < end && is_space_char(chars[end - 1])
        invariant
            start <= end <= chars@.len(),
            content_end(chars@, start as int, chars@.len() as int) == content_end(
                chars@,
                start as int,
                end as int,
            ),
        decreases end - start,
    {
        end = end - 1;
    }
    let mut inner = String::new();
    let mut i: usize = start;
    while i < end
        invariant
            start <= i <= end <= chars@.len(),
            inner@ == chars@.subrange(start as int, i as int),
        decreases end - i,
    {
        inner.push(chars[i]);
        assert(chars@.subrange(start as int, i as int).push(chars@[i as int]) =~= chars@.subrange(
            start as int,
            i + 1,
        ));
        i = i + 1;
    }
    inner
}

/// The decimal digits of a number, without leading zeros.
pub open spec fn decimal(n: nat) -> Seq<char>
    decreases n,
{
    if n < 10 {
        seq![('0' as u32 + n) as u32 as char]
    } else {
        decimal(n / 10).push(('0' as u32 + n % 10) as u32 as char)
    }
}

/// The decimal digit for a value below ten.
fn digit_char(d: u64) -> (c: char)
    requires
        d < 10,
    ensures
        c == ('0' as u32 + d) as u32 as char,
{
    match char::from_u32('0' as u32 + d as u32) {
        Some(c) => c,
        None => '0',
    }
}

/// Appends the decimal digits of `n` to `out`.
fn write_decimal(out: &mut String, n: u64)
    ensures
        final(out)@ == old(out)@ + decimal(n as nat),
    decreases n,
{
    if n >= 10 {
        write_decimal(out, n / 10);
    }
    out.push(digit_char(n % 10));
    assert(out@ =~= old(out)@ + decimal(n as nat));
}

/// The number of 512-byte sectors in a volume of so many megabytes.
pub open spec fn sectors(megabytes: u32) -> nat {
    (2 * 1024 * megabytes) as nat
}

/// The address under which a RAM volume of so many megabytes is attached:
/// `ram://` and its size in sectors.
pub open spec fn ram_url(megabytes: u32) -> Seq<char> {
    "ram://"@ + decimal(sectors(megabytes))
}

/// Writes the address of a RAM volume of so many megabytes.
pub fn ram_disk_url(megabytes: u32) -> (url: String)
    ensures
        url@ == ram_url(megabytes),
{
    let mut url = String::from_str("ram://");
    let per_megabyte: u64 = 2 * 1024;
    write_decimal(&mut url, per_megabyte * (megabytes as u64));
    url
}

/// How a process ended.
#[derive(Debug, Clone, Copy, PartialEq, Eq, Structural)]
pub enum ExitStatus {
    Exited(u32),
    Signaled(u8),
    Other(i32),
    Undetermined,
}

impl ExitStatus {
    /// The process ran to its end and returned zero.
    pub open spec fn accepted(self) -> bool {
        self == ExitStatus::Exited(0)
    }

    /// Tests [`ExitStatus::accepted`].
    pub fn is_accepted(&self) -> (accepted: bool)
        ensures
            accepted == self.accepted(),
    {
        match self {
            ExitStatus::Exited(code) => *code == 0,
            _ => false,
        }
    }
}

/// A process to run.
#[derive(Debug, Clone, PartialEq, Eq)]
pub enum Command {
    /// Attach a RAM device of so many megabytes, without mounting it. The
    /// device's path is what the process prints.
    Attach { megabytes: u32 },
    /// Make a volume named [`VOLUME_NAME`] on the device.
    Erase { device: String },
    /// Detach the device, and with it the volume.
    Detach { device: String },
    /// Edit the file, without swap files.
    Editor { file: String },
}

/// [`Command`] as contracts see it.
pub enum CommandView {
    Attach { megabytes: u32 },
    Erase { device: Seq<char> },
    Detach { device: Seq<char> },
    Editor { file: Seq<char> },
}

impl View for Command {
    type V = CommandView;

    open spec fn view(&self) -> CommandView {
        match self {
            Command::Attach { megabytes } => CommandView::Attach { megabytes: *megabytes },
            Command::Erase { device } => CommandView::Erase { device: device@ },
            Command::Detach { device } => CommandView::Detach { device: device@ },
            Command::Editor { file } => CommandView::Editor { file: file@ },
        }
    }
}

impl CommandView {
    /// The program that is started.
    pub open spec fn program(self) -> Seq<char> {
        match self {
            CommandView::Attach { .. } => "hdiutil"@,
            CommandView::Erase { .. } => "diskutil"@,
            CommandView::Detach { .. } => "hdiutil"@,
            CommandView::Editor { .. } => "vim"@,
        }
    }

    /// The arguments that it is started with.
    pub open spec fn args(self) -> Seq<Seq<char>> {
        match self {
            CommandView::Attach { megabytes } => seq!["attach"@, "-nomount"@, ram_url(megabytes)],
            CommandView::Erase { device } => seq!["eraseVolume"@, "HFS+"@, VOLUME_NAME@, device],
            CommandView::Detach { device } => seq!["detach"@, device],
            CommandView::Editor { file } => seq!["-n"@, file],
        }
    }
}

impl Command {
    /// The program to start.
    pub fn program(&self) -> (program: &'static str)
        ensures
            program@ == self@.program(),
    {
        match self {
            Command::Attach { .. } => "hdiutil",
            Command::Erase { .. } => "diskutil",
            Command::Detach { .. } => "hdiutil",
            Command::Editor { .. } => "vim",
        }
    }

    /// The arguments to start it with.
    pub fn args(&self) -> (args: Vec<String>)
        ensures
            args.deep_view() == self@.args(),
    {
        let mut args: Vec<String> = Vec::new();
        match self {
            Command::Attach { megabytes } => {
                args.push(String::from_str("attach"));
                args.push(String::from_str("-nomount"));
                args.push(ram_disk_url(*megabytes));
            },
            Command::Erase { device } => {
                args.push(String::from_str("eraseVolume"));
                args.push(String::from_str("HFS+"));
                args.push(String::from_str(VOLUME_NAME));
                args.push(device.clone());
            },
            Command::Detach { device } => {
                args.push(String::from_str("detach"));
                args.push(device.clone());
            },
            Command::Editor { file } => {
                args.push(String::from_str("-n"));
                args.push(file.clone());
            },
        }
        assert(args.deep_view() =~= self@.args());
        args
    }
}

/// The device that the attach command printed: its output as text, without
/// the white space around it. Output that is no text names no device, nor
/// does output that is nothing but white space.
pub open spec fn device_named(output: Seq<u8>) -> Option<Seq<char>> {
    if valid_utf8(output) && trimmed(decode_utf8(output)).len() > 0 {
        Some(trimmed(decode_utf8(output)))
    } else {
        None
    }
}

/// Reads the device that the attach command printed.
pub fn device_of(output: Vec<u8>) -> (device: Option<String>)
    ensures
        match device {
            Some(device) => device_named(output@) == Some(device@),
            None => device_named(output@) is None,
        },
{
    match String::from_utf8(output) {
        Ok(text) => {
            let device = trim(text.as_str());
            if device.as_str().is_empty() {
                None
            } else {
                Some(device)
            }
        },
        Err(_) => None,
    }
}

} // verus!
