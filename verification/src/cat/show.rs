//! From what was read of a file to what is shown of it.

use vstd::prelude::*;
use vstd::utf8::decode_utf8;
use vstd::utf8::valid_utf8;
use crate::cat::config::CatConfig;
use crate::cat::config::CatModel;
use crate::cat::format::ends_shown;
use crate::cat::format::line_ending;
use crate::cat::format::lines_of;
use crate::cat::format::nonblank_rows;
use crate::cat::format::nonprinting_shown;
use crate::cat::format::number_lines;
use crate::cat::format::number_nonblank_lines;
use crate::cat::format::numbered_rows;
use crate::cat::format::show_ends;
use crate::cat::format::show_nonprinting;
use crate::cat::format::show_tabs;
use crate::cat::format::squeeze_blank;
use crate::cat::format::squeezed_text;
use crate::cat::format::tabs_shown;
use crate::text::joined;

verus! {

/// The text that `String::from_utf8_lossy` decodes from bytes.
pub uninterp spec fn utf8_lossy(bytes: Seq<u8>) -> Seq<char>;

/// `String::from_utf8_lossy` of the standard library, with `Cow::into_owned`
/// for the string. The text depends on the bytes alone, and for bytes that
/// are valid UTF-8 it is the text that they encode.
#[verifier::external_body]
fn decode_lossy(bytes: &[u8]) -> (text: String)
    ensures
        text@ == utf8_lossy(bytes@),
        valid_utf8(bytes@) ==> text@ == decode_utf8(bytes@),
{
    String::from_utf8_lossy(bytes).into_owned()
}

/// What came of reading a file.
#[derive(Debug)]
pub enum FileRead {
    /// The metadata could not be read, for the reason given.
    NoMetadata(String),
    /// The path is that of a directory.
    IsDirectory,
    /// The file could not be opened, for the reason given.
    NotOpened(String),
    /// The bytes of the file.
    Bytes(Vec<u8>),
}

/// The mathematical value of a `FileRead`.
pub enum FileModel {
    NoMetadata(Seq<char>),
    IsDirectory,
    NotOpened(Seq<char>),
    Bytes(Seq<u8>),
}

impl View for FileRead {
    type V = FileModel;

    open spec fn view(&self) -> FileModel {
        match *self {
            FileRead::NoMetadata(reason) => FileModel::NoMetadata(reason@),
            FileRead::IsDirectory => FileModel::IsDirectory,
            FileRead::NotOpened(reason) => FileModel::NotOpened(reason@),
            FileRead::Bytes(bytes) => FileModel::Bytes(bytes@),
        }
    }
}

/// The message for a file that cannot be shown: the path, a colon and a
/// space, and the reason.
pub open spec fn file_error_text(path: Seq<char>, reason: Seq<char>) -> Seq<char> {
    path + seq![':', ' '] + reason
}

/// The text of a file, or why there is none: for a directory, that it is
/// one; for a file that could not be read, the reason given.
pub open spec fn parsed_file(path: Seq<char>, read: FileModel) -> Result<Seq<char>, Seq<char>> {
    match read {
        FileModel::NoMetadata(reason) => Err(file_error_text(path, reason)),
        FileModel::IsDirectory => Err(file_error_text(path, "Is a directory"@)),
        FileModel::NotOpened(reason) => Err(file_error_text(path, reason)),
        FileModel::Bytes(bytes) => Ok(utf8_lossy(bytes)),
    }
}

/// The message for a file that cannot be shown.
pub fn file_error(path: &str, reason: &str) -> (message: String)
    ensures
        message@ == file_error_text(path@, reason@),
{
    let mut message = String::from_str(path);
    message.push(':');
    message.push(' ');
    message.append(reason);
    assert(message@ =~= file_error_text(path@, reason@));
    message
}

/// The text of a file from what came of reading it, or the message that
/// says why there is none. Bytes that are no valid UTF-8 are replaced, not
/// refused.
pub fn parse_file(path: &str, read: FileRead) -> (outcome: Result<String, String>)
    ensures
        match outcome {
            Ok(text) => parsed_file(path@, read@) == Ok::<Seq<char>, Seq<char>>(text@),
            Err(message) => parsed_file(path@, read@) == Err::<Seq<char>, Seq<char>>(message@),
        },
        match outcome {
            Ok(text) => read@ matches FileModel::Bytes(bytes) && (valid_utf8(bytes) ==> text@
                == decode_utf8(bytes)),
            Err(_) => !(read@ is Bytes),
        },
{
    match read {
        FileRead::NoMetadata(reason) => Err(file_error(path, reason.as_str())),
        FileRead::IsDirectory => Err(file_error(path, "Is a directory")),
        FileRead::NotOpened(reason) => Err(file_error(path, reason.as_str())),
        FileRead::Bytes(bytes) => Ok(decode_lossy(bytes.as_slice())),
    }
}

/// The line that reports a file that cannot be shown.
pub fn error_line(message: &str) -> (line: String)
    ensures
        line@ == seq!['c', 'a', 't', ':', ' '] + message@,
{
    let mut line = String::new();
    line.push('c');
    line.push('a');
    line.push('t');
    line.push(':');
    line.push(' ');
    line.append(message);
    assert(line@ =~= seq!['c', 'a', 't', ':', ' '] + message@);
    line
}

/// A text with the markups that a configuration asks for, applied in this
/// order: numbers for the lines that are not empty, numbers for all lines,
/// line ends, squeezed empty lines, tabs, control characters.
pub open spec fn shown(c: CatModel, contents: Seq<char>) -> Seq<char> {
    let a = if c.number_nonblank {
        joined(nonblank_rows(lines_of(contents)), line_ending())
    } else {
        contents
    };
    let b = if c.number {
        joined(numbered_rows(lines_of(a)), line_ending())
    } else {
        a
    };
    let d = if c.show_ends {
        ends_shown(b)
    } else {
        b
    };
    let e = if c.squeeze_blank {
        squeezed_text(d)
    } else {
        d
    };
    let f = if c.show_tabs {
        tabs_shown(e)
    } else {
        e
    };
    if c.show_nonprinting {
        nonprinting_shown(f)
    } else {
        f
    }
}

/// The text of a file as a configuration asks to show it.
pub fn show(config: &CatConfig, contents: String) -> (output: String)
    ensures
        output@ == shown(config@, contents@),
{
    let mut contents = contents;
    if config.number_nonblank {
        contents = number_nonblank_lines(contents);
    }
    if config.number {
        contents = number_lines(contents);
    }
    if config.show_ends {
        contents = show_ends(contents);
    }
    if config.squeeze_blank {
        contents = squeeze_blank(contents);
    }
    if config.show_tabs {
        contents = show_tabs(contents);
    }
    if config.show_nonprinting {
        contents = show_nonprinting(contents);
    }
    contents
}

} // verus!
