//! Sample texts to try the utilities on.

use vstd::prelude::*;

verus! {

/// One line of plain text.
pub const ASCII: &'static str = "The quick brown fox jumps over the lazy dog\r\n";

/// Three lines.
pub const MULTI: &'static str =
    "this is a text file\r\nwith multiple lines\r\nof text to show.\r\n";

/// Lines with single empty lines between them.
pub const BLANK: &'static str = "this is a file\r\n\r\nthat has\r\n\r\nblank lines.\r\n";

/// Lines with pairs of empty lines between them.
pub const MULTI_BLANK: &'static str =
    "this is a file\r\n\r\n\r\nthat has\r\n\r\n\r\nmultiple blank lines.\r\n";

/// One line with tabs in it.
pub const TABS: &'static str = "This\ttext\thas\tsome\ttabs\tin\tit.\r\n";

/// One line with control characters in it.
pub const NON_PRINTABLE: &'static str = "Lots \t of \0 control \0\0 characters.\r\n";

} // verus!
