//! The columns of a listing and its two layouts.
//!
//! Each column is resolved on its own from what is known of an entry, and
//! each has a placeholder for what is not known, so that every entry gets
//! its row.

use vstd::prelude::*;
use crate::ls::clock::utc_text;
use crate::ls::clock::utc_text_of;
use crate::ls::entry::DirectoryEntry;
use crate::ls::entry::EntryModel;
use crate::ls::entry::FileKind;
use crate::ls::entry::Metadata;
use crate::ls::entry::models;
use crate::ls::owner::owner_pair;
use crate::ls::owner::OWNER_WIDTH;
use crate::ls::owner::owner_text;
use crate::ls::owner::push_owner;
use crate::text::absent_from_add;
use crate::text::absent_from_column;
use crate::text::count_of;
use crate::text::decimal;
use crate::text::decimal_is_digits;
use crate::text::digit;
use crate::text::digit_char;
use crate::text::joined;
use crate::text::line_feeds_of_joined;
use crate::text::push_decimal;
use crate::text::push_right_justified;
use crate::text::right_justified;
use crate::text::rows_of;
use crate::text::rows_of_joined;

verus! {

/// The width of the size column, in characters.
pub const SIZE_WIDTH: usize = 9;

/// The number of units that a size can be scaled to.
pub const UNIT_COUNT: usize = 5;

/// The pattern of the time column: month, day and year with slashes between
/// them, a space, and hour and minute of the 24-hour clock.
pub const TIME_PATTERN: &'static str = "%m/%d/%Y %R";

/// What kind of object a row is about.
#[derive(Clone, Copy, Debug, PartialEq, Eq, Structural)]
pub enum TypeMarker {
    File,
    Directory,
    SymbolicLink,
    Unknown,
}

/// The marker for a kind; `Unknown` where the kind could not be read.
pub open spec fn marker_of(kind: Option<FileKind>) -> TypeMarker {
    match kind {
        Some(FileKind::Directory) => TypeMarker::Directory,
        Some(FileKind::SymbolicLink) => TypeMarker::SymbolicLink,
        Some(FileKind::Regular) => TypeMarker::File,
        None => TypeMarker::Unknown,
    }
}

/// The character that a marker shows as.
pub open spec fn marker_symbol(marker: TypeMarker) -> char {
    match marker {
        TypeMarker::Directory => 'd',
        TypeMarker::SymbolicLink => 'l',
        TypeMarker::File => '-',
        TypeMarker::Unknown => '?',
    }
}

/// The permission column: all of read, write and execute, or read and execute
/// alone for a read-only object; question marks where the metadata could not
/// be read.
pub open spec fn permission_text(metadata: Option<Metadata>) -> Seq<char> {
    match metadata {
        Some(m) => if m.readonly {
            "r-xr-xr-x"@
        } else {
            "rwxrwxrwx"@
        },
        None => "???????"@,
    }
}

/// The number of bytes in one unit: 1024 to the power `unit`.
pub open spec fn scale(unit: nat) -> nat
    decreases unit,
{
    if unit == 0 {
        1
    } else {
        1024 * scale((unit - 1) as nat)
    }
}

/// The unit that a byte count is shown in: the smallest whose count of whole
/// units is under 1024, and the largest unit there is where none is.
pub open spec fn unit_index(bytes: nat) -> nat {
    if bytes < scale(1) {
        0
    } else if bytes < scale(2) {
        1
    } else if bytes < scale(3) {
        2
    } else if bytes < scale(4) {
        3
    } else {
        4
    }
}

/// The name of a unit.
pub open spec fn unit_name(unit: nat) -> Seq<char> {
    if unit == 0 {
        "B"@
    } else if unit == 1 {
        "KB"@
    } else if unit == 2 {
        "MB"@
    } else if unit == 3 {
        "GB"@
    } else {
        "TB"@
    }
}

/// A byte count in hundredths of a unit, rounded to the nearest hundredth; a
/// count that lies exactly between two goes to the even one.
pub open spec fn hundredths(bytes: nat, unit: nat) -> nat {
    let whole = (100 * bytes) / scale(unit);
    let rest = (100 * bytes) % scale(unit);
    if 2 * rest > scale(unit) || (2 * rest == scale(unit) && whole % 2 == 1) {
        whole + 1
    } else {
        whole
    }
}

/// A number of hundredths in decimal notation with exactly two digits after
/// the point.
pub open spec fn two_places(hundredths: nat) -> Seq<char> {
    decimal(hundredths / 100) + seq!['.', digit((hundredths % 100) / 10), digit(hundredths % 10)]
}

/// A byte count scaled to its unit: the number with two digits after the
/// point, a space and the unit's name.
pub open spec fn scaled_text(bytes: nat) -> Seq<char> {
    two_places(hundredths(bytes, unit_index(bytes))) + seq![' '] + unit_name(unit_index(bytes))
}

/// The size column: a fixed text for a directory or a symbolic link, the
/// scaled length for any other object, a question mark where the metadata
/// could not be read.
pub open spec fn size_text(metadata: Option<Metadata>) -> Seq<char> {
    match metadata {
        Some(m) => if m.kind == FileKind::Regular {
            scaled_text(m.len as nat)
        } else {
            "<DIR>"@
        },
        None => "?"@,
    }
}

/// Whether a text can stand in a column: it is not empty and holds no line
/// feed.
pub open spec fn fits_column(text: Seq<char>) -> bool {
    text.len() > 0 && !text.contains('\n')
}

/// What a column shows for a text that may be missing: the text where there
/// is one that can stand in a column, and a question mark where there is
/// none or it cannot.
pub open spec fn column_or_mark(text: Option<Seq<char>>) -> Seq<char> {
    match text {
        Some(t) => if fits_column(t) {
            t
        } else {
            "?"@
        },
        None => "?"@,
    }
}

/// The time column: the time of the last change in UTC under the pattern of
/// the column, or a question mark where the metadata or the time could not
/// be read, the calendar does not reach the time, or the text cannot stand
/// in a column.
pub open spec fn modified_text(metadata: Option<Metadata>) -> Seq<char> {
    match metadata {
        Some(m) => match m.modified {
            Some(t) => column_or_mark(utc_text(t.secs, t.nanos, TIME_PATTERN@)),
            None => "?"@,
        },
        None => "?"@,
    }
}

/// The name column: the base name, or a question mark where it could not be
/// decoded or is empty.
pub open spec fn name_text(entry: EntryModel) -> Seq<char> {
    match entry.name {
        Some(n) => if n.len() > 0 {
            n
        } else {
            "?"@
        },
        None => "?"@,
    }
}

/// The columns of one row but the name.
#[derive(Clone, Debug)]
pub struct EntryAttributes {
    pub type_marker: TypeMarker,
    pub permission_summary: String,
    pub size_display: String,
    pub modified_display: String,
    pub owner_display: String,
}

/// The mathematical value of an `EntryAttributes`.
pub struct AttributesModel {
    pub type_marker: TypeMarker,
    pub permission_summary: Seq<char>,
    pub size_display: Seq<char>,
    pub modified_display: Seq<char>,
    pub owner_display: Seq<char>,
}

impl View for EntryAttributes {
    type V = AttributesModel;

    open spec fn view(&self) -> AttributesModel {
        AttributesModel {
            type_marker: self.type_marker,
            permission_summary: self.permission_summary@,
            size_display: self.size_display@,
            modified_display: self.modified_display@,
            owner_display: self.owner_display@,
        }
    }
}

/// No column is empty.
pub open spec fn populated(a: AttributesModel) -> bool {
    &&& a.permission_summary.len() > 0
    &&& a.size_display.len() > 0
    &&& a.modified_display.len() > 0
    &&& a.owner_display.len() > 0
}

/// The columns of an entry.
pub open spec fn attributes_of(entry: EntryModel) -> AttributesModel {
    AttributesModel {
        type_marker: marker_of(entry.kind),
        permission_summary: permission_text(entry.metadata),
        size_display: size_text(entry.metadata),
        modified_display: modified_text(entry.metadata),
        owner_display: owner_text(entry.owner),
    }
}

/// One row of the long layout, without its line ending: marker and
/// permissions with nothing between them, then owner, size, time and name,
/// each after one space; the size stands at the right of its column.
pub open spec fn row_text(a: AttributesModel, name: Seq<char>) -> Seq<char> {
    seq![marker_symbol(a.type_marker)] + a.permission_summary + seq![' '] + a.owner_display
        + seq![' '] + right_justified(a.size_display, SIZE_WIDTH as nat) + seq![' ']
        + a.modified_display + seq![' '] + name
}

/// The row of an entry in the long layout.
pub open spec fn long_row(entry: EntryModel) -> Seq<char> {
    row_text(attributes_of(entry), name_text(entry))
}

/// The rows of the long layout, one for each entry and in their order.
pub open spec fn long_rows(entries: Seq<EntryModel>) -> Seq<Seq<char>> {
    entries.map_values(|e: EntryModel| long_row(e))
}

/// The rows of the layout with one name on each line.
pub open spec fn name_rows(entries: Seq<EntryModel>) -> Seq<Seq<char>> {
    entries.map_values(|e: EntryModel| name_text(e))
}

/// A byte count below 1024 to the fifth is shown in the smallest unit in
/// which it counts under 1024: in that unit it does, and in every smaller
/// one it does not.
pub proof fn unit_is_smallest(bytes: nat)
    requires
        bytes < scale(UNIT_COUNT as nat),
    ensures
        unit_index(bytes) < UNIT_COUNT,
        bytes / scale(unit_index(bytes)) < 1024,
        forall|smaller: nat| smaller < unit_index(bytes) ==> bytes / #[trigger] scale(smaller) >= 1024,
{
    reveal_with_fuel(scale, 6);
    assert(scale(0) == 1);
    assert(scale(1) == 1024);
    assert(scale(2) == 1048576);
    assert(scale(3) == 1073741824);
    assert(scale(4) == 1099511627776);
    assert(scale(5) == 1125899906842624);
    let unit = unit_index(bytes);
    if unit == 0 {
        assert(bytes / 1 < 1024);
    } else if unit == 1 {
        assert(bytes / 1024 < 1024);
    } else if unit == 2 {
        assert(bytes / 1048576 < 1024);
    } else if unit == 3 {
        assert(bytes / 1073741824 < 1024);
    } else {
        assert(bytes / 1099511627776 < 1024);
    }
    assert forall|smaller: nat| smaller < unit implies bytes / #[trigger] scale(smaller) >= 1024 by {
        if smaller == 0 {
            assert(bytes / 1 >= 1024);
        } else if smaller == 1 {
            assert(bytes / 1024 >= 1024);
        } else if smaller == 2 {
            assert(bytes / 1048576 >= 1024);
        } else {
            assert(smaller == 3);
            assert(bytes / 1073741824 >= 1024);
        }
    }
}

/// The hundredths shown for a byte count are the nearest: they miss the count
/// by half a hundredth of the unit at most.
pub proof fn hundredths_is_nearest(bytes: nat, unit: nat)
    ensures
        2 * (100 * bytes - hundredths(bytes, unit) * scale(unit)) <= scale(unit),
        2 * (hundredths(bytes, unit) * scale(unit) - 100 * bytes) <= scale(unit),
{
    scale_is_positive(unit);
    let per_unit = scale(unit) as int;
    let total = (100 * bytes) as int;
    let whole = total / per_unit;
    let rest = total % per_unit;
    assert(total == per_unit * whole + rest) by {
        vstd::arithmetic::div_mod::lemma_fundamental_div_mod(total, per_unit);
    }
    assert(0 <= rest < per_unit) by {
        vstd::arithmetic::div_mod::lemma_mod_pos_bound(total, per_unit);
    }
    assert((whole + 1) * per_unit == whole * per_unit + per_unit) by (nonlinear_arith);
    assert(whole * per_unit == per_unit * whole) by (nonlinear_arith);
}

/// A unit holds at least one byte.
pub proof fn scale_is_positive(unit: nat)
    ensures
        scale(unit) >= 1,
    decreases unit,
{
    if unit > 0 {
        scale_is_positive((unit - 1) as nat);
    }
}

/// A scaled size has exactly two digits after its point: it is a decimal
/// number, a point, two digits, a space and the name of the unit.
pub proof fn scaled_text_shape(bytes: nat)
    ensures
        ({
            let text = scaled_text(bytes);
            let whole = decimal(hundredths(bytes, unit_index(bytes)) / 100);
            let unit = unit_name(unit_index(bytes));
            &&& text.len() == whole.len() + 4 + unit.len()
            &&& whole.len() > 0
            &&& forall|i: int| 0 <= i < whole.len() ==> '0' <= #[trigger] text[i] <= '9'
            &&& text[whole.len() as int] == '.'
            &&& '0' <= text[whole.len() as int + 1] <= '9'
            &&& '0' <= text[whole.len() as int + 2] <= '9'
            &&& text[whole.len() as int + 3] == ' '
            &&& text.skip(whole.len() as int + 4) == unit
        }),
{
    let h = hundredths(bytes, unit_index(bytes));
    let text = scaled_text(bytes);
    let whole = decimal(h / 100);
    decimal_is_digits(h / 100);
    assert forall|i: int| 0 <= i < whole.len() implies '0' <= #[trigger] text[i] <= '9' by {
        assert(text[i] == whole[i]);
    }
    assert(text.skip(whole.len() as int + 4) =~= unit_name(unit_index(bytes)));
}

/// Each layout has one row for each entry, in the order of the entries: the
/// row of the short layout is the entry's name, and the row of the long
/// layout ends in it.
pub proof fn layouts_agree(entries: Seq<EntryModel>)
    ensures
        name_rows(entries).len() == entries.len(),
        long_rows(entries).len() == entries.len(),
        forall|i: int|
            0 <= i < entries.len() ==> {
                &&& (#[trigger] name_rows(entries)[i]) == name_text(entries[i])
                &&& long_rows(entries)[i] == row_text(
                    attributes_of(entries[i]),
                    name_rows(entries)[i],
                )
            },
{
}

/// The short layout of entries whose names hold no line feed has exactly one
/// line for each entry, and each line is the entry's name.
pub proof fn one_line_for_each_name(entries: Seq<EntryModel>)
    requires
        forall|i: int| 0 <= i < entries.len() ==> !name_text(#[trigger] entries[i]).contains('\n'),
    ensures
        rows_of(joined(name_rows(entries), seq!['\n'])) == name_rows(entries),
        rows_of(joined(name_rows(entries), seq!['\n'])).len() == entries.len(),
{
    let rows = name_rows(entries);
    assert forall|i: int| 0 <= i < rows.len() implies !(#[trigger] rows[i]).contains('\n') by {
        assert(rows[i] == name_text(entries[i]));
    }
    rows_of_joined(rows);
}

/// Whether an entry can be listed on one line: neither its name nor the
/// names of its owner hold a line feed.
pub open spec fn on_one_line(e: EntryModel) -> bool {
    &&& !name_text(e).contains('\n')
    &&& match e.owner {
        Some(p) => !p.domain.contains('\n') && !p.account.contains('\n'),
        None => true,
    }
}

/// The size column holds no line feed.
pub proof fn size_text_on_one_line(metadata: Option<Metadata>)
    ensures
        !size_text(metadata).contains('\n'),
{
    reveal_strlit("<DIR>");
    reveal_strlit("?");
    reveal_strlit("B");
    reveal_strlit("KB");
    reveal_strlit("MB");
    reveal_strlit("GB");
    reveal_strlit("TB");
    if let Some(m) = metadata {
        if m.kind == FileKind::Regular {
            let bytes = m.len as nat;
            let h = hundredths(bytes, unit_index(bytes));
            let whole = decimal(h / 100);
            let places = seq!['.', digit((h % 100) / 10), digit(h % 10)];
            decimal_is_digits(h / 100);
            assert(!whole.contains('\n'));
            assert(!places.contains('\n'));
            assert(!seq![' '].contains('\n'));
            assert(!unit_name(unit_index(bytes)).contains('\n'));
            absent_from_add(whole, places, '\n');
            absent_from_add(whole + places, seq![' '], '\n');
            absent_from_add(whole + places + seq![' '], unit_name(unit_index(bytes)), '\n');
        }
    }
}

/// The row of an entry that can be listed on one line holds no line feed,
/// whichever of its columns could be read.
pub proof fn long_row_on_one_line(e: EntryModel)
    requires
        on_one_line(e),
    ensures
        !long_row(e).contains('\n'),
{
    let a = attributes_of(e);
    let gap = seq![' '];
    let marker = seq![marker_symbol(a.type_marker)];
    let size = right_justified(a.size_display, SIZE_WIDTH as nat);
    assert(!gap.contains('\n'));
    assert(!marker.contains('\n'));
    assert(!a.permission_summary.contains('\n')) by {
        reveal_strlit("r-xr-xr-x");
        reveal_strlit("rwxrwxrwx");
        reveal_strlit("???????");
    }
    assert(!a.owner_display.contains('\n')) by {
        reveal_strlit("unknown");
        match e.owner {
            Some(p) => {
                absent_from_column(p.domain, OWNER_WIDTH as nat, '\n');
                absent_from_column(p.account, OWNER_WIDTH as nat, '\n');
            },
            None => {
                absent_from_column("unknown"@, OWNER_WIDTH as nat, '\n');
            },
        }
        absent_from_add(owner_pair(e.owner).0, gap, '\n');
        absent_from_add(owner_pair(e.owner).0 + gap, owner_pair(e.owner).1, '\n');
    }
    assert(!size.contains('\n')) by {
        size_text_on_one_line(e.metadata);
        absent_from_column(a.size_display, SIZE_WIDTH as nat, '\n');
    }
    assert(!a.modified_display.contains('\n')) by {
        reveal_strlit("?");
    }
    let r1 = marker + a.permission_summary;
    absent_from_add(marker, a.permission_summary, '\n');
    let r2 = r1 + gap;
    absent_from_add(r1, gap, '\n');
    let r3 = r2 + a.owner_display;
    absent_from_add(r2, a.owner_display, '\n');
    let r4 = r3 + gap;
    absent_from_add(r3, gap, '\n');
    let r5 = r4 + size;
    absent_from_add(r4, size, '\n');
    let r6 = r5 + gap;
    absent_from_add(r5, gap, '\n');
    let r7 = r6 + a.modified_display;
    absent_from_add(r6, a.modified_display, '\n');
    let r8 = r7 + gap;
    absent_from_add(r7, gap, '\n');
    absent_from_add(r8, name_text(e), '\n');
    assert(long_row(e) == r8 + name_text(e));
}

/// The long layout of entries that can each be listed on one line has
/// exactly one line for each entry: as many line feeds as entries, the last
/// at the end of the text, and between them the rows of the entries in their
/// order. No entry is left out, merged with another or repeated, whichever of
/// its columns could be read.
pub proof fn one_line_for_each_entry(entries: Seq<EntryModel>)
    requires
        forall|i: int| 0 <= i < entries.len() ==> on_one_line(#[trigger] entries[i]),
    ensures
        count_of(joined(long_rows(entries), seq!['\n']), '\n') == entries.len(),
        rows_of(joined(long_rows(entries), seq!['\n'])) == long_rows(entries),
        long_rows(entries).len() == entries.len(),
        forall|i: int| 0 <= i < entries.len() ==> (#[trigger] long_rows(entries)[i]) == long_row(
            entries[i],
        ),
        entries.len() == 0 ==> joined(long_rows(entries), seq!['\n']).len() == 0,
        entries.len() > 0 ==> joined(long_rows(entries), seq!['\n']).len() > 0 && joined(
            long_rows(entries),
            seq!['\n'],
        ).last() == '\n',
        count_of(joined(name_rows(entries), seq!['\n']), '\n') == entries.len(),
{
    let rows = long_rows(entries);
    assert forall|i: int| 0 <= i < rows.len() implies !(#[trigger] rows[i]).contains('\n') by {
        assert(rows[i] == long_row(entries[i]));
        long_row_on_one_line(entries[i]);
    }
    rows_of_joined(rows);
    line_feeds_of_joined(rows);
    let names = name_rows(entries);
    assert forall|i: int| 0 <= i < names.len() implies !(#[trigger] names[i]).contains('\n') by {
        assert(names[i] == name_text(entries[i]));
    }
    line_feeds_of_joined(names);
}

impl DirectoryEntry {
    /// The name that the entry is listed under: its base name, or a question
    /// mark where that is unknown or empty. It is never empty.
    pub fn shown_name(&self) -> (name: &str)
        ensures
            name@ == name_text(self@),
            name@.len() > 0,
    {
        proof {
            reveal_strlit("?");
        }
        match &self.name {
            Some(n) => if n.as_str().is_empty() {
                "?"
            } else {
                n.as_str()
            },
            None => "?",
        }
    }
}

impl TypeMarker {
    /// The character that the marker shows as.
    pub fn symbol(&self) -> (c: char)
        ensures
            c == marker_symbol(*self),
    {
        match self {
            TypeMarker::Directory => 'd',
            TypeMarker::SymbolicLink => 'l',
            TypeMarker::File => '-',
            TypeMarker::Unknown => '?',
        }
    }
}

/// The marker of an entry, from the kind that its directory records.
pub fn type_marker(entry: &DirectoryEntry) -> (marker: TypeMarker)
    ensures
        marker == marker_of(entry@.kind),
{
    match entry.kind {
        Some(FileKind::Directory) => TypeMarker::Directory,
        Some(FileKind::SymbolicLink) => TypeMarker::SymbolicLink,
        Some(FileKind::Regular) => TypeMarker::File,
        None => TypeMarker::Unknown,
    }
}

/// The permission column of an entry.
pub fn permission_summary(entry: &DirectoryEntry) -> (summary: String)
    ensures
        summary@ == permission_text(entry@.metadata),
        summary@.len() > 0,
{
    proof {
        reveal_strlit("r-xr-xr-x");
        reveal_strlit("rwxrwxrwx");
        reveal_strlit("???????");
    }
    match entry.metadata {
        Some(m) => if m.readonly {
            String::from_str("r-xr-xr-x")
        } else {
            String::from_str("rwxrwxrwx")
        },
        None => String::from_str("???????"),
    }
}

/// The marker and the permission column of an entry as one text, as a row
/// begins.
pub fn permissions(entry: &DirectoryEntry) -> (output: String)
    ensures
        output@ == seq![marker_symbol(marker_of(entry@.kind))] + permission_text(entry@.metadata),
{
    let mut output = String::new();
    output.push(type_marker(entry).symbol());
    let summary = permission_summary(entry);
    output.append(summary.as_str());
    assert(output@ =~= seq![marker_symbol(marker_of(entry@.kind))] + permission_text(
        entry@.metadata,
    ));
    output
}

/// The unit that a byte count is shown in.
pub fn size_unit(bytes: u64) -> (unit: usize)
    ensures
        unit == unit_index(bytes as nat),
        unit < UNIT_COUNT,
{
    proof {
        reveal_with_fuel(scale, 6);
    }
    if bytes < 1024 {
        0
    } else if bytes < 1048576 {
        1
    } else if bytes < 1073741824 {
        2
    } else if bytes < 1099511627776 {
        3
    } else {
        4
    }
}

/// The number of bytes in one unit.
fn unit_bytes(unit: usize) -> (bytes: u64)
    requires
        unit < UNIT_COUNT,
    ensures
        bytes == scale(unit as nat),
        bytes >= 1,
{
    proof {
        reveal_with_fuel(scale, 6);
    }
    if unit == 0 {
        1
    } else if unit == 1 {
        1024
    } else if unit == 2 {
        1048576
    } else if unit == 3 {
        1073741824
    } else {
        1099511627776
    }
}

/// A byte count in hundredths of a unit, rounded to the nearest, half to even.
fn scaled_hundredths(bytes: u64, unit: usize) -> (h: u128)
    requires
        unit < UNIT_COUNT,
    ensures
        h == hundredths(bytes as nat, unit as nat),
{
    let per_unit: u128 = unit_bytes(unit) as u128;
    let total: u128 = 100 * (bytes as u128);
    let whole: u128 = total / per_unit;
    let rest: u128 = total % per_unit;
    if 2 * rest > per_unit || (2 * rest == per_unit && whole % 2 == 1) {
        whole + 1
    } else {
        whole
    }
}

/// A byte count scaled to its unit, such as `1.50 KB` for 1536 bytes.
pub fn scaled_size(bytes: u64) -> (text: String)
    ensures
        text@ == scaled_text(bytes as nat),
        text@.len() > 0,
{
    let unit = size_unit(bytes);
    let h = scaled_hundredths(bytes, unit);
    let mut text = String::new();
    push_decimal(&mut text, h / 100);
    text.push('.');
    text.push(digit_char(((h % 100) / 10) as u8));
    text.push(digit_char((h % 10) as u8));
    text.push(' ');
    if unit == 0 {
        text.append("B");
    } else if unit == 1 {
        text.append("KB");
    } else if unit == 2 {
        text.append("MB");
    } else if unit == 3 {
        text.append("GB");
    } else {
        text.append("TB");
    }
    assert(text@ =~= scaled_text(bytes as nat));
    text
}

/// The size column of an entry.
pub fn size(entry: &DirectoryEntry) -> (text: String)
    ensures
        text@ == size_text(entry@.metadata),
        text@.len() > 0,
{
    proof {
        reveal_strlit("<DIR>");
        reveal_strlit("?");
    }
    match entry.metadata {
        Some(m) => match m.kind {
            FileKind::Regular => scaled_size(m.len),
            _ => String::from_str("<DIR>"),
        },
        None => String::from_str("?"),
    }
}

/// Whether a text holds a line feed.
pub fn holds_line_feed(text: &str) -> (found: bool)
    ensures
        found == text@.contains('\n'),
{
    for c in it: text.chars()
        invariant
            it.seq() == text@,
            forall|k: int| 0 <= k < it.index() ==> text@[k] != '\n',
    {
        if c == '\n' {
            assert(text@[it.index() as int] == '\n');
            return true;
        }
    }
    false
}

/// Whether an entry can be listed on one line.
pub fn is_on_one_line(entry: &DirectoryEntry) -> (fits: bool)
    ensures
        fits == on_one_line(entry@),
{
    if holds_line_feed(entry.shown_name()) {
        return false;
    }
    match &entry.owner {
        Some(p) => !holds_line_feed(p.domain.as_str()) && !holds_line_feed(p.account.as_str()),
        None => true,
    }
}

/// What a column shows for a text that may be missing. The result is never
/// empty and holds no line feed.
pub fn text_or_mark(text: Option<String>) -> (shown: String)
    ensures
        shown@ == column_or_mark(
            match text {
                Some(t) => Some(t@),
                None => None,
            },
        ),
        fits_column(shown@),
{
    proof {
        reveal_strlit("?");
        assert("?"@ =~= seq!['?']);
    }
    match text {
        Some(t) => if t.as_str().is_empty() || holds_line_feed(t.as_str()) {
            String::from_str("?")
        } else {
            t
        },
        None => String::from_str("?"),
    }
}

/// The time column of an entry. It is never empty and holds no line feed.
pub fn modified(entry: &DirectoryEntry) -> (text: String)
    ensures
        text@ == modified_text(entry@.metadata),
        fits_column(text@),
{
    proof {
        reveal_strlit("?");
        assert("?"@ =~= seq!['?']);
    }
    match entry.metadata {
        Some(m) => match m.modified {
            Some(t) => text_or_mark(utc_text_of(t.secs, t.nanos, TIME_PATTERN)),
            None => String::from_str("?"),
        },
        None => String::from_str("?"),
    }
}

/// The name column of an entry. It is never empty.
pub fn filename(entry: &DirectoryEntry) -> (name: String)
    ensures
        name@ == name_text(entry@),
        name@.len() > 0,
{
    String::from_str(entry.shown_name())
}

/// The owner column of an entry.
pub fn owner(entry: &DirectoryEntry) -> (text: String)
    ensures
        text@ == owner_text(entry@.owner),
        text@.len() > 0,
{
    let mut text = String::new();
    push_owner(&mut text, &entry.owner);
    proof {
        crate::ls::owner::owner_text_len(entry@.owner);
    }
    text
}

/// Resolves the columns of an entry. None of them is ever empty.
pub fn attributes(entry: &DirectoryEntry) -> (a: EntryAttributes)
    ensures
        a@ == attributes_of(entry@),
        populated(a@),
{
    EntryAttributes {
        type_marker: type_marker(entry),
        permission_summary: permission_summary(entry),
        size_display: size(entry),
        modified_display: modified(entry),
        owner_display: owner(entry),
    }
}

/// Appends one row of the long layout to `out`, without a line ending.
pub fn push_row(out: &mut String, a: &EntryAttributes, name: &str)
    ensures
        final(out)@ == old(out)@ + row_text(a@, name@),
{
    out.push(a.type_marker.symbol());
    out.append(a.permission_summary.as_str());
    out.push(' ');
    out.append(a.owner_display.as_str());
    out.push(' ');
    push_right_justified(out, a.size_display.as_str(), SIZE_WIDTH);
    out.push(' ');
    out.append(a.modified_display.as_str());
    out.push(' ');
    out.append(name);
    assert(out@ =~= old(out)@ + row_text(a@, name@));
}

/// The long layout: one row for each entry, in the order given, each ended by
/// a line feed.
pub fn long_list(entries: Vec<DirectoryEntry>) -> (output: String)
    ensures
        output@ == joined(long_rows(models(entries@)), seq!['\n']),
        (forall|i: int| 0 <= i < entries@.len() ==> on_one_line(#[trigger] entries@[i]@))
            ==> count_of(output@, '\n') == entries@.len(),
{
    let mut output = String::new();
    let mut i: usize = 0;
    while i < entries.len()
        invariant
            i <= entries.len(),
            output@ == joined(long_rows(models(entries@)).take(i as int), seq!['\n']),
        decreases entries.len() - i,
    {
        let ghost before = output@;
        let ghost rows = long_rows(models(entries@));
        let a = attributes(&entries[i]);
        let name = filename(&entries[i]);
        push_row(&mut output, &a, name.as_str());
        output.push('\n');
        proof {
            assert(rows.take(i + 1).drop_last() == rows.take(i as int));
            assert(rows.take(i + 1).last() == long_row(entries@[i as int]@));
            assert(output@ =~= before + long_row(entries@[i as int]@) + seq!['\n']);
        }
        i += 1;
    }
    proof {
        assert(long_rows(models(entries@)).take(i as int) == long_rows(models(entries@)));
        if forall|i: int| 0 <= i < entries@.len() ==> on_one_line(#[trigger] entries@[i]@) {
            assert forall|i: int| 0 <= i < models(entries@).len() implies on_one_line(
                #[trigger] models(entries@)[i],
            ) by {
                assert(models(entries@)[i] == entries@[i]@);
            }
            one_line_for_each_entry(models(entries@));
        }
    }
    output
}

/// The layout with one name on each line, in the order given, each ended by a
/// line feed.
pub fn one_per_line(entries: Vec<DirectoryEntry>) -> (output: String)
    ensures
        output@ == joined(name_rows(models(entries@)), seq!['\n']),
        (forall|i: int| 0 <= i < entries@.len() ==> !name_text(#[trigger] entries@[i]@).contains('\n'))
            ==> count_of(output@, '\n') == entries@.len() && rows_of(output@) == name_rows(
            models(entries@),
        ),
{
    let mut output = String::new();
    let mut i: usize = 0;
    while i < entries.len()
        invariant
            i <= entries.len(),
            output@ == joined(name_rows(models(entries@)).take(i as int), seq!['\n']),
        decreases entries.len() - i,
    {
        let ghost before = output@;
        let ghost rows = name_rows(models(entries@));
        let name = filename(&entries[i]);
        output.append(name.as_str());
        output.push('\n');
        proof {
            assert(rows.take(i + 1).drop_last() == rows.take(i as int));
            assert(rows.take(i + 1).last() == name_text(entries@[i as int]@));
            assert(output@ =~= before + name_text(entries@[i as int]@) + seq!['\n']);
        }
        i += 1;
    }
    proof {
        assert(name_rows(models(entries@)).take(i as int) == name_rows(models(entries@)));
        if forall|i: int| 0 <= i < entries@.len() ==> !name_text(#[trigger] entries@[i]@).contains('\n') {
            let rows = name_rows(models(entries@));
            assert forall|i: int| 0 <= i < rows.len() implies !(#[trigger] rows[i]).contains(
                '\n',
            ) by {
                assert(rows[i] == name_text(entries@[i]@));
            }
            rows_of_joined(rows);
            line_feeds_of_joined(rows);
        }
    }
    output
}

} // verus!
