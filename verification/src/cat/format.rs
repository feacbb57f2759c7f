//! The markups that a text can be shown with: numbered lines, squeezed blank
//! lines, visible line ends, tabs and control characters.

use vstd::prelude::*;
use crate::text::decimal;
use crate::text::joined;
use crate::text::joined_front;
use crate::text::joined_push;
use crate::text::push_decimal;
use crate::text::row_len;
use crate::text::row_len_is;
use crate::text::texts;

verus! {

/// The ending that every line of a marked-up text gets: carriage return and
/// line feed.
pub open spec fn line_ending() -> Seq<char> {
    seq!['\r', '\n']
}

/// A line without the carriage return that it may end in.
pub open spec fn without_return(line: Seq<char>) -> Seq<char> {
    if line.len() > 0 && line.last() == '\r' {
        line.drop_last()
    } else {
        line
    }
}

/// The lines of a text. A line ends at a line feed, or at a carriage return
/// right before one; the ending is no part of the line. The last line need
/// not have an ending, and is then taken as it stands; an empty text has no
/// lines.
pub open spec fn lines_of(s: Seq<char>) -> Seq<Seq<char>>
    decreases s.len(),
{
    if s.len() == 0 {
        Seq::empty()
    } else {
        let n = row_len(s);
        if n >= s.len() {
            seq![s]
        } else {
            seq![without_return(s.take(n as int))] + lines_of(s.skip(n as int + 1))
        }
    }
}

/// Splits a text into its lines.
pub fn lines(contents: &str) -> (found: Vec<String>)
    ensures
        texts(found@) == lines_of(contents@),
{
    let ghost s = contents@;
    let mut found: Vec<String> = Vec::new();
    let mut current = String::new();
    let mut after_return = false;
    let ghost mut start: int = 0;
    proof {
        assert(s.skip(0) =~= s);
        assert(texts(found@) + lines_of(s) =~= lines_of(s));
    }
    for c in it: contents.chars()
        invariant
            it.seq() == s,
            s == contents@,
            0 <= start <= it.index(),
            current@ == s.subrange(start, it.index() as int),
            forall|k: int| start <= k < it.index() ==> s[k] != '\n',
            after_return == (current@.len() > 0 && current@.last() == '\r'),
            lines_of(s) == texts(found@) + lines_of(s.skip(start)),
    {
        let ghost i = it.index() as int;
        if c == '\n' {
            proof {
                let tail = s.skip(start);
                row_len_is(tail, (i - start) as nat);
                assert(tail.take(i - start) == s.subrange(start, i));
                assert(tail.skip(i - start + 1) == s.skip(i + 1));
            }
            if after_return {
                current.pop();
            }
            let ghost before = found@;
            found.push(current);
            current = String::new();
            after_return = false;
            proof {
                assert(texts(found@) =~= texts(before) + seq![
                    without_return(s.subrange(start, i)),
                ]);
                assert(lines_of(s) =~= texts(found@) + lines_of(s.skip(i + 1)));
                start = i + 1;
                assert(current@ =~= s.subrange(start, i + 1));
            }
        } else {
            current.push(c);
            after_return = c == '\r';
            assert(current@ =~= s.subrange(start, i + 1));
        }
    }
    proof {
        let tail = s.skip(start);
        row_len_is(tail, tail.len());
        assert(current@ =~= tail);
    }
    if !current.as_str().is_empty() {
        let ghost before = found@;
        found.push(current);
        proof {
            assert(texts(found@) =~= texts(before) + seq![s.skip(start)]);
        }
    } else {
        assert(texts(found@) + lines_of(s.skip(start)) =~= texts(found@));
    }
    found
}

/// One numbered line: a tab and a space, the number, a space, the line.
pub open spec fn numbered_row(number: nat, line: Seq<char>) -> Seq<char> {
    seq!['\t', ' '] + decimal(number) + seq![' '] + line
}

/// Every line with its number in front, counted from one.
pub open spec fn numbered_rows(lines: Seq<Seq<char>>) -> Seq<Seq<char>> {
    Seq::new(lines.len(), |i: int| numbered_row((i + 1) as nat, lines[i]))
}

/// The number of lines that are not empty.
pub open spec fn nonblank_count(lines: Seq<Seq<char>>) -> nat
    decreases lines.len(),
{
    if lines.len() == 0 {
        0
    } else if lines.last().len() > 0 {
        nonblank_count(lines.drop_last()) + 1
    } else {
        nonblank_count(lines.drop_last())
    }
}

/// Every line that is not empty with its number in front, counted from one
/// over those lines alone; an empty line stays empty.
pub open spec fn nonblank_rows(lines: Seq<Seq<char>>) -> Seq<Seq<char>> {
    Seq::new(
        lines.len(),
        |i: int|
            if lines[i].len() == 0 {
                Seq::empty()
            } else {
                numbered_row(nonblank_count(lines.take(i + 1)), lines[i])
            },
    )
}

/// Whether line `i` is an empty line right after an empty line.
pub open spec fn repeats_blank(lines: Seq<Seq<char>>, i: int) -> bool {
    0 < i < lines.len() && lines[i].len() == 0 && lines[i - 1].len() == 0
}

/// The lines without those that repeat an empty line, in their order.
pub open spec fn squeezed(lines: Seq<Seq<char>>) -> Seq<Seq<char>>
    decreases lines.len(),
{
    if lines.len() == 0 {
        Seq::empty()
    } else if repeats_blank(lines, lines.len() - 1) {
        squeezed(lines.drop_last())
    } else {
        squeezed(lines.drop_last()).push(lines.last())
    }
}

/// The text with a dollar sign in front of every carriage return that a line
/// feed follows.
pub open spec fn ends_shown(s: Seq<char>) -> Seq<char>
    decreases s.len(),
{
    if s.len() == 0 {
        Seq::empty()
    } else if s.len() >= 2 && s[s.len() - 2] == '\r' && s[s.len() - 1] == '\n' {
        ends_shown(s.take(s.len() - 2)) + seq!['$', '\r', '\n']
    } else {
        ends_shown(s.drop_last()).push(s.last())
    }
}

/// The text with `^I` in place of every tab.
pub open spec fn tabs_shown(s: Seq<char>) -> Seq<char>
    decreases s.len(),
{
    if s.len() == 0 {
        Seq::empty()
    } else if s.last() == '\t' {
        tabs_shown(s.drop_last()) + seq!['^', 'I']
    } else {
        tabs_shown(s.drop_last()).push(s.last())
    }
}

/// Whether a character is a control character: one of the first 32, or one
/// from U+007F to U+009F.
pub open spec fn is_control(c: char) -> bool {
    (c as u32) < 32 || (127 <= (c as u32) && (c as u32) <= 159)
}

/// The character that stands for a control character after the caret: the
/// one whose code is that of the control character, as one byte, plus 64.
pub open spec fn caret_partner(c: char) -> char
    recommends
        is_control(c),
{
    ((c as u32) + 64) as char
}

/// The text with a caret and a partner character in place of every control
/// character.
pub open spec fn nonprinting_shown(s: Seq<char>) -> Seq<char>
    decreases s.len(),
{
    if s.len() == 0 {
        Seq::empty()
    } else if is_control(s.last()) {
        nonprinting_shown(s.drop_last()) + seq!['^', caret_partner(s.last())]
    } else {
        nonprinting_shown(s.drop_last()).push(s.last())
    }
}

/// A text with its repeated empty lines dropped.
pub open spec fn squeezed_text(s: Seq<char>) -> Seq<char> {
    joined(squeezed(lines_of(s)), line_ending())
}

/// No line of a text holds a line feed.
pub proof fn lines_hold_no_feed(s: Seq<char>)
    ensures
        forall|i: int| 0 <= i < lines_of(s).len() ==> !(#[trigger] lines_of(s)[i]).contains('\n'),
    decreases s.len(),
{
    if s.len() > 0 {
        let n = row_len(s);
        first_row_holds_no_feed(s);
        if n < s.len() {
            let first = without_return(s.take(n as int));
            let rest = lines_of(s.skip(n as int + 1));
            lines_hold_no_feed(s.skip(n as int + 1));
            assert forall|k: int| 0 <= k < first.len() implies first[k] != '\n' by {
                assert(first[k] == s[k]);
            }
            assert forall|i: int| 0 <= i < lines_of(s).len() implies !(#[trigger] lines_of(
                s,
            )[i]).contains('\n') by {
                if i > 0 {
                    assert(lines_of(s)[i] == rest[i - 1]);
                }
            }
        }
    }
}

/// The first row of a text ends before its first line feed.
pub proof fn first_row_holds_no_feed(s: Seq<char>)
    ensures
        row_len(s) <= s.len(),
        forall|k: int| 0 <= k < row_len(s) ==> s[k] != '\n',
        row_len(s) < s.len() ==> s[row_len(s) as int] == '\n',
    decreases s.len(),
{
    if s.len() > 0 && s[0] != '\n' {
        let rest = s.skip(1);
        first_row_holds_no_feed(rest);
        assert forall|k: int| 0 <= k < row_len(s) implies s[k] != '\n' by {
            if k > 0 {
                assert(s[k] == rest[k - 1]);
            }
        }
        if row_len(s) < s.len() {
            assert(s[row_len(s) as int] == rest[row_len(rest) as int]);
        }
    }
}

/// Lines that hold no line feed, each ended by carriage return and line
/// feed, are the lines of the text that they make.
pub proof fn lines_of_joined(rows: Seq<Seq<char>>)
    requires
        forall|i: int| 0 <= i < rows.len() ==> !(#[trigger] rows[i]).contains('\n'),
    ensures
        lines_of(joined(rows, line_ending())) == rows,
    decreases rows.len(),
{
    let ending = line_ending();
    if rows.len() > 0 {
        let first = rows[0];
        let rest = rows.skip(1);
        assert(rows =~= seq![first] + rest);
        joined_front(first, rest, ending);
        let text = joined(rows, ending);
        let tail = joined(rest, ending);
        assert(text == first + ending + tail);
        let n = first.len() + 1;
        assert forall|i: int| 0 <= i < n implies text[i] != '\n' by {
            if i < first.len() {
                assert(text[i] == first[i]);
                assert(!first.contains('\n'));
            } else {
                assert(text[i] == '\r');
            }
        }
        assert(text[n as int] == '\n');
        row_len_is(text, n);
        assert(text.take(n as int) =~= first.push('\r'));
        assert(without_return(first.push('\r')) =~= first);
        assert(text.skip(n as int + 1) =~= tail);
        assert forall|i: int| 0 <= i < rest.len() implies !(#[trigger] rest[i]).contains('\n') by {
            assert(rest[i] == rows[i + 1]);
        }
        lines_of_joined(rest);
        assert(lines_of(text) =~= seq![first] + rest);
    }
}

/// What squeezing leaves: lines of the text, the last of them empty exactly
/// where the last line of the text is, and no empty line after an empty line.
pub proof fn squeezed_shape(lines: Seq<Seq<char>>)
    ensures
        lines.len() > 0 ==> squeezed(lines).len() > 0 && (squeezed(lines).last().len() == 0
            <==> lines.last().len() == 0),
        forall|i: int| 0 <= i < squeezed(lines).len() ==> !repeats_blank(squeezed(lines), i),
        forall|i: int| 0 <= i < squeezed(lines).len() ==> lines.contains(#[trigger] squeezed(lines)[i]),
    decreases lines.len(),
{
    if lines.len() > 0 {
        let front = lines.drop_last();
        squeezed_shape(front);
        let kept = squeezed(front);
        assert forall|i: int| 0 <= i < squeezed(lines).len() implies lines.contains(
            #[trigger] squeezed(lines)[i],
        ) by {
            if i < kept.len() {
                let at = choose|j: int| 0 <= j < front.len() && front[j] == kept[i];
                assert(lines[at] == kept[i]);
            } else {
                assert(lines[lines.len() - 1] == squeezed(lines)[i]);
            }
        }
        if repeats_blank(lines, lines.len() - 1) {
            assert(front.last() == lines[lines.len() - 2]);
        } else {
            let all = kept.push(lines.last());
            assert forall|i: int| 0 <= i < all.len() implies !repeats_blank(all, i) by {
                if i < kept.len() {
                    assert(!repeats_blank(kept, i));
                    if i > 0 {
                        assert(all[i] == kept[i] && all[i - 1] == kept[i - 1]);
                    }
                } else if kept.len() > 0 {
                    assert(all[i - 1] == kept.last());
                    assert(front.last() == lines[lines.len() - 2]);
                }
            }
        }
    }
}

/// Lines with no empty line after an empty line stay as they are when they
/// are squeezed.
pub proof fn squeezed_keeps_squeezed(lines: Seq<Seq<char>>)
    requires
        forall|i: int| 0 <= i < lines.len() ==> !repeats_blank(lines, i),
    ensures
        squeezed(lines) == lines,
    decreases lines.len(),
{
    if lines.len() > 0 {
        let front = lines.drop_last();
        assert forall|i: int| 0 <= i < front.len() implies !repeats_blank(front, i) by {
            assert(!repeats_blank(lines, i));
            if i > 0 {
                assert(front[i] == lines[i] && front[i - 1] == lines[i - 1]);
            }
        }
        squeezed_keeps_squeezed(front);
        assert(!repeats_blank(lines, lines.len() - 1));
        assert(front.push(lines.last()) =~= lines);
    }
}

/// Squeezing a text that was squeezed changes nothing.
pub proof fn squeezing_twice_is_squeezing_once(s: Seq<char>)
    ensures
        squeezed_text(squeezed_text(s)) == squeezed_text(s),
{
    let lines = lines_of(s);
    let kept = squeezed(lines);
    lines_hold_no_feed(s);
    squeezed_shape(lines);
    assert forall|i: int| 0 <= i < kept.len() implies !(#[trigger] kept[i]).contains('\n') by {
        let at = choose|j: int| 0 <= j < lines.len() && lines[j] == kept[i];
        assert(!lines[at].contains('\n'));
    }
    lines_of_joined(kept);
    squeezed_keeps_squeezed(kept);
}

/// Appends a line with its number in front and its ending behind to `out`.
fn push_numbered(out: &mut String, number: u128, line: &str)
    ensures
        final(out)@ == old(out)@ + numbered_row(number as nat, line@) + line_ending(),
{
    out.push('\t');
    out.push(' ');
    push_decimal(out, number);
    out.push(' ');
    out.append(line);
    out.push('\r');
    out.push('\n');
    assert(out@ =~= old(out)@ + numbered_row(number as nat, line@) + line_ending());
}

/// Numbers the lines that are not empty, from one; an empty line stays
/// empty. Every line ends in carriage return and line feed.
pub fn number_nonblank_lines(contents: String) -> (modified: String)
    ensures
        modified@ == joined(nonblank_rows(lines_of(contents@)), line_ending()),
{
    let found = lines(contents.as_str());
    let ghost all = lines_of(contents@);
    let ghost rows = nonblank_rows(all);
    let mut modified = String::new();
    let mut count: usize = 0;
    let mut i: usize = 0;
    while i < found.len()
        invariant
            i <= found.len(),
            texts(found@) == all,
            rows == nonblank_rows(all),
            count <= i,
            count == nonblank_count(all.take(i as int)),
            modified@ == joined(rows.take(i as int), line_ending()),
        decreases found.len() - i,
    {
        let ghost before = modified@;
        proof {
            assert(all.take(i + 1).drop_last() == all.take(i as int));
            assert(all.take(i + 1).last() == all[i as int]);
            assert(all[i as int] == found@[i as int]@);
            assert(rows.take(i + 1).drop_last() == rows.take(i as int));
        }
        let line = found[i].as_str();
        if !line.is_empty() {
            count += 1;
            push_numbered(&mut modified, count as u128, line);
        } else {
            modified.push('\r');
            modified.push('\n');
            assert(modified@ =~= before + rows[i as int] + line_ending());
        }
        i += 1;
    }
    assert(rows.take(i as int) == rows);
    modified
}

/// Numbers all lines, from one. Every line ends in carriage return and line
/// feed.
pub fn number_lines(contents: String) -> (modified: String)
    ensures
        modified@ == joined(numbered_rows(lines_of(contents@)), line_ending()),
{
    let found = lines(contents.as_str());
    let ghost all = lines_of(contents@);
    let ghost rows = numbered_rows(all);
    let mut modified = String::new();
    let mut i: usize = 0;
    while i < found.len()
        invariant
            i <= found.len(),
            texts(found@) == all,
            rows == numbered_rows(all),
            modified@ == joined(rows.take(i as int), line_ending()),
        decreases found.len() - i,
    {
        proof {
            assert(all[i as int] == found@[i as int]@);
            assert(rows.take(i + 1).drop_last() == rows.take(i as int));
        }
        push_numbered(&mut modified, i as u128 + 1, found[i].as_str());
        i += 1;
    }
    assert(rows.take(i as int) == rows);
    modified
}

/// Puts a dollar sign at the end of every line that ends in carriage return
/// and line feed.
pub fn show_ends(contents: String) -> (modified: String)
    ensures
        modified@ == ends_shown(contents@),
{
    let ghost s = contents@;
    let mut modified = String::new();
    let mut pending = false;
    for c in it: contents.chars()
        invariant
            it.seq() == s,
            s == contents@,
            pending == (it.index() > 0 && s[it.index() - 1] == '\r'),
            pending ==> modified@ == ends_shown(s.take(it.index() - 1)),
            !pending ==> modified@ == ends_shown(s.take(it.index() as int)),
    {
        let ghost i = it.index() as int;
        proof {
            assert(s.take(i + 1).drop_last() == s.take(i));
            if i > 0 {
                assert(s.take(i).drop_last() == s.take(i - 1));
                assert(s.take(i + 1).take(i - 1) == s.take(i - 1));
            }
        }
        if pending && c == '\n' {
            modified.push('$');
            modified.push('\r');
            modified.push('\n');
            pending = false;
            assert(modified@ =~= ends_shown(s.take(i - 1)) + seq!['$', '\r', '\n']);
        } else {
            if pending {
                modified.push('\r');
            }
            assert(modified@ == ends_shown(s.take(i)));
            if c == '\r' {
                pending = true;
            } else {
                modified.push(c);
                pending = false;
            }
        }
    }
    if pending {
        assert(s.take(s.len() as int).drop_last() == s.take(s.len() - 1));
        modified.push('\r');
    }
    assert(s.take(s.len() as int) == s);
    modified
}

/// Drops every empty line that comes right after an empty line. Every line
/// that stays ends in carriage return and line feed.
pub fn squeeze_blank(contents: String) -> (modified: String)
    ensures
        modified@ == squeezed_text(contents@),
        squeezed_text(modified@) == modified@,
{
    let found = lines(contents.as_str());
    let ghost all = lines_of(contents@);
    let mut modified = String::new();
    let mut last_line_empty = false;
    let mut i: usize = 0;
    while i < found.len()
        invariant
            i <= found.len(),
            texts(found@) == all,
            last_line_empty == (i > 0 && all[i - 1].len() == 0),
            modified@ == joined(squeezed(all.take(i as int)), line_ending()),
        decreases found.len() - i,
    {
        let ghost before = modified@;
        proof {
            assert(all.take(i + 1).drop_last() == all.take(i as int));
            assert(all[i as int] == found@[i as int]@);
        }
        let line = found[i].as_str();
        let empty = line.is_empty();
        if !(empty && last_line_empty) {
            modified.append(line);
            modified.push('\r');
            modified.push('\n');
            proof {
                joined_push(squeezed(all.take(i as int)), all[i as int], line_ending());
                assert(modified@ =~= before + all[i as int] + line_ending());
            }
        }
        last_line_empty = empty;
        i += 1;
    }
    proof {
        assert(all.take(i as int) == all);
        squeezing_twice_is_squeezing_once(contents@);
    }
    modified
}

/// Shows every tab as `^I`.
pub fn show_tabs(contents: String) -> (modified: String)
    ensures
        modified@ == tabs_shown(contents@),
{
    let ghost s = contents@;
    let mut modified = String::new();
    for c in it: contents.chars()
        invariant
            it.seq() == s,
            s == contents@,
            modified@ == tabs_shown(s.take(it.index() as int)),
    {
        let ghost before = modified@;
        assert(s.take(it.index() + 1).drop_last() == s.take(it.index() as int));
        if c == '\t' {
            modified.push('^');
            modified.push('I');
            assert(modified@ =~= before + seq!['^', 'I']);
        } else {
            modified.push(c);
        }
    }
    assert(s.take(s.len() as int) == s);
    modified
}

/// Whether a character is a control character.
pub fn control(c: char) -> (b: bool)
    ensures
        b == is_control(c),
{
    let code = c as u32;
    code < 32 || (127 <= code && code <= 159)
}

/// Shows every control character as a caret and its partner character, such
/// as `^@` for the character with code zero and `^M` for a carriage return.
pub fn show_nonprinting(contents: String) -> (modified: String)
    ensures
        modified@ == nonprinting_shown(contents@),
{
    let ghost s = contents@;
    let mut modified = String::new();
    for chr in it: contents.chars()
        invariant
            it.seq() == s,
            s == contents@,
            modified@ == nonprinting_shown(s.take(it.index() as int)),
    {
        let ghost before = modified@;
        assert(s.take(it.index() + 1).drop_last() == s.take(it.index() as int));
        if control(chr) {
            let code: u32 = chr as u32;
            let new_char = (code as u8 + 64) as char;
            assert(new_char == caret_partner(chr));
            modified.push('^');
            modified.push(new_char);
            assert(modified@ =~= before + seq!['^', caret_partner(chr)]);
        } else {
            modified.push(chr);
        }
    }
    assert(s.take(s.len() as int) == s);
    modified
}

} // verus!
