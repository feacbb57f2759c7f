//! Building blocks for the text that the utilities produce: decimal numbers,
//! fixed-width columns and joined rows, each with its mathematical model over
//! sequences of characters.

use vstd::prelude::*;
use vstd::std_specs::iter::IteratorSpec;

verus! {

/// `String::push` of the standard library: the string afterwards is the string
/// before with `c` appended, and nothing else changes.
pub assume_specification[ String::push ](s: &mut String, c: char)
    ensures
        final(s)@ == old(s)@.push(c),
;

/// `String::pop` of the standard library: it takes the last character off and
/// returns it, or returns `None` and changes nothing where the string is empty.
pub assume_specification[ String::pop ](s: &mut String) -> (last: Option<char>)
    ensures
        old(s)@.len() == 0 ==> last is None && final(s)@ == old(s)@,
        old(s)@.len() > 0 ==> last == Some(old(s)@.last()) && final(s)@ == old(s)@.drop_last(),
;

/// Whether two texts hold the same characters in the same order.
pub fn same_text(a: &str, b: &str) -> (same: bool)
    ensures
        same == (a@ == b@),
{
    let mut xs = a.chars();
    let mut ys = b.chars();
    let ghost mut at: int = 0;
    proof {
        assert(a@.skip(0) =~= a@);
        assert(b@.skip(0) =~= b@);
    }
    loop
        invariant
            xs.decrease() is Some,
            0 <= at <= a@.len(),
            at <= b@.len(),
            a@.take(at) == b@.take(at),
            xs.remaining() == a@.skip(at),
            ys.remaining() == b@.skip(at),
        decreases xs.decrease()->0,
    {
        let x = xs.next();
        let y = ys.next();
        match x {
            None => {
                proof {
                    if y is None {
                        assert(a@ =~= a@.take(at));
                        assert(b@ =~= b@.take(at));
                    }
                }
                return y.is_none();
            },
            Some(c) => match y {
                None => {
                    return false;
                },
                Some(d) => {
                    assert(c == a@[at] && d == b@[at]);
                    if c != d {
                        return false;
                    }
                    proof {
                        assert(a@.take(at + 1) =~= a@.take(at).push(c));
                        assert(b@.take(at + 1) =~= b@.take(at).push(d));
                        assert(a@.skip(at).drop_first() =~= a@.skip(at + 1));
                        assert(b@.skip(at).drop_first() =~= b@.skip(at + 1));
                        at = at + 1;
                    }
                },
            },
        }
    }
}

/// The characters of each string of a sequence.
pub open spec fn texts(strings: Seq<String>) -> Seq<Seq<char>> {
    strings.map_values(|s: String| s@)
}

/// The character for one decimal digit.
pub open spec fn digit(d: nat) -> char
    recommends
        d < 10,
{
    if d == 0 {
        '0'
    } else if d == 1 {
        '1'
    } else if d == 2 {
        '2'
    } else if d == 3 {
        '3'
    } else if d == 4 {
        '4'
    } else if d == 5 {
        '5'
    } else if d == 6 {
        '6'
    } else if d == 7 {
        '7'
    } else if d == 8 {
        '8'
    } else {
        '9'
    }
}

/// Decimal notation of a natural number, without sign or leading zeros.
pub open spec fn decimal(n: nat) -> Seq<char>
    decreases n,
{
    if n < 10 {
        seq![digit(n)]
    } else {
        decimal(n / 10).push(digit(n % 10))
    }
}

/// `count` copies of the space character.
pub open spec fn spaces(count: nat) -> Seq<char> {
    Seq::new(count, |i: int| ' ')
}

/// `s` in a column of exactly `width` characters: cut after `width` characters
/// where it is longer, filled with spaces on the right where it is shorter.
pub open spec fn fitted(s: Seq<char>, width: nat) -> Seq<char> {
    if s.len() >= width {
        s.take(width as int)
    } else {
        s + spaces((width - s.len()) as nat)
    }
}

/// `s` pushed to the right edge of a column of `width` characters; a longer
/// `s` is kept whole.
pub open spec fn right_justified(s: Seq<char>, width: nat) -> Seq<char> {
    if s.len() >= width {
        s
    } else {
        spaces((width - s.len()) as nat) + s
    }
}

/// The rows one after another, each followed by `ending`.
pub open spec fn joined(rows: Seq<Seq<char>>, ending: Seq<char>) -> Seq<char>
    decreases rows.len(),
{
    if rows.len() == 0 {
        Seq::empty()
    } else {
        joined(rows.drop_last(), ending) + rows.last() + ending
    }
}

/// Adding a row at the end adds its text and one ending to the joined text.
pub proof fn joined_push(rows: Seq<Seq<char>>, row: Seq<char>, ending: Seq<char>)
    ensures
        joined(rows.push(row), ending) == joined(rows, ending) + row + ending,
{
    assert(rows.push(row).drop_last() == rows);
}

/// The number of characters before the first line feed; all of them where
/// there is none.
pub open spec fn row_len(s: Seq<char>) -> nat
    decreases s.len(),
{
    if s.len() == 0 || s[0] == '\n' {
        0
    } else {
        1 + row_len(s.skip(1))
    }
}

/// The rows of a text: the stretches between its line feeds. A last row need
/// not end in a line feed; an empty text has no rows.
pub open spec fn rows_of(s: Seq<char>) -> Seq<Seq<char>>
    decreases s.len(),
{
    if s.len() == 0 {
        Seq::empty()
    } else {
        let n = row_len(s);
        if n >= s.len() {
            seq![s]
        } else {
            seq![s.take(n as int)] + rows_of(s.skip(n as int + 1))
        }
    }
}

/// Where the first row ends: no earlier character is a line feed, and the
/// count stops at a line feed or at the end of the text.
pub proof fn row_len_is(s: Seq<char>, n: nat)
    requires
        n <= s.len(),
        forall|i: int| 0 <= i < n ==> s[i] != '\n',
        n == s.len() || s[n as int] == '\n',
    ensures
        row_len(s) == n,
    decreases n,
{
    if n > 0 {
        let rest = s.skip(1);
        assert forall|i: int| 0 <= i < n - 1 implies rest[i] != '\n' by {
            assert(rest[i] == s[i + 1]);
        }
        row_len_is(rest, (n - 1) as nat);
    }
}

/// A row in front of the others adds its text and one ending in front of the
/// joined text.
pub proof fn joined_front(row: Seq<char>, rows: Seq<Seq<char>>, ending: Seq<char>)
    ensures
        joined(seq![row] + rows, ending) == row + ending + joined(rows, ending),
    decreases rows.len(),
{
    if rows.len() == 0 {
        assert(seq![row] + rows =~= seq![row]);
        assert(seq![row].drop_last() =~= Seq::<Seq<char>>::empty());
        assert(joined(Seq::<Seq<char>>::empty(), ending) =~= Seq::<char>::empty());
        assert(seq![row].last() == row);
        assert(joined(seq![row], ending) =~= row + ending);
        assert(row + ending + joined(rows, ending) =~= row + ending);
    } else {
        let all = seq![row] + rows;
        assert(all.drop_last() =~= seq![row] + rows.drop_last());
        assert(all.last() == rows.last());
        joined_front(row, rows.drop_last(), ending);
        assert(joined(all, ending) =~= row + ending + joined(rows, ending));
    }
}

/// Rows that hold no line feed, joined with line feeds, come apart again as
/// they were: as many rows, each as it was, in the same order.
pub proof fn rows_of_joined(rows: Seq<Seq<char>>)
    requires
        forall|i: int| 0 <= i < rows.len() ==> !(#[trigger] rows[i]).contains('\n'),
    ensures
        rows_of(joined(rows, seq!['\n'])) == rows,
    decreases rows.len(),
{
    let ending = seq!['\n'];
    if rows.len() > 0 {
        let first = rows[0];
        let rest = rows.skip(1);
        assert(rows =~= seq![first] + rest);
        joined_front(first, rest, ending);
        let text = joined(rows, ending);
        let tail = joined(rest, ending);
        assert(text == first + ending + tail);
        assert forall|i: int| 0 <= i < first.len() implies text[i] != '\n' by {
            assert(text[i] == first[i]);
            assert(!first.contains('\n'));
        }
        assert(text[first.len() as int] == '\n');
        row_len_is(text, first.len());
        assert(text.take(first.len() as int) =~= first);
        assert(text.skip(first.len() as int + 1) =~= tail);
        assert forall|i: int| 0 <= i < rest.len() implies !(#[trigger] rest[i]).contains('\n') by {
            assert(rest[i] == rows[i + 1]);
        }
        rows_of_joined(rest);
        assert(rows_of(text) =~= seq![first] + rest);
    }
}

/// How often a character occurs in a text.
pub open spec fn count_of(s: Seq<char>, c: char) -> nat
    decreases s.len(),
{
    if s.len() == 0 {
        0
    } else if s.last() == c {
        count_of(s.drop_last(), c) + 1
    } else {
        count_of(s.drop_last(), c)
    }
}

/// A character occurs in two texts put together as often as in both.
pub proof fn count_of_add(a: Seq<char>, b: Seq<char>, c: char)
    ensures
        count_of(a + b, c) == count_of(a, c) + count_of(b, c),
    decreases b.len(),
{
    if b.len() == 0 {
        assert(a + b =~= a);
    } else {
        assert((a + b).drop_last() =~= a + b.drop_last());
        assert((a + b).last() == b.last());
        count_of_add(a, b.drop_last(), c);
    }
}

/// A character that a text does not hold occurs in it no times.
pub proof fn count_of_absent(s: Seq<char>, c: char)
    requires
        !s.contains(c),
    ensures
        count_of(s, c) == 0,
    decreases s.len(),
{
    if s.len() > 0 {
        assert(s[s.len() - 1] != c);
        assert forall|i: int| 0 <= i < s.drop_last().len() implies s.drop_last()[i] != c by {
            assert(s.drop_last()[i] == s[i]);
        }
        count_of_absent(s.drop_last(), c);
    }
}

/// A character that neither of two texts holds is not held by the two put
/// together.
pub proof fn absent_from_add(a: Seq<char>, b: Seq<char>, c: char)
    requires
        !a.contains(c),
        !b.contains(c),
    ensures
        !(a + b).contains(c),
{
    assert forall|i: int| 0 <= i < (a + b).len() implies (a + b)[i] != c by {
        if i < a.len() {
            assert((a + b)[i] == a[i]);
        } else {
            assert((a + b)[i] == b[i - a.len()]);
        }
    }
}

/// Spaces hold nothing but spaces.
pub proof fn absent_from_spaces(count: nat, c: char)
    requires
        c != ' ',
    ensures
        !spaces(count).contains(c),
{
}

/// A column holds no character that its text does not hold, but spaces.
pub proof fn absent_from_column(s: Seq<char>, width: nat, c: char)
    requires
        !s.contains(c),
        c != ' ',
    ensures
        !fitted(s, width).contains(c),
        !right_justified(s, width).contains(c),
{
    if s.len() >= width {
        assert forall|i: int| 0 <= i < s.take(width as int).len() implies s.take(width as int)[i]
            != c by {
            assert(s.take(width as int)[i] == s[i]);
        }
    } else {
        let fill = spaces((width - s.len()) as nat);
        absent_from_spaces((width - s.len()) as nat, c);
        absent_from_add(s, fill, c);
        absent_from_add(fill, s, c);
    }
}

/// Rows that hold no line feed, joined with line feeds, make a text with as
/// many line feeds as rows. The text ends in a line feed, unless there is no
/// row and the text is empty.
pub proof fn line_feeds_of_joined(rows: Seq<Seq<char>>)
    requires
        forall|i: int| 0 <= i < rows.len() ==> !(#[trigger] rows[i]).contains('\n'),
    ensures
        count_of(joined(rows, seq!['\n']), '\n') == rows.len(),
        rows.len() == 0 ==> joined(rows, seq!['\n']).len() == 0,
        rows.len() > 0 ==> joined(rows, seq!['\n']).len() > 0 && joined(rows, seq!['\n']).last()
            == '\n',
    decreases rows.len(),
{
    let ending = seq!['\n'];
    if rows.len() > 0 {
        let front = rows.drop_last();
        assert forall|i: int| 0 <= i < front.len() implies !(#[trigger] front[i]).contains(
            '\n',
        ) by {
            assert(front[i] == rows[i]);
        }
        line_feeds_of_joined(front);
        let head = joined(front, ending) + rows.last();
        count_of_add(joined(front, ending), rows.last(), '\n');
        count_of_absent(rows.last(), '\n');
        count_of_add(head, ending, '\n');
        assert(ending.drop_last() =~= Seq::<char>::empty());
        assert(count_of(ending, '\n') == 1) by {
            assert(ending.last() == '\n');
            assert(count_of(ending.drop_last(), '\n') == 0);
        }
        assert(joined(rows, ending) == head + ending);
    }
}

/// Decimal notation holds digits alone, and at least one.
pub proof fn decimal_is_digits(n: nat)
    ensures
        decimal(n).len() > 0,
        forall|i: int| 0 <= i < decimal(n).len() ==> '0' <= #[trigger] decimal(n)[i] <= '9',
    decreases n,
{
    if n >= 10 {
        decimal_is_digits(n / 10);
    }
}

pub(crate) fn digit_char(d: u8) -> (c: char)
    requires
        d < 10,
    ensures
        c == digit(d as nat),
{
    if d == 0 {
        '0'
    } else if d == 1 {
        '1'
    } else if d == 2 {
        '2'
    } else if d == 3 {
        '3'
    } else if d == 4 {
        '4'
    } else if d == 5 {
        '5'
    } else if d == 6 {
        '6'
    } else if d == 7 {
        '7'
    } else if d == 8 {
        '8'
    } else {
        '9'
    }
}

/// Appends the decimal notation of `n` to `out`.
pub fn push_decimal(out: &mut String, n: u128)
    ensures
        final(out)@ == old(out)@ + decimal(n as nat),
    decreases n,
{
    if n >= 10 {
        push_decimal(out, n / 10);
    }
    out.push(digit_char((n % 10) as u8));
}

/// Appends `count` spaces to `out`.
pub fn push_spaces(out: &mut String, count: usize)
    ensures
        final(out)@ == old(out)@ + spaces(count as nat),
{
    let mut done: usize = 0;
    while done < count
        invariant
            done <= count,
            out@ == old(out)@ + spaces(done as nat),
        decreases count - done,
    {
        out.push(' ');
        done += 1;
        assert(out@ =~= old(out)@ + spaces(done as nat));
    }
}

/// Appends `s` to `out` in a column of exactly `width` characters.
pub fn push_fitted(out: &mut String, s: &str, width: usize)
    ensures
        final(out)@ == old(out)@ + fitted(s@, width as nat),
{
    let mut taken: usize = 0;
    for c in it: s.chars()
        invariant
            it.seq() == s@,
            taken <= width,
            taken <= it.index(),
            taken < width ==> taken == it.index(),
            out@ == old(out)@ + s@.take(taken as int),
    {
        if taken < width {
            out.push(c);
            taken += 1;
            assert(out@ =~= old(out)@ + s@.take(taken as int));
        }
    }
    if taken < width {
        assert(s@.take(taken as int) =~= s@);
        push_spaces(out, width - taken);
        assert(out@ =~= old(out)@ + fitted(s@, width as nat));
    }
}

/// Appends `s` to `out`, with spaces in front where it is shorter than `width`.
pub fn push_right_justified(out: &mut String, s: &str, width: usize)
    ensures
        final(out)@ == old(out)@ + right_justified(s@, width as nat),
{
    let len = s.unicode_len();
    if len < width {
        push_spaces(out, width - len);
    }
    out.append(s);
    assert(out@ =~= old(out)@ + right_justified(s@, width as nat));
}

} // verus!
