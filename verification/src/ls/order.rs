//! The order of a listing.

use vstd::prelude::*;
use vstd::seq_lib::to_multiset_build;
use vstd::std_specs::iter::IteratorSpec;
use crate::ls::entry::DirectoryEntry;
use crate::ls::entry::EntryModel;
use crate::ls::entry::Stamp;
use crate::ls::entry::models;
use crate::ls::format::long_list;
use crate::ls::format::long_rows;
use crate::ls::format::name_rows;
use crate::ls::format::name_text;
use crate::ls::format::on_one_line;
use crate::ls::format::one_line_for_each_entry;
use crate::ls::format::one_per_line;
use crate::ls::options::keep_visible;
use crate::ls::options::is_shown;
use crate::ls::options::visible;
use crate::ls::options::Visibility;
use crate::ls::options::DisplayMode;
use crate::ls::options::ListingOptions;
use crate::ls::options::SortKey;
use crate::text::count_of;
use crate::text::joined;

verus! {

/// Whether text `a` stands before text `b`: at the first place where they
/// differ `a` has the character with the smaller code, or `a` ends there and
/// `b` goes on.
pub open spec fn text_before(a: Seq<char>, b: Seq<char>) -> bool
    decreases a.len(),
{
    if b.len() == 0 {
        false
    } else if a.len() == 0 {
        true
    } else if a[0] != b[0] {
        (a[0] as u32) < (b[0] as u32)
    } else {
        text_before(a.skip(1), b.skip(1))
    }
}

/// Whether text `a` stands before text `b`.
pub fn text_precedes(a: &str, b: &str) -> (before: bool)
    ensures
        before == text_before(a@, b@),
{
    let mut xs = a.chars();
    let mut ys = b.chars();
    loop
        invariant
            xs.decrease() is Some,
            text_before(a@, b@) == text_before(xs.remaining(), ys.remaining()),
        decreases xs.decrease()->0,
    {
        let ghost left = xs.remaining();
        let ghost right = ys.remaining();
        let y = ys.next();
        let x = xs.next();
        match y {
            None => {
                return false;
            },
            Some(d) => match x {
                None => {
                    return true;
                },
                Some(c) => {
                    if c != d {
                        return (c as u32) < (d as u32);
                    }
                    assert(xs.remaining() == left.skip(1));
                    assert(ys.remaining() == right.skip(1));
                },
            },
        }
    }
}

/// Of two texts, at most one stands before the other.
pub proof fn text_before_one_way(a: Seq<char>, b: Seq<char>)
    requires
        text_before(a, b),
    ensures
        !text_before(b, a),
    decreases a.len(),
{
    if a.len() > 0 && b.len() > 0 && a[0] == b[0] {
        text_before_one_way(a.skip(1), b.skip(1));
    }
}

/// Where `x` does not stand before `m`, and `m` not before `y`, `x` does not
/// stand before `y`.
pub proof fn text_not_before_chain(x: Seq<char>, m: Seq<char>, y: Seq<char>)
    requires
        !text_before(x, m),
        !text_before(m, y),
    ensures
        !text_before(x, y),
    decreases x.len(),
{
    if y.len() > 0 && x.len() > 0 && m.len() > 0 && x[0] == y[0] {
        assert(x[0] == m[0]) by {
            vstd::utf8::char_u32_cast(x[0], x[0] as u32);
            vstd::utf8::char_u32_cast(m[0], m[0] as u32);
        }
        text_not_before_chain(x.skip(1), m.skip(1), y.skip(1));
    }
}

/// The size that an entry is ordered by: its length in bytes, and zero where
/// the metadata could not be read.
pub open spec fn size_key(e: EntryModel) -> int {
    match e.metadata {
        Some(m) => m.len as int,
        None => 0,
    }
}

/// A time as one number that is larger for the later of two times; a time
/// that could not be read stands below every time that could.
pub open spec fn stamp_rank(t: Option<Stamp>) -> int {
    match t {
        Some(s) => s.secs * 0x1_0000_0000 + s.nanos,
        None => i64::MIN * 0x1_0000_0000 - 1,
    }
}

/// The time of the last change that an entry is ordered by.
pub open spec fn modified_key(e: EntryModel) -> int {
    match e.metadata {
        Some(m) => stamp_rank(m.modified),
        None => stamp_rank(None),
    }
}

/// The time of the last access that an entry is ordered by.
pub open spec fn accessed_key(e: EntryModel) -> int {
    match e.metadata {
        Some(m) => stamp_rank(m.accessed),
        None => stamp_rank(None),
    }
}

/// Whether `a` has to stand before `b` under a key: its name stands before,
/// it is larger, or it is newer.
pub open spec fn precedes(key: SortKey, a: EntryModel, b: EntryModel) -> bool {
    match key {
        SortKey::ByName => text_before(name_text(a), name_text(b)),
        SortKey::BySize => size_key(a) > size_key(b),
        SortKey::ByModifiedTime => modified_key(a) > modified_key(b),
        SortKey::ByAccessTime => accessed_key(a) > accessed_key(b),
    }
}

/// An ordered sequence with one more entry: it goes in front of the entries
/// at the end that it has to stand before, and so behind every entry that it
/// ties with.
pub open spec fn inserted(s: Seq<EntryModel>, x: EntryModel, key: SortKey) -> Seq<EntryModel>
    decreases s.len(),
{
    if s.len() > 0 && precedes(key, x, s.last()) {
        inserted(s.drop_last(), x, key).push(s.last())
    } else {
        s.push(x)
    }
}

/// The entries in the order of a key. Entries that tie keep the order in
/// which they came.
pub open spec fn sorted(entries: Seq<EntryModel>, key: SortKey) -> Seq<EntryModel>
    decreases entries.len(),
{
    if entries.len() == 0 {
        entries
    } else {
        inserted(sorted(entries.drop_last(), key), entries.last(), key)
    }
}

/// The entries in the order in which they are listed: that of the key, if
/// there is one, and turned round where that is asked for.
pub open spec fn ordered(entries: Seq<EntryModel>, key: Option<SortKey>, reverse: bool) -> Seq<
    EntryModel,
> {
    let base = match key {
        Some(k) => sorted(entries, k),
        None => entries,
    };
    if reverse {
        base.reverse()
    } else {
        base
    }
}

/// The entries that a listing shows, in the order in which it shows them.
pub open spec fn arranged(entries: Seq<EntryModel>, options: ListingOptions) -> Seq<EntryModel> {
    ordered(visible(entries, options.visibility), options.sort_key, options.reverse)
}

/// The text of a listing.
pub open spec fn rendered(entries: Seq<EntryModel>, options: ListingOptions) -> Seq<char> {
    match options.display_mode {
        DisplayMode::Long => joined(long_rows(arranged(entries, options)), seq!['\n']),
        DisplayMode::OnePerLine => joined(name_rows(arranged(entries, options)), seq!['\n']),
    }
}

/// No entry stands behind one that it has to stand before.
pub open spec fn in_order(s: Seq<EntryModel>, key: SortKey) -> bool {
    forall|i: int, j: int| 0 <= i < j < s.len() ==> !precedes(key, #[trigger] s[j], #[trigger] s[i])
}

/// Of two entries, at most one has to stand before the other.
pub proof fn precedes_one_way(key: SortKey, a: EntryModel, b: EntryModel)
    requires
        precedes(key, a, b),
    ensures
        !precedes(key, b, a),
{
    if key == SortKey::ByName {
        text_before_one_way(name_text(a), name_text(b));
    }
}

/// Where `x` need not stand before `m`, and `m` not before `y`, `x` need not
/// stand before `y`.
pub proof fn not_precedes_chain(key: SortKey, x: EntryModel, m: EntryModel, y: EntryModel)
    requires
        !precedes(key, x, m),
        !precedes(key, m, y),
    ensures
        !precedes(key, x, y),
{
    if key == SortKey::ByName {
        text_not_before_chain(name_text(x), name_text(m), name_text(y));
    }
}

/// Where the new entry goes: in front of the entries from `at` on, each of
/// which it has to stand before, and behind the one in front of them, which
/// it need not stand before.
pub proof fn inserted_at(s: Seq<EntryModel>, x: EntryModel, key: SortKey, at: int)
    requires
        0 <= at <= s.len(),
        forall|j: int| at <= j < s.len() ==> precedes(key, x, #[trigger] s[j]),
        at == 0 || !precedes(key, x, s[at - 1]),
    ensures
        inserted(s, x, key) == s.insert(at, x),
    decreases s.len() - at,
{
    if at == s.len() {
        assert(s.insert(at, x) =~= s.push(x));
    } else {
        assert(precedes(key, x, s.last()));
        inserted_at(s.drop_last(), x, key, at);
        assert(s.drop_last().insert(at, x).push(s.last()) =~= s.insert(at, x));
    }
}

/// Inserting an entry adds it once and takes nothing away.
pub proof fn inserted_is_permutation(s: Seq<EntryModel>, x: EntryModel, key: SortKey)
    ensures
        inserted(s, x, key).to_multiset() == s.to_multiset().insert(x),
        inserted(s, x, key).len() == s.len() + 1,
    decreases s.len(),
{
    broadcast use to_multiset_build;

    if s.len() > 0 && precedes(key, x, s.last()) {
        inserted_is_permutation(s.drop_last(), x, key);
        assert(s.drop_last().push(s.last()) =~= s);
        assert(inserted(s, x, key).to_multiset() =~= s.to_multiset().insert(x));
    }
}

/// Sorting keeps every entry, as often as it occurs, and adds none.
pub proof fn sorted_is_permutation(entries: Seq<EntryModel>, key: SortKey)
    ensures
        sorted(entries, key).to_multiset() == entries.to_multiset(),
        sorted(entries, key).len() == entries.len(),
    decreases entries.len(),
{
    broadcast use to_multiset_build;

    if entries.len() > 0 {
        sorted_is_permutation(entries.drop_last(), key);
        inserted_is_permutation(sorted(entries.drop_last(), key), entries.last(), key);
        assert(entries.drop_last().push(entries.last()) =~= entries);
    }
}

/// Where the new entry stands in an ordered sequence.
pub open spec fn place(s: Seq<EntryModel>, x: EntryModel, key: SortKey) -> int
    decreases s.len(),
{
    if s.len() > 0 && precedes(key, x, s.last()) {
        place(s.drop_last(), x, key)
    } else {
        s.len() as int
    }
}

/// The place of the new entry meets what `inserted_at` asks for.
pub proof fn place_is_fit(s: Seq<EntryModel>, x: EntryModel, key: SortKey)
    ensures
        0 <= place(s, x, key) <= s.len(),
        forall|j: int| place(s, x, key) <= j < s.len() ==> precedes(key, x, #[trigger] s[j]),
        place(s, x, key) == 0 || !precedes(key, x, s[place(s, x, key) - 1]),
    decreases s.len(),
{
    if s.len() > 0 && precedes(key, x, s.last()) {
        let front = s.drop_last();
        place_is_fit(front, x, key);
        assert forall|j: int| place(s, x, key) <= j < s.len() implies precedes(
            key,
            x,
            #[trigger] s[j],
        ) by {
            if j < front.len() {
                assert(s[j] == front[j]);
            }
        }
    }
}

/// Inserting into a sequence that is in order leaves it in order.
pub proof fn inserted_in_order(s: Seq<EntryModel>, x: EntryModel, key: SortKey)
    requires
        in_order(s, key),
    ensures
        in_order(inserted(s, x, key), key),
{
    let at = place(s, x, key);
    place_is_fit(s, x, key);
    inserted_at(s, x, key, at);
    let r = s.insert(at, x);
    assert forall|i: int, j: int| 0 <= i < j < r.len() implies !precedes(
        key,
        #[trigger] r[j],
        #[trigger] r[i],
    ) by {
        if j == at {
            // r[j] is the new entry, r[i] stood in front of its place
            if i < at - 1 {
                not_precedes_chain(key, x, s[at - 1], s[i]);
            }
        } else if i == at {
            // r[i] is the new entry, which has to stand before r[j]
            assert(r[j] == s[j - 1]);
            precedes_one_way(key, x, s[j - 1]);
        } else {
            let old_i = if i < at {
                i
            } else {
                i - 1
            };
            let old_j = if j < at {
                j
            } else {
                j - 1
            };
            assert(r[i] == s[old_i]);
            assert(r[j] == s[old_j]);
        }
    }
}

/// Sorted entries are in order.
pub proof fn sorted_in_order(entries: Seq<EntryModel>, key: SortKey)
    ensures
        in_order(sorted(entries, key), key),
    decreases entries.len(),
{
    if entries.len() > 0 {
        sorted_in_order(entries.drop_last(), key);
        inserted_in_order(sorted(entries.drop_last(), key), entries.last(), key);
    }
}

/// Under the visibility that shows all, every entry is shown.
pub proof fn all_are_visible(entries: Seq<EntryModel>)
    ensures
        visible(entries, Visibility::All) == entries,
    decreases entries.len(),
{
    reveal(Seq::filter);
    if entries.len() > 0 {
        all_are_visible(entries.drop_last());
        assert(entries.drop_last().push(entries.last()) =~= entries);
    }
}

/// A listing shows as many entries as are visible: at most as many as were
/// given, and under the visibility that shows all exactly as many.
pub proof fn arranged_len(entries: Seq<EntryModel>, options: ListingOptions)
    ensures
        arranged(entries, options).len() == visible(entries, options.visibility).len(),
        arranged(entries, options).len() <= entries.len(),
        options.visibility == Visibility::All ==> arranged(entries, options).len()
            == entries.len(),
{
    let shown = visible(entries, options.visibility);
    entries.lemma_filter_len(|e: EntryModel| is_shown(options.visibility, name_text(e)));
    match options.sort_key {
        Some(key) => {
            sorted_is_permutation(shown, key);
        },
        None => {},
    }
    if options.visibility == Visibility::All {
        all_are_visible(entries);
    }
}

/// A listing shows no entry that was not given.
pub proof fn arranged_are_given(entries: Seq<EntryModel>, options: ListingOptions)
    ensures
        forall|i: int|
            0 <= i < arranged(entries, options).len() ==> entries.contains(
                #[trigger] arranged(entries, options)[i],
            ),
{
    let pred = |e: EntryModel| is_shown(options.visibility, name_text(e));
    let shown = visible(entries, options.visibility);
    let base = match options.sort_key {
        Some(k) => sorted(shown, k),
        None => shown,
    };
    let result = arranged(entries, options);
    assert forall|i: int| 0 <= i < result.len() implies entries.contains(#[trigger] result[i]) by {
        let e = result[i];
        if options.reverse {
            assert(e == base[base.len() - 1 - i]);
        }
        assert(base.contains(e));
        match options.sort_key {
            Some(k) => {
                sorted_is_permutation(shown, k);
                base.to_multiset_ensures();
                shown.to_multiset_ensures();
                assert(base.to_multiset().count(e) > 0);
                assert(shown.to_multiset().count(e) > 0);
            },
            None => {},
        }
        assert(shown.contains(e));
        entries.lemma_filter_contains_rev(pred, e);
    }
}

/// A listing of entries that can each be listed on one line has exactly one
/// line for each entry shown, in either layout; where all are shown, one for
/// each entry given.
pub proof fn one_line_for_each_entry_shown(entries: Seq<EntryModel>, options: ListingOptions)
    requires
        forall|i: int| 0 <= i < entries.len() ==> on_one_line(#[trigger] entries[i]),
    ensures
        count_of(rendered(entries, options), '\n') == arranged(entries, options).len(),
        options.visibility == Visibility::All ==> count_of(rendered(entries, options), '\n')
            == entries.len(),
{
    let shown = arranged(entries, options);
    arranged_are_given(entries, options);
    arranged_len(entries, options);
    assert forall|i: int| 0 <= i < shown.len() implies on_one_line(#[trigger] shown[i]) by {
        let at = choose|j: int| 0 <= j < entries.len() && entries[j] == shown[i];
        assert(on_one_line(entries[at]));
    }
    one_line_for_each_entry(shown);
}

/// The layout has no part in which entries are shown, nor in their order.
pub proof fn layout_keeps_the_order(entries: Seq<EntryModel>, options: ListingOptions)
    ensures
        arranged(entries, ListingOptions { display_mode: DisplayMode::Long, ..options })
            == arranged(entries, ListingOptions { display_mode: DisplayMode::OnePerLine, ..options }),
        arranged(entries, options) == ordered(
            visible(entries, options.visibility),
            options.sort_key,
            options.reverse,
        ),
{
}

/// Whether time `a` is later than time `b`; a time that could not be read is
/// earlier than every time that could.
pub fn later(a: Option<Stamp>, b: Option<Stamp>) -> (is_later: bool)
    ensures
        is_later == (stamp_rank(a) > stamp_rank(b)),
{
    match a {
        None => false,
        Some(x) => match b {
            None => true,
            Some(y) => x.secs > y.secs || (x.secs == y.secs && x.nanos > y.nanos),
        },
    }
}

/// The time of the last change of an entry, where it is known.
pub fn modified_of(entry: &DirectoryEntry) -> (t: Option<Stamp>)
    ensures
        stamp_rank(t) == modified_key(entry@),
{
    match entry.metadata {
        Some(m) => m.modified,
        None => None,
    }
}

/// The time of the last access of an entry, where it is known.
pub fn accessed_of(entry: &DirectoryEntry) -> (t: Option<Stamp>)
    ensures
        stamp_rank(t) == accessed_key(entry@),
{
    match entry.metadata {
        Some(m) => m.accessed,
        None => None,
    }
}

/// The size that an entry is ordered by.
pub fn size_of(entry: &DirectoryEntry) -> (bytes: u64)
    ensures
        bytes == size_key(entry@),
{
    match entry.metadata {
        Some(m) => m.len,
        None => 0,
    }
}

/// Whether `a` has to stand before `b` under a key.
pub fn comes_before(key: SortKey, a: &DirectoryEntry, b: &DirectoryEntry) -> (before: bool)
    ensures
        before == precedes(key, a@, b@),
{
    match key {
        SortKey::ByName => text_precedes(a.shown_name(), b.shown_name()),
        SortKey::BySize => size_of(a) > size_of(b),
        SortKey::ByModifiedTime => later(modified_of(a), modified_of(b)),
        SortKey::ByAccessTime => later(accessed_of(a), accessed_of(b)),
    }
}

/// The entries in the order of a key.
pub fn sort_entries(entries: &Vec<DirectoryEntry>, key: SortKey) -> (result: Vec<DirectoryEntry>)
    ensures
        models(result@) == sorted(models(entries@), key),
        in_order(models(result@), key),
        models(result@).to_multiset() == models(entries@).to_multiset(),
{
    let ghost all = models(entries@);
    let mut result: Vec<DirectoryEntry> = Vec::new();
    let mut k: usize = 0;
    assert(models(result@) =~= sorted(all.take(0), key));
    while k < entries.len()
        invariant
            k <= entries.len(),
            all == models(entries@),
            result.len() == k,
            models(result@) == sorted(all.take(k as int), key),
        decreases entries.len() - k,
    {
        let ghost before = models(result@);
        let mut at: usize = result.len();
        while at > 0 && comes_before(key, &entries[k], &result[at - 1])
            invariant
                at <= result.len(),
                k < entries.len(),
                before == models(result@),
                all == models(entries@),
                forall|j: int| at <= j < before.len() ==> precedes(key, all[k as int], #[trigger] before[j]),
            decreases at,
        {
            at -= 1;
        }
        proof {
            inserted_at(before, all[k as int], key, at as int);
            assert(all.take(k + 1).drop_last() =~= all.take(k as int));
        }
        result.insert(at, entries[k].duplicate());
        assert(models(result@) =~= before.insert(at as int, all[k as int]));
        k += 1;
    }
    proof {
        assert(all.take(k as int) =~= all);
        sorted_in_order(all, key);
        sorted_is_permutation(all, key);
    }
    result
}

/// The entries in the opposite order.
pub fn turn_round(entries: &Vec<DirectoryEntry>) -> (result: Vec<DirectoryEntry>)
    ensures
        models(result@) == models(entries@).reverse(),
{
    let mut result: Vec<DirectoryEntry> = Vec::new();
    let mut k: usize = entries.len();
    while k > 0
        invariant
            k <= entries.len(),
            result.len() == entries.len() - k,
            forall|j: int| 0 <= j < result.len() ==> result@[j]@ == entries@[entries.len() - 1 - j]@,
        decreases k,
    {
        k -= 1;
        result.push(entries[k].duplicate());
    }
    assert(models(result@) =~= models(entries@).reverse());
    result
}

/// The entries that a listing shows, in the order in which it shows them.
pub fn arrange(entries: &Vec<DirectoryEntry>, options: &ListingOptions) -> (result: Vec<
    DirectoryEntry,
>)
    ensures
        models(result@) == arranged(models(entries@), *options),
{
    let kept = keep_visible(entries, options.visibility);
    let base = match options.sort_key {
        Some(key) => sort_entries(&kept, key),
        None => kept,
    };
    if options.reverse {
        turn_round(&base)
    } else {
        base
    }
}

/// The text of a listing: the entries that are shown, in their order, in the
/// layout that the options ask for.
pub fn render(entries: &Vec<DirectoryEntry>, options: &ListingOptions) -> (text: String)
    ensures
        text@ == rendered(models(entries@), *options),
{
    let shown = arrange(entries, options);
    match options.display_mode {
        DisplayMode::Long => long_list(shown),
        DisplayMode::OnePerLine => one_per_line(shown),
    }
}

} // verus!
