//! Listing one directory after another, and what a whole run comes to.

use vstd::prelude::*;
use crate::ls::entry::DirectoryEntry;
use crate::ls::entry::EntryModel;
use crate::ls::entry::models;
use crate::ls::format::long_rows;
use crate::ls::format::on_one_line;
use crate::ls::format::name_rows;
use crate::ls::options::ListingOptions;
use crate::ls::options::Visibility;
use crate::ls::order::arranged;
use crate::ls::order::arranged_len;
use crate::ls::order::one_line_for_each_entry_shown;
use crate::text::count_of;
use crate::ls::order::render;
use crate::ls::order::rendered;

verus! {

/// How a listing, or a whole run, went.
#[derive(Clone, Copy, Debug, PartialEq, Eq, Structural)]
pub enum Severity {
    /// Nothing went wrong.
    Normal,
    /// A path could not be read.
    NonFatal,
    /// The command line could not be read.
    Fatal,
}

/// The exit status that stands for a severity.
pub open spec fn status_of(s: Severity) -> int {
    match s {
        Severity::Normal => 0,
        Severity::NonFatal => 1,
        Severity::Fatal => 2,
    }
}

/// The worse of two severities.
pub open spec fn worse(a: Severity, b: Severity) -> Severity {
    if status_of(a) >= status_of(b) {
        a
    } else {
        b
    }
}

/// The worst of a sequence of severities; `Normal` where there is none.
pub open spec fn worst(all: Seq<Severity>) -> Severity
    decreases all.len(),
{
    if all.len() == 0 {
        Severity::Normal
    } else {
        worse(worst(all.drop_last()), all.last())
    }
}

impl Severity {
    /// The exit status that stands for the severity: 0, 1 or 2.
    pub fn code(&self) -> (status: i32)
        ensures
            status == status_of(*self),
    {
        match self {
            Severity::Normal => 0,
            Severity::NonFatal => 1,
            Severity::Fatal => 2,
        }
    }

    /// The worse of this severity and another.
    pub fn max(self, other: Severity) -> (result: Severity)
        ensures
            result == worse(self, other),
    {
        if self.code() >= other.code() {
            self
        } else {
            other
        }
    }
}

/// The worst of a sequence is as bad as each of its members, and is one of
/// them or `Normal`.
pub proof fn worst_is_maximum(all: Seq<Severity>)
    ensures
        forall|i: int| 0 <= i < all.len() ==> status_of(#[trigger] all[i]) <= status_of(worst(all)),
        all.contains(worst(all)) || worst(all) == Severity::Normal,
    decreases all.len(),
{
    if all.len() > 0 {
        let front = all.drop_last();
        worst_is_maximum(front);
        assert forall|i: int| 0 <= i < all.len() implies status_of(#[trigger] all[i]) <= status_of(
            worst(all),
        ) by {
            if i < front.len() {
                assert(all[i] == front[i]);
            }
        }
        if front.contains(worst(front)) {
            let at = choose|i: int| 0 <= i < front.len() && front[i] == worst(front);
            assert(all[at] == worst(front));
        }
        assert(all[all.len() - 1] == all.last());
    }
}

/// What came of reading one child of a directory.
#[derive(Debug)]
pub enum ChildRead {
    /// The child, with what is known of it.
    Found(DirectoryEntry),
    /// The child could not be read, for the reason given.
    Failed(String),
}

/// The mathematical value of a `ChildRead`.
pub enum ChildModel {
    Found(EntryModel),
    Failed(Seq<char>),
}

impl View for ChildRead {
    type V = ChildModel;

    open spec fn view(&self) -> ChildModel {
        match *self {
            ChildRead::Found(e) => ChildModel::Found(e@),
            ChildRead::Failed(reason) => ChildModel::Failed(reason@),
        }
    }
}

/// What came of reading a directory.
#[derive(Debug)]
pub enum DirectoryRead {
    /// The path could not be opened as a directory, for the reason given.
    Unreadable(String),
    /// The children, in the order in which they were read.
    Children(Vec<ChildRead>),
}

/// The mathematical value of a `DirectoryRead`.
pub enum ReadModel {
    Unreadable(Seq<char>),
    Children(Seq<ChildModel>),
}

impl View for DirectoryRead {
    type V = ReadModel;

    open spec fn view(&self) -> ReadModel {
        match *self {
            DirectoryRead::Unreadable(reason) => ReadModel::Unreadable(reason@),
            DirectoryRead::Children(items) => ReadModel::Children(
                items@.map_values(|c: ChildRead| c@),
            ),
        }
    }
}

/// The children that were read, in their order.
pub open spec fn found(items: Seq<ChildModel>) -> Seq<EntryModel>
    decreases items.len(),
{
    if items.len() == 0 {
        Seq::empty()
    } else {
        match items.last() {
            ChildModel::Found(e) => found(items.drop_last()).push(e),
            ChildModel::Failed(_) => found(items.drop_last()),
        }
    }
}

/// The children that were passed over, each as the error that reports it, in
/// their order.
pub open spec fn failures(items: Seq<ChildModel>) -> Seq<ErrorModel>
    decreases items.len(),
{
    if items.len() == 0 {
        Seq::empty()
    } else {
        match items.last() {
            ChildModel::Found(_) => failures(items.drop_last()),
            ChildModel::Failed(reason) => failures(items.drop_last()).push(
                ErrorModel::EntrySkipped(reason),
            ),
        }
    }
}

/// Every child is either read or passed over with a reason.
pub proof fn found_and_failures(items: Seq<ChildModel>)
    ensures
        found(items).len() + failures(items).len() == items.len(),
    decreases items.len(),
{
    if items.len() > 0 {
        found_and_failures(items.drop_last());
    }
}

/// A listing has one row for each child that was read: as many rows as there
/// were children, less those that were passed over. Where entries are
/// hidden, the hidden ones are missing too; where all are shown, none is.
pub proof fn one_row_for_each_child_read(items: Seq<ChildModel>, options: ListingOptions)
    ensures
        long_rows(found(items)).len() == items.len() - failures(items).len(),
        name_rows(found(items)).len() == items.len() - failures(items).len(),
        long_rows(arranged(found(items), options)).len() <= items.len() - failures(items).len(),
        options.visibility == Visibility::All ==> long_rows(
            arranged(found(items), options),
        ).len() == items.len() - failures(items).len() && name_rows(
            arranged(found(items), options),
        ).len() == items.len() - failures(items).len(),
{
    found_and_failures(items);
    arranged_len(found(items), options);
}

/// What can go wrong in a listing. That a single column of an entry cannot
/// be read is none of these: the column shows a placeholder.
#[derive(Debug)]
pub enum ListingError {
    /// The path could not be opened as a directory, for the reason given.
    /// The path is not listed, and the run is no longer normal.
    DirectoryUnreadable(String),
    /// A child could not be read, for the reason given. It is left out of
    /// the listing, and the run goes as it would have without it.
    EntrySkipped(String),
}

/// The mathematical value of a `ListingError`.
pub enum ErrorModel {
    DirectoryUnreadable(Seq<char>),
    EntrySkipped(Seq<char>),
}

impl View for ListingError {
    type V = ErrorModel;

    open spec fn view(&self) -> ErrorModel {
        match *self {
            ListingError::DirectoryUnreadable(reason) => ErrorModel::DirectoryUnreadable(reason@),
            ListingError::EntrySkipped(reason) => ErrorModel::EntrySkipped(reason@),
        }
    }
}

/// The values of the errors of a sequence.
pub open spec fn error_models(errors: Seq<ListingError>) -> Seq<ErrorModel> {
    errors.map_values(|e: ListingError| e@)
}

/// The line that reports an error: its reason, as it was given.
pub open spec fn message_of(error: ErrorModel) -> Seq<char> {
    match error {
        ErrorModel::DirectoryUnreadable(reason) => reason,
        ErrorModel::EntrySkipped(reason) => reason,
    }
}

impl ListingError {
    /// The line that reports the error.
    pub fn message(&self) -> (line: String)
        ensures
            line@ == message_of(self@),
    {
        match self {
            ListingError::DirectoryUnreadable(reason) => reason.clone(),
            ListingError::EntrySkipped(reason) => reason.clone(),
        }
    }
}

/// The children of a directory that were read, and the errors for those that
/// were passed over.
#[derive(Debug)]
pub struct Enumeration {
    pub entries: Vec<DirectoryEntry>,
    pub skipped: Vec<ListingError>,
}

/// The entries of a directory that was read. A directory that could not be
/// opened is an error; a child that could not be read is passed over, and
/// its reason is kept for the report.
pub fn dir(read: DirectoryRead) -> (outcome: Result<Enumeration, ListingError>)
    ensures
        match read@ {
            ReadModel::Unreadable(reason) => outcome matches Err(e) && e@
                == ErrorModel::DirectoryUnreadable(reason),
            ReadModel::Children(items) => outcome matches Ok(e) && models(e.entries@) == found(
                items,
            ) && error_models(e.skipped@) == failures(items),
        },
{
    match read {
        DirectoryRead::Unreadable(reason) => Err(ListingError::DirectoryUnreadable(reason)),
        DirectoryRead::Children(items) => {
            let ghost all = items@.map_values(|c: ChildRead| c@);
            let mut entries: Vec<DirectoryEntry> = Vec::new();
            let mut skipped: Vec<ListingError> = Vec::new();
            let mut i: usize = 0;
            proof {
                assert(all.take(0) =~= Seq::empty());
                assert(models(entries@) =~= found(all.take(0)));
                assert(error_models(skipped@) =~= failures(all.take(0)));
            }
            while i < items.len()
                invariant
                    i <= items.len(),
                    all == items@.map_values(|c: ChildRead| c@),
                    models(entries@) == found(all.take(i as int)),
                    error_models(skipped@) == failures(all.take(i as int)),
                decreases items.len() - i,
            {
                let ghost entries_before = entries@;
                let ghost skipped_before = skipped@;
                proof {
                    assert(all.take(i + 1).drop_last() =~= all.take(i as int));
                    assert(all.take(i + 1).last() == items@[i as int]@);
                }
                match &items[i] {
                    ChildRead::Found(e) => {
                        entries.push(e.duplicate());
                        assert(models(entries@) =~= models(entries_before).push(e@));
                    },
                    ChildRead::Failed(reason) => {
                        skipped.push(ListingError::EntrySkipped(reason.clone()));
                        assert(error_models(skipped@) =~= error_models(skipped_before).push(
                            ErrorModel::EntrySkipped(reason@),
                        ));
                    },
                }
                i += 1;
            }
            assert(all.take(i as int) =~= all);
            Ok(Enumeration { entries, skipped })
        },
    }
}

/// What listing one path gives: the text for the output, the errors for the
/// error channel, and how it went.
#[derive(Debug)]
pub struct ListingResult {
    pub text: String,
    pub errors: Vec<ListingError>,
    pub severity: Severity,
}

/// The mathematical value of a `ListingResult`.
pub struct ResultModel {
    pub text: Seq<char>,
    pub errors: Seq<ErrorModel>,
    pub severity: Severity,
}

impl View for ListingResult {
    type V = ResultModel;

    open spec fn view(&self) -> ResultModel {
        ResultModel {
            text: self.text@,
            errors: error_models(self.errors@),
            severity: self.severity,
        }
    }
}

/// The result of listing a path. One that could not be read gives no text,
/// that as the one error, and a severity that is not fatal. One that was read
/// gives its listing, an error for each child that was passed over, and a
/// normal severity.
pub open spec fn listed(read: ReadModel, options: ListingOptions) -> ResultModel {
    match read {
        ReadModel::Unreadable(reason) => ResultModel {
            text: Seq::empty(),
            errors: seq![ErrorModel::DirectoryUnreadable(reason)],
            severity: Severity::NonFatal,
        },
        ReadModel::Children(items) => ResultModel {
            text: rendered(found(items), options),
            errors: failures(items),
            severity: Severity::Normal,
        },
    }
}

/// A listing is normal exactly where its path could be read: it then holds
/// no error but for children passed over. It is never fatal.
pub proof fn severity_follows_the_reading(read: ReadModel, options: ListingOptions)
    ensures
        listed(read, options).severity != Severity::Fatal,
        listed(read, options).severity == Severity::Normal <==> read is Children,
        read is Children ==> forall|i: int|
            0 <= i < listed(read, options).errors.len() ==> #[trigger] listed(
                read,
                options,
            ).errors[i] is EntrySkipped,
        read is Unreadable ==> listed(read, options).text.len() == 0 && listed(
            read,
            options,
        ).errors.len() == 1,
{
    if let ReadModel::Children(items) = read {
        failures_are_skips(items);
    }
}

/// The errors for children passed over are all of that kind.
pub proof fn failures_are_skips(items: Seq<ChildModel>)
    ensures
        forall|i: int| 0 <= i < failures(items).len() ==> #[trigger] failures(items)[i] is EntrySkipped,
    decreases items.len(),
{
    if items.len() > 0 {
        failures_are_skips(items.drop_last());
    }
}

/// The listing of a directory whose children can each be listed on one line
/// has exactly one line for each child shown; where all are shown, as many
/// lines as there were children, less those that were passed over.
pub proof fn one_line_for_each_child_read(items: Seq<ChildModel>, options: ListingOptions)
    requires
        forall|i: int| 0 <= i < found(items).len() ==> on_one_line(#[trigger] found(items)[i]),
    ensures
        count_of(listed(ReadModel::Children(items), options).text, '\n') == arranged(
            found(items),
            options,
        ).len(),
        options.visibility == Visibility::All ==> count_of(
            listed(ReadModel::Children(items), options).text,
            '\n',
        ) == items.len() - failures(items).len(),
{
    found_and_failures(items);
    one_line_for_each_entry_shown(found(items), options);
}

/// Lists one path from what came of reading it.
pub fn list(read: DirectoryRead, options: &ListingOptions) -> (result: ListingResult)
    ensures
        result@ == listed(read@, *options),
{
    match dir(read) {
        Ok(enumeration) => ListingResult {
            text: render(&enumeration.entries, options),
            errors: enumeration.skipped,
            severity: Severity::Normal,
        },
        Err(e) => {
            let mut errors: Vec<ListingError> = Vec::new();
            let ghost error = e@;
            errors.push(e);
            assert(error_models(errors@) =~= seq![error]);
            ListingResult { text: String::new(), errors, severity: Severity::NonFatal }
        },
    }
}

/// The severities of a sequence of results.
pub open spec fn severities(results: Seq<ListingResult>) -> Seq<Severity> {
    results.map_values(|r: ListingResult| r.severity)
}

/// How a whole run went: as the worst of its listings did.
pub fn exit_severity(results: &Vec<ListingResult>) -> (overall: Severity)
    ensures
        overall == worst(severities(results@)),
{
    let mut overall = Severity::Normal;
    let mut i: usize = 0;
    assert(severities(results@).take(0) =~= Seq::empty());
    while i < results.len()
        invariant
            i <= results.len(),
            overall == worst(severities(results@).take(i as int)),
        decreases results.len() - i,
    {
        assert(severities(results@).take(i + 1).drop_last() =~= severities(results@).take(
            i as int,
        ));
        overall = overall.max(results[i].severity);
        i += 1;
    }
    assert(severities(results@).take(i as int) =~= severities(results@));
    overall
}

} // verus!
