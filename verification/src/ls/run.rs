//! A whole run over the paths that were asked for.
//!
//! The run decides which path is read next and takes what came of reading
//! it; reading itself is left to its host. It goes on after a path that
//! could not be read, and it remembers how badly things went.

use std::collections::VecDeque;
use vstd::prelude::*;
use crate::ls::entry::DirectoryEntry;
use crate::ls::entry::EntryModel;
use crate::ls::entry::FileKind;
use crate::ls::entry::models;
use crate::ls::format::long_list;
use crate::ls::format::one_per_line;
use crate::ls::listing::dir;
use crate::ls::listing::found;
use crate::ls::listing::listed;
use crate::ls::listing::status_of;
use crate::ls::listing::worse;
use crate::ls::listing::worst;
use crate::ls::listing::DirectoryRead;
use crate::ls::listing::error_models;
use crate::ls::listing::ListingError;
use crate::ls::listing::ListingResult;
use crate::ls::listing::ReadModel;
use crate::ls::listing::Severity;
use crate::ls::options::is_pseudo;
use crate::ls::options::DisplayMode;
use crate::ls::options::ListingOptions;
use crate::ls::options::Visibility;
use crate::ls::order::arrange;
use crate::ls::order::arranged;
use crate::text::same_text;
use crate::text::texts;

verus! {

/// A path to list: a path as it was asked for, and the names that lead from
/// it down to the directory that is meant.
#[derive(Debug)]
pub struct Target {
    pub base: String,
    pub descent: Vec<String>,
}

/// The mathematical value of a `Target`.
pub struct TargetModel {
    pub base: Seq<char>,
    pub descent: Seq<Seq<char>>,
}

impl View for Target {
    type V = TargetModel;

    open spec fn view(&self) -> TargetModel {
        TargetModel { base: self.base@, descent: texts(self.descent@) }
    }
}

/// The values of the targets of a sequence.
pub open spec fn targets(all: Seq<Target>) -> Seq<TargetModel> {
    all.map_values(|t: Target| t@)
}

/// What the run asks of its host next.
#[derive(Debug)]
pub enum Request {
    /// Read the children of the target.
    ReadDirectory(Target),
    /// Read the target itself, as the one child of a reading.
    Describe(Target),
    /// Nothing: no path is left. The run went as the severity says.
    Finish(Severity),
}

/// The mathematical value of a `Request`.
pub enum RequestModel {
    ReadDirectory(TargetModel),
    Describe(TargetModel),
    Finish(Severity),
}

impl View for Request {
    type V = RequestModel;

    open spec fn view(&self) -> RequestModel {
        match *self {
            Request::ReadDirectory(t) => RequestModel::ReadDirectory(t@),
            Request::Describe(t) => RequestModel::Describe(t@),
            Request::Finish(s) => RequestModel::Finish(s),
        }
    }
}

/// A run: the paths that are still to list, the next one first, and the
/// worst that happened so far.
#[derive(Debug)]
pub struct Run {
    pub pending: VecDeque<Target>,
    pub severity: Severity,
}

/// The mathematical value of a `Run`.
pub struct RunModel {
    pub queue: Seq<TargetModel>,
    pub severity: Severity,
}

impl View for Run {
    type V = RunModel;

    open spec fn view(&self) -> RunModel {
        RunModel { queue: targets(self.pending@), severity: self.severity }
    }
}

/// The targets for paths as they were asked for.
pub open spec fn asked(paths: Seq<Seq<char>>) -> Seq<TargetModel> {
    paths.map_values(|p: Seq<char>| TargetModel { base: p, descent: Seq::empty() })
}

/// Whether a listing goes down into an entry: it is a directory by the kind
/// that its parent records, so no symbolic link, its name is known and not
/// empty, and it is neither the directory itself nor its parent.
pub open spec fn descends(e: EntryModel) -> bool {
    e.kind == Some(FileKind::Directory) && e.name is Some && e.name->0.len() > 0 && !is_pseudo(
        e.name->0,
    )
}

/// The names of the entries that a listing goes down into, in their order.
pub open spec fn subdirectories(entries: Seq<EntryModel>) -> Seq<Seq<char>>
    decreases entries.len(),
{
    if entries.len() == 0 {
        Seq::empty()
    } else if descends(entries.last()) {
        subdirectories(entries.drop_last()).push(entries.last().name->0)
    } else {
        subdirectories(entries.drop_last())
    }
}

/// The targets one step below a target, for the names given.
pub open spec fn below(target: TargetModel, names: Seq<Seq<char>>) -> Seq<TargetModel> {
    names.map_values(
        |n: Seq<char>| TargetModel { base: target.base, descent: target.descent.push(n) },
    )
}

/// The options under which a target is listed. A path that is listed as one
/// entry is shown whatever its name is.
pub open spec fn effective(options: ListingOptions) -> ListingOptions {
    if options.directory_as_entry {
        ListingOptions { visibility: Visibility::All, ..options }
    } else {
        options
    }
}

/// The request for the next target, and the run without that target.
pub open spec fn requested(run: RunModel, options: ListingOptions) -> (RequestModel, RunModel) {
    if run.queue.len() == 0 {
        (RequestModel::Finish(run.severity), run)
    } else if options.directory_as_entry {
        (
            RequestModel::Describe(run.queue[0]),
            RunModel { queue: run.queue.skip(1), severity: run.severity },
        )
    } else {
        (
            RequestModel::ReadDirectory(run.queue[0]),
            RunModel { queue: run.queue.skip(1), severity: run.severity },
        )
    }
}

/// The targets that a reading adds: for a listing that goes down, and that
/// lists children, the directories among the entries shown, in the order
/// shown.
pub open spec fn added(target: TargetModel, read: ReadModel, options: ListingOptions) -> Seq<
    TargetModel,
> {
    match read {
        ReadModel::Children(items) => if options.recursive && !options.directory_as_entry {
            below(target, subdirectories(arranged(found(items), options)))
        } else {
            Seq::empty()
        },
        ReadModel::Unreadable(_) => Seq::empty(),
    }
}

/// The run after a reading: as bad as before or as the listing, whichever is
/// worse, and with the targets that the reading adds in front of the others.
pub open spec fn recorded(
    run: RunModel,
    target: TargetModel,
    read: ReadModel,
    options: ListingOptions,
) -> RunModel {
    RunModel {
        queue: added(target, read, options) + run.queue,
        severity: worse(run.severity, listed(read, effective(options)).severity),
    }
}

/// The options under which a target is listed.
pub fn effective_options(options: &ListingOptions) -> (result: ListingOptions)
    ensures
        result == effective(*options),
{
    if options.directory_as_entry {
        ListingOptions {
            display_mode: options.display_mode,
            visibility: Visibility::All,
            sort_key: options.sort_key,
            reverse: options.reverse,
            recursive: options.recursive,
            directory_as_entry: options.directory_as_entry,
        }
    } else {
        *options
    }
}

/// Strings with the same texts.
pub fn duplicate_texts(all: &Vec<String>) -> (copy: Vec<String>)
    ensures
        texts(copy@) == texts(all@),
{
    let mut copy: Vec<String> = Vec::new();
    let mut i: usize = 0;
    while i < all.len()
        invariant
            i <= all.len(),
            copy.len() == i,
            forall|k: int| 0 <= k < i ==> copy@[k]@ == all@[k]@,
        decreases all.len() - i,
    {
        copy.push(all[i].clone());
        i += 1;
    }
    assert(texts(copy@) =~= texts(all@));
    copy
}

impl Target {
    /// The target for a path as it was asked for.
    pub fn root(path: String) -> (target: Target)
        ensures
            target@ == (TargetModel { base: path@, descent: Seq::empty() }),
    {
        let target = Target { base: path, descent: Vec::new() };
        assert(target@.descent =~= Seq::empty());
        target
    }

    /// The target one step below this one.
    pub fn child(&self, name: &str) -> (target: Target)
        ensures
            target@ == (TargetModel { base: self@.base, descent: self@.descent.push(name@) }),
    {
        let mut descent = duplicate_texts(&self.descent);
        descent.push(String::from_str(name));
        let target = Target { base: self.base.clone(), descent };
        assert(target@.descent =~= self@.descent.push(name@));
        target
    }
}

/// Whether a listing goes down into an entry.
pub fn goes_down(entry: &DirectoryEntry) -> (down: bool)
    ensures
        down == descends(entry@),
{
    match entry.kind {
        Some(FileKind::Directory) => match &entry.name {
            Some(n) => {
                proof {
                    reveal_strlit(".");
                    reveal_strlit("..");
                    assert("."@ =~= seq!['.']);
                    assert(".."@ =~= seq!['.', '.']);
                }
                !(n.as_str().is_empty() || same_text(n.as_str(), ".") || same_text(
                    n.as_str(),
                    "..",
                ))
            },
            None => false,
        },
        _ => false,
    }
}

impl Run {
    /// A run over the paths that were asked for, in their order. Nothing has
    /// gone wrong yet.
    pub fn new(paths: Vec<String>) -> (run: Run)
        ensures
            run@ == (RunModel { queue: asked(texts(paths@)), severity: Severity::Normal }),
    {
        let mut pending: VecDeque<Target> = VecDeque::new();
        let mut i: usize = 0;
        while i < paths.len()
            invariant
                i <= paths.len(),
                targets(pending@) == asked(texts(paths@).take(i as int)),
            decreases paths.len() - i,
        {
            let ghost before = pending@;
            pending.push_back(Target::root(paths[i].clone()));
            assert(targets(pending@) =~= targets(before).push(
                TargetModel { base: paths@[i as int]@, descent: Seq::empty() },
            ));
            assert(targets(pending@) =~= asked(texts(paths@).take(i + 1)));
            i += 1;
        }
        assert(texts(paths@).take(i as int) =~= texts(paths@));
        Run { pending, severity: Severity::Normal }
    }

    /// What to ask of the host next: to read the first target that is left,
    /// by its children or, where paths are listed as entries, by itself; or
    /// nothing, where no target is left. The target asked for leaves the run.
    pub fn next(&mut self, options: &ListingOptions) -> (request: Request)
        ensures
            request@ == requested(old(self)@, *options).0,
            final(self)@ == requested(old(self)@, *options).1,
    {
        match self.pending.pop_front() {
            None => Request::Finish(self.severity),
            Some(target) => {
                assert(targets(self.pending@) =~= old(self)@.queue.skip(1));
                assert(old(self)@.queue[0] == target@);
                if options.directory_as_entry {
                    Request::Describe(target)
                } else {
                    Request::ReadDirectory(target)
                }
            },
        }
    }

    /// Puts the directories among the entries in front of the targets that
    /// are left, as targets one step below `target`.
    pub fn descend(&mut self, target: &Target, entries: &Vec<DirectoryEntry>)
        ensures
            final(self)@ == (RunModel {
                queue: below(target@, subdirectories(models(entries@))) + old(self)@.queue,
                severity: old(self)@.severity,
            }),
    {
        let ghost all = models(entries@);
        let ghost rest = self@.queue;
        let mut count: usize = 0;
        let mut i: usize = 0;
        proof {
            assert(all.take(0) =~= Seq::empty());
            assert(self@.queue =~= below(target@, subdirectories(all.take(0))) + rest);
        }
        while i < entries.len()
            invariant
                i <= entries.len(),
                count <= i,
                all == models(entries@),
                rest == old(self)@.queue,
                count == subdirectories(all.take(i as int)).len(),
                self@.severity == old(self)@.severity,
                self@.queue == below(target@, subdirectories(all.take(i as int))) + rest,
            decreases entries.len() - i,
        {
            let ghost before = self.pending@;
            let ghost names = subdirectories(all.take(i as int));
            proof {
                assert(all.take(i + 1).drop_last() =~= all.take(i as int));
                assert(all.take(i + 1).last() == entries@[i as int]@);
            }
            if goes_down(&entries[i]) {
                let deeper = target.child(entries[i].shown_name());
                assert(self.pending@.len() == self@.queue.len());
                assert(self@.queue.len() == names.len() + rest.len());
                self.pending.insert(count, deeper);
                proof {
                    let name = entries@[i as int]@.name->0;
                    assert(targets(self.pending@) =~= targets(before).insert(
                        count as int,
                        deeper@,
                    ));
                    assert(below(target@, names.push(name)) =~= below(target@, names).push(
                        deeper@,
                    ));
                    assert(self@.queue =~= below(target@, names.push(name)) + rest);
                }
                count += 1;
            }
            i += 1;
        }
        assert(all.take(i as int) =~= all);
    }

    /// Takes what came of reading `target` and gives its listing. The run
    /// becomes as bad as the listing, if it was better; and where listings
    /// go down, the directories shown are listed next, before the targets
    /// that were left.
    pub fn record(&mut self, target: &Target, read: DirectoryRead, options: &ListingOptions) -> (result:
        ListingResult)
        ensures
            result@ == listed(read@, effective(*options)),
            final(self)@ == recorded(old(self)@, target@, read@, *options),
    {
        let used = effective_options(options);
        match dir(read) {
            Err(e) => {
                let mut errors: Vec<ListingError> = Vec::new();
                let ghost error = e@;
                errors.push(e);
                assert(error_models(errors@) =~= seq![error]);
                self.severity = self.severity.max(Severity::NonFatal);
                assert(self@.queue =~= Seq::<TargetModel>::empty() + old(self)@.queue);
                ListingResult { text: String::new(), errors, severity: Severity::NonFatal }
            },
            Ok(enumeration) => {
                let shown = arrange(&enumeration.entries, &used);
                if options.recursive && !options.directory_as_entry {
                    self.descend(target, &shown);
                } else {
                    assert(self@.queue =~= Seq::<TargetModel>::empty() + old(self)@.queue);
                }
                self.severity = self.severity.max(Severity::Normal);
                let text = match used.display_mode {
                    DisplayMode::Long => long_list(shown),
                    DisplayMode::OnePerLine => one_per_line(shown),
                };
                ListingResult { text, errors: enumeration.skipped, severity: Severity::Normal }
            },
        }
    }
}

/// A reading never makes a run fatal: a run is fatal after it only where it
/// was before.
pub proof fn reading_is_never_fatal(
    run: RunModel,
    target: TargetModel,
    read: ReadModel,
    options: ListingOptions,
)
    ensures
        listed(read, effective(options)).severity != Severity::Fatal,
        recorded(run, target, read, options).severity == Severity::Fatal ==> run.severity
            == Severity::Fatal,
{
}

/// A run never gets better, and a path that could not be read leaves it
/// worse than normal, while the targets that were left stay as they were.
pub proof fn run_keeps_the_worst(
    run: RunModel,
    target: TargetModel,
    read: ReadModel,
    options: ListingOptions,
)
    ensures
        status_of(recorded(run, target, read, options).severity) >= status_of(run.severity),
        read is Unreadable ==> status_of(recorded(run, target, read, options).severity) >= 1
            && recorded(run, target, read, options).queue == run.queue,
        read is Children ==> recorded(run, target, read, options).severity == run.severity,
{
    if read is Unreadable {
        assert(added(target, read, options) + run.queue =~= run.queue);
    }
}

/// One reading of a run: the target that was read, and what came of it.
pub struct Reading {
    pub target: TargetModel,
    pub read: ReadModel,
}

/// The run after a sequence of readings, the first reading first.
pub open spec fn after(run: RunModel, readings: Seq<Reading>, options: ListingOptions) -> RunModel
    decreases readings.len(),
{
    if readings.len() == 0 {
        run
    } else {
        recorded(
            after(run, readings.drop_last(), options),
            readings.last().target,
            readings.last().read,
            options,
        )
    }
}

/// How the listings of a sequence of readings went.
pub open spec fn outcomes(readings: Seq<Reading>, options: ListingOptions) -> Seq<Severity> {
    readings.map_values(|r: Reading| listed(r.read, effective(options)).severity)
}

/// A run that began normal ends as its worst listing did: normal where
/// every path could be read, and no longer normal, but not fatal, where one
/// could not.
pub proof fn run_ends_as_its_worst_listing(
    run: RunModel,
    readings: Seq<Reading>,
    options: ListingOptions,
)
    requires
        run.severity == Severity::Normal,
    ensures
        after(run, readings, options).severity == worst(outcomes(readings, options)),
        after(run, readings, options).severity == if exists|i: int|
            0 <= i < readings.len() && readings[i].read is Unreadable {
            Severity::NonFatal
        } else {
            Severity::Normal
        },
    decreases readings.len(),
{
    if readings.len() > 0 {
        let front = readings.drop_last();
        run_ends_as_its_worst_listing(run, front, options);
        assert(outcomes(readings, options).drop_last() =~= outcomes(front, options));
        if exists|i: int| 0 <= i < front.len() && front[i].read is Unreadable {
            let at = choose|i: int| 0 <= i < front.len() && front[i].read is Unreadable;
            assert(readings[at].read is Unreadable);
        }
        if readings.last().read is Unreadable {
            assert(readings[readings.len() - 1].read is Unreadable);
        }
        if exists|i: int| 0 <= i < readings.len() && readings[i].read is Unreadable {
            let at = choose|i: int| 0 <= i < readings.len() && readings[i].read is Unreadable;
            if at < front.len() {
                assert(front[at].read is Unreadable);
            }
        }
    }
}

} // verus!
