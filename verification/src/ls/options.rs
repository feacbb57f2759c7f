//! The policies of a listing: which entries are shown, in which order, and in
//! which layout.

use vstd::prelude::*;
use crate::ls::config::LsConfig;
use crate::ls::config::LsModel;
use crate::ls::entry::DirectoryEntry;
use crate::ls::entry::EntryModel;
use crate::ls::entry::models;
use crate::ls::format::name_text;
use crate::text::same_text;

verus! {

/// The layout of a listing.
#[derive(Clone, Copy, Debug, PartialEq, Eq, Structural)]
pub enum DisplayMode {
    /// One row of columns for each entry.
    Long,
    /// One name on each line.
    OnePerLine,
}

/// Which entries a listing shows.
#[derive(Clone, Copy, Debug, PartialEq, Eq, Structural)]
pub enum Visibility {
    /// All but those whose name begins with a dot.
    Default,
    /// All.
    All,
    /// All but the directory itself and its parent, `.` and `..`.
    AlmostAll,
}

/// What a listing is ordered by.
#[derive(Clone, Copy, Debug, PartialEq, Eq, Structural)]
pub enum SortKey {
    /// By name, in the order of the characters' codes.
    ByName,
    /// By size, the largest first.
    BySize,
    /// By the time of the last change, the newest first.
    ByModifiedTime,
    /// By the time of the last access, the newest first.
    ByAccessTime,
}

/// The policies of one listing. They are fixed before it begins.
#[derive(Clone, Copy, Debug, PartialEq, Eq, Structural)]
pub struct ListingOptions {
    pub display_mode: DisplayMode,
    pub visibility: Visibility,
    /// The key to order by; `None` keeps the order in which the entries were
    /// read.
    pub sort_key: Option<SortKey>,
    /// Whether the order is turned round.
    pub reverse: bool,
    /// Whether the directories among the entries are listed in turn.
    pub recursive: bool,
    /// Whether a path is listed as one entry, not by its children.
    pub directory_as_entry: bool,
}

/// The policies that a configuration asks for. Of the visibilities, all wins
/// over almost all. Of the keys, size wins over the time of access, and that
/// over the time of change; with none of them the entries stay as read.
pub open spec fn options_for(c: LsModel) -> ListingOptions {
    ListingOptions {
        display_mode: if c.one_per_line {
            DisplayMode::OnePerLine
        } else {
            DisplayMode::Long
        },
        visibility: if c.all {
            Visibility::All
        } else if c.almost_all {
            Visibility::AlmostAll
        } else {
            Visibility::Default
        },
        sort_key: if c.size_sort {
            Some(SortKey::BySize)
        } else if c.access_sort {
            Some(SortKey::ByAccessTime)
        } else if c.modify_sort {
            Some(SortKey::ByModifiedTime)
        } else {
            None
        },
        reverse: c.reverse,
        recursive: c.recurse,
        directory_as_entry: c.directory_view,
    }
}

/// Whether a name begins with a dot.
pub open spec fn is_dotted(name: Seq<char>) -> bool {
    name.len() > 0 && name[0] == '.'
}

/// Whether a name is that of a directory itself or of its parent.
pub open spec fn is_pseudo(name: Seq<char>) -> bool {
    name == seq!['.'] || name == seq!['.', '.']
}

/// Whether an entry of this name is shown.
pub open spec fn is_shown(visibility: Visibility, name: Seq<char>) -> bool {
    match visibility {
        Visibility::Default => !is_dotted(name),
        Visibility::All => true,
        Visibility::AlmostAll => !is_pseudo(name),
    }
}

/// The entries that are shown, in their order.
pub open spec fn visible(entries: Seq<EntryModel>, visibility: Visibility) -> Seq<EntryModel> {
    entries.filter(|e: EntryModel| is_shown(visibility, name_text(e)))
}

impl ListingOptions {
    /// The policies that a configuration asks for.
    pub fn from_config(config: &LsConfig) -> (options: ListingOptions)
        ensures
            options == options_for(config@),
    {
        ListingOptions {
            display_mode: if config.one_per_line {
                DisplayMode::OnePerLine
            } else {
                DisplayMode::Long
            },
            visibility: if config.all {
                Visibility::All
            } else if config.almost_all {
                Visibility::AlmostAll
            } else {
                Visibility::Default
            },
            sort_key: if config.size_sort {
                Some(SortKey::BySize)
            } else if config.access_sort {
                Some(SortKey::ByAccessTime)
            } else if config.modify_sort {
                Some(SortKey::ByModifiedTime)
            } else {
                None
            },
            reverse: config.reverse,
            recursive: config.recurse,
            directory_as_entry: config.directory_view,
        }
    }
}

/// Whether an entry of this name is shown.
pub fn shown(visibility: Visibility, name: &str) -> (b: bool)
    ensures
        b == is_shown(visibility, name@),
{
    match visibility {
        Visibility::Default => !(!name.is_empty() && name.get_char(0) == '.'),
        Visibility::All => true,
        Visibility::AlmostAll => {
            proof {
                reveal_strlit(".");
                reveal_strlit("..");
                assert("."@ =~= seq!['.']);
                assert(".."@ =~= seq!['.', '.']);
            }
            !(same_text(name, ".") || same_text(name, ".."))
        },
    }
}

/// The entries that are shown, in their order.
pub fn keep_visible(entries: &Vec<DirectoryEntry>, visibility: Visibility) -> (kept: Vec<
    DirectoryEntry,
>)
    ensures
        models(kept@) == visible(models(entries@), visibility),
{
    let ghost all = models(entries@);
    let ghost pred = |e: EntryModel| is_shown(visibility, name_text(e));
    let mut kept: Vec<DirectoryEntry> = Vec::new();
    let mut i: usize = 0;
    proof {
        reveal(Seq::filter);
        assert(all.take(0) =~= Seq::empty());
        assert(models(kept@) =~= all.take(0).filter(pred));
    }
    while i < entries.len()
        invariant
            i <= entries.len(),
            all == models(entries@),
            pred == |e: EntryModel| is_shown(visibility, name_text(e)),
            models(kept@) == all.take(i as int).filter(pred),
        decreases entries.len() - i,
    {
        let ghost before = kept@;
        proof {
            assert(all.take(i + 1) =~= all.take(i as int).push(all[i as int]));
            all.take(i as int).lemma_filter_push(all[i as int], pred);
            assert(all[i as int] == entries@[i as int]@);
        }
        if shown(visibility, entries[i].shown_name()) {
            kept.push(entries[i].duplicate());
            assert(models(kept@) =~= models(before).push(all[i as int]));
        }
        i += 1;
    }
    assert(all.take(i as int) =~= all);
    kept
}

} // verus!
