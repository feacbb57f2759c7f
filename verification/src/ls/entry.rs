//! What a listing knows of one child of a directory, as plain values.

use vstd::prelude::*;

verus! {

/// The kind of a filesystem object, as far as a listing tells kinds apart.
#[derive(Clone, Copy, Debug, PartialEq, Eq, Structural)]
pub enum FileKind {
    Directory,
    SymbolicLink,
    Regular,
}

/// A point in time: whole seconds since 1970-01-01 00:00:00 UTC, which may be
/// negative, and the nanoseconds after that second.
#[derive(Clone, Copy, Debug, PartialEq, Eq, Structural)]
pub struct Stamp {
    pub secs: i64,
    pub nanos: u32,
}

/// The metadata of one object, where it could be read.
#[derive(Clone, Copy, Debug, PartialEq, Eq, Structural)]
pub struct Metadata {
    pub kind: FileKind,
    pub readonly: bool,
    pub len: u64,
    pub modified: Option<Stamp>,
    pub accessed: Option<Stamp>,
}

/// The security principal that owns an object.
#[derive(Clone, Debug)]
pub struct Principal {
    pub domain: String,
    pub account: String,
}

/// The mathematical value of a `Principal`.
pub struct PrincipalModel {
    pub domain: Seq<char>,
    pub account: Seq<char>,
}

impl View for Principal {
    type V = PrincipalModel;

    open spec fn view(&self) -> PrincipalModel {
        PrincipalModel { domain: self.domain@, account: self.account@ }
    }
}

/// One child of a directory. Each part that could not be read is `None`; an
/// entry is listed all the same.
#[derive(Clone, Debug)]
pub struct DirectoryEntry {
    /// The base name, where it could be decoded.
    pub name: Option<String>,
    /// The kind that the directory itself records for the child.
    pub kind: Option<FileKind>,
    pub metadata: Option<Metadata>,
    /// The owner, where it could be resolved.
    pub owner: Option<Principal>,
}

/// The mathematical value of a `DirectoryEntry`.
pub struct EntryModel {
    pub name: Option<Seq<char>>,
    pub kind: Option<FileKind>,
    pub metadata: Option<Metadata>,
    pub owner: Option<PrincipalModel>,
}

impl View for DirectoryEntry {
    type V = EntryModel;

    open spec fn view(&self) -> EntryModel {
        EntryModel {
            name: match self.name {
                Some(n) => Some(n@),
                None => None,
            },
            kind: self.kind,
            metadata: self.metadata,
            owner: match self.owner {
                Some(p) => Some(p@),
                None => None,
            },
        }
    }
}

impl Principal {
    /// A principal with the same names.
    pub fn duplicate(&self) -> (copy: Principal)
        ensures
            copy@ == self@,
    {
        Principal { domain: self.domain.clone(), account: self.account.clone() }
    }
}

impl DirectoryEntry {
    /// An entry with the same value.
    pub fn duplicate(&self) -> (copy: DirectoryEntry)
        ensures
            copy@ == self@,
    {
        DirectoryEntry {
            name: match &self.name {
                Some(n) => Some(n.clone()),
                None => None,
            },
            kind: self.kind,
            metadata: self.metadata,
            owner: match &self.owner {
                Some(p) => Some(p.duplicate()),
                None => None,
            },
        }
    }
}

/// The values of the entries of a sequence.
pub open spec fn models(entries: Seq<DirectoryEntry>) -> Seq<EntryModel> {
    entries.map_values(|e: DirectoryEntry| e@)
}

} // verus!
