//! Resolving the owner of a filesystem object, step by step.
//!
//! The operating system does the work; the resolver decides what is asked of
//! it next and what each answer means. An object is opened, its owner is
//! queried, the owner's names are looked up, and the object is released again
//! on every path on which it was opened. Whatever fails, the owner is unknown.

use vstd::prelude::*;
use vstd::slice::slice_subrange;
use crate::ls::entry::Principal;
use crate::ls::entry::PrincipalModel;
use crate::text::fitted;
use crate::text::push_fitted;
use crate::text::spaces;

verus! {

/// The width of each of the two owner columns, in characters.
pub const OWNER_WIDTH: usize = 16;

/// The characters that `String::from_utf16_lossy` decodes from UTF-16 code
/// units.
pub uninterp spec fn utf16_lossy(units: Seq<u16>) -> Seq<char>;

/// `String::from_utf16_lossy` of the standard library: the text depends on the
/// code units alone.
#[verifier::external_body]
fn decode_utf16(units: &[u16]) -> (text: String)
    ensures
        text@ == utf16_lossy(units@),
{
    String::from_utf16_lossy(units)
}

/// The number of code units before the first zero unit; all of them where
/// there is no zero.
pub open spec fn terminated_len(units: Seq<u16>) -> nat
    decreases units.len(),
{
    if units.len() == 0 || units[0] == 0 {
        0
    } else {
        1 + terminated_len(units.skip(1))
    }
}

/// The units of a zero-terminated buffer up to its terminator.
pub open spec fn until_terminator(units: Seq<u16>) -> Seq<u16> {
    units.take(terminated_len(units) as int)
}

/// Where the terminator is: no earlier unit is zero, and the count ends at a
/// zero or at the end of the buffer.
pub proof fn terminated_len_is(units: Seq<u16>, n: nat)
    requires
        n <= units.len(),
        forall|i: int| 0 <= i < n ==> units[i] != 0,
        n == units.len() || units[n as int] == 0,
    ensures
        terminated_len(units) == n,
    decreases n,
{
    if n > 0 {
        let rest = units.skip(1);
        assert forall|i: int| 0 <= i < n - 1 implies rest[i] != 0 by {
            assert(rest[i] == units[i + 1]);
        }
        terminated_len_is(rest, (n - 1) as nat);
    }
}

/// The text held in a zero-terminated UTF-16 buffer.
pub open spec fn wide_text(units: Seq<u16>) -> Seq<char> {
    utf16_lossy(until_terminator(units))
}

/// Decodes the text of a zero-terminated UTF-16 buffer: the units before the
/// first zero, or all of them where there is none.
pub fn text_of_wide(units: &Vec<u16>) -> (text: String)
    ensures
        text@ == wide_text(units@),
{
    let mut n: usize = 0;
    while n < units.len() && units[n] != 0
        invariant
            n <= units.len(),
            forall|i: int| 0 <= i < n ==> units@[i] != 0,
        decreases units.len() - n,
    {
        n += 1;
    }
    proof {
        terminated_len_is(units@, n as nat);
    }
    decode_utf16(slice_subrange(units.as_slice(), 0, n))
}

/// The pair that an owner shows as: domain and account, each in a column of
/// sixteen characters, cut or filled with spaces to fit. An unknown owner
/// shows as `unknown` in both.
pub open spec fn owner_pair(owner: Option<PrincipalModel>) -> (Seq<char>, Seq<char>) {
    match owner {
        Some(p) => (fitted(p.domain, OWNER_WIDTH as nat), fitted(p.account, OWNER_WIDTH as nat)),
        None => (fitted("unknown"@, OWNER_WIDTH as nat), fitted("unknown"@, OWNER_WIDTH as nat)),
    }
}

/// The owner column of a listing: the domain and the account of the pair
/// with one space between them.
pub open spec fn owner_text(owner: Option<PrincipalModel>) -> Seq<char> {
    owner_pair(owner).0 + seq![' '] + owner_pair(owner).1
}

/// The owner column always holds two columns and the space between them.
pub proof fn owner_text_len(owner: Option<PrincipalModel>)
    ensures
        owner_pair(owner).0.len() == OWNER_WIDTH,
        owner_pair(owner).1.len() == OWNER_WIDTH,
        owner_text(owner).len() == 2 * OWNER_WIDTH + 1,
{
}

/// A text in a column of the owner's width.
pub fn owner_field(text: &str) -> (field: String)
    ensures
        field@ == fitted(text@, OWNER_WIDTH as nat),
{
    let mut field = String::new();
    push_fitted(&mut field, text, OWNER_WIDTH);
    assert(field@ =~= fitted(text@, OWNER_WIDTH as nat));
    field
}

/// The pair that an owner shows as, domain first.
pub fn owner_fields(owner: &Option<Principal>) -> (pair: (String, String))
    ensures
        (pair.0@, pair.1@) == owner_pair(
            match *owner {
                Some(p) => Some(p@),
                None => None,
            },
        ),
{
    match owner {
        Some(p) => (owner_field(p.domain.as_str()), owner_field(p.account.as_str())),
        None => (owner_field("unknown"), owner_field("unknown")),
    }
}

/// Appends the owner column of `owner` to `out`.
pub fn push_owner(out: &mut String, owner: &Option<Principal>)
    ensures
        final(out)@ == old(out)@ + owner_text(
            match *owner {
                Some(p) => Some(p@),
                None => None,
            },
        ),
{
    let pair = owner_fields(owner);
    out.append(pair.0.as_str());
    out.push(' ');
    out.append(pair.1.as_str());
    assert(out@ =~= old(out)@ + (pair.0@ + seq![' '] + pair.1@));
}

/// Where a resolution stands.
#[derive(Clone, Copy, Debug, PartialEq, Eq, Structural)]
pub enum OwnerStage {
    /// Nothing is open yet.
    Opening,
    /// The object is open; its owner has not been queried.
    Querying,
    /// The owner's identifier is known; its names are not.
    Resolving,
    /// The object is still open and is to be released.
    Releasing,
    /// Nothing is open and nothing is left to do.
    Finished,
}

/// What the resolver asks of the operating system next.
#[derive(Clone, Copy, Debug, PartialEq, Eq, Structural)]
pub enum OwnerRequest {
    /// Open the object for reading, a directory too.
    Open,
    /// Query the owner's security identifier from the open object.
    QueryOwner,
    /// Look up the account and domain names of the identifier.
    ResolveNames,
    /// Release the open object.
    Release,
    /// Nothing: the resolution is finished.
    Nothing,
}

/// What the operating system answered to a request.
#[derive(Clone, Debug)]
pub enum OwnerAnswer {
    Opened,
    OpenFailed,
    OwnerFound,
    OwnerUnavailable,
    /// The two names, each in a zero-terminated UTF-16 buffer.
    NamesResolved { domain: Vec<u16>, account: Vec<u16> },
    NamesUnresolved,
    Released,
}

/// The mathematical value of an `OwnerAnswer`.
pub enum AnswerModel {
    Opened,
    OpenFailed,
    OwnerFound,
    OwnerUnavailable,
    NamesResolved { domain: Seq<u16>, account: Seq<u16> },
    NamesUnresolved,
    Released,
}

impl View for OwnerAnswer {
    type V = AnswerModel;

    open spec fn view(&self) -> AnswerModel {
        match *self {
            OwnerAnswer::Opened => AnswerModel::Opened,
            OwnerAnswer::OpenFailed => AnswerModel::OpenFailed,
            OwnerAnswer::OwnerFound => AnswerModel::OwnerFound,
            OwnerAnswer::OwnerUnavailable => AnswerModel::OwnerUnavailable,
            OwnerAnswer::NamesResolved { domain, account } => AnswerModel::NamesResolved {
                domain: domain@,
                account: account@,
            },
            OwnerAnswer::NamesUnresolved => AnswerModel::NamesUnresolved,
            OwnerAnswer::Released => AnswerModel::Released,
        }
    }
}

/// The resolution of one object's owner.
#[derive(Clone, Debug)]
pub struct OwnerResolver {
    pub stage: OwnerStage,
    pub owner: Option<Principal>,
}

/// The mathematical value of an `OwnerResolver`.
pub struct ResolverModel {
    pub stage: OwnerStage,
    pub owner: Option<PrincipalModel>,
}

impl View for OwnerResolver {
    type V = ResolverModel;

    open spec fn view(&self) -> ResolverModel {
        ResolverModel {
            stage: self.stage,
            owner: match self.owner {
                Some(p) => Some(p@),
                None => None,
            },
        }
    }
}

/// A resolution before its first request.
pub open spec fn initial() -> ResolverModel {
    ResolverModel { stage: OwnerStage::Opening, owner: None }
}

/// Whether the object is open at a stage.
pub open spec fn holds_object(stage: OwnerStage) -> bool {
    stage == OwnerStage::Querying || stage == OwnerStage::Resolving || stage
        == OwnerStage::Releasing
}

/// The request that belongs to a stage.
pub open spec fn request_at(stage: OwnerStage) -> OwnerRequest {
    match stage {
        OwnerStage::Opening => OwnerRequest::Open,
        OwnerStage::Querying => OwnerRequest::QueryOwner,
        OwnerStage::Resolving => OwnerRequest::ResolveNames,
        OwnerStage::Releasing => OwnerRequest::Release,
        OwnerStage::Finished => OwnerRequest::Nothing,
    }
}

/// A resolution after one answer. At each stage one answer is the success of
/// its request; any other answer means that the request failed. A failure
/// before the object is open ends the resolution; a failure after that leads
/// to the release, with the owner unknown.
pub open spec fn step(r: ResolverModel, answer: AnswerModel) -> ResolverModel {
    match r.stage {
        OwnerStage::Opening => match answer {
            AnswerModel::Opened => ResolverModel { stage: OwnerStage::Querying, owner: None },
            _ => ResolverModel { stage: OwnerStage::Finished, owner: None },
        },
        OwnerStage::Querying => match answer {
            AnswerModel::OwnerFound => ResolverModel { stage: OwnerStage::Resolving, owner: None },
            _ => ResolverModel { stage: OwnerStage::Releasing, owner: None },
        },
        OwnerStage::Resolving => match answer {
            AnswerModel::NamesResolved { domain, account } => ResolverModel {
                stage: OwnerStage::Releasing,
                owner: Some(
                    PrincipalModel { domain: wide_text(domain), account: wide_text(account) },
                ),
            },
            _ => ResolverModel { stage: OwnerStage::Releasing, owner: None },
        },
        OwnerStage::Releasing => ResolverModel { stage: OwnerStage::Finished, owner: r.owner },
        OwnerStage::Finished => r,
    }
}

/// A resolution after a sequence of answers, the first answer first.
pub open spec fn run(r: ResolverModel, answers: Seq<AnswerModel>) -> ResolverModel
    decreases answers.len(),
{
    if answers.len() == 0 {
        r
    } else {
        step(run(r, answers.drop_last()), answers.last())
    }
}

impl OwnerResolver {
    /// A resolution that has asked for nothing yet.
    pub fn new() -> (r: OwnerResolver)
        ensures
            r@ == initial(),
    {
        OwnerResolver { stage: OwnerStage::Opening, owner: None }
    }

    /// What to ask of the operating system next.
    pub fn request(&self) -> (request: OwnerRequest)
        ensures
            request == request_at(self@.stage),
    {
        match self.stage {
            OwnerStage::Opening => OwnerRequest::Open,
            OwnerStage::Querying => OwnerRequest::QueryOwner,
            OwnerStage::Resolving => OwnerRequest::ResolveNames,
            OwnerStage::Releasing => OwnerRequest::Release,
            OwnerStage::Finished => OwnerRequest::Nothing,
        }
    }

    /// Whether the object is open and still to be released.
    pub fn holds_object(&self) -> (held: bool)
        ensures
            held == holds_object(self@.stage),
    {
        match self.stage {
            OwnerStage::Querying => true,
            OwnerStage::Resolving => true,
            OwnerStage::Releasing => true,
            _ => false,
        }
    }

    /// Whether nothing is left to ask.
    pub fn is_finished(&self) -> (finished: bool)
        ensures
            finished == (self@.stage == OwnerStage::Finished),
    {
        match self.stage {
            OwnerStage::Finished => true,
            _ => false,
        }
    }

    /// Takes the answer to the last request.
    pub fn advance(&mut self, answer: OwnerAnswer)
        ensures
            final(self)@ == step(old(self)@, answer@),
    {
        match self.stage {
            OwnerStage::Opening => {
                self.owner = None;
                match answer {
                    OwnerAnswer::Opened => {
                        self.stage = OwnerStage::Querying;
                    },
                    _ => {
                        self.stage = OwnerStage::Finished;
                    },
                }
            },
            OwnerStage::Querying => {
                self.owner = None;
                match answer {
                    OwnerAnswer::OwnerFound => {
                        self.stage = OwnerStage::Resolving;
                    },
                    _ => {
                        self.stage = OwnerStage::Releasing;
                    },
                }
            },
            OwnerStage::Resolving => {
                self.stage = OwnerStage::Releasing;
                match answer {
                    OwnerAnswer::NamesResolved { domain, account } => {
                        let domain_text = text_of_wide(&domain);
                        let account_text = text_of_wide(&account);
                        self.owner = Some(Principal { domain: domain_text, account: account_text });
                    },
                    _ => {
                        self.owner = None;
                    },
                }
            },
            OwnerStage::Releasing => {
                self.stage = OwnerStage::Finished;
            },
            OwnerStage::Finished => {},
        }
    }

    /// The owner that the resolution found: `None` where it is unknown.
    pub fn into_owner(self) -> (owner: Option<Principal>)
        ensures
            match owner {
                Some(p) => self@.owner == Some(p@),
                None => self@.owner is None,
            },
    {
        self.owner
    }
}

/// A resolution ends only where nothing is open: the step that finishes one
/// that holds the object is the answer to the request to release it.
pub proof fn release_precedes_finish(r: ResolverModel, answer: AnswerModel)
    requires
        holds_object(r.stage),
        step(r, answer).stage == OwnerStage::Finished,
    ensures
        r.stage == OwnerStage::Releasing,
        request_at(r.stage) == OwnerRequest::Release,
{
}

/// An object that cannot be opened has an unknown owner: the resolution is
/// over at once, nothing was opened, and the pair is `unknown` twice, each
/// filled to its column with nine spaces.
pub proof fn unopened_owner_is_unknown(answer: AnswerModel)
    requires
        answer != AnswerModel::Opened,
    ensures
        step(initial(), answer) == (ResolverModel { stage: OwnerStage::Finished, owner: None }),
        owner_pair(step(initial(), answer).owner) == ("unknown"@ + spaces(9), "unknown"@ + spaces(9)),
        owner_text(step(initial(), answer).owner) == "unknown"@ + spaces(9) + seq![' '] + "unknown"@
            + spaces(9),
{
    reveal_strlit("unknown");
}

/// A failure at any step leaves no part of a pair behind: until both names
/// are resolved the owner is unknown, whatever was answered before.
pub proof fn no_partial_owner(r: ResolverModel, answer: AnswerModel)
    requires
        r.owner is None,
        step(r, answer).owner is Some,
    ensures
        r.stage == OwnerStage::Resolving,
        answer is NamesResolved,
{
}

/// Every resolution is finished after four answers, whatever they are.
pub proof fn finishes_within_four(
    first: AnswerModel,
    second: AnswerModel,
    third: AnswerModel,
    fourth: AnswerModel,
)
    ensures
        run(initial(), seq![first, second, third, fourth]).stage == OwnerStage::Finished,
{
    let answers = seq![first, second, third, fourth];
    assert(answers.drop_last() == seq![first, second, third]);
    assert(seq![first, second, third].drop_last() == seq![first, second]);
    assert(seq![first, second].drop_last() == seq![first]);
    assert(seq![first].drop_last() == Seq::<AnswerModel>::empty());
    reveal_with_fuel(run, 5);
}

} // verus!
