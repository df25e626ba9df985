//! Range resolution: from what a repository answered about two references to the ordered
//! list of commits between them.
//!
//! The repository itself is read elsewhere. This module takes the answers as plain values,
//! decides whether the range could be resolved, names the failure if it could not, and
//! puts the commits in the order in which they are reported: oldest first.
use vstd::prelude::*;

verus! {

/// One commit of a resolved range: its short identifier and the first line of its message.
#[derive(Debug)]
pub struct CommitBriefInfo {
    pub id: String,
    pub summary: String,
}

/// The mathematical value of a [`CommitBriefInfo`].
pub struct CommitView {
    pub id: Seq<char>,
    pub summary: Seq<char>,
}

impl View for CommitBriefInfo {
    type V = CommitView;

    open spec fn view(&self) -> CommitView {
        CommitView { id: self.id@, summary: self.summary@ }
    }
}

impl DeepView for CommitBriefInfo {
    type V = CommitView;

    open spec fn deep_view(&self) -> CommitView {
        self@
    }
}

impl Clone for CommitBriefInfo {
    fn clone(&self) -> (copy: Self)
        ensures
            copy == *self,
    {
        CommitBriefInfo { id: self.id.clone(), summary: self.summary.clone() }
    }
}

/// The abbreviated identifier that the repository gave for a commit.
#[derive(Debug)]
pub enum ShortId {
    /// The abbreviation.
    Text(String),
    /// An abbreviation was made, but it is not text.
    NotText,
    /// No abbreviation could be made.
    Unavailable,
}

/// A commit as the walk over the history yields it.
#[derive(Debug)]
pub struct RawCommit {
    /// The full identifier.
    pub oid: String,
    pub short_id: ShortId,
    /// The first line of the message, where the commit has a readable one.
    pub summary: Option<String>,
}

/// Why a walk over the history ended before its end.
#[derive(Debug)]
pub enum WalkFailure {
    /// The walk could not go on.
    Advance { detail: String },
    /// The walk arrived at the commit `oid`, which could not be read.
    Lookup { oid: String, detail: String },
}

/// The operations on the repository that a range resolution performs besides resolving
/// the two references, in the order in which it performs them.
#[derive(Debug, Clone, Copy, PartialEq, Eq, Structural)]
pub enum WalkStage {
    OpenRepository,
    CreateWalk,
    PushEnd,
    HideStart,
    Advance,
}

/// Which of the two references of a range is meant.
#[derive(Debug, Clone, Copy, PartialEq, Eq, Structural)]
pub enum RefRole {
    Start,
    End,
}

/// What the repository answered, up to its first failure.
///
/// The start reference is the exclusive lower boundary of the range: the walk starts at
/// the end reference with the start commit hidden, so it yields the commits that the end
/// reaches and the start does not.
#[derive(Debug)]
pub enum RangeScan {
    /// The reference in this role did not resolve.
    Unresolved { role: RefRole, detail: String },
    /// The start reference resolved to an object that is no commit.
    StartNotCommit,
    /// An operation failed before the walk yielded anything.
    Failed { stage: WalkStage, detail: String },
    /// The walk ran: it yielded `commits`, newest first, and then came to its end, or to
    /// the failure that ended it.
    Walked { commits: Vec<RawCommit>, failure: Option<WalkFailure> },
}

/// Why a range could not be resolved. Each of these ends the run: no part of the range
/// is returned.
#[derive(Debug)]
pub enum RangeError {
    /// A reference did not resolve. `reference` is the offending text.
    RefResolution { role: RefRole, reference: String, detail: String },
    /// The start reference does not point to a commit.
    RefNotCommit { reference: String },
    /// The repository or the walk over it failed.
    Traversal { stage: WalkStage, detail: String },
    /// A commit that the walk arrived at could not be read.
    CommitLookup { oid: String, detail: String },
}

/// The mathematical value of a [`RangeError`].
pub enum RangeErrorView {
    RefResolution { role: RefRole, reference: Seq<char>, detail: Seq<char> },
    RefNotCommit { reference: Seq<char> },
    Traversal { stage: WalkStage, detail: Seq<char> },
    CommitLookup { oid: Seq<char>, detail: Seq<char> },
}

impl View for RangeError {
    type V = RangeErrorView;

    open spec fn view(&self) -> RangeErrorView {
        match *self {
            RangeError::RefResolution { role, reference, detail } => RangeErrorView::RefResolution {
                role,
                reference: reference@,
                detail: detail@,
            },
            RangeError::RefNotCommit { reference } => RangeErrorView::RefNotCommit {
                reference: reference@,
            },
            RangeError::Traversal { stage, detail } => RangeErrorView::Traversal {
                stage,
                detail: detail@,
            },
            RangeError::CommitLookup { oid, detail } => RangeErrorView::CommitLookup {
                oid: oid@,
                detail: detail@,
            },
        }
    }
}

/// What introduces the detail of a failed operation in a message.
pub open spec fn stage_prefix(stage: WalkStage) -> Seq<char> {
    match stage {
        WalkStage::OpenRepository => "Failed to open repository: "@,
        WalkStage::CreateWalk => "Failed to create revwalk: "@,
        WalkStage::PushEnd => "Failed to push end_commit_oid: "@,
        WalkStage::HideStart => "Failed to hide start_ref commit: "@,
        WalkStage::Advance => "Error during revwalk: "@,
    }
}

/// How a message names the reference in a role.
pub open spec fn role_name(role: RefRole) -> Seq<char> {
    match role {
        RefRole::Start => "start_ref"@,
        RefRole::End => "end_ref"@,
    }
}

impl RangeErrorView {
    /// The one-line diagnostic of this error.
    pub open spec fn text(self) -> Seq<char> {
        match self {
            RangeErrorView::RefResolution { role, reference, detail } => "Failed to resolve "@
                + role_name(role) + " '"@ + reference + "': "@ + detail,
            RangeErrorView::RefNotCommit { reference } => "start_ref '"@ + reference
                + "' does not point to a commit"@,
            RangeErrorView::Traversal { stage, detail } => stage_prefix(stage) + detail,
            RangeErrorView::CommitLookup { oid, detail } => "Failed to find commit "@ + oid + ": "@
                + detail,
        }
    }
}

fn stage_prefix_text(stage: WalkStage) -> (text: &'static str)
    ensures
        text@ == stage_prefix(stage),
{
    match stage {
        WalkStage::OpenRepository => "Failed to open repository: ",
        WalkStage::CreateWalk => "Failed to create revwalk: ",
        WalkStage::PushEnd => "Failed to push end_commit_oid: ",
        WalkStage::HideStart => "Failed to hide start_ref commit: ",
        WalkStage::Advance => "Error during revwalk: ",
    }
}

fn role_name_text(role: RefRole) -> (text: &'static str)
    ensures
        text@ == role_name(role),
{
    match role {
        RefRole::Start => "start_ref",
        RefRole::End => "end_ref",
    }
}

impl RangeError {
    /// The one-line diagnostic of this error.
    pub fn message(&self) -> (text: String)
        ensures
            text@ == self@.text(),
    {
        match self {
            RangeError::RefResolution { role, reference, detail } => {
                let mut text = String::from_str("Failed to resolve ");
                text.append(role_name_text(*role));
                text.append(" '");
                text.append(reference.as_str());
                text.append("': ");
                text.append(detail.as_str());
                text
            },
            RangeError::RefNotCommit { reference } => {
                let mut text = String::from_str("start_ref '");
                text.append(reference.as_str());
                text.append("' does not point to a commit");
                text
            },
            RangeError::Traversal { stage, detail } => {
                let mut text = String::from_str(stage_prefix_text(*stage));
                text.append(detail.as_str());
                text
            },
            RangeError::CommitLookup { oid, detail } => {
                let mut text = String::from_str("Failed to find commit ");
                text.append(oid.as_str());
                text.append(": ");
                text.append(detail.as_str());
                text
            },
        }
    }
}

/// The summary that stands for a commit without a readable message.
pub open spec fn missing_summary() -> Seq<char> {
    "<No commit summary>"@
}

/// What is reported of a commit that the walk yielded: its abbreviated identifier, or the
/// full one where no abbreviation could be made, and the first line of its message.
pub open spec fn brief(commit: RawCommit) -> CommitView {
    CommitView {
        id: match commit.short_id {
            ShortId::Text(text) => text@,
            ShortId::NotText => Seq::empty(),
            ShortId::Unavailable => commit.oid@,
        },
        summary: match commit.summary {
            Some(line) => line@,
            None => missing_summary(),
        },
    }
}

/// The error that the failure of a walk stands for.
pub open spec fn failure_error(failure: WalkFailure) -> RangeErrorView {
    match failure {
        WalkFailure::Advance { detail } => RangeErrorView::Traversal {
            stage: WalkStage::Advance,
            detail: detail@,
        },
        WalkFailure::Lookup { oid, detail } => RangeErrorView::CommitLookup {
            oid: oid@,
            detail: detail@,
        },
    }
}

/// What is reported of each commit of a walk, in the walk's order.
pub open spec fn briefs(commits: Seq<RawCommit>) -> Seq<CommitView> {
    commits.map_values(|commit: RawCommit| brief(commit))
}

/// What a walk comes to: the error of the failure that ended it, or else what is reported
/// of its commits, oldest first. The walk yields the newest commit first, so that is the
/// reverse of its order.
pub open spec fn walk_outcome(commits: Seq<RawCommit>, failure: Option<WalkFailure>) -> Result<
    Seq<CommitView>,
    RangeErrorView,
> {
    match failure {
        Some(failure) => Err(failure_error(failure)),
        None => Ok(briefs(commits).reverse()),
    }
}

/// What the answers of the repository come to, for the references `start_ref` and
/// `end_ref`.
pub open spec fn resolve_range(start_ref: Seq<char>, end_ref: Seq<char>, scan: RangeScan) -> Result<
    Seq<CommitView>,
    RangeErrorView,
> {
    match scan {
        RangeScan::Unresolved { role, detail } => Err(
            RangeErrorView::RefResolution {
                role,
                reference: match role {
                    RefRole::Start => start_ref,
                    RefRole::End => end_ref,
                },
                detail: detail@,
            },
        ),
        RangeScan::StartNotCommit => Err(RangeErrorView::RefNotCommit { reference: start_ref }),
        RangeScan::Failed { stage, detail } => Err(
            RangeErrorView::Traversal { stage, detail: detail@ },
        ),
        RangeScan::Walked { commits, failure } => walk_outcome(commits@, failure),
    }
}

/// The mathematical value of a resolution's result.
pub open spec fn range_view(result: Result<Vec<CommitBriefInfo>, RangeError>) -> Result<
    Seq<CommitView>,
    RangeErrorView,
> {
    match result {
        Ok(commits) => Ok(commits.deep_view()),
        Err(error) => Err(error@),
    }
}

fn brief_of(commit: &RawCommit) -> (info: CommitBriefInfo)
    ensures
        info@ == brief(*commit),
{
    let id = match &commit.short_id {
        ShortId::Text(text) => text.clone(),
        ShortId::NotText => String::new(),
        ShortId::Unavailable => commit.oid.clone(),
    };
    let summary = match &commit.summary {
        Some(line) => line.clone(),
        None => String::from_str("<No commit summary>"),
    };
    CommitBriefInfo { id, summary }
}

fn error_of(failure: WalkFailure) -> (error: RangeError)
    ensures
        error@ == failure_error(failure),
{
    match failure {
        WalkFailure::Advance { detail } => RangeError::Traversal {
            stage: WalkStage::Advance,
            detail,
        },
        WalkFailure::Lookup { oid, detail } => RangeError::CommitLookup { oid, detail },
    }
}

fn oldest_first(commits: &Vec<RawCommit>) -> (range: Vec<CommitBriefInfo>)
    ensures
        range.deep_view() == briefs(commits@).reverse(),
{
    let mut range: Vec<CommitBriefInfo> = Vec::new();
    let mut left: usize = commits.len();
    while left > 0
        invariant
            left <= commits@.len(),
            range@.len() == commits@.len() - left,
            forall|i: int|
                0 <= i < range@.len() ==> (#[trigger] range@[i])@ == brief(
                    commits@[commits@.len() - 1 - i],
                ),
        decreases left,
    {
        left = left - 1;
        range.push(brief_of(&commits[left]));
    }
    range
}

/// Resolves the range between two references from what the repository answered.
///
/// The result is the error that the answers stand for, or the commits that the walk
/// yielded, each once, in the reverse of the walk's order: oldest first.
pub fn get_commit_messages(start_ref: &str, end_ref: &str, scan: RangeScan) -> (result: Result<
    Vec<CommitBriefInfo>,
    RangeError,
>)
    ensures
        range_view(result) == resolve_range(start_ref@, end_ref@, scan),
{
    match scan {
        RangeScan::Unresolved { role, detail } => {
            let reference = match role {
                RefRole::Start => String::from_str(start_ref),
                RefRole::End => String::from_str(end_ref),
            };
            Err(RangeError::RefResolution { role, reference, detail })
        },
        RangeScan::StartNotCommit => Err(
            RangeError::RefNotCommit { reference: String::from_str(start_ref) },
        ),
        RangeScan::Failed { stage, detail } => Err(RangeError::Traversal { stage, detail }),
        RangeScan::Walked { commits, failure } => match failure {
            Some(failure) => Err(error_of(failure)),
            None => Ok(oldest_first(&commits)),
        },
    }
}

/// Whether no two of the commits have the same identifier.
pub open spec fn distinct_ids(commits: Seq<CommitView>) -> bool {
    forall|i: int, j: int| 0 <= i < j < commits.len() ==> commits[i].id != commits[j].id
}

/// A range is resolved exactly when both references resolved, the start to a commit, no
/// operation failed, and the walk came to its end. Otherwise nothing of the range is
/// returned, whatever the walk had yielded.
pub proof fn lemma_range_resolved_iff(start_ref: Seq<char>, end_ref: Seq<char>, scan: RangeScan)
    ensures
        resolve_range(start_ref, end_ref, scan) is Ok <==> scan is Walked && scan->failure is None,
{
}

/// A resolved range is the walk in reverse: it holds one entry for each commit that the
/// walk yielded and no other, and the commit that the walk yielded first, the newest,
/// comes last.
pub proof fn lemma_range_is_walk_reversed(start_ref: Seq<char>, end_ref: Seq<char>, scan: RangeScan)
    requires
        resolve_range(start_ref, end_ref, scan) is Ok,
    ensures
        scan is Walked,
        resolve_range(start_ref, end_ref, scan)->Ok_0.len() == scan->commits@.len(),
        forall|i: int|
            0 <= i < scan->commits@.len() ==> resolve_range(
                start_ref,
                end_ref,
                scan,
            )->Ok_0[scan->commits@.len() - 1 - i] == brief(#[trigger] scan->commits@[i]),
{
}

/// Where the walk gave no identifier twice, the resolved range holds none twice.
pub proof fn lemma_range_ids_distinct(commits: Seq<RawCommit>)
    requires
        distinct_ids(briefs(commits)),
    ensures
        distinct_ids(briefs(commits).reverse()),
{
}

} // verus!
