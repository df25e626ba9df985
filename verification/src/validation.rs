//! The validation of a range of commits, one after the other, and its summary.
//!
//! A run goes through the commits in their order. A commit without a ticket key is
//! invalid at once. For a commit with keys the tracker is asked about the first of them,
//! and the commit is valid if the tracker knows it. No commit is left out: an invalid
//! commit does not end the run.
//!
//! Asking the tracker is the caller's part. The run says which request it waits for; the
//! caller sends it and hands back the reply.
use vstd::prelude::*;
use crate::git_utils::{CommitBriefInfo, CommitView, RangeError};
use crate::jira_utils::{
    check_jira_issue_exists,
    extract_jira_keys,
    issue_address,
    issue_request,
    reply_verdict,
    verdict_view,
    AccessView,
    HttpReply,
    IssueRequest,
    JiraAccess,
};
use crate::ticket_key::ticket_keys;

verus! {

/// What the validation found of one commit.
#[derive(Debug)]
pub struct CommitValidationInfo {
    pub commit_hash_short: String,
    pub commit_summary: String,
    pub is_valid: bool,
    /// Why the commit is invalid; `None` for a valid one.
    pub error_message: Option<String>,
    /// Every ticket key of the summary, in the order of appearance.
    pub jira_keys_found: Vec<String>,
}

/// The mathematical value of a [`CommitValidationInfo`].
pub struct RecordView {
    pub commit: CommitView,
    pub keys: Seq<Seq<char>>,
    pub valid: bool,
    pub reason: Option<Seq<char>>,
}

impl View for CommitValidationInfo {
    type V = RecordView;

    open spec fn view(&self) -> RecordView {
        RecordView {
            commit: CommitView { id: self.commit_hash_short@, summary: self.commit_summary@ },
            keys: self.jira_keys_found.deep_view(),
            valid: self.is_valid,
            reason: match self.error_message {
                Some(text) => Some(text@),
                None => None,
            },
        }
    }
}

impl DeepView for CommitValidationInfo {
    type V = RecordView;

    open spec fn deep_view(&self) -> RecordView {
        self@
    }
}

/// Why a commit without a ticket key is invalid.
pub open spec fn no_keys_reason() -> Seq<char> {
    "No Jira keys found in commit summary."@
}

/// Why a commit is invalid whose first key the tracker does not know.
pub open spec fn not_found_reason(key: Seq<char>) -> Seq<char> {
    "Jira key '"@ + key + "' not found in Jira project (HTTP 404)."@
}

/// Why a commit is invalid for whose first key the lookup failed.
pub open spec fn lookup_error_reason(key: Seq<char>, detail: Seq<char>) -> Seq<char> {
    "Error validating Jira key '"@ + key + "': "@ + detail
}

/// The record of a commit whose summary holds no ticket key.
pub open spec fn keyless_record(commit: CommitView) -> RecordView {
    RecordView {
        commit,
        keys: Seq::empty(),
        valid: false,
        reason: Some(no_keys_reason()),
    }
}

/// The record of a commit whose summary holds a ticket key, from the verdict on the first
/// of its keys. The keys after the first are recorded and not looked up.
pub open spec fn judged_record(commit: CommitView, verdict: Result<bool, Seq<char>>) -> RecordView {
    let keys = ticket_keys(commit.summary);
    RecordView {
        commit,
        keys,
        valid: verdict == Ok::<bool, Seq<char>>(true),
        reason: match verdict {
            Ok(true) => None,
            Ok(false) => Some(not_found_reason(keys[0])),
            Err(detail) => Some(lookup_error_reason(keys[0], detail)),
        },
    }
}

/// A run as a mathematical value: the commits to validate, and the records of those that
/// are done, in the commits' order.
pub struct RunState {
    pub access: AccessView,
    pub commits: Seq<CommitView>,
    pub records: Seq<RecordView>,
}

impl RunState {
    /// The commit that is next in turn.
    pub open spec fn next_commit(self) -> CommitView {
        self.commits[self.records.len() as int]
    }

    /// Whether the run waits for the tracker's reply about the commit next in turn.
    pub open spec fn awaiting(self) -> bool {
        self.records.len() < self.commits.len()
    }

    /// The key that the run asks the tracker about: the first key of the commit next in
    /// turn.
    pub open spec fn awaited_key(self) -> Seq<char> {
        ticket_keys(self.next_commit().summary)[0]
    }

    /// The state in which every commit without a key that is next in turn has its record:
    /// the run stops only before a commit with a key, or at the end.
    pub open spec fn settle(self) -> RunState
        decreases self.commits.len() - self.records.len(),
    {
        if self.awaiting() && ticket_keys(self.next_commit().summary).len() == 0 {
            RunState {
                access: self.access,
                commits: self.commits,
                records: self.records.push(keyless_record(self.next_commit())),
            }.settle()
        } else {
            self
        }
    }

    /// The state in which a run begins.
    pub open spec fn begin(access: AccessView, commits: Seq<CommitView>) -> RunState {
        RunState { access, commits, records: Seq::empty() }.settle()
    }

    /// The record that a reply gives the commit next in turn.
    pub open spec fn record_for(self, reply: HttpReply) -> RecordView {
        judged_record(
            self.next_commit(),
            reply_verdict(
                issue_address(self.access.jira_url, self.awaited_key()),
                self.awaited_key(),
                reply,
            ),
        )
    }

    /// The state after a reply: the commit next in turn has its record, and so has every
    /// commit without a key that follows it directly. A reply that the run does not wait
    /// for changes nothing.
    pub open spec fn after_reply(self, reply: HttpReply) -> RunState {
        if self.awaiting() {
            RunState {
                access: self.access,
                commits: self.commits,
                records: self.records.push(self.record_for(reply)),
            }.settle()
        } else {
            self
        }
    }

    /// Whether the record at `i` is one of the commit at `i`: it names that commit and
    /// lists its keys, a valid record has a key and no reason, an invalid one has a
    /// reason, and a record without a key says so.
    pub open spec fn covered(self, i: int) -> bool {
        let record = self.records[i];
        &&& record.commit == self.commits[i]
        &&& record.keys == ticket_keys(self.commits[i].summary)
        &&& record.valid ==> record.keys.len() > 0 && record.reason is None
        &&& !record.valid ==> record.reason is Some
        &&& record.keys.len() == 0 ==> record.reason == Some(no_keys_reason())
    }

    /// What holds of every state of a run: the records are those of the first commits, one
    /// each and in their order, and the run waits only before a commit with a key.
    pub open spec fn inv(self) -> bool {
        &&& self.records.len() <= self.commits.len()
        &&& forall|i: int| 0 <= i < self.records.len() ==> #[trigger] self.covered(i)
        &&& self.awaiting() ==> ticket_keys(self.next_commit().summary).len() > 0
    }
}

/// Settling keeps the commits and the records that are there, and adds records up to a
/// commit with a key or to the end.
pub proof fn lemma_settle(state: RunState)
    requires
        state.records.len() <= state.commits.len(),
        forall|i: int| 0 <= i < state.records.len() ==> #[trigger] state.covered(i),
    ensures
        state.settle().inv(),
        state.settle().access == state.access,
        state.settle().commits == state.commits,
        state.records.len() <= state.settle().records.len(),
        state.settle().records.take(state.records.len() as int) == state.records,
    decreases state.commits.len() - state.records.len(),
{
    if state.awaiting() && ticket_keys(state.next_commit().summary).len() == 0 {
        let next = RunState {
            access: state.access,
            commits: state.commits,
            records: state.records.push(keyless_record(state.next_commit())),
        };
        assert forall|i: int| 0 <= i < next.records.len() implies #[trigger] next.covered(i) by {
            if i < state.records.len() {
                assert(state.covered(i));
            } else {
                assert(ticket_keys(state.next_commit().summary) =~= Seq::<Seq<char>>::empty());
            }
        }
        lemma_settle(next);
    }
}

/// A run begins in a state of which the invariant holds.
pub proof fn lemma_begin_inv(access: AccessView, commits: Seq<CommitView>)
    ensures
        RunState::begin(access, commits).inv(),
        RunState::begin(access, commits).commits == commits,
        RunState::begin(access, commits).access == access,
{
    lemma_settle(RunState { access, commits, records: Seq::empty() });
}

/// A reply keeps the invariant, the commits and the records that are there. Where the run
/// waited for it, the run has at least one record more afterwards: the commit that was
/// next in turn has the record that the reply gives it.
pub proof fn lemma_reply_inv(state: RunState, reply: HttpReply)
    requires
        state.inv(),
    ensures
        state.after_reply(reply).inv(),
        state.after_reply(reply).commits == state.commits,
        state.after_reply(reply).access == state.access,
        state.after_reply(reply).records.take(state.records.len() as int) == state.records,
        state.awaiting() ==> state.after_reply(reply).records.len() > state.records.len(),
        state.awaiting() ==> state.after_reply(reply).records[state.records.len() as int]
            == state.record_for(reply),
{
    if state.awaiting() {
        let next = RunState {
            access: state.access,
            commits: state.commits,
            records: state.records.push(state.record_for(reply)),
        };
        assert forall|i: int| 0 <= i < next.records.len() implies #[trigger] next.covered(i) by {
            if i < state.records.len() {
                assert(state.covered(i));
            }
        }
        lemma_settle(next);
        let after = next.settle();
        assert(after.records[state.records.len() as int] == after.records.take(
            next.records.len() as int,
        )[state.records.len() as int]);
    }
}

impl RunState {
    /// The state after these replies, handed over one after the other.
    pub open spec fn after_replies(self, replies: Seq<HttpReply>) -> RunState
        decreases replies.len(),
    {
        if replies.len() == 0 {
            self
        } else {
            self.after_reply(replies[0]).after_replies(replies.drop_first())
        }
    }
}

/// Replies keep the invariant and the commits. After as many replies as commits were
/// left, the run is at its end, whatever the replies were: no reply ends it early and
/// none holds it up.
pub proof fn lemma_replies_finish_run(state: RunState, replies: Seq<HttpReply>)
    requires
        state.inv(),
    ensures
        state.after_replies(replies).inv(),
        state.after_replies(replies).commits == state.commits,
        state.after_replies(replies).records.len() >= state.records.len(),
        replies.len() >= state.commits.len() - state.records.len() ==> !state.after_replies(
            replies,
        ).awaiting(),
    decreases replies.len(),
{
    if replies.len() > 0 {
        lemma_reply_inv(state, replies[0]);
        lemma_replies_finish_run(state.after_reply(replies[0]), replies.drop_first());
    }
}

/// The commit that a run waits for has a ticket key, and it is valid exactly when the
/// tracker answers 200 to the lookup of the first of its keys. A valid commit has no
/// reason, an invalid one has one. A commit without a key is never waited for: it is
/// invalid without a lookup.
pub proof fn lemma_valid_iff_first_key_exists(state: RunState, reply: HttpReply)
    requires
        state.inv(),
        state.awaiting(),
    ensures
        ticket_keys(state.next_commit().summary).len() > 0,
        state.record_for(reply).valid <==> reply is Status && reply->Status_0@ == 200,
        state.record_for(reply).valid <==> state.record_for(reply).reason is None,
{
}

/// A run that waits for nothing has a record of every commit: no commit is left out,
/// whatever the records before it say.
pub proof fn lemma_finished_run_covers_every_commit(state: RunState)
    requires
        state.inv(),
        !state.awaiting(),
    ensures
        state.records.len() == state.commits.len(),
        forall|i: int|
            0 <= i < state.commits.len() ==> (#[trigger] state.records[i]).commit
                == state.commits[i],
{
    assert forall|i: int| 0 <= i < state.commits.len() implies (#[trigger] state.records[i]).commit
        == state.commits[i] by {
        assert(state.covered(i));
    }
}

/// A validation run in progress.
pub struct ValidationRun {
    access: JiraAccess,
    commits: Vec<CommitBriefInfo>,
    records: Vec<CommitValidationInfo>,
    /// The keys of the commit next in turn.
    pending: Vec<String>,
}

impl View for ValidationRun {
    type V = RunState;

    closed spec fn view(&self) -> RunState {
        RunState {
            access: self.access@,
            commits: self.commits.deep_view(),
            records: self.records.deep_view(),
        }
    }
}

fn keyless(commit: &CommitBriefInfo) -> (record: CommitValidationInfo)
    ensures
        record@ == keyless_record(commit@),
{
    let record = CommitValidationInfo {
        commit_hash_short: commit.id.clone(),
        commit_summary: commit.summary.clone(),
        is_valid: false,
        error_message: Some(String::from_str("No Jira keys found in commit summary.")),
        jira_keys_found: Vec::new(),
    };
    assert(record@.keys == Seq::<Seq<char>>::empty());
    record
}

fn judged(commit: &CommitBriefInfo, keys: Vec<String>, verdict: Result<bool, String>) -> (record:
    CommitValidationInfo)
    requires
        keys.deep_view() == ticket_keys(commit.summary@),
        keys@.len() > 0,
    ensures
        record@ == judged_record(commit@, verdict_view(verdict)),
{
    let (is_valid, error_message) = match verdict {
        Ok(true) => (true, None),
        Ok(false) => {
            let mut reason = String::from_str("Jira key '");
            reason.append(keys[0].as_str());
            reason.append("' not found in Jira project (HTTP 404).");
            (false, Some(reason))
        },
        Err(detail) => {
            let mut reason = String::from_str("Error validating Jira key '");
            reason.append(keys[0].as_str());
            reason.append("': ");
            reason.append(detail.as_str());
            (false, Some(reason))
        },
    };
    CommitValidationInfo {
        commit_hash_short: commit.id.clone(),
        commit_summary: commit.summary.clone(),
        is_valid,
        error_message,
        jira_keys_found: keys,
    }
}

impl ValidationRun {
    #[verifier::type_invariant]
    spec fn well_formed(self) -> bool {
        &&& self@.inv()
        &&& self@.awaiting() ==> self.pending.deep_view() == ticket_keys(
            self@.next_commit().summary,
        )
    }

    /// Gives every commit without a key that is next in turn its record.
    fn settled(
        access: JiraAccess,
        commits: Vec<CommitBriefInfo>,
        records: Vec<CommitValidationInfo>,
    ) -> (run: ValidationRun)
        requires
            records@.len() <= commits@.len(),
            forall|i: int|
                0 <= i < records@.len() ==> #[trigger] (RunState {
                    access: access@,
                    commits: commits.deep_view(),
                    records: records.deep_view(),
                }).covered(i),
        ensures
            run@ == (RunState {
                access: access@,
                commits: commits.deep_view(),
                records: records.deep_view(),
            }).settle(),
    {
        let ghost start = RunState {
            access: access@,
            commits: commits.deep_view(),
            records: records.deep_view(),
        };
        let mut records = records;
        let mut pending: Vec<String> = Vec::new();
        proof {
            lemma_settle(start);
        }
        while records.len() < commits.len()
            invariant
                records@.len() <= commits@.len(),
                start.access == access@,
                start.commits == commits.deep_view(),
                (RunState {
                    access: access@,
                    commits: commits.deep_view(),
                    records: records.deep_view(),
                }).settle() == start.settle(),
            ensures
                records@.len() <= commits@.len(),
                (RunState {
                    access: access@,
                    commits: commits.deep_view(),
                    records: records.deep_view(),
                }) == start.settle(),
                records@.len() < commits@.len() ==> pending.deep_view() == ticket_keys(
                    commits@[records@.len() as int].summary@,
                ),
            decreases commits@.len() - records@.len(),
        {
            let commit = &commits[records.len()];
            let keys = extract_jira_keys(commit.summary.as_str());
            if keys.len() > 0 {
                pending = keys;
                break ;
            }
            let ghost before = records.deep_view();
            records.push(keyless(commit));
            assert(records.deep_view() == before.push(keyless_record(commit@)));
        }
        ValidationRun { access, commits, records, pending }
    }

    /// Begins the validation of `commits` against the tracker that `access` names.
    pub fn start(access: JiraAccess, commits: Vec<CommitBriefInfo>) -> (run: ValidationRun)
        ensures
            run@ == RunState::begin(access@, commits.deep_view()),
            run@.inv(),
    {
        let records: Vec<CommitValidationInfo> = Vec::new();
        assert(records.deep_view() == Seq::<RecordView>::empty());
        let run = ValidationRun::settled(access, commits, records);
        proof {
            use_type_invariant(&run);
        }
        run
    }

    /// The request that the run waits for: the lookup of the first key of the commit next
    /// in turn. `None` when the run is at its end.
    pub fn pending_request(&self) -> (request: Option<IssueRequest>)
        ensures
            self@.inv(),
            request is Some <==> self@.awaiting(),
            request matches Some(r) ==> {
                &&& r.url@ == issue_address(self@.access.jira_url, self@.awaited_key())
                &&& r.username@ == self@.access.username
                &&& r.api_token@ == self@.access.api_token
            },
    {
        proof {
            use_type_invariant(self);
        }
        if self.records.len() < self.commits.len() {
            Some(issue_request(&self.access, self.pending[0].as_str()))
        } else {
            None
        }
    }

    /// Hands the run the reply to the request it waits for.
    pub fn deliver(self, reply: &HttpReply) -> (next: ValidationRun)
        ensures
            self@.inv(),
            next@ == self@.after_reply(*reply),
            next@.inv(),
    {
        proof {
            use_type_invariant(&self);
            lemma_reply_inv(self@, *reply);
        }
        if self.records.len() < self.commits.len() {
            let ghost state = self@;
            let ValidationRun { access, commits, records, pending } = self;
            let mut records = records;
            let commit = &commits[records.len()];
            let verdict = check_jira_issue_exists(
                access.jira_url.as_str(),
                pending[0].as_str(),
                reply,
            );
            let ghost before = records.deep_view();
            let record = judged(commit, pending, verdict);
            records.push(record);
            assert(records.deep_view() == before.push(state.record_for(*reply)));
            proof {
                let pushed = RunState {
                    access: access@,
                    commits: commits.deep_view(),
                    records: records.deep_view(),
                };
                assert forall|i: int| 0 <= i < pushed.records.len() implies #[trigger] pushed.covered(
                    i,
                ) by {
                    if i < state.records.len() {
                        assert(state.covered(i));
                    }
                }
            }
            ValidationRun::settled(access, commits, records)
        } else {
            self
        }
    }

    /// Whether the run is at its end: every commit has its record.
    pub fn is_finished(&self) -> (finished: bool)
        ensures
            finished == !self@.awaiting(),
            finished ==> self@.records.len() == self@.commits.len(),
    {
        proof {
            use_type_invariant(self);
        }
        self.records.len() >= self.commits.len()
    }

    /// The records of the commits that are done, in the commits' order.
    pub fn records(&self) -> (records: &Vec<CommitValidationInfo>)
        ensures
            records.deep_view() == self@.records,
            self@.inv(),
    {
        proof {
            use_type_invariant(self);
        }
        &self.records
    }

    /// Ends the run and gives its records, in the commits' order.
    pub fn into_records(self) -> (records: Vec<CommitValidationInfo>)
        ensures
            records.deep_view() == self@.records,
            self@.inv(),
    {
        proof {
            use_type_invariant(&self);
        }
        self.records
    }
}

/// How many of the records are valid.
pub open spec fn valid_count(records: Seq<RecordView>) -> nat
    decreases records.len(),
{
    if records.len() == 0 {
        0
    } else {
        valid_count(records.drop_last()) + if records.last().valid {
            1nat
        } else {
            0nat
        }
    }
}

/// The outcome of a run in numbers.
#[derive(Debug, Clone, Copy, PartialEq, Eq, Structural)]
pub struct Summary {
    pub total: usize,
    pub valid: usize,
    pub invalid: usize,
}

impl Summary {
    /// Whether the run succeeded: no commit is invalid. A run over no commits succeeds.
    pub open spec fn is_success(&self) -> bool {
        self.invalid == 0
    }

    /// Whether the run succeeded: no commit is invalid. A run over no commits succeeds.
    #[verifier::when_used_as_spec(is_success)]
    pub fn success(&self) -> (success: bool)
        ensures
            success == self.is_success(),
    {
        self.invalid == 0
    }
}

/// Whether every record is valid. Of no records this holds.
pub open spec fn all_valid(records: Seq<RecordView>) -> bool {
    forall|i: int| 0 <= i < records.len() ==> (#[trigger] records[i]).valid
}

/// The valid and the invalid records together are all records: no more records are valid
/// than there are, and none is invalid exactly when all are valid.
pub proof fn lemma_valid_count(records: Seq<RecordView>)
    ensures
        valid_count(records) <= records.len(),
        valid_count(records) == records.len() <==> all_valid(records),
    decreases records.len(),
{
    if records.len() > 0 {
        let front = records.drop_last();
        lemma_valid_count(front);
        if all_valid(records) {
            assert(all_valid(front));
        }
        if valid_count(records) == records.len() {
            assert forall|i: int| 0 <= i < records.len() implies (#[trigger] records[i]).valid by {
                if i < front.len() {
                    assert(front[i].valid);
                }
            }
        }
    }
}

/// Counts the records and the valid ones among them.
pub fn summarize(records: &Vec<CommitValidationInfo>) -> (summary: Summary)
    ensures
        summary.total == records@.len(),
        summary.valid == valid_count(records.deep_view()),
        summary.invalid == summary.total - summary.valid,
        summary.is_success() <==> all_valid(records.deep_view()),
{
    let mut valid: usize = 0;
    let mut i: usize = 0;
    let ghost views = records.deep_view();
    while i < records.len()
        invariant
            i <= records@.len(),
            views == records.deep_view(),
            valid == valid_count(views.take(i as int)),
            valid <= i,
        decreases records@.len() - i,
    {
        assert(views.take(i + 1).drop_last() == views.take(i as int));
        if records[i].is_valid {
            valid = valid + 1;
        }
        i = i + 1;
    }
    assert(views.take(i as int) == views);
    proof {
        lemma_valid_count(views);
    }
    Summary { total: records.len(), valid, invalid: records.len() - valid }
}

/// The status with which the process ends: 0 where the range was resolved and no commit
/// of it is invalid, 1 otherwise.
pub open spec fn exit_code(outcome: Result<Summary, RangeError>) -> i32 {
    match outcome {
        Ok(summary) => if summary.is_success() {
            0i32
        } else {
            1i32
        },
        Err(_) => 1i32,
    }
}

/// The status with which the process ends: 0 where the range was resolved and no commit
/// of it is invalid, 1 otherwise.
pub fn exit_status(outcome: &Result<Summary, RangeError>) -> (status: i32)
    ensures
        status == exit_code(*outcome),
{
    match outcome {
        Ok(summary) => if summary.success() {
            0
        } else {
            1
        },
        Err(_) => 1,
    }
}

} // verus!
