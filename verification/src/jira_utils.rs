//! Ticket keys in commit summaries, and whether the tracker knows them.
//!
//! A lookup is one authenticated `GET` of the issue's address. This module says where the
//! request goes and what the tracker's reply means; sending it is left to the caller.
use vstd::prelude::*;
use crate::text::{chars_of, piece};
use crate::ticket_key::{
    digits_end,
    is_ticket_key,
    keys_from,
    lemma_key_at,
    lemma_keys_are_ticket_keys,
    lemma_skip_letters,
    letters_end,
    ticket_keys,
};

verus! {

fn letters_end_at(chars: &Vec<char>, i: usize) -> (end: usize)
    requires
        i <= chars@.len(),
    ensures
        end == letters_end(chars@, i as int),
        i <= end <= chars@.len(),
{
    let mut end = i;
    while end < chars.len() && 'A' <= chars[end] && chars[end] <= 'Z'
        invariant
            i <= end <= chars@.len(),
            letters_end(chars@, end as int) == letters_end(chars@, i as int),
        decreases chars@.len() - end,
    {
        end = end + 1;
    }
    end
}

fn digits_end_at(chars: &Vec<char>, i: usize) -> (end: usize)
    requires
        i <= chars@.len(),
    ensures
        end == digits_end(chars@, i as int),
        i <= end <= chars@.len(),
{
    let mut end = i;
    while end < chars.len() && '0' <= chars[end] && chars[end] <= '9'
        invariant
            i <= end <= chars@.len(),
            digits_end(chars@, end as int) == digits_end(chars@, i as int),
        decreases chars@.len() - end,
    {
        end = end + 1;
    }
    end
}

/// The ticket keys in a commit's summary, in the order in which they appear.
///
/// A key is one or more upper-case ASCII letters, a hyphen and one or more digits. Keys do
/// not overlap, a key that appears twice is returned twice, and a text without a key gives
/// the empty list.
pub fn extract_jira_keys(commit_message: &str) -> (keys: Vec<String>)
    ensures
        keys.deep_view() == ticket_keys(commit_message@),
        forall|k: int| 0 <= k < keys@.len() ==> is_ticket_key(#[trigger] keys@[k]@),
{
    let chars = chars_of(commit_message);
    let n = chars.len();
    let mut keys: Vec<String> = Vec::new();
    let mut i: usize = 0;
    while i < n
        invariant
            chars@ == commit_message@,
            n == chars@.len(),
            i <= n,
            keys.deep_view() + keys_from(chars@, i as int) == ticket_keys(chars@),
        decreases n - i,
    {
        let hyphen = letters_end_at(&chars, i);
        if i < hyphen && hyphen < n && chars[hyphen] == '-' && hyphen + 1 < n && '0' <= chars[hyphen
            + 1] && chars[hyphen + 1] <= '9' {
            let end = digits_end_at(&chars, hyphen + 1);
            proof {
                lemma_key_at(chars@, i as int);
            }
            keys.push(piece(commit_message, i, end));
            i = end;
        } else if i < hyphen {
            proof {
                lemma_skip_letters(chars@, i as int, hyphen as int);
            }
            i = hyphen;
        } else {
            i = i + 1;
        }
    }
    proof {
        lemma_keys_are_ticket_keys(commit_message@);
        assert forall|k: int| 0 <= k < keys@.len() implies is_ticket_key(#[trigger] keys@[k]@) by {
            assert(keys.deep_view()[k] == keys@[k]@);
        }
    }
    keys
}

/// `url` without the slashes at its end.
pub open spec fn without_trailing_slashes(url: Seq<char>) -> Seq<char>
    decreases url.len(),
{
    if url.len() > 0 && url.last() == '/' {
        without_trailing_slashes(url.drop_last())
    } else {
        url
    }
}

/// What is left of an address without its trailing slashes is its beginning, ends in no
/// slash, and is followed in the address by slashes only.
pub proof fn lemma_without_trailing_slashes(url: Seq<char>)
    ensures
        without_trailing_slashes(url).len() <= url.len(),
        without_trailing_slashes(url) == url.take(without_trailing_slashes(url).len() as int),
        without_trailing_slashes(url).len() > 0 ==> without_trailing_slashes(url).last() != '/',
        forall|i: int|
            without_trailing_slashes(url).len() <= i < url.len() ==> #[trigger] url[i] == '/',
    decreases url.len(),
{
    if url.len() > 0 && url.last() == '/' {
        let front = url.drop_last();
        lemma_without_trailing_slashes(front);
        let rest = without_trailing_slashes(front);
        assert(front.take(rest.len() as int) == url.take(rest.len() as int));
        assert forall|i: int| rest.len() <= i < url.len() implies #[trigger] url[i] == '/' by {
            if i < front.len() {
                assert(front[i] == url[i]);
            }
        }
    } else {
        assert(url.take(url.len() as int) == url);
    }
}

/// The address at which the tracker at `jira_url` answers for the issue `issue_key`.
pub open spec fn issue_address(jira_url: Seq<char>, issue_key: Seq<char>) -> Seq<char> {
    without_trailing_slashes(jira_url) + "/rest/api/2/issue/"@ + issue_key
}

/// The address at which the tracker at `jira_url` answers for the issue `issue_key`: the
/// tracker's address without the slashes at its end, the path of the issue lookup, and the
/// key.
pub fn issue_url(jira_url: &str, issue_key: &str) -> (url: String)
    ensures
        url@ == issue_address(jira_url@, issue_key@),
{
    let chars = chars_of(jira_url);
    let mut end = chars.len();
    assert(chars@.take(end as int) == chars@);
    while end > 0 && chars[end - 1] == '/'
        invariant
            chars@ == jira_url@,
            end <= chars@.len(),
            without_trailing_slashes(chars@.take(end as int)) == without_trailing_slashes(chars@),
        decreases end,
    {
        assert(chars@.take(end as int).drop_last() == chars@.take(end - 1));
        end = end - 1;
    }
    let mut url = piece(jira_url, 0, end);
    url.append("/rest/api/2/issue/");
    url.append(issue_key);
    url
}

/// Where the tracker is and who asks it.
pub struct JiraAccess {
    pub jira_url: String,
    pub username: String,
    pub api_token: String,
}

/// The mathematical value of a [`JiraAccess`].
pub struct AccessView {
    pub jira_url: Seq<char>,
    pub username: Seq<char>,
    pub api_token: Seq<char>,
}

impl View for JiraAccess {
    type V = AccessView;

    open spec fn view(&self) -> AccessView {
        AccessView {
            jira_url: self.jira_url@,
            username: self.username@,
            api_token: self.api_token@,
        }
    }
}

/// A request for one issue: a `GET` of `url`, authenticated by HTTP Basic with `username`
/// and `api_token`.
pub struct IssueRequest {
    pub url: String,
    pub username: String,
    pub api_token: String,
}

/// The request that asks the tracker whether the issue `issue_key` exists.
pub fn issue_request(access: &JiraAccess, issue_key: &str) -> (request: IssueRequest)
    ensures
        request.url@ == issue_address(access.jira_url@, issue_key@),
        request.username@ == access.username@,
        request.api_token@ == access.api_token@,
{
    IssueRequest {
        url: issue_url(access.jira_url.as_str(), issue_key),
        username: access.username.clone(),
        api_token: access.api_token.clone(),
    }
}

/// The status code of an HTTP response: a number of three digits.
#[derive(Debug, Clone, Copy)]
pub struct HttpStatus {
    code: u16,
}

impl View for HttpStatus {
    type V = u16;

    closed spec fn view(&self) -> u16 {
        self.code
    }
}

impl HttpStatus {
    #[verifier::type_invariant]
    spec fn three_digits(self) -> bool {
        100 <= self.code <= 999
    }

    /// The status with this code, where the code has three digits.
    pub fn new(code: u16) -> (status: Option<HttpStatus>)
        ensures
            status is Some <==> 100 <= code <= 999,
            status matches Some(s) ==> s@ == code,
    {
        if 100 <= code && code <= 999 {
            Some(HttpStatus { code })
        } else {
            None
        }
    }

    /// The code of the status.
    pub fn code(&self) -> (code: u16)
        ensures
            code == self@,
            100 <= code <= 999,
    {
        proof {
            use_type_invariant(self);
        }
        self.code
    }

    /// The status as a message shows it: what `reqwest::StatusCode` displays for it.
    pub fn line(&self) -> (line: String)
        ensures
            line@ == status_text(self@),
    {
        proof {
            use_type_invariant(self);
        }
        match display_status(self.code) {
            Some(line) => line,
            None => vstd::pervasive::unreached(),
        }
    }
}

/// What `reqwest::StatusCode` displays for the status with this code: the code and the
/// standard reason of the status, as in `500 Internal Server Error`.
pub uninterp spec fn status_text(code: u16) -> Seq<char>;

/// `reqwest::StatusCode::from_u16`, and the `Display` of the status that it returns
/// (`to_string`). The type is the `StatusCode` of the http crate, which reqwest hands on.
///
/// Believed of them: a status exists for a code from 100 to 999 and for no other, and what
/// it displays depends on the code alone.
#[verifier::external_body]
fn display_status(code: u16) -> (line: Option<String>)
    ensures
        line is Some <==> 100 <= code <= 999,
        line matches Some(text) ==> text@ == status_text(code),
{
    match reqwest::StatusCode::from_u16(code) {
        Ok(status) => Some(status.to_string()),
        Err(_) => None,
    }
}

/// How a request for an issue ended.
#[derive(Debug)]
pub enum HttpReply {
    /// The tracker answered with this status.
    Status(HttpStatus),
    /// No answer came: the connection, the name lookup or the transfer failed.
    Failed { detail: String },
}

/// The detail of a failure that shows the status: `opening`, the status, the issue and the
/// address.
pub open spec fn status_failure(
    opening: Seq<char>,
    status_line: Seq<char>,
    issue_key: Seq<char>,
    api_url: Seq<char>,
) -> Seq<char> {
    opening + status_line + ") for issue "@ + issue_key + " at "@ + api_url + "."@
}

/// What a status means for the issue `issue_key`, asked for at `api_url`, where the status
/// is shown as `status_line`: whether the issue exists, or why that is not known.
pub open spec fn status_verdict(
    api_url: Seq<char>,
    issue_key: Seq<char>,
    code: u16,
    status_line: Seq<char>,
) -> Result<bool, Seq<char>> {
    if code == 200 {
        Ok(true)
    } else if code == 404 {
        Ok(false)
    } else if code == 401 {
        Err(
            "Unauthorized (401): Failed to authenticate with Jira at "@ + api_url
                + ". Check credentials."@,
        )
    } else if code == 403 {
        Err(
            "Forbidden (403): Insufficient permissions for Jira issue "@ + issue_key + " at "@
                + api_url + "."@,
        )
    } else if 500 <= code <= 599 {
        Err(status_failure("Jira server error ("@, status_line, issue_key, api_url))
    } else {
        Err(status_failure("Unexpected response status ("@, status_line, issue_key, api_url))
    }
}

/// What a reply means for the issue `issue_key`, asked for at `api_url`.
pub open spec fn reply_verdict(api_url: Seq<char>, issue_key: Seq<char>, reply: HttpReply) -> Result<
    bool,
    Seq<char>,
> {
    match reply {
        HttpReply::Status(status) => status_verdict(
            api_url,
            issue_key,
            status@,
            status_text(status@),
        ),
        HttpReply::Failed { detail } => Err("Request to "@ + api_url + " failed: "@ + detail@),
    }
}

/// The mathematical value of a verdict.
pub open spec fn verdict_view(verdict: Result<bool, String>) -> Result<bool, Seq<char>> {
    match verdict {
        Ok(exists) => Ok(exists),
        Err(detail) => Err(detail@),
    }
}

fn failure_with_status(opening: &str, status_line: &str, issue_key: &str, api_url: &str) -> (detail:
    String)
    ensures
        detail@ == status_failure(opening@, status_line@, issue_key@, api_url@),
{
    let mut detail = String::from_str(opening);
    detail.append(status_line);
    detail.append(") for issue ");
    detail.append(issue_key);
    detail.append(" at ");
    detail.append(api_url);
    detail.append(".");
    detail
}

/// What a status means for an issue: 200 that it exists, 404 that it does not, and any
/// other status that the lookup failed, with a detail that names the status.
pub fn verdict_of_status(api_url: &str, issue_key: &str, code: u16, status_line: &str) -> (verdict:
    Result<bool, String>)
    ensures
        verdict_view(verdict) == status_verdict(api_url@, issue_key@, code, status_line@),
{
    if code == 200 {
        Ok(true)
    } else if code == 404 {
        Ok(false)
    } else if code == 401 {
        let mut detail = String::from_str(
            "Unauthorized (401): Failed to authenticate with Jira at ",
        );
        detail.append(api_url);
        detail.append(". Check credentials.");
        Err(detail)
    } else if code == 403 {
        let mut detail = String::from_str(
            "Forbidden (403): Insufficient permissions for Jira issue ",
        );
        detail.append(issue_key);
        detail.append(" at ");
        detail.append(api_url);
        detail.append(".");
        Err(detail)
    } else if 500 <= code && code <= 599 {
        Err(failure_with_status("Jira server error (", status_line, issue_key, api_url))
    } else {
        Err(failure_with_status("Unexpected response status (", status_line, issue_key, api_url))
    }
}

/// Whether the tracker at `jira_url` knows the issue `issue_key`, from the reply to the
/// request for it.
///
/// `Ok(true)` where the tracker answered 200, `Ok(false)` where it answered 404. Any other
/// status, and a request that got no answer, is an error that says what happened. Nothing
/// is tried again.
pub fn check_jira_issue_exists(jira_url: &str, issue_key: &str, reply: &HttpReply) -> (verdict:
    Result<bool, String>)
    ensures
        verdict_view(verdict) == reply_verdict(
            issue_address(jira_url@, issue_key@),
            issue_key@,
            *reply,
        ),
{
    let api_url = issue_url(jira_url, issue_key);
    match reply {
        HttpReply::Status(status) => {
            let line = status.line();
            verdict_of_status(api_url.as_str(), issue_key, status.code(), line.as_str())
        },
        HttpReply::Failed { detail } => {
            let mut text = String::from_str("Request to ");
            text.append(api_url.as_str());
            text.append(" failed: ");
            text.append(detail.as_str());
            Err(text)
        },
    }
}

/// The three things that a lookup can come to.
#[derive(Debug, Clone, Copy, PartialEq, Eq, Structural)]
pub enum VerdictClass {
    Exists,
    NotFound,
    LookupFailed,
}

/// The class of a verdict.
pub open spec fn class_of(verdict: Result<bool, Seq<char>>) -> VerdictClass {
    match verdict {
        Ok(true) => VerdictClass::Exists,
        Ok(false) => VerdictClass::NotFound,
        Err(_) => VerdictClass::LookupFailed,
    }
}

/// The class that a status code stands for.
pub open spec fn status_class(code: u16) -> VerdictClass {
    if code == 200 {
        VerdictClass::Exists
    } else if code == 404 {
        VerdictClass::NotFound
    } else {
        VerdictClass::LookupFailed
    }
}

/// The status code alone decides the class of the verdict, whatever the address, the key
/// and the status line are.
pub proof fn lemma_status_decides_class(
    api_url: Seq<char>,
    issue_key: Seq<char>,
    code: u16,
    status_line: Seq<char>,
)
    ensures
        class_of(status_verdict(api_url, issue_key, code, status_line)) == status_class(code),
{
}

/// A reply with a status has the class of its status code, and a request without an
/// answer is a failed lookup.
pub proof fn lemma_reply_class(api_url: Seq<char>, issue_key: Seq<char>, reply: HttpReply)
    ensures
        class_of(reply_verdict(api_url, issue_key, reply)) == match reply {
            HttpReply::Status(status) => status_class(status@),
            HttpReply::Failed { .. } => VerdictClass::LookupFailed,
        },
{
}

} // verus!
