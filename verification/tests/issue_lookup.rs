use jira_commit_check::jira_utils::{
    check_jira_issue_exists, issue_request, issue_url, verdict_of_status, HttpReply, HttpStatus,
    JiraAccess,
};

fn status(code: u16) -> HttpReply {
    HttpReply::Status(HttpStatus::new(code).unwrap())
}

const TRACKER: &str = "https://tracker.example.com";

#[test]
fn test_check_existing_jira_issue() {
    let result = check_jira_issue_exists(TRACKER, "PROJ-1", &status(200));
    assert!(result.is_ok(), "Expected Ok, got Err: {:?}", result.err());
    assert_eq!(result.unwrap(), true, "Expected issue {} to exist", "PROJ-1");
}

#[test]
fn test_check_nonexistent_jira_issue() {
    let issue_key = "NONEXISTENT-000";
    let result = check_jira_issue_exists(TRACKER, issue_key, &status(404));
    assert!(result.is_ok(), "Expected Ok, got Err: {:?}", result.err());
    assert_eq!(result.unwrap(), false, "Expected issue {} to not exist", issue_key);
}

#[test]
fn test_check_jira_issue_auth_failure() {
    let result = check_jira_issue_exists(TRACKER, "ANYKEY-1", &status(401));
    assert!(result.is_err(), "Expected Err for auth failure, got Ok");
    let error_message = result.err().unwrap();
    assert!(
        error_message.contains("Unauthorized (401)") || error_message.contains("401"),
        "Error message did not indicate an auth error: {}",
        error_message
    );
}

#[test]
fn unauthorized_names_the_address() {
    assert_eq!(
        check_jira_issue_exists(TRACKER, "ANYKEY-1", &status(401)),
        Err(String::from(
            "Unauthorized (401): Failed to authenticate with Jira at \
             https://tracker.example.com/rest/api/2/issue/ANYKEY-1. Check credentials."
        ))
    );
}

#[test]
fn forbidden_names_the_issue_and_the_address() {
    assert_eq!(
        check_jira_issue_exists(TRACKER, "SEC-9", &status(403)),
        Err(String::from(
            "Forbidden (403): Insufficient permissions for Jira issue SEC-9 at \
             https://tracker.example.com/rest/api/2/issue/SEC-9."
        ))
    );
}

#[test]
fn server_error_shows_the_status_with_its_reason() {
    assert_eq!(
        check_jira_issue_exists(TRACKER, "OPS-5", &status(500)),
        Err(String::from(
            "Jira server error (500 Internal Server Error) for issue OPS-5 at \
             https://tracker.example.com/rest/api/2/issue/OPS-5."
        ))
    );
    assert_eq!(
        check_jira_issue_exists(TRACKER, "OPS-5", &status(503)),
        Err(String::from(
            "Jira server error (503 Service Unavailable) for issue OPS-5 at \
             https://tracker.example.com/rest/api/2/issue/OPS-5."
        ))
    );
}

#[test]
fn every_status_from_500_to_599_is_a_server_error() {
    for code in 500..=599u16 {
        let detail = check_jira_issue_exists(TRACKER, "OPS-5", &status(code)).unwrap_err();
        assert!(detail.starts_with(&format!("Jira server error ({} ", code)), "{}", detail);
    }
    for code in [499u16, 600] {
        let detail = check_jira_issue_exists(TRACKER, "OPS-5", &status(code)).unwrap_err();
        assert!(detail.starts_with(&format!("Unexpected response status ({} ", code)), "{}", detail);
    }
}

#[test]
fn other_status_is_unexpected() {
    assert_eq!(
        check_jira_issue_exists(TRACKER, "TEA-1", &status(418)),
        Err(String::from(
            "Unexpected response status (418 I'm a teapot) for issue TEA-1 at \
             https://tracker.example.com/rest/api/2/issue/TEA-1."
        ))
    );
    assert_eq!(
        check_jira_issue_exists(TRACKER, "TEA-1", &status(302)),
        Err(String::from(
            "Unexpected response status (302 Found) for issue TEA-1 at \
             https://tracker.example.com/rest/api/2/issue/TEA-1."
        ))
    );
    assert_eq!(
        check_jira_issue_exists(TRACKER, "TEA-1", &status(201)),
        Err(String::from(
            "Unexpected response status (201 Created) for issue TEA-1 at \
             https://tracker.example.com/rest/api/2/issue/TEA-1."
        ))
    );
}

#[test]
fn status_without_a_standard_reason_is_shown_as_unknown() {
    assert_eq!(
        check_jira_issue_exists(TRACKER, "ODD-1", &status(599)),
        Err(String::from(
            "Jira server error (599 <unknown status code>) for issue ODD-1 at \
             https://tracker.example.com/rest/api/2/issue/ODD-1."
        ))
    );
}

#[test]
fn request_without_answer_is_a_failed_lookup() {
    let reply = HttpReply::Failed { detail: String::from("connection refused") };
    assert_eq!(
        check_jira_issue_exists("http://localhost:9/", "NET-1", &reply),
        Err(String::from(
            "Request to http://localhost:9/rest/api/2/issue/NET-1 failed: connection refused"
        ))
    );
}

#[test]
fn same_status_gives_same_class_for_any_issue() {
    let places = [(TRACKER, "A-1"), ("http://other/", "LONGER-22"), ("", "")];
    for (url, key) in places {
        assert_eq!(check_jira_issue_exists(url, key, &status(200)), Ok(true));
        assert_eq!(check_jira_issue_exists(url, key, &status(404)), Ok(false));
        for code in [401u16, 403, 500, 502, 599] {
            assert!(check_jira_issue_exists(url, key, &status(code)).is_err());
        }
    }
}

#[test]
fn verdict_of_status_uses_the_line_it_is_given() {
    assert_eq!(verdict_of_status("U", "K-1", 200, "anything"), Ok(true));
    assert_eq!(verdict_of_status("U", "K-1", 404, "anything"), Ok(false));
    assert_eq!(
        verdict_of_status("U", "K-1", 401, "anything"),
        Err(String::from("Unauthorized (401): Failed to authenticate with Jira at U. Check credentials."))
    );
    assert_eq!(
        verdict_of_status("U", "K-1", 403, "anything"),
        Err(String::from("Forbidden (403): Insufficient permissions for Jira issue K-1 at U."))
    );
    assert_eq!(
        verdict_of_status("U", "K-1", 500, "five hundred"),
        Err(String::from("Jira server error (five hundred) for issue K-1 at U."))
    );
    assert_eq!(
        verdict_of_status("U", "K-1", 599, "L"),
        Err(String::from("Jira server error (L) for issue K-1 at U."))
    );
    assert_eq!(
        verdict_of_status("U", "K-1", 600, "L"),
        Err(String::from("Unexpected response status (L) for issue K-1 at U."))
    );
    assert_eq!(
        verdict_of_status("U", "K-1", 0, ""),
        Err(String::from("Unexpected response status () for issue K-1 at U."))
    );
}

#[test]
fn status_has_three_digits() {
    assert!(HttpStatus::new(0).is_none());
    assert!(HttpStatus::new(99).is_none());
    assert!(HttpStatus::new(1000).is_none());
    assert!(HttpStatus::new(u16::MAX).is_none());
    assert_eq!(HttpStatus::new(100).unwrap().code(), 100);
    assert_eq!(HttpStatus::new(999).unwrap().code(), 999);
    assert_eq!(HttpStatus::new(404).unwrap().code(), 404);
}

#[test]
fn status_line_is_code_and_reason() {
    assert_eq!(HttpStatus::new(200).unwrap().line(), "200 OK");
    assert_eq!(HttpStatus::new(404).unwrap().line(), "404 Not Found");
    assert_eq!(HttpStatus::new(100).unwrap().line(), "100 Continue");
    assert_eq!(HttpStatus::new(999).unwrap().line(), "999 <unknown status code>");
}

#[test]
fn issue_url_joins_tracker_path_and_key() {
    assert_eq!(
        issue_url("https://jira.example.com", "ABC-1"),
        "https://jira.example.com/rest/api/2/issue/ABC-1"
    );
}

#[test]
fn issue_url_drops_the_slashes_at_the_end_of_the_tracker() {
    assert_eq!(
        issue_url("https://jira.example.com/", "ABC-1"),
        "https://jira.example.com/rest/api/2/issue/ABC-1"
    );
    assert_eq!(
        issue_url("https://jira.example.com///", "ABC-1"),
        "https://jira.example.com/rest/api/2/issue/ABC-1"
    );
    assert_eq!(issue_url("http://h/base/", "K-2"), "http://h/base/rest/api/2/issue/K-2");
    assert_eq!(issue_url("/", "K-2"), "/rest/api/2/issue/K-2");
    assert_eq!(issue_url("//", "K-2"), "/rest/api/2/issue/K-2");
    assert_eq!(issue_url("", "K-2"), "/rest/api/2/issue/K-2");
    assert_eq!(issue_url("/a/ ", "K-2"), "/a/ /rest/api/2/issue/K-2");
    assert_eq!(issue_url("http://é/", "K-2"), "http://é/rest/api/2/issue/K-2");
}

#[test]
fn issue_request_carries_the_credentials() {
    let access = JiraAccess {
        jira_url: String::from("http://h/"),
        username: String::from("user"),
        api_token: String::from("token"),
    };
    let request = issue_request(&access, "K-3");
    assert_eq!(request.url, "http://h/rest/api/2/issue/K-3");
    assert_eq!(request.username, "user");
    assert_eq!(request.api_token, "token");
}
