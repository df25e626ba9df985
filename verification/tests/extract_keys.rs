use jira_commit_check::jira_utils::extract_jira_keys;
use regex::Regex;

fn no_keys() -> Vec<String> {
    Vec::new()
}

/// The pattern of a ticket key, for the regex crate.
fn key_pattern() -> Regex {
    Regex::new(r"([A-Z]+-[0-9]+)").unwrap()
}

/// What the pattern finds in `text`.
fn by_pattern(pattern: &Regex, text: &str) -> Vec<String> {
    pattern.captures_iter(text).map(|found| found[1].to_string()).collect()
}

#[test]
fn test_extract_single_key() {
    assert_eq!(extract_jira_keys("Fix for ABC-123"), vec!["ABC-123"]);
}

#[test]
fn test_extract_multiple_keys() {
    let message = "Related to XYZ-789, fixed PROJ-001 and also TEST-100.";
    let expected = vec!["XYZ-789", "PROJ-001", "TEST-100"];
    assert_eq!(extract_jira_keys(message), expected);
}

#[test]
fn test_extract_no_keys() {
    assert_eq!(
        extract_jira_keys("A regular commit message without keys."),
        Vec::<String>::new()
    );
}

#[test]
fn test_extract_keys_with_lowercase() {
    assert_eq!(extract_jira_keys("Fix for abc-123"), Vec::<String>::new());
}

#[test]
fn test_extract_keys_mixed_with_text() {
    assert_eq!(
        extract_jira_keys("ABC-123 is the main ticket, but also see DEF-456."),
        vec!["ABC-123", "DEF-456"]
    );
}

#[test]
fn test_extract_key_at_start() {
    assert_eq!(extract_jira_keys("PROJ-007: Implement feature"), vec!["PROJ-007"]);
}

#[test]
fn test_extract_key_at_end() {
    assert_eq!(extract_jira_keys("Implemented feature for TASK-321"), vec!["TASK-321"]);
}

#[test]
fn test_extract_key_with_no_surrounding_text() {
    assert_eq!(extract_jira_keys("MYKEY-111"), vec!["MYKEY-111"]);
}

#[test]
fn extract_list_of_keys_keeps_their_order() {
    assert_eq!(
        extract_jira_keys("XYZ-789, PROJ-001, TEST-100"),
        vec!["XYZ-789", "PROJ-001", "TEST-100"]
    );
}

#[test]
fn extract_plain_text_has_no_key() {
    assert_eq!(extract_jira_keys("plain text"), no_keys());
    assert_eq!(extract_jira_keys(""), no_keys());
    assert_eq!(extract_jira_keys("-"), no_keys());
}

#[test]
fn extract_keeps_a_key_that_appears_twice() {
    assert_eq!(extract_jira_keys("ABC-1 reverts ABC-1"), vec!["ABC-1", "ABC-1"]);
}

#[test]
fn extract_needs_letters_hyphen_and_digits() {
    assert_eq!(extract_jira_keys("ABC-"), no_keys());
    assert_eq!(extract_jira_keys("ABC"), no_keys());
    assert_eq!(extract_jira_keys("-123"), no_keys());
    assert_eq!(extract_jira_keys("ABC 123"), no_keys());
    assert_eq!(extract_jira_keys("ABC--123"), no_keys());
    assert_eq!(extract_jira_keys("ABC-x123"), no_keys());
    assert_eq!(extract_jira_keys("PROJ-XYZ"), no_keys());
    assert_eq!(extract_jira_keys("A-1"), vec!["A-1"]);
}

#[test]
fn extract_takes_the_upper_case_end_of_a_mixed_word() {
    assert_eq!(extract_jira_keys("abcDEF-12"), vec!["DEF-12"]);
    assert_eq!(extract_jira_keys("Abc-12"), no_keys());
    assert_eq!(extract_jira_keys("aB-7c"), vec!["B-7"]);
}

#[test]
fn extract_takes_every_digit_that_follows() {
    assert_eq!(extract_jira_keys("ABC-0012345678901234567890x"), vec!["ABC-0012345678901234567890"]);
    assert_eq!(extract_jira_keys("ABC-12-34"), vec!["ABC-12"]);
    assert_eq!(extract_jira_keys("ABC-12DEF-34"), vec!["ABC-12", "DEF-34"]);
}

#[test]
fn extract_goes_on_after_a_run_of_letters_without_a_key() {
    assert_eq!(extract_jira_keys("AB-CD-12"), vec!["CD-12"]);
    assert_eq!(extract_jira_keys("ABCDEFGH IJ-5"), vec!["IJ-5"]);
    assert_eq!(extract_jira_keys("AB-CD-EF"), no_keys());
}

#[test]
fn extract_reads_text_beyond_ascii() {
    assert_eq!(extract_jira_keys("Ünïcödé ABC-42 ✓"), vec!["ABC-42"]);
    assert_eq!(extract_jira_keys("ÀBC-12"), vec!["BC-12"]);
    assert_eq!(extract_jira_keys("ÀÉ-12"), no_keys());
    assert_eq!(extract_jira_keys("ABC-１２"), no_keys());
    assert_eq!(extract_jira_keys("ABC‐12"), no_keys());
    assert_eq!(extract_jira_keys("日本語KEY-9終"), vec!["KEY-9"]);
}

#[test]
fn extract_agrees_with_the_pattern_on_chosen_texts() {
    let texts = [
        "",
        "Fix for ABC-123",
        "abc-123",
        "XYZ-789, PROJ-001, TEST-100",
        "plain text",
        "AB-CD-12",
        "ABC--12",
        "ABC-12-34",
        "ABC-12DEF-34GH-5",
        "A-1B-2C-3",
        "AAAAAAAAAAAAAAAAAAAA",
        "AAAAAAAAAAAAAAAAAAAA-",
        "AAAAAAAAAAAAAAAAAAAA-0",
        "----0000AAAA",
        "Z-9",
        "[-0",
        "@-0",
        "A-/",
        "A-:",
        "ÀBC-12 ÉCOLE-3 ß-1",
        "ABC-１２ ABC‐12",
        "feat: PROJ-123 Implement feature X",
        "fix: PROJ-XYZ Resolve non-existent issue",
        "line one KEY-1\nline two KEY-2",
        "tab\tKEY-10\tKEY-11",
    ];
    let pattern = key_pattern();
    for text in texts {
        assert_eq!(extract_jira_keys(text), by_pattern(&pattern, text), "text: {:?}", text);
    }
}

#[test]
fn extract_agrees_with_the_pattern_on_generated_texts() {
    let alphabet = ['A', 'B', 'Z', 'a', 'z', '-', '-', '0', '1', '9', ' ', '@', '[', '/', ':', 'É', '‐'];
    let pattern = key_pattern();
    let mut state: u64 = 0x2545_F491_4F6C_DD1D;
    for round in 0..20000 {
        let length = round % 24;
        let mut text = String::new();
        for _ in 0..length {
            state = state
                .wrapping_mul(6364136223846793005)
                .wrapping_add(1442695040888963407);
            text.push(alphabet[((state >> 33) % alphabet.len() as u64) as usize]);
        }
        assert_eq!(extract_jira_keys(&text), by_pattern(&pattern, &text), "text: {:?}", text);
    }
}

#[test]
fn extract_finds_ticket_keys_only() {
    let texts = ["ABC-12DEF-34", "aB-7c and CD-E1-2", "X-0Y-1Z-2", "PROJ-007: done"];
    for text in texts {
        for key in extract_jira_keys(text) {
            let (letters, digits) = key.split_once('-').unwrap();
            assert!(!letters.is_empty() && letters.chars().all(|c| c.is_ascii_uppercase()));
            assert!(!digits.is_empty() && digits.chars().all(|c| c.is_ascii_digit()));
            assert!(text.contains(&key));
        }
    }
}

#[test]
fn extract_finds_a_key_alone_as_itself() {
    for key in ["A-0", "MYKEY-111", "ZZZZZZZZ-99999999999999999999"] {
        assert_eq!(extract_jira_keys(key), vec![key]);
    }
}
