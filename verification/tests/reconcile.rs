use fdiff::commit::Commit;
use fdiff::parse::{parse_git_output, parse_log};
use fdiff::reconcile::{compare_branches, exclude, subtract};

fn commit(id: &str, date: &str, summary: &str) -> Commit {
    Commit { _id: id.to_string(), date: date.to_string(), summary: summary.to_string() }
}

fn summaries(commits: &[Commit]) -> Vec<&str> {
    commits.iter().map(|c| c.summary.as_str()).collect()
}

#[test]
fn commit_new_splits_the_three_fields() {
    let c = Commit::new("a1|2024-01-01|add login".to_string());
    assert_eq!(c._id, "a1");
    assert_eq!(c.date, "2024-01-01");
    assert_eq!(c.summary, "add login");
}

#[test]
fn commit_new_truncates_summary_at_next_pipe() {
    let c = Commit::new("a9|2024-03-05|fix|extra tail".to_string());
    assert_eq!(c._id, "a9");
    assert_eq!(c.date, "2024-03-05");
    assert_eq!(c.summary, "fix");
}

#[test]
fn parse_git_output_splits_lines() {
    let lines = parse_git_output("one\ntwo\nthree");
    assert_eq!(lines, vec!["one".to_string(), "two".to_string(), "three".to_string()]);
}

#[test]
fn parse_git_output_trailing_newline_opens_no_line() {
    let lines = parse_git_output("one\ntwo\n");
    assert_eq!(lines, vec!["one".to_string(), "two".to_string()]);
    assert_eq!(parse_git_output(""), Vec::<String>::new());
}

#[test]
fn parse_git_output_splits_crlf_lines() {
    let lines = parse_git_output("one\r\ntwo\r\nthree");
    assert_eq!(lines, vec!["one".to_string(), "two".to_string(), "three".to_string()]);
    // A carriage return is shed only before a `'\n'` terminator; a final
    // segment without a terminator keeps it, as `str::lines` does.
    assert_eq!(parse_git_output("one\r"), vec!["one\r".to_string()]);
    assert_eq!(parse_git_output("\r\n"), vec!["".to_string()]);
}

#[test]
fn compare_branches_crlf_log_matches_lf_baseline() {
    let raw1 = "a1|2024-01-01|add login\r\na2|2024-01-02|fix typo\r\n";
    let raw2 = "b1|2024-01-01|fix typo";
    let r = compare_branches(raw1, raw2, None);
    assert_eq!(summaries(&r), vec!["add login"]);
}

#[test]
fn parse_log_keeps_input_order() {
    let commits = parse_log("a1|2024-01-01|first\na2|2024-01-02|second\na3|2024-01-03|third");
    assert_eq!(summaries(&commits), vec!["first", "second", "third"]);
    assert_eq!(commits[0]._id, "a1");
    assert_eq!(commits[2].date, "2024-01-03");
}

#[test]
fn parse_log_skips_malformed_line() {
    // A line missing the summary field triggers the documented policy:
    // that one line is skipped, always, and the rest is still parsed.
    let commits = parse_log("abc123|2024-01-01");
    assert_eq!(commits.len(), 0);

    let commits = parse_log("abc123|2024-01-01\nok1|2024-01-02|kept");
    assert_eq!(summaries(&commits), vec!["kept"]);
}

#[test]
fn parse_log_skips_empty_lines() {
    let commits = parse_log("\n\na1|2024-01-01|kept\n\n");
    assert_eq!(summaries(&commits), vec!["kept"]);
}

#[test]
fn subtract_removes_summaries_found_in_baseline() {
    let a = vec![
        commit("a1", "2024-01-01", "add login"),
        commit("a2", "2024-01-02", "fix typo"),
        commit("a3", "2024-01-03", "update docs"),
    ];
    let b = vec![commit("b1", "2023-12-31", "fix typo")];
    let r = subtract(a, b);
    assert_eq!(summaries(&r), vec!["add login", "update docs"]);
}

#[test]
fn subtract_keeps_duplicates_and_order() {
    let a = vec![
        commit("a1", "2024-01-01", "same work"),
        commit("a2", "2024-01-02", "other work"),
        commit("a3", "2024-01-03", "same work"),
    ];
    let b = vec![commit("b1", "2024-01-01", "unrelated")];
    let r = subtract(a, b);
    assert_eq!(summaries(&r), vec!["same work", "other work", "same work"]);
    assert_eq!(r[0]._id, "a1");
    assert_eq!(r[2]._id, "a3");
}

#[test]
fn subtract_of_identical_summary_multisets_is_empty() {
    let a = vec![commit("a1", "2024-01-01", "one"), commit("a2", "2024-01-02", "two")];
    let b = vec![commit("b2", "2023-01-02", "two"), commit("b1", "2023-01-01", "one")];
    assert_eq!(subtract(a, b).len(), 0);
}

#[test]
fn exclude_matches_terms_as_substrings() {
    let commits = vec![
        commit("a1", "2024-01-01", "chore: bump version"),
        commit("a2", "2024-01-02", "add feature"),
    ];
    let r = exclude(commits, Some(vec!["chore:".to_string()]));
    assert_eq!(summaries(&r), vec!["add feature"]);
}

#[test]
fn exclude_without_terms_is_identity() {
    let commits = vec![commit("a1", "2024-01-01", "one"), commit("a2", "2024-01-02", "two")];
    let r = exclude(commits, None);
    assert_eq!(summaries(&r), vec!["one", "two"]);

    let commits = vec![commit("a1", "2024-01-01", "one"), commit("a2", "2024-01-02", "two")];
    let r = exclude(commits, Some(Vec::new()));
    assert_eq!(summaries(&r), vec!["one", "two"]);
}

#[test]
fn exclude_twice_equals_exclude_once() {
    let commits = vec![
        commit("a1", "2024-01-01", "add login"),
        commit("a2", "2024-01-02", "fix typo"),
        commit("a3", "2024-01-03", "login cleanup"),
    ];
    let terms = vec!["login".to_string()];
    let once = exclude(commits, Some(terms.clone()));
    let once_summaries: Vec<String> = once.iter().map(|c| c.summary.clone()).collect();
    let twice = exclude(once, Some(terms));
    let twice_summaries: Vec<String> = twice.iter().map(|c| c.summary.clone()).collect();
    assert_eq!(once_summaries, twice_summaries);
    assert_eq!(once_summaries, vec!["fix typo".to_string()]);
}

#[test]
fn compare_branches_example_without_exclusions() {
    let raw1 = "a1|2024-01-01|add login\na2|2024-01-02|fix typo";
    let raw2 = "b1|2024-01-01|fix typo";
    let r = compare_branches(raw1, raw2, None);
    assert_eq!(r.len(), 1);
    assert_eq!(r[0]._id, "a1");
    assert_eq!(r[0].date, "2024-01-01");
    assert_eq!(r[0].summary, "add login");
}

#[test]
fn compare_branches_example_with_exclusion() {
    let raw1 = "a1|2024-01-01|add login\na2|2024-01-02|fix typo";
    let raw2 = "b1|2024-01-01|fix typo";
    let r = compare_branches(raw1, raw2, Some(vec!["login".to_string()]));
    assert_eq!(r.len(), 0);
}

#[test]
fn compare_branches_empty_baseline_returns_target_unchanged() {
    let raw1 = "a1|2024-01-01|one\na2|2024-01-02|two";
    let r = compare_branches(raw1, "", None);
    assert_eq!(summaries(&r), vec!["one", "two"]);
}

#[test]
fn compare_branches_empty_target_returns_empty() {
    let raw2 = "b1|2024-01-01|anything";
    let r = compare_branches("", raw2, Some(vec!["anything".to_string()]));
    assert_eq!(r.len(), 0);
}

#[test]
fn duplicate_copies_all_fields() {
    let c = commit("a1", "2024-01-01", "add login");
    let d = c.duplicate();
    assert_eq!(d._id, "a1");
    assert_eq!(d.date, "2024-01-01");
    assert_eq!(d.summary, "add login");
}
