use vhs_86::search::{get_preview_lines, parse_search_output, search_outcome, SearchResult, SearchState};

fn result(path: &str, line: usize, matched: &str, text: &str) -> SearchResult {
    SearchResult {
        file_path: path.to_string(),
        line_number: line,
        column: 0,
        matched_text: matched.to_string(),
        line_text: text.to_string(),
    }
}

#[test]
fn test_search_state_new() {
    let state = SearchState::new();
    assert!(!state.visible);
    assert!(state.query.is_empty());
    assert!(state.results.is_empty());
    assert_eq!(state.selected, 0);
}

#[test]
fn test_search_state_open() {
    let mut state = SearchState::new();
    state.open();
    assert!(state.visible);
    assert!(state.query.is_empty());
}

#[test]
fn test_search_state_close() {
    let mut state = SearchState::new();
    state.open();
    state.close();
    assert!(!state.visible);
}

#[test]
fn test_search_state_push_char() {
    let mut state = SearchState::new();
    state.push_char('a');
    state.push_char('b');
    assert_eq!(state.query, "ab");
}

#[test]
fn test_search_state_pop_char() {
    let mut state = SearchState::new();
    state.push_char('a');
    state.pop_char();
    assert!(state.query.is_empty());
    state.pop_char();
    assert!(state.query.is_empty());
}

#[test]
fn test_search_state_move_down() {
    let mut state = SearchState::new();
    state.results = vec![result("a.txt", 1, "a", "aaa"), result("b.txt", 2, "b", "bbb")];
    state.move_down(1);
    assert_eq!(state.selected, 1);
    state.move_down(1);
    assert_eq!(state.selected, 1);
}

#[test]
fn test_search_state_move_up() {
    let mut state = SearchState::new();
    state.results = vec![result("a.txt", 1, "a", "aaa")];
    state.selected = 1;
    state.move_up(1);
    assert_eq!(state.selected, 0);
    state.move_up(1);
    assert_eq!(state.selected, 0);
}

#[test]
fn test_search_state_selected_result() {
    let mut state = SearchState::new();
    assert!(state.selected_result().is_none());
    let r = result("a.txt", 1, "a", "aaa");
    state.results.push(r.clone());
    assert_eq!(state.selected_result().unwrap().line_text, "aaa");
}

#[test]
fn test_get_preview_lines() {
    let content = "line1\nline2\nline3\nline4\nline5\n";
    let lines = get_preview_lines(Some(content), 3, 1);
    assert!(!lines.is_empty());
    let target = lines.iter().find(|(_, is_target)| *is_target);
    assert!(target.is_some());
    assert!(target.unwrap().0.contains("3"));
}

#[test]
fn preview_lines_number_and_mark_the_target() {
    let lines = get_preview_lines(Some("a\nb\nc\n"), 2, 1);
    assert_eq!(
        lines,
        vec![
            ("   1 | a".to_string(), false),
            ("   2 | b".to_string(), true),
            ("   3 | c".to_string(), false)
        ]
    );
    assert_eq!(
        get_preview_lines(None, 1, 1),
        vec![("[binary or unreadable file]".to_string(), false)]
    );
}

#[test]
fn ripgrep_records_become_one_result_per_submatch() {
    let mut out = String::new();
    out.push_str(r#"{"type":"begin","data":{"path":{"text":"src/a.rs"}}}"#);
    out.push('\n');
    out.push_str(r#"{"type":"match","data":{"path":{"text":"src/a.rs"},"lines":{"text":"let foo = foo;\n"},"line_number":7,"submatches":[{"match":{"text":"foo"},"start":4,"end":7},{"match":{"text":"foo"},"start":10,"end":13}]}}"#);
    out.push('\n');
    out.push_str("not json\n");
    let results = parse_search_output(&out, "/proj");
    assert_eq!(results.len(), 2);
    assert_eq!(results[0].file_path, "src/a.rs");
    assert_eq!(results[0].line_number, 7);
    assert_eq!(results[0].column, 4);
    assert_eq!(results[1].column, 10);
    assert_eq!(results[1].matched_text, "foo");
    assert_eq!(results[0].line_text, "let foo = foo;\n");
}

#[test]
fn ripgrep_failure_is_an_error_and_no_match_is_empty() {
    let err = search_outcome(false, Some(2), "", "boom", "/d").unwrap_err();
    assert_eq!(err, "ripgrep error: boom");
    assert!(search_outcome(false, Some(1), "", "", "/d").unwrap().is_empty());
}

#[test]
fn executing_a_search_records_results_or_error() {
    let mut state = SearchState::new();
    state.push_char('x');
    state.execute_search(Ok(vec![result("a", 1, "x", "x")]));
    assert_eq!(state.results.len(), 1);
    assert!(state.error.is_none());
    state.execute_search(Err("bad".to_string()));
    assert!(state.results.is_empty());
    assert_eq!(state.error, Some("bad".to_string()));
}
