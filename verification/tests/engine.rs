use plaintasks::classify::{parse_line, LineKind};
use plaintasks::clock::current_timestamp;
use plaintasks::completion::completion_candidates;
use plaintasks::document::{code_actions_in, split_lines};
use plaintasks::tags::{extract_all_tags, strip_state_tag};
use plaintasks::transitions::{actions_for_line, ActionCategory, ActionTitle};

fn cv(s: &str) -> Vec<char> {
    s.chars().collect()
}

fn sv(v: &[char]) -> String {
    v.iter().collect()
}

#[test]
fn classify_pending_line() {
    let p = parse_line(&cv("  \u{2610} Buy milk"));
    assert_eq!(p.kind, LineKind::Pending);
    assert_eq!(sv(&p.indent), "  ");
    assert_eq!(sv(&p.body), "Buy milk");
}

#[test]
fn classify_done_line() {
    let p = parse_line(&cv("\u{2714} Call mom @done(24-01-15 10:30)"));
    assert_eq!(p.kind, LineKind::Done);
    assert_eq!(sv(&p.indent), "");
    assert_eq!(sv(&p.body), "Call mom @done(24-01-15 10:30)");
}

#[test]
fn classify_cancelled_line() {
    let p = parse_line(&cv("\t\u{2718} Old chore @cancelled(23-12-01 09:00)"));
    assert_eq!(p.kind, LineKind::Cancelled);
    assert_eq!(sv(&p.indent), "\t");
}

#[test]
fn classify_header_line() {
    let p = parse_line(&cv("Groceries:  "));
    assert_eq!(p.kind, LineKind::Header);
}

#[test]
fn classify_plain_line() {
    let p = parse_line(&cv("Random note"));
    assert_eq!(p.kind, LineKind::Plain);
}

#[test]
fn classify_marker_takes_precedence_over_header() {
    let p = parse_line(&cv("\u{2610} Ship release:"));
    assert_eq!(p.kind, LineKind::Pending);
}

#[test]
fn classify_marker_without_following_space_is_not_a_task() {
    let p = parse_line(&cv("\u{2610}Buy milk"));
    assert_eq!(p.kind, LineKind::Plain);
}

#[test]
fn classify_zero_width_body() {
    let p = parse_line(&cv("  \u{2610} "));
    assert_eq!(p.kind, LineKind::Pending);
    assert_eq!(sv(&p.body), "");
}

#[test]
fn scenario_pending_line_offers_done_and_cancelled() {
    let doc = cv("  \u{2610} Buy milk");
    let ts = cv("24-01-15 10:30");
    let actions = code_actions_in(&doc, 0, &ts);
    assert_eq!(actions.len(), 3);
    assert_eq!(actions[0].title, ActionTitle::MarkAsDone);
    assert!(actions[0].is_preferred);
    assert_eq!(actions[0].category, ActionCategory::QuickFix);
    assert!(!actions[0].is_insert);
    assert_eq!(actions[0].line, 0);
    assert_eq!(sv(&actions[0].new_text), "  \u{2714} Buy milk @done(24-01-15 10:30)");
    assert_eq!(actions[1].title, ActionTitle::MarkAsCancelled);
    assert!(!actions[1].is_preferred);
    assert_eq!(sv(&actions[1].new_text), "  \u{2718} Buy milk @cancelled(24-01-15 10:30)");
}

#[test]
fn scenario_done_line_reverts_to_pending() {
    let doc = cv("\u{2714} Call mom @done(24-01-15 10:30)");
    let ts = cv("25-06-06 08:00");
    let actions = code_actions_in(&doc, 0, &ts);
    assert_eq!(actions.len(), 2);
    assert_eq!(actions[0].title, ActionTitle::RevertToPending);
    assert!(actions[0].is_preferred);
    assert_eq!(actions[0].category, ActionCategory::QuickFix);
    assert_eq!(sv(&actions[0].new_text), "\u{2610} Call mom");
}

#[test]
fn scenario_cancelled_line_reverts_to_pending() {
    let doc = cv("  \u{2718} Old chore @cancelled(23-12-01 09:00)");
    let ts = cv("25-06-06 08:00");
    let actions = code_actions_in(&doc, 0, &ts);
    assert_eq!(actions.len(), 2);
    assert_eq!(actions[0].title, ActionTitle::RevertToPending);
    assert_eq!(sv(&actions[0].new_text), "  \u{2610} Old chore");
}

#[test]
fn scenario_plain_line_converts_and_inserts() {
    let doc = cv("Random note");
    let ts = cv("24-01-15 10:30");
    let actions = code_actions_in(&doc, 0, &ts);
    assert_eq!(actions.len(), 2);
    assert_eq!(actions[0].title, ActionTitle::ConvertToTodo);
    assert!(actions[0].is_preferred);
    assert_eq!(actions[0].category, ActionCategory::Refactor);
    assert_eq!(sv(&actions[0].new_text), "\u{2610} Random note");
    assert_eq!(actions[1].title, ActionTitle::InsertTodoBelow);
    assert!(actions[1].is_insert);
    assert_eq!(actions[1].line, 1);
    assert_eq!(sv(&actions[1].new_text), "\u{2610} \n");
}

#[test]
fn header_line_offers_only_insert() {
    let doc = cv("Groceries:");
    let ts = cv("24-01-15 10:30");
    let actions = code_actions_in(&doc, 0, &ts);
    assert_eq!(actions.len(), 1);
    assert_eq!(actions[0].title, ActionTitle::InsertTodoBelow);
}

#[test]
fn insert_below_keeps_indentation() {
    let doc = cv("\t  \u{2610} Nested");
    let ts = cv("24-01-15 10:30");
    let actions = code_actions_in(&doc, 0, &ts);
    let insert = actions.last().unwrap();
    assert_eq!(insert.title, ActionTitle::InsertTodoBelow);
    assert_eq!(sv(&insert.new_text), "\t  \u{2610} \n");
    assert_eq!(insert.line, 1);
    assert!(insert.is_insert);
}

#[test]
fn scenario_out_of_range_line_yields_no_actions() {
    let doc = cv("\u{2610} Only line");
    let ts = cv("24-01-15 10:30");
    let actions = code_actions_in(&doc, 5, &ts);
    assert!(actions.is_empty());
    let actions_at_count = code_actions_in(&doc, 1, &ts);
    assert!(actions_at_count.is_empty());
}

#[test]
fn actions_target_the_requested_line() {
    let doc = cv("Header:\n  \u{2610} Second line");
    let ts = cv("24-01-15 10:30");
    let actions = code_actions_in(&doc, 1, &ts);
    assert_eq!(actions[0].title, ActionTitle::MarkAsDone);
    assert_eq!(actions[0].line, 1);
    assert_eq!(sv(&actions[0].new_text), "  \u{2714} Second line @done(24-01-15 10:30)");
}

#[test]
fn reclassifying_rule_outputs_gives_target_kinds() {
    let ts = cv("24-01-15 10:30");
    let line = cv("  \u{2610} Water plants");
    let actions = actions_for_line(&line, 0, &ts);
    let done = parse_line(&actions[0].new_text);
    assert_eq!(done.kind, LineKind::Done);
    let cancelled = parse_line(&actions[1].new_text);
    assert_eq!(cancelled.kind, LineKind::Cancelled);
    let reverted = actions_for_line(&actions[0].new_text, 0, &ts);
    let pending_again = parse_line(&reverted[0].new_text);
    assert_eq!(pending_again.kind, LineKind::Pending);
    let converted = actions_for_line(&cv("note"), 0, &ts);
    assert_eq!(parse_line(&converted[0].new_text).kind, LineKind::Pending);
}

#[test]
fn round_trip_restores_body() {
    let ts = cv("24-01-15 10:30");
    let line = cv("    \u{2610} Water plants @high");
    let actions = actions_for_line(&line, 0, &ts);
    let done_line = &actions[0].new_text;
    assert_eq!(sv(done_line), "    \u{2714} Water plants @high @done(24-01-15 10:30)");
    let revert = actions_for_line(done_line, 0, &ts);
    assert_eq!(sv(&revert[0].new_text), "    \u{2610} Water plants @high");
}

#[test]
fn strip_state_tag_removes_done_tag() {
    let body = cv("Call mom @done(24-01-15 10:30)");
    let r = strip_state_tag(&body, LineKind::Done);
    assert_eq!(sv(&r), "Call mom");
}

#[test]
fn strip_state_tag_keeps_other_tags() {
    let body = cv("Call mom @high @done(24-01-15 10:30) @est(2h)");
    let r = strip_state_tag(&body, LineKind::Done);
    assert_eq!(sv(&r), "Call mom @high @est(2h)");
}

#[test]
fn strip_state_tag_without_match_only_trims() {
    let body = cv("  nothing tagged  ");
    let r = strip_state_tag(&body, LineKind::Done);
    assert_eq!(sv(&r), "nothing tagged");
}

#[test]
fn strip_state_tag_ignores_empty_parens() {
    let body = cv("Task @done()");
    let r = strip_state_tag(&body, LineKind::Done);
    assert_eq!(sv(&r), "Task @done()");
}

#[test]
fn strip_state_tag_is_idempotent() {
    let bodies = [
        "Call mom @done(24-01-15 10:30)",
        "a @done(1) b @done(2) c",
        "no tags here",
        "  padded  ",
    ];
    for b in bodies {
        let once = strip_state_tag(&cv(b), LineKind::Done);
        let twice = strip_state_tag(&once, LineKind::Done);
        assert_eq!(sv(&once), sv(&twice));
    }
    let once = strip_state_tag(&cv("x @cancelled(now) y"), LineKind::Cancelled);
    let twice = strip_state_tag(&once, LineKind::Cancelled);
    assert_eq!(sv(&once), sv(&twice));
}

#[test]
fn extract_all_tags_finds_each_name_once() {
    let doc = cv("\u{2610} a @high\n\u{2610} b @est(2h) @high\nplain @low_1");
    let tags = extract_all_tags(&doc);
    let names: Vec<String> = tags.iter().map(|t| sv(t)).collect();
    assert!(names.contains(&"high".to_string()));
    assert!(names.contains(&"est".to_string()));
    assert!(names.contains(&"low_1".to_string()));
    assert_eq!(names.iter().filter(|n| *n == "high").count(), 1);
    assert_eq!(names.len(), 3);
}

#[test]
fn extract_all_tags_skips_malformed_tokens() {
    let doc = cv("@ alone, @@double, trailing@ and a@mid");
    let tags = extract_all_tags(&doc);
    let names: Vec<String> = tags.iter().map(|t| sv(t)).collect();
    assert_eq!(names, vec!["double".to_string(), "mid".to_string()]);
}

#[test]
fn extract_all_tags_takes_unicode_names() {
    let tags = extract_all_tags(&cv("\u{2610} r\u{00e9}server @caf\u{00e9} @na\u{00ef}ve_1"));
    let names: Vec<String> = tags.iter().map(|t| sv(t)).collect();
    assert_eq!(
        names,
        vec!["caf\u{00e9}".to_string(), "na\u{00ef}ve_1".to_string()]
    );
}

#[test]
fn scenario_completion_includes_document_and_builtin_tags() {
    let doc = cv("\u{2610} Pay rent @high\n\u{2610} Plan trip @est(2h)");
    let candidates = completion_candidates(&doc);
    let names: Vec<String> = candidates.iter().map(|c| sv(&c.insert_text)).collect();
    for builtin in [
        "today", "high", "medium", "low", "critical", "done", "cancelled", "started", "est",
        "lasted",
    ] {
        assert!(names.contains(&builtin.to_string()), "missing builtin {builtin}");
    }
    assert!(names.contains(&"high".to_string()));
    assert!(names.contains(&"est".to_string()));
    let mut deduped = names.clone();
    deduped.sort();
    deduped.dedup();
    assert_eq!(deduped.len(), names.len(), "duplicate candidates");
    assert_eq!(names.len(), 10);
}

#[test]
fn completion_labels_carry_trigger_character() {
    let doc = cv("note @urgent");
    let candidates = completion_candidates(&doc);
    assert_eq!(candidates.len(), 11);
    for c in &candidates {
        assert_eq!(sv(&c.label), format!("@{}", sv(&c.insert_text)));
    }
}

#[test]
fn split_lines_handles_newlines_and_carriage_returns() {
    let lines = split_lines(&cv("a\nb\r\n\nlast"));
    let texts: Vec<String> = lines.iter().map(|l| sv(l)).collect();
    assert_eq!(texts, vec!["a", "b", "", "last"]);
    assert!(split_lines(&cv("")).is_empty());
    let trailing = split_lines(&cv("one\n"));
    assert_eq!(trailing.len(), 1);
    assert_eq!(sv(&trailing[0]), "one");
    let bare_cr_at_end = split_lines(&cv("x\r"));
    assert_eq!(sv(&bare_cr_at_end[0]), "x\r");
}

#[test]
fn current_timestamp_fits_a_state_tag() {
    let ts = current_timestamp();
    assert!(!ts.is_empty());
    assert!(!ts.contains(&')'));
    assert_eq!(ts.len(), 14);
    assert_eq!(ts[2], '-');
    assert_eq!(ts[5], '-');
    assert_eq!(ts[8], ' ');
    assert_eq!(ts[11], ':');
}

#[test]
fn stamped_action_carries_fresh_timestamp() {
    let doc = cv("\u{2610} Task");
    let ts = current_timestamp();
    let actions = code_actions_in(&doc, 0, &ts);
    let text = sv(&actions[0].new_text);
    assert!(text.starts_with("\u{2714} Task @done("));
    assert!(text.ends_with(')'));
    assert!(text.len() > "\u{2714} Task @done()".len());
}
