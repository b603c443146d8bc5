use patchbay_server::display::claims::{
    claim_elapsed_seconds_at, claim_elapsed_seconds_between, format_claim_elapsed_seconds,
    infer_patchbay_run_id,
};
use patchbay_server::display::events::{
    api_docs_event_matches, codex_event_matches, event_scopes_named_project, item_event_matches,
    run_log_event_matches, runs_page_event_matches, UiEvent,
};
use patchbay_server::display::labels::{
    abbreviate_chars, auth_method_label, claim_run_id, claim_source_label, format_label,
    format_number, output_piece_body_class, preview, rate_limit_lines, rate_window_line,
    recorded_field, run_commit_outcome_label, run_origin_label, run_result_summary,
    run_token_usage_label, AgentCommitOutcome, ClaimSource, CodexRateLimit,
};
use patchbay_server::rich_text::{
    escape_html_text, normalize_tiptap_storage_value, plain_text_to_editor_html,
    rich_text_editor_html, rich_text_plain_text,
};
use patchbay_server::sessions::AgentRunOutputKind;
use time::{format_description::well_known::Rfc3339, OffsetDateTime};

#[test]
fn infers_run_id_from_patchbay_agent_name() {
    assert_eq!(infer_patchbay_run_id("patchbay-run-60"), Some(60));
}

#[test]
fn ignores_non_run_agent_names() {
    assert_eq!(infer_patchbay_run_id("codex"), None);
    assert_eq!(infer_patchbay_run_id("patchbay-run-"), None);
    assert_eq!(infer_patchbay_run_id("patchbay-run-0"), None);
    assert_eq!(infer_patchbay_run_id("patchbay-run-+60"), None);
    assert_eq!(infer_patchbay_run_id("patchbay-run-abc"), None);
}

#[test]
fn run_ids_past_i64_are_ignored() {
    assert_eq!(
        infer_patchbay_run_id("patchbay-run-9223372036854775807"),
        Some(i64::MAX)
    );
    assert_eq!(infer_patchbay_run_id("patchbay-run-9223372036854775808"), None);
    assert_eq!(infer_patchbay_run_id("patchbay-run-007"), Some(7));
}

#[test]
fn formats_claim_elapsed_time() {
    assert_eq!(format_claim_elapsed_seconds(70), "1:10");
    assert_eq!(format_claim_elapsed_seconds(3670), "1:01:10");
    assert_eq!(format_claim_elapsed_seconds(-5), "0:00");
}

#[test]
fn derives_claim_elapsed_time_from_claim_timestamp() {
    let now = OffsetDateTime::parse("2026-06-17T18:01:10Z", &Rfc3339).unwrap();
    assert_eq!(
        claim_elapsed_seconds_at("2026-06-17T18:00:00Z", now),
        Some(70)
    );
    assert_eq!(
        claim_elapsed_seconds_at("2026-06-17T18:02:00Z", now),
        Some(0)
    );
    assert_eq!(claim_elapsed_seconds_at("not a timestamp", now), None);
}

#[test]
fn elapsed_seconds_round_down_to_whole_seconds() {
    let claimed = OffsetDateTime::parse("2026-06-17T18:00:00Z", &Rfc3339).unwrap();
    let now = claimed.unix_timestamp_nanos() + 1_999_999_999;
    assert_eq!(claim_elapsed_seconds_between("2026-06-17T18:00:00Z", now), Some(1));
}

#[test]
fn rich_text_editor_html_preserves_plain_text_line_breaks() {
    assert_eq!(
        rich_text_editor_html("First line\nSecond line\n\nThird"),
        "<p>First line<br>Second line</p><p>Third</p>"
    );
}

#[test]
fn preview_omits_rich_text_markup() {
    assert_eq!(
        preview("<p>First <strong>item</strong></p><p>Second</p>"),
        "First item\nSecond"
    );
}

#[test]
fn preview_cuts_long_text() {
    let long = "x".repeat(150);
    let cut = preview(&long);
    assert_eq!(cut, format!("{}...", "x".repeat(140)));
    assert_eq!(preview(&"y".repeat(140)), "y".repeat(140));
}

#[test]
fn runs_page_shell_ignores_live_run_events() {
    assert!(!runs_page_event_matches(&UiEvent::AutomationChanged {
        sequence: 1,
        timestamp: "2026-06-18T00:00:00Z".to_owned(),
        project: "demo".to_owned(),
    }));
    assert!(!runs_page_event_matches(&UiEvent::AgentRunChanged {
        sequence: 2,
        timestamp: "2026-06-18T00:00:01Z".to_owned(),
        project: "demo".to_owned(),
        run_id: 42,
        item_id: Some(7),
    }));
    assert!(!runs_page_event_matches(&UiEvent::AgentOutputChanged {
        sequence: 3,
        timestamp: "2026-06-18T00:00:02Z".to_owned(),
        project: "demo".to_owned(),
        run_id: 42,
        item_id: Some(7),
    }));
}

#[test]
fn runs_page_shell_refreshes_for_shell_context_events() {
    assert!(runs_page_event_matches(&UiEvent::ProjectListChanged {
        sequence: 1,
        timestamp: "2026-06-18T00:00:00Z".to_owned(),
    }));
    assert!(runs_page_event_matches(&UiEvent::ProjectChanged {
        sequence: 2,
        timestamp: "2026-06-18T00:00:01Z".to_owned(),
        project: "demo".to_owned(),
    }));
    assert!(runs_page_event_matches(&UiEvent::CodexStatusChanged {
        sequence: 3,
        timestamp: "2026-06-18T00:00:02Z".to_owned(),
    }));
}

fn run_changed(project: &str, run_id: i64, item_id: Option<i64>) -> UiEvent {
    UiEvent::AgentRunChanged {
        sequence: 1,
        timestamp: "t".to_owned(),
        project: project.to_owned(),
        run_id,
        item_id,
    }
}

#[test]
fn item_and_run_log_pages_follow_their_own_events() {
    let demo = Some("demo".to_owned());
    assert!(item_event_matches(&run_changed("demo", 1, Some(7)), demo.clone(), Some(7)));
    assert!(!item_event_matches(&run_changed("demo", 1, Some(8)), demo.clone(), Some(7)));
    assert!(!item_event_matches(&run_changed("demo", 1, None), demo.clone(), Some(7)));
    assert!(!item_event_matches(&run_changed("other", 1, Some(7)), demo.clone(), Some(7)));
    assert!(item_event_matches(
        &UiEvent::WorkItemStateChanged {
            sequence: 1,
            timestamp: "t".to_owned(),
            project: "demo".to_owned()
        },
        demo.clone(),
        Some(7)
    ));
    assert!(run_log_event_matches(&run_changed("demo", 5, None), demo.clone(), Some(5)));
    assert!(!run_log_event_matches(&run_changed("demo", 6, None), demo.clone(), Some(5)));
    assert!(!run_log_event_matches(
        &UiEvent::MemoryChanged {
            sequence: 1,
            timestamp: "t".to_owned(),
            project: "demo".to_owned()
        },
        demo,
        Some(5)
    ));
    assert!(event_scopes_named_project(&run_changed("other", 1, None), None));
    assert!(codex_event_matches(&UiEvent::AgentToolChanged {
        sequence: 1,
        timestamp: "t".to_owned()
    }));
    assert!(!api_docs_event_matches(&run_changed("demo", 1, None)));
}

#[test]
fn escapes_html_text() {
    assert_eq!(escape_html_text("a<b & 'c' \"d\">"), "a&lt;b &amp; &#39;c&#39; &quot;d&quot;&gt;");
}

#[test]
fn plain_text_becomes_paragraphs() {
    assert_eq!(plain_text_to_editor_html(""), "");
    assert_eq!(plain_text_to_editor_html("a\r\nb\r\rc"), "<p>a<br>b</p><p>c</p>");
    assert_eq!(plain_text_to_editor_html("\n\n"), "<p><br></p><p><br></p>");
    assert_eq!(rich_text_editor_html("  <P>kept</P>"), "  <P>kept</P>");
}

#[test]
fn rich_text_plain_text_decodes_entities_and_blocks() {
    assert_eq!(rich_text_plain_text("plain <b>text</b>"), "plain <b>text</b>");
    assert_eq!(
        rich_text_plain_text("<h1>Title</h1><ul><li>a &amp; b</li><li>c&nbsp;d</li></ul>"),
        "Title\na & b\nc d"
    );
    assert_eq!(rich_text_plain_text("<p>x<br />y</p>"), "x\ny");
    assert_eq!(rich_text_plain_text("<p>x<br/>y</p>"), "xy");
    assert_eq!(normalize_tiptap_storage_value("<p><br></p>".to_owned()), "");
    assert_eq!(normalize_tiptap_storage_value("<p>x</p>".to_owned()), "<p>x</p>");
}

#[test]
fn labels_and_numbers() {
    assert_eq!(format_label("state", Some("open")), "state=open");
    assert_eq!(format_label("flag", None), "flag");
    assert_eq!(format_number(0), "0");
    assert_eq!(format_number(999), "999");
    assert_eq!(format_number(1234567), "1,234,567");
    assert_eq!(format_number(-1000), "-1,000");
    assert_eq!(format_number(i64::MIN), "-9,223,372,036,854,775,808");
    assert_eq!(auth_method_label("apiKey"), "API key");
    assert_eq!(auth_method_label("chatgpt"), "ChatGPT");
    assert_eq!(auth_method_label("amazonBedrock"), "Amazon Bedrock");
    assert_eq!(auth_method_label("other"), "other");
    assert_eq!(recorded_field("  "), "not recorded");
    assert_eq!(recorded_field("x"), "x");
    assert_eq!(run_result_summary(""), "No summary yet.");
    assert_eq!(
        run_token_usage_label(12345, 1000, 0, 11345),
        "12,345 total (1,000 input, 0 cached input, 11,345 output)"
    );
    assert_eq!(abbreviate_chars("abcdef", 3), ("abc...".to_owned(), true));
    assert_eq!(abbreviate_chars("abc", 3), ("abc".to_owned(), false));
}

#[test]
fn rate_limit_lines_describe_known_windows() {
    assert_eq!(
        rate_window_line("Primary", Some(40), Some(300), Some("soon")),
        Some("Primary: 40% used over 300 min, resets soon".to_owned())
    );
    assert_eq!(rate_window_line("Primary", None, Some(300), None), None);
    let empty = CodexRateLimit {
        primary_used_percent: None,
        primary_window_minutes: None,
        primary_resets_at: None,
        secondary_used_percent: None,
        secondary_window_minutes: None,
        secondary_resets_at: None,
        individual_remaining_percent: None,
        individual_used: None,
        individual_limit: None,
        individual_resets_at: None,
        credits_balance: None,
        credits_has_credits: None,
        credits_unlimited: None,
    };
    assert_eq!(rate_limit_lines(&empty), vec!["No window details reported."]);
    let full = CodexRateLimit {
        secondary_used_percent: Some(5),
        individual_remaining_percent: Some(80),
        individual_used: Some(20),
        individual_limit: Some(100),
        credits_has_credits: Some(true),
        ..empty
    };
    assert_eq!(
        rate_limit_lines(&full),
        vec![
            "Secondary: 5% used".to_owned(),
            "80% individual budget remaining (20 of 100)".to_owned(),
            "Credits balance unknown; has credits yes; unlimited unknown".to_owned(),
        ]
    );
}

#[test]
fn run_labels() {
    assert_eq!(
        run_commit_outcome_label(
            true,
            AgentCommitOutcome::Committed,
            &vec!["0123456789abcdef".to_owned(), "abc".to_owned()]
        ),
        "committed 0123456789ab, abc (required)"
    );
    assert_eq!(
        run_commit_outcome_label(false, AgentCommitOutcome::Committed, &Vec::new()),
        "committed (not required)"
    );
    assert_eq!(
        run_commit_outcome_label(false, AgentCommitOutcome::SkippedNoGitRepo, &Vec::new()),
        "skipped: no git repository (not required)"
    );
    assert_eq!(run_origin_label(Some(3), Some("  nightly ")), Some("trigger #3 nightly".to_owned()));
    assert_eq!(run_origin_label(Some(3), Some("  ")), Some("trigger #3".to_owned()));
    assert_eq!(run_origin_label(None, Some("x")), None);
    let via = ClaimSource {
        run_id: 9,
        trigger_name: Some(" review ".to_owned()),
    };
    assert_eq!(claim_source_label(Some(&via)), Some("via review".to_owned()));
    let direct = ClaimSource {
        run_id: 9,
        trigger_name: None,
    };
    assert_eq!(claim_source_label(Some(&direct)), Some("via direct run".to_owned()));
    assert_eq!(claim_source_label(None), None);
    assert_eq!(claim_run_id(Some(&via), "codex"), Some(9));
    assert_eq!(claim_run_id(None, "patchbay-run-12"), Some(12));
    assert_eq!(
        output_piece_body_class(AgentRunOutputKind::FileChange, "diff"),
        Some("output-piece-body tool-call-body".to_owned())
    );
    assert_eq!(output_piece_body_class(AgentRunOutputKind::Error, " \n"), None);
}

use patchbay_server::display::board::{
    board_run_order, lane_items, misconfigured_items_message, sort_lane_items, sorted_unique_names,
    LaneItem,
};
use patchbay_server::filter::matching::ItemLabel;
use patchbay_server::filter::model::{Condition, ConditionClause, ConditionClauseValue, ConditionElement, Operator};
use patchbay_server::items::updates::check_expected_version;

fn lane_item(id: i64, title: &str, created: &str, updated: &str, state: &str) -> LaneItem {
    LaneItem {
        id,
        title: title.to_owned(),
        created_at: created.to_owned(),
        updated_at: updated.to_owned(),
        labels: vec![ItemLabel {
            key: "state".to_owned(),
            value: Some(state.to_owned()),
        }],
    }
}

fn ids(items: &[LaneItem]) -> Vec<i64> {
    items.iter().map(|item| item.id).collect()
}

#[test]
fn lanes_filter_and_sort_their_items() {
    let items = vec![
        lane_item(1, "beta", "2026-01-01", "2026-03-01", "open"),
        lane_item(2, "Alpha", "2026-01-03", "2026-03-01", "open"),
        lane_item(3, "gamma", "2026-01-02", "2026-02-01", "done"),
        lane_item(4, "alpha", "2026-01-02", "2026-04-01", "open"),
    ];
    let open = Condition::All(vec![ConditionElement::Clause(ConditionClause {
        column_name: "state".to_owned(),
        operator: Operator::Equal,
        value: ConditionClauseValue::Text("open".to_owned()),
    })]);
    assert_eq!(ids(&lane_items(&items, &open, "")), vec![4, 2, 1]);
    assert_eq!(ids(&lane_items(&items, &open, "updated_asc")), vec![1, 2, 4]);
    assert_eq!(ids(&lane_items(&items, &open, "created_desc")), vec![2, 4, 1]);
    assert_eq!(ids(&lane_items(&items, &open, "created_asc")), vec![1, 4, 2]);
    assert_eq!(ids(&lane_items(&items, &open, "id_desc")), vec![4, 2, 1]);
    assert_eq!(ids(&lane_items(&items, &open, "title_asc")), vec![2, 4, 1]);
    assert_eq!(ids(&lane_items(&items, &open, "title_desc")), vec![1, 4, 2]);
    let mut all = items.clone();
    sort_lane_items(&mut all, "id_asc");
    assert_eq!(ids(&all), vec![1, 2, 3, 4]);
}

#[test]
fn board_helpers() {
    assert_eq!(misconfigured_items_message(0), None);
    assert_eq!(
        misconfigured_items_message(1),
        Some("1 item has an unknown or missing state.".to_owned())
    );
    assert_eq!(
        misconfigured_items_message(3),
        Some("3 items have an unknown or missing state.".to_owned())
    );
    assert_eq!(board_run_order(&vec![5, 4, 3], &vec![9, 4, 9]), vec![4, 9, 5, 3]);
    assert_eq!(
        sorted_unique_names(vec!["b".to_owned(), "a".to_owned(), "b".to_owned()]),
        vec!["a", "b"]
    );
    assert_eq!(
        check_expected_version(Some(3), 4).unwrap_err(),
        "version conflict: expected 3, found 4"
    );
    assert!(check_expected_version(None, 4).is_ok());
}

use patchbay_server::display::labels::{
    agent_model_class, agent_model_label, usage_summary_rows, AutomationTableKind, CodexUsageSummary,
};

#[test]
fn agent_models_and_usage_rows() {
    let available = vec!["gpt-5.4".to_owned()];
    assert_eq!(agent_model_label("", "Project default", &available), "Project default");
    assert_eq!(agent_model_label("gpt-5.4", "-", &available), "gpt-5.4");
    assert_eq!(agent_model_label("gpt-4", "-", &available), "gpt-4 (unavailable)");
    assert_eq!(agent_model_class("", &available), "agent-model-value agent-model-default");
    assert_eq!(agent_model_class("gpt-4", &available), "agent-model-value agent-model-stale");
    let rows = usage_summary_rows(&CodexUsageSummary {
        lifetime_tokens: Some(1234567),
        peak_daily_tokens: None,
        current_streak_days: Some(3),
        longest_streak_days: None,
        longest_running_turn_seconds: Some(42),
    });
    assert_eq!(
        rows,
        vec![
            ("Lifetime tokens".to_owned(), "1,234,567".to_owned()),
            ("Current streak".to_owned(), "3 days".to_owned()),
            ("Longest turn".to_owned(), "42 sec".to_owned()),
        ]
    );
    assert_eq!(AutomationTableKind::Consuming.effect(), "consume_work");
    assert_eq!(AutomationTableKind::Producing.default_activation(), "manual");
    assert_eq!(AutomationTableKind::Producing.activation_choices(), vec!["manual", "cron"]);
    assert_eq!(AutomationTableKind::Consuming.instance_name(), "work-consuming-automations");
    assert_eq!(AutomationTableKind::Producing.default_selector(), None);
    assert_eq!(
        AutomationTableKind::Consuming.default_selector().as_deref(),
        Some(r#"{"All":[{"column_name":"state","operator":"=","value":{"String":"open"}},{"column_name":"needs-refinement","operator":"=","value":{"Bool":false}},{"column_name":"needs-verification","operator":"=","value":{"Bool":false}}]}"#)
    );
}
