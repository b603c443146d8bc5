use patchbay_server::display::claims::{claim_elapsed_label, claim_elapsed_seconds};
use patchbay_server::display::labels::{
    active_class, codex_can_logout, codex_readiness, state_label, ActivePage, CodexReadiness,
};
use patchbay_server::display::history::{shown_history_text, text_is_dirty, TextVersion};
use patchbay_server::display::links::{item_href, lane_edit_href, run_href};
use patchbay_server::display::runs::{next_selected_run, selected_run_from_query};

#[test]
fn item_links_encode_the_project_name() {
    assert_eq!(item_href("patchbay", 12), "/projects/patchbay/items/12");
    assert_eq!(item_href("my project/x", -3), "/projects/my%20project%2Fx/items/-3");
    assert_eq!(item_href("a-b_c.d~e", 0), "/projects/a-b_c.d~e/items/0");
    assert_eq!(item_href("é", 1), "/projects/%C3%A9/items/1");
}

#[test]
fn lane_links_point_at_the_swim_lane_form() {
    assert_eq!(
        lane_edit_href("my project", 4),
        "/projects?project=my%20project&edit_swim_lane=4#swim-lanes"
    );
}

#[test]
fn elapsed_claims_are_counted_from_now() {
    let seconds = claim_elapsed_seconds("2020-01-01T00:00:00Z").expect("parses");
    assert!(seconds > 0);
    assert_eq!(claim_elapsed_seconds("not a time"), None);
    assert_eq!(claim_elapsed_label("not a time"), None);
    assert_eq!(claim_elapsed_label("2999-01-01T00:00:00Z"), Some("0:00".to_owned()));
    let label = claim_elapsed_label("2020-01-01T00:00:00Z").expect("parses");
    assert!(label.contains(':'));
}

#[test]
fn only_the_shown_page_is_active() {
    assert_eq!(active_class(ActivePage::Board, ActivePage::Board), "active");
    assert_eq!(active_class(ActivePage::Board, ActivePage::Runs), "");
}

#[test]
fn items_without_state_say_so() {
    assert_eq!(state_label(Some("open")), "open");
    assert_eq!(state_label(None), "(no state)");
}

#[test]
fn run_selection_follows_the_sessions() {
    assert_eq!(selected_run_from_query(Some("42")), Some(42));
    assert_eq!(selected_run_from_query(Some("x")), None);
    assert_eq!(selected_run_from_query(None), None);
    assert_eq!(next_selected_run(&vec![], Some(3)), None);
    assert_eq!(next_selected_run(&vec![5, 3], Some(3)), Some(3));
    assert_eq!(next_selected_run(&vec![5, 3], Some(9)), Some(5));
    assert_eq!(next_selected_run(&vec![5, 3], None), Some(5));
    assert_eq!(run_href("my project", 7), "/runs?project=my%20project&run=7");
}

#[test]
fn codex_status_panel_choices() {
    assert_eq!(codex_readiness(true, true), CodexReadiness::Ready);
    assert_eq!(codex_readiness(false, true), CodexReadiness::Blocked);
    assert_eq!(codex_readiness(false, false), CodexReadiness::Unavailable);
    assert_eq!(
        CodexReadiness::Blocked.texts(),
        ("codex-status-blocked", "Codex automation blocked", "Blocked")
    );
    assert!(codex_can_logout(true, Some("chatgpt"), true, false));
    assert!(!codex_can_logout(true, Some("apiKey"), true, false));
    assert!(codex_can_logout(true, None, false, true));
    assert!(!codex_can_logout(false, None, true, true));
    assert!(!codex_can_logout(true, None, false, false));
}

#[test]
fn history_editors_show_the_selected_version() {
    let history = vec![
        TextVersion { event_id: 3, text: "third".to_owned() },
        TextVersion { event_id: 2, text: "second".to_owned() },
    ];
    assert_eq!(shown_history_text(None, &history, "draft", "Memory"), "draft");
    assert_eq!(shown_history_text(Some(2), &history, "draft", "Memory"), "second");
    assert_eq!(
        shown_history_text(Some(9), &history, "draft", "System prompt"),
        "System prompt event #9 is no longer available."
    );
    assert!(text_is_dirty(None, "new", "old"));
    assert!(!text_is_dirty(None, "old", "old"));
    assert!(!text_is_dirty(Some(2), "new", "old"));
}
