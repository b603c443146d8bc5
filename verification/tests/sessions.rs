use patchbay_server::sessions::{
    output_pieces_size, trim_output_pieces, AgentRunOutputKind, AgentRunOutputPiece,
    ProcessSessionRegistry, ProcessSessionStart,
};

fn test_piece(sequence: u64, body: &str) -> AgentRunOutputPiece {
    AgentRunOutputPiece {
        sequence,
        timestamp: "2026-06-18T00:00:00Z".to_owned(),
        kind: AgentRunOutputKind::ModelMessage,
        source: "codex".to_owned(),
        item_id: None,
        title: String::new(),
        body: body.to_owned(),
        metadata: "null".to_owned(),
    }
}

fn start(run_id: i64, project: &str) -> ProcessSessionStart {
    ProcessSessionStart {
        run_id,
        project_name: project.to_owned(),
        tool_name: "codex".to_owned(),
        command: "codex app-server turn prompt.md".to_owned(),
        working_dir: "/tmp/demo".to_owned(),
    }
}

#[test]
fn session_output_is_retained_in_memory() {
    let mut sessions = ProcessSessionRegistry::new();
    sessions.begin(start(7, "demo"));

    sessions.append_output_piece(7, test_piece(1, "line one"));

    let active = sessions.list_for_project("demo");
    assert_eq!(active.len(), 1);
    assert_eq!(active[0].output.len(), 1);
    assert_eq!(active[0].output[0].kind, AgentRunOutputKind::ModelMessage);
    assert_eq!(active[0].output[0].body, "line one");
}

#[test]
fn finished_sessions_leave_and_cancels_name_runs() {
    let mut sessions = ProcessSessionRegistry::new();
    sessions.begin(start(9, "demo"));
    sessions.begin(start(3, "other"));
    sessions.begin(start(5, "demo"));
    assert_eq!(sessions.cancel_project("demo"), vec![5, 9]);
    assert_eq!(sessions.cancel_all(), vec![3, 5, 9]);
    sessions.finish(5);
    let all = sessions.list_all();
    let ids: Vec<i64> = all.iter().map(|s| s.run_id).collect();
    assert_eq!(ids, vec![3, 9]);
    sessions.append_output_piece(42, test_piece(1, "ignored"));
    assert_eq!(sessions.list_all().len(), 2);
}

#[test]
fn output_is_trimmed_from_the_front() {
    let mut pieces = vec![test_piece(1, "aaaa"), test_piece(2, "bb"), test_piece(3, "c")];
    let total = output_pieces_size(&pieces);
    trim_output_pieces(&mut pieces, total - 1);
    assert_eq!(pieces.len(), 2);
    assert_eq!(pieces[0].body, "bb");
}

#[test]
fn a_default_registry_is_empty() {
    let registry = ProcessSessionRegistry::default();
    assert!(registry.list_all().is_empty());
    assert!(registry.cancel_all().is_empty());
}

#[test]
fn the_largest_budget_keeps_every_piece() {
    let mut pieces = vec![test_piece(1, "aaaa"), test_piece(2, "bb"), test_piece(3, "c")];
    trim_output_pieces(&mut pieces, usize::MAX);
    assert_eq!(pieces.len(), 3);
    trim_output_pieces(&mut pieces, 0);
    assert_eq!(pieces.len(), 1);
    assert_eq!(pieces[0].body, "c");
}
