use patchbay_server::display::metadata::{
    first_header_value, memory_event_ref_label, metadata_scalar, metadata_value_text,
    output_piece_badges, request_origin, tool_output_text, workspace_editor_icon_src,
    MemoryEventRef, MetadataValue, OriginHeaders, ToolMetadata,
};

fn metadata() -> ToolMetadata {
    ToolMetadata {
        output: None,
        result: None,
        content_items: None,
        error: None,
        tool_type: None,
        status: None,
    }
}

#[test]
fn editor_icons_are_known_for_two_editors() {
    assert_eq!(workspace_editor_icon_src("rustrover"), Some("/icons/workspace-rustrover.svg"));
    assert_eq!(workspace_editor_icon_src("vscode"), Some("/icons/workspace-vscode.svg"));
    assert_eq!(workspace_editor_icon_src("zed"), None);
}

#[test]
fn memory_references_show_their_event() {
    let with_time = MemoryEventRef { event_id: 12, available: true, created_at: Some("2024-01-02T03:04:05Z".to_owned()) };
    assert_eq!(memory_event_ref_label(&with_time), "MemoryChanged #12 2024-01-02T03:04:05Z");
    let without_time = MemoryEventRef { event_id: 12, available: true, created_at: None };
    assert_eq!(memory_event_ref_label(&without_time), "MemoryChanged #12");
    let gone = MemoryEventRef { event_id: 3, available: false, created_at: Some("x".to_owned()) };
    assert_eq!(memory_event_ref_label(&gone), "MemoryChanged #3 unavailable");
}

#[test]
fn header_values_take_the_first_entry() {
    assert_eq!(first_header_value(Some(" https , http")), Some("https".to_owned()));
    assert_eq!(first_header_value(Some("example.org")), Some("example.org".to_owned()));
    assert_eq!(first_header_value(Some(" ,x")), None);
    assert_eq!(first_header_value(Some("")), None);
    assert_eq!(first_header_value(None), None);
}

#[test]
fn request_origin_prefers_forwarded_headers() {
    assert_eq!(request_origin(None), "http://127.0.0.1:4000");
    let none = OriginHeaders { forwarded_proto: None, forwarded_host: None, host: None };
    assert_eq!(request_origin(Some(&none)), "http://127.0.0.1:4000");
    let host_only = OriginHeaders { forwarded_proto: None, forwarded_host: None, host: Some("box:4000".to_owned()) };
    assert_eq!(request_origin(Some(&host_only)), "http://box:4000");
    let forwarded = OriginHeaders {
        forwarded_proto: Some("https, http".to_owned()),
        forwarded_host: Some("patchbay.example".to_owned()),
        host: Some("box:4000".to_owned()),
    };
    assert_eq!(request_origin(Some(&forwarded)), "https://patchbay.example");
}

#[test]
fn metadata_values_are_shown_by_kind() {
    assert_eq!(metadata_scalar(Some(&MetadataValue::Bool(true))), Some("true".to_owned()));
    assert_eq!(metadata_scalar(Some(&MetadataValue::Number("3.5".to_owned()))), Some("3.5".to_owned()));
    assert_eq!(metadata_scalar(Some(&MetadataValue::Structured("[1]".to_owned()))), None);
    assert_eq!(metadata_scalar(None), None);
    assert_eq!(metadata_value_text(Some(&MetadataValue::Null)), None);
    assert_eq!(metadata_value_text(Some(&MetadataValue::EmptyList)), None);
    assert_eq!(metadata_value_text(Some(&MetadataValue::EmptyObject)), None);
    assert_eq!(metadata_value_text(Some(&MetadataValue::Bool(false))), Some("false".to_owned()));
    assert_eq!(
        metadata_value_text(Some(&MetadataValue::Structured("[\n  1\n]".to_owned()))),
        Some("[\n  1\n]".to_owned())
    );
}

#[test]
fn tool_output_is_the_first_non_blank_entry() {
    let mut m = metadata();
    assert_eq!(tool_output_text(&m), None);
    m.output = Some(MetadataValue::Text("  ".to_owned()));
    m.result = Some(MetadataValue::EmptyList);
    m.content_items = Some(MetadataValue::Text("items".to_owned()));
    m.error = Some(MetadataValue::Text("failed".to_owned()));
    assert_eq!(tool_output_text(&m), Some("items".to_owned()));
    m.output = Some(MetadataValue::Text("done".to_owned()));
    assert_eq!(tool_output_text(&m), Some("done".to_owned()));
}

#[test]
fn badges_show_type_and_status() {
    let mut m = metadata();
    assert!(output_piece_badges(&m).is_empty());
    m.tool_type = Some(MetadataValue::Text("shell".to_owned()));
    m.status = Some(MetadataValue::Number("0".to_owned()));
    assert_eq!(output_piece_badges(&m), vec!["shell", "0"]);
    m.tool_type = Some(MetadataValue::Null);
    assert_eq!(output_piece_badges(&m), vec!["0"]);
}
