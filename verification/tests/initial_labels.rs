use patchbay_server::items::initial_labels::{
    create_item_state_choices, create_item_state_display, initial_label_key_options,
    initial_label_rows_for_storage, initial_label_rows_from_entries, initial_label_text,
    initial_label_value_options, label_suggestion_keys, state_suggestion_values, state_value_options, suggested_label_values, InitialLabelRow,
    JsonLabelEntry, LabelSuggestion, LabelValueOptions, StateOption,
};

fn suggestion(key: &str, value: Option<&str>) -> LabelSuggestion {
    LabelSuggestion { key: key.to_owned(), value: value.map(|v| v.to_owned()) }
}

fn option(identifier: &str, name: &str) -> StateOption {
    StateOption { identifier: identifier.to_owned(), name: name.to_owned() }
}

fn row(key: &str, value: &str) -> InitialLabelRow {
    InitialLabelRow { key: key.to_owned(), value: value.to_owned() }
}

fn pairs(rows: &[InitialLabelRow]) -> Vec<(String, String)> {
    rows.iter().map(|r| (r.key.clone(), r.value.clone())).collect()
}

#[test]
fn rows_are_read_from_objects_with_a_string_key() {
    let entries = vec![
        JsonLabelEntry::Object { key: Some("priority".to_owned()), value: Some("high".to_owned()) },
        JsonLabelEntry::Other,
        JsonLabelEntry::Object { key: None, value: Some("ignored".to_owned()) },
        JsonLabelEntry::Object { key: Some("blocked".to_owned()), value: None },
    ];
    let rows = initial_label_rows_from_entries(Some(entries));
    assert_eq!(
        pairs(&rows),
        vec![
            ("priority".to_owned(), "high".to_owned()),
            ("blocked".to_owned(), String::new()),
        ]
    );
    assert!(initial_label_rows_from_entries(None).is_empty());
}

#[test]
fn blank_values_are_stored_as_nothing() {
    let stored = initial_label_rows_for_storage(&vec![row("priority", "high"), row("blocked", "  ")]);
    assert_eq!(
        stored,
        vec![
            ("priority".to_owned(), Some("high".to_owned())),
            ("blocked".to_owned(), None),
        ]
    );
}

#[test]
fn label_rows_are_shown_as_key_or_key_value() {
    assert_eq!(initial_label_text(&row("priority", "high")), "priority=high");
    assert_eq!(initial_label_text(&row("blocked", " ")), "blocked");
    assert_eq!(initial_label_text(&row("blocked", "")), "blocked");
}

#[test]
fn key_options_are_unique_and_skip_the_state_key() {
    let suggestions = vec![
        suggestion("priority", Some("high")),
        suggestion("state", Some("open")),
        suggestion("area", None),
        suggestion("priority", Some("low")),
    ];
    assert_eq!(initial_label_key_options(&suggestions, "state"), vec!["priority", "area"]);
}

#[test]
fn value_options_follow_the_key() {
    let suggestions = vec![
        suggestion("priority", Some("high")),
        suggestion("priority", None),
        suggestion("area", Some("ui")),
        suggestion("priority", Some("low")),
        suggestion("priority", Some("high")),
    ];
    assert_eq!(suggested_label_values(&suggestions, "priority"), vec!["high", "low"]);
    assert!(suggested_label_values(&suggestions, " priority").is_empty());

    let states = vec![option("open", "Open"), option("done", "Done"), option("open", "Again")];
    let distinct = state_value_options(&states);
    assert_eq!(distinct.len(), 2);
    assert_eq!(distinct[0].name, "Open");
    assert_eq!(distinct[1].identifier, "done");

    match initial_label_value_options(&suggestions, &states, " state ", "state") {
        LabelValueOptions::States(options) => assert_eq!(options.len(), 2),
        LabelValueOptions::Values(_) => panic!("expected the state options"),
    }
    match initial_label_value_options(&suggestions, &states, "priority", "state") {
        LabelValueOptions::Values(values) => assert_eq!(values, vec!["high", "low"]),
        LabelValueOptions::States(_) => panic!("expected suggested values"),
    }
}

#[test]
fn state_display_uses_the_option_name() {
    let states = vec![option("open", "Open"), option("done", "Done"), option("done", "Later")];
    assert_eq!(create_item_state_display(&states, "done"), "Done");
    assert_eq!(create_item_state_display(&states, "unknown"), "unknown");
    assert_eq!(create_item_state_display(&Vec::new(), "open"), "open");
}

#[test]
fn state_choices_mark_the_selected_state() {
    let choices = create_item_state_choices(&vec![option("open", "Open"), option("done", "Done")], "done");
    assert_eq!(choices.len(), 2);
    assert_eq!(choices[0].value, "open");
    assert_eq!(choices[0].text, "Open");
    assert!(!choices[0].selected);
    assert!(choices[1].selected);

    let empty = create_item_state_choices(&Vec::new(), "open");
    assert_eq!(empty.len(), 1);
    assert_eq!(empty[0].value, "");
    assert_eq!(empty[0].text, "No states available");
    assert!(empty[0].selected);
}

#[test]
fn label_suggestion_keys_are_sorted_and_unique() {
    let suggestions = vec![
        suggestion("priority", Some("high")),
        suggestion("area", None),
        suggestion("priority", Some("low")),
        suggestion("Zeta", None),
    ];
    assert_eq!(label_suggestion_keys(&suggestions), vec!["Zeta", "area", "priority"]);
    let states = vec![option("open", "Open"), option("done", "Done")];
    assert_eq!(state_suggestion_values(&states), vec!["open", "done"]);
}

#[test]
fn stored_rows_read_back_with_blank_values_emptied() {
    let rows = vec![row("priority", "high"), row("blocked", "  "), row("area", " ui ")];
    let stored = initial_label_rows_for_storage(&rows);
    let entries = stored
        .into_iter()
        .map(|(key, value)| JsonLabelEntry::Object { key: Some(key), value })
        .collect();
    let read = initial_label_rows_from_entries(Some(entries));
    assert_eq!(
        pairs(&read),
        vec![
            ("priority".to_owned(), "high".to_owned()),
            ("blocked".to_owned(), String::new()),
            ("area".to_owned(), " ui ".to_owned()),
        ]
    );
}
