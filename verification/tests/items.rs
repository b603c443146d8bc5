use patchbay_server::items::lanes::{
    default_swim_lanes, ensure_personality_name_available, normalize_identifier,
    normalize_lane_name, normalize_personality_name, personality_description_for_prompt,
    validate_personality_delete,
};
use patchbay_server::items::relationships::{
    check_new_relationship,
    direction_for_item, ensure_no_duplicate, ensure_not_self,
    ensure_requested_item_touches_relationship, normalize_kind, relationship_item_ids,
    relationships_to_views, touched_items, created_source_event_body, created_target_event_body,
    deleted_event_body, updated_event_body, ItemSummary, RelationshipDirection, RelationshipError,
    RelationshipRecord,
};
use patchbay_server::items::updates::{
    normalize_state_value, validate_item_text, ItemUpdateError, UpdateWorkItem, WorkItemRecord,
    WorkItemUpdatePlan,
};

fn work_item() -> WorkItemRecord {
    WorkItemRecord {
        id: 7,
        project_id: 3,
        title: "Existing title".to_owned(),
        description: "Existing description".to_owned(),
        claimed_by: None,
        claimed_at: None,
        claim_expires_at: None,
        finished_at: None,
        agent_model_override: Some("gpt-5.1".to_owned()),
        agent_reasoning_effort_override: Some("medium".to_owned()),
        version: 4,
        created_at: "2026-06-19T00:00:00Z".to_owned(),
        updated_at: "2026-06-19T00:00:00Z".to_owned(),
    }
}

#[test]
fn empty_update_is_rejected_before_applying_to_model() {
    let err = WorkItemUpdatePlan::new(UpdateWorkItem::default()).unwrap_err();

    assert!(err.message().contains("requires at least one field"));
}

#[test]
fn state_update_is_normalized_without_recording_item_field_event() {
    let plan = WorkItemUpdatePlan::new(UpdateWorkItem {
        state: Some(" review ".to_owned()),
        expect_version: Some(4),
        ..UpdateWorkItem::default()
    })
    .unwrap();

    assert_eq!(plan.expect_version(), Some(4));

    let applied = plan.apply_to(work_item()).unwrap();

    assert_eq!(applied.state.as_deref(), Some("review"));
    assert!(!applied.record_item_updated_event);
    assert_eq!(applied.item.version, 5);
}

#[test]
fn model_override_clear_counts_as_item_field_update() {
    let plan = WorkItemUpdatePlan::new(UpdateWorkItem {
        agent_model_override: Some(None),
        ..UpdateWorkItem::default()
    })
    .unwrap();

    let applied = plan.apply_to(work_item()).unwrap();

    assert!(applied.record_item_updated_event);
    assert_eq!(applied.item.agent_model_override, None);
    assert_eq!(applied.item.version, 5);
}

#[test]
fn text_update_validates_effective_title_and_description() {
    let plan = WorkItemUpdatePlan::new(UpdateWorkItem {
        title: Some("  ".to_owned()),
        ..UpdateWorkItem::default()
    })
    .unwrap();

    let err = plan.apply_to(work_item()).unwrap_err();

    assert!(err.message().contains("item title cannot be empty"));
}

#[test]
fn blank_state_is_rejected_and_fields_are_kept() {
    let err = WorkItemUpdatePlan::new(UpdateWorkItem {
        state: Some("   ".to_owned()),
        title: Some("New".to_owned()),
        ..UpdateWorkItem::default()
    })
    .unwrap_err();
    assert_eq!(err, ItemUpdateError::InvalidState);
    assert_eq!(normalize_state_value(" done ".to_owned()).unwrap(), "done");
    assert_eq!(validate_item_text("t", " "), Err(ItemUpdateError::EmptyDescription));

    let plan = WorkItemUpdatePlan::new(UpdateWorkItem {
        description: Some("New description".to_owned()),
        agent_model_override: Some(Some("  gpt-5.2 ".to_owned())),
        ..UpdateWorkItem::default()
    })
    .unwrap();
    let applied = plan.apply_to(work_item()).unwrap();
    assert_eq!(applied.item.title, "Existing title");
    assert_eq!(applied.item.description, "New description");
    assert_eq!(applied.item.agent_model_override.as_deref(), Some("gpt-5.2"));
    assert_eq!(applied.item.agent_reasoning_effort_override.as_deref(), Some("medium"));
    assert_eq!(applied.item.created_at, "2026-06-19T00:00:00Z");
}

fn rel(id: i64, source: i64, target: i64, kind: &str) -> RelationshipRecord {
    RelationshipRecord {
        id,
        project_id: 1,
        kind: kind.to_owned(),
        source_work_item_id: source,
        target_work_item_id: target,
        created_at: "c".to_owned(),
        updated_at: "u".to_owned(),
    }
}

fn summary(id: i64, title: &str) -> ItemSummary {
    ItemSummary {
        id,
        title: title.to_owned(),
        state: Some("open".to_owned()),
        version: 1,
    }
}

#[test]
fn relationship_rules() {
    assert_eq!(normalize_kind("  blocks ".to_owned()).unwrap(), "blocks");
    assert_eq!(normalize_kind("   ".to_owned()).unwrap_err().message(), "relationship kind cannot be empty");
    assert_eq!(
        ensure_not_self(3, 3).unwrap_err().message(),
        "relationship source and target work items must differ"
    );
    assert!(ensure_not_self(3, 4).is_ok());
    assert_eq!(
        ensure_no_duplicate(true, 1, 2, "relates").unwrap_err().message(),
        "duplicate relationship already exists for source item 1, target item 2, and kind 'relates'"
    );
    let r = rel(5, 1, 2, "blocks");
    assert!(ensure_requested_item_touches_relationship(Some(2), &r).is_ok());
    assert_eq!(
        ensure_requested_item_touches_relationship(Some(9), &r).unwrap_err().message(),
        "relationship 5 does not touch item 9"
    );
    assert_eq!(direction_for_item(&r, 1), RelationshipDirection::Outgoing);
    assert_eq!(direction_for_item(&r, 2), RelationshipDirection::Incoming);
    assert_eq!(touched_items(1, 2), vec![1, 2]);
    assert_eq!(touched_items(4, 4), vec![4]);
    assert_eq!(created_source_event_body(1, "blocks", 2), "Created relationship #1 blocks #2");
    assert_eq!(created_target_event_body(1, "blocks"), "Created incoming relationship from #1: blocks");
    assert_eq!(updated_event_body(5, "unblocks"), "Updated relationship #5 kind to unblocks");
    assert_eq!(deleted_event_body(&r), "Deleted relationship #5: #1 blocks #2");
}

#[test]
fn relationship_views_use_item_summaries() {
    let rels = vec![rel(5, 3, 1, "blocks"), rel(6, 1, 2, "relates")];
    assert_eq!(relationship_item_ids(&rels), vec![1, 2, 3]);
    let sums = vec![summary(1, "One"), summary(2, "Two"), summary(3, "Old three"), summary(3, "Three")];
    let views = relationships_to_views(&rels, &sums).unwrap();
    assert_eq!(views.len(), 2);
    assert_eq!(views[0].source.title, "Three");
    assert_eq!(views[0].target.title, "One");
    assert_eq!(views[1].kind, "relates");
    let missing = relationships_to_views(&rels, &vec![summary(1, "One"), summary(3, "Three")]);
    assert!(matches!(missing, Err(RelationshipError::MissingTarget(6, 2))));
}

#[test]
fn lanes_and_personalities() {
    assert_eq!(normalize_identifier(" in_progress ".to_owned()).unwrap(), "in_progress");
    assert_eq!(
        normalize_identifier("a=b".to_owned()).unwrap_err().message(),
        "swim-lane identifier cannot contain '='"
    );
    assert_eq!(normalize_identifier(" ".to_owned()).unwrap_err().message(), "swim-lane identifier cannot be empty");
    assert_eq!(normalize_lane_name(" ".to_owned()).unwrap_err().message(), "swim-lane name cannot be empty");
    let lanes = default_swim_lanes();
    let names: Vec<(&str, &str, i64)> = lanes
        .iter()
        .map(|lane| (lane.identifier.as_str(), lane.name.as_str(), lane.position))
        .collect();
    assert_eq!(
        names,
        vec![("idea", "Idea", 10), ("open", "Open", 20), ("in_progress", "In progress", 30), ("done", "Done", 40)]
    );
    assert_eq!(normalize_personality_name(" Review ".to_owned()).unwrap(), "Review");
    assert_eq!(
        validate_personality_delete("Default", None).unwrap_err().message(),
        "the Default personality cannot be deleted"
    );
    assert!(validate_personality_delete("Review", Some("Review work"))
        .unwrap_err()
        .message()
        .contains("referenced by automation trigger"));
    assert!(validate_personality_delete("Review", None).is_ok());
    assert_eq!(
        ensure_personality_name_available("Review", true).unwrap_err().message(),
        "personality name 'Review' already exists in this project"
    );
    assert_eq!(personality_description_for_prompt(Some("  ".to_owned())), None);
    assert_eq!(personality_description_for_prompt(Some("Careful".to_owned())), Some("Careful".to_owned()));
}

#[test]
fn new_relationships_are_checked_in_order() {
    let ok = check_new_relationship(" relates ".to_owned(), 1, 2, true, true, false).unwrap();
    assert_eq!(ok, "relates");
    let msg = |r: Result<String, RelationshipError>| r.unwrap_err().message();
    assert!(msg(check_new_relationship(" ".to_owned(), 1, 1, false, false, true)).contains("kind cannot be empty"));
    assert_eq!(msg(check_new_relationship("x".to_owned(), 1, 1, false, true, false)), "item 1 does not exist in this project");
    assert!(msg(check_new_relationship("x".to_owned(), 1, 1, true, true, false)).contains("must differ"));
    assert_eq!(msg(check_new_relationship("x".to_owned(), 1, 2, true, false, true)), "item 2 does not exist in this project");
    assert!(msg(check_new_relationship("relates".to_owned(), 1, 2, true, true, true)).contains("duplicate relationship"));
}
