use patchbay_server::filter::convert::{
    condition_to_draft, draft_to_condition, FilterClauseDraft, FilterClauseMode, FilterElementDraft,
    FilterGroupDraft,
};
use patchbay_server::filter::draft::FilterGroupKind;
use patchbay_server::filter::matching::{item_matches_condition, ItemLabel};
use patchbay_server::filter::model::{
    Condition, ConditionClause, ConditionClauseValue, ConditionElement, JsonArrayItem, Operator,
};
use patchbay_server::filter::editor::FilterEdit;
use patchbay_server::filter::parse::{filter_display_summary, parse_filter_draft, update_filter_draft};
use patchbay_server::filter::summary::{group_summary, split_list_values};
use serde_json::Value;

fn operator_from_json(text: &str) -> Operator {
    match text {
        "=" => Operator::Equal,
        "!=" => Operator::NotEqual,
        "<" => Operator::Less,
        "<=" => Operator::LessOrEqual,
        ">" => Operator::Greater,
        ">=" => Operator::GreaterOrEqual,
        "is_in" => Operator::IsIn,
        other => panic!("unknown operator {other}"),
    }
}

fn operator_to_json(operator: Operator) -> &'static str {
    match operator {
        Operator::Equal => "=",
        Operator::NotEqual => "!=",
        Operator::Less => "<",
        Operator::LessOrEqual => "<=",
        Operator::Greater => ">",
        Operator::GreaterOrEqual => ">=",
        Operator::IsIn => "is_in",
    }
}

fn value_from_json(value: &Value) -> ConditionClauseValue {
    let object = value.as_object().expect("clause value is an object");
    if let Some(text) = object.get("String") {
        return ConditionClauseValue::Text(text.as_str().unwrap().to_owned());
    }
    if let Some(flag) = object.get("Bool") {
        return ConditionClauseValue::Bool(flag.as_bool().unwrap());
    }
    if let Some(json) = object.get("Json") {
        return match json {
            Value::Null => ConditionClauseValue::JsonNull,
            Value::Array(items) => ConditionClauseValue::JsonArray(
                items
                    .iter()
                    .map(|item| match item.as_str() {
                        Some(text) => JsonArrayItem::Text(text.to_owned()),
                        None => JsonArrayItem::NonText,
                    })
                    .collect(),
            ),
            _ => ConditionClauseValue::Other,
        };
    }
    ConditionClauseValue::Other
}

fn value_to_json(value: &ConditionClauseValue) -> Value {
    let mut object = serde_json::Map::new();
    match value {
        ConditionClauseValue::Text(text) => {
            object.insert("String".to_owned(), Value::String(text.clone()));
        }
        ConditionClauseValue::Bool(flag) => {
            object.insert("Bool".to_owned(), Value::Bool(*flag));
        }
        ConditionClauseValue::JsonNull => {
            object.insert("Json".to_owned(), Value::Null);
        }
        ConditionClauseValue::JsonArray(items) => {
            let items = items
                .iter()
                .map(|item| match item {
                    JsonArrayItem::Text(text) => Value::String(text.clone()),
                    JsonArrayItem::NonText => Value::Bool(true),
                })
                .collect();
            object.insert("Json".to_owned(), Value::Array(items));
        }
        ConditionClauseValue::Other => {
            object.insert("I64".to_owned(), Value::from(0));
        }
    }
    Value::Object(object)
}

fn condition_from_json(value: &Value) -> Condition {
    let object = value.as_object().expect("condition is an object");
    let (key, elements) = object.iter().next().expect("condition has one key");
    let elements = elements
        .as_array()
        .expect("condition elements are a list")
        .iter()
        .map(|element| {
            let fields = element.as_object().unwrap();
            if fields.contains_key("column_name") {
                ConditionElement::Clause(ConditionClause {
                    column_name: fields["column_name"].as_str().unwrap().to_owned(),
                    operator: operator_from_json(fields["operator"].as_str().unwrap()),
                    value: value_from_json(&fields["value"]),
                })
            } else {
                ConditionElement::Condition(Box::new(condition_from_json(element)))
            }
        })
        .collect();
    match key.as_str() {
        "All" => Condition::All(elements),
        "Any" => Condition::Any(elements),
        other => panic!("unknown condition kind {other}"),
    }
}

fn condition_to_json(condition: &Condition) -> Value {
    let (key, elements) = match condition {
        Condition::All(elements) => ("All", elements),
        Condition::Any(elements) => ("Any", elements),
    };
    let elements = elements
        .iter()
        .map(|element| match element {
            ConditionElement::Clause(clause) => {
                let mut fields = serde_json::Map::new();
                fields.insert("column_name".to_owned(), Value::String(clause.column_name.clone()));
                fields.insert(
                    "operator".to_owned(),
                    Value::String(operator_to_json(clause.operator).to_owned()),
                );
                fields.insert("value".to_owned(), value_to_json(&clause.value));
                Value::Object(fields)
            }
            ConditionElement::Condition(inner) => condition_to_json(inner),
        })
        .collect();
    let mut object = serde_json::Map::new();
    object.insert(key.to_owned(), Value::Array(elements));
    Value::Object(object)
}

fn read_condition(raw: &str) -> Result<Condition, String> {
    serde_json::from_str::<Value>(raw.trim())
        .map(|value| condition_from_json(&value))
        .map_err(|err| err.to_string())
}

fn parse(raw: &str) -> Result<FilterGroupDraft, String> {
    let reading = if raw.trim().is_empty() {
        Err(String::new())
    } else {
        read_condition(raw)
    };
    parse_filter_draft(raw, reading)
}

fn parsed(raw: &str) -> FilterGroupDraft {
    parse(raw).unwrap()
}

fn serialize_filter_draft(draft: &FilterGroupDraft) -> String {
    condition_to_json(&draft_to_condition(draft)).to_string()
}

fn serialized_condition(draft: &FilterGroupDraft) -> Condition {
    read_condition(&serialize_filter_draft(draft)).unwrap()
}

fn clause(key: &str, mode: FilterClauseMode) -> FilterElementDraft {
    FilterElementDraft::Clause(FilterClauseDraft {
        key: key.to_owned(),
        mode,
    })
}

#[test]
fn empty_filter_parses_as_match_all() {
    assert_eq!(parse("").unwrap(), FilterGroupDraft::match_all());
    assert_eq!(
        serialized_condition(&FilterGroupDraft::match_all()),
        Condition::All(Vec::new())
    );
}

#[test]
fn nested_groups_round_trip() {
    let raw = r#"{"All":[{"column_name":"state","operator":"=","value":{"String":"open"}},{"Any":[{"column_name":"priority","operator":"=","value":{"String":"high"}},{"column_name":"needs-verification","operator":"=","value":{"Bool":true}}]}]}"#;
    let draft = parsed(raw);

    assert_eq!(
        draft,
        FilterGroupDraft {
            kind: FilterGroupKind::All,
            elements: vec![
                clause(
                    "state",
                    FilterClauseMode::Equals {
                        value: "open".to_owned()
                    }
                ),
                FilterElementDraft::Group(FilterGroupDraft {
                    kind: FilterGroupKind::Any,
                    elements: vec![
                        clause(
                            "priority",
                            FilterClauseMode::Equals {
                                value: "high".to_owned()
                            }
                        ),
                        clause("needs-verification", FilterClauseMode::Present),
                    ],
                }),
            ],
        }
    );

    assert_eq!(serialized_condition(&draft), read_condition(raw).unwrap());
}

#[test]
fn supported_clause_value_modes_round_trip() {
    let draft = FilterGroupDraft {
        kind: FilterGroupKind::All,
        elements: vec![
            clause(
                "state",
                FilterClauseMode::Equals {
                    value: "open".to_owned(),
                },
            ),
            clause(
                "priority",
                FilterClauseMode::NotEquals {
                    value: "low".to_owned(),
                },
            ),
            clause("needs-verification", FilterClauseMode::Present),
            clause("patchbay:automation-blocked", FilterClauseMode::Absent),
            clause("flag", FilterClauseMode::HasNoValue),
            clause("valued", FilterClauseMode::HasValueOrAbsent),
            clause(
                "severity",
                FilterClauseMode::IsIn {
                    values: vec!["critical".to_owned(), "high".to_owned()],
                },
            ),
        ],
    };

    let condition = serialized_condition(&draft);
    assert_eq!(
        condition,
        Condition::All(vec![
            ConditionElement::Clause(ConditionClause {
                column_name: "state".to_owned(),
                operator: Operator::Equal,
                value: ConditionClauseValue::Text("open".to_owned()),
            }),
            ConditionElement::Clause(ConditionClause {
                column_name: "priority".to_owned(),
                operator: Operator::NotEqual,
                value: ConditionClauseValue::Text("low".to_owned()),
            }),
            ConditionElement::Clause(ConditionClause {
                column_name: "needs-verification".to_owned(),
                operator: Operator::Equal,
                value: ConditionClauseValue::Bool(true),
            }),
            ConditionElement::Clause(ConditionClause {
                column_name: "patchbay:automation-blocked".to_owned(),
                operator: Operator::Equal,
                value: ConditionClauseValue::Bool(false),
            }),
            ConditionElement::Clause(ConditionClause {
                column_name: "flag".to_owned(),
                operator: Operator::Equal,
                value: ConditionClauseValue::JsonNull,
            }),
            ConditionElement::Clause(ConditionClause {
                column_name: "valued".to_owned(),
                operator: Operator::NotEqual,
                value: ConditionClauseValue::JsonNull,
            }),
            ConditionElement::Clause(ConditionClause {
                column_name: "severity".to_owned(),
                operator: Operator::IsIn,
                value: ConditionClauseValue::JsonArray(vec![
                    JsonArrayItem::Text("critical".to_owned()),
                    JsonArrayItem::Text("high".to_owned()),
                ]),
            }),
        ])
    );
    assert_eq!(parsed(&serialize_filter_draft(&draft)), draft);
}

#[test]
fn bool_not_equal_parses_to_equivalent_presence_modes() {
    let raw = r#"{"All":[{"column_name":"ready","operator":"!=","value":{"Bool":false}},{"column_name":"blocked","operator":"!=","value":{"Bool":true}}]}"#;

    assert_eq!(
        parsed(raw),
        FilterGroupDraft {
            kind: FilterGroupKind::All,
            elements: vec![
                clause("ready", FilterClauseMode::Present),
                clause("blocked", FilterClauseMode::Absent),
            ],
        }
    );
}

#[test]
fn unsupported_condition_reports_actionable_error() {
    let error = parse(
        r#"{"All":[{"column_name":"state","operator":">","value":{"String":"open"}}]}"#,
    )
    .unwrap_err();

    assert!(error.contains("unsupported operator '>'"));
}

#[test]
fn list_values_split_on_commas_and_newlines() {
    assert_eq!(
        split_list_values("critical, high\nlow,, "),
        vec!["critical", "high", "low"]
    );
}

#[test]
fn unreadable_filter_json_is_reported_with_the_reader_message() {
    let error = parse_filter_draft("{not json", Err("key must be a string".to_owned())).unwrap_err();
    assert_eq!(error, "expected CrudKit Condition JSON (key must be a string)");
}

#[test]
fn blank_filter_ignores_the_reading() {
    assert_eq!(
        parse_filter_draft("   ", Err("ignored".to_owned())).unwrap(),
        FilterGroupDraft::match_all()
    );
}

#[test]
fn is_in_with_non_string_item_is_rejected() {
    let condition = Condition::All(vec![ConditionElement::Clause(ConditionClause {
        column_name: "severity".to_owned(),
        operator: Operator::IsIn,
        value: ConditionClauseValue::JsonArray(vec![JsonArrayItem::NonText]),
    })]);
    assert_eq!(
        condition_to_draft(&condition).unwrap_err(),
        "label 'severity' uses is_in with a non-string list value"
    );
}

#[test]
fn is_in_without_a_list_is_rejected() {
    let condition = Condition::All(vec![ConditionElement::Clause(ConditionClause {
        column_name: "severity".to_owned(),
        operator: Operator::IsIn,
        value: ConditionClauseValue::Text("high".to_owned()),
    })]);
    assert_eq!(
        condition_to_draft(&condition).unwrap_err(),
        "label 'severity' uses is_in without a string list"
    );
}

#[test]
fn summaries_describe_groups_and_clauses() {
    let raw = r#"{"Any":[{"column_name":"state","operator":"=","value":{"String":"open"}},{"All":[{"column_name":"flag","operator":"=","value":{"Bool":false}},{"column_name":"valued","operator":"!=","value":{"Json":null}}]}]}"#;
    let summary = filter_display_summary(raw, read_condition(raw));
    assert_eq!(summary, "state is open or (flag absent and valued has a value or is absent)");
    assert_eq!(group_summary(&FilterGroupDraft::match_all()), "Match all");
    let bad = r#"{"All":[{"column_name":"state","operator":"<","value":{"String":"1"}}]}"#;
    assert_eq!(filter_display_summary(bad, read_condition(bad)), bad);
}

fn label(key: &str, value: Option<&str>) -> ItemLabel {
    ItemLabel {
        key: key.to_owned(),
        value: value.map(ToOwned::to_owned),
    }
}

#[test]
fn lane_conditions_match_item_labels() {
    let labels = vec![label("state", Some("open")), label("flag", None), label("severity", Some("high"))];
    let condition = read_condition(
        r#"{"All":[{"column_name":" state ","operator":"=","value":{"String":"open"}},{"column_name":"flag","operator":"=","value":{"Json":null}},{"column_name":"severity","operator":"is_in","value":{"Json":["critical","high"]}}]}"#,
    )
    .unwrap();
    assert!(item_matches_condition(&labels, &condition));

    let any = read_condition(
        r#"{"Any":[{"column_name":"state","operator":"!=","value":{"String":"open"}},{"column_name":"missing","operator":"=","value":{"Bool":true}}]}"#,
    )
    .unwrap();
    assert!(!item_matches_condition(&labels, &any));

    let absent = read_condition(
        r#"{"All":[{"column_name":"missing","operator":"!=","value":{"Json":null}},{"column_name":"missing","operator":"=","value":{"Bool":false}}]}"#,
    )
    .unwrap();
    assert!(item_matches_condition(&labels, &absent));
    assert!(item_matches_condition(&labels, &Condition::All(Vec::new())));
    assert!(!item_matches_condition(&labels, &Condition::Any(Vec::new())));
}

#[test]
fn editing_a_stored_filter_gives_the_condition_to_store() {
    let added = update_filter_draft("", read_condition(""), &vec![], &FilterEdit::AddClause);
    assert_eq!(
        added,
        Condition::All(vec![ConditionElement::Clause(ConditionClause {
            column_name: String::new(),
            operator: Operator::Equal,
            value: ConditionClauseValue::Text(String::new()),
        })])
    );

    let unreadable = update_filter_draft("{not json", read_condition("{not json"), &vec![], &FilterEdit::SetKind(FilterGroupKind::Any));
    assert_eq!(unreadable, Condition::Any(vec![]));

    let raw = r#"{"All":[{"column_name":"state","operator":"=","value":{"String":"open"}}]}"#;
    let switched = update_filter_draft(raw, read_condition(raw), &vec![], &FilterEdit::SetKind(FilterGroupKind::Any));
    assert_eq!(
        switched,
        Condition::Any(vec![ConditionElement::Clause(ConditionClause {
            column_name: "state".to_owned(),
            operator: Operator::Equal,
            value: ConditionClauseValue::Text("open".to_owned()),
        })])
    );
}
