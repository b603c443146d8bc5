use vstd::prelude::*;

use crate::filter::model::{Operator, SpecClause, SpecClauseValue, SpecCondition, SpecElement, SpecJsonItem};

verus! {

/// How a filter group combines its members.
#[derive(Clone, Copy, Debug, PartialEq, Eq, Structural)]
pub enum FilterGroupKind {
    All,
    Any,
}

/// The mathematical value of a clause's mode.
pub enum DraftMode {
    Equals(Seq<char>),
    NotEquals(Seq<char>),
    Present,
    Absent,
    HasNoValue,
    HasValueOrAbsent,
    IsIn(Seq<Seq<char>>),
}

/// The mathematical value of a filter clause: a label key and a mode.
pub struct DraftClause {
    pub key: Seq<char>,
    pub mode: DraftMode,
}

/// The mathematical value of a filter group member.
pub enum DraftElement {
    Group(DraftGroup),
    Clause(DraftClause),
}

/// The mathematical value of a filter group.
pub struct DraftGroup {
    pub kind: FilterGroupKind,
    pub elements: Seq<DraftElement>,
}

/// The label an operator is shown with in messages.
pub open spec fn operator_text(op: Operator) -> Seq<char> {
    match op {
        Operator::Equal => "="@,
        Operator::NotEqual => "!="@,
        Operator::Less => "<"@,
        Operator::LessOrEqual => "<="@,
        Operator::Greater => ">"@,
        Operator::GreaterOrEqual => ">="@,
        Operator::IsIn => "is_in"@,
    }
}

/// Message for an `is_in` list that holds a value other than a string.
pub open spec fn non_string_list_error(column: Seq<char>) -> Seq<char> {
    "label '"@ + column + "' uses is_in with a non-string list value"@
}

/// Message for an `is_in` clause whose value is not a list.
pub open spec fn missing_list_error(column: Seq<char>) -> Seq<char> {
    "label '"@ + column + "' uses is_in without a string list"@
}

/// Message for a clause the filter editor cannot show.
pub open spec fn unsupported_operator_error(column: Seq<char>, op: Operator) -> Seq<char> {
    "label '"@ + column + "' uses unsupported operator '"@ + operator_text(op) + "'"@
}

/// The strings of a JSON list, or `None` when some item is not a string.
pub open spec fn json_texts(items: Seq<SpecJsonItem>) -> Option<Seq<Seq<char>>>
    decreases items.len(),
{
    if items.len() == 0 {
        Some(Seq::empty())
    } else {
        match json_texts(items.subrange(0, items.len() - 1)) {
            None => None,
            Some(prev) => match items[items.len() - 1] {
                SpecJsonItem::Text(t) => Some(prev.push(t)),
                SpecJsonItem::NonText => None,
            },
        }
    }
}

/// The editor mode a clause stands for, or the message explaining why it has none.
pub open spec fn clause_mode(c: SpecClause) -> Result<DraftMode, Seq<char>> {
    match (c.operator, c.value) {
        (Operator::Equal, SpecClauseValue::Text(v)) => Ok(DraftMode::Equals(v)),
        (Operator::NotEqual, SpecClauseValue::Text(v)) => Ok(DraftMode::NotEquals(v)),
        (Operator::Equal, SpecClauseValue::Bool(b)) => Ok(
            if b {
                DraftMode::Present
            } else {
                DraftMode::Absent
            },
        ),
        (Operator::NotEqual, SpecClauseValue::Bool(b)) => Ok(
            if b {
                DraftMode::Absent
            } else {
                DraftMode::Present
            },
        ),
        (Operator::Equal, SpecClauseValue::JsonNull) => Ok(DraftMode::HasNoValue),
        (Operator::NotEqual, SpecClauseValue::JsonNull) => Ok(DraftMode::HasValueOrAbsent),
        (Operator::IsIn, SpecClauseValue::JsonArray(items)) => match json_texts(items) {
            Some(vs) => Ok(DraftMode::IsIn(vs)),
            None => Err(non_string_list_error(c.column_name)),
        },
        (Operator::IsIn, _) => Err(missing_list_error(c.column_name)),
        (op, _) => Err(unsupported_operator_error(c.column_name, op)),
    }
}

/// The editor clause a condition clause stands for.
pub open spec fn draft_of_clause(c: SpecClause) -> Result<DraftClause, Seq<char>> {
    match clause_mode(c) {
        Ok(mode) => Ok(DraftClause { key: c.column_name, mode }),
        Err(e) => Err(e),
    }
}

/// The editor group a condition stands for; the first unsupported clause, in
/// reading order, gives the error.
pub open spec fn draft_of_condition(c: SpecCondition) -> Result<DraftGroup, Seq<char>>
    decreases c,
{
    match c {
        SpecCondition::All(es) => match draft_elements_of(es) {
            Ok(ds) => Ok(DraftGroup { kind: FilterGroupKind::All, elements: ds }),
            Err(e) => Err(e),
        },
        SpecCondition::Any(es) => match draft_elements_of(es) {
            Ok(ds) => Ok(DraftGroup { kind: FilterGroupKind::Any, elements: ds }),
            Err(e) => Err(e),
        },
    }
}

/// The editor members for a sequence of condition elements.
pub open spec fn draft_elements_of(es: Seq<SpecElement>) -> Result<Seq<DraftElement>, Seq<char>>
    decreases es,
{
    if es.len() == 0 {
        Ok(Seq::empty())
    } else {
        match draft_elements_of(es.subrange(0, es.len() - 1)) {
            Err(e) => Err(e),
            Ok(prev) => match draft_element_of(es[es.len() - 1]) {
                Err(e) => Err(e),
                Ok(d) => Ok(prev.push(d)),
            },
        }
    }
}

/// The editor member for a condition element.
pub open spec fn draft_element_of(e: SpecElement) -> Result<DraftElement, Seq<char>>
    decreases e,
{
    match e {
        SpecElement::Clause(c) => match draft_of_clause(c) {
            Ok(d) => Ok(DraftElement::Clause(d)),
            Err(m) => Err(m),
        },
        SpecElement::Condition(c) => match draft_of_condition(c) {
            Ok(g) => Ok(DraftElement::Group(g)),
            Err(m) => Err(m),
        },
    }
}

/// The JSON list of strings for the values of an `is_in` clause.
pub open spec fn texts_to_json(vs: Seq<Seq<char>>) -> Seq<SpecJsonItem> {
    vs.map_values(|v: Seq<char>| SpecJsonItem::Text(v))
}

/// The condition clause an editor clause stands for.
pub open spec fn clause_of_draft(d: DraftClause) -> SpecClause {
    let (operator, value) = match d.mode {
        DraftMode::Equals(v) => (Operator::Equal, SpecClauseValue::Text(v)),
        DraftMode::NotEquals(v) => (Operator::NotEqual, SpecClauseValue::Text(v)),
        DraftMode::Present => (Operator::Equal, SpecClauseValue::Bool(true)),
        DraftMode::Absent => (Operator::Equal, SpecClauseValue::Bool(false)),
        DraftMode::HasNoValue => (Operator::Equal, SpecClauseValue::JsonNull),
        DraftMode::HasValueOrAbsent => (Operator::NotEqual, SpecClauseValue::JsonNull),
        DraftMode::IsIn(vs) => (Operator::IsIn, SpecClauseValue::JsonArray(texts_to_json(vs))),
    };
    SpecClause { column_name: d.key, operator, value }
}

/// The condition an editor group stands for.
pub open spec fn condition_of_draft(g: DraftGroup) -> SpecCondition
    decreases g,
{
    match g.kind {
        FilterGroupKind::All => SpecCondition::All(condition_elements_of_draft(g.elements)),
        FilterGroupKind::Any => SpecCondition::Any(condition_elements_of_draft(g.elements)),
    }
}

/// The condition elements for a sequence of editor members.
pub open spec fn condition_elements_of_draft(ds: Seq<DraftElement>) -> Seq<SpecElement>
    decreases ds,
{
    if ds.len() == 0 {
        Seq::empty()
    } else {
        condition_elements_of_draft(ds.subrange(0, ds.len() - 1)).push(
            condition_element_of_draft(ds[ds.len() - 1]),
        )
    }
}

/// The condition element for an editor member.
pub open spec fn condition_element_of_draft(d: DraftElement) -> SpecElement
    decreases d,
{
    match d {
        DraftElement::Clause(c) => SpecElement::Clause(clause_of_draft(c)),
        DraftElement::Group(g) => SpecElement::Condition(condition_of_draft(g)),
    }
}

} // verus!
