use vstd::prelude::*;

verus! {

/// The comparison a condition clause applies to a label.
#[derive(Clone, Copy, Debug, PartialEq, Eq, Structural)]
pub enum Operator {
    Equal,
    NotEqual,
    Less,
    LessOrEqual,
    Greater,
    GreaterOrEqual,
    IsIn,
}

/// One item of a JSON list held by a clause: either a JSON string or some other JSON value.
#[derive(Clone, Debug, PartialEq, Eq)]
pub enum JsonArrayItem {
    Text(String),
    NonText,
}

/// The value a condition clause compares a label against.
///
/// `Other` stands for every value kind that the filter editor does not read
/// (numbers, JSON objects, and the like).
#[derive(Clone, Debug, PartialEq, Eq)]
pub enum ConditionClauseValue {
    Text(String),
    Bool(bool),
    JsonNull,
    JsonArray(Vec<JsonArrayItem>),
    Other,
}

/// One rule of a condition: a label (column) name, an operator and a value.
#[derive(Clone, Debug, PartialEq, Eq)]
pub struct ConditionClause {
    pub column_name: String,
    pub operator: Operator,
    pub value: ConditionClauseValue,
}

/// A member of a condition: a clause or a nested condition.
#[derive(Debug, PartialEq, Eq)]
pub enum ConditionElement {
    Clause(ConditionClause),
    Condition(Box<Condition>),
}

/// A boolean combination of clauses: all of them must hold, or any of them.
#[derive(Debug, PartialEq, Eq)]
pub enum Condition {
    All(Vec<ConditionElement>),
    Any(Vec<ConditionElement>),
}

/// The mathematical value of a JSON list item.
pub enum SpecJsonItem {
    Text(Seq<char>),
    NonText,
}

/// The mathematical value of a clause value.
pub enum SpecClauseValue {
    Text(Seq<char>),
    Bool(bool),
    JsonNull,
    JsonArray(Seq<SpecJsonItem>),
    Other,
}

/// The mathematical value of a clause.
pub struct SpecClause {
    pub column_name: Seq<char>,
    pub operator: Operator,
    pub value: SpecClauseValue,
}

/// The mathematical value of a condition element.
pub enum SpecElement {
    Clause(SpecClause),
    Condition(SpecCondition),
}

/// The mathematical value of a condition.
pub enum SpecCondition {
    All(Seq<SpecElement>),
    Any(Seq<SpecElement>),
}

/// The mathematical values of the items of a JSON list.
pub open spec fn json_items_view(items: Seq<JsonArrayItem>) -> Seq<SpecJsonItem> {
    items.map_values(|i: JsonArrayItem| i@)
}

impl View for JsonArrayItem {
    type V = SpecJsonItem;

    open spec fn view(&self) -> SpecJsonItem {
        match self {
            JsonArrayItem::Text(s) => SpecJsonItem::Text(s@),
            JsonArrayItem::NonText => SpecJsonItem::NonText,
        }
    }
}

impl View for ConditionClauseValue {
    type V = SpecClauseValue;

    open spec fn view(&self) -> SpecClauseValue {
        match self {
            ConditionClauseValue::Text(s) => SpecClauseValue::Text(s@),
            ConditionClauseValue::Bool(b) => SpecClauseValue::Bool(*b),
            ConditionClauseValue::JsonNull => SpecClauseValue::JsonNull,
            ConditionClauseValue::JsonArray(items) => SpecClauseValue::JsonArray(
                json_items_view(items@),
            ),
            ConditionClauseValue::Other => SpecClauseValue::Other,
        }
    }
}

impl View for ConditionClause {
    type V = SpecClause;

    open spec fn view(&self) -> SpecClause {
        SpecClause { column_name: self.column_name@, operator: self.operator, value: self.value@ }
    }
}

/// The mathematical value of a condition.
pub open spec fn condition_view(c: Condition) -> SpecCondition
    decreases c,
{
    match c {
        Condition::All(v) => SpecCondition::All(elements_view(v@)),
        Condition::Any(v) => SpecCondition::Any(elements_view(v@)),
    }
}

/// The mathematical values of a sequence of condition elements.
pub open spec fn elements_view(es: Seq<ConditionElement>) -> Seq<SpecElement>
    decreases es,
{
    if es.len() == 0 {
        Seq::empty()
    } else {
        elements_view(es.subrange(0, es.len() - 1)).push(element_view(es[es.len() - 1]))
    }
}

/// The mathematical value of a condition element.
pub open spec fn element_view(e: ConditionElement) -> SpecElement
    decreases e,
{
    match e {
        ConditionElement::Clause(c) => SpecElement::Clause(c@),
        ConditionElement::Condition(b) => SpecElement::Condition(condition_view(*b)),
    }
}

impl View for Condition {
    type V = SpecCondition;

    open spec fn view(&self) -> SpecCondition {
        condition_view(*self)
    }
}

impl View for ConditionElement {
    type V = SpecElement;

    open spec fn view(&self) -> SpecElement {
        element_view(*self)
    }
}

/// `elements_view` maps element by element.
pub proof fn lemma_elements_view(es: Seq<ConditionElement>)
    ensures
        elements_view(es).len() == es.len(),
        forall|i: int| 0 <= i < es.len() ==> #[trigger] elements_view(es)[i] == element_view(es[i]),
    decreases es.len(),
{
    if es.len() > 0 {
        lemma_elements_view(es.subrange(0, es.len() - 1));
    }
}

} // verus!
