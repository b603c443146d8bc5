use vstd::prelude::*;

use crate::filter::draft::{
    clause_mode, clause_of_draft, condition_element_of_draft, condition_elements_of_draft,
    condition_of_draft, draft_element_of, draft_elements_of, draft_of_clause, draft_of_condition,
    json_texts, missing_list_error, non_string_list_error, operator_text, texts_to_json,
    unsupported_operator_error, DraftClause, DraftElement, DraftGroup, DraftMode, FilterGroupKind,
};
use crate::text::copy_string;
use crate::filter::model::{
    condition_view, element_view, elements_view, json_items_view, Condition, ConditionClause,
    ConditionClauseValue, ConditionElement, JsonArrayItem, Operator, SpecClause, SpecClauseValue,
    SpecCondition, SpecElement, SpecJsonItem,
};

verus! {

broadcast use vstd::std_specs::vec::group_vec_axioms;

/// What an editor clause does with its label.
#[derive(Clone, Debug, PartialEq, Eq)]
pub enum FilterClauseMode {
    Equals { value: String },
    NotEquals { value: String },
    Present,
    Absent,
    HasNoValue,
    HasValueOrAbsent,
    IsIn { values: Vec<String> },
}

/// One clause of the structured filter editor: a label key and a mode.
#[derive(Clone, Debug, PartialEq, Eq)]
pub struct FilterClauseDraft {
    pub key: String,
    pub mode: FilterClauseMode,
}

/// A member of an editor group.
#[derive(Debug, PartialEq, Eq)]
pub enum FilterElementDraft {
    Group(FilterGroupDraft),
    Clause(FilterClauseDraft),
}

/// A group of the structured filter editor.
#[derive(Debug, PartialEq, Eq)]
pub struct FilterGroupDraft {
    pub kind: FilterGroupKind,
    pub elements: Vec<FilterElementDraft>,
}

/// The strings of `v`, as mathematical sequences.
pub open spec fn strings_view(v: Seq<String>) -> Seq<Seq<char>> {
    v.map_values(|s: String| s@)
}

impl View for FilterClauseMode {
    type V = DraftMode;

    open spec fn view(&self) -> DraftMode {
        match self {
            FilterClauseMode::Equals { value } => DraftMode::Equals(value@),
            FilterClauseMode::NotEquals { value } => DraftMode::NotEquals(value@),
            FilterClauseMode::Present => DraftMode::Present,
            FilterClauseMode::Absent => DraftMode::Absent,
            FilterClauseMode::HasNoValue => DraftMode::HasNoValue,
            FilterClauseMode::HasValueOrAbsent => DraftMode::HasValueOrAbsent,
            FilterClauseMode::IsIn { values } => DraftMode::IsIn(strings_view(values@)),
        }
    }
}

impl View for FilterClauseDraft {
    type V = DraftClause;

    open spec fn view(&self) -> DraftClause {
        DraftClause { key: self.key@, mode: self.mode@ }
    }
}

/// The mathematical value of an editor group.
pub open spec fn group_view(g: FilterGroupDraft) -> DraftGroup
    decreases g,
{
    DraftGroup { kind: g.kind, elements: draft_elements_view(g.elements@) }
}

/// The mathematical values of a sequence of editor members.
pub open spec fn draft_elements_view(ds: Seq<FilterElementDraft>) -> Seq<DraftElement>
    decreases ds,
{
    if ds.len() == 0 {
        Seq::empty()
    } else {
        draft_elements_view(ds.subrange(0, ds.len() - 1)).push(
            draft_element_view(ds[ds.len() - 1]),
        )
    }
}

/// The mathematical value of an editor member.
pub open spec fn draft_element_view(d: FilterElementDraft) -> DraftElement
    decreases d,
{
    match d {
        FilterElementDraft::Group(g) => DraftElement::Group(group_view(g)),
        FilterElementDraft::Clause(c) => DraftElement::Clause(c@),
    }
}

impl View for FilterGroupDraft {
    type V = DraftGroup;

    open spec fn view(&self) -> DraftGroup {
        group_view(*self)
    }
}

impl View for FilterElementDraft {
    type V = DraftElement;

    open spec fn view(&self) -> DraftElement {
        draft_element_view(*self)
    }
}

/// The view of an editor result, with the error as a character sequence.
pub open spec fn draft_result_view(r: Result<FilterGroupDraft, String>) -> Result<DraftGroup, Seq<char>> {
    match r {
        Ok(g) => Ok(g@),
        Err(e) => Err(e@),
    }
}

proof fn lemma_draft_elements_view_push(ds: Seq<FilterElementDraft>, d: FilterElementDraft)
    ensures
        draft_elements_view(ds.push(d)) == draft_elements_view(ds).push(draft_element_view(d)),
{
    assert(ds.push(d).subrange(0, ds.len() as int) =~= ds);
}

proof fn lemma_elements_view_push(es: Seq<ConditionElement>, e: ConditionElement)
    ensures
        elements_view(es.push(e)) == elements_view(es).push(element_view(e)),
{
    assert(es.push(e).subrange(0, es.len() as int) =~= es);
}

proof fn lemma_condition_elements_of_draft_push(ds: Seq<DraftElement>, d: DraftElement)
    ensures
        condition_elements_of_draft(ds.push(d)) == condition_elements_of_draft(ds).push(
            condition_element_of_draft(d),
        ),
{
    assert(ds.push(d).subrange(0, ds.len() as int) =~= ds);
}

proof fn lemma_draft_elements_of_push(es: Seq<SpecElement>, e: SpecElement)
    ensures
        draft_elements_of(es.push(e)) == match draft_elements_of(es) {
            Err(m) => Err(m),
            Ok(prev) => match draft_element_of(e) {
                Err(m) => Err(m),
                Ok(d) => Ok(prev.push(d)),
            },
        },
{
    assert(es.push(e).subrange(0, es.len() as int) =~= es);
}

proof fn lemma_json_texts_push(items: Seq<SpecJsonItem>, it: SpecJsonItem)
    ensures
        json_texts(items.push(it)) == match json_texts(items) {
            None => None,
            Some(prev) => match it {
                SpecJsonItem::Text(t) => Some(prev.push(t)),
                SpecJsonItem::NonText => None,
            },
        },
{
    assert(items.push(it).subrange(0, items.len() as int) =~= items);
}

/// The label an operator is shown with in messages.
pub fn operator_label(operator: Operator) -> (label: &'static str)
    ensures
        label@ == operator_text(operator),
{
    match operator {
        Operator::Equal => "=",
        Operator::NotEqual => "!=",
        Operator::Less => "<",
        Operator::LessOrEqual => "<=",
        Operator::Greater => ">",
        Operator::GreaterOrEqual => ">=",
        Operator::IsIn => "is_in",
    }
}


/// The condition clause an editor clause is saved as.
pub fn draft_clause_to_condition(clause: &FilterClauseDraft) -> (c: ConditionClause)
    ensures
        c@ == clause_of_draft(clause@),
{
    let (operator, value) = match &clause.mode {
        FilterClauseMode::Equals { value } => (Operator::Equal, ConditionClauseValue::Text(copy_string(value))),
        FilterClauseMode::NotEquals { value } => (Operator::NotEqual, ConditionClauseValue::Text(copy_string(value))),
        FilterClauseMode::Present => (Operator::Equal, ConditionClauseValue::Bool(true)),
        FilterClauseMode::Absent => (Operator::Equal, ConditionClauseValue::Bool(false)),
        FilterClauseMode::HasNoValue => (Operator::Equal, ConditionClauseValue::JsonNull),
        FilterClauseMode::HasValueOrAbsent => (Operator::NotEqual, ConditionClauseValue::JsonNull),
        FilterClauseMode::IsIn { values } => {
            let mut items: Vec<JsonArrayItem> = Vec::new();
            let mut i: usize = 0;
            while i < values.len()
                invariant
                    i <= values.len(),
                    json_items_view(items@) == texts_to_json(
                        strings_view(values@).take(i as int),
                    ),
                decreases values.len() - i,
            {
                let ghost before = items@;
                let t = copy_string(&values[i]);
                items.push(JsonArrayItem::Text(t));
                proof {
                    assert(items@ =~= before.push(JsonArrayItem::Text(t)));
                    assert(json_items_view(items@) =~= before.map_values(
                        |it: JsonArrayItem| it@,
                    ).push(SpecJsonItem::Text(t@)));
                    assert(strings_view(values@).take(i + 1) =~= strings_view(values@).take(
                        i as int,
                    ).push(values@[i as int]@));
                    assert(texts_to_json(strings_view(values@).take(i + 1)) =~= texts_to_json(
                        strings_view(values@).take(i as int),
                    ).push(SpecJsonItem::Text(values@[i as int]@)));
                }
                i = i + 1;
            }
            assert(strings_view(values@).take(values.len() as int) =~= strings_view(values@));
            (Operator::IsIn, ConditionClauseValue::JsonArray(items))
        },
    };
    ConditionClause { column_name: copy_string(&clause.key), operator, value }
}

/// The condition an editor group is saved as.
pub fn draft_to_condition(draft: &FilterGroupDraft) -> (c: Condition)
    ensures
        c@ == condition_of_draft(draft@),
    decreases draft,
{
    let ghost dv = draft_elements_view(draft.elements@);
    let mut elements: Vec<ConditionElement> = Vec::new();
    let mut i: usize = 0;
    while i < draft.elements.len()
        invariant
            i <= draft.elements.len(),
            dv == draft_elements_view(draft.elements@),
            elements_view(elements@) == condition_elements_of_draft(
                draft_elements_view(draft.elements@.take(i as int)),
            ),
        decreases draft.elements.len() - i,
    {
        let element = match &draft.elements[i] {
            FilterElementDraft::Clause(clause) => ConditionElement::Clause(draft_clause_to_condition(clause)),
            FilterElementDraft::Group(group) => ConditionElement::Condition(Box::new(draft_to_condition(group))),
        };
        proof {
            let d = draft.elements@[i as int];
            assert(draft.elements@.take(i + 1) =~= draft.elements@.take(i as int).push(d));
            lemma_draft_elements_view_push(draft.elements@.take(i as int), d);
            lemma_condition_elements_of_draft_push(
                draft_elements_view(draft.elements@.take(i as int)),
                draft_element_view(d),
            );
            lemma_elements_view_push(elements@, element);
        }
        elements.push(element);
        i = i + 1;
    }
    assert(draft.elements@.take(draft.elements.len() as int) =~= draft.elements@);
    match draft.kind {
        FilterGroupKind::All => Condition::All(elements),
        FilterGroupKind::Any => Condition::Any(elements),
    }
}

} // verus!

verus! {

/// The view of a clause conversion result, with the error as a character sequence.
pub open spec fn clause_result_view(r: Result<FilterClauseDraft, String>) -> Result<DraftClause, Seq<char>> {
    match r {
        Ok(d) => Ok(d@),
        Err(e) => Err(e@),
    }
}

/// The view of a member conversion result, with the error as a character sequence.
pub open spec fn element_result_view(r: Result<FilterElementDraft, String>) -> Result<DraftElement, Seq<char>> {
    match r {
        Ok(d) => Ok(d@),
        Err(e) => Err(e@),
    }
}

fn message_with_column(prefix: &str, column: &String, suffix: &str) -> (m: String)
    ensures
        m@ == prefix@ + column@ + suffix@,
{
    let mut m = String::from_str(prefix);
    m.append(column.as_str());
    m.append(suffix);
    m
}

proof fn lemma_draft_elements_of_err_prefix(es: Seq<SpecElement>, n: int)
    requires
        0 <= n <= es.len(),
        draft_elements_of(es.take(n)) is Err,
    ensures
        draft_elements_of(es) == draft_elements_of(es.take(n)),
    decreases es.len() - n,
{
    if n < es.len() {
        assert(es.take(n + 1) =~= es.take(n).push(es[n]));
        lemma_draft_elements_of_push(es.take(n), es[n]);
        lemma_draft_elements_of_err_prefix(es, n + 1);
    } else {
        assert(es.take(n) =~= es);
    }
}

/// The editor clause for a condition clause, or the message saying why it has none.
pub fn clause_to_draft(clause: &ConditionClause) -> (r: Result<FilterClauseDraft, String>)
    ensures
        clause_result_view(r) == draft_of_clause(clause@),
{
    let mode = match (&clause.operator, &clause.value) {
        (Operator::Equal, ConditionClauseValue::Text(value)) => FilterClauseMode::Equals { value: copy_string(value) },
        (Operator::NotEqual, ConditionClauseValue::Text(value)) => FilterClauseMode::NotEquals { value: copy_string(value) },
        (Operator::Equal, ConditionClauseValue::Bool(b)) => if *b {
            FilterClauseMode::Present
        } else {
            FilterClauseMode::Absent
        },
        (Operator::NotEqual, ConditionClauseValue::Bool(b)) => if *b {
            FilterClauseMode::Absent
        } else {
            FilterClauseMode::Present
        },
        (Operator::Equal, ConditionClauseValue::JsonNull) => FilterClauseMode::HasNoValue,
        (Operator::NotEqual, ConditionClauseValue::JsonNull) => FilterClauseMode::HasValueOrAbsent,
        (Operator::IsIn, ConditionClauseValue::JsonArray(items)) => {
            let ghost iv = json_items_view(items@);
            let mut values: Vec<String> = Vec::new();
            let mut i: usize = 0;
            while i < items.len()
                invariant
                    i <= items.len(),
                    iv == json_items_view(items@),
                    clause@.value == SpecClauseValue::JsonArray(iv),
                    clause@.operator == Operator::IsIn,
                    json_texts(iv.take(i as int)) == Some(strings_view(values@)),
                decreases items.len() - i,
            {
                proof {
                    assert(iv.take(i + 1) =~= iv.take(i as int).push(iv[i as int]));
                    lemma_json_texts_push(iv.take(i as int), iv[i as int]);
                }
                match &items[i] {
                    JsonArrayItem::Text(t) => {
                        assert(iv[i as int] == SpecJsonItem::Text(t@));
                        let ghost before = values@;
                        let t2 = copy_string(t);
                        values.push(t2);
                        assert(strings_view(values@) =~= strings_view(before).push(t2@));
                    },
                    JsonArrayItem::NonText => {
                        proof {
                            assert(iv[i as int] == SpecJsonItem::NonText);
                            lemma_json_texts_none_extends(iv, i as int + 1);
                        }
                        return Err(
                            message_with_column(
                                "label '",
                                &clause.column_name,
                                "' uses is_in with a non-string list value",
                            ),
                        );
                    },
                }
                i = i + 1;
            }
            assert(iv.take(items.len() as int) =~= iv);
            FilterClauseMode::IsIn { values }
        },
        (Operator::IsIn, _) => {
            return Err(message_with_column("label '", &clause.column_name, "' uses is_in without a string list"));
        },
        (operator, _) => {
            let mut m = message_with_column("label '", &clause.column_name, "' uses unsupported operator '");
            m.append(operator_label(*operator));
            m.append("'");
            return Err(m);
        },
    };
    Ok(FilterClauseDraft { key: copy_string(&clause.column_name), mode })
}

proof fn lemma_json_texts_none_extends(items: Seq<SpecJsonItem>, n: int)
    requires
        0 <= n <= items.len(),
        json_texts(items.take(n)) is None,
    ensures
        json_texts(items) is None,
    decreases items.len() - n,
{
    if n < items.len() {
        assert(items.take(n + 1) =~= items.take(n).push(items[n]));
        lemma_json_texts_push(items.take(n), items[n]);
        lemma_json_texts_none_extends(items, n + 1);
    } else {
        assert(items.take(n) =~= items);
    }
}

/// The editor member for a condition element.
fn element_to_draft(element: &ConditionElement) -> (r: Result<FilterElementDraft, String>)
    ensures
        element_result_view(r) == draft_element_of(element@),
    decreases element,
{
    match element {
        ConditionElement::Clause(clause) => match clause_to_draft(clause) {
            Ok(d) => Ok(FilterElementDraft::Clause(d)),
            Err(e) => Err(e),
        },
        ConditionElement::Condition(inner) => match condition_to_draft(&**inner) {
            Ok(g) => Ok(FilterElementDraft::Group(g)),
            Err(e) => Err(e),
        },
    }
}

/// The structured editor group for a condition, or the message naming the
/// first clause (in reading order) that the editor cannot show.
pub fn condition_to_draft(condition: &Condition) -> (r: Result<FilterGroupDraft, String>)
    ensures
        draft_result_view(r) == draft_of_condition(condition@),
    decreases condition,
{
    match condition {
        Condition::All(elements) => match elements_to_draft(elements) {
            Ok(out) => Ok(FilterGroupDraft { kind: FilterGroupKind::All, elements: out }),
            Err(m) => Err(m),
        },
        Condition::Any(elements) => match elements_to_draft(elements) {
            Ok(out) => Ok(FilterGroupDraft { kind: FilterGroupKind::Any, elements: out }),
            Err(m) => Err(m),
        },
    }
}

/// The editor members for the elements of a condition.
fn elements_to_draft(elements: &Vec<ConditionElement>) -> (r: Result<Vec<FilterElementDraft>, String>)
    ensures
        match r {
            Ok(out) => draft_elements_of(elements_view(elements@)) == Ok::<
                Seq<DraftElement>,
                Seq<char>,
            >(draft_elements_view(out@)),
            Err(m) => draft_elements_of(elements_view(elements@)) == Err::<
                Seq<DraftElement>,
                Seq<char>,
            >(m@),
        },
    decreases elements,
{
    let ghost ev = elements_view(elements@);
    proof {
        crate::filter::model::lemma_elements_view(elements@);
    }
    let mut out: Vec<FilterElementDraft> = Vec::new();
    let mut i: usize = 0;
    while i < elements.len()
        invariant
            i <= elements.len(),
            ev == elements_view(elements@),
            ev.len() == elements.len(),
            draft_elements_of(elements_view(elements@.take(i as int))) == Ok::<
                Seq<DraftElement>,
                Seq<char>,
            >(draft_elements_view(out@)),
        decreases elements.len() - i,
    {
        proof {
            assert(decreases_to!(elements => elements[i as int]));
        }
        let r = element_to_draft(&elements[i]);
        proof {
            assert(elements@.take(i + 1) =~= elements@.take(i as int).push(elements@[i as int]));
            lemma_elements_view_push(elements@.take(i as int), elements@[i as int]);
            lemma_draft_elements_of_push(
                elements_view(elements@.take(i as int)),
                element_view(elements@[i as int]),
            );
        }
        match r {
            Ok(d) => {
                proof {
                    lemma_draft_elements_view_push(out@, d);
                }
                out.push(d);
            },
            Err(m) => {
                proof {
                    lemma_elements_view_take(elements@, i as int + 1);
                    lemma_draft_elements_of_err_prefix(ev, i as int + 1);
                }
                return Err(m);
            },
        }
        i = i + 1;
    }
    assert(elements@.take(elements.len() as int) =~= elements@);
    Ok(out)
}

proof fn lemma_elements_view_take(es: Seq<ConditionElement>, n: int)
    requires
        0 <= n <= es.len(),
    ensures
        elements_view(es.take(n)) == elements_view(es).take(n),
    decreases es.len() - n,
{
    crate::filter::model::lemma_elements_view(es);
    crate::filter::model::lemma_elements_view(es.take(n));
    assert(elements_view(es.take(n)) =~= elements_view(es).take(n));
}

} // verus!
