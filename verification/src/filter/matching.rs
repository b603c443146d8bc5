use vstd::prelude::*;

use crate::filter::model::{
    element_view, elements_view, json_items_view, lemma_elements_view, Condition, ConditionClause,
    ConditionClauseValue, ConditionElement, JsonArrayItem, Operator, SpecClause, SpecClauseValue,
    SpecCondition, SpecElement, SpecJsonItem,
};
use crate::text::{str_eq, trim, trim_str};

verus! {

broadcast use vstd::std_specs::vec::group_vec_axioms;

/// A label on a work item: a key and, for some keys, a value.
#[derive(Clone, Debug)]
pub struct ItemLabel {
    pub key: String,
    pub value: Option<String>,
}

/// The mathematical value of an optional text.
pub open spec fn opt_view(o: Option<String>) -> Option<Seq<char>> {
    match o {
        Some(s) => Some(s@),
        None => None,
    }
}

impl View for ItemLabel {
    type V = (Seq<char>, Option<Seq<char>>);

    open spec fn view(&self) -> (Seq<char>, Option<Seq<char>>) {
        (self.key@, opt_view(self.value))
    }
}

/// The mathematical values of a work item's labels.
pub open spec fn labels_view(ls: Seq<ItemLabel>) -> Seq<(Seq<char>, Option<Seq<char>>)> {
    ls.map_values(|l: ItemLabel| l@)
}

/// The first label with key `key`.
pub open spec fn find_label(
    labels: Seq<(Seq<char>, Option<Seq<char>>)>,
    key: Seq<char>,
) -> Option<(Seq<char>, Option<Seq<char>>)>
    decreases labels.len(),
{
    if labels.len() == 0 {
        None
    } else if labels[0].0 == key {
        Some(labels[0])
    } else {
        find_label(labels.drop_first(), key)
    }
}

/// Whether the labels meet a clause. The clause names a label by its trimmed
/// column name; a boolean asks whether the label is there, a text compares
/// the label's value, JSON null asks for a label without a value, and a list
/// of texts asks for a value among them. Other combinations never hold.
pub open spec fn clause_holds(labels: Seq<(Seq<char>, Option<Seq<char>>)>, c: SpecClause) -> bool {
    let label = find_label(labels, trim(c.column_name));
    let value: Option<Seq<char>> = match label {
        Some(l) => l.1,
        None => None,
    };
    match (c.operator, c.value) {
        (Operator::Equal, SpecClauseValue::Bool(e)) => label.is_some() == e,
        (Operator::NotEqual, SpecClauseValue::Bool(e)) => label.is_some() != e,
        (Operator::Equal, SpecClauseValue::Text(e)) => value == Some(e),
        (Operator::NotEqual, SpecClauseValue::Text(e)) => value != Some(e),
        (Operator::Equal, SpecClauseValue::JsonNull) => label.is_some() && value.is_none(),
        (Operator::NotEqual, SpecClauseValue::JsonNull) => label.is_none() || value.is_some(),
        (Operator::IsIn, SpecClauseValue::JsonArray(items)) => match value {
            Some(v) => exists|k: int| 0 <= k < items.len() && items[k] == SpecJsonItem::Text(v),
            None => false,
        },
        _ => false,
    }
}

/// Whether the labels meet a condition: every element for `All`, some
/// element for `Any`.
pub open spec fn condition_holds(labels: Seq<(Seq<char>, Option<Seq<char>>)>, c: SpecCondition) -> bool
    decreases c,
{
    match c {
        SpecCondition::All(es) => all_hold(labels, es),
        SpecCondition::Any(es) => any_holds(labels, es),
    }
}

/// Whether the labels meet every element of `es`.
pub open spec fn all_hold(labels: Seq<(Seq<char>, Option<Seq<char>>)>, es: Seq<SpecElement>) -> bool
    decreases es,
{
    if es.len() == 0 {
        true
    } else {
        all_hold(labels, es.subrange(0, es.len() - 1)) && element_holds(labels, es[es.len() - 1])
    }
}

/// Whether the labels meet some element of `es`.
pub open spec fn any_holds(labels: Seq<(Seq<char>, Option<Seq<char>>)>, es: Seq<SpecElement>) -> bool
    decreases es,
{
    if es.len() == 0 {
        false
    } else {
        any_holds(labels, es.subrange(0, es.len() - 1)) || element_holds(labels, es[es.len() - 1])
    }
}

/// Whether the labels meet a condition element.
pub open spec fn element_holds(labels: Seq<(Seq<char>, Option<Seq<char>>)>, e: SpecElement) -> bool
    decreases e,
{
    match e {
        SpecElement::Clause(c) => clause_holds(labels, c),
        SpecElement::Condition(c) => condition_holds(labels, c),
    }
}

/// An `All` group holds exactly when each of its elements holds.
pub proof fn lemma_all_hold(labels: Seq<(Seq<char>, Option<Seq<char>>)>, es: Seq<SpecElement>)
    ensures
        all_hold(labels, es) <==> forall|i: int| 0 <= i < es.len() ==> #[trigger] element_holds(labels, es[i]),
    decreases es.len(),
{
    if es.len() > 0 {
        let init = es.subrange(0, es.len() - 1);
        lemma_all_hold(labels, init);
        assert forall|i: int| 0 <= i < es.len() - 1 implies #[trigger] es[i] == init[i] by {}
        if all_hold(labels, es) {
            assert forall|i: int| 0 <= i < es.len() implies #[trigger] element_holds(labels, es[i]) by {
                if i < es.len() - 1 {
                    assert(element_holds(labels, init[i]));
                }
            }
        }
        if forall|i: int| 0 <= i < es.len() ==> #[trigger] element_holds(labels, es[i]) {
            assert forall|i: int| 0 <= i < init.len() implies #[trigger] element_holds(labels, init[i]) by {
                assert(element_holds(labels, es[i]));
            }
            assert(element_holds(labels, es[es.len() - 1]));
        }
    }
}

/// An `Any` group holds exactly when one of its elements holds.
pub proof fn lemma_any_holds(labels: Seq<(Seq<char>, Option<Seq<char>>)>, es: Seq<SpecElement>)
    ensures
        any_holds(labels, es) <==> exists|i: int| 0 <= i < es.len() && #[trigger] element_holds(labels, es[i]),
    decreases es.len(),
{
    if es.len() > 0 {
        let init = es.subrange(0, es.len() - 1);
        lemma_any_holds(labels, init);
        if any_holds(labels, es) {
            if any_holds(labels, init) {
                let i = choose|i: int| 0 <= i < init.len() && #[trigger] element_holds(labels, init[i]);
                assert(es[i] == init[i]);
                assert(element_holds(labels, es[i]));
            } else {
                assert(element_holds(labels, es[es.len() - 1]));
            }
        }
        if exists|i: int| 0 <= i < es.len() && #[trigger] element_holds(labels, es[i]) {
            let i = choose|i: int| 0 <= i < es.len() && #[trigger] element_holds(labels, es[i]);
            if i < es.len() - 1 {
                assert(es[i] == init[i]);
                assert(element_holds(labels, init[i]));
            }
        }
    }
}

/// The first label with key `key`.
fn find_item_label<'a>(labels: &'a Vec<ItemLabel>, key: &str) -> (r: Option<&'a ItemLabel>)
    ensures
        match r {
            Some(l) => find_label(labels_view(labels@), key@) == Some(l@),
            None => find_label(labels_view(labels@), key@) is None,
        },
{
    let ghost lv = labels_view(labels@);
    assert(lv.subrange(0, lv.len() as int) =~= lv);
    let mut i: usize = 0;
    while i < labels.len()
        invariant
            i <= labels.len(),
            lv == labels_view(labels@),
            find_label(lv, key@) == find_label(lv.subrange(i as int, lv.len() as int), key@),
        decreases labels.len() - i,
    {
        let ghost rest = lv.subrange(i as int, lv.len() as int);
        assert(rest[0] == labels@[i as int]@);
        if str_eq(labels[i].key.as_str(), key) {
            return Some(&labels[i]);
        }
        assert(rest.drop_first() =~= lv.subrange(i + 1, lv.len() as int));
        i = i + 1;
    }
    None
}

/// Whether `v` is one of the texts of a JSON list.
fn json_list_has_text(items: &Vec<JsonArrayItem>, v: &String) -> (b: bool)
    ensures
        b == exists|k: int| 0 <= k < json_items_view(items@).len() && json_items_view(items@)[k] == SpecJsonItem::Text(v@),
{
    let ghost iv = json_items_view(items@);
    assert(iv.len() == items@.len());
    let mut k: usize = 0;
    while k < items.len()
        invariant
            k <= items.len(),
            iv == json_items_view(items@),
            iv.len() == items@.len(),
            forall|j: int| 0 <= j < k ==> iv[j] != SpecJsonItem::Text(v@),
        decreases items.len() - k,
    {
        match &items[k] {
            JsonArrayItem::Text(t) => {
                if str_eq(t.as_str(), v.as_str()) {
                    assert(iv[k as int] == SpecJsonItem::Text(v@));
                    return true;
                }
            },
            JsonArrayItem::NonText => {},
        }
        k = k + 1;
    }
    false
}

/// Whether the labels of a work item meet a clause.
pub fn item_matches_clause(labels: &Vec<ItemLabel>, clause: &ConditionClause) -> (b: bool)
    ensures
        b == clause_holds(labels_view(labels@), clause@),
{
    let key = trim_str(clause.column_name.as_str());
    let label = find_item_label(labels, key.as_str());
    let label_value: Option<&String> = match label {
        Some(l) => match &l.value {
            Some(v) => Some(v),
            None => None,
        },
        None => None,
    };
    proof {
        let found = find_label(labels_view(labels@), trim(clause@.column_name));
        assert(found is Some <==> label is Some);
        let sv: Option<Seq<char>> = match found {
            Some(l) => l.1,
            None => None,
        };
        match label_value {
            Some(v) => assert(sv == Some(v@)),
            None => assert(sv is None),
        }
    }
    let has_label = label.is_some();
    let op = clause.operator;
    let ghost holds = clause_holds(labels_view(labels@), clause@);
    match &clause.value {
        ConditionClauseValue::Bool(expected) => {
            let expected = *expected;
            let r = if op == Operator::Equal {
                has_label == expected
            } else if op == Operator::NotEqual {
                has_label != expected
            } else {
                false
            };
            assert(r == holds);
            r
        },
        ConditionClauseValue::Text(expected) => {
            let same = match label_value {
                Some(v) => str_eq(v.as_str(), expected.as_str()),
                None => false,
            };
            let r = if op == Operator::Equal {
                same
            } else if op == Operator::NotEqual {
                !same
            } else {
                false
            };
            assert(r == holds);
            r
        },
        ConditionClauseValue::JsonNull => {
            let r = if op == Operator::Equal {
                has_label && label_value.is_none()
            } else if op == Operator::NotEqual {
                !has_label || label_value.is_some()
            } else {
                false
            };
            assert(r == holds);
            r
        },
        ConditionClauseValue::JsonArray(values) => {
            let r = if op == Operator::IsIn {
                match label_value {
                    Some(v) => {
                        json_list_has_text(values, v)
                    },
                    None => false,
                }
            } else {
                false
            };
            assert(r == holds);
            r
        },
        ConditionClauseValue::Other => {
            assert(!holds);
            false
        },
    }
}

/// Whether the labels of a work item meet a condition element.
pub fn item_matches_condition_element(labels: &Vec<ItemLabel>, element: &ConditionElement) -> (b: bool)
    ensures
        b == element_holds(labels_view(labels@), element@),
    decreases element,
{
    match element {
        ConditionElement::Clause(clause) => item_matches_clause(labels, clause),
        ConditionElement::Condition(inner) => item_matches_condition(labels, &**inner),
    }
}

/// Whether the labels of a work item meet a swim lane's condition.
pub fn item_matches_condition(labels: &Vec<ItemLabel>, condition: &Condition) -> (b: bool)
    ensures
        b == condition_holds(labels_view(labels@), condition@),
    decreases condition,
{
    match condition {
        Condition::All(elements) => {
            assert(condition@ == SpecCondition::All(elements_view(elements@)));
            all_elements_match(labels, elements)
        },
        Condition::Any(elements) => {
            assert(condition@ == SpecCondition::Any(elements_view(elements@)));
            any_element_matches(labels, elements)
        },
    }
}

/// Whether the labels meet every element.
fn all_elements_match(labels: &Vec<ItemLabel>, elements: &Vec<ConditionElement>) -> (b: bool)
    ensures
        b == all_hold(labels_view(labels@), elements_view(elements@)),
    decreases elements,
{
    let ghost lv = labels_view(labels@);
    let ghost ev = elements_view(elements@);
    proof {
        lemma_elements_view(elements@);
        lemma_all_hold(lv, ev);
    }
    let mut i: usize = 0;
    while i < elements.len()
        invariant
            i <= elements.len(),
            lv == labels_view(labels@),
            ev == elements_view(elements@),
            ev.len() == elements.len(),
            all_hold(lv, ev) <==> forall|j: int| 0 <= j < ev.len() ==> #[trigger] element_holds(lv, ev[j]),
            forall|j: int| 0 <= j < elements.len() ==> #[trigger] ev[j] == element_view(elements@[j]),
            forall|j: int| 0 <= j < i ==> #[trigger] element_holds(lv, ev[j]),
        decreases elements.len() - i,
    {
        proof {
            assert(decreases_to!(elements => elements[i as int]));
        }
        if !item_matches_condition_element(labels, &elements[i]) {
            assert(!element_holds(lv, ev[i as int]));
            return false;
        }
        i = i + 1;
    }
    true
}

/// Whether the labels meet some element.
fn any_element_matches(labels: &Vec<ItemLabel>, elements: &Vec<ConditionElement>) -> (b: bool)
    ensures
        b == any_holds(labels_view(labels@), elements_view(elements@)),
    decreases elements,
{
    let ghost lv = labels_view(labels@);
    let ghost ev = elements_view(elements@);
    proof {
        lemma_elements_view(elements@);
        lemma_any_holds(lv, ev);
    }
    let mut i: usize = 0;
    while i < elements.len()
        invariant
            i <= elements.len(),
            lv == labels_view(labels@),
            ev == elements_view(elements@),
            ev.len() == elements.len(),
            any_holds(lv, ev) <==> exists|j: int| 0 <= j < ev.len() && #[trigger] element_holds(lv, ev[j]),
            forall|j: int| 0 <= j < elements.len() ==> #[trigger] ev[j] == element_view(elements@[j]),
            forall|j: int| 0 <= j < i ==> !#[trigger] element_holds(lv, ev[j]),
        decreases elements.len() - i,
    {
        proof {
            assert(decreases_to!(elements => elements[i as int]));
        }
        if item_matches_condition_element(labels, &elements[i]) {
            assert(element_holds(lv, ev[i as int]));
            return true;
        }
        i = i + 1;
    }
    false
}

} // verus!

verus! {

use crate::filter::laws::{canonical_clause, canonical_condition, canonical_elements, canonical_element};

/// A clause in canonical form holds of the same labels as the clause.
pub proof fn lemma_canonical_clause_holds(labels: Seq<(Seq<char>, Option<Seq<char>>)>, c: SpecClause)
    ensures
        clause_holds(labels, canonical_clause(c)) == clause_holds(labels, c),
{
}

/// Law: a condition in canonical form (as the filter editor saves it) holds
/// of exactly the labels the condition holds of.
pub proof fn lemma_canonical_condition_holds(labels: Seq<(Seq<char>, Option<Seq<char>>)>, c: SpecCondition)
    ensures
        condition_holds(labels, canonical_condition(c)) == condition_holds(labels, c),
    decreases c,
{
    match c {
        SpecCondition::All(es) => lemma_canonical_elements_hold(labels, es),
        SpecCondition::Any(es) => lemma_canonical_elements_hold(labels, es),
    }
}

/// Canonical elements hold, all or some, exactly where the elements do.
pub proof fn lemma_canonical_elements_hold(labels: Seq<(Seq<char>, Option<Seq<char>>)>, es: Seq<SpecElement>)
    ensures
        all_hold(labels, canonical_elements(es)) == all_hold(labels, es),
        any_holds(labels, canonical_elements(es)) == any_holds(labels, es),
    decreases es,
{
    if es.len() > 0 {
        let prefix = es.subrange(0, es.len() - 1);
        lemma_canonical_elements_hold(labels, prefix);
        lemma_canonical_element_holds(labels, es[es.len() - 1]);
        let ce = canonical_elements(es);
        assert(ce.subrange(0, ce.len() - 1) =~= canonical_elements(prefix));
    }
}

/// A canonical element holds exactly where the element does.
pub proof fn lemma_canonical_element_holds(labels: Seq<(Seq<char>, Option<Seq<char>>)>, e: SpecElement)
    ensures
        element_holds(labels, canonical_element(e)) == element_holds(labels, e),
    decreases e,
{
    match e {
        SpecElement::Clause(c) => lemma_canonical_clause_holds(labels, c),
        SpecElement::Condition(c) => lemma_canonical_condition_holds(labels, c),
    }
}

/// Law: saving a swim lane filter through the structured editor keeps the
/// items it matches: where the editor can show a condition, the condition it
/// saves holds of exactly the same labels.
pub proof fn lemma_editor_keeps_lane_items(labels: Seq<(Seq<char>, Option<Seq<char>>)>, c: SpecCondition)
    ensures
        crate::filter::draft::draft_of_condition(c) matches Ok(g) ==> condition_holds(
            labels,
            crate::filter::draft::condition_of_draft(g),
        ) == condition_holds(labels, c),
{
    crate::filter::laws::lemma_condition_canonical(c);
    lemma_canonical_condition_holds(labels, c);
}

} // verus!
