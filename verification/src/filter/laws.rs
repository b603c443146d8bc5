use vstd::prelude::*;

use crate::filter::draft::{
    draft_of_clause, draft_of_condition, clause_of_draft, condition_element_of_draft,
    condition_elements_of_draft, condition_of_draft, draft_element_of, draft_elements_of,
    json_texts, texts_to_json, DraftClause, DraftElement, DraftGroup, DraftMode,
};
use crate::filter::model::{Operator, SpecClause, SpecClauseValue, SpecCondition, SpecElement, SpecJsonItem};

verus! {

/// A list of strings written as a JSON list reads back as the same list.
pub proof fn lemma_json_texts_round_trip(vs: Seq<Seq<char>>)
    ensures
        json_texts(texts_to_json(vs)) == Some(vs),
    decreases vs.len(),
{
    if vs.len() > 0 {
        let items = texts_to_json(vs);
        assert(items.subrange(0, items.len() - 1) =~= texts_to_json(vs.subrange(0, vs.len() - 1)));
        lemma_json_texts_round_trip(vs.subrange(0, vs.len() - 1));
        assert(vs.subrange(0, vs.len() - 1).push(vs[vs.len() - 1]) =~= vs);
    }
}

/// An editor clause survives being written as a condition clause and read back.
pub proof fn lemma_clause_round_trip(d: DraftClause)
    ensures
        draft_of_clause(clause_of_draft(d)) == Ok::<DraftClause, Seq<char>>(d),
{
    match d.mode {
        DraftMode::IsIn(vs) => {
            lemma_json_texts_round_trip(vs);
        },
        _ => {},
    }
}

/// Law: every editor group survives being written as a condition and read back,
/// so the structured editor never loses what it saved.
pub proof fn lemma_draft_round_trip(g: DraftGroup)
    ensures
        draft_of_condition(condition_of_draft(g)) == Ok::<DraftGroup, Seq<char>>(g),
    decreases g,
{
    lemma_draft_elements_round_trip(g.elements);
}

/// The members of a group survive being written and read back.
pub proof fn lemma_draft_elements_round_trip(ds: Seq<DraftElement>)
    ensures
        draft_elements_of(condition_elements_of_draft(ds)) == Ok::<Seq<DraftElement>, Seq<char>>(
            ds,
        ),
    decreases ds,
{
    if ds.len() > 0 {
        let prefix = ds.subrange(0, ds.len() - 1);
        let last = ds[ds.len() - 1];
        let es = condition_elements_of_draft(ds);
        let pes = condition_elements_of_draft(prefix);
        assert(es == pes.push(condition_element_of_draft(last)));
        assert(es.subrange(0, es.len() - 1) =~= pes);
        assert(es[es.len() - 1] == condition_element_of_draft(last));
        lemma_draft_elements_round_trip(prefix);
        lemma_draft_element_round_trip(last);
        assert(prefix.push(last) =~= ds);
    } else {
        assert(ds =~= Seq::<DraftElement>::empty());
    }
}

/// A single member survives being written and read back.
pub proof fn lemma_draft_element_round_trip(d: DraftElement)
    ensures
        draft_element_of(condition_element_of_draft(d)) == Ok::<DraftElement, Seq<char>>(d),
    decreases d,
{
    match d {
        DraftElement::Clause(c) => lemma_clause_round_trip(c),
        DraftElement::Group(g) => lemma_draft_round_trip(g),
    }
}

/// The clause a supported clause is saved as: `!= true` and `!= false` on a
/// presence flag are written as `= false` and `= true`; every other clause is kept.
pub open spec fn canonical_clause(c: SpecClause) -> SpecClause {
    match (c.operator, c.value) {
        (Operator::NotEqual, SpecClauseValue::Bool(b)) => SpecClause {
            column_name: c.column_name,
            operator: Operator::Equal,
            value: SpecClauseValue::Bool(!b),
        },
        _ => c,
    }
}

/// `c` with every clause in its canonical form.
pub open spec fn canonical_condition(c: SpecCondition) -> SpecCondition
    decreases c,
{
    match c {
        SpecCondition::All(es) => SpecCondition::All(canonical_elements(es)),
        SpecCondition::Any(es) => SpecCondition::Any(canonical_elements(es)),
    }
}

/// The elements `es`, each in canonical form.
pub open spec fn canonical_elements(es: Seq<SpecElement>) -> Seq<SpecElement>
    decreases es,
{
    if es.len() == 0 {
        Seq::empty()
    } else {
        canonical_elements(es.subrange(0, es.len() - 1)).push(
            canonical_element(es[es.len() - 1]),
        )
    }
}

/// The element `e` in canonical form.
pub open spec fn canonical_element(e: SpecElement) -> SpecElement
    decreases e,
{
    match e {
        SpecElement::Clause(c) => SpecElement::Clause(canonical_clause(c)),
        SpecElement::Condition(c) => SpecElement::Condition(canonical_condition(c)),
    }
}

/// A JSON list whose items all read as strings is the list of those strings.
pub proof fn lemma_json_texts_inverse(items: Seq<SpecJsonItem>)
    ensures
        json_texts(items) matches Some(vs) ==> texts_to_json(vs) == items,
    decreases items.len(),
{
    if items.len() > 0 {
        let prefix = items.subrange(0, items.len() - 1);
        lemma_json_texts_inverse(prefix);
        if let Some(vs) = json_texts(items) {
            let prev = json_texts(prefix)->Some_0;
            let t = items[items.len() - 1]->Text_0;
            assert(vs == prev.push(t));
            assert(texts_to_json(vs) =~= texts_to_json(prev).push(SpecJsonItem::Text(t)));
            assert(prefix.push(items[items.len() - 1]) =~= items);
        }
    }
}

/// A clause that the editor can show is saved back in canonical form.
pub proof fn lemma_clause_canonical(c: SpecClause)
    ensures
        draft_of_clause(c) matches Ok(d) ==> clause_of_draft(d) == canonical_clause(c),
{
    match c.value {
        SpecClauseValue::JsonArray(items) => lemma_json_texts_inverse(items),
        _ => {},
    }
}

/// Law: a condition that the editor can show is saved back as the same
/// condition, up to the canonical form of presence clauses.
pub proof fn lemma_condition_canonical(c: SpecCondition)
    ensures
        draft_of_condition(c) matches Ok(g) ==> condition_of_draft(g) == canonical_condition(c),
    decreases c,
{
    match c {
        SpecCondition::All(es) => lemma_elements_canonical(es),
        SpecCondition::Any(es) => lemma_elements_canonical(es),
    }
}

/// The members of a condition that the editor can show are saved back canonically.
pub proof fn lemma_elements_canonical(es: Seq<SpecElement>)
    ensures
        draft_elements_of(es) matches Ok(ds) ==> condition_elements_of_draft(ds)
            == canonical_elements(es),
    decreases es,
{
    if es.len() > 0 {
        let prefix = es.subrange(0, es.len() - 1);
        lemma_elements_canonical(prefix);
        lemma_element_canonical(es[es.len() - 1]);
        if let Ok(ds) = draft_elements_of(es) {
            let prev = draft_elements_of(prefix)->Ok_0;
            assert(ds.subrange(0, ds.len() - 1) =~= prev);
        }
    }
}

/// One member that the editor can show is saved back canonically.
pub proof fn lemma_element_canonical(e: SpecElement)
    ensures
        draft_element_of(e) matches Ok(d) ==> condition_element_of_draft(d) == canonical_element(
            e,
        ),
    decreases e,
{
    match e {
        SpecElement::Clause(c) => lemma_clause_canonical(c),
        SpecElement::Condition(c) => lemma_condition_canonical(c),
    }
}

} // verus!
