use vstd::prelude::*;

use crate::text::str_eq;

verus! {

/// An element of a table's form layout: a field by its name, an enclosing
/// group of elements, or any other element.
#[derive(Debug, PartialEq, Eq)]
pub enum FormElement {
    Field(String),
    Enclosing(FormEnclosing),
    Other,
}

/// A group of form elements.
#[derive(Debug, PartialEq, Eq)]
pub struct FormGroup {
    pub children: Vec<FormElement>,
}

/// A tab of a tabbed form group.
#[derive(Debug, PartialEq, Eq)]
pub struct FormTab {
    pub label: String,
    pub group: FormGroup,
}

/// How a group of form elements is enclosed: plainly, in tabs, or in a card.
#[derive(Debug, PartialEq, Eq)]
pub enum FormEnclosing {
    Plain(FormGroup),
    Tabs(Vec<FormTab>),
    Card(FormGroup),
}

/// The mathematical value of a form element.
pub enum FormShape {
    Field(Seq<char>),
    Plain(Seq<FormShape>),
    Tabs(Seq<(Seq<char>, Seq<FormShape>)>),
    Card(Seq<FormShape>),
    Other,
}

pub open spec fn element_shape(e: FormElement) -> FormShape
    decreases e,
{
    match e {
        FormElement::Field(n) => FormShape::Field(n@),
        FormElement::Enclosing(FormEnclosing::Plain(g)) => FormShape::Plain(elements_shape(g.children@)),
        FormElement::Enclosing(FormEnclosing::Tabs(ts)) => FormShape::Tabs(tabs_shape(ts@)),
        FormElement::Enclosing(FormEnclosing::Card(g)) => FormShape::Card(elements_shape(g.children@)),
        FormElement::Other => FormShape::Other,
    }
}

pub open spec fn elements_shape(s: Seq<FormElement>) -> Seq<FormShape>
    decreases s,
{
    if s.len() == 0 {
        Seq::empty()
    } else {
        elements_shape(s.drop_last()).push(element_shape(s[s.len() - 1]))
    }
}

pub open spec fn tabs_shape(s: Seq<FormTab>) -> Seq<(Seq<char>, Seq<FormShape>)>
    decreases s,
{
    if s.len() == 0 {
        Seq::empty()
    } else {
        let t = s[s.len() - 1];
        tabs_shape(s.drop_last()).push((t.label@, elements_shape(t.group.children@)))
    }
}

/// The elements without any field named `name`, at any depth.
pub open spec fn drop_field(s: Seq<FormShape>, name: Seq<char>) -> Seq<FormShape>
    decreases s,
{
    if s.len() == 0 {
        Seq::empty()
    } else {
        let rest = drop_field(s.drop_last(), name);
        match s[s.len() - 1] {
            FormShape::Field(n) => if n == name {
                rest
            } else {
                rest.push(FormShape::Field(n))
            },
            x => rest.push(enclosed_without(x, name)),
        }
    }
}

/// An element with the fields named `name` dropped from the groups it encloses.
pub open spec fn enclosed_without(x: FormShape, name: Seq<char>) -> FormShape
    decreases x,
{
    match x {
        FormShape::Plain(c) => FormShape::Plain(drop_field(c, name)),
        FormShape::Tabs(ts) => FormShape::Tabs(drop_field_tabs(ts, name)),
        FormShape::Card(c) => FormShape::Card(drop_field(c, name)),
        _ => x,
    }
}

/// The tabs, each without any field named `name`, at any depth.
pub open spec fn drop_field_tabs(ts: Seq<(Seq<char>, Seq<FormShape>)>, name: Seq<char>) -> Seq<(Seq<char>, Seq<FormShape>)>
    decreases ts,
{
    if ts.len() == 0 {
        Seq::empty()
    } else {
        let t = ts[ts.len() - 1];
        drop_field_tabs(ts.drop_last(), name).push((t.0, drop_field(t.1, name)))
    }
}

/// Whether some element, at any depth, is a field named `name`.
pub open spec fn has_field(s: Seq<FormShape>, name: Seq<char>) -> bool
    decreases s,
{
    if s.len() == 0 {
        false
    } else {
        has_field(s.drop_last(), name) || shape_has_field(s[s.len() - 1], name)
    }
}

/// Whether an element is, or encloses at any depth, a field named `name`.
pub open spec fn shape_has_field(x: FormShape, name: Seq<char>) -> bool
    decreases x,
{
    match x {
        FormShape::Field(n) => n == name,
        FormShape::Plain(c) => has_field(c, name),
        FormShape::Tabs(ts) => tabs_have_field(ts, name),
        FormShape::Card(c) => has_field(c, name),
        FormShape::Other => false,
    }
}

/// Whether some tab holds, at any depth, a field named `name`.
pub open spec fn tabs_have_field(ts: Seq<(Seq<char>, Seq<FormShape>)>, name: Seq<char>) -> bool
    decreases ts,
{
    if ts.len() == 0 {
        false
    } else {
        tabs_have_field(ts.drop_last(), name) || has_field(ts[ts.len() - 1].1, name)
    }
}

/// Dropping the fields named `name` leaves none of them, at any depth.
pub proof fn lemma_drop_field_leaves_none(s: Seq<FormShape>, name: Seq<char>)
    ensures
        !has_field(drop_field(s, name), name),
    decreases s,
{
    if s.len() > 0 {
        let rest = drop_field(s.drop_last(), name);
        lemma_drop_field_leaves_none(s.drop_last(), name);
        let x = s[s.len() - 1];
        match x {
            FormShape::Field(n) => {
                if n != name {
                    let d = rest.push(x);
                    assert(drop_field(s, name) == d);
                    assert(d.drop_last() =~= rest);
                    assert(!shape_has_field(d[d.len() - 1], name));
                } else {
                    assert(drop_field(s, name) == rest);
                }
            },
            _ => {
                lemma_enclosed_without_leaves_none(x, name);
                let d = rest.push(enclosed_without(x, name));
                assert(drop_field(s, name) == d);
                assert(d.drop_last() =~= rest);
                assert(!shape_has_field(d[d.len() - 1], name));
            },
        }
    }
}

/// An enclosing element keeps none of the fields named `name` once they are dropped.
pub proof fn lemma_enclosed_without_leaves_none(x: FormShape, name: Seq<char>)
    requires
        !(x is Field),
    ensures
        !shape_has_field(enclosed_without(x, name), name),
    decreases x,
{
    match x {
        FormShape::Plain(c) => lemma_drop_field_leaves_none(c, name),
        FormShape::Tabs(ts) => lemma_drop_field_tabs_leaves_none(ts, name),
        FormShape::Card(c) => lemma_drop_field_leaves_none(c, name),
        _ => {},
    }
}

/// Tabs keep none of the fields named `name` once they are dropped.
pub proof fn lemma_drop_field_tabs_leaves_none(ts: Seq<(Seq<char>, Seq<FormShape>)>, name: Seq<char>)
    ensures
        !tabs_have_field(drop_field_tabs(ts, name), name),
    decreases ts,
{
    if ts.len() > 0 {
        let t = ts[ts.len() - 1];
        let rest = drop_field_tabs(ts.drop_last(), name);
        lemma_drop_field_tabs_leaves_none(ts.drop_last(), name);
        lemma_drop_field_leaves_none(t.1, name);
        let d = rest.push((t.0, drop_field(t.1, name)));
        assert(drop_field_tabs(ts, name) == d);
        assert(d.drop_last() =~= rest);
        assert(!has_field(d[d.len() - 1].1, name));
    }
}

/// The form elements without any field named `field_name`, at any depth.
#[verifier::loop_isolation(false)]
pub fn without_crudkit_field(elements: Vec<FormElement>, field_name: &str) -> (r: Vec<FormElement>)
    ensures
        elements_shape(r@) == drop_field(elements_shape(elements@), field_name@),
        !has_field(elements_shape(r@), field_name@),
    decreases elements@,
{
    let ghost orig = elements@;
    let mut rest = elements;
    let mut out: Vec<FormElement> = Vec::new();
    let ghost mut i: int = 0;
    assert(orig.skip(0) =~= orig);
    assert(orig.take(0) =~= Seq::<FormElement>::empty());
    while rest.len() > 0
        invariant
            0 <= i <= orig.len(),
            rest@ == orig.skip(i),
            elements_shape(out@) == drop_field(elements_shape(orig.take(i)), field_name@),
        decreases rest.len(),
    {
        let e = rest.remove(0);
        proof {
            assert(e == orig[i]);
            assert(orig.take(i + 1).drop_last() =~= orig.take(i));
            assert(orig.take(i + 1)[i] == orig[i]);
            let big = elements_shape(orig.take(i + 1));
            assert(big =~= elements_shape(orig.take(i)).push(element_shape(orig[i])));
            assert(big.drop_last() =~= elements_shape(orig.take(i)));
            assert(big[big.len() - 1] == element_shape(orig[i]));
        }
        let ghost before = out@;
        let ghost dropped_before = drop_field(elements_shape(orig.take(i)), field_name@);
        match e {
            FormElement::Field(n) => {
                if !str_eq(n.as_str(), field_name) {
                    out.push(FormElement::Field(n));
                    assert(out@.drop_last() =~= before);
                    assert(elements_shape(out@) == elements_shape(before).push(FormShape::Field(n@)));
                    assert(drop_field(elements_shape(orig.take(i + 1)), field_name@) == dropped_before.push(FormShape::Field(n@)));
                } else {
                    assert(drop_field(elements_shape(orig.take(i + 1)), field_name@) == dropped_before);
                }
            },
            FormElement::Enclosing(enc) => {
                proof {
                    assert(orig[i] == FormElement::Enclosing(enc));
                    assert(decreases_to!(orig => orig[i]));
                    assert(decreases_to!(orig[i] => enc));
                }
                let r = without_crudkit_enclosing_field(enc, field_name);
                out.push(FormElement::Enclosing(r));
                assert(out@.drop_last() =~= before);
            },
            FormElement::Other => {
                out.push(FormElement::Other);
                assert(out@.drop_last() =~= before);
            },
        }
        proof {
            i = i + 1;
            assert(rest@ =~= orig.skip(i));
        }
    }
    assert(orig.take(orig.len() as int) =~= orig);
    proof {
        lemma_drop_field_leaves_none(elements_shape(orig), field_name@);
    }
    out
}

/// A form group without any field named `field_name`, at any depth.
pub fn without_crudkit_enclosing_field(enclosing: FormEnclosing, field_name: &str) -> (r: FormEnclosing)
    ensures
        element_shape(FormElement::Enclosing(r)) == enclosed_without(
            element_shape(FormElement::Enclosing(enclosing)),
            field_name@,
        ),
    decreases enclosing,
{
    match enclosing {
        FormEnclosing::Plain(g) => FormEnclosing::Plain(
            FormGroup { children: without_crudkit_field(g.children, field_name) },
        ),
        FormEnclosing::Tabs(ts) => FormEnclosing::Tabs(without_crudkit_tabs_field(ts, field_name)),
        FormEnclosing::Card(g) => FormEnclosing::Card(
            FormGroup { children: without_crudkit_field(g.children, field_name) },
        ),
    }
}

/// The tabs, each without any field named `field_name`, at any depth.
#[verifier::loop_isolation(false)]
fn without_crudkit_tabs_field(tabs: Vec<FormTab>, field_name: &str) -> (r: Vec<FormTab>)
    ensures
        tabs_shape(r@) == drop_field_tabs(tabs_shape(tabs@), field_name@),
    decreases tabs@,
{
    let ghost orig = tabs@;
    let mut rest = tabs;
    let mut out: Vec<FormTab> = Vec::new();
    let ghost mut i: int = 0;
    assert(orig.skip(0) =~= orig);
    assert(orig.take(0) =~= Seq::<FormTab>::empty());
    while rest.len() > 0
        invariant
            0 <= i <= orig.len(),
            rest@ == orig.skip(i),
            tabs_shape(out@) == drop_field_tabs(tabs_shape(orig.take(i)), field_name@),
        decreases rest.len(),
    {
        let t = rest.remove(0);
        proof {
            assert(t == orig[i]);
            assert(orig.take(i + 1).drop_last() =~= orig.take(i));
            assert(orig.take(i + 1)[i] == orig[i]);
            assert(tabs_shape(orig.take(i + 1)).drop_last() =~= tabs_shape(orig.take(i)));
            assert(decreases_to!(orig => orig[i]));
            assert(decreases_to!(orig[i] => orig[i].group));
            assert(decreases_to!(orig[i].group => orig[i].group.children));
            assert(decreases_to!(orig[i].group.children => orig[i].group.children@));
        }
        let ghost before = out@;
        let FormTab { label, group } = t;
        let children = without_crudkit_field(group.children, field_name);
        out.push(FormTab { label, group: FormGroup { children } });
        assert(out@.drop_last() =~= before);
        proof {
            i = i + 1;
            assert(rest@ =~= orig.skip(i));
        }
    }
    assert(orig.take(orig.len() as int) =~= orig);
    out
}

} // verus!
