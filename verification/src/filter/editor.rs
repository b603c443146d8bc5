use vstd::prelude::*;

use crate::filter::convert::{
    draft_element_view, draft_elements_view, group_view, strings_view, FilterClauseDraft,
    FilterClauseMode, FilterElementDraft, FilterGroupDraft,
};
use crate::filter::draft::{DraftClause, DraftElement, DraftGroup, DraftMode, FilterGroupKind};
use crate::text::{copy_string, str_eq, trim, is_blank};

verus! {

broadcast use vstd::std_specs::vec::group_vec_axioms;

/// The word a group kind is stored as.
pub open spec fn kind_storage(kind: FilterGroupKind) -> Seq<char> {
    match kind {
        FilterGroupKind::All => "all"@,
        FilterGroupKind::Any => "any"@,
    }
}

/// The group kind a stored word stands for: `any`, and `all` for every other word.
pub open spec fn kind_from_storage(value: Seq<char>) -> FilterGroupKind {
    if value == "any"@ {
        FilterGroupKind::Any
    } else {
        FilterGroupKind::All
    }
}

/// The label a group kind is shown with.
pub open spec fn kind_label(kind: FilterGroupKind) -> Seq<char> {
    match kind {
        FilterGroupKind::All => "All"@,
        FilterGroupKind::Any => "Any"@,
    }
}

impl FilterGroupKind {
    /// The group kind a stored word stands for.
    pub fn from_storage(value: &str) -> (kind: FilterGroupKind)
        ensures
            kind == kind_from_storage(value@),
    {
        if str_eq(value, "any") {
            FilterGroupKind::Any
        } else {
            FilterGroupKind::All
        }
    }

    /// The word this group kind is stored as.
    pub fn as_storage(self) -> (s: &'static str)
        ensures
            s@ == kind_storage(self),
    {
        match self {
            FilterGroupKind::All => "all",
            FilterGroupKind::Any => "any",
        }
    }

    /// The label this group kind is shown with.
    pub fn label(self) -> (s: &'static str)
        ensures
            s@ == kind_label(self),
    {
        match self {
            FilterGroupKind::All => "All",
            FilterGroupKind::Any => "Any",
        }
    }
}

/// Law: a group kind read back from the word it is stored as is the same kind.
pub proof fn lemma_kind_storage_round_trip(kind: FilterGroupKind)
    ensures
        kind_from_storage(kind_storage(kind)) == kind,
{
    reveal_strlit("all");
    reveal_strlit("any");
    assert("all"@ != "any"@) by {
        assert("all"@[1] != "any"@[1]);
    }
}

/// The group that matches every work item: `all` of nothing.
pub open spec fn match_all_group() -> DraftGroup {
    DraftGroup { kind: FilterGroupKind::All, elements: Seq::empty() }
}

/// The clause an "add label" button inserts: empty key, equal to the empty value.
pub open spec fn empty_clause() -> DraftClause {
    DraftClause { key: Seq::empty(), mode: DraftMode::Equals(Seq::empty()) }
}

impl FilterGroupDraft {
    /// The group that matches every work item.
    pub fn match_all() -> (g: FilterGroupDraft)
        ensures
            g@ == match_all_group(),
    {
        let g = FilterGroupDraft { kind: FilterGroupKind::All, elements: Vec::new() };
        assert(g@.elements =~= Seq::<DraftElement>::empty());
        g
    }
}

impl FilterClauseDraft {
    /// The clause an "add label" button inserts.
    pub fn empty() -> (c: FilterClauseDraft)
        ensures
            c@ == empty_clause(),
    {
        FilterClauseDraft { key: String::new(), mode: FilterClauseMode::Equals { value: String::new() } }
    }
}

/// The word a clause mode is stored as in the mode selector.
pub open spec fn mode_storage(mode: DraftMode) -> Seq<char> {
    match mode {
        DraftMode::Equals(_) => "equals"@,
        DraftMode::NotEquals(_) => "not_equals"@,
        DraftMode::Present => "present"@,
        DraftMode::Absent => "absent"@,
        DraftMode::HasNoValue => "no_value"@,
        DraftMode::HasValueOrAbsent => "has_value_or_absent"@,
        DraftMode::IsIn(_) => "is_in"@,
    }
}

/// The single value a mode carries over when the mode changes: its value, or
/// the first value of its list, or nothing.
pub open spec fn primary_value(mode: DraftMode) -> Seq<char> {
    match mode {
        DraftMode::Equals(v) => v,
        DraftMode::NotEquals(v) => v,
        DraftMode::IsIn(vs) => if vs.len() > 0 {
            vs[0]
        } else {
            Seq::empty()
        },
        _ => Seq::empty(),
    }
}

/// The list a mode carries over when it becomes `is_in`: its list, or its
/// value unless that is blank, or nothing.
pub open spec fn list_values(mode: DraftMode) -> Seq<Seq<char>> {
    match mode {
        DraftMode::IsIn(vs) => vs,
        DraftMode::Equals(v) => if trim(v).len() > 0 {
            seq![v]
        } else {
            Seq::empty()
        },
        DraftMode::NotEquals(v) => if trim(v).len() > 0 {
            seq![v]
        } else {
            Seq::empty()
        },
        _ => Seq::empty(),
    }
}

/// The mode chosen by the stored word `value`, keeping what it can of `current`;
/// an unknown word chooses `equals`.
pub open spec fn mode_from_storage(value: Seq<char>, current: DraftMode) -> DraftMode {
    if value == "not_equals"@ {
        DraftMode::NotEquals(primary_value(current))
    } else if value == "present"@ {
        DraftMode::Present
    } else if value == "absent"@ {
        DraftMode::Absent
    } else if value == "no_value"@ {
        DraftMode::HasNoValue
    } else if value == "has_value_or_absent"@ {
        DraftMode::HasValueOrAbsent
    } else if value == "is_in"@ {
        DraftMode::IsIn(list_values(current))
    } else {
        DraftMode::Equals(primary_value(current))
    }
}

fn copy_strings(v: &Vec<String>) -> (r: Vec<String>)
    ensures
        strings_view(r@) == strings_view(v@),
{
    let mut r: Vec<String> = Vec::new();
    let mut i: usize = 0;
    while i < v.len()
        invariant
            i <= v.len(),
            strings_view(r@) == strings_view(v@).take(i as int),
        decreases v.len() - i,
    {
        let ghost before = r@;
        let s = copy_string(&v[i]);
        r.push(s);
        assert(strings_view(r@) =~= strings_view(before).push(s@));
        assert(strings_view(v@).take(i + 1) =~= strings_view(v@).take(i as int).push(v@[i as int]@));
        i = i + 1;
    }
    assert(strings_view(v@).take(v.len() as int) =~= strings_view(v@));
    r
}

impl FilterClauseMode {
    /// The mode chosen by the stored word `value`, keeping what it can of `current`.
    pub fn from_storage(value: &str, current: &FilterClauseMode) -> (mode: FilterClauseMode)
        ensures
            mode@ == mode_from_storage(value@, current@),
    {
        if str_eq(value, "not_equals") {
            FilterClauseMode::NotEquals { value: current.primary_value() }
        } else if str_eq(value, "present") {
            FilterClauseMode::Present
        } else if str_eq(value, "absent") {
            FilterClauseMode::Absent
        } else if str_eq(value, "no_value") {
            FilterClauseMode::HasNoValue
        } else if str_eq(value, "has_value_or_absent") {
            FilterClauseMode::HasValueOrAbsent
        } else if str_eq(value, "is_in") {
            FilterClauseMode::IsIn { values: current.list_values() }
        } else {
            FilterClauseMode::Equals { value: current.primary_value() }
        }
    }

    /// The word this mode is stored as.
    pub fn as_storage(&self) -> (s: &'static str)
        ensures
            s@ == mode_storage(self@),
    {
        match self {
            FilterClauseMode::Equals { .. } => "equals",
            FilterClauseMode::NotEquals { .. } => "not_equals",
            FilterClauseMode::Present => "present",
            FilterClauseMode::Absent => "absent",
            FilterClauseMode::HasNoValue => "no_value",
            FilterClauseMode::HasValueOrAbsent => "has_value_or_absent",
            FilterClauseMode::IsIn { .. } => "is_in",
        }
    }

    /// The single value this mode carries over to another mode.
    pub fn primary_value(&self) -> (v: String)
        ensures
            v@ == primary_value(self@),
    {
        match self {
            FilterClauseMode::Equals { value } => copy_string(value),
            FilterClauseMode::NotEquals { value } => copy_string(value),
            FilterClauseMode::IsIn { values } => {
                if values.len() > 0 {
                    copy_string(&values[0])
                } else {
                    String::new()
                }
            },
            _ => String::new(),
        }
    }

    /// The list this mode carries over to `is_in`.
    pub fn list_values(&self) -> (vs: Vec<String>)
        ensures
            strings_view(vs@) == list_values(self@),
    {
        match self {
            FilterClauseMode::IsIn { values } => copy_strings(values),
            FilterClauseMode::Equals { value } | FilterClauseMode::NotEquals { value } => {
                if !is_blank(value.as_str()) {
                    let mut vs: Vec<String> = Vec::new();
                    vs.push(copy_string(value));
                    assert(strings_view(vs@) =~= seq![value@]);
                    vs
                } else {
                    let vs: Vec<String> = Vec::new();
                    assert(strings_view(vs@) =~= Seq::<Seq<char>>::empty());
                    vs
                }
            },
            _ => {
                let vs: Vec<String> = Vec::new();
                assert(strings_view(vs@) =~= Seq::<Seq<char>>::empty());
                vs
            },
        }
    }
}

/// Law: choosing a clause's own mode in the mode selector leaves the clause unchanged.
pub proof fn lemma_mode_storage_round_trip(mode: DraftMode)
    ensures
        mode_from_storage(mode_storage(mode), mode) == mode,
{
    reveal_strlit("equals");
    reveal_strlit("not_equals");
    reveal_strlit("present");
    reveal_strlit("absent");
    reveal_strlit("no_value");
    reveal_strlit("has_value_or_absent");
    reveal_strlit("is_in");
    assert("equals"@ != "not_equals"@ && "equals"@ != "present"@ && "equals"@ != "absent"@
        && "equals"@ != "no_value"@ && "equals"@ != "has_value_or_absent"@ && "equals"@
        != "is_in"@) by {
        assert("equals"@[0] != "not_equals"@[0]);
        assert("equals"@[0] != "present"@[0]);
        assert("equals"@[0] != "absent"@[0]);
        assert("equals"@[0] != "no_value"@[0]);
        assert("equals"@[0] != "has_value_or_absent"@[0]);
        assert("equals"@[0] != "is_in"@[0]);
    }
    assert("not_equals"@ != "present"@) by { assert("not_equals"@[0] != "present"@[0]); }
    assert("not_equals"@ != "absent"@) by { assert("not_equals"@[0] != "absent"@[0]); }
    assert("not_equals"@ != "has_value_or_absent"@) by { assert("not_equals"@[0] != "has_value_or_absent"@[0]); }
    assert("not_equals"@ != "is_in"@) by { assert("not_equals"@[0] != "is_in"@[0]); }
    assert("not_equals"@ != "no_value"@) by { assert("not_equals"@[2] != "no_value"@[2]); }
    assert("present"@ != "absent"@) by { assert("present"@[0] != "absent"@[0]); }
    assert("present"@ != "no_value"@) by { assert("present"@[0] != "no_value"@[0]); }
    assert("present"@ != "has_value_or_absent"@) by { assert("present"@[0] != "has_value_or_absent"@[0]); }
    assert("present"@ != "is_in"@) by { assert("present"@[0] != "is_in"@[0]); }
    assert("absent"@ != "no_value"@) by { assert("absent"@[0] != "no_value"@[0]); }
    assert("absent"@ != "has_value_or_absent"@) by { assert("absent"@[0] != "has_value_or_absent"@[0]); }
    assert("absent"@ != "is_in"@) by { assert("absent"@[0] != "is_in"@[0]); }
    assert("no_value"@ != "has_value_or_absent"@) by { assert("no_value"@[0] != "has_value_or_absent"@[0]); }
    assert("no_value"@ != "is_in"@) by { assert("no_value"@[0] != "is_in"@[0]); }
    assert("has_value_or_absent"@ != "is_in"@) by { assert("has_value_or_absent"@[0] != "is_in"@[0]); }
}

} // verus!

verus! {

/// One change the structured filter editor makes to the group at a path.
///
/// The clause changes and `Remove` address a member of that group by index.
#[derive(Debug)]
pub enum FilterEdit {
    SetKind(FilterGroupKind),
    AddClause,
    AddGroup,
    Remove(usize),
    SetClauseKey(usize, String),
    SetClauseMode(usize, String),
    SetClauseValue(usize, String),
    SetClauseValues(usize, Vec<String>),
}

/// The mathematical value of an editor change.
pub enum DraftEdit {
    SetKind(FilterGroupKind),
    AddClause,
    AddGroup,
    Remove(int),
    SetClauseKey(int, Seq<char>),
    SetClauseMode(int, Seq<char>),
    SetClauseValue(int, Seq<char>),
    SetClauseValues(int, Seq<Seq<char>>),
}

impl View for FilterEdit {
    type V = DraftEdit;

    open spec fn view(&self) -> DraftEdit {
        match self {
            FilterEdit::SetKind(k) => DraftEdit::SetKind(*k),
            FilterEdit::AddClause => DraftEdit::AddClause,
            FilterEdit::AddGroup => DraftEdit::AddGroup,
            FilterEdit::Remove(i) => DraftEdit::Remove(*i as int),
            FilterEdit::SetClauseKey(i, k) => DraftEdit::SetClauseKey(*i as int, k@),
            FilterEdit::SetClauseMode(i, m) => DraftEdit::SetClauseMode(*i as int, m@),
            FilterEdit::SetClauseValue(i, v) => DraftEdit::SetClauseValue(*i as int, v@),
            FilterEdit::SetClauseValues(i, vs) => DraftEdit::SetClauseValues(
                *i as int,
                strings_view(vs@),
            ),
        }
    }
}

/// The clause after a clause change; a value change only reaches the modes that
/// hold such a value.
pub open spec fn edit_clause(c: DraftClause, edit: DraftEdit) -> DraftClause {
    match edit {
        DraftEdit::SetClauseKey(_, k) => DraftClause { key: k, mode: c.mode },
        DraftEdit::SetClauseMode(_, m) => DraftClause { key: c.key, mode: mode_from_storage(m, c.mode) },
        DraftEdit::SetClauseValue(_, v) => DraftClause {
            key: c.key,
            mode: match c.mode {
                DraftMode::Equals(_) => DraftMode::Equals(v),
                DraftMode::NotEquals(_) => DraftMode::NotEquals(v),
                _ => c.mode,
            },
        },
        DraftEdit::SetClauseValues(_, vs) => DraftClause {
            key: c.key,
            mode: match c.mode {
                DraftMode::IsIn(_) => DraftMode::IsIn(vs),
                _ => c.mode,
            },
        },
        _ => c,
    }
}

/// The index a clause change addresses.
pub open spec fn clause_edit_index(edit: DraftEdit) -> Option<int> {
    match edit {
        DraftEdit::SetClauseKey(i, _) => Some(i),
        DraftEdit::SetClauseMode(i, _) => Some(i),
        DraftEdit::SetClauseValue(i, _) => Some(i),
        DraftEdit::SetClauseValues(i, _) => Some(i),
        _ => None,
    }
}

/// Law: typing a value into a clause of the group keeps the clause's key
/// and its mode word; an equals or not-equals clause then holds the typed
/// value, any other clause is left as it was, and the rest of the group is
/// unchanged.
pub proof fn lemma_set_value_keeps_mode(g: DraftGroup, i: int, v: Seq<char>)
    requires
        0 <= i < g.elements.len(),
        g.elements[i] is Clause,
    ensures
        ({
            let c = g.elements[i]->Clause_0;
            let r = apply_edit(g, DraftEdit::SetClauseValue(i, v));
            &&& r.kind == g.kind
            &&& r.elements.len() == g.elements.len()
            &&& forall|j: int| 0 <= j < g.elements.len() && j != i ==> r.elements[j] == g.elements[j]
            &&& r.elements[i] is Clause
            &&& r.elements[i]->Clause_0.key == c.key
            &&& mode_storage(r.elements[i]->Clause_0.mode) == mode_storage(c.mode)
            &&& (c.mode is Equals || c.mode is NotEquals) ==> primary_value(r.elements[i]->Clause_0.mode) == v
            &&& !(c.mode is Equals || c.mode is NotEquals) ==> r.elements[i]->Clause_0.mode == c.mode
        }),
{
}

/// Law: renaming a clause's key keeps its mode; typing the values of a clause
/// keeps its key and mode word, and gives an is-in clause exactly those
/// values; choosing a mode word that the selector offers gives the clause
/// that mode, under the same key.
pub proof fn lemma_clause_edits_keep_the_rest(c: DraftClause, i: int, k: Seq<char>, vs: Seq<Seq<char>>, word: Seq<char>)
    ensures
        edit_clause(c, DraftEdit::SetClauseKey(i, k)).key == k,
        edit_clause(c, DraftEdit::SetClauseKey(i, k)).mode == c.mode,
        edit_clause(c, DraftEdit::SetClauseValues(i, vs)).key == c.key,
        mode_storage(edit_clause(c, DraftEdit::SetClauseValues(i, vs)).mode) == mode_storage(c.mode),
        c.mode is IsIn ==> edit_clause(c, DraftEdit::SetClauseValues(i, vs)).mode == DraftMode::IsIn(vs),
        !(c.mode is IsIn) ==> edit_clause(c, DraftEdit::SetClauseValues(i, vs)).mode == c.mode,
        edit_clause(c, DraftEdit::SetClauseMode(i, word)).key == c.key,
        (word == "equals"@ || word == "not_equals"@ || word == "present"@ || word == "absent"@
            || word == "no_value"@ || word == "has_value_or_absent"@ || word == "is_in"@)
            ==> mode_storage(edit_clause(c, DraftEdit::SetClauseMode(i, word)).mode) == word,
{
    reveal_strlit("equals");
    reveal_strlit("not_equals");
    reveal_strlit("present");
    reveal_strlit("absent");
    reveal_strlit("no_value");
    reveal_strlit("has_value_or_absent");
    reveal_strlit("is_in");
    assert("equals"@[0] != "not_equals"@[0] && "equals"@[0] != "present"@[0] && "equals"@[0] != "absent"@[0]);
    assert("equals"@[0] != "no_value"@[0] && "equals"@[0] != "has_value_or_absent"@[0] && "equals"@[0] != "is_in"@[0]);
}

/// The group after a change made to it directly; an index that names no member
/// (or, for clause changes, names a nested group) changes nothing.
pub open spec fn apply_edit(g: DraftGroup, edit: DraftEdit) -> DraftGroup {
    match edit {
        DraftEdit::SetKind(k) => DraftGroup { kind: k, elements: g.elements },
        DraftEdit::AddClause => DraftGroup {
            kind: g.kind,
            elements: g.elements.push(DraftElement::Clause(empty_clause())),
        },
        DraftEdit::AddGroup => DraftGroup {
            kind: g.kind,
            elements: g.elements.push(DraftElement::Group(match_all_group())),
        },
        DraftEdit::Remove(i) => if 0 <= i < g.elements.len() {
            DraftGroup { kind: g.kind, elements: g.elements.remove(i) }
        } else {
            g
        },
        _ => {
            let i = clause_edit_index(edit)->Some_0;
            if 0 <= i < g.elements.len() && g.elements[i] is Clause {
                DraftGroup {
                    kind: g.kind,
                    elements: g.elements.update(
                        i,
                        DraftElement::Clause(edit_clause(g.elements[i]->Clause_0, edit)),
                    ),
                }
            } else {
                g
            }
        },
    }
}

/// The draft after a change to the group that `path` leads to from `g`, one
/// member index per nesting level; a path that leads nowhere changes nothing.
pub open spec fn edit_at(g: DraftGroup, path: Seq<usize>, edit: DraftEdit) -> DraftGroup
    decreases path.len(),
{
    if path.len() == 0 {
        apply_edit(g, edit)
    } else {
        let i = path[0] as int;
        if i < g.elements.len() && g.elements[i] is Group {
            DraftGroup {
                kind: g.kind,
                elements: g.elements.update(
                    i,
                    DraftElement::Group(
                        edit_at(g.elements[i]->Group_0, path.subrange(1, path.len() as int), edit),
                    ),
                ),
            }
        } else {
            g
        }
    }
}

/// `draft_elements_view` maps member by member.
pub proof fn lemma_draft_elements_view(ds: Seq<FilterElementDraft>)
    ensures
        draft_elements_view(ds).len() == ds.len(),
        forall|i: int|
            0 <= i < ds.len() ==> #[trigger] draft_elements_view(ds)[i] == draft_element_view(ds[i]),
    decreases ds.len(),
{
    if ds.len() > 0 {
        lemma_draft_elements_view(ds.subrange(0, ds.len() - 1));
    }
}

proof fn lemma_replace_view(old_ds: Seq<FilterElementDraft>, i: int, x: FilterElementDraft)
    requires
        0 <= i < old_ds.len(),
    ensures
        draft_elements_view(old_ds.remove(i).insert(i, x)) == draft_elements_view(old_ds).update(
            i,
            draft_element_view(x),
        ),
{
    let new_ds = old_ds.remove(i).insert(i, x);
    lemma_draft_elements_view(old_ds);
    lemma_draft_elements_view(new_ds);
    assert(draft_elements_view(new_ds) =~= draft_elements_view(old_ds).update(
        i,
        draft_element_view(x),
    ));
}

proof fn lemma_remove_view(old_ds: Seq<FilterElementDraft>, i: int)
    requires
        0 <= i < old_ds.len(),
    ensures
        draft_elements_view(old_ds.remove(i)) == draft_elements_view(old_ds).remove(i),
{
    lemma_draft_elements_view(old_ds);
    lemma_draft_elements_view(old_ds.remove(i));
    assert(draft_elements_view(old_ds.remove(i)) =~= draft_elements_view(old_ds).remove(i));
}

proof fn lemma_push_view(old_ds: Seq<FilterElementDraft>, x: FilterElementDraft)
    ensures
        draft_elements_view(old_ds.push(x)) == draft_elements_view(old_ds).push(draft_element_view(x)),
{
    assert(old_ds.push(x).subrange(0, old_ds.len() as int) =~= old_ds);
}

fn edit_clause_exec(c: &mut FilterClauseDraft, edit: &FilterEdit)
    ensures
        final(c)@ == edit_clause(old(c)@, edit@),
{
    match edit {
        FilterEdit::SetClauseKey(_, k) => {
            c.key = copy_string(k);
        },
        FilterEdit::SetClauseMode(_, m) => {
            let mode = FilterClauseMode::from_storage(m.as_str(), &c.mode);
            c.mode = mode;
        },
        FilterEdit::SetClauseValue(_, v) => {
            match &mut c.mode {
                FilterClauseMode::Equals { value } => {
                    *value = copy_string(v);
                },
                FilterClauseMode::NotEquals { value } => {
                    *value = copy_string(v);
                },
                _ => {},
            }
        },
        FilterEdit::SetClauseValues(_, vs) => {
            match &mut c.mode {
                FilterClauseMode::IsIn { values } => {
                    *values = copy_strings(vs);
                },
                _ => {},
            }
        },
        _ => {},
    }
}

fn apply_edit_exec(g: &mut FilterGroupDraft, edit: &FilterEdit)
    ensures
        final(g)@ == apply_edit(old(g)@, edit@),
{
    proof {
        lemma_draft_elements_view(g.elements@);
    }
    match edit {
        FilterEdit::SetKind(k) => {
            g.kind = *k;
        },
        FilterEdit::AddClause => {
            let c = FilterClauseDraft::empty();
            proof {
                lemma_push_view(g.elements@, FilterElementDraft::Clause(c));
            }
            g.elements.push(FilterElementDraft::Clause(c));
        },
        FilterEdit::AddGroup => {
            let m = FilterGroupDraft::match_all();
            proof {
                lemma_push_view(g.elements@, FilterElementDraft::Group(m));
            }
            g.elements.push(FilterElementDraft::Group(m));
        },
        FilterEdit::Remove(i) => {
            if *i < g.elements.len() {
                proof {
                    lemma_remove_view(g.elements@, *i as int);
                }
                g.elements.remove(*i);
            }
        },
        FilterEdit::SetClauseKey(i, _) | FilterEdit::SetClauseMode(i, _) | FilterEdit::SetClauseValue(
            i,
            _,
        ) | FilterEdit::SetClauseValues(i, _) => {
            let i = *i;
            if i < g.elements.len() {
                let ghost before = g.elements@;
                let e = g.elements.remove(i);
                match e {
                    FilterElementDraft::Clause(mut c) => {
                        edit_clause_exec(&mut c, edit);
                        proof {
                            lemma_replace_view(before, i as int, FilterElementDraft::Clause(c));
                        }
                        g.elements.insert(i, FilterElementDraft::Clause(c));
                    },
                    FilterElementDraft::Group(inner) => {
                        proof {
                            lemma_replace_view(before, i as int, FilterElementDraft::Group(inner));
                            assert(before.remove(i as int).insert(i as int, FilterElementDraft::Group(inner)) =~= before);
                        }
                        g.elements.insert(i, FilterElementDraft::Group(inner));
                    },
                }
            }
        },
    }
}

fn edit_at_depth(g: &mut FilterGroupDraft, path: &Vec<usize>, depth: usize, edit: &FilterEdit)
    requires
        depth <= path.len(),
    ensures
        final(g)@ == edit_at(old(g)@, path@.subrange(depth as int, path.len() as int), edit@),
    decreases path.len() - depth,
{
    if depth == path.len() {
        apply_edit_exec(g, edit);
    } else {
        let i = path[depth];
        proof {
            lemma_draft_elements_view(g.elements@);
            assert(path@.subrange(depth as int, path.len() as int)[0] == i);
            assert(path@.subrange(depth as int, path.len() as int).subrange(
                1,
                path.len() - depth,
            ) =~= path@.subrange(depth + 1, path.len() as int));
        }
        if i < g.elements.len() {
            let ghost before = g.elements@;
            let e = g.elements.remove(i);
            match e {
                FilterElementDraft::Group(mut child) => {
                    edit_at_depth(&mut child, path, depth + 1, edit);
                    proof {
                        lemma_replace_view(before, i as int, FilterElementDraft::Group(child));
                    }
                    g.elements.insert(i, FilterElementDraft::Group(child));
                },
                FilterElementDraft::Clause(c) => {
                    proof {
                        lemma_replace_view(before, i as int, FilterElementDraft::Clause(c));
                        assert(before.remove(i as int).insert(i as int, FilterElementDraft::Clause(c)) =~= before);
                    }
                    g.elements.insert(i, FilterElementDraft::Clause(c));
                },
            }
        }
    }
}

/// Applies one editor change to the group that `path` leads to.
pub fn edit_filter_draft(draft: &mut FilterGroupDraft, path: &Vec<usize>, edit: &FilterEdit)
    ensures
        final(draft)@ == edit_at(old(draft)@, path@, edit@),
{
    assert(path@.subrange(0, path.len() as int) =~= path@);
    edit_at_depth(draft, path, 0, edit);
}

/// Removes the member at `index` of the group that `parent_path` leads to, if there is one.
pub fn remove_filter_element(draft: &mut FilterGroupDraft, parent_path: &Vec<usize>, index: usize)
    ensures
        final(draft)@ == edit_at(old(draft)@, parent_path@, DraftEdit::Remove(index as int)),
{
    edit_filter_draft(draft, parent_path, &FilterEdit::Remove(index));
}

} // verus!
