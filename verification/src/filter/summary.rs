use vstd::prelude::*;

use crate::filter::convert::{
    draft_element_view, draft_elements_view, strings_view, FilterClauseDraft, FilterClauseMode,
    FilterElementDraft, FilterGroupDraft,
};
use crate::filter::draft::{DraftClause, DraftElement, DraftGroup, DraftMode, FilterGroupKind};
use crate::filter::editor::lemma_draft_elements_view;
use crate::text::{
    chars_of, decimal, join, join_strings, push_decimal, string_of_range, trim, trim_bounds, views,
};

verus! {

broadcast use vstd::std_specs::vec::group_vec_axioms;

/// The one-line description of a clause.
pub open spec fn clause_summary_text(c: DraftClause) -> Seq<char> {
    match c.mode {
        DraftMode::Equals(v) => c.key + " is "@ + v,
        DraftMode::NotEquals(v) => c.key + " is not "@ + v,
        DraftMode::Present => c.key + " present"@,
        DraftMode::Absent => c.key + " absent"@,
        DraftMode::HasNoValue => c.key + " has no value"@,
        DraftMode::HasValueOrAbsent => c.key + " has a value or is absent"@,
        DraftMode::IsIn(vs) => c.key + " is any of "@ + join(vs, ", "@),
    }
}

/// The word between member descriptions of a group.
pub open spec fn joiner_text(kind: FilterGroupKind) -> Seq<char> {
    match kind {
        FilterGroupKind::All => " and "@,
        FilterGroupKind::Any => " or "@,
    }
}

/// The one-line description of a group: `Match all` for an empty group, else
/// its members' descriptions joined by `and` or `or`, nested groups in brackets.
pub open spec fn group_summary_text(g: DraftGroup) -> Seq<char>
    decreases g,
{
    if g.elements.len() == 0 {
        "Match all"@
    } else {
        join(element_summaries_text(g.elements), joiner_text(g.kind))
    }
}

/// The descriptions of a sequence of members.
pub open spec fn element_summaries_text(es: Seq<DraftElement>) -> Seq<Seq<char>>
    decreases es,
{
    if es.len() == 0 {
        Seq::empty()
    } else {
        element_summaries_text(es.subrange(0, es.len() - 1)).push(
            element_summary_text(es[es.len() - 1]),
        )
    }
}

/// Law: a not-equals clause reads `<key> is not <value>` and an equals
/// clause `<key> is <value>`, so the two are never described alike; two
/// clauses of one of these modes on one key are described alike only when
/// their values agree. A group of one clause is described by that clause.
pub proof fn lemma_negation_is_described(key: Seq<char>, v: Seq<char>, w: Seq<char>, kind: FilterGroupKind)
    ensures
        clause_summary_text(DraftClause { key, mode: DraftMode::NotEquals(v) }) == key + " is not "@ + v,
        clause_summary_text(DraftClause { key, mode: DraftMode::Equals(v) }) == key + " is "@ + v,
        clause_summary_text(DraftClause { key, mode: DraftMode::NotEquals(v) })
            != clause_summary_text(DraftClause { key, mode: DraftMode::Equals(v) }),
        clause_summary_text(DraftClause { key, mode: DraftMode::NotEquals(v) })
            == clause_summary_text(DraftClause { key, mode: DraftMode::NotEquals(w) }) ==> v == w,
        clause_summary_text(DraftClause { key, mode: DraftMode::Equals(v) })
            == clause_summary_text(DraftClause { key, mode: DraftMode::Equals(w) }) ==> v == w,
        group_summary_text(DraftGroup {
            kind,
            elements: seq![DraftElement::Clause(DraftClause { key, mode: DraftMode::NotEquals(v) })],
        }) == key + " is not "@ + v,
{
    reveal_strlit(" is not ");
    reveal_strlit(" is ");
    let n = key + " is not "@ + v;
    let e = key + " is "@ + v;
    assert(n.len() == e.len() + 4);
    let n2 = key + " is not "@ + w;
    let e2 = key + " is "@ + w;
    if n == n2 {
        assert(v =~= n.skip(key.len() + 8int));
        assert(w =~= n2.skip(key.len() + 8int));
    }
    if e == e2 {
        assert(v =~= e.skip(key.len() + 4int));
        assert(w =~= e2.skip(key.len() + 4int));
    }
    let es = seq![DraftElement::Clause(DraftClause { key, mode: DraftMode::NotEquals(v) })];
    assert(es.subrange(0, 0) =~= Seq::<DraftElement>::empty());
    assert(element_summaries_text(es.subrange(0, 0)) == Seq::<Seq<char>>::empty());
    assert(element_summary_text(es[0]) == n);
    assert(element_summaries_text(es) =~= seq![n]);
}

/// Law: on one key, the modes not-equals, present, absent, has-no-value and
/// has-a-value-or-absent are told apart by their descriptions: two such
/// clauses are described alike only when their modes (and values) agree.
pub proof fn lemma_summary_tells_modes(key: Seq<char>, m1: DraftMode, m2: DraftMode)
    requires
        !(m1 is Equals) && !(m1 is IsIn),
        !(m2 is Equals) && !(m2 is IsIn),
    ensures
        clause_summary_text(DraftClause { key, mode: m1 }) == clause_summary_text(DraftClause { key, mode: m2 })
            ==> m1 == m2,
{
    reveal_strlit(" is not ");
    reveal_strlit(" present");
    reveal_strlit(" absent");
    reveal_strlit(" has no value");
    reveal_strlit(" has a value or is absent");
    let a = clause_summary_text(DraftClause { key, mode: m1 });
    let b = clause_summary_text(DraftClause { key, mode: m2 });
    let n = key.len() as int;
    if a == b {
        assert(a[n + 1] == b[n + 1]);
        assert(a[n + 5] == b[n + 5]);
        match (m1, m2) {
            (DraftMode::NotEquals(v), DraftMode::NotEquals(w)) => {
                assert(v =~= a.skip(n + 8));
                assert(w =~= b.skip(n + 8));
            },
            _ => {},
        }
    }
}

/// The description of one member.
pub open spec fn element_summary_text(e: DraftElement) -> Seq<char>
    decreases e,
{
    match e {
        DraftElement::Clause(c) => clause_summary_text(c),
        DraftElement::Group(g) => "("@ + group_summary_text(g) + ")"@,
    }
}

/// The one-line description of a clause.
pub fn clause_summary(clause: &FilterClauseDraft) -> (s: String)
    ensures
        s@ == clause_summary_text(clause@),
{
    let mut s = crate::text::copy_string(&clause.key);
    match &clause.mode {
        FilterClauseMode::Equals { value } => {
            s.append(" is ");
            s.append(value.as_str());
        },
        FilterClauseMode::NotEquals { value } => {
            s.append(" is not ");
            s.append(value.as_str());
        },
        FilterClauseMode::Present => s.append(" present"),
        FilterClauseMode::Absent => s.append(" absent"),
        FilterClauseMode::HasNoValue => s.append(" has no value"),
        FilterClauseMode::HasValueOrAbsent => s.append(" has a value or is absent"),
        FilterClauseMode::IsIn { values } => {
            s.append(" is any of ");
            let joined = join_list_values(values);
            s.append(joined.as_str());
        },
    }
    s
}

/// The values of an `is_in` clause as one text, separated by `, `.
pub fn join_list_values(values: &Vec<String>) -> (s: String)
    ensures
        s@ == join(strings_view(values@), ", "@),
{
    let s = join_strings(values, ", ");
    assert(views(values@) =~= strings_view(values@));
    s
}

fn element_summary(e: &FilterElementDraft) -> (s: String)
    ensures
        s@ == element_summary_text(e@),
    decreases e,
{
    match e {
        FilterElementDraft::Clause(c) => clause_summary(c),
        FilterElementDraft::Group(g) => {
            let mut s = String::from_str("(");
            let inner = group_summary(g);
            s.append(inner.as_str());
            s.append(")");
            s
        },
    }
}

/// The one-line description of a group.
pub fn group_summary(group: &FilterGroupDraft) -> (s: String)
    ensures
        s@ == group_summary_text(group@),
    decreases group,
{
    if group.elements.len() == 0 {
        return String::from_str("Match all");
    }
    let ghost dv = draft_elements_view(group.elements@);
    proof {
        lemma_draft_elements_view(group.elements@);
    }
    let mut parts: Vec<String> = Vec::new();
    let mut i: usize = 0;
    while i < group.elements.len()
        invariant
            i <= group.elements.len(),
            dv == draft_elements_view(group.elements@),
            dv.len() == group.elements.len(),
            forall|j: int| 0 <= j < dv.len() ==> #[trigger] dv[j] == draft_element_view(group.elements@[j]),
            views(parts@) == element_summaries_text(dv.take(i as int)),
        decreases group.elements.len() - i,
    {
        proof {
            assert(decreases_to!(group => group.elements[i as int]));
        }
        let part = element_summary(&group.elements[i]);
        let ghost before = parts@;
        parts.push(part);
        proof {
            assert(views(parts@) =~= views(before).push(part@));
            assert(dv.take(i + 1) =~= dv.take(i as int).push(dv[i as int]));
            assert(dv.take(i + 1).subrange(0, i as int) =~= dv.take(i as int));
        }
        i = i + 1;
    }
    assert(dv.take(group.elements.len() as int) =~= dv);
    let joiner = match group.kind {
        FilterGroupKind::All => " and ",
        FilterGroupKind::Any => " or ",
    };
    join_strings(&parts, joiner)
}

/// The attribute naming a group's place in the editor: `root`, or its member
/// indices joined by dots.
pub open spec fn path_attr_text(path: Seq<usize>) -> Seq<char> {
    if path.len() == 0 {
        "root"@
    } else {
        join(path.map_values(|i: usize| decimal(i as nat)), "."@)
    }
}

/// The attribute naming a group's place in the editor.
pub fn filter_path_attr(path: &Vec<usize>) -> (s: String)
    ensures
        s@ == path_attr_text(path@),
{
    if path.len() == 0 {
        return String::from_str("root");
    }
    let mut parts: Vec<String> = Vec::new();
    let mut i: usize = 0;
    while i < path.len()
        invariant
            i <= path.len(),
            views(parts@) == path@.take(i as int).map_values(|k: usize| decimal(k as nat)),
        decreases path.len() - i,
    {
        let mut part = String::new();
        push_decimal(&mut part, path[i] as u64);
        let ghost before = parts@;
        parts.push(part);
        proof {
            assert(views(parts@) =~= views(before).push(part@));
            assert(path@.take(i + 1).map_values(|k: usize| decimal(k as nat)) =~= path@.take(
                i as int,
            ).map_values(|k: usize| decimal(k as nat)).push(decimal(path@[i as int] as nat)));
        }
        i = i + 1;
    }
    assert(path@.take(path.len() as int) =~= path@);
    join_strings(&parts, ".")
}

/// Whether a character separates the values of a typed list.
pub open spec fn is_list_separator(c: char) -> bool {
    c == ',' || c == '\n'
}

/// The pieces of `s` between list separators (one piece more than separators).
pub open spec fn list_pieces(s: Seq<char>) -> Seq<Seq<char>>
    decreases s.len(),
{
    if s.len() == 0 {
        seq![Seq::empty()]
    } else {
        let p = list_pieces(s.subrange(0, s.len() - 1));
        let c = s[s.len() - 1];
        if is_list_separator(c) {
            p.push(Seq::empty())
        } else {
            p.update(p.len() - 1, p[p.len() - 1].push(c))
        }
    }
}

/// The pieces, each trimmed, leaving out those that are blank.
pub open spec fn nonblank_trimmed(ps: Seq<Seq<char>>) -> Seq<Seq<char>>
    decreases ps.len(),
{
    if ps.len() == 0 {
        Seq::empty()
    } else {
        let r = nonblank_trimmed(ps.subrange(0, ps.len() - 1));
        let t = trim(ps[ps.len() - 1]);
        if t.len() > 0 {
            r.push(t)
        } else {
            r
        }
    }
}

/// The values typed into a list field: split at commas and line breaks,
/// trimmed, blank values dropped.
pub open spec fn split_list_text(s: Seq<char>) -> Seq<Seq<char>> {
    nonblank_trimmed(list_pieces(s))
}

proof fn lemma_list_pieces_nonempty(s: Seq<char>)
    ensures
        list_pieces(s).len() >= 1,
    decreases s.len(),
{
    if s.len() > 0 {
        lemma_list_pieces_nonempty(s.subrange(0, s.len() - 1));
    }
}

/// Splits a typed list into its values.
pub fn split_list_values(value: &str) -> (values: Vec<String>)
    ensures
        views(values@) == split_list_text(value@),
{
    let cs = chars_of(value);
    let mut out: Vec<String> = Vec::new();
    let ghost mut done: Seq<Seq<char>> = Seq::empty();
    let mut start: usize = 0;
    let mut j: usize = 0;
    proof {
        assert(cs@.take(0) =~= Seq::<char>::empty());
        assert(cs@.subrange(0, 0) =~= Seq::<char>::empty());
        assert(done.push(Seq::<char>::empty()) =~= seq![Seq::<char>::empty()]);
    }
    while j < cs.len()
        invariant
            start <= j <= cs.len(),
            list_pieces(cs@.take(j as int)) == done.push(cs@.subrange(start as int, j as int)),
            views(out@) == nonblank_trimmed(done),
        decreases cs.len() - j,
    {
        let c = cs[j];
        proof {
            assert(cs@.take(j + 1).subrange(0, j as int) =~= cs@.take(j as int));
            lemma_list_pieces_nonempty(cs@.take(j as int));
        }
        if c == ',' || c == '\n' {
            let (a, b) = trim_bounds(&cs, start, j);
            if a < b {
                let piece = string_of_range(&cs, a, b);
                let ghost before = out@;
                out.push(piece);
                assert(views(out@) =~= views(before).push(piece@));
            }
            proof {
                let piece = cs@.subrange(start as int, j as int);
                assert(done.push(piece).subrange(0, done.len() as int) =~= done);
                done = done.push(piece);
                assert(cs@.subrange(j + 1, j + 1) =~= Seq::<char>::empty());
            }
            start = j + 1;
        } else {
            proof {
                assert(cs@.subrange(start as int, j + 1) =~= cs@.subrange(start as int, j as int).push(c));
                assert(done.push(cs@.subrange(start as int, j as int)).update(
                    done.len() as int,
                    cs@.subrange(start as int, j as int).push(c),
                ) =~= done.push(cs@.subrange(start as int, j + 1)));
            }
        }
        j = j + 1;
    }
    let (a, b) = trim_bounds(&cs, start, cs.len());
    let ghost last = cs@.subrange(start as int, cs.len() as int);
    proof {
        assert(cs@.take(cs.len() as int) =~= value@);
        assert(done.push(last).subrange(0, done.len() as int) =~= done);
    }
    if a < b {
        let piece = string_of_range(&cs, a, b);
        let ghost before = out@;
        out.push(piece);
        assert(views(out@) =~= views(before).push(piece@));
    }
    out
}

} // verus!

verus! {

/// A value that a typed list can carry: not blank, without surrounding white
/// space, and without commas or line breaks.
pub open spec fn list_value_ok(v: Seq<char>) -> bool {
    &&& v.len() > 0
    &&& trim(v) == v
    &&& forall|i: int| 0 <= i < v.len() ==> !is_list_separator(#[trigger] v[i])
}

proof fn lemma_list_pieces_append(a: Seq<char>, c: char, b: Seq<char>)
    requires
        is_list_separator(c),
    ensures
        list_pieces(a.push(c) + b) == list_pieces(a) + list_pieces(b),
    decreases b.len(),
{
    if b.len() == 0 {
        assert(a.push(c) + b =~= a.push(c));
        assert(a.push(c).subrange(0, a.len() as int) =~= a);
        assert(list_pieces(b) =~= seq![Seq::<char>::empty()]);
    } else {
        let b0 = b.subrange(0, b.len() - 1);
        lemma_list_pieces_append(a, c, b0);
        let whole = a.push(c) + b;
        assert(whole.subrange(0, whole.len() - 1) =~= a.push(c) + b0);
        assert(whole[whole.len() - 1] == b[b.len() - 1]);
        lemma_list_pieces_nonempty(b0);
        lemma_list_pieces_nonempty(a);
        let pa = list_pieces(a);
        let pb0 = list_pieces(b0);
        if is_list_separator(b[b.len() - 1]) {
            assert((pa + pb0).push(Seq::<char>::empty()) =~= pa + pb0.push(Seq::<char>::empty()));
        } else {
            let d = b[b.len() - 1];
            assert((pa + pb0).update((pa + pb0).len() - 1, (pa + pb0)[(pa + pb0).len() - 1].push(d))
                =~= pa + pb0.update(pb0.len() - 1, pb0[pb0.len() - 1].push(d)));
        }
    }
}

proof fn lemma_list_pieces_single(v: Seq<char>)
    requires
        forall|i: int| 0 <= i < v.len() ==> !is_list_separator(#[trigger] v[i]),
    ensures
        list_pieces(v) == seq![v],
    decreases v.len(),
{
    if v.len() > 0 {
        let init = v.subrange(0, v.len() - 1);
        assert forall|i: int| 0 <= i < init.len() implies !is_list_separator(#[trigger] init[i]) by {
            assert(init[i] == v[i]);
        }
        lemma_list_pieces_single(init);
        assert(v.subrange(0, v.len() - 1) == init);
        assert(init.push(v[v.len() - 1]) =~= v);
        assert(seq![init].update(0, init.push(v[v.len() - 1])) =~= seq![v]);
    } else {
        assert(v =~= Seq::<char>::empty());
    }
}

proof fn lemma_nonblank_trimmed_append(p: Seq<Seq<char>>, q: Seq<Seq<char>>)
    ensures
        nonblank_trimmed(p + q) == nonblank_trimmed(p) + nonblank_trimmed(q),
    decreases q.len(),
{
    if q.len() == 0 {
        assert(p + q =~= p);
        assert(nonblank_trimmed(p) + nonblank_trimmed(q) =~= nonblank_trimmed(p));
    } else {
        let q0 = q.subrange(0, q.len() - 1);
        lemma_nonblank_trimmed_append(p, q0);
        assert((p + q).subrange(0, (p + q).len() - 1) =~= p + q0);
        assert((p + q)[(p + q).len() - 1] == q[q.len() - 1]);
        let t = trim(q[q.len() - 1]);
        if t.len() > 0 {
            assert((nonblank_trimmed(p) + nonblank_trimmed(q0)).push(t) =~= nonblank_trimmed(p) + nonblank_trimmed(q0).push(t));
        }
    }
}

proof fn lemma_nonblank_single(x: Seq<char>)
    ensures
        nonblank_trimmed(seq![x]) == (if trim(x).len() > 0 { seq![trim(x)] } else { Seq::<Seq<char>>::empty() }),
{
    let ps = seq![x];
    assert(ps.subrange(0, 0) =~= Seq::<Seq<char>>::empty());
    assert(nonblank_trimmed(Seq::<Seq<char>>::empty()) == Seq::<Seq<char>>::empty());
    assert(ps[0] == x);
    if trim(x).len() > 0 {
        assert(Seq::<Seq<char>>::empty().push(trim(x)) =~= seq![trim(x)]);
    }
}

proof fn lemma_trim_space_prefix(v: Seq<char>)
    requires
        list_value_ok(v),
    ensures
        trim(seq![' '] + v) == v,
{
    let s = seq![' '] + v;
    assert(s.drop_first() =~= v);
    assert(crate::text::trim_start(s) == crate::text::trim_start(v));
    crate::text::lemma_trim_start_shape(v);
    let ts = crate::text::trim_start(v);
    crate::text::lemma_trim_end_shape(ts);
    if ts.len() < v.len() {
        assert(crate::text::trim_end(ts).len() <= ts.len());
        assert(trim(v).len() < v.len());
    }
    assert(ts.len() == v.len());
    let k = choose|k: int| 0 <= k <= v.len() && crate::text::trim_start(v) == v.subrange(k, v.len() as int)
        && crate::text::all_ws(v.subrange(0, k)) && (k < v.len() ==> !crate::text::is_ws(v[k]));
    assert(k == 0);
    assert(ts =~= v);
}

/// Law: the values that the list field writes (joined with `, `) read back
/// as the same values, where each is a value a typed list can carry.
pub proof fn lemma_list_values_round_trip(vs: Seq<Seq<char>>)
    requires
        forall|i: int| 0 <= i < vs.len() ==> list_value_ok(#[trigger] vs[i]),
    ensures
        split_list_text(join(vs, ", "@)) == vs,
    decreases vs.len(),
{
    reveal_strlit(", ");
    if vs.len() == 0 {
        assert(list_pieces(Seq::<char>::empty()) =~= seq![Seq::<char>::empty()]);
        lemma_nonblank_single(Seq::<char>::empty());
        assert(trim(Seq::<char>::empty()).len() == 0);
        assert(vs =~= Seq::<Seq<char>>::empty());
    } else if vs.len() == 1 {
        lemma_list_pieces_single(vs[0]);
        lemma_nonblank_single(vs[0]);
        assert(join(vs, ", "@) == vs[0]);
        assert(seq![vs[0]] =~= vs);
    } else {
        let init = vs.subrange(0, vs.len() - 1);
        let last = vs[vs.len() - 1];
        assert forall|i: int| 0 <= i < init.len() implies list_value_ok(#[trigger] init[i]) by {
            assert(init[i] == vs[i]);
        }
        lemma_list_values_round_trip(init);
        let j = join(init, ", "@);
        assert(join(vs, ", "@) == j + ", "@ + last);
        let tail = seq![' '] + last;
        assert(j + ", "@ + last =~= j.push(',') + tail);
        lemma_list_pieces_append(j, ',', tail);
        assert forall|i: int| 0 <= i < tail.len() implies !is_list_separator(#[trigger] tail[i]) by {
            if i > 0 {
                assert(tail[i] == last[i - 1]);
            }
        }
        lemma_list_pieces_single(tail);
        lemma_nonblank_trimmed_append(list_pieces(j), seq![tail]);
        lemma_trim_space_prefix(last);
        lemma_nonblank_single(tail);
        assert(nonblank_trimmed(seq![tail]) =~= seq![last]);
        assert(init + seq![last] =~= vs);
    }
}

} // verus!
