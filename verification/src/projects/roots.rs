use vstd::prelude::*;

use crate::items::initial_labels::first_occurrences;
use crate::projects::errors::ProjectError;
use crate::projects::names::{expand_home, expand_home_path_with};
use crate::rich_text::{char_views, split_chars, split_on};
use crate::text::{chars_of, contains_str, is_blank, join, str_eq, string_of, trim, trim_str, views};

verus! {

broadcast use vstd::std_specs::vec::group_vec_axioms;

/// Whether `p` is an absolute path on Unix: it starts at the root.
pub open spec fn is_absolute(p: Seq<char>) -> bool {
    p.len() > 0 && p[0] == '/'
}

/// The extra writable roots of an agent, normalised in order: each root is
/// trimmed, a blank one skipped, `~` expanded; the first root that does not
/// then start at `/` is refused (by its trimmed text); of equal roots the
/// first is kept.
pub open spec fn normalized_roots(roots: Seq<Seq<char>>, home: Option<Seq<char>>) -> Result<Seq<Seq<char>>, Seq<char>>
    decreases roots.len(),
{
    if roots.len() == 0 {
        Ok(Seq::empty())
    } else {
        match normalized_roots(roots.drop_last(), home) {
            Err(e) => Err(e),
            Ok(acc) => {
                let r = trim(roots.last());
                if r.len() == 0 {
                    Ok(acc)
                } else {
                    let e = expand_home(r, home);
                    if !is_absolute(e) {
                        Err(r)
                    } else if acc.contains(e) {
                        Ok(acc)
                    } else {
                        Ok(acc.push(e))
                    }
                }
            },
        }
    }
}

/// Normalised roots hold no root twice and only absolute paths.
pub proof fn lemma_normalized_roots_shape(roots: Seq<Seq<char>>, home: Option<Seq<char>>)
    ensures
        normalized_roots(roots, home) matches Ok(out) ==> {
            &&& forall|i: int, j: int| 0 <= i < j < out.len() ==> #[trigger] out[i] != #[trigger] out[j]
            &&& forall|i: int| 0 <= i < out.len() ==> is_absolute(#[trigger] out[i])
        },
    decreases roots.len(),
{
    if roots.len() > 0 {
        lemma_normalized_roots_shape(roots.drop_last(), home);
        match normalized_roots(roots.drop_last(), home) {
            Ok(acc) => {
                let r = trim(roots.last());
                if r.len() > 0 {
                    let e = expand_home(r, home);
                    if is_absolute(e) && !acc.contains(e) {
                        let out = acc.push(e);
                        assert forall|i: int, j: int| 0 <= i < j < out.len() implies #[trigger] out[i] != #[trigger] out[j] by {
                            if j == out.len() - 1 {
                                assert(out[i] == acc[i]);
                            }
                        }
                        assert forall|i: int| 0 <= i < out.len() implies is_absolute(#[trigger] out[i]) by {
                            if i < acc.len() {
                                assert(out[i] == acc[i]);
                            }
                        }
                    }
                }
            },
            Err(_) => {},
        }
    }
}

/// The roots that are not blank, each trimmed and with `~` expanded, in order.
pub open spec fn expanded_roots(roots: Seq<Seq<char>>, home: Option<Seq<char>>) -> Seq<Seq<char>>
    decreases roots.len(),
{
    if roots.len() == 0 {
        Seq::empty()
    } else {
        let before = expanded_roots(roots.drop_last(), home);
        let r = trim(roots.last());
        if r.len() == 0 {
            before
        } else {
            before.push(expand_home(r, home))
        }
    }
}

/// Whether every root that is not blank expands to an absolute path.
pub open spec fn roots_expand_absolute(roots: Seq<Seq<char>>, home: Option<Seq<char>>) -> bool {
    forall|i: int|
        0 <= i < roots.len() && trim(#[trigger] roots[i]).len() > 0 ==> is_absolute(expand_home(trim(roots[i]), home))
}

/// Law: the roots normalise exactly when every root that is not blank
/// expands to an absolute path, and then they normalise to those expanded
/// roots, each once, in the order of first appearance.
pub proof fn lemma_normalized_roots_law(roots: Seq<Seq<char>>, home: Option<Seq<char>>)
    ensures
        normalized_roots(roots, home) is Ok <==> roots_expand_absolute(roots, home),
        normalized_roots(roots, home) matches Ok(out) ==> out == first_occurrences(expanded_roots(roots, home)),
    decreases roots.len(),
{
    if roots.len() > 0 {
        let t = roots.drop_last();
        let n = roots.len() - 1;
        lemma_normalized_roots_law(t, home);
        assert(roots.last() == roots[n]);
        assert forall|i: int| 0 <= i < n implies t[i] == roots[i] by {}
        let r = trim(roots[n]);
        if roots_expand_absolute(roots, home) {
            assert forall|i: int| 0 <= i < t.len() && trim(#[trigger] t[i]).len() > 0 implies is_absolute(
                expand_home(trim(t[i]), home),
            ) by {
                assert(t[i] == roots[i]);
            }
        }
        if !roots_expand_absolute(t, home) {
            let i = choose|i: int|
                0 <= i < t.len() && trim(#[trigger] t[i]).len() > 0 && !is_absolute(expand_home(trim(t[i]), home));
            assert(roots[i] == t[i]);
        }
        match normalized_roots(t, home) {
            Err(_) => {},
            Ok(acc) => {
                if r.len() > 0 {
                    let e = expand_home(r, home);
                    let x = expanded_roots(t, home);
                    assert(expanded_roots(roots, home) == x.push(e));
                    assert(x.push(e).drop_last() =~= x);
                    if is_absolute(e) {
                        assert forall|i: int| 0 <= i < roots.len() && trim(#[trigger] roots[i]).len() > 0 implies is_absolute(
                            expand_home(trim(roots[i]), home),
                        ) by {
                            if i < n {
                                assert(t[i] == roots[i]);
                            }
                        }
                    }
                } else {
                    assert(expanded_roots(roots, home) == expanded_roots(t, home));
                    assert forall|i: int| 0 <= i < roots.len() && trim(#[trigger] roots[i]).len() > 0 implies is_absolute(
                        expand_home(trim(roots[i]), home),
                    ) by {
                        if i < n {
                            assert(t[i] == roots[i]);
                        }
                    }
                }
            },
        }
    }
}

/// Normalises the extra writable roots of an agent; `home` is the home
/// directory that `~` stands for.
pub fn normalize_agent_extra_writable_roots(roots: Vec<String>, home: Option<&str>) -> (r: Result<Vec<String>, ProjectError>)
    ensures
        match normalized_roots(
            views(roots@),
            match home {
                Some(h) => Some(h@),
                None => None,
            },
        ) {
            Ok(out) => r matches Ok(v) && views(v@) == out,
            Err(bad) => r matches Err(ProjectError::RootNotAbsolute(b)) && b@ == bad,
        },
{
    let ghost h = match home {
        Some(h) => Some(h@),
        None => None::<Seq<char>>,
    };
    let ghost rv = views(roots@);
    let mut out: Vec<String> = Vec::new();
    assert(views(out@) =~= Seq::<Seq<char>>::empty());
    assert(rv.take(0) =~= Seq::<Seq<char>>::empty());
    let mut i: usize = 0;
    while i < roots.len()
        invariant
            i <= roots.len(),
            rv == views(roots@),
            h == match home {
                Some(x) => Some(x@),
                None => None::<Seq<char>>,
            },
            normalized_roots(rv.take(i as int), h) == Ok::<Seq<Seq<char>>, Seq<char>>(views(out@)),
        decreases roots.len() - i,
    {
        assert(rv.take(i + 1).drop_last() =~= rv.take(i as int));
        assert(rv.take(i + 1).last() == roots@[i as int]@);
        let root = trim_str(roots[i].as_str());
        proof {
            crate::display::labels::lemma_trim_idempotent(roots@[i as int]@);
        }
        let ghost acc = views(out@);
        if !is_blank(root.as_str()) {
            let expanded = expand_home_path_with(root.as_str(), home);
            let ec = chars_of(expanded.as_str());
            if !(ec.len() > 0 && ec[0] == '/') {
                proof {
                    let k = i as int;
                    lemma_prefix_error(rv, h, k + 1);
                }
                return Err(ProjectError::RootNotAbsolute(root));
            }
            if !contains_str(&out, expanded.as_str()) {
                let ghost before = views(out@);
                out.push(expanded);
                assert(views(out@) =~= before.push(ec@));
            }
            assert(normalized_roots(rv.take(i + 1), h) == Ok::<Seq<Seq<char>>, Seq<char>>(views(out@)));
        } else {
            assert(normalized_roots(rv.take(i + 1), h) == Ok::<Seq<Seq<char>>, Seq<char>>(acc));
        }
        i = i + 1;
    }
    assert(rv.take(roots.len() as int) =~= rv);
    Ok(out)
}

/// Where a prefix of the roots is refused, so are the roots.
proof fn lemma_prefix_error(roots: Seq<Seq<char>>, home: Option<Seq<char>>, k: int)
    requires
        0 <= k <= roots.len(),
        normalized_roots(roots.take(k), home) is Err,
    ensures
        normalized_roots(roots, home) == normalized_roots(roots.take(k), home),
    decreases roots.len() - k,
{
    if k < roots.len() {
        assert(roots.take(k + 1).take(k) =~= roots.take(k));
        lemma_prefix_error_step(roots.take(k + 1), home, k);
        lemma_prefix_error(roots, home, k + 1);
    } else {
        assert(roots.take(k) =~= roots);
    }
}

proof fn lemma_prefix_error_step(roots: Seq<Seq<char>>, home: Option<Seq<char>>, k: int)
    requires
        0 <= k,
        k + 1 == roots.len(),
        normalized_roots(roots.take(k), home) is Err,
    ensures
        normalized_roots(roots, home) == normalized_roots(roots.take(k), home),
{
    assert(roots.drop_last() =~= roots.take(k));
}

/// Reads the extra writable roots from their text form, one per line.
///
/// Splitting at `\n` gives what `str::lines` gives but for a `\r` before a
/// line break and an empty last line; trimming and skipping blank roots make
/// the two agree.
pub fn parse_agent_extra_writable_roots_text(value: &str, home: Option<&str>) -> (r: Result<Vec<String>, ProjectError>)
    ensures
        match normalized_roots(
            split_on(value@, "\n"@),
            match home {
                Some(h) => Some(h@),
                None => None,
            },
        ) {
            Ok(out) => r matches Ok(v) && views(v@) == out,
            Err(bad) => r matches Err(ProjectError::RootNotAbsolute(b)) && b@ == bad,
        },
{
    let cs = chars_of(value);
    proof {
        reveal_strlit("\n");
    }
    let parts = split_chars(&cs, "\n");
    let mut lines: Vec<String> = Vec::new();
    let mut i: usize = 0;
    while i < parts.len()
        invariant
            i <= parts.len(),
            views(lines@) == char_views(parts@).take(i as int),
        decreases parts.len() - i,
    {
        let line = string_of(&parts[i]);
        let ghost before = views(lines@);
        assert(char_views(parts@)[i as int] == parts@[i as int]@);
        lines.push(line);
        assert(views(lines@) =~= before.push(parts@[i as int]@));
        assert(views(lines@) =~= char_views(parts@).take(i + 1));
        i = i + 1;
    }
    assert(char_views(parts@).take(parts.len() as int) =~= char_views(parts@));
    normalize_agent_extra_writable_roots(lines, home)
}

/// The text form of the extra writable roots: one per line.
pub fn serialize_agent_extra_writable_roots(roots: &Vec<String>) -> (r: String)
    ensures
        r@ == join(views(roots@), "\n"@),
{
    crate::text::join_strings(roots, "\n")
}

/// The pieces of `ps` that name a directory: neither empty nor `.`.
pub open spec fn normal_parts(ps: Seq<Seq<char>>) -> Seq<Seq<char>>
    decreases ps.len(),
{
    if ps.len() == 0 {
        Seq::empty()
    } else {
        let r = normal_parts(ps.drop_last());
        if ps.last().len() > 0 && ps.last() != "."@ {
            r.push(ps.last())
        } else {
            r
        }
    }
}

/// The components of a Unix path, as `Path::components` gives them: `/` for
/// the root of an absolute path, `.` for a leading current directory, then
/// the names between separators, without empty names and without `.`.
pub open spec fn path_components(p: Seq<char>) -> Seq<Seq<char>> {
    let pieces = split_on(p, "/"@);
    if is_absolute(p) {
        seq!["/"@] + normal_parts(pieces)
    } else if pieces[0] == "."@ {
        seq!["."@] + normal_parts(pieces)
    } else {
        normal_parts(pieces)
    }
}

/// `Path::starts_with`: the components of `base` begin those of `p`.
pub open spec fn path_starts_with(p: Seq<char>, base: Seq<char>) -> bool {
    let a = path_components(p);
    let b = path_components(base);
    b.len() <= a.len() && a.take(b.len() as int) == b
}

/// The components of a path.
pub fn components_of(p: &str) -> (r: Vec<String>)
    ensures
        views(r@) == path_components(p@),
{
    let cs = chars_of(p);
    proof {
        reveal_strlit("/");
        reveal_strlit(".");
    }
    let pieces = split_chars(&cs, "/");
    proof {
        crate::rich_text::lemma_split_on_nonempty(p@, "/"@);
    }
    let mut out: Vec<String> = Vec::new();
    let absolute = cs.len() > 0 && cs[0] == '/';
    let dot: Vec<char> = chars_of(".");
    if absolute {
        out.push(String::from_str("/"));
    } else if crate::text::chars_eq(&pieces[0], &dot) {
        out.push(String::from_str("."));
    }
    let ghost head = views(out@);
    let ghost pv = char_views(pieces@);
    let mut i: usize = 0;
    while i < pieces.len()
        invariant
            i <= pieces.len(),
            pv == char_views(pieces@),
            dot@ == "."@,
            views(out@) == head + normal_parts(pv.take(i as int)),
        decreases pieces.len() - i,
    {
        assert(pv.take(i + 1).drop_last() =~= pv.take(i as int));
        assert(pv.take(i + 1).last() == pieces@[i as int]@);
        if pieces[i].len() > 0 && !crate::text::chars_eq(&pieces[i], &dot) {
            let s = string_of(&pieces[i]);
            let ghost before = views(out@);
            out.push(s);
            assert(views(out@) =~= before.push(pieces@[i as int]@));
        }
        i = i + 1;
    }
    assert(pv.take(pieces.len() as int) =~= pv);
    out
}

/// Whether the path `p` lies within the directory `base`, compared by components.
pub fn path_starts_with_exec(p: &str, base: &str) -> (b: bool)
    ensures
        b == path_starts_with(p@, base@),
{
    let a = components_of(p);
    let c = components_of(base);
    if c.len() > a.len() {
        return false;
    }
    let ghost av = views(a@);
    let ghost cv = views(c@);
    let mut i: usize = 0;
    while i < c.len()
        invariant
            i <= c.len() <= a.len(),
            av == views(a@),
            cv == views(c@),
            av == path_components(p@),
            cv == path_components(base@),
            forall|j: int| 0 <= j < i ==> av[j] == cv[j],
        decreases c.len() - i,
    {
        if !str_eq(a[i].as_str(), c[i].as_str()) {
            assert(av.take(cv.len() as int)[i as int] != cv[i as int]);
            return false;
        }
        i = i + 1;
    }
    assert(av.take(cv.len() as int) =~= cv);
    true
}

/// Refuses writable roots that contain the Patchbay database, naming the first one.
pub fn validate_agent_extra_writable_roots_do_not_include_database(roots: &Vec<String>, database_path: &str) -> (r: Result<(), ProjectError>)
    ensures
        r is Ok <==> forall|i: int| 0 <= i < roots@.len() ==> !path_starts_with(database_path@, #[trigger] views(roots@)[i]),
        match r {
            Err(e) => exists|i: int| 0 <= i < roots@.len()
                && path_starts_with(database_path@, #[trigger] views(roots@)[i])
                && (forall|j: int| 0 <= j < i ==> !path_starts_with(database_path@, #[trigger] views(roots@)[j]))
                && (e matches ProjectError::RootIncludesDatabase(x, d) && x@ == views(roots@)[i] && d@ == database_path@),
            Ok(_) => true,
        },
{
    let ghost rv = views(roots@);
    let mut i: usize = 0;
    while i < roots.len()
        invariant
            i <= roots.len(),
            rv == views(roots@),
            forall|j: int| 0 <= j < i ==> !path_starts_with(database_path@, #[trigger] rv[j]),
        decreases roots.len() - i,
    {
        if path_starts_with_exec(database_path, roots[i].as_str()) {
            assert(rv[i as int] == roots@[i as int]@);
            let e = ProjectError::RootIncludesDatabase(crate::text::copy_string(&roots[i]), database_path.to_string());
            return Err(e);
        }
        assert(rv[i as int] == roots@[i as int]@);
        i = i + 1;
    }
    Ok(())
}

} // verus!
