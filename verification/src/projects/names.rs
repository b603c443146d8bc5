use vstd::prelude::*;

use crate::projects::errors::ProjectError;
use crate::storage::join_path;
use crate::text::{chars_of, has_prefix, is_blank, str_eq, trim, trim_str};

verus! {

broadcast use vstd::std_specs::vec::group_vec_axioms;

/// A project name is refused when blank, when it has leading or trailing
/// white space, or when it holds a path separator (`/` or `\`), in that order.
pub open spec fn project_name_error(name: Seq<char>) -> Option<ProjectError> {
    if trim(name).len() == 0 {
        Some(ProjectError::NameEmpty)
    } else if trim(name) != name {
        Some(ProjectError::NameWhitespace)
    } else if name.contains('/') || name.contains('\\') {
        Some(ProjectError::NameSeparator)
    } else {
        None
    }
}

/// Checks a new project's name.
pub fn validate_project_name(name: &str) -> (r: Result<(), ProjectError>)
    ensures
        match project_name_error(name@) {
            Some(e) => r matches Err(x) && x == e,
            None => r is Ok,
        },
{
    if is_blank(name) {
        return Err(ProjectError::NameEmpty);
    }
    let t = trim_str(name);
    if !str_eq(t.as_str(), name) {
        return Err(ProjectError::NameWhitespace);
    }
    let cs = chars_of(name);
    let mut i: usize = 0;
    while i < cs.len()
        invariant
            i <= cs.len(),
            cs@ == name@,
            trim(name@).len() > 0,
            trim(name@) == name@,
            forall|j: int| 0 <= j < i ==> cs@[j] != '/' && cs@[j] != '\\',
        decreases cs.len() - i,
    {
        if cs[i] == '/' || cs[i] == '\\' {
            assert(name@[i as int] == cs[i as int]);
            if cs[i] == '/' {
                assert(name@.contains('/'));
            } else {
                assert(name@.contains('\\'));
            }
            return Err(ProjectError::NameSeparator);
        }
        i = i + 1;
    }
    assert(!name@.contains('/'));
    assert(!name@.contains('\\'));
    Ok(())
}

/// The display name a project gets: the given one or else the name,
/// trimmed, and refused when blank.
pub open spec fn display_name_of(given: Option<Seq<char>>, fallback: Seq<char>) -> Option<Seq<char>> {
    let d = trim(match given {
        Some(g) => g,
        None => fallback,
    });
    if d.len() == 0 {
        None
    } else {
        Some(d)
    }
}

/// The display name for a project, from the requested one or `fallback`.
pub fn resolve_display_name(given: Option<String>, fallback: &str) -> (r: Result<String, ProjectError>)
    ensures
        match display_name_of(crate::items::updates::opt_seq(given), fallback@) {
            Some(d) => r matches Ok(s) && s@ == d,
            None => r matches Err(ProjectError::DisplayNameEmpty),
        },
{
    let d = match given {
        Some(g) => trim_str(g.as_str()),
        None => trim_str(fallback),
    };
    if d.as_str().unicode_len() == 0 {
        Err(ProjectError::DisplayNameEmpty)
    } else {
        Ok(d)
    }
}

/// `path` with a leading `~` standing for the home directory: `~` alone
/// becomes the home directory, `~/rest` the home directory joined with
/// `rest`; without a known home the path stays as it is.
pub open spec fn expand_home(path: Seq<char>, home: Option<Seq<char>>) -> Seq<char> {
    match home {
        Some(h) => if path == "~"@ {
            h
        } else if has_prefix(path, "~/"@) {
            join_path(h, path.skip(2))
        } else {
            path
        },
        None => path,
    }
}

/// `path` with a leading `~` replaced by the home directory `home`.
pub fn expand_home_path_with(path: &str, home: Option<&str>) -> (r: String)
    ensures
        r@ == expand_home(
            path@,
            match home {
                Some(h) => Some(h@),
                None => None,
            },
        ),
{
    let h = match home {
        Some(h) => h,
        None => return path.to_string(),
    };
    proof {
        reveal_strlit("~");
        reveal_strlit("~/");
    }
    if str_eq(path, "~") {
        return h.to_string();
    }
    let cs = chars_of(path);
    assert(cs@.subrange(0, cs.len() as int) =~= cs@);
    if crate::text::prefix_at(&cs, 0, "~/") {
        let rest = crate::text::string_of_range(&cs, 2, cs.len());
        assert(cs@.subrange(2, cs.len() as int) =~= path@.skip(2));
        return crate::storage::join_relative(h, rest.as_str());
    }
    path.to_string()
}

/// A project path as given, trimmed and with `~` expanded; refused when empty.
pub open spec fn project_path_of(path: Seq<char>, home: Option<Seq<char>>) -> Option<Seq<char>> {
    let e = expand_home(trim(path), home);
    if e.len() == 0 {
        None
    } else {
        Some(e)
    }
}

/// The project path to check on disk: trimmed, `~` expanded, not empty.
/// Whether it is a directory is checked by the caller, then with
/// `check_project_directory`.
pub fn expand_project_path(path: &str, home: Option<&str>) -> (r: Result<String, ProjectError>)
    ensures
        match project_path_of(
            path@,
            match home {
                Some(h) => Some(h@),
                None => None,
            },
        ) {
            Some(p) => r matches Ok(s) && s@ == p,
            None => r matches Err(ProjectError::PathRequired),
        },
{
    let t = trim_str(path);
    let e = expand_home_path_with(t.as_str(), home);
    if e.as_str().unicode_len() == 0 {
        Err(ProjectError::PathRequired)
    } else {
        Ok(e)
    }
}

/// A project path is kept only where it names a directory.
pub fn check_project_directory(path: String, is_dir: bool) -> (r: Result<String, ProjectError>)
    ensures
        is_dir ==> (r matches Ok(s) && s@ == path@),
        !is_dir ==> (r matches Err(ProjectError::PathNotDirectory(p)) && p@ == path@),
{
    if is_dir {
        Ok(path)
    } else {
        Err(ProjectError::PathNotDirectory(path))
    }
}

} // verus!
