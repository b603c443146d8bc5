use vstd::prelude::*;

verus! {

/// The URL under which the SQLite store at `path` is opened, creating the file when missing.
pub open spec fn sqlite_url_spec(path: Seq<char>) -> Seq<char> {
    "sqlite://"@ + path + "?mode=rwc"@
}

/// Builds the connection URL for the SQLite database at `path`.
pub fn sqlite_url(path: &str) -> (url: String)
    ensures
        url@ == sqlite_url_spec(path@),
{
    let mut url = String::from_str("sqlite://");
    url.append(path);
    url.append("?mode=rwc");
    url
}

} // verus!

verus! {

/// `base` joined with the path `rel`, as `Path::join` does on Unix: an
/// absolute `rel` replaces `base`; otherwise a separator goes between them
/// unless `base` is empty or already ends in one.
pub open spec fn join_path(base: Seq<char>, rel: Seq<char>) -> Seq<char> {
    if rel.len() > 0 && rel[0] == '/' {
        rel
    } else if base.len() == 0 {
        rel
    } else if base.last() == '/' {
        base + rel
    } else {
        base + seq!['/'] + rel
    }
}

/// `base` joined with the path `rel`.
pub fn join_relative(base: &str, rel: &str) -> (r: String)
    ensures
        r@ == join_path(base@, rel@),
{
    let rs = crate::text::chars_of(rel);
    if rs.len() > 0 && rs[0] == '/' {
        return rel.to_string();
    }
    let cs = crate::text::chars_of(base);
    let mut out = base.to_string();
    if cs.len() > 0 && cs[cs.len() - 1] != '/' {
        crate::text::push_char(&mut out, '/');
    }
    out.append(rel);
    out
}

/// The directory Patchbay keeps its data in: `.patchbay` under the home
/// directory, or under the working directory where no home is known.
pub open spec fn patchbay_home(home: Option<Seq<char>>) -> Seq<char> {
    match home {
        Some(h) => join_path(h, ".patchbay"@),
        None => ".patchbay"@,
    }
}

/// The directory Patchbay keeps its data in, for the home directory `home`.
pub fn patchbay_home_dir(home: Option<&str>) -> (r: String)
    ensures
        r@ == patchbay_home(
            match home {
                Some(h) => Some(h@),
                None => None,
            },
        ),
{
    match home {
        Some(h) => join_relative(h, ".patchbay"),
        None => String::from_str(".patchbay"),
    }
}

/// The database file used when none is given: `patchbay.sqlite3` in the
/// Patchbay directory.
pub open spec fn default_database(home: Option<Seq<char>>) -> Seq<char> {
    join_path(patchbay_home(home), "patchbay.sqlite3"@)
}

/// The database file used when none is given, for the home directory `home`.
pub fn default_database_path(home: Option<&str>) -> (r: String)
    ensures
        r@ == default_database(
            match home {
                Some(h) => Some(h@),
                None => None,
            },
        ),
{
    let dir = patchbay_home_dir(home);
    join_relative(dir.as_str(), "patchbay.sqlite3")
}

/// Why a database path could not be made absolute.
#[derive(Clone, Copy, Debug, PartialEq, Eq, Structural)]
pub enum StorageError {
    /// The path is relative and the working directory could not be read.
    CurrentDirUnavailable,
}

impl StorageError {
    /// The message shown for this error.
    pub fn message(&self) -> (r: String)
        ensures
            r@ == "failed to read current directory for database path"@,
    {
        String::from_str("failed to read current directory for database path")
    }
}

/// The absolute form of a database path: an absolute path (one that starts at
/// the root) as it is, a relative one under the working directory `current_dir`,
/// which is needed only then.
pub fn absolute_path(path: &str, current_dir: Option<&str>) -> (r: Result<String, StorageError>)
    ensures
        path@.len() > 0 && path@[0] == '/' ==> (r matches Ok(p) && p@ == path@),
        !(path@.len() > 0 && path@[0] == '/') ==> match current_dir {
            Some(d) => (r matches Ok(p) && p@ == join_path(d@, path@)),
            None => r == Err::<String, StorageError>(StorageError::CurrentDirUnavailable),
        },
{
    let cs = crate::text::chars_of(path);
    if cs.len() > 0 && cs[0] == '/' {
        return Ok(path.to_string());
    }
    match current_dir {
        Some(d) => Ok(join_relative(d, path)),
        None => Err(StorageError::CurrentDirUnavailable),
    }
}

} // verus!
