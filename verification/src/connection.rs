//! Connection strings: `<scheme>:<details>`. The scheme selects the backend.
//! For the file store the details are a path below the application's
//! directory; for a server they are the target, passed on unchanged.

use vstd::prelude::*;
use vstd::string::StringExecFns;
use crate::dialect::Backend;
use crate::error::{Error, ErrorView};

verus! {

/// Whether `name` begins with `scheme` and a colon.
pub open spec fn has_scheme(name: Seq<char>, scheme: Seq<char>) -> bool {
    &&& name.len() > scheme.len()
    &&& name.subrange(0, scheme.len() as int) == scheme
    &&& name[scheme.len() as int] == ':'
}

/// What follows `scheme` and its colon in `name`.
pub open spec fn after_scheme(name: Seq<char>, scheme: Seq<char>) -> Seq<char> {
    name.subrange(scheme.len() as int + 1, name.len() as int)
}

/// The backend and the details that a connection string names.
pub open spec fn target_of(name: Seq<char>) -> Option<(Backend, Seq<char>)> {
    if has_scheme(name, "sqlite"@) {
        Some((Backend::Sqlite, after_scheme(name, "sqlite"@)))
    } else if has_scheme(name, "mysql"@) {
        Some((Backend::MySql, after_scheme(name, "mysql"@)))
    } else if has_scheme(name, "mariadb"@) {
        Some((Backend::MySql, after_scheme(name, "mariadb"@)))
    } else if has_scheme(name, "postgres"@) {
        Some((Backend::Postgres, after_scheme(name, "postgres"@)))
    } else if has_scheme(name, "postgresql"@) {
        Some((Backend::Postgres, after_scheme(name, "postgresql"@)))
    } else {
        None
    }
}

/// The file store's connection string for a file's full path.
pub open spec fn qualified(path: Seq<char>) -> Seq<char> {
    "sqlite:"@ + path
}

/// The key under which a database is kept: for the file store the
/// connection string of the file's full path, for a server the connection
/// string as it was given.
pub open spec fn canonical(backend: Backend, name: Seq<char>, full_path: Seq<char>) -> Seq<char> {
    match backend {
        Backend::Sqlite => qualified(full_path),
        _ => name,
    }
}

/// A parsed connection string.
#[derive(Debug)]
pub struct ConnectionTarget {
    pub backend: Backend,
    pub details: String,
}

/// What follows `scheme` and its colon in `name`, if `name` begins so.
fn strip_scheme<'a>(name: &'a str, scheme: &str) -> (rest: Option<&'a str>)
    ensures
        match rest {
            Some(r) => has_scheme(name@, scheme@) && r@ == after_scheme(name@, scheme@),
            None => !has_scheme(name@, scheme@),
        },
{
    let n = name.unicode_len();
    let k = scheme.unicode_len();
    if n <= k {
        return None;
    }
    let mut i: usize = 0;
    while i < k
        invariant
            i <= k,
            k < n,
            n == name@.len(),
            k == scheme@.len(),
            forall|j: int| 0 <= j < i ==> name@[j] == scheme@[j],
        decreases k - i,
    {
        if name.get_char(i) != scheme.get_char(i) {
            assert(name@.subrange(0, k as int)[i as int] == name@[i as int]);
            return None;
        }
        i += 1;
    }
    assert(name@.subrange(0, k as int) =~= scheme@);
    if name.get_char(k) != ':' {
        return None;
    }
    Some(name.substring_char(k + 1, n))
}

/// Parses a connection string.
pub fn parse_connection(name: &str) -> (parsed: Result<ConnectionTarget, Error>)
    ensures
        match parsed {
            Ok(target) => target_of(name@) == Some((target.backend, target.details@)),
            Err(e) => target_of(name@) is None && e@ == ErrorView::UnrecognizedConnectionScheme(
                name@,
            ),
        },
{
    if let Some(rest) = strip_scheme(name, "sqlite") {
        Ok(ConnectionTarget { backend: Backend::Sqlite, details: rest.to_owned() })
    } else if let Some(rest) = strip_scheme(name, "mysql") {
        Ok(ConnectionTarget { backend: Backend::MySql, details: rest.to_owned() })
    } else if let Some(rest) = strip_scheme(name, "mariadb") {
        Ok(ConnectionTarget { backend: Backend::MySql, details: rest.to_owned() })
    } else if let Some(rest) = strip_scheme(name, "postgres") {
        Ok(ConnectionTarget { backend: Backend::Postgres, details: rest.to_owned() })
    } else if let Some(rest) = strip_scheme(name, "postgresql") {
        Ok(ConnectionTarget { backend: Backend::Postgres, details: rest.to_owned() })
    } else {
        Err(Error::UnrecognizedConnectionScheme(name.to_owned()))
    }
}

/// The path that joining `relative` to `base` gives. The join works on the
/// text of the two paths alone: it reads neither the disk nor the
/// environment.
pub uninterp spec fn joined_path(base: Seq<char>, relative: Seq<char>) -> Seq<char>;

/// Calls `std::path::Path::join` on two paths given as text, and gives the
/// joined path as text. The contract names the result and says no more of
/// it: how two paths are joined is the platform's rule.
#[verifier::external_body]
fn join_path(base: &str, relative: &str) -> (joined: String)
    ensures
        joined@ == joined_path(base@, relative@),
{
    std::path::Path::new(base).join(relative).to_string_lossy().into_owned()
}

/// The file store's connection string for a file's full path.
pub fn qualify(full_path: &str) -> (name: String)
    ensures
        name@ == qualified(full_path@),
{
    "sqlite:".to_owned().concat(full_path)
}

/// The key under which a database is kept, from its connection string and,
/// for the file store, its file's full path.
pub fn canonical_name(backend: Backend, name: &str, full_path: &str) -> (key: String)
    ensures
        key@ == canonical(backend, name@, full_path@),
{
    match backend {
        Backend::Sqlite => qualify(full_path),
        _ => name.to_owned(),
    }
}

/// Maps a connection string of the file store to the one that holds the
/// file's full path: the details are joined to the application's directory.
pub fn path_mapper(app_path: &str, connection_string: &str) -> (mapped: Result<String, Error>)
    ensures
        match mapped {
            Ok(full) => has_scheme(connection_string@, "sqlite"@) && full@ == qualified(
                joined_path(app_path@, after_scheme(connection_string@, "sqlite"@)),
            ),
            Err(e) => !has_scheme(connection_string@, "sqlite"@) && e@
                == ErrorView::UnrecognizedConnectionScheme(connection_string@),
        },
{
    match strip_scheme(connection_string, "sqlite") {
        Some(details) => {
            let joined = join_path(app_path, details);
            Ok(qualify(joined.as_str()))
        },
        None => Err(Error::UnrecognizedConnectionScheme(connection_string.to_owned())),
    }
}

/// Resolves a connection string to its backend and to the key under which
/// its database is kept.
pub fn resolve(name: &str, app_directory: &str) -> (resolved: Result<(Backend, String), Error>)
    ensures
        match resolved {
            Ok((backend, key)) => match target_of(name@) {
                Some((b, details)) => b == backend && key@ == canonical(
                    backend,
                    name@,
                    joined_path(app_directory@, details),
                ),
                None => false,
            },
            Err(e) => target_of(name@) is None && e@ == ErrorView::UnrecognizedConnectionScheme(
                name@,
            ),
        },
{
    match parse_connection(name) {
        Ok(target) => {
            let joined = match target.backend {
                Backend::Sqlite => join_path(app_directory, target.details.as_str()),
                _ => String::new(),
            };
            Ok((target.backend, canonical_name(target.backend, name, joined.as_str())))
        },
        Err(e) => Err(e),
    }
}

} // verus!
