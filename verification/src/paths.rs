//! Textual path derivation for manifests, lockfiles and backup files.
//!
//! Paths are handled as plain text with `/` as the separator, ignoring
//! trailing separators. A file name is the part after the last
//! separator, except that an empty part, `.` and `..` are no file name;
//! the parent is the part before the last separator (empty for a bare
//! file name, `/` when the last separator leads the path). A path with
//! no file name or no parent (the empty path, a path of separators only,
//! or one ending in `.` or `..`) fails with an invalid-path error
//! wherever a file name is needed.
use vstd::prelude::*;

use crate::result::Error;
use crate::result::Result;
use crate::LOCKFILE_EXT;

verus! {

/// Index of the last occurrence of `c` in `s`, or `-1` when `s` does not
/// contain `c`.
pub open spec fn last_pos(s: Seq<char>, c: char) -> int
    decreases s.len(),
{
    if s.len() == 0 {
        -1
    } else if s[s.len() - 1] == c {
        s.len() - 1
    } else {
        last_pos(s.drop_last(), c)
    }
}

/// `last_pos` names the last occurrence: it is a valid index holding `c`
/// with no later occurrence, or `-1` when `c` does not occur at all.
pub proof fn lemma_last_pos(s: Seq<char>, c: char)
    ensures
        -1 <= last_pos(s, c) < s.len(),
        last_pos(s, c) >= 0 ==> s[last_pos(s, c)] == c,
        forall|j: int| last_pos(s, c) < j < s.len() ==> s[j] != c,
    decreases s.len(),
{
    if s.len() > 0 && s[s.len() - 1] != c {
        lemma_last_pos(s.drop_last(), c);
        assert forall|j: int| last_pos(s, c) < j < s.len() implies s[j] != c by {
            if j < s.len() - 1 {
                assert(s.drop_last()[j] == s[j]);
                assert(s.drop_last()[j] != c);
            }
        }
    }
}

/// The path `p` with every trailing separator removed.
pub open spec fn trim_seps(p: Seq<char>) -> Seq<char>
    decreases p.len(),
{
    if p.len() > 0 && p[p.len() - 1] == '/' {
        trim_seps(p.drop_last())
    } else {
        p
    }
}

/// `trim_seps` names the prefix before the trailing separators: what it
/// keeps is a prefix of `p` that does not end in a separator, and what it
/// drops is separators only.
pub proof fn lemma_trim_seps(p: Seq<char>)
    ensures
        trim_seps(p).len() <= p.len(),
        trim_seps(p) == p.subrange(0, trim_seps(p).len() as int),
        trim_seps(p).len() > 0 ==> p[trim_seps(p).len() - 1] != '/',
        forall|j: int| trim_seps(p).len() <= j < p.len() ==> p[j] == '/',
    decreases p.len(),
{
    if p.len() > 0 && p[p.len() - 1] == '/' {
        lemma_trim_seps(p.drop_last());
        let t = trim_seps(p).len() as int;
        assert(p.drop_last().subrange(0, t) =~= p.subrange(0, t));
        assert forall|j: int| t <= j < p.len() implies p[j] == '/' by {
            if j < p.len() - 1 {
                assert(p.drop_last()[j] == '/');
            }
        }
    }
}

/// The file name of the path `p`: the part after the last separator,
/// trailing separators ignored, unless that part is empty, `.` or `..`.
pub open spec fn file_name_of(p: Seq<char>) -> Option<Seq<char>> {
    let q = trim_seps(p);
    let name = q.subrange(last_pos(q, '/') + 1, q.len() as int);
    if name.len() == 0 || name == seq!['.'] || name == seq!['.', '.'] {
        None
    } else {
        Some(name)
    }
}

/// The parent of the path `p`: the part before the last separator,
/// trailing separators ignored; empty for a bare file name; nothing for
/// an empty path or a path of separators only.
pub open spec fn parent_of(p: Seq<char>) -> Option<Seq<char>> {
    let q = trim_seps(p);
    if q.len() == 0 {
        None
    } else {
        let j = last_pos(q, '/');
        if j == -1 {
            Some(Seq::<char>::empty())
        } else if j == 0 {
            Some(seq!['/'])
        } else {
            Some(q.subrange(0, j))
        }
    }
}

/// The path naming `name` inside the directory `par`: a separator is put
/// between them unless `par` is empty or already ends with one.
pub open spec fn join_path(par: Seq<char>, name: Seq<char>) -> Seq<char> {
    if par.len() == 0 {
        name
    } else if par[par.len() - 1] == '/' {
        par + name
    } else {
        par + seq!['/'] + name
    }
}

/// The backup path of the path `p` for a backup suffix: the file name
/// with the suffix appended, in the same directory; nothing when `p` has
/// no file name or no parent.
pub open spec fn backup_path_of(p: Seq<char>, suffix: Seq<char>) -> Option<Seq<char>> {
    match (file_name_of(p), parent_of(p)) {
        (Some(name), Some(par)) => Some(join_path(par, name + suffix)),
        _ => None,
    }
}

/// The file name `name` with its extension replaced by `ext`: everything
/// from the last `.` on is replaced, except that a leading `.` starts no
/// extension; a name without an extension gets `.` and `ext` appended.
pub open spec fn replaced_extension(name: Seq<char>, ext: Seq<char>) -> Seq<char> {
    let k = last_pos(name, '.');
    if k <= 0 {
        name + seq!['.'] + ext
    } else {
        name.subrange(0, k) + seq!['.'] + ext
    }
}

/// The path of the lockfile next to the manifest at `p`: the manifest's
/// file name with its extension replaced by the lockfile extension, in
/// the same directory; `p` itself when it has no file name.
pub open spec fn lockfile_path_of(p: Seq<char>) -> Seq<char> {
    match file_name_of(p) {
        None => p,
        Some(name) => join_path(parent_of(p).unwrap(), replaced_extension(name, "lock"@)),
    }
}

/// Index of the last occurrence of `c` in `s`, if any.
fn last_index_of(s: &str, c: char) -> (r: Option<usize>)
    ensures
        match r {
            Some(i) => last_pos(s@, c) == i as int,
            None => last_pos(s@, c) == -1,
        },
{
    let n = s.unicode_len();
    let mut i: usize = n;
    while i > 0
        invariant
            i <= n,
            n == s@.len(),
            forall|j: int| i <= j < n ==> s@[j] != c,
        decreases i,
    {
        i = i - 1;
        if s.get_char(i) == c {
            proof {
                lemma_last_pos(s@, c);
            }
            return Some(i);
        }
    }
    proof {
        lemma_last_pos(s@, c);
    }
    None
}

/// The prefix of `file_path` before its trailing separators, as
/// [`trim_seps`] defines it.
fn trimmed<'a>(file_path: &'a str) -> (r: &'a str)
    ensures
        r@ == trim_seps(file_path@),
{
    let n = file_path.unicode_len();
    let mut m: usize = n;
    while m > 0 && file_path.get_char(m - 1) == '/'
        invariant
            m <= n,
            n == file_path@.len(),
            forall|j: int| m <= j < n ==> file_path@[j] == '/',
        decreases m,
    {
        m = m - 1;
    }
    proof {
        lemma_trim_seps(file_path@);
        let t = trim_seps(file_path@).len() as int;
        if t < m {
            assert(file_path@[m - 1] == '/');
        }
        if t > m {
            assert(file_path@[t - 1] == '/');
        }
    }
    file_path.substring_char(0, m)
}

/// The file name of `file_path`, as [`file_name_of`] defines it.
fn file_name(file_path: &str) -> (r: Option<String>)
    ensures
        match r {
            Some(name) => file_name_of(file_path@) == Some(name@),
            None => file_name_of(file_path@) is None,
        },
{
    let stem = trimmed(file_path);
    let n = stem.unicode_len();
    let slash = last_index_of(stem, '/');
    proof {
        lemma_last_pos(stem@, '/');
    }
    let start: usize = match slash {
        Some(j) => j + 1,
        None => 0,
    };
    let name = stem.substring_char(start, n);
    let name_len = name.unicode_len();
    if name_len == 0 {
        return None;
    }
    if name_len == 1 && name.get_char(0) == '.' {
        proof {
            assert(name@ =~= seq!['.']);
        }
        return None;
    }
    if name_len == 2 && name.get_char(0) == '.' && name.get_char(1) == '.' {
        proof {
            assert(name@ =~= seq!['.', '.']);
        }
        return None;
    }
    proof {
        assert(name@ != seq!['.'] && name@ != seq!['.', '.']) by {
            if name@ == seq!['.'] {
                assert(name@.len() == 1 && name@[0] == '.');
            }
            if name@ == seq!['.', '.'] {
                assert(name@.len() == 2 && name@[0] == '.' && name@[1] == '.');
            }
        }
    }
    Some(name.to_owned())
}

/// The parent of `file_path`, as [`parent_of`] defines it.
fn parent(file_path: &str) -> (r: Option<String>)
    ensures
        match r {
            Some(par) => parent_of(file_path@) == Some(par@),
            None => parent_of(file_path@) is None,
        },
{
    let stem = trimmed(file_path);
    let n = stem.unicode_len();
    if n == 0 {
        return None;
    }
    let slash = last_index_of(stem, '/');
    proof {
        lemma_last_pos(stem@, '/');
    }
    match slash {
        None => Some(String::new()),
        Some(j) => {
            if j == 0 {
                let root = stem.substring_char(0, 1);
                proof {
                    assert(root@ =~= seq!['/']);
                }
                Some(root.to_owned())
            } else {
                Some(stem.substring_char(0, j).to_owned())
            }
        },
    }
}

/// The path naming `name` inside `par`, as [`join_path`] defines it.
fn join(par: &str, name: &str) -> (r: String)
    ensures
        r@ == join_path(par@, name@),
{
    let n = par.unicode_len();
    if n == 0 {
        return name.to_owned();
    }
    let mut out = par.to_owned();
    if par.get_char(n - 1) != '/' {
        out.append("/");
        proof {
            reveal_strlit("/");
            assert(out@ =~= par@ + seq!['/']);
        }
    }
    out.append(name);
    proof {
        if par@[par@.len() - 1] != '/' {
            assert(out@ =~= par@ + seq!['/'] + name@);
        }
    }
    out
}

/// Derives the backup path of `file_path` for the given suffix: the file
/// name with the suffix appended, in the same directory. Fails with an
/// invalid-path error when the path has no file name or no parent.
pub fn get_backup_path(file_path: &str, backup_suffix: &str) -> (r: Result<String>)
    ensures
        match backup_path_of(file_path@, backup_suffix@) {
            Some(bp) => r is Ok && r->Ok_0@ == bp,
            None => r matches Err(e) && e matches Error::InvalidPath(p) && p@ == file_path@,
        },
{
    let name = match file_name(file_path) {
        Some(name) => name,
        None => {
            return Err(Error::InvalidPath(file_path.to_owned()));
        },
    };
    let par = match parent(file_path) {
        Some(par) => par,
        None => {
            return Err(Error::InvalidPath(file_path.to_owned()));
        },
    };
    let mut backup_name = name;
    backup_name.append(backup_suffix);
    Ok(join(par.as_str(), backup_name.as_str()))
}

/// The path of the pins file named `pins_file_name` next to the manifest
/// at `manifest_path`; nothing when the manifest path has no parent.
pub fn pins_file_path(manifest_path: &str, pins_file_name: &str) -> (r: Option<String>)
    ensures
        match parent_of(manifest_path@) {
            Some(par) => r is Some && r->0@ == join_path(par, pins_file_name@),
            None => r is None,
        },
{
    match parent(manifest_path) {
        Some(par) => Some(join(par.as_str(), pins_file_name)),
        None => None,
    }
}

/// The path of the lockfile next to the manifest at `manifest_path`, as
/// [`lockfile_path_of`] defines it.
pub fn lockfile_path(manifest_path: &str) -> (r: String)
    ensures
        r@ == lockfile_path_of(manifest_path@),
{
    let name = match file_name(manifest_path) {
        Some(name) => name,
        None => {
            return manifest_path.to_owned();
        },
    };
    let par = parent(manifest_path).unwrap();
    let k = match last_index_of(name.as_str(), '.') {
        Some(k) => k,
        None => 0,
    };
    proof {
        lemma_last_pos(name@, '.');
    }
    let mut stem = if k == 0 {
        name.as_str().to_owned()
    } else {
        name.as_str().substring_char(0, k).to_owned()
    };
    stem.append(".");
    stem.append(LOCKFILE_EXT);
    proof {
        reveal_strlit(".");
        reveal_strlit("lock");
        assert(stem@ =~= replaced_extension(name@, "lock"@));
    }
    join(par.as_str(), stem.as_str())
}

} // verus!
