//! Helpers for generated code: which relative paths a generated file may
//! have, and where the JSON object lies in a model's answer.

use crate::text::{text_views, to_chars};
use vstd::prelude::*;
use vstd::string::*;

verus! {

/// One component of a path, as the platform's path grammar reads it.
#[derive(Debug)]
pub enum PathPart {
    /// An ordinary name.
    Normal(String),
    /// The current directory, `.`.
    CurDir,
    /// The parent directory, `..`.
    ParentDir,
    /// The root of the file system.
    RootDir,
    /// A prefix that names a volume, as on Windows.
    Prefix,
}

/// Whether a component leaves the directory it is resolved in: the parent
/// does, and so do a root and a volume prefix.
pub open spec fn leaves(part: PathPart) -> bool {
    part is ParentDir || part is RootDir || part is Prefix
}

/// The names of the ordinary components among the first `n` components.
pub open spec fn normal_names(parts: Seq<PathPart>, n: int) -> Seq<Seq<char>>
    decreases n,
{
    if n <= 0 || n > parts.len() {
        Seq::empty()
    } else {
        match parts[n - 1] {
            PathPart::Normal(name) => normal_names(parts, n - 1).push(name@),
            _ => normal_names(parts, n - 1),
        }
    }
}

/// Whether a component leaves the directory.
pub open spec fn escapes(parts: Seq<PathPart>) -> bool {
    exists|i: int| 0 <= i < parts.len() && leaves(#[trigger] parts[i])
}

/// Checks the path of a generated file, given how the platform reads it:
/// whether it is absolute, and its components.  An absolute path, a path
/// with a component that leaves the directory, and a path without any name
/// are refused; of any other path the names are returned, in order.
pub fn validate_codex_relative_path(path: &str, absolute: bool, parts: &Vec<PathPart>) -> (r:
    Result<Vec<String>, String>)
    ensures
        match r {
            Ok(names) => !absolute && !escapes(parts@) && names@.len() > 0 && text_views(names@)
                == normal_names(parts@, parts@.len() as int),
            Err(m) => if absolute {
                m@ == "Absolute paths are not allowed: "@ + path@
            } else if escapes(parts@) {
                m@ == "Invalid path component in "@ + path@
            } else {
                normal_names(parts@, parts@.len() as int).len() == 0 && m@
                    == "Empty file path returned by model"@
            },
        },
{
    if absolute {
        return Err(String::from_str("Absolute paths are not allowed: ").concat(path));
    }
    let n = parts.len();
    let mut names: Vec<String> = Vec::new();
    let mut i: usize = 0;
    assert(text_views(names@) =~= normal_names(parts@, 0));
    while i < n
        invariant
            n == parts@.len(),
            i <= n,
            !absolute,
            forall|k: int| 0 <= k < i ==> !leaves(#[trigger] parts@[k]),
            text_views(names@) == normal_names(parts@, i as int),
        decreases n - i,
    {
        match &parts[i] {
            PathPart::Normal(name) => {
                names.push(name.clone());
                assert(text_views(names@) =~= normal_names(parts@, i as int).push(name@));
            },
            PathPart::CurDir => {},
            PathPart::ParentDir | PathPart::RootDir | PathPart::Prefix => {
                assert(leaves(parts@[i as int]));
                return Err(String::from_str("Invalid path component in ").concat(path));
            },
        }
        i += 1;
    }
    if names.len() == 0 {
        return Err(String::from_str("Empty file path returned by model"));
    }
    Ok(names)
}

/// The first index at which `c` stands in `s`.
pub open spec fn first_of(s: Seq<char>, c: char) -> Option<int>
    decreases s.len(),
{
    if s.len() == 0 {
        None
    } else if s[0] == c {
        Some(0)
    } else {
        match first_of(s.drop_first(), c) {
            Some(i) => Some(i + 1),
            None => None,
        }
    }
}

/// The last index at which `c` stands in `s`.
pub open spec fn last_of(s: Seq<char>, c: char) -> Option<int>
    decreases s.len(),
{
    if s.len() == 0 {
        None
    } else if s.last() == c {
        Some(s.len() - 1)
    } else {
        last_of(s.drop_last(), c)
    }
}

/// The text from the first `{` to the last `}`, both included, where the
/// first `{` stands before the last `}`.
pub open spec fn json_object_in(raw: Seq<char>) -> Option<Seq<char>> {
    match (first_of(raw, '{'), last_of(raw, '}')) {
        (Some(start), Some(end)) => if start < end {
            Some(raw.subrange(start, end + 1))
        } else {
            None
        },
        _ => None,
    }
}

/// The JSON object in a model's answer: the text from the first `{` to the
/// last `}`.
pub fn extract_json_object(raw: &str) -> (r: Option<String>)
    ensures
        match r {
            Some(text) => json_object_in(raw@) == Some(text@),
            None => json_object_in(raw@) is None,
        },
{
    let v = to_chars(raw);
    let n = v.len();
    let mut start: usize = 0;
    assert(v@.subrange(0, n as int) =~= v@);
    while start < n && v[start] != '{'
        invariant
            n == v@.len(),
            start <= n,
            match first_of(v@.subrange(start as int, n as int), '{') {
                Some(i) => first_of(v@, '{') == Some(i + start),
                None => first_of(v@, '{') is None,
            },
        decreases n - start,
    {
        let ghost tail = v@.subrange(start as int, n as int);
        assert(tail[0] == v@[start as int]);
        assert(tail.drop_first() =~= v@.subrange(start + 1, n as int));
        start += 1;
    }
    if start == n {
        return None;
    }
    assert(first_of(v@, '{') == Some(start as int)) by {
        let tail = v@.subrange(start as int, n as int);
        assert(tail[0] == v@[start as int]);
    }
    let mut end: usize = n;
    while end > 0 && v[end - 1] != '}'
        invariant
            n == v@.len(),
            end <= n,
            last_of(v@, '}') == last_of(v@.subrange(0, end as int), '}'),
        decreases end,
    {
        let ghost head = v@.subrange(0, end as int);
        assert(head.last() == v@[end - 1]);
        assert(head.drop_last() =~= v@.subrange(0, end - 1));
        end -= 1;
    }
    if end == 0 {
        return None;
    }
    assert(last_of(v@, '}') == Some(end - 1)) by {
        let head = v@.subrange(0, end as int);
        assert(head.last() == v@[end - 1]);
    }
    if start >= end - 1 {
        return None;
    }
    Some(raw.substring_char(start, end).to_owned())
}

} // verus!
