//! What the daemon is configured with, and how a repository URL names its
//! checkout directory.

use vstd::prelude::*;
use vstd::string::*;

use crate::executables::ExecutableSet;
use crate::text::{starts_with, text_of};

verus! {

/// One monitored branch of one repository.
#[derive(Debug)]
pub struct BuildTarget {
    /// Where the repository is cloned from.
    pub repository_url: String,
    /// Path of the SSH private key used to authenticate.
    pub ssh_key: String,
    /// The branch to follow.
    pub branch: String,
    /// The binaries to publish for this branch.
    pub executables: ExecutableSet,
}

/// Everything the daemon is told at start-up.
#[derive(Debug)]
pub struct Config {
    /// Directory below which the checkouts live.
    pub root: String,
    /// The targets, in the order in which they are visited.
    pub targets: Vec<BuildTarget>,
}

/// The part of `url` behind its last `/`, if it has one.
pub open spec fn last_segment(url: Seq<char>) -> Option<Seq<char>> {
    match url.index_of_last('/') {
        Some(slash) => Some(url.subrange(slash + 1, url.len() as int)),
        None => None,
    }
}

/// The name taken from the last segment of an SSH-style URL: the segment up
/// to its only `.`, or the whole segment if it has none. A segment with
/// more than one `.` names nothing, and neither does an empty name.
pub open spec fn ssh_name(segment: Seq<char>) -> Option<Seq<char>> {
    match segment.index_of_first('.') {
        Some(dot) => {
            if segment.subrange(dot + 1, segment.len() as int).contains('.') || dot == 0 {
                None
            } else {
                Some(segment.subrange(0, dot))
            }
        },
        None => {
            if segment.len() == 0 {
                None
            } else {
                Some(segment)
            }
        },
    }
}

/// The directory name that a repository URL stands for.
///
/// Only URLs that start with `git@` or `https://` and contain a `/` name a
/// repository. The name is read from the segment behind the last `/`: for
/// `git@` URLs by [`ssh_name`], for `https://` URLs the segment as it is,
/// unless it is empty.
pub open spec fn repository_name_spec(url: Seq<char>) -> Option<Seq<char>> {
    match last_segment(url) {
        Some(segment) => {
            if "git@"@.is_prefix_of(url) {
                ssh_name(segment)
            } else if "https://"@.is_prefix_of(url) {
                if segment.len() == 0 {
                    None
                } else {
                    Some(segment)
                }
            } else {
                None
            }
        },
        None => None,
    }
}

/// The part of `url` behind its last `/`, if it has one.
fn segment_of(url: &str) -> (segment: Option<&str>)
    ensures
        match segment {
            Some(text) => last_segment(url@) == Some(text@),
            None => last_segment(url@) is None,
        },
{
    let len = url.unicode_len();
    let mut start: Option<usize> = None;
    let mut i: usize = 0;
    for c in it: url.chars()
        invariant
            it.seq() == url@,
            len == url@.len(),
            i == it.index(),
            match start {
                Some(s) => 0 < s <= i && url@[s - 1] == '/' && forall|k: int|
                    s <= k < i ==> url@[k] != '/',
                None => forall|k: int| 0 <= k < i ==> url@[k] != '/',
            },
    {
        i += 1;
        if c == '/' {
            start = Some(i);
        }
    }
    proof {
        url@.index_of_last_ensures('/');
    }
    match start {
        Some(s) => {
            proof {
                assert(url@.contains('/')) by {
                    assert(url@[s - 1] == '/');
                }
                let slash = url@.index_of_last('/').unwrap();
                if slash < s - 1 {
                    assert(url@[s - 1] != '/');
                }
                assert(slash == s - 1);
            }
            Some(url.substring_char(s, len))
        },
        None => None,
    }
}

/// Reads the name out of the last segment of an SSH-style URL.
fn ssh_name_of(segment: &str) -> (name: Option<String>)
    ensures
        text_of(name) == ssh_name(segment@),
{
    let len = segment.unicode_len();
    let mut first: Option<usize> = None;
    let mut again = false;
    let mut i: usize = 0;
    for c in it: segment.chars()
        invariant
            it.seq() == segment@,
            len == segment@.len(),
            i == it.index(),
            match first {
                Some(d) => d < i && segment@[d as int] == '.' && (forall|k: int|
                    0 <= k < d ==> segment@[k] != '.') && again == (exists|k: int|
                    d < k < i && segment@[k] == '.'),
                None => !again && forall|k: int| 0 <= k < i ==> segment@[k] != '.',
            },
    {
        if c == '.' {
            match first {
                Some(_) => {
                    again = true;
                },
                None => {
                    first = Some(i);
                },
            }
        }
        i += 1;
    }
    proof {
        segment@.index_of_first_ensures('.');
    }
    match first {
        Some(d) => {
            proof {
                assert(segment@.contains('.')) by {
                    assert(segment@[d as int] == '.');
                }
                let dot = segment@.index_of_first('.').unwrap();
                if d < dot {
                    assert(segment@[d as int] != '.');
                }
                assert(dot == d);
                let rest = segment@.subrange(d + 1, len as int);
                if again {
                    let k = choose|k: int| d < k < len && segment@[k] == '.';
                    assert(rest[k - d - 1] == '.');
                    assert(rest.contains('.'));
                } else {
                    if rest.contains('.') {
                        let r = choose|r: int| 0 <= r < rest.len() && rest[r] == '.';
                        assert(segment@[r + d + 1] == '.');
                    }
                }
            }
            if again || d == 0 {
                None
            } else {
                Some(String::from_str(segment.substring_char(0, d)))
            }
        },
        None => {
            if len == 0 {
                None
            } else {
                Some(String::from_str(segment))
            }
        },
    }
}

/// The directory name that a repository URL stands for, or `None` where the
/// URL names no repository.
pub fn repository_name(url: &str) -> (name: Option<String>)
    ensures
        text_of(name) == repository_name_spec(url@),
{
    match segment_of(url) {
        Some(segment) => {
            if starts_with(url, "git@") {
                ssh_name_of(segment)
            } else if starts_with(url, "https://") {
                if segment.unicode_len() == 0 {
                    None
                } else {
                    Some(String::from_str(segment))
                }
            } else {
                None
            }
        },
        None => None,
    }
}

} // verus!
