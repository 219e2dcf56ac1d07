//! Which entries of a build-output directory count as binaries.

use vstd::prelude::*;
use vstd::string::*;

use crate::text::texts_of;

verus! {

/// The permission bits that allow the owner, the group or anybody else to
/// execute a file.
pub const EXECUTE_BITS: u32 = 0o111;

/// What kind of thing a directory entry is, without following links.
#[derive(Clone, Copy, Debug, PartialEq, Eq, Structural)]
pub enum FileKind {
    /// A regular file.
    File,
    /// A directory.
    Directory,
    /// A symbolic link, whatever it points to.
    Symlink,
    /// Anything else: a socket, a device, a pipe.
    Other,
}

/// One top-level entry of a directory, as a listing reports it.
#[derive(Debug)]
pub struct DirectoryEntry {
    /// The entry's file name, a single path component.
    pub name: String,
    /// What the entry is.
    pub kind: FileKind,
    /// The entry's permission bits.
    pub mode: u32,
}

/// Whether a file name has an extension: it holds a `.` behind its first
/// character. The name `..` has none.
pub open spec fn has_extension(name: Seq<char>) -> bool {
    name != seq!['.', '.'] && exists|i: int| 0 < i < name.len() && name[i] == '.'
}

/// Whether an entry is a candidate binary: a regular file without an
/// extension that somebody may execute.
pub open spec fn is_candidate(entry: DirectoryEntry) -> bool {
    &&& entry.kind == FileKind::File
    &&& !has_extension(entry.name@)
    &&& entry.mode & EXECUTE_BITS != 0
}

/// The names of the candidate binaries of a listing, in listing order.
pub open spec fn candidate_names(entries: Seq<DirectoryEntry>) -> Seq<Seq<char>> {
    entries.filter(|entry: DirectoryEntry| is_candidate(entry)).map_values(
        |entry: DirectoryEntry| entry.name@,
    )
}

/// Whether `name` has an extension.
pub fn name_has_extension(name: &str) -> (found: bool)
    ensures
        found == has_extension(name@),
{
    let mut at_start = true;
    let mut starts_with_dot = false;
    let mut dot_behind_first = false;
    for c in it: name.chars()
        invariant
            it.seq() == name@,
            at_start == (it.index() == 0),
            starts_with_dot == (it.index() > 0 && name@[0] == '.'),
            dot_behind_first == (exists|k: int| 0 < k < it.index() && name@[k] == '.'),
    {
        if c == '.' {
            if at_start {
                starts_with_dot = true;
            } else {
                dot_behind_first = true;
            }
        }
        at_start = false;
    }
    if !dot_behind_first {
        return false;
    }
    if starts_with_dot && name.unicode_len() == 2 {
        assert(name@[1] == '.');
        assert(name@ =~= seq!['.', '.']);
        return false;
    }
    assert(name@ != seq!['.', '.']) by {
        let parent: Seq<char> = seq!['.', '.'];
        if name@ == parent {
            assert(parent.len() == 2);
            assert(parent[0] == '.');
        }
    }
    true
}

/// Whether an entry is a candidate binary.
pub fn is_candidate_binary(entry: &DirectoryEntry) -> (candidate: bool)
    ensures
        candidate == is_candidate(*entry),
        candidate <==> entry.kind == FileKind::File && !has_extension(entry.name@) && entry.mode
            & 0o111 != 0,
{
    match entry.kind {
        FileKind::File => {},
        _ => {
            return false;
        },
    }
    if name_has_extension(entry.name.as_str()) {
        return false;
    }
    entry.mode & EXECUTE_BITS != 0
}

/// The names of the candidate binaries among `entries`, in listing order.
pub fn read_executables(entries: &Vec<DirectoryEntry>) -> (names: Vec<String>)
    ensures
        texts_of(names@) == candidate_names(entries@),
{
    let mut names: Vec<String> = Vec::new();
    let mut i: usize = 0;
    assert(entries@.take(0) =~= Seq::<DirectoryEntry>::empty());
    assert(texts_of(names@) =~= candidate_names(entries@.take(0))) by {
        reveal(Seq::filter);
    }
    while i < entries.len()
        invariant
            i <= entries@.len(),
            texts_of(names@) == candidate_names(entries@.take(i as int)),
        decreases entries@.len() - i,
    {
        let entry = &entries[i];
        proof {
            lemma_candidate_names_step(entries@, i as int);
        }
        if is_candidate_binary(entry) {
            let ghost before = names@;
            names.push(entry.name.clone());
            assert(texts_of(names@) =~= texts_of(before).push(entry.name@));
        }
        i += 1;
    }
    assert(entries@.take(entries@.len() as int) =~= entries@);
    names
}

/// Extending a listing by one entry extends the candidate names by that
/// entry's name if it is a candidate, and leaves them as they are if not.
pub proof fn lemma_candidate_names_step(entries: Seq<DirectoryEntry>, i: int)
    requires
        0 <= i < entries.len(),
    ensures
        candidate_names(entries.take(i + 1)) == if is_candidate(entries[i]) {
            candidate_names(entries.take(i)).push(entries[i].name@)
        } else {
            candidate_names(entries.take(i))
        },
{
    let keep = |entry: DirectoryEntry| is_candidate(entry);
    let name = |entry: DirectoryEntry| entry.name@;
    let head = entries.take(i);
    assert(entries.take(i + 1) =~= head.push(entries[i]));
    head.lemma_filter_push(entries[i], keep);
    if is_candidate(entries[i]) {
        assert(head.filter(keep).push(entries[i]).map_values(name) =~= head.filter(
            keep,
        ).map_values(name).push(entries[i].name@));
    }
}

/// A name is among the candidate names exactly when the listing holds a
/// candidate entry of that name.
pub proof fn lemma_candidate_names_contains(entries: Seq<DirectoryEntry>, name: Seq<char>)
    ensures
        candidate_names(entries).contains(name) <==> exists|i: int|
            0 <= i < entries.len() && is_candidate(#[trigger] entries[i]) && entries[i].name@
                == name,
    decreases entries.len(),
{
    if entries.len() == 0 {
        reveal(Seq::filter);
        assert(candidate_names(entries) =~= Seq::<Seq<char>>::empty());
    } else {
        let last = entries.len() - 1;
        let head = entries.take(last);
        assert(entries.take(last + 1) =~= entries);
        lemma_candidate_names_step(entries, last);
        lemma_candidate_names_contains(head, name);
        let names = candidate_names(entries);
        let before = candidate_names(head);
        if candidate_names(entries).contains(name) {
            let at = choose|at: int| 0 <= at < names.len() && names[at] == name;
            if is_candidate(entries[last]) && at == before.len() {
                assert(is_candidate(entries[last]) && entries[last].name@ == name);
            } else {
                assert(before[at] == name);
                assert(before.contains(name));
                let i = choose|i: int|
                    0 <= i < head.len() && is_candidate(#[trigger] head[i]) && head[i].name@
                        == name;
                assert(is_candidate(entries[i]) && entries[i].name@ == name);
            }
        }
        if exists|i: int|
            0 <= i < entries.len() && is_candidate(#[trigger] entries[i]) && entries[i].name@
                == name {
            let i = choose|i: int|
                0 <= i < entries.len() && is_candidate(#[trigger] entries[i]) && entries[i].name@
                    == name;
            if i == last {
                assert(names[before.len() as int] == name);
            } else {
                assert(is_candidate(head[i]) && head[i].name@ == name);
                assert(before.contains(name));
                let at = choose|at: int| 0 <= at < before.len() && before[at] == name;
                assert(names[at] == name);
            }
        }
    }
}

} // verus!
