//! What is published after a build, under which name, and where.

use vstd::prelude::*;
use vstd::string::*;

use crate::artifact::{
    candidate_names, is_candidate_binary, lemma_candidate_names_step, DirectoryEntry,
};
use crate::commit::{commit_hex, hex_lower};
use crate::executables::ExecutableSet;
use crate::text::texts_of;

verus! {

/// The only status with which the endpoint accepts an upload.
pub const STATUS_OK: u16 = 200;

/// The name under which a binary built from a commit is published: the
/// binary's name, a `-`, and the commit's forty hexadecimal characters.
pub open spec fn upload_name(binary: Seq<char>, hash: Seq<u8>) -> Seq<char> {
    binary + seq!['-'] + hex_lower(hash)
}

/// The address uploads are posted to, for a given endpoint.
pub open spec fn upload_url_spec(endpoint: Seq<char>) -> Seq<char> {
    endpoint + "/upload?path=/"@
}

/// The binaries to publish after a build: the candidate binaries of the
/// listing whose name is one of the target's executables, in listing order.
pub open spec fn planned_uploads(
    entries: Seq<DirectoryEntry>,
    executables: Set<Seq<char>>,
) -> Seq<Seq<char>> {
    candidate_names(entries).filter(|name: Seq<char>| executables.contains(name))
}

/// The name of the multipart form part that carries the file.
pub fn part_name() -> (name: &'static str)
    ensures
        name@ == "path"@,
{
    "path"
}

/// The address uploads are posted to.
pub fn upload_url(endpoint: &str) -> (url: String)
    ensures
        url@ == upload_url_spec(endpoint@),
{
    String::from_str(endpoint).concat("/upload?path=/")
}

/// The name under which `binary`, built from commit `hash`, is published.
pub fn upload_file_name(binary: &str, hash: &[u8; 20]) -> (name: String)
    ensures
        name@ == upload_name(binary@, hash@),
        name@.len() == binary@.len() + 41,
{
    let commit = commit_hex(hash);
    proof {
        reveal_strlit("-");
        assert("-"@ =~= seq!['-']);
    }
    String::from_str(binary).concat("-").concat(commit.as_str())
}

/// Whether the endpoint's answer means that the upload was accepted.
pub fn upload_accepted(status: u16) -> (accepted: bool)
    ensures
        accepted == (status == 200),
{
    status == STATUS_OK
}

/// The binaries to publish after a build, in listing order.
pub fn plan_uploads(entries: &Vec<DirectoryEntry>, executables: &ExecutableSet) -> (queue: Vec<
    String,
>)
    ensures
        texts_of(queue@) == planned_uploads(entries@, executables@),
{
    let mut queue: Vec<String> = Vec::new();
    let mut i: usize = 0;
    let ghost wanted = |name: Seq<char>| executables@.contains(name);
    proof {
        assert(entries@.take(0) =~= Seq::<DirectoryEntry>::empty());
        reveal(Seq::filter);
        assert(candidate_names(entries@.take(0)) =~= Seq::<Seq<char>>::empty());
        assert(texts_of(queue@) =~= planned_uploads(entries@.take(0), executables@));
    }
    while i < entries.len()
        invariant
            i <= entries@.len(),
            wanted == |name: Seq<char>| executables@.contains(name),
            texts_of(queue@) == planned_uploads(entries@.take(i as int), executables@),
        decreases entries@.len() - i,
    {
        let entry = &entries[i];
        proof {
            lemma_candidate_names_step(entries@, i as int);
            candidate_names(entries@.take(i as int)).lemma_filter_push(entry.name@, wanted);
        }
        if is_candidate_binary(entry) && executables.contains(entry.name.as_str()) {
            let ghost before = queue@;
            queue.push(entry.name.clone());
            assert(texts_of(queue@) =~= texts_of(before).push(entry.name@));
        }
        i += 1;
    }
    assert(entries@.take(entries@.len() as int) =~= entries@);
    queue
}

/// Every planned upload is a candidate binary of the listing it was planned
/// from, and one of the target's executables.
pub proof fn lemma_planned_uploads_are_listed(
    entries: Seq<DirectoryEntry>,
    executables: Set<Seq<char>>,
    name: Seq<char>,
)
    ensures
        planned_uploads(entries, executables).contains(name) <==> candidate_names(
            entries,
        ).contains(name) && executables.contains(name),
{
    let wanted = |name: Seq<char>| executables.contains(name);
    let names = candidate_names(entries);
    let kept = names.filter(wanted);
    if kept.contains(name) {
        let at = choose|at: int| 0 <= at < kept.len() && kept[at] == name;
        names.lemma_filter_pred(wanted, at);
        names.lemma_filter_contains_rev(wanted, name);
    }
    if names.contains(name) && executables.contains(name) {
        let at = choose|at: int| 0 <= at < names.len() && names[at] == name;
        names.lemma_filter_contains(wanted, at);
    }
}

} // verus!
