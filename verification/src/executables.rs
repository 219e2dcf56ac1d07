//! The set of executable names a target is expected to produce.

use vstd::prelude::*;

verus! {

/// The names of the binaries that are published for one target.
///
/// The names are kept in a `hashbrown::HashSet<String>`; the verifier sees
/// the set only through [`executable_names`].
#[verifier::external_body]
#[derive(Debug)]
pub struct ExecutableSet {
    names: hashbrown::HashSet<String>,
}

/// The names held by an [`ExecutableSet`], each as its sequence of
/// characters.
pub uninterp spec fn executable_names(set: ExecutableSet) -> Set<Seq<char>>;

/// Why a list of names was not accepted as an [`ExecutableSet`].
#[derive(Clone, Copy, Debug, PartialEq, Eq, Structural)]
pub enum DuplicateExecutable {
    /// The name at this position already occurred earlier in the list.
    At(usize),
}

impl View for ExecutableSet {
    type V = Set<Seq<char>>;

    open spec fn view(&self) -> Set<Seq<char>> {
        executable_names(*self)
    }
}

/// Calls `hashbrown::HashSet::new`, which returns a set without elements.
#[verifier::external_body]
fn empty_set() -> (set: ExecutableSet)
    ensures
        executable_names(set) == Set::<Seq<char>>::empty(),
{
    ExecutableSet { names: hashbrown::HashSet::new() }
}

/// Calls `hashbrown::HashSet::insert`, which adds the value to the set and
/// returns `true` exactly when the set did not hold an equal value before.
#[verifier::external_body]
fn set_insert(set: &mut ExecutableSet, name: String) -> (fresh: bool)
    ensures
        executable_names(*final(set)) == executable_names(*old(set)).insert(name@),
        fresh == !executable_names(*old(set)).contains(name@),
{
    set.names.insert(name)
}

/// Calls `hashbrown::HashSet::contains`, which returns `true` exactly when
/// the set holds a value equal to the given one.
#[verifier::external_body]
fn set_contains(set: &ExecutableSet, name: &str) -> (found: bool)
    ensures
        found == executable_names(*set).contains(name@),
{
    set.names.contains(name)
}

/// Calls `hashbrown::HashSet::iter`, which visits every value of the set
/// exactly once, in an order that is not specified, and copies each value
/// visited.
#[verifier::external_body]
fn set_names(set: &ExecutableSet) -> (names: Vec<String>)
    ensures
        forall|name: Seq<char>|
            executable_names(*set).contains(name) <==> exists|i: int|
                0 <= i < names@.len() && #[trigger] names@[i]@ == name,
        forall|i: int, j: int|
            0 <= i < j < names@.len() ==> #[trigger] names@[i]@ != #[trigger] names@[j]@,
{
    set.names.iter().cloned().collect()
}

/// The names at the first `count` positions of a list.
pub open spec fn names_before(names: Seq<String>, count: int) -> Set<Seq<char>> {
    Set::new(
        |name: Seq<char>|
            exists|k: int| 0 <= k < count && k < names.len() && #[trigger] names[k]@ == name,
    )
}

/// Whether the name at `index` repeats one that stands before it.
pub open spec fn repeats_earlier(names: Seq<String>, index: int) -> bool {
    exists|k: int| 0 <= k < index && #[trigger] names[k]@ == names[index]@
}

impl ExecutableSet {
    /// A set without names.
    pub fn new() -> (set: ExecutableSet)
        ensures
            set@ == Set::<Seq<char>>::empty(),
    {
        empty_set()
    }

    /// Adds a name. Returns `true` exactly when the name was not in the set
    /// yet.
    pub fn insert(&mut self, name: String) -> (fresh: bool)
        ensures
            final(self)@ == old(self)@.insert(name@),
            fresh == !old(self)@.contains(name@),
    {
        set_insert(self, name)
    }

    /// Whether `name` is one of the expected executables.
    pub fn contains(&self, name: &str) -> (found: bool)
        ensures
            found == self@.contains(name@),
    {
        set_contains(self, name)
    }

    /// The names of the set, each once, in no particular order.
    pub fn names(&self) -> (names: Vec<String>)
        ensures
            forall|name: Seq<char>|
                self@.contains(name) <==> exists|i: int|
                    0 <= i < names@.len() && #[trigger] names@[i]@ == name,
            forall|i: int, j: int|
                0 <= i < j < names@.len() ==> #[trigger] names@[i]@ != #[trigger] names@[j]@,
    {
        set_names(self)
    }

    /// Builds the set from a list in which every name may occur only once.
    ///
    /// Fails at the first position whose name repeats an earlier one.
    pub fn from_names(names: Vec<String>) -> (made: Result<ExecutableSet, DuplicateExecutable>)
        ensures
            made is Ok <==> forall|i: int| 0 <= i < names@.len() ==> !repeats_earlier(names@, i),
            made matches Ok(set) ==> set@ == names_before(names@, names@.len() as int),
            made matches Err(DuplicateExecutable::At(at)) ==> {
                &&& at < names@.len()
                &&& repeats_earlier(names@, at as int)
                &&& forall|i: int| 0 <= i < at ==> !repeats_earlier(names@, i)
            },
    {
        let ghost all = names@;
        let count = names.len();
        let mut set = ExecutableSet::new();
        let mut i: usize = 0;
        assert(set@ =~= names_before(all, 0));
        for name in it: names
            invariant
                all == names@,
                it.seq() == all,
                all.len() == count,
                i == it.index(),
                set@ == names_before(all, i as int),
                forall|k: int| 0 <= k < i ==> !repeats_earlier(all, k),
        {
            let fresh = set.insert(name);
            if !fresh {
                proof {
                    let k = choose|k: int|
                        0 <= k < i && k < all.len() && #[trigger] all[k]@ == all[i as int]@;
                    assert(all[k]@ == all[i as int]@);
                    assert(repeats_earlier(all, i as int));
                }
                return Err(DuplicateExecutable::At(i));
            }
            proof {
                assert(set@ =~= names_before(all, i + 1)) by {
                    assert forall|name: Seq<char>|
                        names_before(all, i + 1).contains(name) implies #[trigger] set@.contains(
                        name,
                    ) by {
                        let k = choose|k: int|
                            0 <= k < i + 1 && k < all.len() && #[trigger] all[k]@ == name;
                        if k < i {
                            assert(names_before(all, i as int).contains(name));
                        }
                    }
                    assert forall|name: Seq<char>| #[trigger]
                        set@.contains(name) implies names_before(all, i + 1).contains(name) by {
                        if name == all[i as int]@ {
                            assert(all[i as int]@ == name);
                        } else {
                            assert(names_before(all, i as int).contains(name));
                            let k = choose|k: int|
                                0 <= k < i && k < all.len() && #[trigger] all[k]@ == name;
                            assert(all[k]@ == name);
                        }
                    }
                }
                assert(!repeats_earlier(all, i as int)) by {
                    if repeats_earlier(all, i as int) {
                        let k = choose|k: int| 0 <= k < i && #[trigger] all[k]@ == all[i as int]@;
                        assert(names_before(all, i as int).contains(all[i as int]@));
                    }
                }
            }
            i += 1;
        }
        Ok(set)
    }
}

} // verus!
