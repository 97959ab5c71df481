//! Declared versions of a container, and the registry that orders them.

use crate::error::SchemaError;
use crate::error::SchemaErrorModel;
use vstd::prelude::*;
use vstd::seq_lib::to_multiset_build;
use vstd::seq_lib::to_multiset_contains;
use vstd::seq_lib::to_multiset_insert;
use vstd::seq_lib::to_multiset_len;
use vstd::seq_lib::to_multiset_remove;

verus! {

/// One declared version of a container.
///
/// Versions are ordered by `id`; two declarations with the same `id` are the
/// same version.
#[derive(Clone, Copy, Debug, PartialEq, Eq, Structural)]
pub struct Version {
    /// The identifier by which versions are ordered and told apart.
    pub id: u64,
    /// Whether the definition generated for this version is marked deprecated.
    pub deprecated: bool,
    /// Whether the conversion from this version to the next one is left out.
    pub skip_from: bool,
}

impl Version {
    /// A version that is neither deprecated nor left out of conversions.
    pub fn new(id: u64) -> (v: Version)
        ensures
            v == (Version { id, deprecated: false, skip_from: false }),
    {
        Version { id, deprecated: false, skip_from: false }
    }
}

/// Every version stands before all versions with a greater identifier, and
/// no identifier occurs twice.
pub open spec fn strictly_ascending(vs: Seq<Version>) -> bool {
    forall|i: int, j: int| 0 <= i < j < vs.len() ==> vs[i].id < vs[j].id
}

/// Some version in `vs` has the identifier `id`.
pub open spec fn declares(vs: Seq<Version>, id: u64) -> bool {
    exists|i: int| 0 <= i < vs.len() && #[trigger] vs[i].id == id
}

/// Two versions in `vs` share an identifier.
pub open spec fn has_duplicate(vs: Seq<Version>) -> bool {
    exists|i: int, j: int| 0 <= i < j < vs.len() && #[trigger] vs[i].id == #[trigger] vs[j].id
}

/// `vs[j]` is the first version, in the order of declaration, whose
/// identifier an earlier version already has.
pub open spec fn is_first_repeat(vs: Seq<Version>, j: int) -> bool {
    &&& 0 <= j < vs.len()
    &&& !has_duplicate(vs.take(j))
    &&& declares(vs.take(j), vs[j].id)
}

/// `ordered` holds exactly the versions of `declared`, in ascending order.
pub open spec fn is_ordering_of(ordered: Seq<Version>, declared: Seq<Version>) -> bool {
    &&& strictly_ascending(ordered)
    &&& ordered.to_multiset() == declared.to_multiset()
}

/// The index of the first declaration that repeats an earlier one.
pub open spec fn first_repeat(vs: Seq<Version>) -> int {
    choose|j: int| is_first_repeat(vs, j)
}

/// The versions of `declared` in ascending order.
pub open spec fn ordering_of(declared: Seq<Version>) -> Seq<Version> {
    choose|ordered: Seq<Version>| is_ordering_of(ordered, declared)
}

/// What registering `declared` comes to: the versions in ascending order, or,
/// where two declarations share an identifier, the error that names the
/// identifier of the first declaration that repeats an earlier one.
pub open spec fn registered(declared: Seq<Version>) -> Result<Seq<Version>, SchemaErrorModel> {
    if has_duplicate(declared) {
        Err(SchemaErrorModel::DuplicateVersion { version: declared[first_repeat(declared)].id })
    } else {
        Ok(ordering_of(declared))
    }
}

/// The declared versions of one container, in strictly ascending order.
#[derive(Debug, PartialEq, Eq)]
pub struct OrderedVersions {
    versions: Vec<Version>,
}

impl View for OrderedVersions {
    type V = Seq<Version>;

    closed spec fn view(&self) -> Seq<Version> {
        self.versions@
    }
}

impl OrderedVersions {
    #[verifier::type_invariant]
    spec fn ordered(&self) -> bool {
        strictly_ascending(self.versions@)
    }

    /// The number of versions.
    pub fn len(&self) -> (n: usize)
        ensures
            n == self@.len(),
    {
        self.versions.len()
    }

    /// The versions, oldest first.
    pub fn as_vec(&self) -> (vs: &Vec<Version>)
        ensures
            vs@ == self@,
            strictly_ascending(vs@),
    {
        proof {
            use_type_invariant(self);
        }
        &self.versions
    }

    /// Whether a version with the identifier `id` is declared.
    pub fn contains(&self, id: u64) -> (found: bool)
        ensures
            found == declares(self@, id),
    {
        let mut k: usize = 0;
        while k < self.versions.len()
            invariant
                k <= self.versions.len(),
                !declares(self.versions@.take(k as int), id),
            decreases self.versions.len() - k,
        {
            if self.versions[k].id == id {
                return true;
            }
            proof {
                let before = self.versions@.take(k as int);
                let after = self.versions@.take(k + 1);
                assert forall|i: int| 0 <= i < after.len() implies after[i].id != id by {
                    if i < k {
                        assert(before[i].id == after[i].id);
                    }
                }
            }
            k += 1;
        }
        proof {
            assert(self.versions@.take(k as int) == self.versions@);
        }
        false
    }
}

/// Orders the declared versions of a container.
///
/// Succeeds exactly when no two declarations share an identifier, and then
/// returns the declared versions in ascending order. Otherwise the error names
/// the identifier of the first declaration that repeats an earlier one.
pub fn register(versions: Vec<Version>) -> (r: Result<OrderedVersions, SchemaError>)
    ensures
        match r {
            Ok(ordered) => registered(versions@) == Ok::<Seq<Version>, SchemaErrorModel>(ordered@),
            Err(e) => registered(versions@) == Err::<Seq<Version>, SchemaErrorModel>(e@),
        },
        r is Ok <==> !has_duplicate(versions@),
        r matches Ok(ordered) ==> is_ordering_of(ordered@, versions@),
        r is Err ==> is_first_repeat(versions@, first_repeat(versions@)),
{
    let mut out: Vec<Version> = Vec::new();
    let mut k: usize = 0;
    proof {
        assert(versions@.take(0) =~= out@);
    }
    while k < versions.len()
        invariant
            k <= versions.len(),
            strictly_ascending(out@),
            out@.to_multiset() == versions@.take(k as int).to_multiset(),
            !has_duplicate(versions@.take(k as int)),
        decreases versions.len() - k,
    {
        let v = versions[k];
        let ghost seen = versions@.take(k as int);
        let mut pos: usize = 0;
        while pos < out.len() && out[pos].id < v.id
            invariant
                pos <= out.len(),
                forall|i: int| 0 <= i < pos ==> out@[i].id < v.id,
            decreases out.len() - pos,
        {
            pos += 1;
        }
        if pos < out.len() && out[pos].id == v.id {
            proof {
                lemma_member_of_both(out@, seen, out@[pos as int]);
                assert(is_first_repeat(versions@, k as int));
                lemma_first_repeat_unique(versions@, k as int, first_repeat(versions@));
            }
            return Err(SchemaError::DuplicateVersion { version: v.id });
        }
        proof {
            assert(versions@.take(k + 1) == seen.push(v));
            to_multiset_build(seen, v);
            to_multiset_insert(out@, pos as int, v);
            assert(!declares(seen, v.id)) by {
                if declares(seen, v.id) {
                    let i = choose|i: int| 0 <= i < seen.len() && #[trigger] seen[i].id == v.id;
                    lemma_member_of_both(seen, out@, seen[i]);
                    let p = choose|p: int| 0 <= p < out@.len() && out@[p] == seen[i];
                    assert(out@[p].id == v.id);
                    if p < pos {
                    } else if p > pos {
                    }
                }
            }
            lemma_push_keeps_distinct(seen, v);
        }
        out.insert(pos, v);
        k += 1;
    }
    proof {
        assert(versions@.take(k as int) == versions@);
        assert(is_ordering_of(out@, versions@));
        lemma_ordering_unique(out@, ordering_of(versions@));
    }
    Ok(OrderedVersions { versions: out })
}

/// A set of versions has one ascending order only: two strictly ascending
/// sequences that hold the same versions are the same sequence.
pub proof fn lemma_ordering_unique(a: Seq<Version>, b: Seq<Version>)
    requires
        strictly_ascending(a),
        strictly_ascending(b),
        a.to_multiset() == b.to_multiset(),
    ensures
        a == b,
    decreases a.len(),
{
    to_multiset_len(a);
    to_multiset_len(b);
    if a.len() == 0 {
        assert(a =~= b);
    } else {
        let n = a.len() - 1;
        assert(a.contains(a[n]));
        assert(b.contains(b[n]));
        to_multiset_contains(a, a[n]);
        to_multiset_contains(b, a[n]);
        to_multiset_contains(a, b[n]);
        to_multiset_contains(b, b[n]);
        let p = choose|p: int| 0 <= p < b.len() && b[p] == a[n];
        let q = choose|q: int| 0 <= q < a.len() && a[q] == b[n];
        assert(p == n) by {
            if p < n {
                assert(b[p].id < b[n].id);
                if q < n {
                    assert(a[q].id < a[n].id);
                }
            }
        }
        to_multiset_remove(a, n);
        to_multiset_remove(b, n);
        assert(a.remove(n) =~= a.drop_last());
        assert(b.remove(n) =~= b.drop_last());
        lemma_ordering_unique(a.drop_last(), b.drop_last());
        assert(a =~= a.drop_last().push(a[n]));
        assert(b =~= b.drop_last().push(b[n]));
    }
}

/// Only one declaration is the first to repeat an earlier one.
pub proof fn lemma_first_repeat_unique(versions: Seq<Version>, j: int, k: int)
    requires
        is_first_repeat(versions, j),
        is_first_repeat(versions, k),
    ensures
        j == k,
{
    if j < k {
        lemma_repeat_shows_in_longer_prefix(versions, j, k);
    } else if k < j {
        lemma_repeat_shows_in_longer_prefix(versions, k, j);
    }
}

/// A declaration that repeats an earlier one is a duplicate in every prefix
/// that reaches beyond it.
proof fn lemma_repeat_shows_in_longer_prefix(versions: Seq<Version>, j: int, k: int)
    requires
        is_first_repeat(versions, j),
        j < k <= versions.len(),
    ensures
        has_duplicate(versions.take(k)),
{
    let before = versions.take(j);
    let i = choose|i: int| 0 <= i < before.len() && #[trigger] before[i].id == versions[j].id;
    let longer = versions.take(k);
    assert(longer[i].id == longer[j].id);
}

/// An element of `a` is an element of every sequence with the same elements.
proof fn lemma_member_of_both(a: Seq<Version>, b: Seq<Version>, v: Version)
    requires
        a.to_multiset() == b.to_multiset(),
        a.contains(v),
    ensures
        b.contains(v),
{
    to_multiset_contains(a, v);
    to_multiset_contains(b, v);
}

/// Appending a version with a new identifier introduces no duplicate.
proof fn lemma_push_keeps_distinct(vs: Seq<Version>, v: Version)
    requires
        !has_duplicate(vs),
        !declares(vs, v.id),
    ensures
        !has_duplicate(vs.push(v)),
{
    let ws = vs.push(v);
    assert forall|i: int, j: int| 0 <= i < j < ws.len() implies ws[i].id != ws[j].id by {
        if j < vs.len() {
            assert(vs[i].id == ws[i].id && vs[j].id == ws[j].id);
        } else {
            assert(vs[i].id == ws[i].id);
        }
    }
}

} // verus!
