//! What holds of every declaration, proved from the definitions.

use crate::container::active_items;
use crate::container::assembled;
use crate::container::ContainerInputModel;
use crate::container::first_faulty;
use crate::container::is_first_faulty;
use crate::container::part_of;
use crate::container::resolved;
use crate::container::resolved_at;
use crate::container::ResolvedItemModel;
use crate::container::VersionedContainerModel;
use crate::container::views_of;
use crate::conversion::adjacent_pairs;
use crate::conversion::defaults_suffice;
use crate::conversion::dropped_between;
use crate::conversion::dropped_of;
use crate::conversion::first_lacking;
use crate::conversion::is_first_failing;
use crate::conversion::is_first_lacking;
use crate::conversion::ItemMappingModel;
use crate::conversion::lacks_default;
use crate::conversion::lemma_dropped_push;
use crate::conversion::lemma_mappings_push;
use crate::conversion::mapping;
use crate::conversion::mapping_between;
use crate::conversion::mappings_of;
use crate::conversion::pair_fails;
use crate::error::SchemaErrorModel;
use crate::item::ActionModel;
use crate::item::is_last_rename;
use crate::item::ItemModel;
use crate::item::lifecycle_valid;
use crate::item::name_at;
use crate::item::not_yet_added;
use crate::item::Presence;
use crate::item::state_at;
use crate::version::declares;
use crate::version::first_repeat;
use crate::version::has_duplicate;
use crate::version::is_first_repeat;
use crate::version::is_ordering_of;
use crate::version::lemma_ordering_unique;
use crate::version::ordering_of;
use crate::version::registered;
use crate::version::strictly_ascending;
use crate::version::Version;
use vstd::prelude::*;
use vstd::seq_lib::to_multiset_build;
use vstd::seq_lib::to_multiset_contains;
use vstd::seq_lib::to_multiset_insert;

verus! {

/// The number of versions in `vs` whose identifier is less than `id`.
pub open spec fn rank(vs: Seq<Version>, id: u64) -> int
    decreases vs.len(),
{
    if vs.len() == 0 {
        0
    } else if vs.last().id < id {
        rank(vs.drop_last(), id) + 1
    } else {
        rank(vs.drop_last(), id)
    }
}

/// In an ascending sequence the versions below `id` are those that stand
/// before the rank of `id`.
proof fn lemma_rank_splits(vs: Seq<Version>, id: u64)
    requires
        strictly_ascending(vs),
    ensures
        0 <= rank(vs, id) <= vs.len(),
        forall|i: int| 0 <= i < vs.len() ==> (#[trigger] vs[i].id < id <==> i < rank(vs, id)),
    decreases vs.len(),
{
    if vs.len() > 0 {
        let front = vs.drop_last();
        lemma_rank_splits(front, id);
        assert forall|i: int| 0 <= i < vs.len() implies (#[trigger] vs[i].id < id <==> i < rank(
            vs,
            id,
        )) by {
            if i < front.len() {
                assert(front[i] == vs[i]);
                if vs.last().id < id {
                    assert(vs[i].id < vs[vs.len() - 1].id);
                } else if rank(front, id) == front.len() && front.len() > 0 {
                    assert(front[front.len() - 1].id < id);
                }
            } else {
                if !(vs.last().id < id) && front.len() > 0 && rank(front, id) == front.len() {
                    assert(front[front.len() - 1] == vs[front.len() - 1]);
                    assert(front[front.len() - 1].id < id);
                }
            }
        }
    }
}

/// Versions that share no identifier can be put in ascending order: what
/// registering them gives is an ordering of them.
pub proof fn lemma_ordering_exists(declared: Seq<Version>)
    requires
        !has_duplicate(declared),
    ensures
        is_ordering_of(ordering_of(declared), declared),
        registered(declared) == Ok::<Seq<Version>, SchemaErrorModel>(ordering_of(declared)),
    decreases declared.len(),
{
    if declared.len() == 0 {
        assert(is_ordering_of(declared, declared));
    } else {
        let front = declared.drop_last();
        let v = declared.last();
        assert(!has_duplicate(front)) by {
            if has_duplicate(front) {
                let (i, j) = choose|i: int, j: int|
                    0 <= i < j < front.len() && #[trigger] front[i].id == #[trigger] front[j].id;
                assert(declared[i].id == declared[j].id);
            }
        }
        lemma_ordering_exists(front);
        let sorted = ordering_of(front);
        let at = rank(sorted, v.id);
        lemma_rank_splits(sorted, v.id);
        assert forall|i: int| 0 <= i < sorted.len() implies (#[trigger] sorted[i]).id != v.id by {
            assert(sorted.contains(sorted[i]));
            to_multiset_contains(sorted, sorted[i]);
            to_multiset_contains(front, sorted[i]);
            let p = choose|p: int| 0 <= p < front.len() && front[p] == sorted[i];
            assert(declared[p] == front[p]);
            if sorted[i].id == v.id {
                assert(declared[p].id == declared[declared.len() - 1].id);
            }
        }
        let whole = sorted.insert(at, v);
        sorted.insert_ensures(at, v);
        assert(strictly_ascending(whole)) by {
            assert forall|i: int, j: int| 0 <= i < j < whole.len() implies whole[i].id
                < whole[j].id by {
                let a = if i < at {
                    i
                } else {
                    i - 1
                };
                let b = if j < at {
                    j
                } else {
                    j - 1
                };
                if i != at && j != at {
                    assert(whole[i] == sorted[a]);
                    assert(whole[j] == sorted[b]);
                } else if i == at {
                    assert(whole[j] == sorted[b]);
                    assert(!(sorted[b].id < v.id));
                } else {
                    assert(whole[i] == sorted[a]);
                    assert(sorted[a].id < v.id);
                }
            }
        }
        to_multiset_insert(sorted, at, v);
        to_multiset_build(front, v);
        assert(declared =~= front.push(v));
        assert(is_ordering_of(whole, declared));
    }
}

/// Where a property holds of some index, there is a least index of which it
/// holds.
proof fn lemma_least(holds: spec_fn(int) -> bool, n: int) -> (m: int)
    requires
        0 <= n,
        holds(n),
    ensures
        0 <= m <= n,
        holds(m),
        forall|j: int| 0 <= j < m ==> !#[trigger] holds(j),
    decreases n,
{
    if exists|j: int| 0 <= j < n && #[trigger] holds(j) {
        let j = choose|j: int| 0 <= j < n && #[trigger] holds(j);
        lemma_least(holds, j)
    } else {
        n
    }
}

/// Where two declarations share an identifier, one declaration is the first
/// to repeat an earlier one: the one that the error of registering names.
pub proof fn lemma_first_repeat_exists(declared: Seq<Version>)
    requires
        has_duplicate(declared),
    ensures
        is_first_repeat(declared, first_repeat(declared)),
        registered(declared) == Err::<Seq<Version>, SchemaErrorModel>(
            SchemaErrorModel::DuplicateVersion { version: declared[first_repeat(declared)].id },
        ),
{
    let repeats = |j: int| 0 <= j < declared.len() && declares(declared.take(j), declared[j].id);
    let (i, j) = choose|i: int, j: int|
        0 <= i < j < declared.len() && #[trigger] declared[i].id == #[trigger] declared[j].id;
    assert(declared.take(j)[i].id == declared[j].id);
    assert(repeats(j));
    let m = lemma_least(repeats, j);
    assert(!has_duplicate(declared.take(m))) by {
        if has_duplicate(declared.take(m)) {
            let front = declared.take(m);
            let (a, b) = choose|a: int, b: int|
                0 <= a < b < front.len() && #[trigger] front[a].id == #[trigger] front[b].id;
            assert(declared.take(b)[a].id == declared[b].id);
            assert(repeats(b));
        }
    }
    assert(is_first_repeat(declared, m));
}

/// Where some item has a fault, one item is the first to have one: the one
/// whose fault assembling reports.
pub proof fn lemma_first_faulty_exists(items: Seq<ItemModel>, versions: Seq<Version>, i: int)
    requires
        0 <= i < items.len(),
        items[i].fault(versions) is Some,
    ensures
        is_first_faulty(items, versions, first_faulty(items, versions)),
        first_faulty(items, versions) <= i,
{
    let faulty = |j: int| 0 <= j < items.len() && items[j].fault(versions) is Some;
    assert(faulty(i));
    let m = lemma_least(faulty, i);
    assert(is_first_faulty(items, versions, m)) by {
        assert forall|j: int| 0 <= j < m implies (#[trigger] items[j]).fault(versions) is None by {
            assert(!faulty(j));
        }
    }
    let first = first_faulty(items, versions);
    if m < first {
    } else if first < m {
    }
}

/// Where some item is new in the destination without a default, one item is
/// the first such: the one that the error of the conversion names.
pub proof fn lemma_first_lacking_exists(items: Seq<ItemModel>, from: u64, to: u64)
    requires
        !defaults_suffice(items, from, to),
    ensures
        is_first_lacking(items, from, to, first_lacking(items, from, to)),
{
    let lacking = |j: int| 0 <= j < items.len() && lacks_default(items[j], from, to);
    let i = choose|i: int| 0 <= i < items.len() && lacks_default(#[trigger] items[i], from, to);
    assert(lacking(i));
    let m = lemma_least(lacking, i);
    assert(is_first_lacking(items, from, to, m)) by {
        assert forall|j: int| 0 <= j < m implies !lacks_default(#[trigger] items[j], from, to) by {
            assert(!lacking(j));
        }
    }
}

/// Where the conversions of a container cannot all be generated, one pair of
/// adjacent versions is the first to fail, and in it one item is the first
/// that lacks a default: the error of the conversions names that item and
/// the destination of that pair.
pub proof fn lemma_first_failing_exists(container: VersionedContainerModel)
    requires
        !container.convertible(),
    ensures
        is_first_failing(
            container.items,
            adjacent_pairs(container.versions),
            container.first_failing(),
        ),
        is_first_lacking(
            container.items,
            adjacent_pairs(container.versions)[container.first_failing()].0.id,
            adjacent_pairs(container.versions)[container.first_failing()].1.id,
            first_lacking(
                container.items,
                adjacent_pairs(container.versions)[container.first_failing()].0.id,
                adjacent_pairs(container.versions)[container.first_failing()].1.id,
            ),
        ),
{
    let pairs = adjacent_pairs(container.versions);
    let items = container.items;
    let failing = |k: int| 0 <= k < pairs.len() && pair_fails(items, pairs[k]);
    let k = choose|k: int| 0 <= k < pairs.len() && pair_fails(items, #[trigger] pairs[k]);
    assert(failing(k));
    let m = lemma_least(failing, k);
    assert(is_first_failing(items, pairs, m)) by {
        assert forall|j: int| 0 <= j < m implies !pair_fails(items, #[trigger] pairs[j]) by {
            assert(!failing(j));
        }
    }
    let first = container.first_failing();
    lemma_first_lacking_exists(items, pairs[first].0.id, pairs[first].1.id);
}

/// Assembling is a function of the declaration: what comes of assembling the
/// same declaration twice is equal, views and conversions included, and so
/// is the error where the declaration is refused.
pub proof fn lemma_assembling_twice(
    first: Result<VersionedContainerModel, SchemaErrorModel>,
    second: Result<VersionedContainerModel, SchemaErrorModel>,
    input: ContainerInputModel,
    items: Seq<ItemModel>,
    skip_from: bool,
    declared: Seq<Version>,
)
    requires
        first == assembled(input, items, skip_from, declared),
        second == assembled(input, items, skip_from, declared),
    ensures
        first == second,
        first matches Ok(c) ==> second matches Ok(d) && c.views == d.views && c.conversions()
            == d.conversions(),
{
}

/// What the versions of a declaration are put in order as does not depend on
/// how the ordering is found: every strictly ascending arrangement of the
/// declared versions is the one that a container holds.
pub proof fn lemma_assembled_versions(
    input: ContainerInputModel,
    items: Seq<ItemModel>,
    skip_from: bool,
    declared: Seq<Version>,
    ordered: Seq<Version>,
)
    requires
        is_ordering_of(ordered, declared),
        assembled(input, items, skip_from, declared) is Ok,
    ensures
        assembled(input, items, skip_from, declared)->Ok_0.versions == ordered,
        assembled(input, items, skip_from, declared)->Ok_0.views == views_of(
            input,
            items,
            ordered,
        ),
{
    lemma_ordering_unique(ordered, ordering_of(declared));
}

/// At most one rename is in effect at a version.
pub proof fn lemma_rename_in_effect_unique(actions: Seq<ActionModel>, at: u64, i: int, j: int)
    requires
        is_last_rename(actions, at, i),
        is_last_rename(actions, at, j),
    ensures
        i == j,
{
    if i < j {
    } else if j < i {
    }
}

/// The rename in effect gives the item its name.
pub proof fn lemma_rename_in_effect_names(
    actions: Seq<ActionModel>,
    at: u64,
    running: Seq<char>,
    i: int,
)
    requires
        is_last_rename(actions, at, i),
    ensures
        name_at(actions, at, running) == actions[i].new_name(),
{
    let c = choose|c: int| is_last_rename(actions, at, c);
    lemma_rename_in_effect_unique(actions, at, i, c);
}

/// An item that no action has renamed by `at` goes by the name it had.
pub proof fn lemma_unrenamed_keeps_name(actions: Seq<ActionModel>, at: u64, running: Seq<char>)
    requires
        forall|i: int| 0 <= i < actions.len() ==> !#[trigger] actions[i].renames_by(at),
    ensures
        name_at(actions, at, running) == running,
{
}

/// In a consistent timeline the rename in effect is the latest one: no rename
/// that has happened by `at` belongs to a later version.
pub proof fn lemma_rename_in_effect_is_latest(actions: Seq<ActionModel>, at: u64, i: int, j: int)
    requires
        lifecycle_valid(actions),
        is_last_rename(actions, at, i),
        0 <= j < actions.len(),
        actions[j].renames_by(at),
    ensures
        actions[j].version() <= actions[i].version(),
{
    if i < j {
    } else if j < i {
    }
}

/// An item is part of no version before the one that adds it, and of no
/// version from the one that deprecates it.
pub proof fn lemma_present_within_lifetime(item: ItemModel, at: u64, i: int)
    requires
        item.present_at(at),
        0 <= i < item.actions.len(),
    ensures
        item.actions[i] is AddedIn ==> item.actions[i].version() <= at,
        item.actions[i] is DeprecatedIn ==> at < item.actions[i].version(),
{
    if item.actions[i] is AddedIn && item.actions[i].version() > at {
        assert(item.actions[i].adds_after(at));
    }
    if item.actions[i] is DeprecatedIn && item.actions[i].version() <= at {
        assert(item.actions[i].retires_by(at));
    }
}

/// A consistent timeline adds the item at most once, and deprecates it at
/// most once.
pub proof fn lemma_added_and_deprecated_once(actions: Seq<ActionModel>, i: int, j: int)
    requires
        lifecycle_valid(actions),
        0 <= i < actions.len(),
        0 <= j < actions.len(),
    ensures
        actions[i] is AddedIn && actions[j] is AddedIn ==> i == j,
        actions[i] is DeprecatedIn && actions[j] is DeprecatedIn ==> i == j,
        actions[i] is AddedIn && actions[j] is DeprecatedIn ==> actions[i].version()
            < actions[j].version(),
{
}

/// Every item of an assembled container is part of one of its views at
/// least: no item is declared in vain.
pub proof fn lemma_every_item_is_in_a_view(container: VersionedContainerModel, i: int)
    requires
        container.wf(),
        0 <= i < container.items.len(),
    ensures
        exists|k: int|
            0 <= k < container.versions.len() && container.items[i].present_at(
                #[trigger] container.versions[k].id,
            ),
{
    assert(container.items[i].fault(container.versions) is None);
}

/// An item without actions is part of the container at every version, under
/// its identity.
pub proof fn lemma_unversioned_item(item: ItemModel, at: u64)
    requires
        item.actions.len() == 0,
    ensures
        item.present_at(at),
        item.surface_name(at) == item.identity,
        item.resolve(at, item.identity).state == Presence::Present,
        item.resolve(at, item.identity).name == item.identity,
{
}

/// An item whose only action adds it in `version` is part of the container
/// from `version` on, and of no version before.
pub proof fn lemma_added_item(item: ItemModel, version: u64, at: u64)
    requires
        item.actions == seq![ActionModel::AddedIn { version }],
    ensures
        item.present_at(at) <==> version <= at,
        at < version ==> state_at(item.actions, at) == Presence::NotYetAdded,
        item.surface_name(at) == item.identity,
{
    assert(item.actions[0] == ActionModel::AddedIn { version });
    if at < version {
        assert(item.actions[0].adds_after(at));
    }
}

/// An item whose only action renames it in `version` goes by its identity
/// before `version`, and by the new name from `version` on.
pub proof fn lemma_renamed_item(item: ItemModel, version: u64, name: Seq<char>, at: u64)
    requires
        item.actions == seq![ActionModel::RenamedIn { version, name }],
    ensures
        item.present_at(at),
        at < version ==> item.surface_name(at) == item.identity,
        version <= at ==> item.surface_name(at) == name,
{
    assert(item.actions[0] == ActionModel::RenamedIn { version, name });
    if version <= at {
        assert(is_last_rename(item.actions, at, 0));
        let c = choose|i: int| is_last_rename(item.actions, at, i);
        assert(c == 0);
    }
}

/// An item whose only action deprecates it in `version` is part of the
/// container before `version`, and of no version from `version` on. A
/// conversion between two versions before `version` takes its value over; a
/// conversion that crosses into `version` drops it.
pub proof fn lemma_deprecated_item(item: ItemModel, version: u64, from: u64, to: u64)
    requires
        item.actions == seq![ActionModel::DeprecatedIn { version }],
    ensures
        item.present_at(to) <==> to < version,
        version <= to ==> state_at(item.actions, to) == Presence::Retired,
        item.surface_name(to) == item.identity,
        from < version <= to ==> mappings_of(seq![item], from, to) == Seq::<
            ItemMappingModel,
        >::empty(),
        from < version <= to ==> dropped_of(seq![item], from, to) == seq![
            ResolvedItemModel { identity: item.identity, name: item.identity, ty: item.ty },
        ],
        from < version && to < version ==> mappings_of(seq![item], from, to) == seq![
            ItemMappingModel::Carry {
                identity: item.identity,
                from: item.identity,
                to: item.identity,
                ty: item.ty,
            },
        ],
{
    assert(item.actions[0] == ActionModel::DeprecatedIn { version });
    if version <= to {
        assert(item.actions[0].retires_by(to));
    }
    if version <= from {
        assert(item.actions[0].retires_by(from));
    }
    let none = Seq::<ItemModel>::empty();
    assert(none.push(item) =~= seq![item]);
    lemma_mappings_push(none, item, from, to);
    lemma_dropped_push(none, item, from, to);
    reveal(Seq::filter);
    assert(mappings_of(none, from, to) =~= Seq::<ItemMappingModel>::empty());
    assert(dropped_of(none, from, to) =~= Seq::<ResolvedItemModel>::empty());
    if from < version <= to {
        assert(resolved(item, from) == ResolvedItemModel {
            identity: item.identity,
            name: item.identity,
            ty: item.ty,
        });
        assert(dropped_of(seq![item], from, to) =~= seq![resolved(item, from)]);
    }
    if from < version && to < version {
        assert(mappings_of(seq![item], from, to) =~= seq![
            ItemMappingModel::Carry {
                identity: item.identity,
                from: item.identity,
                to: item.identity,
                ty: item.ty,
            },
        ]);
    }
}

/// The life of an item has no gaps: between two versions of which it is
/// part, it is part of every version.
pub proof fn lemma_presence_is_unbroken(item: ItemModel, early: u64, at: u64, late: u64)
    requires
        early <= at <= late,
        item.present_at(early),
        item.present_at(late),
    ensures
        item.present_at(at),
{
    if !item.present_at(at) {
        if not_yet_added(item.actions, at) {
            let i = choose|i: int|
                0 <= i < item.actions.len() && #[trigger] item.actions[i].adds_after(at);
            assert(item.actions[i].adds_after(early));
        } else {
            let i = choose|i: int|
                0 <= i < item.actions.len() && #[trigger] item.actions[i].retires_by(at);
            assert(item.actions[i].retires_by(late));
        }
    }
}

/// An item that is retired stays retired.
pub proof fn lemma_retired_stays_retired(item: ItemModel, at: u64, later: u64)
    requires
        at <= later,
        state_at(item.actions, at) == Presence::Retired,
    ensures
        state_at(item.actions, later) == Presence::Retired,
{
    let i = choose|i: int| 0 <= i < item.actions.len() && #[trigger] item.actions[i].retires_by(at);
    assert(item.actions[i].retires_by(later));
    if not_yet_added(item.actions, later) {
        let j = choose|j: int|
            0 <= j < item.actions.len() && #[trigger] item.actions[j].adds_after(later);
        assert(item.actions[j].adds_after(at));
    }
}

/// A conversion is total over the destination: it has one mapping for each
/// item of the view at `to`, in the order of that view, for the same item and
/// under the same name.
pub proof fn lemma_conversion_covers_destination(items: Seq<ItemModel>, from: u64, to: u64)
    ensures
        mappings_of(items, from, to).len() == active_items(items, to).len(),
        forall|k: int|
            0 <= k < active_items(items, to).len() ==> {
                &&& (#[trigger] mappings_of(items, from, to)[k]).identity() == active_items(
                    items,
                    to,
                )[k].identity
                &&& mappings_of(items, from, to)[k].target() == active_items(items, to)[k].name
            },
{
    let kept = items.filter(part_of(to));
    assert(mappings_of(items, from, to) == kept.map_values(mapping_between(from, to)));
    assert(active_items(items, to) == kept.map_values(resolved_at(to)));
}

/// A conversion accounts for every item of the source: an item that is part
/// of `from` is carried over if it is part of `to` as well, and is listed as
/// dropped if not.
pub proof fn lemma_conversion_accounts_for_source(
    items: Seq<ItemModel>,
    from: u64,
    to: u64,
    i: int,
)
    requires
        0 <= i < items.len(),
        items[i].present_at(from),
    ensures
        items[i].present_at(to) ==> mappings_of(items, from, to).contains(
            ItemMappingModel::Carry {
                identity: items[i].identity,
                from: items[i].surface_name(from),
                to: items[i].surface_name(to),
                ty: items[i].ty,
            },
        ),
        !items[i].present_at(to) ==> dropped_of(items, from, to).contains(
            resolved(items[i], from),
        ),
{
    if items[i].present_at(to) {
        let kept = items.filter(part_of(to));
        items.lemma_filter_contains(part_of(to), i);
        let k = choose|k: int| 0 <= k < kept.len() && kept[k] == items[i];
        assert(mappings_of(items, from, to)[k] == mapping(items[i], from, to));
    } else {
        let gone = items.filter(dropped_between(from, to));
        items.lemma_filter_contains(dropped_between(from, to), i);
        let k = choose|k: int| 0 <= k < gone.len() && gone[k] == items[i];
        assert(dropped_of(items, from, to)[k] == resolved(items[i], from));
    }
}

} // verus!
