//! Items of a container and their lifecycle across versions.

use crate::error::SchemaError;
use crate::error::SchemaErrorModel;
use crate::version::declares;
use crate::version::OrderedVersions;
use crate::version::Version;
use vstd::prelude::*;

verus! {

/// One event in the life of an item.
#[derive(Debug, PartialEq, Eq)]
pub enum Action {
    /// The item does not exist before `version`.
    AddedIn { version: u64 },
    /// From `version` on the item goes by `name`.
    RenamedIn { version: u64, name: String },
    /// From `version` on the item is no longer part of the container.
    DeprecatedIn { version: u64 },
}

/// The mathematical value of an [`Action`].
pub enum ActionModel {
    AddedIn { version: u64 },
    RenamedIn { version: u64, name: Seq<char> },
    DeprecatedIn { version: u64 },
}

impl ActionModel {
    /// The version at which the action takes effect.
    pub open spec fn version(self) -> u64 {
        match self {
            ActionModel::AddedIn { version } => version,
            ActionModel::RenamedIn { version, .. } => version,
            ActionModel::DeprecatedIn { version } => version,
        }
    }

    /// The action introduces the item only after `at`.
    pub open spec fn adds_after(self, at: u64) -> bool {
        self matches ActionModel::AddedIn { version } && version > at
    }

    /// The action has retired the item by `at`.
    pub open spec fn retires_by(self, at: u64) -> bool {
        self matches ActionModel::DeprecatedIn { version } && version <= at
    }

    /// The action has renamed the item by `at`.
    pub open spec fn renames_by(self, at: u64) -> bool {
        self matches ActionModel::RenamedIn { version, .. } && version <= at
    }

    /// The name that a rename gives; empty for the other actions.
    pub open spec fn new_name(self) -> Seq<char> {
        match self {
            ActionModel::RenamedIn { name, .. } => name,
            _ => Seq::empty(),
        }
    }
}

impl View for Action {
    type V = ActionModel;

    open spec fn view(&self) -> ActionModel {
        match self {
            Action::AddedIn { version } => ActionModel::AddedIn { version: *version },
            Action::RenamedIn { version, name } => ActionModel::RenamedIn {
                version: *version,
                name: name@,
            },
            Action::DeprecatedIn { version } => ActionModel::DeprecatedIn { version: *version },
        }
    }
}

impl Clone for Action {
    fn clone(&self) -> (copy: Action)
        ensures
            copy@ == self@,
    {
        match self {
            Action::AddedIn { version } => Action::AddedIn { version: *version },
            Action::RenamedIn { version, name } => Action::RenamedIn {
                version: *version,
                name: name.clone(),
            },
            Action::DeprecatedIn { version } => Action::DeprecatedIn { version: *version },
        }
    }
}

impl Action {
    /// The version at which the action takes effect.
    pub fn version(&self) -> (v: u64)
        ensures
            v == self@.version(),
    {
        match self {
            Action::AddedIn { version } => *version,
            Action::RenamedIn { version, .. } => *version,
            Action::DeprecatedIn { version } => *version,
        }
    }
}

/// Whether an item is part of a container at some version.
#[derive(Clone, Copy, Debug, PartialEq, Eq, Structural)]
pub enum Presence {
    /// The item is part of the container.
    Present,
    /// The item is introduced only in a later version.
    NotYetAdded,
    /// The item was deprecated in this or an earlier version.
    Retired,
}

/// What an item is at one version: whether it is there, its name and its
/// type.
///
/// Name and type are recorded for absent items too: a retired item keeps the
/// last name it had, so that the version before can still be mapped from.
#[derive(Debug, PartialEq, Eq)]
pub struct ItemPresence {
    pub state: Presence,
    pub name: String,
    pub ty: String,
}

/// The mathematical value of an [`ItemPresence`].
pub struct ItemPresenceModel {
    pub state: Presence,
    pub name: Seq<char>,
    pub ty: Seq<char>,
}

impl View for ItemPresence {
    type V = ItemPresenceModel;

    open spec fn view(&self) -> ItemPresenceModel {
        ItemPresenceModel { state: self.state, name: self.name@, ty: self.ty@ }
    }
}

impl ItemPresence {
    /// Whether the item is part of the container.
    pub fn is_present(&self) -> (b: bool)
        ensures
            b == (self@.state == Presence::Present),
    {
        match self.state {
            Presence::Present => true,
            _ => false,
        }
    }
}

/// Some action introduces the item only after `at`.
pub open spec fn not_yet_added(actions: Seq<ActionModel>, at: u64) -> bool {
    exists|i: int| 0 <= i < actions.len() && #[trigger] actions[i].adds_after(at)
}

/// Some action has retired the item by `at`.
pub open spec fn retired(actions: Seq<ActionModel>, at: u64) -> bool {
    exists|i: int| 0 <= i < actions.len() && #[trigger] actions[i].retires_by(at)
}

/// `actions[i]` is the rename in effect at `at`: it has happened by `at`, and
/// no rename after it in the timeline has.
pub open spec fn is_last_rename(actions: Seq<ActionModel>, at: u64, i: int) -> bool {
    &&& 0 <= i < actions.len()
    &&& actions[i].renames_by(at)
    &&& forall|j: int| i < j < actions.len() ==> !#[trigger] actions[j].renames_by(at)
}

/// The name at `at` of an item that went by `running` before its timeline
/// began: the name given by the rename in effect, or `running` if none is.
pub open spec fn name_at(actions: Seq<ActionModel>, at: u64, running: Seq<char>) -> Seq<char> {
    if exists|i: int| is_last_rename(actions, at, i) {
        actions[choose|i: int| is_last_rename(actions, at, i)].new_name()
    } else {
        running
    }
}

/// Whether an item with this timeline is part of the container at `at`.
pub open spec fn state_at(actions: Seq<ActionModel>, at: u64) -> Presence {
    if not_yet_added(actions, at) {
        Presence::NotYetAdded
    } else if retired(actions, at) {
        Presence::Retired
    } else {
        Presence::Present
    }
}

/// The timeline is consistent: its actions stand in strictly ascending order
/// of version, only the first may add the item, and only the last may
/// deprecate it.
pub open spec fn lifecycle_valid(actions: Seq<ActionModel>) -> bool {
    &&& forall|i: int, j: int|
        0 <= i < j < actions.len() ==> (#[trigger] actions[i]).version() < (
        #[trigger] actions[j]).version()
    &&& forall|i: int| 0 <= i < actions.len() && #[trigger] actions[i] is AddedIn ==> i == 0
    &&& forall|i: int|
        0 <= i < actions.len() && #[trigger] actions[i] is DeprecatedIn ==> i == actions.len() - 1
}

/// `actions[k]` is the first action that names a version which `versions`
/// does not declare.
pub open spec fn is_first_unknown(actions: Seq<ActionModel>, versions: Seq<Version>, k: int) -> bool {
    &&& 0 <= k < actions.len()
    &&& !declares(versions, actions[k].version())
    &&& forall|j: int| 0 <= j < k ==> declares(versions, (#[trigger] actions[j]).version())
}

/// A field of a record or a variant of a tagged union, with its lifecycle.
#[derive(Debug, PartialEq, Eq)]
pub struct Item {
    /// The canonical name, which stays the same across renames.
    pub identity: String,
    /// The type of a field, or the payload of a variant. It never changes.
    pub ty: String,
    /// What happens to the item, in ascending order of version.
    pub actions: Vec<Action>,
    /// Where a conversion takes the value from when the item is new in the
    /// destination version.
    pub default: Option<String>,
}

/// The mathematical value of an [`Item`].
pub struct ItemModel {
    pub identity: Seq<char>,
    pub ty: Seq<char>,
    pub actions: Seq<ActionModel>,
    pub default: Option<Seq<char>>,
}

impl ItemModel {
    /// What the item is at `at`, having gone by `running` before.
    pub open spec fn resolve(self, at: u64, running: Seq<char>) -> ItemPresenceModel {
        ItemPresenceModel {
            state: state_at(self.actions, at),
            name: name_at(self.actions, at, running),
            ty: self.ty,
        }
    }

    /// The item is part of the container at `at`.
    pub open spec fn present_at(self, at: u64) -> bool {
        state_at(self.actions, at) == Presence::Present
    }

    /// The name under which the item goes at `at`.
    pub open spec fn surface_name(self, at: u64) -> Seq<char> {
        name_at(self.actions, at, self.identity)
    }

    /// The item is part of the container at one of `versions` at least.
    pub open spec fn present_somewhere(self, versions: Seq<Version>) -> bool {
        exists|k: int| 0 <= k < versions.len() && self.present_at(#[trigger] versions[k].id)
    }

    /// What is wrong with the item in a container that declares `versions`,
    /// if anything is.
    ///
    /// An action that names an undeclared version comes first, the earliest
    /// such action in the timeline. After that the lifecycle is at fault if
    /// the timeline is inconsistent, or if it leaves the item out of every
    /// declared version.
    pub open spec fn fault(self, versions: Seq<Version>) -> Option<SchemaErrorModel> {
        if exists|k: int| is_first_unknown(self.actions, versions, k) {
            let k = choose|k: int| is_first_unknown(self.actions, versions, k);
            Some(
                SchemaErrorModel::UnknownVersionReference {
                    item: self.identity,
                    version: self.actions[k].version(),
                },
            )
        } else if !lifecycle_valid(self.actions) || !self.present_somewhere(versions) {
            Some(SchemaErrorModel::InvalidLifecycle { item: self.identity })
        } else {
            None
        }
    }
}

impl View for Item {
    type V = ItemModel;

    open spec fn view(&self) -> ItemModel {
        ItemModel {
            identity: self.identity@,
            ty: self.ty@,
            actions: self.actions@.map_values(|a: Action| a@),
            default: match self.default {
                Some(d) => Some(d@),
                None => None,
            },
        }
    }
}

impl Item {
    /// An item without actions: it is part of every version, under `identity`.
    pub fn new(identity: String, ty: String) -> (item: Item)
        ensures
            item@ == (ItemModel {
                identity: identity@,
                ty: ty@,
                actions: Seq::empty(),
                default: None,
            }),
    {
        let item = Item { identity, ty, actions: Vec::new(), default: None };
        proof {
            assert(item@.actions =~= Seq::empty());
        }
        item
    }

    /// Resolves the item at the version `at`.
    ///
    /// `running_name` is the name that the item had before the first action
    /// of its timeline; a caller that starts afresh passes the identity.
    pub fn resolve(&self, at: Version, running_name: String) -> (p: ItemPresence)
        ensures
            p@ == self@.resolve(at.id, running_name@),
    {
        let ghost acts = self@.actions;
        let ghost running = running_name@;
        let ghost mut last: Option<int> = None;
        let mut pending = false;
        let mut gone = false;
        let mut name = running_name;
        let mut k: usize = 0;
        while k < self.actions.len()
            invariant
                k <= self.actions.len(),
                acts == self@.actions,
                acts.len() == self.actions.len(),
                pending <==> exists|i: int| 0 <= i < k && #[trigger] acts[i].adds_after(at.id),
                gone <==> exists|i: int| 0 <= i < k && #[trigger] acts[i].retires_by(at.id),
                last is None ==> name@ == running && forall|j: int|
                    0 <= j < k ==> !#[trigger] acts[j].renames_by(at.id),
                last matches Some(b) ==> 0 <= b < k && acts[b].renames_by(at.id) && name@
                    == acts[b].new_name() && forall|j: int|
                    b < j < k ==> !#[trigger] acts[j].renames_by(at.id),
            decreases self.actions.len() - k,
        {
            assert(acts[k as int] == self.actions@[k as int]@);
            match &self.actions[k] {
                Action::AddedIn { version } => {
                    if *version > at.id {
                        pending = true;
                        assert(acts[k as int].adds_after(at.id));
                    }
                },
                Action::RenamedIn { version, name: renamed } => {
                    if *version <= at.id {
                        name = renamed.clone();
                        proof {
                            last = Some(k as int);
                        }
                    }
                },
                Action::DeprecatedIn { version } => {
                    if *version <= at.id {
                        gone = true;
                        assert(acts[k as int].retires_by(at.id));
                    }
                },
            }
            k += 1;
        }
        proof {
            match last {
                Some(b) => {
                    assert(is_last_rename(acts, at.id, b));
                    let c = choose|i: int| is_last_rename(acts, at.id, i);
                    assert(c == b) by {
                        if c < b {
                        } else if b < c {
                        }
                    }
                },
                None => {
                    assert(!exists|i: int| is_last_rename(acts, at.id, i));
                },
            }
        }
        let state = if pending {
            Presence::NotYetAdded
        } else if gone {
            Presence::Retired
        } else {
            Presence::Present
        };
        ItemPresence { state, name, ty: self.ty.clone() }
    }

    /// Whether the item is part of the container at the version `at`.
    pub fn is_present_at(&self, at: u64) -> (b: bool)
        ensures
            b == self@.present_at(at),
    {
        let ghost acts = self@.actions;
        let mut k: usize = 0;
        while k < self.actions.len()
            invariant
                k <= self.actions.len(),
                acts == self@.actions,
                acts.len() == self.actions.len(),
                forall|i: int| 0 <= i < k ==> !#[trigger] acts[i].adds_after(at),
                forall|i: int| 0 <= i < k ==> !#[trigger] acts[i].retires_by(at),
            decreases self.actions.len() - k,
        {
            assert(acts[k as int] == self.actions@[k as int]@);
            match &self.actions[k] {
                Action::AddedIn { version } => {
                    if *version > at {
                        assert(acts[k as int].adds_after(at));
                        return false;
                    }
                },
                Action::RenamedIn { .. } => {},
                Action::DeprecatedIn { version } => {
                    if *version <= at {
                        assert(acts[k as int].retires_by(at));
                        return false;
                    }
                },
            }
            k += 1;
        }
        true
    }

    /// Checks the item against the versions that its container declares.
    pub fn validate(&self, versions: &OrderedVersions) -> (r: Result<(), SchemaError>)
        ensures
            match self@.fault(versions@) {
                Some(fault) => r matches Err(e) && e@ == fault,
                None => r is Ok,
            },
    {
        let ghost acts = self@.actions;
        let mut k: usize = 0;
        while k < self.actions.len()
            invariant
                k <= self.actions.len(),
                acts == self@.actions,
                acts.len() == self.actions.len(),
                forall|j: int| 0 <= j < k ==> declares(versions@, (#[trigger] acts[j]).version()),
            decreases self.actions.len() - k,
        {
            assert(acts[k as int] == self.actions@[k as int]@);
            let version: u64 = self.actions[k].version();
            if !versions.contains(version) {
                proof {
                    assert(is_first_unknown(acts, versions@, k as int));
                    let c = choose|c: int| is_first_unknown(acts, versions@, c);
                    assert(c == k) by {
                        if c < k {
                        } else if k < c {
                        }
                    }
                }
                return Err(
                    SchemaError::UnknownVersionReference { item: self.identity.clone(), version },
                );
            }
            k += 1;
        }
        assert(!exists|c: int| is_first_unknown(acts, versions@, c));
        if !self.has_valid_lifecycle() {
            return Err(SchemaError::InvalidLifecycle { item: self.identity.clone() });
        }
        let declared = versions.as_vec();
        let mut v: usize = 0;
        while v < declared.len()
            invariant
                v <= declared.len(),
                declared@ == versions@,
                !exists|c: int| is_first_unknown(self@.actions, versions@, c),
                lifecycle_valid(self@.actions),
                forall|i: int| 0 <= i < v ==> !self@.present_at(#[trigger] declared@[i].id),
            decreases declared.len() - v,
        {
            if self.is_present_at(declared[v].id) {
                assert(self@.present_at(versions@[v as int].id));
                return Ok(());
            }
            v += 1;
        }
        Err(SchemaError::InvalidLifecycle { item: self.identity.clone() })
    }

    /// Whether the timeline of the item is consistent.
    pub fn has_valid_lifecycle(&self) -> (ok: bool)
        ensures
            ok == lifecycle_valid(self@.actions),
    {
        let ghost acts = self@.actions;
        let n: usize = self.actions.len();
        let mut k: usize = 0;
        while k < n
            invariant
                k <= n,
                n == self.actions.len(),
                acts == self@.actions,
                acts.len() == n,
                forall|i: int, j: int|
                    0 <= i < j < k ==> (#[trigger] acts[i]).version() < (
                    #[trigger] acts[j]).version(),
                forall|i: int| 0 <= i < k && #[trigger] acts[i] is AddedIn ==> i == 0,
                forall|i: int| 0 <= i < k && #[trigger] acts[i] is DeprecatedIn ==> i == n - 1,
            decreases n - k,
        {
            assert(acts[k as int] == self.actions@[k as int]@);
            if k > 0 {
                assert(acts[k - 1] == self.actions@[k - 1]@);
                if self.actions[k - 1].version() >= self.actions[k].version() {
                    assert(!(acts[k - 1].version() < acts[k as int].version()));
                    return false;
                }
            }
            match &self.actions[k] {
                Action::AddedIn { .. } => {
                    if k != 0 {
                        assert(acts[k as int] is AddedIn);
                        return false;
                    }
                },
                Action::RenamedIn { .. } => {},
                Action::DeprecatedIn { .. } => {
                    if k != n - 1 {
                        assert(acts[k as int] is DeprecatedIn);
                        return false;
                    }
                },
            }
            k += 1;
        }
        true
    }
}

} // verus!
