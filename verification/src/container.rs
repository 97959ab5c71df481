//! The container: its declaration, its items, and one view per version.

use crate::error::SchemaError;
use crate::error::SchemaErrorModel;
use crate::item::is_first_unknown;
use crate::item::Item;
use crate::item::ItemModel;
use crate::version::declares;
use crate::version::has_duplicate;
use crate::version::is_ordering_of;
use crate::version::OrderedVersions;
use crate::version::register;
use crate::version::registered;
use crate::version::strictly_ascending;
use crate::version::Version;
use vstd::prelude::*;
use vstd::seq_lib::to_multiset_contains;

verus! {

/// Who may see a generated definition.
#[derive(Debug, PartialEq, Eq)]
pub enum Visibility {
    /// Visible everywhere.
    Public,
    /// Visible within the given path.
    Restricted(String),
    /// No visibility is written out.
    Inherited,
}

/// The mathematical value of a [`Visibility`].
pub enum VisibilityModel {
    Public,
    Restricted(Seq<char>),
    Inherited,
}

impl View for Visibility {
    type V = VisibilityModel;

    open spec fn view(&self) -> VisibilityModel {
        match self {
            Visibility::Public => VisibilityModel::Public,
            Visibility::Restricted(path) => VisibilityModel::Restricted(path@),
            Visibility::Inherited => VisibilityModel::Inherited,
        }
    }
}

impl Clone for Visibility {
    fn clone(&self) -> (copy: Visibility)
        ensures
            copy@ == self@,
    {
        match self {
            Visibility::Public => Visibility::Public,
            Visibility::Restricted(path) => Visibility::Restricted(path.clone()),
            Visibility::Inherited => Visibility::Inherited,
        }
    }
}

/// What a container is called, who may see it, and the attributes that were
/// written on it. None of this bears on how versions are worked out; it is
/// handed on to every view and every conversion as it stands.
#[derive(Debug, PartialEq, Eq)]
pub struct ContainerInput {
    pub original_attributes: Vec<String>,
    pub visibility: Visibility,
    pub ident: String,
}

/// The mathematical value of a [`ContainerInput`].
pub struct ContainerInputModel {
    pub original_attributes: Seq<Seq<char>>,
    pub visibility: VisibilityModel,
    pub ident: Seq<char>,
}

impl View for ContainerInput {
    type V = ContainerInputModel;

    open spec fn view(&self) -> ContainerInputModel {
        ContainerInputModel {
            original_attributes: texts(self.original_attributes@),
            visibility: self.visibility@,
            ident: self.ident@,
        }
    }
}

impl Clone for ContainerInput {
    fn clone(&self) -> (copy: ContainerInput)
        ensures
            copy@ == self@,
    {
        ContainerInput {
            original_attributes: clone_texts(&self.original_attributes),
            visibility: self.visibility.clone(),
            ident: self.ident.clone(),
        }
    }
}

/// What the declaration of a container says about versioning.
#[derive(Debug, PartialEq, Eq)]
pub struct ContainerAttributes {
    /// The declared versions, in any order.
    pub versions: Vec<Version>,
    /// Whether no conversion at all is generated for the container.
    pub skip_from: bool,
}

/// An item as it stands in one version.
#[derive(Debug, PartialEq, Eq)]
pub struct ResolvedItem {
    /// The canonical name of the item.
    pub identity: String,
    /// The name of the item in this version.
    pub name: String,
    /// The type of the item.
    pub ty: String,
}

/// The mathematical value of a [`ResolvedItem`].
pub struct ResolvedItemModel {
    pub identity: Seq<char>,
    pub name: Seq<char>,
    pub ty: Seq<char>,
}

impl View for ResolvedItem {
    type V = ResolvedItemModel;

    open spec fn view(&self) -> ResolvedItemModel {
        ResolvedItemModel { identity: self.identity@, name: self.name@, ty: self.ty@ }
    }
}

/// A container as it stands at one version.
#[derive(Debug, PartialEq, Eq)]
pub struct VersionedView {
    /// The version.
    pub version: Version,
    /// What the container is called, who may see it, and its attributes.
    pub container: ContainerInput,
    /// The items that are part of the container at the version, in the order
    /// in which the container declares them.
    pub items: Vec<ResolvedItem>,
}

/// The mathematical value of a [`VersionedView`].
pub struct VersionedViewModel {
    pub version: Version,
    pub container: ContainerInputModel,
    pub items: Seq<ResolvedItemModel>,
}

impl View for VersionedView {
    type V = VersionedViewModel;

    open spec fn view(&self) -> VersionedViewModel {
        VersionedViewModel {
            version: self.version,
            container: self.container@,
            items: self.items@.map_values(|r: ResolvedItem| r@),
        }
    }
}

/// The mathematical values of a list of items.
pub open spec fn item_models(items: Seq<Item>) -> Seq<ItemModel> {
    items.map_values(|i: Item| i@)
}

/// The mathematical values of a list of texts.
pub open spec fn texts(lines: Seq<String>) -> Seq<Seq<char>> {
    lines.map_values(|s: String| s@)
}

/// The test that an item is part of the container at `at`.
pub open spec fn part_of(at: u64) -> spec_fn(ItemModel) -> bool {
    |item: ItemModel| item.present_at(at)
}

/// An item as it stands at `at`.
pub open spec fn resolved(item: ItemModel, at: u64) -> ResolvedItemModel {
    ResolvedItemModel { identity: item.identity, name: item.surface_name(at), ty: item.ty }
}

/// The map from an item to what it is at `at`.
pub open spec fn resolved_at(at: u64) -> spec_fn(ItemModel) -> ResolvedItemModel {
    |item: ItemModel| resolved(item, at)
}

/// The items that are part of the container at `at`, in declaration order.
pub open spec fn active_items(items: Seq<ItemModel>, at: u64) -> Seq<ResolvedItemModel> {
    items.filter(part_of(at)).map_values(resolved_at(at))
}

/// The view at `version` of the container `container` with the items
/// `items`.
pub open spec fn view_of(
    container: ContainerInputModel,
    items: Seq<ItemModel>,
    version: Version,
) -> VersionedViewModel {
    VersionedViewModel { version, container, items: active_items(items, version.id) }
}

/// One view of the container for each of `versions`, in the same order.
pub open spec fn views_of(
    container: ContainerInputModel,
    items: Seq<ItemModel>,
    versions: Seq<Version>,
) -> Seq<VersionedViewModel> {
    Seq::new(versions.len(), |k: int| view_of(container, items, versions[k]))
}

/// `items[i]` is the first item with a fault.
pub open spec fn is_first_faulty(items: Seq<ItemModel>, versions: Seq<Version>, i: int) -> bool {
    &&& 0 <= i < items.len()
    &&& items[i].fault(versions) is Some
    &&& forall|j: int| 0 <= j < i ==> (#[trigger] items[j]).fault(versions) is None
}

/// A declaration with these versions and items can be assembled.
pub open spec fn declaration_valid(versions: Seq<Version>, items: Seq<ItemModel>) -> bool {
    &&& !has_duplicate(versions)
    &&& forall|i: int| 0 <= i < items.len() ==> (#[trigger] items[i]).fault(versions) is None
}

/// The index of the first item with a fault.
pub open spec fn first_faulty(items: Seq<ItemModel>, versions: Seq<Version>) -> int {
    choose|i: int| is_first_faulty(items, versions, i)
}

/// A container with all its versions worked out.
#[derive(Debug, PartialEq, Eq)]
pub struct VersionedContainer {
    /// The declared versions, oldest first.
    pub versions: OrderedVersions,
    /// The items, in the order of declaration.
    pub items: Vec<Item>,
    /// The name of the container.
    pub ident: String,
    /// Who may see the generated definitions.
    pub visibility: Visibility,
    /// The attributes that were written on the container.
    pub original_attributes: Vec<String>,
    /// The name of the container as the generated conversions use it.
    pub from_ident: String,
    /// Whether no conversion at all is generated for the container.
    pub skip_from: bool,
    /// One view per version, oldest first.
    pub views: Vec<VersionedView>,
}

/// The mathematical value of a [`VersionedContainer`].
pub struct VersionedContainerModel {
    pub versions: Seq<Version>,
    pub items: Seq<ItemModel>,
    pub ident: Seq<char>,
    pub visibility: VisibilityModel,
    pub original_attributes: Seq<Seq<char>>,
    pub from_ident: Seq<char>,
    pub skip_from: bool,
    pub views: Seq<VersionedViewModel>,
}

impl View for VersionedContainer {
    type V = VersionedContainerModel;

    open spec fn view(&self) -> VersionedContainerModel {
        VersionedContainerModel {
            versions: self.versions@,
            items: item_models(self.items@),
            ident: self.ident@,
            visibility: self.visibility@,
            original_attributes: texts(self.original_attributes@),
            from_ident: self.from_ident@,
            skip_from: self.skip_from,
            views: self.views@.map_values(|v: VersionedView| v@),
        }
    }
}

impl VersionedContainerModel {
    /// What the container is called, who may see it, and its attributes.
    pub open spec fn input(self) -> ContainerInputModel {
        ContainerInputModel {
            original_attributes: self.original_attributes,
            visibility: self.visibility,
            ident: self.ident,
        }
    }

    /// The container is what [`assemble`] makes of a valid declaration: the
    /// versions ascend, no item has a fault, and the views are those of the
    /// items at the versions.
    pub open spec fn wf(self) -> bool {
        &&& strictly_ascending(self.versions)
        &&& forall|i: int|
            0 <= i < self.items.len() ==> (#[trigger] self.items[i]).fault(self.versions) is None
        &&& self.views == views_of(self.input(), self.items, self.versions)
        &&& self.from_ident == self.ident
    }
}

impl VersionedContainer {
    /// What the container is called, who may see it, and its attributes.
    pub fn input(&self) -> (input: ContainerInput)
        ensures
            input@ == self@.input(),
    {
        ContainerInput {
            original_attributes: clone_texts(&self.original_attributes),
            visibility: self.visibility.clone(),
            ident: self.ident.clone(),
        }
    }
}

/// What assembling a declaration comes to.
///
/// A declaration in which two versions share an identifier is refused as
/// registering the versions refuses it. A declaration in which some item has
/// a fault is refused with the fault of the first such item. Any other
/// declaration gives a container that holds the declared versions in
/// ascending order, the items and the rest of the declaration as they were
/// given, the name of the container as the name that conversions use, and one
/// view per version.
pub open spec fn assembled(
    input: ContainerInputModel,
    items: Seq<ItemModel>,
    skip_from: bool,
    declared: Seq<Version>,
) -> Result<VersionedContainerModel, SchemaErrorModel> {
    match registered(declared) {
        Err(e) => Err(e),
        Ok(versions) => if declaration_valid(declared, items) {
            Ok(
                VersionedContainerModel {
                    versions,
                    items,
                    ident: input.ident,
                    visibility: input.visibility,
                    original_attributes: input.original_attributes,
                    from_ident: input.ident,
                    skip_from,
                    views: views_of(input, items, versions),
                },
            )
        } else {
            Err(items[first_faulty(items, declared)].fault(declared)->0)
        },
    }
}

/// Copies a list of texts.
fn clone_texts(lines: &Vec<String>) -> (copy: Vec<String>)
    ensures
        texts(copy@) == texts(lines@),
{
    let mut copy: Vec<String> = Vec::new();
    let mut k: usize = 0;
    while k < lines.len()
        invariant
            k <= lines.len(),
            copy.len() == k,
            forall|i: int| 0 <= i < k ==> (#[trigger] copy@[i])@ == lines@[i]@,
        decreases lines.len() - k,
    {
        copy.push(lines[k].clone());
        k += 1;
    }
    proof {
        assert(texts(copy@) =~= texts(lines@));
    }
    copy
}

/// Putting the declared versions in another order changes no fault.
pub proof fn lemma_fault_ignores_order(item: ItemModel, a: Seq<Version>, b: Seq<Version>)
    requires
        a.to_multiset() == b.to_multiset(),
    ensures
        item.fault(a) == item.fault(b),
{
    assert forall|id: u64| declares(a, id) == declares(b, id) by {
        lemma_declares_ignores_order(a, b, id);
        lemma_declares_ignores_order(b, a, id);
    }
    assert forall|k: int|
        is_first_unknown(item.actions, a, k) == is_first_unknown(item.actions, b, k) by {}
    if exists|k: int| is_first_unknown(item.actions, a, k) {
        let ka = choose|k: int| is_first_unknown(item.actions, a, k);
        assert(is_first_unknown(item.actions, b, ka));
        let kb = choose|k: int| is_first_unknown(item.actions, b, k);
        assert(is_first_unknown(item.actions, a, kb));
        if ka < kb {
        } else if kb < ka {
        }
        assert(ka == kb);
    } else {
        assert forall|k: int| !is_first_unknown(item.actions, b, k) by {
            assert(!is_first_unknown(item.actions, a, k));
        }
    }
    if item.present_somewhere(a) {
        let k = choose|k: int| 0 <= k < a.len() && item.present_at(#[trigger] a[k].id);
        lemma_declares_ignores_order(a, b, a[k].id);
        let p = choose|p: int| 0 <= p < b.len() && #[trigger] b[p].id == a[k].id;
        assert(item.present_at(b[p].id));
    }
    if item.present_somewhere(b) {
        let k = choose|k: int| 0 <= k < b.len() && item.present_at(#[trigger] b[k].id);
        lemma_declares_ignores_order(b, a, b[k].id);
        let p = choose|p: int| 0 <= p < a.len() && #[trigger] a[p].id == b[k].id;
        assert(item.present_at(a[p].id));
    }
}

/// A version that is declared stays declared in any other order.
proof fn lemma_declares_ignores_order(a: Seq<Version>, b: Seq<Version>, id: u64)
    requires
        a.to_multiset() == b.to_multiset(),
    ensures
        declares(a, id) ==> declares(b, id),
{
    if declares(a, id) {
        let i = choose|i: int| 0 <= i < a.len() && #[trigger] a[i].id == id;
        assert(a.contains(a[i]));
        to_multiset_contains(a, a[i]);
        to_multiset_contains(b, a[i]);
        let p = choose|p: int| 0 <= p < b.len() && b[p] == a[i];
        assert(b[p].id == id);
    }
}

/// Adding an item to a list adds it to a view if it is present there, and
/// leaves the view as it is if not.
pub proof fn lemma_active_items_push(items: Seq<ItemModel>, item: ItemModel, at: u64)
    ensures
        active_items(items.push(item), at) == if item.present_at(at) {
            active_items(items, at).push(resolved(item, at))
        } else {
            active_items(items, at)
        },
{
    items.lemma_filter_push(item, part_of(at));
    items.filter(part_of(at)).lemma_push_map_commute(resolved_at(at), item);
}

/// Works out the view at `version` of the container `container` with the
/// items `items`.
pub fn view_at(container: &ContainerInput, items: &Vec<Item>, version: Version) -> (view:
    VersionedView)
    ensures
        view@ == view_of(container@, item_models(items@), version),
{
    let ghost models = item_models(items@);
    let mut active: Vec<ResolvedItem> = Vec::new();
    let mut k: usize = 0;
    proof {
        assert(models.take(0) =~= Seq::empty());
        reveal(Seq::filter);
        assert(active@.map_values(|r: ResolvedItem| r@) =~= active_items(models.take(0), version.id));
    }
    while k < items.len()
        invariant
            k <= items.len(),
            models == item_models(items@),
            active@.map_values(|r: ResolvedItem| r@) == active_items(
                models.take(k as int),
                version.id,
            ),
        decreases items.len() - k,
    {
        let item = &items[k];
        proof {
            assert(models[k as int] == item@);
            models.lemma_take_succ_push(k as int);
            lemma_active_items_push(models.take(k as int), item@, version.id);
        }
        let presence = item.resolve(version, item.identity.clone());
        if presence.is_present() {
            let resolved = ResolvedItem {
                identity: item.identity.clone(),
                name: presence.name,
                ty: presence.ty,
            };
            proof {
                active@.lemma_push_map_commute(|r: ResolvedItem| r@, resolved);
            }
            active.push(resolved);
        }
        k += 1;
    }
    proof {
        assert(models.take(k as int) == models);
    }
    VersionedView { version, container: container.clone(), items: active }
}

/// Assembles a container from its declaration.
///
/// The declaration is refused if two versions share an identifier, or if
/// some item has a fault (see [`ItemModel::fault`]). Otherwise the container
/// holds the versions in ascending order, the items and the rest of the
/// declaration as they were given, and one view per version.
pub fn assemble(input: ContainerInput, items: Vec<Item>, attributes: ContainerAttributes) -> (r:
    Result<VersionedContainer, SchemaError>)
    ensures
        match r {
            Ok(c) => assembled(
                input@,
                item_models(items@),
                attributes.skip_from,
                attributes.versions@,
            ) == Ok::<VersionedContainerModel, SchemaErrorModel>(c@),
            Err(e) => assembled(
                input@,
                item_models(items@),
                attributes.skip_from,
                attributes.versions@,
            ) == Err::<VersionedContainerModel, SchemaErrorModel>(e@),
        },
        r is Ok <==> declaration_valid(attributes.versions@, item_models(items@)),
        r matches Ok(c) ==> c@.wf() && is_ordering_of(c@.versions, attributes.versions@),
{
    let ghost declared = attributes.versions@;
    let ghost models = item_models(items@);
    let ghost given = input@;
    let skip_from = attributes.skip_from;
    let versions = match register(attributes.versions) {
        Ok(ordered) => ordered,
        Err(e) => {
            return Err(e);
        },
    };
    let mut k: usize = 0;
    while k < items.len()
        invariant
            k <= items.len(),
            models == item_models(items@),
            declared == attributes.versions@,
            given == input@,
            is_ordering_of(versions@, declared),
            registered(declared) == Ok::<Seq<Version>, SchemaErrorModel>(versions@),
            !has_duplicate(declared),
            forall|j: int| 0 <= j < k ==> (#[trigger] models[j]).fault(declared) is None,
        decreases items.len() - k,
    {
        proof {
            assert(models[k as int] == items@[k as int]@);
            lemma_fault_ignores_order(models[k as int], versions@, declared);
        }
        match items[k].validate(&versions) {
            Ok(()) => {},
            Err(e) => {
                proof {
                    assert(is_first_faulty(models, declared, k as int));
                    let first = first_faulty(models, declared);
                    assert(first == k) by {
                        if first < k {
                        } else if k < first {
                        }
                    }
                }
                return Err(e);
            },
        }
        k += 1;
    }
    let ordered = versions.as_vec();
    let mut views: Vec<VersionedView> = Vec::new();
    let mut v: usize = 0;
    while v < ordered.len()
        invariant
            v <= ordered.len(),
            ordered@ == versions@,
            models == item_models(items@),
            views.len() == v,
            given == input@,
            forall|i: int|
                0 <= i < v ==> (#[trigger] views@[i])@ == view_of(given, models, ordered@[i]),
        decreases ordered.len() - v,
    {
        let view = view_at(&input, &items, ordered[v]);
        views.push(view);
        v += 1;
    }
    let from_ident = input.ident.clone();
    let container = VersionedContainer {
        versions,
        items,
        ident: input.ident,
        visibility: input.visibility,
        original_attributes: input.original_attributes,
        from_ident,
        skip_from,
        views,
    };
    proof {
        assert(container@.input() == given);
        assert(container@.views =~= views_of(given, models, container@.versions));
        assert forall|i: int| 0 <= i < models.len() implies (#[trigger] models[i]).fault(
            container@.versions,
        ) is None by {
            lemma_fault_ignores_order(models[i], container@.versions, declared);
        }
    }
    Ok(container)
}

} // verus!
