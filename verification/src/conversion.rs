//! Conversions from each version of a container to the next.

use crate::container::ContainerInput;
use crate::container::ContainerInputModel;
use crate::container::item_models;
use crate::container::part_of;
use crate::container::resolved;
use crate::container::resolved_at;
use crate::container::ResolvedItem;
use crate::container::ResolvedItemModel;
use crate::container::VersionedContainer;
use crate::container::VersionedContainerModel;
use crate::error::SchemaError;
use crate::error::SchemaErrorModel;
use crate::item::ItemModel;
use crate::version::Version;
use vstd::prelude::*;

verus! {

/// Where one item of the destination version takes its value from.
#[derive(Debug, PartialEq, Eq)]
pub enum ItemMapping {
    /// The item is part of both versions: its value, of the type `ty`, is
    /// taken over as it is, from the name `from` in the source to the name
    /// `to` in the destination.
    Carry { identity: String, from: String, to: String, ty: String },
    /// The item is new in the destination, where it goes by `name`: its
    /// value, of the type `ty`, comes from `provider`, the default that the
    /// item declares.
    Fill { identity: String, name: String, ty: String, provider: String },
}

/// The mathematical value of an [`ItemMapping`].
pub enum ItemMappingModel {
    Carry { identity: Seq<char>, from: Seq<char>, to: Seq<char>, ty: Seq<char> },
    Fill { identity: Seq<char>, name: Seq<char>, ty: Seq<char>, provider: Seq<char> },
}

impl ItemMappingModel {
    /// The canonical name of the item that is mapped.
    pub open spec fn identity(self) -> Seq<char> {
        match self {
            ItemMappingModel::Carry { identity, .. } => identity,
            ItemMappingModel::Fill { identity, .. } => identity,
        }
    }

    /// The name of the item in the destination version.
    pub open spec fn target(self) -> Seq<char> {
        match self {
            ItemMappingModel::Carry { to, .. } => to,
            ItemMappingModel::Fill { name, .. } => name,
        }
    }
}

impl View for ItemMapping {
    type V = ItemMappingModel;

    open spec fn view(&self) -> ItemMappingModel {
        match self {
            ItemMapping::Carry { identity, from, to, ty } => ItemMappingModel::Carry {
                identity: identity@,
                from: from@,
                to: to@,
                ty: ty@,
            },
            ItemMapping::Fill { identity, name, ty, provider } => ItemMappingModel::Fill {
                identity: identity@,
                name: name@,
                ty: ty@,
                provider: provider@,
            },
        }
    }
}

/// How a value of one version becomes a value of the next: one mapping for
/// each item of the destination, in the order of the destination, and the
/// items of the source whose values are dropped.
#[derive(Debug, PartialEq, Eq)]
pub struct ConversionSpec {
    /// What the container is called, who may see it, and its attributes.
    pub container: ContainerInput,
    /// The name of the container as the conversion uses it.
    pub from_ident: String,
    /// The version that is converted from.
    pub from: Version,
    /// The version that is converted to.
    pub to: Version,
    /// The mappings, one for each item of the destination version.
    pub mappings: Vec<ItemMapping>,
    /// The items that are part of the source version only, as they stand
    /// there.
    pub dropped: Vec<ResolvedItem>,
}

/// The mathematical value of a [`ConversionSpec`].
pub struct ConversionSpecModel {
    pub container: ContainerInputModel,
    pub from_ident: Seq<char>,
    pub from: Version,
    pub to: Version,
    pub mappings: Seq<ItemMappingModel>,
    pub dropped: Seq<ResolvedItemModel>,
}

impl View for ConversionSpec {
    type V = ConversionSpecModel;

    open spec fn view(&self) -> ConversionSpecModel {
        ConversionSpecModel {
            container: self.container@,
            from_ident: self.from_ident@,
            from: self.from,
            to: self.to,
            mappings: self.mappings@.map_values(|m: ItemMapping| m@),
            dropped: self.dropped@.map_values(|d: ResolvedItem| d@),
        }
    }
}

/// The mathematical values of a list of conversions.
pub open spec fn conversion_models(list: Seq<ConversionSpec>) -> Seq<ConversionSpecModel> {
    list.map_values(|c: ConversionSpec| c@)
}

/// The item is new at `to` and declares no default to take its value from.
pub open spec fn lacks_default(item: ItemModel, from: u64, to: u64) -> bool {
    item.present_at(to) && !item.present_at(from) && item.default is None
}

/// `items[i]` is the first item that is new at `to` without a default.
pub open spec fn is_first_lacking(items: Seq<ItemModel>, from: u64, to: u64, i: int) -> bool {
    &&& 0 <= i < items.len()
    &&& lacks_default(items[i], from, to)
    &&& forall|j: int| 0 <= j < i ==> !lacks_default(#[trigger] items[j], from, to)
}

/// The index of the first item that is new at `to` without a default.
pub open spec fn first_lacking(items: Seq<ItemModel>, from: u64, to: u64) -> int {
    choose|i: int| is_first_lacking(items, from, to, i)
}

/// Every item that is new at `to` declares a default.
pub open spec fn defaults_suffice(items: Seq<ItemModel>, from: u64, to: u64) -> bool {
    forall|i: int| 0 <= i < items.len() ==> !lacks_default(#[trigger] items[i], from, to)
}

/// Where an item that is part of the version `to` takes its value from when
/// a value of the version `from` is converted.
pub open spec fn mapping(item: ItemModel, from: u64, to: u64) -> ItemMappingModel {
    if item.present_at(from) {
        ItemMappingModel::Carry {
            identity: item.identity,
            from: item.surface_name(from),
            to: item.surface_name(to),
            ty: item.ty,
        }
    } else {
        ItemMappingModel::Fill {
            identity: item.identity,
            name: item.surface_name(to),
            ty: item.ty,
            provider: match item.default {
                Some(provider) => provider,
                None => Seq::empty(),
            },
        }
    }
}

/// The map from an item to its mapping between `from` and `to`.
pub open spec fn mapping_between(from: u64, to: u64) -> spec_fn(ItemModel) -> ItemMappingModel {
    |item: ItemModel| mapping(item, from, to)
}

/// The mappings of a conversion from `from` to `to`: one for each item that
/// is part of `to`, in declaration order. Items that are part of `from` only
/// have none: their values are dropped.
pub open spec fn mappings_of(items: Seq<ItemModel>, from: u64, to: u64) -> Seq<ItemMappingModel> {
    items.filter(part_of(to)).map_values(mapping_between(from, to))
}

/// The test that an item is part of `from` and not of `to`.
pub open spec fn dropped_between(from: u64, to: u64) -> spec_fn(ItemModel) -> bool {
    |item: ItemModel| item.present_at(from) && !item.present_at(to)
}

/// The items whose values a conversion from `from` to `to` drops: those that
/// are part of `from` and not of `to`, in declaration order, as they stand at
/// `from`.
pub open spec fn dropped_of(items: Seq<ItemModel>, from: u64, to: u64) -> Seq<ResolvedItemModel> {
    items.filter(dropped_between(from, to)).map_values(resolved_at(from))
}

impl VersionedContainerModel {
    /// The conversion of the container from `from` to `to`, as it is where
    /// every item that is new at `to` declares a default.
    pub open spec fn conversion_spec(self, from: Version, to: Version) -> ConversionSpecModel {
        ConversionSpecModel {
            container: self.input(),
            from_ident: self.from_ident,
            from,
            to,
            mappings: mappings_of(self.items, from.id, to.id),
            dropped: dropped_of(self.items, from.id, to.id),
        }
    }

    /// The error of a conversion from `from` to `to` in which some item is
    /// new at `to` without a default: it names the first such item, and `to`.
    pub open spec fn conversion_error(self, from: Version, to: Version) -> SchemaErrorModel {
        SchemaErrorModel::NoDefaultForAddedItem {
            item: self.items[first_lacking(self.items, from.id, to.id)].identity,
            version: to.id,
        }
    }

    /// What working out the conversion from `from` to `to` comes to.
    pub open spec fn conversion(self, from: Version, to: Version) -> Result<
        ConversionSpecModel,
        SchemaErrorModel,
    > {
        if defaults_suffice(self.items, from.id, to.id) {
            Ok(self.conversion_spec(from, to))
        } else {
            Err(self.conversion_error(from, to))
        }
    }
}

/// Each version but the newest, paired with the version that follows it.
pub open spec fn adjacent_pairs(versions: Seq<Version>) -> Seq<(Version, Version)> {
    Seq::new(
        if versions.len() == 0 {
            0
        } else {
            (versions.len() - 1) as nat
        },
        |k: int| (versions[k], versions[k + 1]),
    )
}

/// The test that a conversion is generated for a pair of versions.
pub open spec fn wanted() -> spec_fn((Version, Version)) -> bool {
    |pair: (Version, Version)| !pair.0.skip_from
}

/// The map from a pair of versions to the conversion of `container` between
/// them.
pub open spec fn conversion_for(container: VersionedContainerModel) -> spec_fn(
    (Version, Version),
) -> ConversionSpecModel {
    |pair: (Version, Version)| container.conversion_spec(pair.0, pair.1)
}

/// A conversion is to be generated for the pair, and some item is new in
/// its destination without a default.
pub open spec fn pair_fails(items: Seq<ItemModel>, pair: (Version, Version)) -> bool {
    !pair.0.skip_from && !defaults_suffice(items, pair.0.id, pair.1.id)
}

/// `pairs[k]` is the first pair for which no conversion can be generated.
pub open spec fn is_first_failing(
    items: Seq<ItemModel>,
    pairs: Seq<(Version, Version)>,
    k: int,
) -> bool {
    &&& 0 <= k < pairs.len()
    &&& pair_fails(items, pairs[k])
    &&& forall|j: int| 0 <= j < k ==> !pair_fails(items, #[trigger] pairs[j])
}

impl VersionedContainerModel {
    /// Every conversion that the container asks for can be generated.
    pub open spec fn convertible(self) -> bool {
        self.skip_from || forall|k: int|
            0 <= k < adjacent_pairs(self.versions).len() ==> !pair_fails(
                self.items,
                #[trigger] adjacent_pairs(self.versions)[k],
            )
    }

    /// The index of the first pair of adjacent versions for which no
    /// conversion can be generated.
    pub open spec fn first_failing(self) -> int {
        choose|k: int| is_first_failing(self.items, adjacent_pairs(self.versions), k)
    }

    /// What working out the conversions of the container comes to.
    ///
    /// A container that skips conversions has none. Otherwise there is one
    /// for each pair of adjacent versions whose source version does not skip
    /// it, oldest first. If one of these cannot be generated, none is: the
    /// error is that of the first pair that fails.
    pub open spec fn conversions(self) -> Result<Seq<ConversionSpecModel>, SchemaErrorModel> {
        if self.skip_from {
            Ok(Seq::empty())
        } else if self.convertible() {
            Ok(adjacent_pairs(self.versions).filter(wanted()).map_values(conversion_for(self)))
        } else {
            let pair = adjacent_pairs(self.versions)[self.first_failing()];
            Err(self.conversion_error(pair.0, pair.1))
        }
    }
}

/// Adding an item to a list adds its mapping to a conversion if the item is
/// part of the destination, and leaves the conversion as it is if not.
pub proof fn lemma_mappings_push(items: Seq<ItemModel>, item: ItemModel, from: u64, to: u64)
    ensures
        mappings_of(items.push(item), from, to) == if item.present_at(to) {
            mappings_of(items, from, to).push(mapping(item, from, to))
        } else {
            mappings_of(items, from, to)
        },
{
    items.lemma_filter_push(item, part_of(to));
    items.filter(part_of(to)).lemma_push_map_commute(mapping_between(from, to), item);
}

/// Adding an item to a list adds it to what a conversion drops if the item
/// is part of the source only, and leaves that as it is if not.
pub proof fn lemma_dropped_push(items: Seq<ItemModel>, item: ItemModel, from: u64, to: u64)
    ensures
        dropped_of(items.push(item), from, to) == if item.present_at(from) && !item.present_at(to) {
            dropped_of(items, from, to).push(resolved(item, from))
        } else {
            dropped_of(items, from, to)
        },
{
    items.lemma_filter_push(item, dropped_between(from, to));
    items.filter(dropped_between(from, to)).lemma_push_map_commute(resolved_at(from), item);
}

/// Works out the conversion of `container` from the version `from` to the
/// version `to`.
///
/// Fails exactly when some item is part of `to`, not part of `from`, and
/// declares no default; the error names the first such item, and `to`.
pub fn convert(container: &VersionedContainer, from: Version, to: Version) -> (r: Result<
    ConversionSpec,
    SchemaError,
>)
    ensures
        match r {
            Ok(spec) => container@.conversion(from, to) == Ok::<
                ConversionSpecModel,
                SchemaErrorModel,
            >(spec@),
            Err(e) => container@.conversion(from, to) == Err::<
                ConversionSpecModel,
                SchemaErrorModel,
            >(e@),
        },
        r is Ok <==> defaults_suffice(container@.items, from.id, to.id),
{
    let items = &container.items;
    let ghost models = item_models(items@);
    let mut mappings: Vec<ItemMapping> = Vec::new();
    let mut dropped: Vec<ResolvedItem> = Vec::new();
    let mut k: usize = 0;
    proof {
        assert(models.take(0) =~= Seq::empty());
        reveal(Seq::filter);
        assert(mappings@.map_values(|m: ItemMapping| m@) =~= mappings_of(
            models.take(0),
            from.id,
            to.id,
        ));
        assert(dropped@.map_values(|d: ResolvedItem| d@) =~= dropped_of(
            models.take(0),
            from.id,
            to.id,
        ));
    }
    while k < items.len()
        invariant
            k <= items.len(),
            items == &container.items,
            models == item_models(items@),
            models == container@.items,
            forall|j: int| 0 <= j < k ==> !lacks_default(#[trigger] models[j], from.id, to.id),
            mappings@.map_values(|m: ItemMapping| m@) == mappings_of(
                models.take(k as int),
                from.id,
                to.id,
            ),
            dropped@.map_values(|d: ResolvedItem| d@) == dropped_of(
                models.take(k as int),
                from.id,
                to.id,
            ),
        decreases items.len() - k,
    {
        let item = &items[k];
        proof {
            assert(models[k as int] == item@);
            models.lemma_take_succ_push(k as int);
            lemma_mappings_push(models.take(k as int), item@, from.id, to.id);
            lemma_dropped_push(models.take(k as int), item@, from.id, to.id);
        }
        let after = item.resolve(to, item.identity.clone());
        let before = item.resolve(from, item.identity.clone());
        if after.is_present() {
            let entry = if before.is_present() {
                ItemMapping::Carry {
                    identity: item.identity.clone(),
                    from: before.name,
                    to: after.name,
                    ty: after.ty,
                }
            } else {
                match &item.default {
                    Some(provider) => ItemMapping::Fill {
                        identity: item.identity.clone(),
                        name: after.name,
                        ty: after.ty,
                        provider: provider.clone(),
                    },
                    None => {
                        proof {
                            assert(is_first_lacking(models, from.id, to.id, k as int));
                            let first = first_lacking(models, from.id, to.id);
                            assert(first == k) by {
                                if first < k {
                                } else if k < first {
                                }
                            }
                        }
                        return Err(
                            SchemaError::NoDefaultForAddedItem {
                                item: item.identity.clone(),
                                version: to.id,
                            },
                        );
                    },
                }
            };
            proof {
                mappings@.lemma_push_map_commute(|m: ItemMapping| m@, entry);
            }
            mappings.push(entry);
        } else if before.is_present() {
            let entry = ResolvedItem {
                identity: item.identity.clone(),
                name: before.name,
                ty: before.ty,
            };
            proof {
                dropped@.lemma_push_map_commute(|d: ResolvedItem| d@, entry);
            }
            dropped.push(entry);
        }
        k += 1;
    }
    proof {
        assert(models.take(k as int) == models);
    }
    Ok(
        ConversionSpec {
            container: container.input(),
            from_ident: container.from_ident.clone(),
            from,
            to,
            mappings,
            dropped,
        },
    )
}

/// Works out the conversions of a container, oldest first.
///
/// A container that skips conversions has none. Otherwise there is one for
/// each pair of adjacent versions whose source version does not skip it. If
/// one of these cannot be generated, none is: the error is that of the first
/// pair that fails.
pub fn synthesize(container: &VersionedContainer) -> (r: Result<Vec<ConversionSpec>, SchemaError>)
    ensures
        match r {
            Ok(list) => container@.conversions() == Ok::<
                Seq<ConversionSpecModel>,
                SchemaErrorModel,
            >(conversion_models(list@)),
            Err(e) => container@.conversions() == Err::<
                Seq<ConversionSpecModel>,
                SchemaErrorModel,
            >(e@),
        },
        r is Ok <==> container@.convertible(),
{
    let mut list: Vec<ConversionSpec> = Vec::new();
    if container.skip_from {
        proof {
            assert(conversion_models(list@) =~= Seq::empty());
        }
        return Ok(list);
    }
    let versions = container.versions.as_vec();
    let ghost pairs = adjacent_pairs(versions@);
    let ghost items = container@.items;
    let mut k: usize = 0;
    proof {
        assert(pairs.take(0) =~= Seq::empty());
        reveal(Seq::filter);
        assert(conversion_models(list@) =~= pairs.take(0).filter(wanted()).map_values(
            conversion_for(container@),
        ));
    }
    let newest: usize = if versions.len() == 0 {
        0
    } else {
        versions.len() - 1
    };
    while k < newest
        invariant
            k <= newest,
            newest == pairs.len(),
            newest < versions.len() || newest == 0,
            versions@ == container@.versions,
            pairs == adjacent_pairs(versions@),
            items == container@.items,
            !container@.skip_from,
            forall|j: int| 0 <= j < k ==> !pair_fails(items, #[trigger] pairs[j]),
            conversion_models(list@) == pairs.take(k as int).filter(wanted()).map_values(
                conversion_for(container@),
            ),
        decreases newest - k,
    {
        let from = versions[k];
        let to = versions[k + 1];
        proof {
            assert(pairs[k as int] == (from, to));
            pairs.lemma_take_succ_push(k as int);
            pairs.take(k as int).lemma_filter_push((from, to), wanted());
            pairs.take(k as int).filter(wanted()).lemma_push_map_commute(
                conversion_for(container@),
                (from, to),
            );
        }
        if !from.skip_from {
            match convert(container, from, to) {
                Ok(spec) => {
                    proof {
                        list@.lemma_push_map_commute(|c: ConversionSpec| c@, spec);
                    }
                    list.push(spec);
                },
                Err(e) => {
                    proof {
                        assert(is_first_failing(items, pairs, k as int));
                        let first = container@.first_failing();
                        assert(first == k) by {
                            if first < k {
                            } else if k < first {
                            }
                        }
                    }
                    return Err(e);
                },
            }
        }
        k += 1;
    }
    proof {
        assert(pairs.take(k as int) == pairs);
    }
    Ok(list)
}

} // verus!
