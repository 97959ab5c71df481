//! From a declaration to everything that is generated for it.

use crate::container::assemble;
use crate::container::assembled;
use crate::container::ContainerAttributes;
use crate::container::ContainerInput;
use crate::container::ContainerInputModel;
use crate::container::item_models;
use crate::container::VersionedContainer;
use crate::container::VersionedContainerModel;
use crate::conversion::conversion_models;
use crate::conversion::ConversionSpec;
use crate::conversion::ConversionSpecModel;
use crate::conversion::synthesize;
use crate::error::SchemaError;
use crate::error::SchemaErrorModel;
use crate::item::Item;
use crate::item::ItemModel;
use crate::version::Version;
use vstd::prelude::*;

verus! {

/// The declaration of one container.
#[derive(Debug, PartialEq, Eq)]
pub struct Declaration {
    pub input: ContainerInput,
    pub items: Vec<Item>,
    pub attributes: ContainerAttributes,
}

/// The mathematical value of a [`Declaration`].
pub struct DeclarationModel {
    pub input: ContainerInputModel,
    pub items: Seq<ItemModel>,
    pub versions: Seq<Version>,
    pub skip_from: bool,
}

impl View for Declaration {
    type V = DeclarationModel;

    open spec fn view(&self) -> DeclarationModel {
        DeclarationModel {
            input: self.input@,
            items: item_models(self.items@),
            versions: self.attributes.versions@,
            skip_from: self.attributes.skip_from,
        }
    }
}

/// What is generated for one container: the container with its views, and
/// its conversions.
#[derive(Debug, PartialEq, Eq)]
pub struct Generated {
    pub container: VersionedContainer,
    pub conversions: Vec<ConversionSpec>,
}

/// The mathematical value of a [`Generated`].
pub struct GeneratedModel {
    pub container: VersionedContainerModel,
    pub conversions: Seq<ConversionSpecModel>,
}

impl View for Generated {
    type V = GeneratedModel;

    open spec fn view(&self) -> GeneratedModel {
        GeneratedModel {
            container: self.container@,
            conversions: conversion_models(self.conversions@),
        }
    }
}

/// The mathematical value of the outcome of a generation.
pub open spec fn outcome(r: Result<Generated, SchemaError>) -> Result<
    GeneratedModel,
    SchemaErrorModel,
> {
    match r {
        Ok(generated) => Ok(generated@),
        Err(e) => Err(e@),
    }
}

/// What generating for a declaration comes to: all of it, or nothing.
///
/// A declaration that cannot be assembled is refused with the error of the
/// assembly. One that can, but lacks a default for a conversion, is refused
/// with the error of its conversions. Any other gives the container and its
/// conversions.
pub open spec fn generation(declaration: DeclarationModel) -> Result<
    GeneratedModel,
    SchemaErrorModel,
> {
    match assembled(
        declaration.input,
        declaration.items,
        declaration.skip_from,
        declaration.versions,
    ) {
        Err(e) => Err(e),
        Ok(container) => match container.conversions() {
            Err(e) => Err(e),
            Ok(conversions) => Ok(GeneratedModel { container, conversions }),
        },
    }
}

/// Generates the views and the conversions of one container.
///
/// Nothing is handed out unless all of it could be generated: a failure of
/// one conversion fails the container.
pub fn generate(declaration: Declaration) -> (r: Result<Generated, SchemaError>)
    ensures
        outcome(r) == generation(declaration@),
        r matches Ok(generated) ==> generated@.container.wf(),
{
    let container = match assemble(
        declaration.input,
        declaration.items,
        declaration.attributes,
    ) {
        Ok(container) => container,
        Err(e) => {
            return Err(e);
        },
    };
    match synthesize(&container) {
        Ok(conversions) => Ok(Generated { container, conversions }),
        Err(e) => Err(e),
    }
}

/// Generates for several containers, each by itself.
///
/// A container that is refused does not stand in the way of the others: the
/// outcome of each declaration stands at the place of the declaration.
pub fn generate_all(declarations: Vec<Declaration>) -> (results: Vec<
    Result<Generated, SchemaError>,
>)
    ensures
        results.len() == declarations.len(),
        forall|i: int|
            0 <= i < declarations.len() ==> outcome(#[trigger] results@[i]) == generation(
                declarations@[i]@,
            ),
{
    let ghost given = declarations@;
    let mut pending = declarations;
    let mut backwards: Vec<Result<Generated, SchemaError>> = Vec::new();
    while pending.len() > 0
        invariant
            pending.len() + backwards.len() == given.len(),
            pending@ == given.take(pending.len() as int),
            forall|i: int|
                0 <= i < backwards.len() ==> outcome(#[trigger] backwards@[i]) == generation(
                    given[given.len() - 1 - i]@,
                ),
        decreases pending.len(),
    {
        let declaration = pending.pop().unwrap();
        let r = generate(declaration);
        backwards.push(r);
    }
    let mut results: Vec<Result<Generated, SchemaError>> = Vec::new();
    while backwards.len() > 0
        invariant
            backwards.len() + results.len() == given.len(),
            forall|i: int|
                0 <= i < backwards.len() ==> outcome(#[trigger] backwards@[i]) == generation(
                    given[given.len() - 1 - i]@,
                ),
            forall|i: int|
                0 <= i < results.len() ==> outcome(#[trigger] results@[i]) == generation(
                    given[i]@,
                ),
        decreases backwards.len(),
    {
        let r = backwards.pop().unwrap();
        results.push(r);
    }
    results
}

} // verus!
