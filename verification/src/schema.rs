use vstd::prelude::*;

use crate::models::Reference;
use crate::raw::RawValue;

verus! {

/// The advisory primitive type tag a property may declare beside its schema.
#[derive(Debug, PartialEq, Eq, Structural, Clone, Copy)]
pub enum DefinitionPropertyType {
    Object,
    String,
    Number,
    Integer,
    Boolean,
    Array,
}

/// The polymorphic shape of a schema node: exactly one variant is active.
/// Each variant carries an open bag of the sibling fields it did not
/// recognize, preserved for forward compatibility and never acted on.
pub enum DefinitionType {
    Object { properties: Vec<(String, DefinitionProperty)>, additional: Vec<(String, RawValue)> },
    Array { items: Box<DefinitionType>, additional: Vec<(String, RawValue)> },
    String { additional: Vec<(String, RawValue)> },
    Number { additional: Vec<(String, RawValue)> },
    Integer { additional: Vec<(String, RawValue)> },
    Boolean { additional: Vec<(String, RawValue)> },
}

/// A named member of an object schema. The nested schema is authoritative for
/// structure; the declared type tag is advisory metadata.
pub struct DefinitionProperty {
    pub schema: DefinitionType,
    pub description: Option<String>,
    pub pattern: Option<String>,
    pub definition_property_type: Option<DefinitionPropertyType>,
    pub reference: Option<String>,
    pub read_only: Option<bool>,
}

/// A named, reusable schema entry of a document.
pub struct Definition {
    pub schema: DefinitionType,
    pub required: Option<Vec<String>>,
    pub all_of: Option<Vec<Reference>>,
    pub description: Option<String>,
}

} // verus!
