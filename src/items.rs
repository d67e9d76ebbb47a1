//! Plain-value models of the struct and enum definitions that schemas are
//! derived from, with the attributes that the derivation reads.
use vstd::prelude::*;
use crate::types::TypeExpr;

verus! {

/// A named field of a struct or of a struct-like enum variant.
pub struct FieldDef {
    pub name: String,
    pub ty: TypeExpr,
    /// An explicit per-field rename.
    pub rename: Option<String>,
    /// The doc comment.
    pub description: Option<String>,
    /// Marked to be skipped in serialization.
    pub skip: bool,
    /// Carries a default-value annotation.
    pub has_default: bool,
    /// Carries a conditional-skip annotation.
    pub skip_if: bool,
}

/// A struct with named fields.
pub struct StructDef {
    pub name: String,
    pub description: Option<String>,
    /// The container-level case-conversion policy, as written.
    pub rename_all: Option<String>,
    pub fields: Vec<FieldDef>,
}

/// The payload of an enum variant.
pub enum VariantFields {
    Unit,
    Unnamed { types: Vec<TypeExpr> },
    Named { fields: Vec<FieldDef> },
}

/// One variant of an enum.
pub struct VariantDef {
    pub name: String,
    pub rename: Option<String>,
    /// The variant-level policy for the names of its fields.
    pub rename_all: Option<String>,
    pub description: Option<String>,
    pub fields: VariantFields,
}

/// An enum.
pub struct EnumDef {
    pub name: String,
    pub description: Option<String>,
    pub rename_all: Option<String>,
    pub variants: Vec<VariantDef>,
}

} // verus!
