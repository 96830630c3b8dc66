//! Schema introspection and storage layout derivation for record and enum
//! declarations: type classification, static sizes, loose and packed layouts,
//! validation, fingerprints and the split of a record into keys and values.

pub mod bytearray;
pub mod checker;
pub mod classify;
pub mod enums;
pub mod hash;
pub mod introspect;
pub mod laws;
pub mod layout;
pub mod members;
pub mod size;
pub mod types;

pub use checker::DojoChecker;
pub use introspect::{
    derive_declaration, derive_enum, derive_struct, Declaration, DerivedLayout, Derivation, Descriptor,
    Variant,
};
pub use members::{DojoEvent, DojoSerializer};
pub use types::{
    Diagnostic, FieldLayout, Layout, Member, PackedSlot, ResolvedLayout, Size, TypeExpr, TypeIssue,
};
