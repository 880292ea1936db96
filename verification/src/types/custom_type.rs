use vstd::prelude::*;
use super::cargo_dependency::CargoDependency;
use super::type_ident::TypeIdent;

verus! {

/// Type information for a type that is defined elsewhere, or that otherwise
/// needs custom treatment.
#[derive(Debug, PartialEq, Eq, Hash)]
pub struct CustomType {
    pub ident: TypeIdent,
    /// Qualified path to refer to the type in the Rust generators.
    pub rs_ty: String,
    /// Dependencies to add to the Rust plugin's `Cargo.toml` to be able to
    /// use the type, by the name on the left-hand side of the `=` in its
    /// `[dependencies]` section, in ascending order of that name.
    pub rs_dependencies: Vec<(&'static str, CargoDependency)>,
    /// Serde attributes to add to fields of this type.
    pub serde_attrs: Vec<String>,
    /// Name to refer to the type in the TypeScript generator.
    pub ts_ty: String,
    /// Optional declaration, for when `ts_ty` does not refer to a built-in
    /// type.
    pub ts_declaration: Option<String>,
}

} // verus!
