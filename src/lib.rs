//! Per-element configuration and type-shape classification for a bindings
//! generator working over a resolved interface-definition graph.
pub mod classify;
pub mod configuration;
pub mod graph;
pub mod path;

pub use configuration::{Configuration, ElementConfig};
pub use graph::{
    Case, Function, FunctionKind, Handle, Interface, Package, Type, TypeDef, TypeDefKind,
    TypeGraph, TypeId, TypeOwner, World,
};
pub use path::{function_path_of, path, type_path_of, Element};
