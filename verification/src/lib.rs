//! GraphQL interface-type dispatch and schema compilation.
//!
//! Given a declarative description of a GraphQL interface (its name,
//! description and field signatures) together with the closed set of concrete
//! object types that implement it, this crate provides:
//!
//! * a tagged union value ([`variant::VariantValue`]) holding exactly one of
//!   the concrete types at a time;
//! * a schema-registry builder ([`registry::Registry::create_type_info`])
//!   that produces an interface type descriptor and records "implements"
//!   edges, idempotently;
//! * a field dispatcher ([`dispatch`]) that routes an incoming field request
//!   to the active variant's method, binding arguments and applying literal
//!   defaults for omitted ones;
//! * an inline-fragment resolver ([`fragment`]) that narrows resolution to
//!   the branch matching a requested concrete type name.

pub mod decl;
pub mod dispatch;
pub mod fragment;
pub mod literal;
pub mod registry;
pub mod variant;
