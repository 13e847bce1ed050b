//! The declarative description of a GraphQL interface: its name, its fields
//! with their argument signatures and literal defaults, and the closed set of
//! concrete types allowed to satisfy it.

use vstd::prelude::*;
use crate::literal::Literal;
use crate::literal::LiteralModel;

verus! {

/// A reference to a semantic type by name, together with whether a value of
/// that type may be absent (GraphQL nullability).
#[derive(Debug)]
pub struct TypeRef {
    pub name: String,
    pub nullable: bool,
}

/// The mathematical model of a [`TypeRef`].
pub struct TypeRefModel {
    pub name: Seq<char>,
    pub nullable: bool,
}

impl View for TypeRef {
    type V = TypeRefModel;

    open spec fn view(&self) -> TypeRefModel {
        TypeRefModel { name: self.name@, nullable: self.nullable }
    }
}

/// The return type of a field: the semantic type of the produced value and
/// whether the producing method may fail. The fallibility is not exposed in
/// the schema; it only widens the dispatcher's error path.
#[derive(Debug)]
pub struct ReturnType {
    pub ty: TypeRef,
    pub fallible: bool,
}

/// The mathematical model of a [`ReturnType`].
pub struct ReturnTypeModel {
    pub ty: TypeRefModel,
    pub fallible: bool,
}

impl View for ReturnType {
    type V = ReturnTypeModel;

    open spec fn view(&self) -> ReturnTypeModel {
        ReturnTypeModel { ty: self.ty@, fallible: self.fallible }
    }
}

/// The declaration of one argument of a field. An argument without a default
/// value is required unless its type permits absence.
#[derive(Debug)]
pub struct ArgSpec {
    pub name: String,
    pub description: Option<String>,
    pub ty: TypeRef,
    pub default_value: Option<Literal>,
}

/// The mathematical model of an [`ArgSpec`].
pub struct ArgSpecModel {
    pub name: Seq<char>,
    pub description: Option<Seq<char>>,
    pub ty: TypeRefModel,
    pub default_value: Option<LiteralModel>,
}

pub open spec fn opt_text(o: Option<String>) -> Option<Seq<char>> {
    match o {
        Some(s) => Some(s@),
        None => None,
    }
}

pub open spec fn opt_literal(o: Option<Literal>) -> Option<LiteralModel> {
    match o {
        Some(v) => Some(v@),
        None => None,
    }
}

impl View for ArgSpec {
    type V = ArgSpecModel;

    open spec fn view(&self) -> ArgSpecModel {
        ArgSpecModel {
            name: self.name@,
            description: opt_text(self.description),
            ty: self.ty@,
            default_value: opt_literal(self.default_value),
        }
    }
}

/// The declaration of one field of the interface. `method_name` is the name
/// of the method to invoke on the active variant; it defaults to the field
/// name when absent.
#[derive(Debug)]
pub struct FieldSpec {
    pub name: String,
    pub method_name: Option<String>,
    pub description: Option<String>,
    pub return_type: ReturnType,
    pub deprecation: Option<String>,
    pub arguments: Vec<ArgSpec>,
}

/// The mathematical model of a [`FieldSpec`].
pub struct FieldSpecModel {
    pub name: Seq<char>,
    pub method_name: Option<Seq<char>>,
    pub description: Option<Seq<char>>,
    pub return_type: ReturnTypeModel,
    pub deprecation: Option<Seq<char>>,
    pub arguments: Seq<ArgSpecModel>,
}

impl View for FieldSpec {
    type V = FieldSpecModel;

    open spec fn view(&self) -> FieldSpecModel {
        FieldSpecModel {
            name: self.name@,
            method_name: opt_text(self.method_name),
            description: opt_text(self.description),
            return_type: self.return_type@,
            deprecation: opt_text(self.deprecation),
            arguments: Seq::new(self.arguments@.len(), |i: int| self.arguments@[i]@),
        }
    }
}

/// The name of the method that a field routes to: the declared method name,
/// or the field name itself when none is declared.
pub open spec fn effective_method_name(f: FieldSpecModel) -> Seq<char> {
    match f.method_name {
        Some(m) => m,
        None => f.name,
    }
}

/// One concrete type allowed to satisfy the interface.
#[derive(Debug)]
pub struct VariantSpec {
    pub concrete_type_name: String,
}

/// The mathematical model of a [`VariantSpec`].
pub struct VariantSpecModel {
    pub concrete_type_name: Seq<char>,
}

impl View for VariantSpec {
    type V = VariantSpecModel;

    open spec fn view(&self) -> VariantSpecModel {
        VariantSpecModel { concrete_type_name: self.concrete_type_name@ }
    }
}

/// The declarative description of a GraphQL interface.
#[derive(Debug)]
pub struct InterfaceSpec {
    pub name: String,
    pub description: Option<String>,
    pub fields: Vec<FieldSpec>,
    pub variants: Vec<VariantSpec>,
}

/// The mathematical model of an [`InterfaceSpec`].
pub struct InterfaceSpecModel {
    pub name: Seq<char>,
    pub description: Option<Seq<char>>,
    pub fields: Seq<FieldSpecModel>,
    pub variants: Seq<VariantSpecModel>,
}

impl View for InterfaceSpec {
    type V = InterfaceSpecModel;

    open spec fn view(&self) -> InterfaceSpecModel {
        InterfaceSpecModel {
            name: self.name@,
            description: opt_text(self.description),
            fields: Seq::new(self.fields@.len(), |i: int| self.fields@[i]@),
            variants: Seq::new(self.variants@.len(), |i: int| self.variants@[i]@),
        }
    }
}

/// The names of the declared variants, in declaration order.
pub open spec fn variant_names(s: InterfaceSpecModel) -> Seq<Seq<char>> {
    Seq::new(s.variants.len(), |i: int| s.variants[i].concrete_type_name)
}

/// The names of the declared fields, in declaration order.
pub open spec fn field_names(s: InterfaceSpecModel) -> Seq<Seq<char>> {
    Seq::new(s.fields.len(), |i: int| s.fields[i].name)
}

pub open spec fn names_unique(names: Seq<Seq<char>>) -> bool {
    forall|i: int, j: int| 0 <= i < j < names.len() ==> names[i] != names[j]
}

/// A well-formed interface description: at least one variant, no concrete
/// type declared twice and no field name declared twice.
pub open spec fn wf_interface(s: InterfaceSpecModel) -> bool {
    &&& s.variants.len() > 0
    &&& names_unique(variant_names(s))
    &&& names_unique(field_names(s))
}

/// The index of the first declared variant with the given concrete type
/// name, if any, scanning in declaration order from `j`.
pub open spec fn find_variant_from(s: InterfaceSpecModel, name: Seq<char>, j: int) -> Option<int>
    decreases s.variants.len() - j,
{
    if j < 0 || j >= s.variants.len() {
        None
    } else if s.variants[j].concrete_type_name == name {
        Some(j)
    } else {
        find_variant_from(s, name, j + 1)
    }
}

/// The index of the first declared variant with the given concrete type
/// name, if any.
pub open spec fn find_variant(s: InterfaceSpecModel, name: Seq<char>) -> Option<int> {
    find_variant_from(s, name, 0)
}

/// The index of the first declared field with the given name, if any,
/// scanning in declaration order from `j`.
pub open spec fn find_field_from(s: InterfaceSpecModel, name: Seq<char>, j: int) -> Option<int>
    decreases s.fields.len() - j,
{
    if j < 0 || j >= s.fields.len() {
        None
    } else if s.fields[j].name == name {
        Some(j)
    } else {
        find_field_from(s, name, j + 1)
    }
}

/// The index of the first declared field with the given name, if any.
pub open spec fn find_field(s: InterfaceSpecModel, name: Seq<char>) -> Option<int> {
    find_field_from(s, name, 0)
}

} // verus!
