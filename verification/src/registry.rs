//! The type registry and the schema registry builder: a mapping from type
//! name to schema entry plus a set of "implements" edges, with an idempotent
//! edge insertion and a memoized, idempotent interface registration.

use vstd::prelude::*;
use crate::decl::ArgSpec;
use crate::decl::ArgSpecModel;
use crate::decl::FieldSpec;
use crate::decl::FieldSpecModel;
use crate::decl::InterfaceSpec;
use crate::decl::InterfaceSpecModel;
use crate::decl::TypeRefModel;
use crate::decl::TypeRef;
use crate::decl::field_names;
use crate::decl::opt_text;
use crate::decl::variant_names;
use crate::decl::wf_interface;
use crate::literal::literal_chars;
use crate::literal::render_literal;

verus! {

/// Describes one argument of a field in the schema: its type reference and,
/// when the argument has a default, the canonical string rendering of the
/// default literal.
#[derive(Debug, PartialEq, Eq)]
pub struct ArgDescriptor {
    pub name: String,
    pub description: Option<String>,
    pub type_ref: String,
    pub default_value: Option<String>,
}

/// The mathematical model of an [`ArgDescriptor`].
pub struct ArgDescriptorModel {
    pub name: Seq<char>,
    pub description: Option<Seq<char>>,
    pub type_ref: Seq<char>,
    pub default_value: Option<Seq<char>>,
}

impl View for ArgDescriptor {
    type V = ArgDescriptorModel;

    open spec fn view(&self) -> ArgDescriptorModel {
        ArgDescriptorModel {
            name: self.name@,
            description: opt_text(self.description),
            type_ref: self.type_ref@,
            default_value: opt_text(self.default_value),
        }
    }
}

/// Describes one field of the interface in the schema.
#[derive(Debug, PartialEq, Eq)]
pub struct FieldDescriptor {
    pub name: String,
    pub description: Option<String>,
    pub args: Vec<ArgDescriptor>,
    pub type_ref: String,
    pub deprecation: Option<String>,
}

/// The mathematical model of a [`FieldDescriptor`].
pub struct FieldDescriptorModel {
    pub name: Seq<char>,
    pub description: Option<Seq<char>>,
    pub args: Seq<ArgDescriptorModel>,
    pub type_ref: Seq<char>,
    pub deprecation: Option<Seq<char>>,
}

impl View for FieldDescriptor {
    type V = FieldDescriptorModel;

    open spec fn view(&self) -> FieldDescriptorModel {
        FieldDescriptorModel {
            name: self.name@,
            description: opt_text(self.description),
            args: Seq::new(self.args@.len(), |i: int| self.args@[i]@),
            type_ref: self.type_ref@,
            deprecation: opt_text(self.deprecation),
        }
    }
}

/// The schema entry produced for an interface: its fields with their
/// argument signatures and rendered defaults, and the names of the concrete
/// types allowed to satisfy it, in declaration order.
#[derive(Debug, PartialEq, Eq)]
pub struct InterfaceTypeDescriptor {
    pub name: String,
    pub description: Option<String>,
    pub fields: Vec<FieldDescriptor>,
    pub possible_types: Vec<String>,
}

/// The mathematical model of an [`InterfaceTypeDescriptor`].
pub struct InterfaceDescriptorModel {
    pub name: Seq<char>,
    pub description: Option<Seq<char>>,
    pub fields: Seq<FieldDescriptorModel>,
    pub possible_types: Seq<Seq<char>>,
}

impl View for InterfaceTypeDescriptor {
    type V = InterfaceDescriptorModel;

    open spec fn view(&self) -> InterfaceDescriptorModel {
        InterfaceDescriptorModel {
            name: self.name@,
            description: opt_text(self.description),
            fields: Seq::new(self.fields@.len(), |i: int| self.fields@[i]@),
            possible_types: Seq::new(
                self.possible_types@.len(),
                |i: int| self.possible_types@[i]@,
            ),
        }
    }
}

/// An error raised while building the schema entry for an interface. Such an
/// error is fatal: the malformed description must not become servable.
#[derive(Debug, PartialEq, Eq)]
pub enum BuildError {
    /// The description declares no variant at all.
    NoVariants,
    /// The same concrete type is declared as a variant twice.
    DuplicatePossibleType { name: String },
    /// The same field name is declared twice.
    DuplicateFieldName { name: String },
    /// The registry already holds a non-interface entry under the
    /// interface's name.
    NameConflict { name: String },
}

/// The mathematical model of a [`BuildError`].
pub enum BuildErrorModel {
    NoVariants,
    DuplicatePossibleType { name: Seq<char> },
    DuplicateFieldName { name: Seq<char> },
    NameConflict { name: Seq<char> },
}

impl View for BuildError {
    type V = BuildErrorModel;

    open spec fn view(&self) -> BuildErrorModel {
        match self {
            BuildError::NoVariants => BuildErrorModel::NoVariants,
            BuildError::DuplicatePossibleType { name } => BuildErrorModel::DuplicatePossibleType {
                name: name@,
            },
            BuildError::DuplicateFieldName { name } => BuildErrorModel::DuplicateFieldName {
                name: name@,
            },
            BuildError::NameConflict { name } => BuildErrorModel::NameConflict { name: name@ },
        }
    }
}

/// The schema rendering of a type reference: the type name, marked non-null
/// unless the type permits absence.
pub open spec fn type_ref_chars(t: TypeRefModel) -> Seq<char> {
    if t.nullable {
        t.name
    } else {
        t.name + "!"@
    }
}

/// The schema description of one argument.
pub open spec fn arg_descriptor_of(a: ArgSpecModel) -> ArgDescriptorModel {
    ArgDescriptorModel {
        name: a.name,
        description: a.description,
        type_ref: type_ref_chars(a.ty),
        default_value: match a.default_value {
            Some(v) => Some(literal_chars(v)),
            None => None,
        },
    }
}

/// The schema description of one field. The fallibility of the return type
/// is not exposed: only the underlying type reference is.
pub open spec fn field_descriptor_of(f: FieldSpecModel) -> FieldDescriptorModel {
    FieldDescriptorModel {
        name: f.name,
        description: f.description,
        args: Seq::new(f.arguments.len(), |i: int| arg_descriptor_of(f.arguments[i])),
        type_ref: type_ref_chars(f.return_type.ty),
        deprecation: f.deprecation,
    }
}

/// The schema entry that an interface description compiles to.
pub open spec fn descriptor_of(s: InterfaceSpecModel) -> InterfaceDescriptorModel {
    InterfaceDescriptorModel {
        name: s.name,
        description: s.description,
        fields: Seq::new(s.fields.len(), |i: int| field_descriptor_of(s.fields[i])),
        possible_types: variant_names(s),
    }
}

/// What the registry holds under a type name: the descriptor of an interface
/// built here, or the entry of a concrete type whose own schema contribution
/// is produced elsewhere.
#[derive(Debug, PartialEq, Eq)]
pub enum TypeInfo {
    Interface(InterfaceTypeDescriptor),
    Concrete,
}

/// The mathematical model of a [`TypeInfo`].
pub enum TypeInfoModel {
    Interface(InterfaceDescriptorModel),
    Concrete,
}

impl View for TypeInfo {
    type V = TypeInfoModel;

    open spec fn view(&self) -> TypeInfoModel {
        match self {
            TypeInfo::Interface(d) => TypeInfoModel::Interface(d@),
            TypeInfo::Concrete => TypeInfoModel::Concrete,
        }
    }
}

/// One named entry of the registry.
#[derive(Debug, PartialEq, Eq)]
pub struct RegistryEntry {
    pub name: String,
    pub info: TypeInfo,
}

/// The mathematical model of a [`RegistryEntry`].
pub struct RegistryEntryModel {
    pub name: Seq<char>,
    pub info: TypeInfoModel,
}

impl View for RegistryEntry {
    type V = RegistryEntryModel;

    open spec fn view(&self) -> RegistryEntryModel {
        RegistryEntryModel { name: self.name@, info: self.info@ }
    }
}

/// One "implements" edge: a concrete type satisfies an interface.
#[derive(Debug, PartialEq, Eq)]
pub struct ImplementsEdge {
    pub concrete: String,
    pub interface: String,
}

/// The mathematical model of an [`ImplementsEdge`].
pub struct ImplementsEdgeModel {
    pub concrete: Seq<char>,
    pub interface: Seq<char>,
}

impl View for ImplementsEdge {
    type V = ImplementsEdgeModel;

    open spec fn view(&self) -> ImplementsEdgeModel {
        ImplementsEdgeModel { concrete: self.concrete@, interface: self.interface@ }
    }
}

/// The shared type registry: named schema entries and "implements" edges.
/// Entries and edges are only ever appended, during schema building.
#[derive(Debug)]
pub struct Registry {
    pub entries: Vec<RegistryEntry>,
    pub implements: Vec<ImplementsEdge>,
}

/// The mathematical model of a [`Registry`].
pub struct RegistryModel {
    pub entries: Seq<RegistryEntryModel>,
    pub implements: Seq<ImplementsEdgeModel>,
}

impl View for Registry {
    type V = RegistryModel;

    open spec fn view(&self) -> RegistryModel {
        RegistryModel {
            entries: Seq::new(self.entries@.len(), |i: int| self.entries@[i]@),
            implements: Seq::new(self.implements@.len(), |i: int| self.implements@[i]@),
        }
    }
}

/// The index of the first registry entry with the given name, scanning from
/// `j`, if any.
pub open spec fn find_entry_from(
    entries: Seq<RegistryEntryModel>,
    name: Seq<char>,
    j: int,
) -> Option<int>
    decreases entries.len() - j,
{
    if j < 0 || j >= entries.len() {
        None
    } else if entries[j].name == name {
        Some(j)
    } else {
        find_entry_from(entries, name, j + 1)
    }
}

/// The index of the first registry entry with the given name, if any.
pub open spec fn find_entry(entries: Seq<RegistryEntryModel>, name: Seq<char>) -> Option<int> {
    find_entry_from(entries, name, 0)
}

/// Whether the edge set already holds the given edge.
pub open spec fn has_edge(edges: Seq<ImplementsEdgeModel>, e: ImplementsEdgeModel) -> bool {
    exists|i: int|
        0 <= i < edges.len() && edges[i].concrete == e.concrete && edges[i].interface
            == e.interface
}

/// Idempotent edge insertion: the edge set unchanged when the edge is
/// already present, otherwise the edge appended.
pub open spec fn add_edge(
    edges: Seq<ImplementsEdgeModel>,
    e: ImplementsEdgeModel,
) -> Seq<ImplementsEdgeModel> {
    if has_edge(edges, e) {
        edges
    } else {
        edges.push(e)
    }
}

/// Memoized entry insertion: the entries unchanged when one with the given
/// name exists, otherwise a concrete entry appended. This models a concrete
/// type's own schema contribution, which is memoized elsewhere.
pub open spec fn ensure_concrete_entry(
    entries: Seq<RegistryEntryModel>,
    name: Seq<char>,
) -> Seq<RegistryEntryModel> {
    if find_entry(entries, name) is Some {
        entries
    } else {
        entries.push(RegistryEntryModel { name: name, info: TypeInfoModel::Concrete })
    }
}

/// Whether one of the first `upto` names equals `n`.
pub open spec fn name_among(names: Seq<Seq<char>>, n: Seq<char>, upto: int) -> bool {
    exists|i: int| 0 <= i < upto && i < names.len() && names[i] == n
}

/// The first name that repeats an earlier one, scanning from `j`, if any.
pub open spec fn first_duplicate_from(names: Seq<Seq<char>>, j: int) -> Option<Seq<char>>
    decreases names.len() - j,
{
    if j < 0 || j >= names.len() {
        None
    } else if name_among(names, names[j], j) {
        Some(names[j])
    } else {
        first_duplicate_from(names, j + 1)
    }
}

/// The first name that repeats an earlier one, if any.
pub open spec fn first_duplicate(names: Seq<Seq<char>>) -> Option<Seq<char>> {
    first_duplicate_from(names, 0)
}

/// The build-time validation of an interface description: the first
/// configuration error in a fixed order, if any.
pub open spec fn validate_of(s: InterfaceSpecModel) -> Result<(), BuildErrorModel> {
    if s.variants.len() == 0 {
        Err(BuildErrorModel::NoVariants)
    } else if first_duplicate(variant_names(s)) is Some {
        Err(
            BuildErrorModel::DuplicatePossibleType {
                name: first_duplicate(variant_names(s))->Some_0,
            },
        )
    } else if first_duplicate(field_names(s)) is Some {
        Err(BuildErrorModel::DuplicateFieldName { name: first_duplicate(field_names(s))->Some_0 })
    } else {
        Ok(())
    }
}

proof fn lemma_first_duplicate_unique(names: Seq<Seq<char>>, j: int)
    requires
        0 <= j,
    ensures
        first_duplicate_from(names, j) is None <==> (forall|a: int, b: int|
            0 <= a < b < names.len() && j <= b ==> names[a] != names[b]),
    decreases names.len() - j,
{
    if j < names.len() {
        lemma_first_duplicate_unique(names, j + 1);
        if first_duplicate_from(names, j) is None {
            assert forall|a: int, b: int|
                0 <= a < b < names.len() && j <= b implies names[a] != names[b] by {
                if b == j {
                    assert(!name_among(names, names[j], j));
                }
            }
        } else {
            if name_among(names, names[j], j) {
                let a = choose|a: int| 0 <= a < j && a < names.len() && names[a] == names[j];
                assert(0 <= a < j < names.len() && j <= j && names[a] == names[j]);
            }
        }
    }
}

/// A description passes validation exactly when it is well formed.
pub proof fn lemma_validate_ok_iff_wf(s: InterfaceSpecModel)
    ensures
        validate_of(s) is Ok <==> wf_interface(s),
{
    lemma_first_duplicate_unique(variant_names(s), 0);
    lemma_first_duplicate_unique(field_names(s), 0);
}

fn clone_opt_string(o: &Option<String>) -> (r: Option<String>)
    ensures
        opt_text(r) == opt_text(*o),
{
    match o {
        Some(s) => Some(s.clone()),
        None => None,
    }
}

/// Renders a type reference for the schema.
fn type_ref_string(t: &TypeRef) -> (r: String)
    ensures
        r@ == type_ref_chars(t@),
{
    if t.nullable {
        t.name.clone()
    } else {
        t.name.clone().concat("!")
    }
}

fn build_arg_descriptor(a: &ArgSpec) -> (r: ArgDescriptor)
    ensures
        r@ == arg_descriptor_of(a@),
{
    let default_value = match &a.default_value {
        Some(v) => Some(render_literal(v)),
        None => None,
    };
    ArgDescriptor {
        name: a.name.clone(),
        description: clone_opt_string(&a.description),
        type_ref: type_ref_string(&a.ty),
        default_value,
    }
}

fn build_field_descriptor(f: &FieldSpec) -> (r: FieldDescriptor)
    ensures
        r@ == field_descriptor_of(f@),
{
    let mut args: Vec<ArgDescriptor> = Vec::new();
    let mut i: usize = 0;
    while i < f.arguments.len()
        invariant
            i <= f.arguments@.len(),
            args@.len() == i,
            forall|j: int| 0 <= j < i ==> args@[j]@ == arg_descriptor_of(f.arguments@[j]@),
        decreases f.arguments@.len() - i,
    {
        let d = build_arg_descriptor(&f.arguments[i]);
        args.push(d);
        i = i + 1;
    }
    let r = FieldDescriptor {
        name: f.name.clone(),
        description: clone_opt_string(&f.description),
        args,
        type_ref: type_ref_string(&f.return_type.ty),
        deprecation: clone_opt_string(&f.deprecation),
    };
    proof {
        assert(r@.args =~= field_descriptor_of(f@).args);
    }
    r
}

/// Compiles an interface description to its schema entry. The entry is a
/// pure function of the description: building it twice gives structurally
/// identical descriptors.
pub fn build_descriptor(s: &InterfaceSpec) -> (r: InterfaceTypeDescriptor)
    ensures
        r@ == descriptor_of(s@),
{
    let mut fields: Vec<FieldDescriptor> = Vec::new();
    let mut i: usize = 0;
    while i < s.fields.len()
        invariant
            i <= s.fields@.len(),
            fields@.len() == i,
            forall|j: int| 0 <= j < i ==> fields@[j]@ == field_descriptor_of(s.fields@[j]@),
        decreases s.fields@.len() - i,
    {
        let d = build_field_descriptor(&s.fields[i]);
        fields.push(d);
        i = i + 1;
    }
    let mut possible_types: Vec<String> = Vec::new();
    let mut i: usize = 0;
    while i < s.variants.len()
        invariant
            i <= s.variants@.len(),
            possible_types@.len() == i,
            forall|j: int| 0 <= j < i ==> possible_types@[j]@ == s.variants@[j].concrete_type_name@,
        decreases s.variants@.len() - i,
    {
        possible_types.push(s.variants[i].concrete_type_name.clone());
        i = i + 1;
    }
    let r = InterfaceTypeDescriptor {
        name: s.name.clone(),
        description: clone_opt_string(&s.description),
        fields,
        possible_types,
    };
    proof {
        assert(r@.fields =~= descriptor_of(s@).fields);
        assert(r@.possible_types =~= descriptor_of(s@).possible_types);
    }
    r
}

impl Clone for ArgDescriptor {
    /// Cloning keeps the model.
    fn clone(&self) -> (r: ArgDescriptor)
        ensures
            r@ == self@,
    {
        ArgDescriptor {
            name: self.name.clone(),
            description: clone_opt_string(&self.description),
            type_ref: self.type_ref.clone(),
            default_value: clone_opt_string(&self.default_value),
        }
    }
}

impl Clone for FieldDescriptor {
    /// Cloning keeps the model.
    fn clone(&self) -> (r: FieldDescriptor)
        ensures
            r@ == self@,
    {
        let mut args: Vec<ArgDescriptor> = Vec::new();
        let mut i: usize = 0;
        while i < self.args.len()
            invariant
                i <= self.args@.len(),
                args@.len() == i,
                forall|j: int| 0 <= j < i ==> args@[j]@ == self.args@[j]@,
            decreases self.args@.len() - i,
        {
            let d = self.args[i].clone();
            args.push(d);
            i = i + 1;
        }
        let r = FieldDescriptor {
            name: self.name.clone(),
            description: clone_opt_string(&self.description),
            args,
            type_ref: self.type_ref.clone(),
            deprecation: clone_opt_string(&self.deprecation),
        };
        proof {
            assert(r@.args =~= self@.args);
        }
        r
    }
}

impl Clone for InterfaceTypeDescriptor {
    /// Cloning keeps the model.
    fn clone(&self) -> (r: InterfaceTypeDescriptor)
        ensures
            r@ == self@,
    {
        let mut fields: Vec<FieldDescriptor> = Vec::new();
        let mut i: usize = 0;
        while i < self.fields.len()
            invariant
                i <= self.fields@.len(),
                fields@.len() == i,
                forall|j: int| 0 <= j < i ==> fields@[j]@ == self.fields@[j]@,
            decreases self.fields@.len() - i,
        {
            let d = self.fields[i].clone();
            fields.push(d);
            i = i + 1;
        }
        let mut possible_types: Vec<String> = Vec::new();
        let mut i: usize = 0;
        while i < self.possible_types.len()
            invariant
                i <= self.possible_types@.len(),
                possible_types@.len() == i,
                forall|j: int| 0 <= j < i ==> possible_types@[j]@ == self.possible_types@[j]@,
            decreases self.possible_types@.len() - i,
        {
            possible_types.push(self.possible_types[i].clone());
            i = i + 1;
        }
        let r = InterfaceTypeDescriptor {
            name: self.name.clone(),
            description: clone_opt_string(&self.description),
            fields,
            possible_types,
        };
        proof {
            assert(r@.fields =~= self@.fields);
            assert(r@.possible_types =~= self@.possible_types);
        }
        r
    }
}

/// Checks an interface description for the build-time configuration errors:
/// an empty variant set, a concrete type declared twice, a field name
/// declared twice.
pub fn validate_interface(s: &InterfaceSpec) -> (r: Result<(), BuildError>)
    ensures
        match r {
            Ok(u) => validate_of(s@) is Ok,
            Err(e) => validate_of(s@) == Err::<(), BuildErrorModel>(e@),
        },
{
    if s.variants.len() == 0 {
        return Err(BuildError::NoVariants);
    }
    let ghost vnames = variant_names(s@);
    let mut j: usize = 0;
    while j < s.variants.len()
        invariant
            j <= s.variants@.len(),
            vnames == variant_names(s@),
            vnames.len() == s.variants@.len(),
            first_duplicate(vnames) == first_duplicate_from(vnames, j as int),
        decreases s.variants@.len() - j,
    {
        let mut i: usize = 0;
        while i < j
            invariant
                i <= j < s.variants@.len(),
                vnames == variant_names(s@),
                vnames.len() == s.variants@.len(),
                first_duplicate(vnames) == first_duplicate_from(vnames, j as int),
                forall|a: int| 0 <= a < i ==> vnames[a] != vnames[j as int],
            decreases j - i,
        {
            if s.variants[i].concrete_type_name == s.variants[j].concrete_type_name {
                proof {
                    assert(vnames[i as int] == vnames[j as int]);
                    assert(name_among(vnames, vnames[j as int], j as int));
                }
                return Err(
                    BuildError::DuplicatePossibleType {
                        name: s.variants[j].concrete_type_name.clone(),
                    },
                );
            }
            i = i + 1;
        }
        proof {
            assert(!name_among(vnames, vnames[j as int], j as int));
        }
        j = j + 1;
    }
    let ghost fnames = field_names(s@);
    let mut j: usize = 0;
    while j < s.fields.len()
        invariant
            j <= s.fields@.len(),
            s.variants@.len() > 0,
            fnames == field_names(s@),
            fnames.len() == s.fields@.len(),
            first_duplicate(vnames) is None,
            vnames == variant_names(s@),
            first_duplicate(fnames) == first_duplicate_from(fnames, j as int),
        decreases s.fields@.len() - j,
    {
        let mut i: usize = 0;
        while i < j
            invariant
                i <= j < s.fields@.len(),
                s.variants@.len() > 0,
                fnames == field_names(s@),
                fnames.len() == s.fields@.len(),
                vnames == variant_names(s@),
                first_duplicate(vnames) is None,
                first_duplicate(fnames) == first_duplicate_from(fnames, j as int),
                forall|a: int| 0 <= a < i ==> fnames[a] != fnames[j as int],
            decreases j - i,
        {
            if s.fields[i].name == s.fields[j].name {
                proof {
                    assert(fnames[i as int] == fnames[j as int]);
                    assert(name_among(fnames, fnames[j as int], j as int));
                }
                return Err(BuildError::DuplicateFieldName { name: s.fields[j].name.clone() });
            }
            i = i + 1;
        }
        proof {
            assert(!name_among(fnames, fnames[j as int], j as int));
        }
        j = j + 1;
    }
    Ok(())
}

/// The registry after the "implements" edges of the first `k` variants have
/// been recorded, each together with the variant's own memoized entry, in
/// declaration order.
pub open spec fn register_variants(m: RegistryModel, s: InterfaceSpecModel, k: int) -> RegistryModel
    decreases k,
{
    if k <= 0 || k > s.variants.len() {
        m
    } else {
        let prev = register_variants(m, s, k - 1);
        let name = s.variants[k - 1].concrete_type_name;
        RegistryModel {
            entries: ensure_concrete_entry(prev.entries, name),
            implements: add_edge(
                prev.implements,
                ImplementsEdgeModel { concrete: name, interface: s.name },
            ),
        }
    }
}

/// The registry after the types of the first `k` arguments of a field have
/// contributed their memoized entries.
pub open spec fn register_arg_types(m: RegistryModel, f: FieldSpecModel, k: int) -> RegistryModel
    decreases k,
{
    if k <= 0 || k > f.arguments.len() {
        m
    } else {
        let prev = register_arg_types(m, f, k - 1);
        RegistryModel {
            entries: ensure_concrete_entry(prev.entries, f.arguments[k - 1].ty.name),
            implements: prev.implements,
        }
    }
}

/// The registry after the argument and return types of the first `k` fields
/// have contributed their memoized entries, in declaration order.
pub open spec fn register_field_types(
    m: RegistryModel,
    s: InterfaceSpecModel,
    k: int,
) -> RegistryModel
    decreases k,
{
    if k <= 0 || k > s.fields.len() {
        m
    } else {
        let prev = register_field_types(m, s, k - 1);
        let f = s.fields[k - 1];
        let after_args = register_arg_types(prev, f, f.arguments.len() as int);
        RegistryModel {
            entries: ensure_concrete_entry(after_args.entries, f.return_type.ty.name),
            implements: after_args.implements,
        }
    }
}

/// What registering an interface does: the returned descriptor or build
/// error, and the registry afterwards. A repeated registration is answered
/// from the cached entry and changes nothing.
pub open spec fn create_type_info_of(m: RegistryModel, s: InterfaceSpecModel) -> (Result<
    InterfaceDescriptorModel,
    BuildErrorModel,
>, RegistryModel) {
    match find_entry(m.entries, s.name) {
        Some(i) => match m.entries[i].info {
            TypeInfoModel::Interface(d) => (Ok(d), m),
            TypeInfoModel::Concrete => (
                Err(BuildErrorModel::NameConflict { name: s.name }),
                m,
            ),
        },
        None => match validate_of(s) {
            Err(e) => (Err(e), m),
            Ok(u) => {
                let d = descriptor_of(s);
                let m1 = RegistryModel {
                    entries: m.entries.push(
                        RegistryEntryModel { name: s.name, info: TypeInfoModel::Interface(d) },
                    ),
                    implements: m.implements,
                };
                let m2 = register_variants(m1, s, s.variants.len() as int);
                let m3 = register_field_types(m2, s, s.fields.len() as int);
                (Ok(d), m3)
            },
        },
    }
}

/// The model of the result of [`Registry::create_type_info`].
pub open spec fn build_result_model(r: Result<InterfaceTypeDescriptor, BuildError>) -> Result<
    InterfaceDescriptorModel,
    BuildErrorModel,
> {
    match r {
        Ok(d) => Ok(d@),
        Err(e) => Err(e@),
    }
}

/// `b` keeps every entry of `a`, at its position.
pub open spec fn entries_extend(a: Seq<RegistryEntryModel>, b: Seq<RegistryEntryModel>) -> bool {
    a.len() <= b.len() && forall|i: int| 0 <= i < a.len() ==> b[i] == a[i]
}

proof fn lemma_ensure_extends(entries: Seq<RegistryEntryModel>, name: Seq<char>)
    ensures
        entries_extend(entries, ensure_concrete_entry(entries, name)),
{
}

proof fn lemma_register_variants_extends(m: RegistryModel, s: InterfaceSpecModel, k: int)
    ensures
        entries_extend(m.entries, register_variants(m, s, k).entries),
    decreases k,
{
    if k <= 0 || k > s.variants.len() {
    } else {
        lemma_register_variants_extends(m, s, k - 1);
        let prev = register_variants(m, s, k - 1);
        lemma_ensure_extends(prev.entries, s.variants[k - 1].concrete_type_name);
    }
}

proof fn lemma_register_arg_types_extends(m: RegistryModel, f: FieldSpecModel, k: int)
    ensures
        entries_extend(m.entries, register_arg_types(m, f, k).entries),
    decreases k,
{
    if k <= 0 || k > f.arguments.len() {
    } else {
        lemma_register_arg_types_extends(m, f, k - 1);
        let prev = register_arg_types(m, f, k - 1);
        lemma_ensure_extends(prev.entries, f.arguments[k - 1].ty.name);
    }
}

proof fn lemma_register_field_types_extends(m: RegistryModel, s: InterfaceSpecModel, k: int)
    ensures
        entries_extend(m.entries, register_field_types(m, s, k).entries),
    decreases k,
{
    if k <= 0 || k > s.fields.len() {
    } else {
        lemma_register_field_types_extends(m, s, k - 1);
        let prev = register_field_types(m, s, k - 1);
        let f = s.fields[k - 1];
        lemma_register_arg_types_extends(prev, f, f.arguments.len() as int);
        let after_args = register_arg_types(prev, f, f.arguments.len() as int);
        lemma_ensure_extends(after_args.entries, f.return_type.ty.name);
    }
}

proof fn lemma_find_from_none(entries: Seq<RegistryEntryModel>, name: Seq<char>, j: int)
    requires
        0 <= j,
    ensures
        find_entry_from(entries, name, j) is None <==> (forall|i: int|
            j <= i < entries.len() ==> entries[i].name != name),
    decreases entries.len() - j,
{
    if j < entries.len() {
        lemma_find_from_none(entries, name, j + 1);
    }
}

proof fn lemma_find_from_first(
    entries: Seq<RegistryEntryModel>,
    name: Seq<char>,
    j: int,
    idx: int,
)
    requires
        0 <= j <= idx < entries.len(),
        entries[idx].name == name,
        forall|i: int| j <= i < idx ==> entries[i].name != name,
    ensures
        find_entry_from(entries, name, j) == Some(idx),
    decreases idx - j,
{
    if j < idx {
        lemma_find_from_first(entries, name, j + 1, idx);
    }
}

/// No two registry entries share a name.
pub open spec fn entry_names_unique(entries: Seq<RegistryEntryModel>) -> bool {
    forall|i: int, j: int|
        0 <= i < j < entries.len() ==> entries[i].name != entries[j].name
}

/// No "implements" edge repeats.
pub open spec fn edges_unique(edges: Seq<ImplementsEdgeModel>) -> bool {
    forall|i: int, j: int|
        0 <= i < j < edges.len() ==> !(edges[i].concrete == edges[j].concrete
            && edges[i].interface == edges[j].interface)
}

/// A well-formed registry: at most one entry per type name, and each
/// "implements" edge recorded at most once.
pub open spec fn registry_wf(m: RegistryModel) -> bool {
    entry_names_unique(m.entries) && edges_unique(m.implements)
}

proof fn lemma_add_edge_keeps_unique(edges: Seq<ImplementsEdgeModel>, e: ImplementsEdgeModel)
    requires
        edges_unique(edges),
    ensures
        edges_unique(add_edge(edges, e)),
{
    if !has_edge(edges, e) {
        let r = edges.push(e);
        assert forall|i: int, j: int|
            0 <= i < j < r.len() implies !(r[i].concrete == r[j].concrete && r[i].interface
            == r[j].interface) by {
            if j == edges.len() as int {
                assert(r[i] == edges[i]);
                assert(!has_edge(edges, e));
            }
        }
    }
}

proof fn lemma_ensure_entry_keeps_unique(entries: Seq<RegistryEntryModel>, name: Seq<char>)
    requires
        entry_names_unique(entries),
    ensures
        entry_names_unique(ensure_concrete_entry(entries, name)),
{
    if find_entry(entries, name) is None {
        lemma_find_from_none(entries, name, 0);
        let r = entries.push(RegistryEntryModel { name: name, info: TypeInfoModel::Concrete });
        assert forall|i: int, j: int| 0 <= i < j < r.len() implies r[i].name != r[j].name by {
            if j == entries.len() as int {
                assert(r[i] == entries[i]);
            }
        }
    }
}

proof fn lemma_register_variants_keeps_wf(m: RegistryModel, s: InterfaceSpecModel, k: int)
    requires
        registry_wf(m),
    ensures
        registry_wf(register_variants(m, s, k)),
    decreases k,
{
    if k <= 0 || k > s.variants.len() {
    } else {
        lemma_register_variants_keeps_wf(m, s, k - 1);
        let prev = register_variants(m, s, k - 1);
        let name = s.variants[k - 1].concrete_type_name;
        lemma_ensure_entry_keeps_unique(prev.entries, name);
        lemma_add_edge_keeps_unique(
            prev.implements,
            ImplementsEdgeModel { concrete: name, interface: s.name },
        );
    }
}

proof fn lemma_register_arg_types_keeps_wf(m: RegistryModel, f: FieldSpecModel, k: int)
    requires
        registry_wf(m),
    ensures
        registry_wf(register_arg_types(m, f, k)),
    decreases k,
{
    if k <= 0 || k > f.arguments.len() {
    } else {
        lemma_register_arg_types_keeps_wf(m, f, k - 1);
        let prev = register_arg_types(m, f, k - 1);
        lemma_ensure_entry_keeps_unique(prev.entries, f.arguments[k - 1].ty.name);
    }
}

proof fn lemma_register_field_types_keeps_wf(m: RegistryModel, s: InterfaceSpecModel, k: int)
    requires
        registry_wf(m),
    ensures
        registry_wf(register_field_types(m, s, k)),
    decreases k,
{
    if k <= 0 || k > s.fields.len() {
    } else {
        lemma_register_field_types_keeps_wf(m, s, k - 1);
        let prev = register_field_types(m, s, k - 1);
        let f = s.fields[k - 1];
        lemma_register_arg_types_keeps_wf(prev, f, f.arguments.len() as int);
        let after_args = register_arg_types(prev, f, f.arguments.len() as int);
        lemma_ensure_entry_keeps_unique(after_args.entries, f.return_type.ty.name);
    }
}

/// Schema building keeps the registry well formed: registration writes at
/// most one entry per type name and records each "implements" edge at most
/// once, however an interface's registration comes about.
pub proof fn lemma_create_type_info_preserves_wf(m: RegistryModel, s: InterfaceSpecModel)
    requires
        registry_wf(m),
    ensures
        registry_wf(create_type_info_of(m, s).1),
{
    if find_entry(m.entries, s.name) is None && validate_of(s) is Ok {
        let d = descriptor_of(s);
        let m1 = RegistryModel {
            entries: m.entries.push(
                RegistryEntryModel { name: s.name, info: TypeInfoModel::Interface(d) },
            ),
            implements: m.implements,
        };
        lemma_find_from_none(m.entries, s.name, 0);
        assert forall|i: int, j: int|
            0 <= i < j < m1.entries.len() implies m1.entries[i].name != m1.entries[j].name by {
            if j == m.entries.len() as int {
                assert(m1.entries[i] == m.entries[i]);
            }
        }
        lemma_register_variants_keeps_wf(m1, s, s.variants.len() as int);
        let m2 = register_variants(m1, s, s.variants.len() as int);
        lemma_register_field_types_keeps_wf(m2, s, s.fields.len() as int);
    }
}

/// When registration succeeds: against a registry holding no entry under
/// the interface's name, registration returns a descriptor exactly when
/// the description is well formed, and that descriptor is the compiled
/// schema entry of the description.
pub proof fn lemma_create_succeeds_iff_wf(m: RegistryModel, s: InterfaceSpecModel)
    requires
        find_entry(m.entries, s.name) is None,
    ensures
        create_type_info_of(m, s).0 is Ok <==> wf_interface(s),
        create_type_info_of(m, s).0 is Ok ==> create_type_info_of(m, s).0->Ok_0 == descriptor_of(
            s,
        ),
{
    lemma_validate_ok_iff_wf(s);
}

/// Registering an interface is idempotent: for every registry and every
/// description, a second registration returns the same outcome — in the
/// successful case a structurally identical descriptor — and leaves the
/// registry, its entries and its "implements" edges, exactly as the first
/// registration left them.
pub proof fn lemma_create_type_info_idempotent(m: RegistryModel, s: InterfaceSpecModel)
    ensures
        create_type_info_of(create_type_info_of(m, s).1, s).0 == create_type_info_of(m, s).0,
        create_type_info_of(create_type_info_of(m, s).1, s).1 == create_type_info_of(m, s).1,
{
    let m3 = create_type_info_of(m, s).1;
    if find_entry(m.entries, s.name) is None && validate_of(s) is Ok {
        let d = descriptor_of(s);
        let m1 = RegistryModel {
            entries: m.entries.push(
                RegistryEntryModel { name: s.name, info: TypeInfoModel::Interface(d) },
            ),
            implements: m.implements,
        };
        let m2 = register_variants(m1, s, s.variants.len() as int);
        lemma_register_variants_extends(m1, s, s.variants.len() as int);
        lemma_register_field_types_extends(m2, s, s.fields.len() as int);
        let idx = m.entries.len() as int;
        assert(m1.entries[idx].name == s.name);
        assert(m2.entries[idx] == m1.entries[idx]);
        assert(m3.entries[idx] == m1.entries[idx]);
        lemma_find_from_none(m.entries, s.name, 0);
        assert forall|i2: int| 0 <= i2 < idx implies m3.entries[i2].name != s.name by {
            assert(m1.entries[i2] == m.entries[i2]);
            assert(m2.entries[i2] == m1.entries[i2]);
            assert(m3.entries[i2] == m2.entries[i2]);
        }
        lemma_find_from_first(m3.entries, s.name, 0, idx);
        assert(m3.entries[idx].info == TypeInfoModel::Interface(d));
    }
}

impl Registry {
    /// An empty registry.
    pub fn new() -> (r: Registry)
        ensures
            r@.entries.len() == 0,
            r@.implements.len() == 0,
    {
        Registry { entries: Vec::new(), implements: Vec::new() }
    }

    fn find_entry_index(&self, name: &String) -> (r: Option<usize>)
        ensures
            match r {
                Some(i) => i < self.entries@.len() && find_entry(self@.entries, name@) == Some(
                    i as int,
                ),
                None => find_entry(self@.entries, name@) is None,
            },
    {
        let mut i: usize = 0;
        while i < self.entries.len()
            invariant
                i <= self.entries@.len(),
                find_entry(self@.entries, name@) == find_entry_from(self@.entries, name@, i as int),
            decreases self.entries@.len() - i,
        {
            if self.entries[i].name == *name {
                return Some(i);
            }
            i = i + 1;
        }
        None
    }

    /// Records that a concrete type satisfies an interface. Recording the
    /// same edge twice is a no-op: the edge set never holds duplicates.
    pub fn add_implements(&mut self, concrete: &String, interface: &String)
        ensures
            final(self)@.entries == old(self)@.entries,
            final(self)@.implements == add_edge(
                old(self)@.implements,
                ImplementsEdgeModel { concrete: concrete@, interface: interface@ },
            ),
    {
        let ghost e = ImplementsEdgeModel { concrete: concrete@, interface: interface@ };
        let mut i: usize = 0;
        while i < self.implements.len()
            invariant
                i <= self.implements@.len(),
                *self == *old(self),
                e == (ImplementsEdgeModel { concrete: concrete@, interface: interface@ }),
                forall|j: int|
                    0 <= j < i ==> !(self@.implements[j].concrete == e.concrete
                        && self@.implements[j].interface == e.interface),
            decreases self.implements@.len() - i,
        {
            if self.implements[i].concrete == *concrete && self.implements[i].interface
                == *interface {
                proof {
                    assert(self@.implements[i as int].concrete == e.concrete);
                    assert(has_edge(old(self)@.implements, e));
                }
                return;
            }
            i = i + 1;
        }
        proof {
            assert(!has_edge(self@.implements, e));
        }
        self.implements.push(ImplementsEdge { concrete: concrete.clone(), interface: interface.clone() });
        proof {
            assert(final(self)@.implements =~= old(self)@.implements.push(e));
            assert(final(self)@.entries =~= old(self)@.entries);
        }
    }

    /// Ensures the registry holds an entry under the given concrete type
    /// name, standing for the type's own schema contribution, which is
    /// memoized: nothing changes when an entry with that name exists.
    pub fn register_concrete(&mut self, name: &String)
        ensures
            final(self)@.implements == old(self)@.implements,
            final(self)@.entries == ensure_concrete_entry(old(self)@.entries, name@),
    {
        let found = self.find_entry_index(name);
        match found {
            Some(i) => {},
            None => {
                self.entries.push(RegistryEntry { name: name.clone(), info: TypeInfo::Concrete });
                proof {
                    assert(final(self)@.entries =~= old(self)@.entries.push(
                        RegistryEntryModel { name: name@, info: TypeInfoModel::Concrete },
                    ));
                    assert(final(self)@.implements =~= old(self)@.implements);
                }
            },
        }
    }

    /// Whether the registry records that the concrete type satisfies the
    /// interface. Read by collaborators during abstract-type resolution,
    /// after the edges were written at schema-build time.
    pub fn implements_interface(&self, concrete: &String, interface: &String) -> (r: bool)
        ensures
            r == has_edge(
                self@.implements,
                ImplementsEdgeModel { concrete: concrete@, interface: interface@ },
            ),
    {
        let ghost e = ImplementsEdgeModel { concrete: concrete@, interface: interface@ };
        let mut i: usize = 0;
        while i < self.implements.len()
            invariant
                i <= self.implements@.len(),
                e == (ImplementsEdgeModel { concrete: concrete@, interface: interface@ }),
                forall|j: int|
                    0 <= j < i ==> !(self@.implements[j].concrete == e.concrete
                        && self@.implements[j].interface == e.interface),
            decreases self.implements@.len() - i,
        {
            if self.implements[i].concrete == *concrete && self.implements[i].interface
                == *interface {
                proof {
                    assert(self@.implements[i as int].concrete == e.concrete);
                }
                return true;
            }
            i = i + 1;
        }
        false
    }

    /// Produces the schema entry for an interface and records the
    /// "implements" edges of its variants, exactly once: a repeated call is
    /// answered from the cached entry, changes no entry and no edge, and
    /// returns a structurally identical descriptor. A malformed description
    /// is rejected, and a name already taken by a non-interface entry is a
    /// conflict; neither changes the registry.
    pub fn create_type_info(&mut self, s: &InterfaceSpec) -> (r: Result<
        InterfaceTypeDescriptor,
        BuildError,
    >)
        ensures
            final(self)@ == create_type_info_of(old(self)@, s@).1,
            build_result_model(r) == create_type_info_of(old(self)@, s@).0,
    {
        let found = self.find_entry_index(&s.name);
        match found {
            Some(i) => match &self.entries[i].info {
                TypeInfo::Interface(d) => Ok(d.clone()),
                TypeInfo::Concrete => Err(BuildError::NameConflict { name: s.name.clone() }),
            },
            None => {
                match validate_interface(s) {
                    Err(e) => Err(e),
                    Ok(u) => {
                        let d = build_descriptor(s);
                        let stored = d.clone();
                        self.entries.push(
                            RegistryEntry { name: s.name.clone(), info: TypeInfo::Interface(stored) },
                        );
                        let ghost m1 = self@;
                        proof {
                            assert(m1.entries =~= old(self)@.entries.push(
                                RegistryEntryModel {
                                    name: s@.name,
                                    info: TypeInfoModel::Interface(descriptor_of(s@)),
                                },
                            ));
                            assert(m1.implements =~= old(self)@.implements);
                        }
                        let mut i: usize = 0;
                        while i < s.variants.len()
                            invariant
                                i <= s.variants@.len(),
                                self@ == register_variants(m1, s@, i as int),
                            decreases s.variants@.len() - i,
                        {
                            self.register_concrete(&s.variants[i].concrete_type_name);
                            self.add_implements(&s.variants[i].concrete_type_name, &s.name);
                            proof {
                                assert(s@.variants[i as int].concrete_type_name
                                    == s.variants@[i as int].concrete_type_name@);
                                assert(self@ == register_variants(m1, s@, i + 1));
                            }
                            i = i + 1;
                        }
                        let ghost m2 = self@;
                        let mut i: usize = 0;
                        while i < s.fields.len()
                            invariant
                                i <= s.fields@.len(),
                                m2 == register_variants(m1, s@, s@.variants.len() as int),
                                self@ == register_field_types(m2, s@, i as int),
                            decreases s.fields@.len() - i,
                        {
                            let ghost before = self@;
                            let f = &s.fields[i];
                            let mut k: usize = 0;
                            while k < f.arguments.len()
                                invariant
                                    k <= f.arguments@.len(),
                                    *f == s.fields@[i as int],
                                    i < s.fields@.len(),
                                    self@ == register_arg_types(before, s@.fields[i as int], k as int),
                                decreases f.arguments@.len() - k,
                            {
                                self.register_concrete(&f.arguments[k].ty.name);
                                proof {
                                    assert(s@.fields[i as int].arguments[k as int]
                                        == f.arguments@[k as int]@);
                                    assert(self@ == register_arg_types(
                                        before,
                                        s@.fields[i as int],
                                        k + 1,
                                    ));
                                }
                                k = k + 1;
                            }
                            self.register_concrete(&f.return_type.ty.name);
                            proof {
                                assert(self@ == register_field_types(m2, s@, i + 1));
                            }
                            i = i + 1;
                        }
                        Ok(d)
                    },
                }
            },
        }
    }
}

} // verus!
