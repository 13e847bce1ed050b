//! The field dispatcher: matches an incoming field request against the
//! interface's field specifications, binds arguments — applying declared
//! literal defaults for omitted ones — and routes the request to the method
//! of the currently active variant, attaching the request's source position
//! to any failure.

use vstd::prelude::*;
use crate::decl::ArgSpec;
use crate::decl::ArgSpecModel;
use crate::decl::InterfaceSpec;
use crate::decl::InterfaceSpecModel;
use crate::decl::effective_method_name;
use crate::decl::find_field;
use crate::decl::find_field_from;
use crate::literal::Literal;
use crate::literal::LiteralModel;
use crate::variant::VariantValue;

verus! {

/// A source position: the line and column a field request came from.
#[derive(Debug, Clone, Copy, PartialEq, Eq, Structural)]
pub struct Position {
    pub line: u64,
    pub column: u64,
}

/// One supplied argument of a field request: a name and a literal value.
#[derive(Debug)]
pub struct Argument {
    pub name: String,
    pub value: Literal,
}

/// The mathematical model of an [`Argument`].
pub struct ArgumentModel {
    pub name: Seq<char>,
    pub value: LiteralModel,
}

impl View for Argument {
    type V = ArgumentModel;

    open spec fn view(&self) -> ArgumentModel {
        ArgumentModel { name: self.name@, value: self.value@ }
    }
}

/// A nested selection, handed through to the external output-value
/// resolution protocol. The dispatcher never looks inside it.
#[derive(Debug)]
pub struct SelectionSet {
    pub fields: Vec<FieldRequest>,
}

/// One incoming field request: the requested field name, the supplied
/// argument literals, the nested selection for composite results, and the
/// source position used to attribute failures.
#[derive(Debug)]
pub struct FieldRequest {
    pub name: String,
    pub arguments: Vec<Argument>,
    pub selection: Option<SelectionSet>,
    pub position: Position,
}

/// The mathematical model of a [`FieldRequest`]: its name, supplied
/// arguments and position. The nested selection is opaque to the model; it
/// is only ever handed through by reference.
pub struct FieldRequestModel {
    pub name: Seq<char>,
    pub arguments: Seq<ArgumentModel>,
    pub position: Position,
}

impl View for FieldRequest {
    type V = FieldRequestModel;

    open spec fn view(&self) -> FieldRequestModel {
        FieldRequestModel {
            name: self.name@,
            arguments: Seq::new(self.arguments@.len(), |i: int| self.arguments@[i]@),
            position: self.position,
        }
    }
}

/// One bound argument, ready to hand to the active variant's method.
#[derive(Debug, PartialEq, Eq)]
pub struct BoundArgument {
    pub name: String,
    pub value: Literal,
}

/// The mathematical model of a [`BoundArgument`].
pub struct BoundArgumentModel {
    pub name: Seq<char>,
    pub value: LiteralModel,
}

impl View for BoundArgument {
    type V = BoundArgumentModel;

    open spec fn view(&self) -> BoundArgumentModel {
        BoundArgumentModel { name: self.name@, value: self.value@ }
    }
}

/// The routing decision for a matched field: which variant is active, the
/// method to invoke on it, whether its return type is fallible, and the
/// fully bound arguments.
#[derive(Debug, PartialEq, Eq)]
pub struct MethodCall {
    pub variant_tag: usize,
    pub concrete_type_name: String,
    pub method_name: String,
    pub fallible: bool,
    pub arguments: Vec<BoundArgument>,
}

/// The mathematical model of a [`MethodCall`].
pub struct MethodCallModel {
    pub variant_tag: int,
    pub concrete_type_name: Seq<char>,
    pub method_name: Seq<char>,
    pub fallible: bool,
    pub arguments: Seq<BoundArgumentModel>,
}

impl View for MethodCall {
    type V = MethodCallModel;

    open spec fn view(&self) -> MethodCallModel {
        MethodCallModel {
            variant_tag: self.variant_tag as int,
            concrete_type_name: self.concrete_type_name@,
            method_name: self.method_name@,
            fallible: self.fallible,
            arguments: Seq::new(self.arguments@.len(), |i: int| self.arguments@[i]@),
        }
    }
}

/// A field resolution error, carrying the source position of the request.
#[derive(Debug, PartialEq, Eq)]
pub enum FieldError {
    /// The requested field name is absent from the interface's
    /// specification.
    FieldNotFound { field_name: String, interface_name: String, position: Position },
    /// A declared argument was omitted, has no default, and its type does
    /// not permit absence.
    ArgumentBinding { argument_name: String, position: Position },
    /// The invoked method, or the output-value resolution of its result,
    /// signalled failure; the message is propagated uninterpreted.
    Resolution { message: String, position: Position },
}

/// The mathematical model of a [`FieldError`].
pub enum FieldErrorModel {
    FieldNotFound { field_name: Seq<char>, interface_name: Seq<char>, position: Position },
    ArgumentBinding { argument_name: Seq<char>, position: Position },
    Resolution { message: Seq<char>, position: Position },
}

impl View for FieldError {
    type V = FieldErrorModel;

    open spec fn view(&self) -> FieldErrorModel {
        match self {
            FieldError::FieldNotFound { field_name, interface_name, position } => {
                FieldErrorModel::FieldNotFound {
                    field_name: field_name@,
                    interface_name: interface_name@,
                    position: *position,
                }
            },
            FieldError::ArgumentBinding { argument_name, position } => {
                FieldErrorModel::ArgumentBinding {
                    argument_name: argument_name@,
                    position: *position,
                }
            },
            FieldError::Resolution { message, position } => FieldErrorModel::Resolution {
                message: message@,
                position: *position,
            },
        }
    }
}

/// One entry of a resolved selection: a response key and its serialized
/// value.
#[derive(Debug, PartialEq, Eq)]
pub struct ResultEntry {
    pub name: String,
    pub value: Literal,
}

/// The mathematical model of a [`ResultEntry`].
pub struct ResultEntryModel {
    pub name: Seq<char>,
    pub value: LiteralModel,
}

impl View for ResultEntry {
    type V = ResultEntryModel;

    open spec fn view(&self) -> ResultEntryModel {
        ResultEntryModel { name: self.name@, value: self.value@ }
    }
}

impl Clone for ResultEntry {
    /// Cloning keeps the model.
    fn clone(&self) -> (r: ResultEntry)
        ensures
            r@ == self@,
    {
        ResultEntry { name: self.name.clone(), value: self.value.clone() }
    }
}

/// The capability each concrete object representation provides: the field
/// methods named in the interface's specification, and resolution of a
/// selection set against the object. Implementations live with the caller;
/// nothing is assumed about what they return.
pub trait ObjectBehavior {
    /// Invokes the method named in the call, with its bound arguments, on
    /// this concrete object. The method may fail with a message.
    fn invoke_method(&self, call: &MethodCall) -> Result<Literal, String>;

    /// Resolves a selection set against this object, yielding the resolved
    /// entries for the result, or a failure message.
    fn resolve_selection(&self, selection: &SelectionSet) -> Result<Vec<ResultEntry>, String>;
}

/// The external output-value resolution protocol: turns a method's resolved
/// value, together with the request's nested selection, into the serialized
/// result for the field.
pub trait OutputResolver {
    /// Serializes a resolved value against an optional nested selection.
    fn resolve(&self, value: &Literal, selection: &Option<SelectionSet>) -> Result<Literal, String>;
}

/// The supplied literal for an argument name: the first occurrence in the
/// request, scanning from `j`, if any.
pub open spec fn lookup_supplied_from(
    args: Seq<ArgumentModel>,
    name: Seq<char>,
    j: int,
) -> Option<LiteralModel>
    decreases args.len() - j,
{
    if j < 0 || j >= args.len() {
        None
    } else if args[j].name == name {
        Some(args[j].value)
    } else {
        lookup_supplied_from(args, name, j + 1)
    }
}

/// The supplied literal for an argument name, if any.
pub open spec fn lookup_supplied(args: Seq<ArgumentModel>, name: Seq<char>) -> Option<
    LiteralModel,
> {
    lookup_supplied_from(args, name, 0)
}

/// What one declared argument binds to: the supplied literal when present;
/// else the declared default; else the null literal when the argument's
/// type permits absence; else nothing — a binding error.
pub open spec fn bind_argument(a: ArgSpecModel, supplied: Seq<ArgumentModel>) -> Option<
    LiteralModel,
> {
    match lookup_supplied(supplied, a.name) {
        Some(v) => Some(v),
        None => match a.default_value {
            Some(d) => Some(d),
            None => if a.ty.nullable {
                Some(LiteralModel::Null)
            } else {
                None
            },
        },
    }
}

/// The bound arguments for the first `k` declared arguments, in declaration
/// order, or the name of the first declared argument that cannot bind.
pub open spec fn bind_arguments_prefix(
    specs: Seq<ArgSpecModel>,
    supplied: Seq<ArgumentModel>,
    k: int,
) -> Result<Seq<BoundArgumentModel>, Seq<char>>
    decreases k,
{
    if k <= 0 || k > specs.len() {
        Ok(Seq::empty())
    } else {
        match bind_arguments_prefix(specs, supplied, k - 1) {
            Err(n) => Err(n),
            Ok(bs) => match bind_argument(specs[k - 1], supplied) {
                Some(v) => Ok(bs.push(BoundArgumentModel { name: specs[k - 1].name, value: v })),
                None => Err(specs[k - 1].name),
            },
        }
    }
}

/// The bound arguments for all declared arguments, or the name of the first
/// declared argument that cannot bind.
pub open spec fn bind_arguments_of(
    specs: Seq<ArgSpecModel>,
    supplied: Seq<ArgumentModel>,
) -> Result<Seq<BoundArgumentModel>, Seq<char>> {
    bind_arguments_prefix(specs, supplied, specs.len() as int)
}

/// The routing decision for one field request against the variant at `tag`:
/// the method call to make on the active variant, or the error. The request
/// is matched against the field list in declaration order; an absent name
/// is a [`FieldErrorModel::FieldNotFound`] carrying exactly the requested
/// name and the interface's name.
pub open spec fn dispatch_of(s: InterfaceSpecModel, tag: int, req: FieldRequestModel) -> Result<
    MethodCallModel,
    FieldErrorModel,
> {
    match find_field(s, req.name) {
        None => Err(
            FieldErrorModel::FieldNotFound {
                field_name: req.name,
                interface_name: s.name,
                position: req.position,
            },
        ),
        Some(i) => match bind_arguments_of(s.fields[i].arguments, req.arguments) {
            Err(n) => Err(
                FieldErrorModel::ArgumentBinding { argument_name: n, position: req.position },
            ),
            Ok(bs) => Ok(
                MethodCallModel {
                    variant_tag: tag,
                    concrete_type_name: s.variants[tag].concrete_type_name,
                    method_name: effective_method_name(s.fields[i]),
                    fallible: s.fields[i].return_type.fallible,
                    arguments: bs,
                },
            ),
        },
    }
}

/// Dispatching a field name absent from the specification yields a
/// field-not-found error carrying exactly the requested name and the
/// interface's name, at the request's position, whatever variant is active.
pub proof fn lemma_absent_field_not_found(s: InterfaceSpecModel, tag: int, req: FieldRequestModel)
    requires
        find_field(s, req.name) is None,
    ensures
        dispatch_of(s, tag, req) == Err::<MethodCallModel, FieldErrorModel>(
            FieldErrorModel::FieldNotFound {
                field_name: req.name,
                interface_name: s.name,
                position: req.position,
            },
        ),
{
}

/// Dispatching a field name present in the specification routes to the
/// currently active variant only: when binding succeeds, the method call
/// targets the variant at `tag` — never another — and names the matched
/// field's method with its fully bound arguments.
pub proof fn lemma_present_field_routes_to_active_variant(
    s: InterfaceSpecModel,
    tag: int,
    req: FieldRequestModel,
)
    requires
        find_field(s, req.name) is Some,
        dispatch_of(s, tag, req) is Ok,
    ensures
        dispatch_of(s, tag, req)->Ok_0.variant_tag == tag,
        dispatch_of(s, tag, req)->Ok_0.concrete_type_name == s.variants[tag].concrete_type_name,
        dispatch_of(s, tag, req)->Ok_0.method_name == effective_method_name(
            s.fields[find_field(s, req.name)->Some_0],
        ),
        Ok::<Seq<BoundArgumentModel>, Seq<char>>(dispatch_of(s, tag, req)->Ok_0.arguments)
            == bind_arguments_of(s.fields[find_field(s, req.name)->Some_0].arguments, req.arguments),
{
}

/// What an omitted argument binds to: its declared default when one exists;
/// null when it has no default but its type permits absence; nothing — a
/// binding error — when it has no default and its type does not permit
/// absence.
pub proof fn lemma_omitted_argument_binding(a: ArgSpecModel, supplied: Seq<ArgumentModel>)
    requires
        lookup_supplied(supplied, a.name) is None,
    ensures
        a.default_value is Some ==> bind_argument(a, supplied) == a.default_value,
        a.default_value is None && a.ty.nullable ==> bind_argument(a, supplied) == Some(
            LiteralModel::Null,
        ),
        a.default_value is None && !a.ty.nullable ==> bind_argument(a, supplied) is None,
{
}

proof fn lemma_bind_prefix_err_persists(
    specs: Seq<ArgSpecModel>,
    supplied: Seq<ArgumentModel>,
    k: int,
    k2: int,
)
    requires
        0 <= k <= k2 <= specs.len(),
        bind_arguments_prefix(specs, supplied, k) is Err,
    ensures
        bind_arguments_prefix(specs, supplied, k2) == bind_arguments_prefix(specs, supplied, k),
    decreases k2 - k,
{
    if k < k2 {
        lemma_bind_prefix_err_persists(specs, supplied, k, k2 - 1);
    }
}

fn lookup_supplied_value<'a>(args: &'a Vec<Argument>, name: &String) -> (r: Option<&'a Literal>)
    ensures
        match r {
            Some(v) => lookup_supplied(
                Seq::new(args@.len(), |i: int| args@[i]@),
                name@,
            ) == Some(v@),
            None => lookup_supplied(Seq::new(args@.len(), |i: int| args@[i]@), name@) is None,
        },
{
    let ghost m = Seq::new(args@.len(), |i: int| args@[i]@);
    let mut i: usize = 0;
    while i < args.len()
        invariant
            i <= args@.len(),
            m == Seq::new(args@.len(), |k: int| args@[k]@),
            lookup_supplied(m, name@) == lookup_supplied_from(m, name@, i as int),
        decreases args@.len() - i,
    {
        if args[i].name == *name {
            return Some(&args[i].value);
        }
        i = i + 1;
    }
    None
}

/// Binds the declared arguments of a field against the supplied arguments
/// of a request: each declared argument in order takes the supplied value,
/// or its declared default when omitted, or null when its type permits
/// absence; otherwise binding fails with that argument's name.
pub fn bind_arguments(specs: &Vec<ArgSpec>, supplied: &Vec<Argument>) -> (r: Result<
    Vec<BoundArgument>,
    String,
>)
    ensures
        match r {
            Ok(bs) => bind_arguments_of(
                Seq::new(specs@.len(), |i: int| specs@[i]@),
                Seq::new(supplied@.len(), |i: int| supplied@[i]@),
            ) == Ok::<Seq<BoundArgumentModel>, Seq<char>>(
                Seq::new(bs@.len(), |i: int| bs@[i]@),
            ),
            Err(n) => bind_arguments_of(
                Seq::new(specs@.len(), |i: int| specs@[i]@),
                Seq::new(supplied@.len(), |i: int| supplied@[i]@),
            ) == Err::<Seq<BoundArgumentModel>, Seq<char>>(n@),
        },
{
    let ghost sm = Seq::new(specs@.len(), |i: int| specs@[i]@);
    let ghost am = Seq::new(supplied@.len(), |i: int| supplied@[i]@);
    let mut bound: Vec<BoundArgument> = Vec::new();
    proof {
        assert(Seq::new(bound@.len(), |k: int| bound@[k]@) =~= Seq::<BoundArgumentModel>::empty());
    }
    let mut i: usize = 0;
    while i < specs.len()
        invariant
            i <= specs@.len(),
            sm == Seq::new(specs@.len(), |k: int| specs@[k]@),
            am == Seq::new(supplied@.len(), |k: int| supplied@[k]@),
            bind_arguments_prefix(sm, am, i as int) == Ok::<Seq<BoundArgumentModel>, Seq<char>>(
                Seq::new(bound@.len(), |k: int| bound@[k]@),
            ),
            bound@.len() == i,
        decreases specs@.len() - i,
    {
        let a = &specs[i];
        proof {
            assert(sm[i as int] == specs@[i as int]@);
        }
        let value = match lookup_supplied_value(supplied, &a.name) {
            Some(v) => v.clone(),
            None => match &a.default_value {
                Some(d) => d.clone(),
                None => {
                    if a.ty.nullable {
                        Literal::Null
                    } else {
                        proof {
                            assert(bind_argument(sm[i as int], am) is None);
                            assert(bind_arguments_prefix(sm, am, i + 1) == Err::<
                                Seq<BoundArgumentModel>,
                                Seq<char>,
                            >(sm[i as int].name));
                            lemma_bind_prefix_err_persists(sm, am, i + 1, sm.len() as int);
                        }
                        return Err(a.name.clone());
                    }
                },
            },
        };
        proof {
            assert(bind_argument(sm[i as int], am) == Some(value@));
        }
        let ghost prev = Seq::new(bound@.len(), |k: int| bound@[k]@);
        bound.push(BoundArgument { name: a.name.clone(), value });
        proof {
            assert(Seq::new(bound@.len(), |k: int| bound@[k]@) =~= prev.push(
                BoundArgumentModel {
                    name: sm[i as int].name,
                    value: bind_argument(sm[i as int], am)->Some_0,
                },
            ));
        }
        i = i + 1;
    }
    Ok(bound)
}

/// Routes a field request against a variant value: scans the field list in
/// declaration order for the requested name, binds the matched field's
/// arguments, and produces the method call to make on the currently active
/// variant — never on any other. An absent field name yields
/// [`FieldError::FieldNotFound`] carrying exactly the requested name and
/// the interface's name.
pub fn dispatch<O>(ispec: &InterfaceSpec, value: &VariantValue<O>, req: &FieldRequest) -> (r:
    Result<MethodCall, FieldError>)
    requires
        value.wf(ispec@),
    ensures
        match r {
            Ok(c) => dispatch_of(ispec@, value.tag as int, req@) == Ok::<
                MethodCallModel,
                FieldErrorModel,
            >(c@),
            Err(e) => dispatch_of(ispec@, value.tag as int, req@) == Err::<
                MethodCallModel,
                FieldErrorModel,
            >(e@),
        },
        r is Ok ==> r->Ok_0.variant_tag == value.tag,
{
    let mut i: usize = 0;
    while i < ispec.fields.len()
        invariant
            i <= ispec.fields@.len(),
            value.wf(ispec@),
            find_field(ispec@, req@.name) == find_field_from(ispec@, req@.name, i as int),
        decreases ispec.fields@.len() - i,
    {
        if ispec.fields[i].name == req.name {
            match bind_arguments(&ispec.fields[i].arguments, &req.arguments) {
                Err(n) => {
                    return Err(
                        FieldError::ArgumentBinding { argument_name: n, position: req.position },
                    );
                },
                Ok(args) => {
                    let method_name = match &ispec.fields[i].method_name {
                        Some(m) => m.clone(),
                        None => ispec.fields[i].name.clone(),
                    };
                    let c = MethodCall {
                        variant_tag: value.tag,
                        concrete_type_name: ispec.variants[value.tag].concrete_type_name.clone(),
                        method_name,
                        fallible: ispec.fields[i].return_type.fallible,
                        arguments: args,
                    };
                    proof {
                        assert(ispec@.fields[i as int].arguments =~= Seq::new(
                            ispec.fields@[i as int].arguments@.len(),
                            |k: int| ispec.fields@[i as int].arguments@[k]@,
                        ));
                        assert(req@.arguments =~= Seq::new(
                            req.arguments@.len(),
                            |k: int| req.arguments@[k]@,
                        ));
                        assert(dispatch_of(ispec@, value.tag as int, req@) == Ok::<
                            MethodCallModel,
                            FieldErrorModel,
                        >(c@));
                    }
                    return Ok(c);
                },
            }
        }
        i = i + 1;
    }
    Err(
        FieldError::FieldNotFound {
            field_name: req.name.clone(),
            interface_name: ispec.name.clone(),
            position: req.position,
        },
    )
}

/// What the dispatcher does with the outcome of a method invocation or of
/// output-value resolution: a resolved value is handed on unchanged; a
/// failure is attached to the request's source position and propagated
/// uninterpreted.
pub fn attach_position(outcome: Result<Literal, String>, position: Position) -> (r: Result<
    Literal,
    FieldError,
>)
    ensures
        match outcome {
            Ok(v) => r == Ok::<Literal, FieldError>(v),
            Err(m) => r == Err::<Literal, FieldError>(
                FieldError::Resolution { message: m, position },
            ),
        },
{
    match outcome {
        Ok(v) => Ok(v),
        Err(message) => Err(FieldError::Resolution { message, position }),
    }
}

/// Resolves one field request against a variant value: routes it with
/// [`dispatch`], invokes the matched method on the currently active
/// variant, and hands the outcome to the output-value resolution protocol.
/// Routing errors are returned exactly as [`dispatch_of`] gives them; a
/// failure of the invoked method or of output resolution is returned as a
/// resolution error carrying the request's source position.
pub fn resolve_field<O: ObjectBehavior, P: OutputResolver>(
    ispec: &InterfaceSpec,
    value: &VariantValue<O>,
    req: &FieldRequest,
    output: &P,
) -> (r: Result<Literal, FieldError>)
    requires
        value.wf(ispec@),
    ensures
        match dispatch_of(ispec@, value.tag as int, req@) {
            Err(e) => r is Err && r->Err_0@ == e,
            Ok(c) => r is Ok || (r->Err_0@ matches FieldErrorModel::Resolution {
                message,
                position,
            } && position == req@.position),
        },
{
    let call = match dispatch(ispec, value, req) {
        Err(e) => {
            return Err(e);
        },
        Ok(c) => c,
    };
    let resolved = match attach_position(value.object.invoke_method(&call), req.position) {
        Ok(v) => v,
        Err(e) => {
            return Err(e);
        },
    };
    attach_position(output.resolve(&resolved, &req.selection), req.position)
}

} // verus!

