//! End-to-end tests of interface dispatch: the scenario of an interface
//! `Node` with variants `User` and `Post`, field routing, argument binding
//! with defaults, and inline-fragment narrowing.

use graphql_interface::decl::ArgSpec;
use graphql_interface::decl::FieldSpec;
use graphql_interface::decl::InterfaceSpec;
use graphql_interface::decl::ReturnType;
use graphql_interface::decl::TypeRef;
use graphql_interface::decl::VariantSpec;
use graphql_interface::dispatch::dispatch;
use graphql_interface::dispatch::resolve_field;
use graphql_interface::dispatch::Argument;
use graphql_interface::dispatch::FieldError;
use graphql_interface::dispatch::FieldRequest;
use graphql_interface::dispatch::MethodCall;
use graphql_interface::dispatch::ObjectBehavior;
use graphql_interface::dispatch::OutputResolver;
use graphql_interface::dispatch::Position;
use graphql_interface::dispatch::ResultEntry;
use graphql_interface::dispatch::SelectionSet;
use graphql_interface::fragment::append_entries;
use graphql_interface::fragment::resolve_inline_fragment;
use graphql_interface::fragment::FragmentError;
use graphql_interface::fragment::FragmentOutcome;
use graphql_interface::literal::Literal;
use graphql_interface::variant::VariantValue;

/// A concrete object that reports which object and method were invoked.
struct Probe {
    label: &'static str,
}

impl ObjectBehavior for Probe {
    fn invoke_method(&self, call: &MethodCall) -> Result<Literal, String> {
        let mut rendered = String::new();
        rendered.push_str(self.label);
        rendered.push('.');
        rendered.push_str(call.method_name.as_str());
        for a in call.arguments.iter() {
            rendered.push('/');
            rendered.push_str(a.name.as_str());
            if let Literal::Text(t) = &a.value {
                rendered.push('=');
                rendered.push_str(t.as_str());
            }
        }
        Ok(Literal::Text(rendered))
    }

    fn resolve_selection(&self, _selection: &SelectionSet) -> Result<Vec<ResultEntry>, String> {
        Ok(vec![ResultEntry {
            name: String::from("label"),
            value: Literal::Text(String::from(self.label)),
        }])
    }
}

/// An object whose methods always fail.
struct Failing;

impl ObjectBehavior for Failing {
    fn invoke_method(&self, _call: &MethodCall) -> Result<Literal, String> {
        Err(String::from("method failed"))
    }

    fn resolve_selection(&self, _selection: &SelectionSet) -> Result<Vec<ResultEntry>, String> {
        Err(String::from("selection failed"))
    }
}

/// Output resolution that hands the resolved value back unchanged.
struct PassThrough;

impl OutputResolver for PassThrough {
    fn resolve(&self, value: &Literal, _selection: &Option<SelectionSet>) -> Result<Literal, String> {
        Ok(value.clone())
    }
}

fn named(name: &str) -> TypeRef {
    TypeRef { name: String::from(name), nullable: false }
}

fn node_spec() -> InterfaceSpec {
    InterfaceSpec {
        name: String::from("Node"),
        description: Some(String::from("An object with an id")),
        fields: vec![FieldSpec {
            name: String::from("id"),
            method_name: None,
            description: None,
            return_type: ReturnType { ty: named("ID"), fallible: false },
            deprecation: None,
            arguments: vec![],
        }],
        variants: vec![
            VariantSpec { concrete_type_name: String::from("User") },
            VariantSpec { concrete_type_name: String::from("Post") },
        ],
    }
}

fn request(name: &str) -> FieldRequest {
    FieldRequest {
        name: String::from(name),
        arguments: vec![],
        selection: None,
        position: Position { line: 3, column: 7 },
    }
}

#[test]
fn node_id_routes_to_active_user_variant() {
    let spec = node_spec();
    let value =
        VariantValue::from_concrete(&String::from("User"), Probe { label: "User" }, &spec).unwrap();
    let r = resolve_field(&spec, &value, &request("id"), &PassThrough);
    assert_eq!(r, Ok(Literal::Text(String::from("User.id"))));
}

#[test]
fn node_id_routes_to_active_post_variant() {
    let spec = node_spec();
    let value =
        VariantValue::from_concrete(&String::from("Post"), Probe { label: "Post" }, &spec).unwrap();
    let r = resolve_field(&spec, &value, &request("id"), &PassThrough);
    assert_eq!(r, Ok(Literal::Text(String::from("Post.id"))));
}

#[test]
fn dispatch_targets_active_variant_tag() {
    let spec = node_spec();
    let value =
        VariantValue::from_concrete(&String::from("Post"), Probe { label: "Post" }, &spec).unwrap();
    let call = dispatch(&spec, &value, &request("id")).unwrap();
    assert_eq!(call.variant_tag, value.tag);
    assert_eq!(call.concrete_type_name, String::from("Post"));
    assert_eq!(call.method_name, String::from("id"));
    assert!(!call.fallible);
    assert!(call.arguments.is_empty());
}

#[test]
fn unknown_field_yields_field_not_found() {
    let spec = node_spec();
    let value =
        VariantValue::from_concrete(&String::from("User"), Probe { label: "User" }, &spec).unwrap();
    let r = resolve_field(&spec, &value, &request("title"), &PassThrough);
    assert_eq!(
        r,
        Err(FieldError::FieldNotFound {
            field_name: String::from("title"),
            interface_name: String::from("Node"),
            position: Position { line: 3, column: 7 },
        })
    );
}

#[test]
fn empty_field_name_yields_field_not_found() {
    let spec = node_spec();
    let value =
        VariantValue::from_concrete(&String::from("User"), Probe { label: "User" }, &spec).unwrap();
    let r = dispatch(&spec, &value, &request(""));
    assert_eq!(
        r,
        Err(FieldError::FieldNotFound {
            field_name: String::from(""),
            interface_name: String::from("Node"),
            position: Position { line: 3, column: 7 },
        })
    );
}

#[test]
fn field_name_differing_in_case_yields_field_not_found() {
    let spec = node_spec();
    let value =
        VariantValue::from_concrete(&String::from("User"), Probe { label: "User" }, &spec).unwrap();
    let r = dispatch(&spec, &value, &request("Id"));
    assert!(matches!(r, Err(FieldError::FieldNotFound { .. })));
}

#[test]
fn failing_method_reports_resolution_error_with_position() {
    let spec = node_spec();
    let value = VariantValue::from_concrete(&String::from("User"), Failing, &spec).unwrap();
    let r = resolve_field(&spec, &value, &request("id"), &PassThrough);
    assert_eq!(
        r,
        Err(FieldError::Resolution {
            message: String::from("method failed"),
            position: Position { line: 3, column: 7 },
        })
    );
}

#[test]
fn variant_value_reports_declared_type_name() {
    let spec = node_spec();
    let value =
        VariantValue::from_concrete(&String::from("Post"), Probe { label: "Post" }, &spec).unwrap();
    assert_eq!(value.concrete_type_name(&spec), &String::from("Post"));
    let other =
        VariantValue::from_concrete(&String::from("User"), Probe { label: "User" }, &spec).unwrap();
    assert_eq!(other.concrete_type_name(&spec), &String::from("User"));
}

#[test]
fn from_concrete_rejects_undeclared_type_name() {
    let spec = node_spec();
    let value =
        VariantValue::from_concrete(&String::from("Comment"), Probe { label: "Comment" }, &spec);
    assert!(value.is_none());
}

fn empty_selection() -> SelectionSet {
    SelectionSet { fields: vec![] }
}

#[test]
fn fragment_on_active_variant_resolves_and_populates() {
    let spec = node_spec();
    let value =
        VariantValue::from_concrete(&String::from("User"), Probe { label: "User" }, &spec).unwrap();
    let mut acc: Vec<ResultEntry> = Vec::new();
    let r = resolve_inline_fragment(&spec, &value, &String::from("User"), &empty_selection(), &mut acc);
    assert_eq!(r, Ok(FragmentOutcome::Resolved));
    assert_eq!(acc.len(), 1);
    assert_eq!(acc[0].name, String::from("label"));
    assert_eq!(acc[0].value, Literal::Text(String::from("User")));
}

#[test]
fn fragment_on_other_declared_variant_skips_without_error() {
    let spec = node_spec();
    let value =
        VariantValue::from_concrete(&String::from("User"), Probe { label: "User" }, &spec).unwrap();
    let mut acc: Vec<ResultEntry> = Vec::new();
    let r = resolve_inline_fragment(&spec, &value, &String::from("Post"), &empty_selection(), &mut acc);
    assert_eq!(r, Ok(FragmentOutcome::Skipped));
    assert!(acc.is_empty());
}

#[test]
fn fragment_on_undeclared_type_is_unrecognized() {
    let spec = node_spec();
    let value =
        VariantValue::from_concrete(&String::from("User"), Probe { label: "User" }, &spec).unwrap();
    let mut acc: Vec<ResultEntry> = Vec::new();
    let r = resolve_inline_fragment(
        &spec,
        &value,
        &String::from("Comment"),
        &empty_selection(),
        &mut acc,
    );
    match r {
        Err(FragmentError::UnrecognizedInlineFragment { interface_name, condition }) => {
            assert_eq!(interface_name, String::from("Node"));
            assert_eq!(condition, String::from("Comment"));
        }
        other => panic!("expected an unrecognized fragment, got {:?}", other),
    }
    assert!(acc.is_empty());
}

#[test]
fn append_entries_keeps_existing_entries_and_appends_in_order() {
    let mut acc = vec![ResultEntry { name: String::from("first"), value: Literal::Integer(1) }];
    let entries = vec![
        ResultEntry { name: String::from("second"), value: Literal::Integer(2) },
        ResultEntry { name: String::from("third"), value: Literal::Integer(3) },
    ];
    append_entries(&mut acc, entries);
    assert_eq!(
        acc,
        vec![
            ResultEntry { name: String::from("first"), value: Literal::Integer(1) },
            ResultEntry { name: String::from("second"), value: Literal::Integer(2) },
            ResultEntry { name: String::from("third"), value: Literal::Integer(3) },
        ]
    );
}

#[test]
fn fragment_resolution_appends_after_existing_entries() {
    let spec = node_spec();
    let value =
        VariantValue::from_concrete(&String::from("User"), Probe { label: "User" }, &spec).unwrap();
    let mut acc = vec![ResultEntry { name: String::from("id"), value: Literal::Integer(7) }];
    let r = resolve_inline_fragment(&spec, &value, &String::from("User"), &empty_selection(), &mut acc);
    assert_eq!(r, Ok(FragmentOutcome::Resolved));
    assert_eq!(acc.len(), 2);
    assert_eq!(acc[0].name, String::from("id"));
    assert_eq!(acc[0].value, Literal::Integer(7));
    assert_eq!(acc[1].name, String::from("label"));
    assert_eq!(acc[1].value, Literal::Text(String::from("User")));
}

#[test]
fn fragment_selection_failure_leaves_accumulator_untouched() {
    let spec = node_spec();
    let value = VariantValue::from_concrete(&String::from("User"), Failing, &spec).unwrap();
    let mut acc: Vec<ResultEntry> = Vec::new();
    let r = resolve_inline_fragment(&spec, &value, &String::from("User"), &empty_selection(), &mut acc);
    match r {
        Err(FragmentError::Resolution { message }) => {
            assert_eq!(message, String::from("selection failed"));
        }
        other => panic!("expected a resolution failure, got {:?}", other),
    }
    assert!(acc.is_empty());
}

fn title_spec() -> InterfaceSpec {
    InterfaceSpec {
        name: String::from("Titled"),
        description: None,
        fields: vec![FieldSpec {
            name: String::from("title"),
            method_name: None,
            description: None,
            return_type: ReturnType { ty: named("String"), fallible: false },
            deprecation: None,
            arguments: vec![ArgSpec {
                name: String::from("format"),
                description: None,
                ty: named("String"),
                default_value: Some(Literal::Text(String::from("plain"))),
            }],
        }],
        variants: vec![VariantSpec { concrete_type_name: String::from("Article") }],
    }
}

#[test]
fn omitted_argument_with_default_binds_the_default() {
    let spec = title_spec();
    let value =
        VariantValue::from_concrete(&String::from("Article"), Probe { label: "Article" }, &spec)
            .unwrap();
    let r = resolve_field(&spec, &value, &request("title"), &PassThrough);
    assert_eq!(r, Ok(Literal::Text(String::from("Article.title/format=plain"))));
}

#[test]
fn supplied_argument_overrides_the_default() {
    let spec = title_spec();
    let value =
        VariantValue::from_concrete(&String::from("Article"), Probe { label: "Article" }, &spec)
            .unwrap();
    let req = FieldRequest {
        name: String::from("title"),
        arguments: vec![Argument {
            name: String::from("format"),
            value: Literal::Text(String::from("html")),
        }],
        selection: None,
        position: Position { line: 1, column: 1 },
    };
    let r = resolve_field(&spec, &value, &req, &PassThrough);
    assert_eq!(r, Ok(Literal::Text(String::from("Article.title/format=html"))));
}

#[test]
fn omitted_required_argument_is_a_binding_error() {
    let mut spec = title_spec();
    spec.fields[0].arguments[0].default_value = None;
    let value =
        VariantValue::from_concrete(&String::from("Article"), Probe { label: "Article" }, &spec)
            .unwrap();
    let r = dispatch(&spec, &value, &request("title"));
    assert_eq!(
        r,
        Err(FieldError::ArgumentBinding {
            argument_name: String::from("format"),
            position: Position { line: 3, column: 7 },
        })
    );
}

#[test]
fn omitted_nullable_argument_binds_null() {
    let mut spec = title_spec();
    spec.fields[0].arguments[0].default_value = None;
    spec.fields[0].arguments[0].ty.nullable = true;
    let value =
        VariantValue::from_concrete(&String::from("Article"), Probe { label: "Article" }, &spec)
            .unwrap();
    let call = dispatch(&spec, &value, &request("title")).unwrap();
    assert_eq!(call.arguments.len(), 1);
    assert_eq!(call.arguments[0].name, String::from("format"));
    assert_eq!(call.arguments[0].value, Literal::Null);
}

#[test]
fn routing_picks_the_requested_field_among_several() {
    let mut spec = node_spec();
    spec.fields.push(FieldSpec {
        name: String::from("kind"),
        method_name: None,
        description: None,
        return_type: ReturnType { ty: named("String"), fallible: false },
        deprecation: None,
        arguments: vec![],
    });
    let value =
        VariantValue::from_concrete(&String::from("User"), Probe { label: "User" }, &spec).unwrap();
    let r = resolve_field(&spec, &value, &request("kind"), &PassThrough);
    assert_eq!(r, Ok(Literal::Text(String::from("User.kind"))));
    let r = resolve_field(&spec, &value, &request("id"), &PassThrough);
    assert_eq!(r, Ok(Literal::Text(String::from("User.id"))));
}

#[test]
fn arguments_bind_in_declaration_order() {
    let mut spec = title_spec();
    spec.fields[0].arguments.push(ArgSpec {
        name: String::from("limit"),
        description: None,
        ty: named("Int"),
        default_value: Some(Literal::Integer(10)),
    });
    let value =
        VariantValue::from_concrete(&String::from("Article"), Probe { label: "Article" }, &spec)
            .unwrap();
    let req = FieldRequest {
        name: String::from("title"),
        arguments: vec![
            Argument { name: String::from("limit"), value: Literal::Integer(5) },
            Argument { name: String::from("format"), value: Literal::Text(String::from("html")) },
        ],
        selection: None,
        position: Position { line: 1, column: 1 },
    };
    let call = dispatch(&spec, &value, &req).unwrap();
    assert_eq!(call.arguments.len(), 2);
    assert_eq!(call.arguments[0].name, String::from("format"));
    assert_eq!(call.arguments[0].value, Literal::Text(String::from("html")));
    assert_eq!(call.arguments[1].name, String::from("limit"));
    assert_eq!(call.arguments[1].value, Literal::Integer(5));
}

#[test]
fn first_matching_field_wins_when_names_repeat() {
    let mut spec = node_spec();
    spec.fields.push(FieldSpec {
        name: String::from("id"),
        method_name: Some(String::from("second_id")),
        description: None,
        return_type: ReturnType { ty: named("ID"), fallible: false },
        deprecation: None,
        arguments: vec![],
    });
    let value =
        VariantValue::from_concrete(&String::from("User"), Probe { label: "User" }, &spec).unwrap();
    let call = dispatch(&spec, &value, &request("id")).unwrap();
    assert_eq!(call.method_name, String::from("id"));
}

#[test]
fn declared_method_name_overrides_field_name() {
    let mut spec = node_spec();
    spec.fields[0].method_name = Some(String::from("identifier"));
    let value =
        VariantValue::from_concrete(&String::from("User"), Probe { label: "User" }, &spec).unwrap();
    let r = resolve_field(&spec, &value, &request("id"), &PassThrough);
    assert_eq!(r, Ok(Literal::Text(String::from("User.identifier"))));
}
