//! Tests of the schema registry builder and of the canonical literal
//! rendering used for argument defaults.

use graphql_interface::decl::ArgSpec;
use graphql_interface::decl::FieldSpec;
use graphql_interface::decl::InterfaceSpec;
use graphql_interface::decl::ReturnType;
use graphql_interface::decl::TypeRef;
use graphql_interface::decl::VariantSpec;
use graphql_interface::literal::render_i64;
use graphql_interface::literal::render_literal;
use graphql_interface::literal::render_u64;
use graphql_interface::literal::Literal;
use graphql_interface::literal::ObjectField;
use graphql_interface::registry::BuildError;
use graphql_interface::registry::Registry;
use graphql_interface::registry::TypeInfo;
use graphql_interface::registry::validate_interface;

fn node_spec() -> InterfaceSpec {
    InterfaceSpec {
        name: String::from("Node"),
        description: Some(String::from("An object with an id")),
        fields: vec![FieldSpec {
            name: String::from("id"),
            method_name: None,
            description: Some(String::from("The unique id")),
            return_type: ReturnType {
                ty: TypeRef { name: String::from("ID"), nullable: false },
                fallible: true,
            },
            deprecation: None,
            arguments: vec![ArgSpec {
                name: String::from("format"),
                description: None,
                ty: TypeRef { name: String::from("String"), nullable: true },
                default_value: Some(Literal::Text(String::from("plain"))),
            }],
        }],
        variants: vec![
            VariantSpec { concrete_type_name: String::from("User") },
            VariantSpec { concrete_type_name: String::from("Post") },
        ],
    }
}

#[test]
fn create_type_info_builds_the_descriptor() {
    let mut registry = Registry::new();
    let d = registry.create_type_info(&node_spec()).unwrap();
    assert_eq!(d.name, String::from("Node"));
    assert_eq!(d.description, Some(String::from("An object with an id")));
    assert_eq!(
        d.possible_types,
        vec![String::from("User"), String::from("Post")]
    );
    assert_eq!(d.fields.len(), 1);
    let f = &d.fields[0];
    assert_eq!(f.name, String::from("id"));
    assert_eq!(f.description, Some(String::from("The unique id")));
    assert_eq!(f.type_ref, String::from("ID!"));
    assert_eq!(f.deprecation, None);
    assert_eq!(f.args.len(), 1);
    assert_eq!(f.args[0].name, String::from("format"));
    assert_eq!(f.args[0].type_ref, String::from("String"));
    assert_eq!(f.args[0].default_value, Some(String::from("\"plain\"")));
}

#[test]
fn create_type_info_records_implements_edges_in_declaration_order() {
    let mut registry = Registry::new();
    registry.create_type_info(&node_spec()).unwrap();
    assert_eq!(registry.implements.len(), 2);
    assert_eq!(registry.implements[0].concrete, String::from("User"));
    assert_eq!(registry.implements[0].interface, String::from("Node"));
    assert_eq!(registry.implements[1].concrete, String::from("Post"));
    assert_eq!(registry.implements[1].interface, String::from("Node"));
}

#[test]
fn create_type_info_twice_is_idempotent() {
    let mut registry = Registry::new();
    let first = registry.create_type_info(&node_spec()).unwrap();
    let entries_after_first = registry.entries.len();
    let edges_after_first: Vec<(String, String)> = registry
        .implements
        .iter()
        .map(|e| (e.concrete.clone(), e.interface.clone()))
        .collect();
    let second = registry.create_type_info(&node_spec()).unwrap();
    assert_eq!(first, second);
    assert_eq!(registry.entries.len(), entries_after_first);
    let edges_after_second: Vec<(String, String)> = registry
        .implements
        .iter()
        .map(|e| (e.concrete.clone(), e.interface.clone()))
        .collect();
    assert_eq!(edges_after_first, edges_after_second);
}

#[test]
fn add_implements_does_not_duplicate_edges() {
    let mut registry = Registry::new();
    registry.add_implements(&String::from("User"), &String::from("Node"));
    registry.add_implements(&String::from("User"), &String::from("Node"));
    assert_eq!(registry.implements.len(), 1);
    registry.add_implements(&String::from("User"), &String::from("Entity"));
    assert_eq!(registry.implements.len(), 2);
}

#[test]
fn register_concrete_is_memoized() {
    let mut registry = Registry::new();
    registry.register_concrete(&String::from("User"));
    registry.register_concrete(&String::from("User"));
    assert_eq!(registry.entries.len(), 1);
    assert_eq!(registry.entries[0].name, String::from("User"));
    assert_eq!(registry.entries[0].info, TypeInfo::Concrete);
}

#[test]
fn empty_variant_set_is_rejected() {
    let mut spec = node_spec();
    spec.variants.clear();
    assert_eq!(validate_interface(&spec), Err(BuildError::NoVariants));
    let mut registry = Registry::new();
    let entries_before = registry.entries.len();
    assert_eq!(registry.create_type_info(&spec), Err(BuildError::NoVariants));
    assert_eq!(registry.entries.len(), entries_before);
}

#[test]
fn duplicate_possible_type_is_rejected() {
    let mut spec = node_spec();
    spec.variants.push(VariantSpec { concrete_type_name: String::from("User") });
    assert_eq!(
        validate_interface(&spec),
        Err(BuildError::DuplicatePossibleType { name: String::from("User") })
    );
    let mut registry = Registry::new();
    assert!(registry.create_type_info(&spec).is_err());
    assert_eq!(registry.implements.len(), 0);
}

#[test]
fn duplicate_field_name_is_rejected() {
    let mut spec = node_spec();
    let copy_name = spec.fields[0].name.clone();
    spec.fields.push(FieldSpec {
        name: copy_name,
        method_name: None,
        description: None,
        return_type: ReturnType {
            ty: TypeRef { name: String::from("ID"), nullable: false },
            fallible: false,
        },
        deprecation: None,
        arguments: vec![],
    });
    assert_eq!(
        validate_interface(&spec),
        Err(BuildError::DuplicateFieldName { name: String::from("id") })
    );
}

#[test]
fn name_already_taken_by_a_concrete_entry_is_a_conflict() {
    let mut registry = Registry::new();
    registry.register_concrete(&String::from("Node"));
    assert_eq!(
        registry.create_type_info(&node_spec()),
        Err(BuildError::NameConflict { name: String::from("Node") })
    );
}

#[test]
fn argument_and_return_types_get_memoized_entries() {
    let mut registry = Registry::new();
    registry.create_type_info(&node_spec()).unwrap();
    let names: Vec<String> = registry.entries.iter().map(|e| e.name.clone()).collect();
    assert!(names.contains(&String::from("Node")));
    assert!(names.contains(&String::from("User")));
    assert!(names.contains(&String::from("Post")));
    assert!(names.contains(&String::from("String")));
    assert!(names.contains(&String::from("ID")));
}

#[test]
fn implements_edges_answer_abstract_type_queries() {
    let mut registry = Registry::new();
    registry.create_type_info(&node_spec()).unwrap();
    assert!(registry.implements_interface(&String::from("User"), &String::from("Node")));
    assert!(registry.implements_interface(&String::from("Post"), &String::from("Node")));
    assert!(!registry.implements_interface(&String::from("Comment"), &String::from("Node")));
    assert!(!registry.implements_interface(&String::from("User"), &String::from("Entity")));
}

#[test]
fn renders_scalars() {
    assert_eq!(render_literal(&Literal::Null), String::from("null"));
    assert_eq!(render_literal(&Literal::Boolean(true)), String::from("true"));
    assert_eq!(render_literal(&Literal::Boolean(false)), String::from("false"));
    assert_eq!(render_literal(&Literal::Integer(0)), String::from("0"));
    assert_eq!(render_literal(&Literal::Integer(-42)), String::from("-42"));
    assert_eq!(
        render_literal(&Literal::EnumName(String::from("ASC"))),
        String::from("ASC")
    );
}

#[test]
fn renders_decimal_digits() {
    assert_eq!(render_u64(0), String::from("0"));
    assert_eq!(render_u64(7), String::from("7"));
    assert_eq!(render_u64(105070), String::from("105070"));
    assert_eq!(render_u64(u64::MAX), String::from("18446744073709551615"));
    assert_eq!(render_i64(i64::MIN), String::from("-9223372036854775808"));
    assert_eq!(render_i64(i64::MAX), String::from("9223372036854775807"));
}

#[test]
fn renders_strings_with_escapes() {
    assert_eq!(
        render_literal(&Literal::Text(String::from("plain"))),
        String::from("\"plain\"")
    );
    assert_eq!(
        render_literal(&Literal::Text(String::from("a\"b\\c"))),
        String::from("\"a\\\"b\\\\c\"")
    );
    assert_eq!(render_literal(&Literal::Text(String::from(""))), String::from("\"\""));
}

#[test]
fn renders_lists_and_objects() {
    let list = Literal::List(vec![
        Literal::Integer(1),
        Literal::Integer(2),
        Literal::Integer(3),
    ]);
    assert_eq!(render_literal(&list), String::from("[1, 2, 3]"));
    assert_eq!(render_literal(&Literal::List(vec![])), String::from("[]"));
    let object = Literal::Object(vec![
        ObjectField { name: String::from("limit"), value: Literal::Integer(10) },
        ObjectField {
            name: String::from("order"),
            value: Literal::EnumName(String::from("DESC")),
        },
    ]);
    assert_eq!(render_literal(&object), String::from("{limit: 10, order: DESC}"));
    let nested = Literal::List(vec![Literal::Object(vec![ObjectField {
        name: String::from("tags"),
        value: Literal::List(vec![Literal::Text(String::from("a"))]),
    }])]);
    assert_eq!(render_literal(&nested), String::from("[{tags: [\"a\"]}]"));
}
