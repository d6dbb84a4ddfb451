use codegen::schema::{wrap, Argument, Enum, Field, GqlDocument, GqlType, Object};
use codegen::schema_introspection as introspection;
use codegen::schema_introspection::{
    from_response_body, gql_type_name, to_gql_type, EnumValue, FullType, InputValue,
    IntrospectionQueryResponse, Schema, SchemaData, TypeRef,
};

fn text(s: &str) -> String {
    s.to_string()
}

fn scalar_ref(name: &str) -> TypeRef {
    TypeRef::Scalar { name: text(name) }
}

fn non_null_ref(inner: TypeRef) -> TypeRef {
    TypeRef::NonNull { of_type: Box::new(inner) }
}

fn list_ref(inner: TypeRef) -> TypeRef {
    TypeRef::List { of_type: Box::new(inner) }
}

fn nullable(inner: GqlType) -> GqlType {
    GqlType::Nullable(Box::new(inner))
}

fn list(inner: GqlType) -> GqlType {
    GqlType::List(Box::new(inner))
}

fn scalar(name: &str) -> GqlType {
    GqlType::Scalar(text(name))
}

fn response(types: Vec<FullType>) -> IntrospectionQueryResponse {
    IntrospectionQueryResponse { data: SchemaData { schema: Schema { types } } }
}

fn built_ins() -> Vec<String> {
    vec![text("Int"), text("String"), text("Float"), text("Boolean"), text("ID")]
}

fn is_double_nullable(gql_type: &GqlType) -> bool {
    match gql_type {
        GqlType::Nullable(inner) => {
            matches!(**inner, GqlType::Nullable(_)) || is_double_nullable(inner)
        }
        GqlType::List(inner) => is_double_nullable(inner),
        GqlType::Function { inputs, output } => {
            is_double_nullable(output)
                || inputs.iter().any(|input| is_double_nullable(&input.argument_type))
        }
        _ => false,
    }
}

#[test]
fn named_reference_is_nullable_by_default() {
    assert_eq!(to_gql_type(&scalar_ref("Int"), true), nullable(scalar("Int")));
    assert_eq!(
        to_gql_type(&TypeRef::Enum { name: text("Color") }, true),
        nullable(GqlType::Enum(text("Color")))
    );
    assert_eq!(
        to_gql_type(&TypeRef::Object { name: text("User") }, true),
        nullable(GqlType::Object(text("User")))
    );
    assert_eq!(
        to_gql_type(&TypeRef::InputObject { name: text("Filter") }, true),
        nullable(GqlType::Object(text("Filter")))
    );
}

#[test]
fn named_reference_at_non_null_position_is_bare() {
    assert_eq!(to_gql_type(&scalar_ref("Int"), false), scalar("Int"));
    assert_eq!(
        to_gql_type(&TypeRef::InputObject { name: text("Filter") }, false),
        GqlType::Object(text("Filter"))
    );
}

#[test]
fn non_null_layer_adds_no_wrapper() {
    assert_eq!(to_gql_type(&non_null_ref(scalar_ref("ID")), true), scalar("ID"));
    assert_eq!(to_gql_type(&non_null_ref(non_null_ref(scalar_ref("ID"))), true), scalar("ID"));
}

#[test]
fn list_elements_are_nullable_unless_non_null() {
    assert_eq!(
        to_gql_type(&list_ref(scalar_ref("String")), true),
        nullable(list(nullable(scalar("String"))))
    );
    assert_eq!(
        to_gql_type(&list_ref(non_null_ref(scalar_ref("String"))), true),
        nullable(list(scalar("String")))
    );
    assert_eq!(
        to_gql_type(&non_null_ref(list_ref(non_null_ref(scalar_ref("String")))), true),
        list(scalar("String"))
    );
}

#[test]
fn non_null_list_and_list_of_non_null_differ() {
    let non_null_list = to_gql_type(&non_null_ref(list_ref(scalar_ref("Int"))), true);
    let list_of_non_null = to_gql_type(&list_ref(non_null_ref(scalar_ref("Int"))), true);
    assert_eq!(non_null_list, list(nullable(scalar("Int"))));
    assert_eq!(list_of_non_null, nullable(list(scalar("Int"))));
    assert_ne!(non_null_list, list_of_non_null);
}

#[test]
fn resolution_never_stacks_nullable() {
    let references = vec![
        scalar_ref("Int"),
        non_null_ref(scalar_ref("Int")),
        list_ref(scalar_ref("Int")),
        list_ref(list_ref(non_null_ref(scalar_ref("Int")))),
        non_null_ref(list_ref(non_null_ref(list_ref(scalar_ref("Int"))))),
        non_null_ref(non_null_ref(list_ref(scalar_ref("Int")))),
    ];
    for reference in &references {
        for position in [true, false] {
            let resolved = to_gql_type(reference, position);
            assert!(!is_double_nullable(&resolved));
            let wrapped = matches!(resolved, GqlType::Nullable(_));
            let expected = position && !matches!(reference, TypeRef::NonNull { .. });
            assert_eq!(wrapped, expected);
        }
    }
}

#[test]
fn wrap_adds_nullable_only_when_asked() {
    assert_eq!(wrap(true, scalar("Int")), nullable(scalar("Int")));
    assert_eq!(wrap(false, scalar("Int")), scalar("Int"));
}

#[test]
fn type_names_are_written_as_the_schema_language_does() {
    assert_eq!(gql_type_name(&scalar_ref("Int")), "Int");
    assert_eq!(gql_type_name(&non_null_ref(scalar_ref("Int"))), "Int!");
    assert_eq!(gql_type_name(&list_ref(scalar_ref("Int"))), "[Int]");
    assert_eq!(
        gql_type_name(&non_null_ref(list_ref(non_null_ref(TypeRef::InputObject {
            name: text("Filter")
        })))),
        "[Filter!]!"
    );
    assert_eq!(gql_type_name(&TypeRef::Enum { name: text("Color") }), "Color");
    assert_eq!(gql_type_name(&TypeRef::Object { name: text("User") }), "User");
}

#[test]
fn union_alone_yields_only_built_in_scalars() {
    let document = from_response_body(&response(vec![FullType::Union]));
    assert_eq!(
        document,
        GqlDocument { inputs: vec![], outputs: vec![], enums: vec![], scalars: built_ins() }
    );
}

#[test]
fn interfaces_and_unions_are_dropped() {
    let document = from_response_body(&response(vec![
        FullType::Interface,
        FullType::Enum {
            name: text("Color"),
            enum_values: vec![EnumValue { name: text("RED") }, EnumValue { name: text("BLUE") }],
        },
        FullType::Union,
    ]));
    assert_eq!(document.inputs, vec![]);
    assert_eq!(document.outputs, vec![]);
    assert_eq!(
        document.enums,
        vec![Enum { name: text("Color"), values: vec![text("RED"), text("BLUE")] }]
    );
    assert_eq!(document.scalars, built_ins());
}

#[test]
fn server_scalars_come_first_and_once() {
    let document = from_response_body(&response(vec![
        FullType::Scalar { name: text("DateTime") },
        FullType::Scalar { name: text("String") },
        FullType::Scalar { name: text("Int") },
        FullType::Scalar { name: text("DateTime") },
        FullType::Scalar { name: text("Url") },
    ]));
    assert_eq!(
        document.scalars,
        vec![
            text("DateTime"),
            text("String"),
            text("Int"),
            text("Url"),
            text("Float"),
            text("Boolean"),
            text("ID")
        ]
    );
}

#[test]
fn server_order_is_kept() {
    let document = from_response_body(&response(vec![
        FullType::Object { name: text("Zebra"), fields: vec![] },
        FullType::InputObject { name: text("Yak"), input_fields: vec![] },
        FullType::Object { name: text("Ant"), fields: vec![] },
        FullType::InputObject { name: text("Bee"), input_fields: vec![] },
        FullType::Object { name: text("Zebra"), fields: vec![] },
    ]));
    let outputs: Vec<&str> = document.outputs.iter().map(|o| o.name.as_str()).collect();
    let inputs: Vec<&str> = document.inputs.iter().map(|o| o.name.as_str()).collect();
    assert_eq!(outputs, vec!["Zebra", "Ant", "Zebra"]);
    assert_eq!(inputs, vec!["Yak", "Bee"]);
}

#[test]
fn field_with_arguments_becomes_a_function() {
    let document = from_response_body(&response(vec![FullType::Object {
        name: text("Query"),
        fields: vec![
            introspection::Field {
                name: text("user"),
                args: vec![
                    InputValue { name: text("id"), input_type: non_null_ref(scalar_ref("ID")) },
                    InputValue { name: text("tags"), input_type: list_ref(scalar_ref("String")) },
                ],
                field_type: TypeRef::Object { name: text("User") },
            },
            introspection::Field {
                name: text("version"),
                args: vec![],
                field_type: non_null_ref(scalar_ref("Int")),
            },
        ],
    }]));
    assert_eq!(
        document.outputs,
        vec![Object {
            name: text("Query"),
            fields: vec![
                Field {
                    name: text("user"),
                    field_type: GqlType::Function {
                        inputs: vec![
                            Argument {
                                name: text("id"),
                                argument_type: scalar("ID"),
                                declared_type: text("ID!"),
                            },
                            Argument {
                                name: text("tags"),
                                argument_type: nullable(list(nullable(scalar("String")))),
                                declared_type: text("[String]"),
                            },
                        ],
                        output: Box::new(nullable(GqlType::Object(text("User")))),
                    },
                },
                Field { name: text("version"), field_type: scalar("Int") },
            ],
        }]
    );
}

#[test]
fn input_object_fields_are_resolved() {
    let document = from_response_body(&response(vec![FullType::InputObject {
        name: text("Filter"),
        input_fields: vec![
            InputValue { name: text("tags"), input_type: list_ref(scalar_ref("String")) },
            InputValue {
                name: text("color"),
                input_type: non_null_ref(TypeRef::Enum { name: text("Color") }),
            },
        ],
    }]));
    assert_eq!(
        document.inputs,
        vec![Object {
            name: text("Filter"),
            fields: vec![
                Field {
                    name: text("tags"),
                    field_type: nullable(list(nullable(scalar("String")))),
                },
                Field { name: text("color"), field_type: GqlType::Enum(text("Color")) },
            ],
        }]
    );
}
