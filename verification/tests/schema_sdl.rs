use codegen::schema::{Argument, Enum, Field, GqlDocument, GqlType, Object};
use codegen::schema_sdl as sdl;
use codegen::schema_sdl::{
    from_parser_document, type_signature, Definition, Document, EnumType, EnumValue,
    InputObjectType, InputValue, ObjectType, ScalarType, Type, TypeDefinition,
    UnknownTypeReference,
};
use graphql_parser::schema as parsed;

fn owned(s: &str) -> String {
    s.to_string()
}

fn named(name: &str) -> Type {
    Type::NamedType(owned(name))
}

fn non_null(inner: Type) -> Type {
    Type::NonNullType(Box::new(inner))
}

fn list_of(inner: Type) -> Type {
    Type::ListType(Box::new(inner))
}

fn object_definition(name: &str, fields: Vec<sdl::Field>) -> Definition {
    Definition::TypeDefinition(TypeDefinition::Object(ObjectType { name: owned(name), fields }))
}

fn input_definition(name: &str, fields: Vec<InputValue>) -> Definition {
    Definition::TypeDefinition(TypeDefinition::InputObject(InputObjectType {
        name: owned(name),
        fields,
    }))
}

fn enum_definition(name: &str, values: &[&str]) -> Definition {
    Definition::TypeDefinition(TypeDefinition::Enum(EnumType {
        name: owned(name),
        values: values.iter().map(|v| EnumValue { name: owned(v) }).collect(),
    }))
}

fn scalar_definition(name: &str) -> Definition {
    Definition::TypeDefinition(TypeDefinition::Scalar(ScalarType { name: owned(name) }))
}

fn plain_field(name: &str, field_type: Type) -> sdl::Field {
    sdl::Field { name: owned(name), arguments: vec![], field_type }
}

fn sorted_built_ins() -> Vec<String> {
    vec![owned("Boolean"), owned("Float"), owned("ID"), owned("Int"), owned("String")]
}

fn convert_type(parsed_type: &parsed::Type<'_, String>) -> Type {
    match parsed_type {
        parsed::Type::NamedType(name) => Type::NamedType(name.clone()),
        parsed::Type::ListType(inner) => Type::ListType(Box::new(convert_type(inner))),
        parsed::Type::NonNullType(inner) => Type::NonNullType(Box::new(convert_type(inner))),
    }
}

fn convert_input_value(value: &parsed::InputValue<'_, String>) -> InputValue {
    InputValue { name: value.name.clone(), value_type: convert_type(&value.value_type) }
}

fn convert_definition(definition: &parsed::Definition<'_, String>) -> Definition {
    match definition {
        parsed::Definition::SchemaDefinition(_) => Definition::SchemaDefinition,
        parsed::Definition::TypeExtension(_) => Definition::TypeExtension,
        parsed::Definition::DirectiveDefinition(_) => Definition::DirectiveDefinition,
        parsed::Definition::TypeDefinition(definition) => {
            Definition::TypeDefinition(match definition {
                parsed::TypeDefinition::Scalar(scalar) => {
                    TypeDefinition::Scalar(ScalarType { name: scalar.name.clone() })
                }
                parsed::TypeDefinition::Object(object) => TypeDefinition::Object(ObjectType {
                    name: object.name.clone(),
                    fields: object
                        .fields
                        .iter()
                        .map(|field| sdl::Field {
                            name: field.name.clone(),
                            arguments: field.arguments.iter().map(convert_input_value).collect(),
                            field_type: convert_type(&field.field_type),
                        })
                        .collect(),
                }),
                parsed::TypeDefinition::Interface(_) => TypeDefinition::Interface,
                parsed::TypeDefinition::Union(_) => TypeDefinition::Union,
                parsed::TypeDefinition::Enum(enum_type) => TypeDefinition::Enum(EnumType {
                    name: enum_type.name.clone(),
                    values: enum_type
                        .values
                        .iter()
                        .map(|value| EnumValue { name: value.name.clone() })
                        .collect(),
                }),
                parsed::TypeDefinition::InputObject(object) => {
                    TypeDefinition::InputObject(InputObjectType {
                        name: object.name.clone(),
                        fields: object.fields.iter().map(convert_input_value).collect(),
                    })
                }
            })
        }
    }
}

fn read_sdl(text: &str) -> Result<GqlDocument, UnknownTypeReference> {
    let parsed_document = parsed::parse_schema::<String>(text).expect("the text is valid SDL");
    let document =
        Document { definitions: parsed_document.definitions.iter().map(convert_definition).collect() };
    from_parser_document(&document)
}

#[test]
fn non_null_scalar_field_is_bare() {
    let document = Document {
        definitions: vec![object_definition(
            "Query",
            vec![plain_field("name", non_null(named("String")))],
        )],
    };
    assert_eq!(
        from_parser_document(&document),
        Ok(GqlDocument {
            inputs: vec![],
            outputs: vec![Object {
                name: owned("Query"),
                fields: vec![Field {
                    name: owned("name"),
                    field_type: GqlType::Scalar(owned("String")),
                }],
            }],
            enums: vec![],
            scalars: sorted_built_ins(),
        })
    );
}

#[test]
fn sdl_text_with_non_null_scalar_field() {
    let document = read_sdl("type Query { name: String! }").unwrap();
    assert_eq!(document.inputs, vec![]);
    assert_eq!(document.enums, vec![]);
    assert_eq!(
        document.outputs,
        vec![Object {
            name: owned("Query"),
            fields: vec![Field {
                name: owned("name"),
                field_type: GqlType::Scalar(owned("String")),
            }],
        }]
    );
    assert_eq!(document.scalars, sorted_built_ins());
}

#[test]
fn list_field_of_input_object_is_nullable_list_of_nullable() {
    let document = Document {
        definitions: vec![input_definition(
            "Filter",
            vec![InputValue { name: owned("tags"), value_type: list_of(named("String")) }],
        )],
    };
    let expected = GqlType::Nullable(Box::new(GqlType::List(Box::new(GqlType::Nullable(
        Box::new(GqlType::Scalar(owned("String"))),
    )))));
    assert_eq!(
        from_parser_document(&document),
        Ok(GqlDocument {
            inputs: vec![Object {
                name: owned("Filter"),
                fields: vec![Field { name: owned("tags"), field_type: expected }],
            }],
            outputs: vec![],
            enums: vec![],
            scalars: sorted_built_ins(),
        })
    );
}

#[test]
fn sdl_text_with_list_field_of_input_object() {
    let document = read_sdl("input Filter { tags: [String] }").unwrap();
    assert_eq!(document.outputs, vec![]);
    assert_eq!(
        document.inputs,
        vec![Object {
            name: owned("Filter"),
            fields: vec![Field {
                name: owned("tags"),
                field_type: GqlType::Nullable(Box::new(GqlType::List(Box::new(
                    GqlType::Nullable(Box::new(GqlType::Scalar(owned("String"))))
                )))),
            }],
        }]
    );
}

#[test]
fn definitions_come_out_in_name_order() {
    let document = Document {
        definitions: vec![
            object_definition("Zebra", vec![]),
            enum_definition("Mood", &["HAPPY"]),
            input_definition("Yak", vec![]),
            scalar_definition("Url"),
            object_definition("Ant", vec![]),
            enum_definition("Color", &["RED", "BLUE"]),
            input_definition("Bee", vec![]),
            scalar_definition("Date"),
            object_definition("ant", vec![]),
        ],
    };
    let read = from_parser_document(&document).unwrap();
    let outputs: Vec<&str> = read.outputs.iter().map(|o| o.name.as_str()).collect();
    let inputs: Vec<&str> = read.inputs.iter().map(|o| o.name.as_str()).collect();
    let enums: Vec<&str> = read.enums.iter().map(|e| e.name.as_str()).collect();
    assert_eq!(outputs, vec!["Ant", "Zebra", "ant"]);
    assert_eq!(inputs, vec!["Bee", "Yak"]);
    assert_eq!(enums, vec!["Color", "Mood"]);
    assert_eq!(read.scalars, vec!["Boolean", "Date", "Float", "ID", "Int", "String", "Url"]);
}

#[test]
fn last_definition_of_a_name_wins() {
    let document = Document {
        definitions: vec![
            object_definition("Query", vec![plain_field("first", named("Int"))]),
            enum_definition("Color", &["RED"]),
            scalar_definition("Int"),
            object_definition("Query", vec![plain_field("second", named("String"))]),
            enum_definition("Color", &["GREEN", "BLUE"]),
        ],
    };
    let read = from_parser_document(&document).unwrap();
    assert_eq!(
        read.outputs,
        vec![Object {
            name: owned("Query"),
            fields: vec![Field {
                name: owned("second"),
                field_type: GqlType::Nullable(Box::new(GqlType::Scalar(owned("String")))),
            }],
        }]
    );
    assert_eq!(
        read.enums,
        vec![Enum { name: owned("Color"), values: vec![owned("GREEN"), owned("BLUE")] }]
    );
    assert_eq!(read.scalars, sorted_built_ins());
}

#[test]
fn names_resolve_to_scalar_then_enum_then_object() {
    let document = Document {
        definitions: vec![
            object_definition(
                "Query",
                vec![
                    plain_field("a", non_null(named("Date"))),
                    plain_field("b", non_null(named("Color"))),
                    plain_field("c", non_null(named("Filter"))),
                    plain_field("d", non_null(named("User"))),
                    plain_field("e", non_null(named("Both"))),
                ],
            ),
            object_definition("User", vec![]),
            input_definition("Filter", vec![]),
            enum_definition("Color", &[]),
            scalar_definition("Date"),
            scalar_definition("Both"),
            enum_definition("Both", &[]),
        ],
    };
    let read = from_parser_document(&document).unwrap();
    let query = read.outputs.iter().find(|o| o.name == "Query").unwrap();
    let types: Vec<&GqlType> = query.fields.iter().map(|f| &f.field_type).collect();
    assert_eq!(
        types,
        vec![
            &GqlType::Scalar(owned("Date")),
            &GqlType::Enum(owned("Color")),
            &GqlType::Object(owned("Filter")),
            &GqlType::Object(owned("User")),
            &GqlType::Scalar(owned("Both")),
        ]
    );
}

#[test]
fn forward_references_resolve() {
    let read = read_sdl(
        "type Query { user(id: ID!, filter: Filter): User }\n\
         input Filter { color: Color! }\n\
         type User { id: ID! friends: [User!]! }\n\
         enum Color { RED BLUE }\n\
         scalar Date\n\
         interface Node { id: ID! }\n\
         union Anything = User | Query\n\
         schema { query: Query }\n\
         extend type User { age: Int }\n\
         directive @cached on FIELD_DEFINITION",
    )
    .unwrap();
    assert_eq!(
        read.outputs,
        vec![
            Object {
                name: owned("Query"),
                fields: vec![Field {
                    name: owned("user"),
                    field_type: GqlType::Function {
                        inputs: vec![
                            Argument {
                                name: owned("id"),
                                argument_type: GqlType::Scalar(owned("ID")),
                                declared_type: owned("ID!"),
                            },
                            Argument {
                                name: owned("filter"),
                                argument_type: GqlType::Nullable(Box::new(GqlType::Object(
                                    owned("Filter")
                                ))),
                                declared_type: owned("Filter"),
                            },
                        ],
                        output: Box::new(GqlType::Nullable(Box::new(GqlType::Object(owned(
                            "User"
                        ))))),
                    },
                }],
            },
            Object {
                name: owned("User"),
                fields: vec![
                    Field { name: owned("id"), field_type: GqlType::Scalar(owned("ID")) },
                    Field {
                        name: owned("friends"),
                        field_type: GqlType::List(Box::new(GqlType::Object(owned("User")))),
                    },
                ],
            },
        ]
    );
    assert_eq!(
        read.inputs,
        vec![Object {
            name: owned("Filter"),
            fields: vec![Field {
                name: owned("color"),
                field_type: GqlType::Enum(owned("Color")),
            }],
        }]
    );
    assert_eq!(
        read.enums,
        vec![Enum { name: owned("Color"), values: vec![owned("RED"), owned("BLUE")] }]
    );
    assert_eq!(read.scalars, vec!["Boolean", "Date", "Float", "ID", "Int", "String"]);
}

#[test]
fn unknown_type_fails_the_document() {
    let document = Document {
        definitions: vec![object_definition(
            "Query",
            vec![plain_field("ok", named("Int")), plain_field("bad", list_of(named("Missing")))],
        )],
    };
    assert_eq!(
        from_parser_document(&document),
        Err(UnknownTypeReference { name: owned("Missing") })
    );
}

#[test]
fn first_unknown_type_is_reported_inputs_first() {
    let document = Document {
        definitions: vec![
            object_definition(
                "Alpha",
                vec![sdl::Field {
                    name: owned("f"),
                    arguments: vec![InputValue {
                        name: owned("x"),
                        value_type: named("UnknownArgument"),
                    }],
                    field_type: named("UnknownOutput"),
                }],
            ),
            input_definition(
                "Zulu",
                vec![
                    InputValue { name: owned("a"), value_type: named("Int") },
                    InputValue { name: owned("b"), value_type: named("UnknownInput") },
                    InputValue { name: owned("c"), value_type: named("AnotherUnknown") },
                ],
            ),
        ],
    };
    assert_eq!(
        from_parser_document(&document),
        Err(UnknownTypeReference { name: owned("UnknownInput") })
    );
}

#[test]
fn field_type_is_resolved_before_arguments() {
    let field = |field_type: Type| sdl::Field {
        name: owned("f"),
        arguments: vec![InputValue { name: owned("x"), value_type: named("UnknownArgument") }],
        field_type,
    };
    let both = Document {
        definitions: vec![object_definition("Alpha", vec![field(named("UnknownOutput"))])],
    };
    assert_eq!(
        from_parser_document(&both),
        Err(UnknownTypeReference { name: owned("UnknownOutput") })
    );
    let argument_only =
        Document { definitions: vec![object_definition("Alpha", vec![field(named("Int"))])] };
    assert_eq!(
        from_parser_document(&argument_only),
        Err(UnknownTypeReference { name: owned("UnknownArgument") })
    );
}

#[test]
fn replaced_definition_is_not_resolved() {
    let document = Document {
        definitions: vec![
            object_definition("Query", vec![plain_field("bad", named("Missing"))]),
            object_definition("Query", vec![plain_field("good", named("Int"))]),
        ],
    };
    assert!(from_parser_document(&document).is_ok());
}

#[test]
fn empty_document_has_only_built_in_scalars() {
    assert_eq!(
        from_parser_document(&Document { definitions: vec![] }),
        Ok(GqlDocument {
            inputs: vec![],
            outputs: vec![],
            enums: vec![],
            scalars: sorted_built_ins(),
        })
    );
}

#[test]
fn non_null_list_and_list_of_non_null_differ_in_sdl() {
    let read = read_sdl("type Query { a: [Int]! b: [Int!] }").unwrap();
    let a = &read.outputs[0].fields[0].field_type;
    let b = &read.outputs[0].fields[1].field_type;
    assert_eq!(
        a,
        &GqlType::List(Box::new(GqlType::Nullable(Box::new(GqlType::Scalar(owned("Int"))))))
    );
    assert_eq!(
        b,
        &GqlType::Nullable(Box::new(GqlType::List(Box::new(GqlType::Scalar(owned("Int"))))))
    );
    assert_ne!(a, b);
}

#[test]
fn signature_matches_the_parser_display() {
    for text in ["Int", "Int!", "[Int]", "[Int!]!", "[[Filter!]]!", "[[[String]!]!]"] {
        let sdl_text = format!("type Query {{ f: {} }}", text);
        let parsed_document = parsed::parse_schema::<String>(&sdl_text).unwrap();
        let parsed_type = match &parsed_document.definitions[0] {
            parsed::Definition::TypeDefinition(parsed::TypeDefinition::Object(object)) => {
                &object.fields[0].field_type
            }
            _ => panic!("an object definition was expected"),
        };
        assert_eq!(type_signature(&convert_type(parsed_type)), parsed_type.to_string());
        assert_eq!(type_signature(&convert_type(parsed_type)), text);
    }
}

#[test]
fn signature_of_each_shape() {
    assert_eq!(type_signature(&named("Int")), "Int");
    assert_eq!(type_signature(&non_null(named("Int"))), "Int!");
    assert_eq!(type_signature(&list_of(named("Int"))), "[Int]");
    assert_eq!(type_signature(&non_null(list_of(non_null(named("Int"))))), "[Int!]!");
}
