use codegen::code_generator::{
    can_encode_arguments, can_write_codec, decode_to_code, encode_to_code, gql_type_to_code,
    is_value_type, resolve_encoding_target, write_codec_ts, write_schema_ts, EncodingTarget,
};
use codegen::code_writer::CodeFileOptions;
use codegen::schema::{Argument, Enum, Field, GqlType, Object};

fn s(text: &str) -> String {
    text.to_string()
}

fn layout(indent: &str, line_break: &str) -> CodeFileOptions {
    CodeFileOptions { line_break: s(line_break), indent: s(indent) }
}

fn null_of(inner: GqlType) -> GqlType {
    GqlType::Nullable(Box::new(inner))
}

fn list_of_type(inner: GqlType) -> GqlType {
    GqlType::List(Box::new(inner))
}

fn argument(name: &str, argument_type: GqlType, declared_type: &str) -> Argument {
    Argument { name: s(name), argument_type, declared_type: s(declared_type) }
}

fn function(inputs: Vec<Argument>, output: GqlType) -> GqlType {
    GqlType::Function { inputs, output: Box::new(output) }
}

fn field(name: &str, field_type: GqlType) -> Field {
    Field { name: s(name), field_type }
}

#[test]
fn type_code_of_each_variant() {
    assert_eq!(gql_type_to_code(&GqlType::Scalar(s("String"))), "QScalar<\"String\">");
    assert_eq!(gql_type_to_code(&GqlType::Enum(s("Color"))), "QEnum<Color>");
    assert_eq!(gql_type_to_code(&GqlType::Object(s("User"))), "QObject<\"User\">");
    assert_eq!(gql_type_to_code(&list_of_type(GqlType::Scalar(s("Int")))), "QList<QScalar<\"Int\">>");
    assert_eq!(gql_type_to_code(&null_of(GqlType::Enum(s("Color")))), "QNull<QEnum<Color>>");
}

#[test]
fn type_code_nests() {
    assert_eq!(
        gql_type_to_code(&null_of(list_of_type(null_of(GqlType::Object(s("User")))))),
        "QNull<QList<QNull<QObject<\"User\">>>>"
    );
}

#[test]
fn function_code_marks_nullable_arguments_optional() {
    let callable = function(
        vec![
            argument("id", GqlType::Scalar(s("ID")), "ID!"),
            argument("filter", null_of(GqlType::Object(s("Filter"))), "Filter"),
            argument("tags", list_of_type(null_of(GqlType::Scalar(s("String")))), "[String]!"),
        ],
        null_of(GqlType::Object(s("User"))),
    );
    assert_eq!(
        gql_type_to_code(&callable),
        "QFun<{ id: QScalar<\"ID\">, filter?: QNull<QObject<\"Filter\">>, tags: QList<QNull<QScalar<\"String\">>> }, QNull<QObject<\"User\">>>"
    );
}

#[test]
fn function_code_with_one_or_no_argument() {
    assert_eq!(
        gql_type_to_code(&function(
            vec![argument("n", GqlType::Scalar(s("Int")), "Int!")],
            GqlType::Scalar(s("Int"))
        )),
        "QFun<{ n: QScalar<\"Int\"> }, QScalar<\"Int\">>"
    );
    assert_eq!(
        gql_type_to_code(&function(vec![], GqlType::Scalar(s("Int")))),
        "QFun<{  }, QScalar<\"Int\">>"
    );
}

#[test]
fn encoding_target_looks_through_wrappers() {
    assert_eq!(resolve_encoding_target(&GqlType::Scalar(s("Int"))), EncodingTarget::SingleField);
    assert_eq!(resolve_encoding_target(&GqlType::Enum(s("Color"))), EncodingTarget::SingleField);
    assert_eq!(
        resolve_encoding_target(&GqlType::Object(s("User"))),
        EncodingTarget::Object(s("User"))
    );
    assert_eq!(
        resolve_encoding_target(&null_of(list_of_type(GqlType::Object(s("User"))))),
        EncodingTarget::Object(s("User"))
    );
    assert_eq!(
        resolve_encoding_target(&null_of(list_of_type(GqlType::Scalar(s("Int"))))),
        EncodingTarget::SingleField
    );
    assert_eq!(
        resolve_encoding_target(&function(
            vec![argument("x", GqlType::Object(s("Filter")), "Filter!")],
            list_of_type(GqlType::Object(s("Post")))
        )),
        EncodingTarget::Object(s("Post"))
    );
}

#[test]
fn decode_expression_of_each_variant() {
    assert_eq!(decode_to_code(&GqlType::Enum(s("Color"))), "value");
    assert_eq!(decode_to_code(&GqlType::Scalar(s("Date"))), "this.scalars.Date.decode(value)");
    assert_eq!(decode_to_code(&GqlType::Object(s("User"))), "decodeObject(value, this.User)");
    assert_eq!(
        decode_to_code(&null_of(GqlType::Scalar(s("Date")))),
        "decodeNull(value, value => this.scalars.Date.decode(value))"
    );
    assert_eq!(
        decode_to_code(&list_of_type(GqlType::Object(s("User")))),
        "decodeList(value, value => decodeObject(value, this.User))"
    );
    assert_eq!(
        decode_to_code(&function(
            vec![argument("x", GqlType::Scalar(s("Int")), "Int!")],
            null_of(GqlType::Enum(s("Color")))
        )),
        "decodeNull(value, value => value)"
    );
}

#[test]
fn encode_expression_of_each_variant() {
    assert_eq!(encode_to_code(&GqlType::Enum(s("Color"))), "value");
    assert_eq!(encode_to_code(&GqlType::Scalar(s("Date"))), "this.scalars.Date.encode(value)");
    assert_eq!(encode_to_code(&GqlType::Object(s("Filter"))), "encodeObject(value, this.Filter)");
    assert_eq!(
        encode_to_code(&null_of(list_of_type(null_of(GqlType::Scalar(s("String")))))),
        "encodeNull(value, value => encodeList(value, value => encodeNull(value, value => this.scalars.String.encode(value))))"
    );
}

#[test]
fn value_types_hold_no_function() {
    assert!(is_value_type(&GqlType::Scalar(s("Int"))));
    assert!(is_value_type(&null_of(list_of_type(GqlType::Object(s("User"))))));
    assert!(!is_value_type(&function(vec![], GqlType::Scalar(s("Int")))));
    assert!(!is_value_type(&list_of_type(function(vec![], GqlType::Scalar(s("Int"))))));
}

#[test]
fn arguments_must_be_value_types_to_be_encoded() {
    let plain = function(
        vec![argument("x", GqlType::Scalar(s("Int")), "Int!")],
        GqlType::Scalar(s("Int")),
    );
    let nested = function(
        vec![
            argument("x", GqlType::Scalar(s("Int")), "Int!"),
            argument("f", function(vec![], GqlType::Scalar(s("Int"))), "?"),
        ],
        GqlType::Scalar(s("Int")),
    );
    assert!(can_encode_arguments(&GqlType::Scalar(s("Int"))));
    assert!(can_encode_arguments(&plain));
    assert!(!can_encode_arguments(&nested));
    let good_inputs = vec![Object { name: s("In"), fields: vec![field("a", GqlType::Scalar(s("Int")))] }];
    let bad_inputs = vec![Object {
        name: s("In"),
        fields: vec![
            field("a", GqlType::Scalar(s("Int"))),
            field("b", function(vec![], GqlType::Scalar(s("Int")))),
        ],
    }];
    let good_outputs = vec![Object { name: s("Out"), fields: vec![field("f", plain)] }];
    let bad_outputs = vec![
        Object { name: s("Fine"), fields: vec![] },
        Object { name: s("Out"), fields: vec![field("f", nested)] },
    ];
    assert!(can_write_codec(&good_inputs, &good_outputs));
    assert!(can_write_codec(&vec![], &vec![]));
    assert!(!can_write_codec(&bad_inputs, &good_outputs));
    assert!(!can_write_codec(&good_inputs, &bad_outputs));
}

#[test]
fn schema_module_for_one_object() {
    let outputs = vec![Object {
        name: s("Query"),
        fields: vec![field("name", GqlType::Scalar(s("String")))],
    }];
    let scalars = vec![s("Boolean"), s("Float"), s("ID"), s("Int"), s("String")];
    let text =
        write_schema_ts(&vec![], &outputs, &scalars, &vec![], &layout("    ", "\n"), "graphql-freeze");
    let expected = "\
import { Scalar } from \"graphql-freeze\"
import { QFun, QList, QNull, QObject, QScalar, QEnum } from \"graphql-freeze\"

export interface Scalars {
    Boolean: Scalar<unknown, unknown>
    Float: Scalar<unknown, unknown>
    ID: Scalar<unknown, unknown>
    Int: Scalar<unknown, unknown>
    String: Scalar<unknown, unknown>
}

export function createScalars<T extends Scalars>(scalars: T): T {
    return scalars
}
export type ObjectSchema = {
    Query: {
        name: QScalar<\"String\">
    }
}

";
    assert_eq!(text, expected);
    assert!(text.contains("        name: QScalar<\"String\">\n"));
    assert!(!text.contains("QNull<"));
}

#[test]
fn schema_module_of_an_empty_document() {
    let text = write_schema_ts(&vec![], &vec![], &vec![], &vec![], &layout("  ", "\n"), "rt");
    let expected = "\
import { Scalar } from \"rt\"
import { QFun, QList, QNull, QObject, QScalar, QEnum } from \"rt\"

export interface Scalars {
}

export function createScalars<T extends Scalars>(scalars: T): T {
  return scalars
}
";
    assert_eq!(text, expected);
}

#[test]
fn schema_module_with_every_part() {
    let inputs = vec![Object {
        name: s("Filter"),
        fields: vec![
            field("tags", null_of(list_of_type(null_of(GqlType::Scalar(s("String")))))),
            field("color", GqlType::Enum(s("Color"))),
        ],
    }];
    let outputs = vec![
        Object {
            name: s("Query"),
            fields: vec![field(
                "users",
                function(
                    vec![argument("filter", null_of(GqlType::Object(s("Filter"))), "Filter")],
                    list_of_type(GqlType::Object(s("User"))),
                ),
            )],
        },
        Object { name: s("User"), fields: vec![] },
    ];
    let enums = vec![
        Enum { name: s("Color"), values: vec![s("RED"), s("BLUE")] },
        Enum { name: s("Empty"), values: vec![] },
    ];
    let scalars = vec![s("Int"), s("Date")];
    let text = write_schema_ts(&inputs, &outputs, &scalars, &enums, &layout("\t", "\r\n"), "pkg");
    let expected = "\
import { Scalar } from \"pkg\"\r
import { QFun, QList, QNull, QObject, QScalar, QEnum } from \"pkg\"\r
\r
export interface Scalars {\r
\tInt: Scalar<unknown, unknown>\r
\tDate: Scalar<unknown, unknown>\r
}\r
\r
export function createScalars<T extends Scalars>(scalars: T): T {\r
\treturn scalars\r
}\r
\r
export enum Color {\r
\tRED = \"RED\",\r
\tBLUE = \"BLUE\",\r
}\r
\r
export enum Empty {\r
}\r
export type ObjectSchema = {\r
\tQuery: {\r
\t\tusers: QFun<{ filter?: QNull<QObject<\"Filter\">> }, QList<QObject<\"User\">>>\r
\t}\r
\tUser: {\r
\t}\r
}\r
\r
export type InputObjectSchema = {\r
\tFilter: {\r
\t\ttags: QNull<QList<QNull<QScalar<\"String\">>>>\r
\t\tcolor: QEnum<Color>\r
\t}\r
}\r
";
    assert_eq!(text, expected);
}

#[test]
fn codec_module_for_one_object() {
    let outputs = vec![Object {
        name: s("Query"),
        fields: vec![field("name", GqlType::Scalar(s("String")))],
    }];
    let text = write_codec_ts(&vec![], &outputs, &layout("    ", "\n"), "graphql-freeze");
    let expected = "\
import { Scalars } from \"./index\"
import { Codec, Encoder, decodeNull, decodeList, decodeObject, encodeNull, encodeList, encodeObject } from \"graphql-freeze\"

export class SchemaCodec {
    public constructor(
        private readonly scalars: Scalars,
    ) { }

    public Query: Codec = {
        name: {
            decode: (value) => this.scalars.String.decode(value),
        },
    }
}
";
    assert_eq!(text, expected);
    assert!(!text.contains("decodeNull(value"));
}

#[test]
fn codec_module_nests_guards_for_input_list() {
    let inputs = vec![Object {
        name: s("Filter"),
        fields: vec![field("tags", null_of(list_of_type(null_of(GqlType::Scalar(s("String"))))))],
    }];
    let text = write_codec_ts(&inputs, &vec![], &layout("  ", "\n"), "rt");
    let expected = "\
import { Scalars } from \"./index\"
import { Codec, Encoder, decodeNull, decodeList, decodeObject, encodeNull, encodeList, encodeObject } from \"rt\"

export class SchemaCodec {
  public constructor(
    private readonly scalars: Scalars,
  ) { }

  public Filter: Encoder = {
    tags: (value) => encodeNull(value, value => encodeList(value, value => encodeNull(value, value => this.scalars.String.encode(value)))),
  }
}
";
    assert_eq!(text, expected);
}

#[test]
fn codec_module_with_arguments_and_object_targets() {
    let outputs = vec![
        Object {
            name: s("Query"),
            fields: vec![
                field(
                    "users",
                    function(
                        vec![
                            argument("filter", null_of(GqlType::Object(s("Filter"))), "Filter"),
                            argument("first", GqlType::Scalar(s("Int")), "Int!"),
                        ],
                        list_of_type(GqlType::Object(s("User"))),
                    ),
                ),
                field("mood", null_of(GqlType::Enum(s("Mood")))),
                field("ping", function(vec![], GqlType::Scalar(s("Int")))),
            ],
        },
        Object {
            name: s("User"),
            fields: vec![field("best", null_of(GqlType::Object(s("User"))))],
        },
    ];
    let text = write_codec_ts(&vec![], &outputs, &layout(" ", "\n"), "rt");
    let expected = "\
import { Scalars } from \"./index\"
import { Codec, Encoder, decodeNull, decodeList, decodeObject, encodeNull, encodeList, encodeObject } from \"rt\"

export class SchemaCodec {
 public constructor(
  private readonly scalars: Scalars,
 ) { }

 public Query: Codec = {
  users: {
   codec: () => this.User,
   decode: (value) => decodeList(value, value => decodeObject(value, this.User)),
   args: {
    filter: {
     type: \"Filter\",
     encode: (value) => encodeNull(value, value => encodeObject(value, this.Filter)),
    },
    first: {
     type: \"Int!\",
     encode: (value) => this.scalars.Int.encode(value),
    },
   }
  },
  mood: {
   decode: (value) => decodeNull(value, value => value),
  },
  ping: {
   decode: (value) => this.scalars.Int.decode(value),
   args: {
   }
  },
 }
 public User: Codec = {
  best: {
   codec: () => this.User,
   decode: (value) => decodeNull(value, value => decodeObject(value, this.User)),
  },
 }
}
";
    assert_eq!(text, expected);
}

#[test]
fn emission_is_repeatable() {
    let outputs = vec![Object {
        name: s("Query"),
        fields: vec![field("name", null_of(GqlType::Scalar(s("String"))))],
    }];
    let options = layout("    ", "\n");
    let scalars = vec![s("String")];
    assert_eq!(
        write_schema_ts(&vec![], &outputs, &scalars, &vec![], &options, "rt"),
        write_schema_ts(&vec![], &outputs, &scalars, &vec![], &options, "rt")
    );
    assert_eq!(
        write_codec_ts(&vec![], &outputs, &options, "rt"),
        write_codec_ts(&vec![], &outputs, &options, "rt")
    );
}
