//! The two emitters: the type-definitions module and the codec module.

use vstd::prelude::*;
use vstd::string::StringExecFns;
use crate::code_writer::{lemma_rendered_push, rendered, CodeFile, CodeFileOptions, Line};
use crate::schema::{
    enums_model, fields_model, objects_model, ArgumentModel, DocumentModel, Enum, EnumModel,
    Field, FieldModel, GqlType, Object, ObjectModel, TypeModel,
};
use crate::text::{concat2, concat3, join, joined, strings_model};

verus! {

/// How an argument appears in the record of a function type: optional iff its
/// type admits null.
pub open spec fn argument_code(argument: ArgumentModel) -> Seq<char>
    decreases argument,
{
    argument.name + (if argument.argument_type is Nullable {
        "?: "@
    } else {
        ": "@
    }) + type_code(argument.argument_type)
}

/// The codes of the arguments of a function type, in order.
pub open spec fn argument_codes(inputs: Seq<ArgumentModel>) -> Seq<Seq<char>>
    decreases inputs,
{
    Seq::new(
        inputs.len(),
        |i: int|
            if 0 <= i < inputs.len() {
                argument_code(inputs[i])
            } else {
                arbitrary()
            },
    )
}

/// The TypeScript type that stands for a type of the model.
pub open spec fn type_code(gql_type: TypeModel) -> Seq<char>
    decreases gql_type,
{
    match gql_type {
        TypeModel::List(inner) => "QList<"@ + type_code(*inner) + ">"@,
        TypeModel::Nullable(inner) => "QNull<"@ + type_code(*inner) + ">"@,
        TypeModel::Scalar(name) => "QScalar<\""@ + name + "\">"@,
        TypeModel::Enum(name) => "QEnum<"@ + name + ">"@,
        TypeModel::Object(name) => "QObject<\""@ + name + "\">"@,
        TypeModel::Function { inputs, output } => "QFun<{ "@ + joined(
            argument_codes(inputs),
            ", "@,
        ) + " }, "@ + type_code(*output) + ">"@,
    }
}

/// Writes a type of the model as a TypeScript type.
pub fn gql_type_to_code(gql_type: &GqlType) -> (code: String)
    ensures
        code@ == type_code(gql_type@),
    decreases gql_type,
{
    match gql_type {
        GqlType::List(inner) => {
            let inner_code = gql_type_to_code(inner);
            concat3("QList<", inner_code.as_str(), ">")
        },
        GqlType::Nullable(inner) => {
            let inner_code = gql_type_to_code(inner);
            concat3("QNull<", inner_code.as_str(), ">")
        },
        GqlType::Scalar(name) => concat3("QScalar<\"", name.as_str(), "\">"),
        GqlType::Enum(name) => concat3("QEnum<", name.as_str(), ">"),
        GqlType::Object(name) => concat3("QObject<\"", name.as_str(), "\">"),
        GqlType::Function { inputs, output } => {
            let mut input_as_code: Vec<String> = Vec::new();
            let mut i: usize = 0;
            while i < inputs.len()
                invariant
                    i <= inputs.len(),
                    gql_type == (GqlType::Function { inputs: *inputs, output: *output }),
                    input_as_code@.len() == i,
                    forall|k: int|
                        0 <= k < i ==> (#[trigger] input_as_code@[k])@ == argument_code(
                            inputs@[k]@,
                        ),
                decreases inputs.len() - i,
            {
                let argument = &inputs[i];
                proof {
                    assert(gql_type->inputs == *inputs);
                }
                let argument_type_code = gql_type_to_code(&argument.argument_type);
                let separator = match &argument.argument_type {
                    GqlType::Nullable(_) => "?: ",
                    _ => ": ",
                };
                let code = concat3(argument.name.as_str(), separator, argument_type_code.as_str());
                input_as_code.push(code);
                i = i + 1;
            }
            let arguments = join(&input_as_code, ", ");
            let output_code = gql_type_to_code(output);
            proof {
                assert(strings_model(input_as_code@) =~= argument_codes(gql_type@->inputs));
            }
            let mut code = String::new();
            code.append("QFun<{ ");
            code.append(arguments.as_str());
            code.append(" }, ");
            code.append(output_code.as_str());
            code.append(">");
            code
        },
    }
}

/// A line of code at a depth.
pub open spec fn code_line(depth: nat, code: Seq<char>) -> Line {
    Line::Code { depth, code }
}

/// The members of the scalar registry: one slot per scalar.
pub open spec fn scalar_lines(scalars: Seq<Seq<char>>) -> Seq<Line> {
    Seq::new(scalars.len(), |i: int| code_line(1, scalars[i] + ": Scalar<unknown, unknown>"@))
}

/// The members of an enumeration: each member's value is its own name.
pub open spec fn member_lines(members: Seq<Seq<char>>) -> Seq<Line> {
    Seq::new(
        members.len(),
        |i: int| code_line(1, members[i] + " = \""@ + members[i] + "\","@),
    )
}

/// One enumeration, after an empty line.
pub open spec fn enum_lines(enum_def: EnumModel) -> Seq<Line> {
    seq![Line::Blank, code_line(0, "export enum "@ + enum_def.name + " {"@)] + member_lines(
        enum_def.values,
    ) + seq![code_line(0, "}"@)]
}

/// All enumerations, in order.
pub open spec fn enums_lines(enums: Seq<EnumModel>) -> Seq<Line>
    decreases enums.len(),
{
    if enums.len() == 0 {
        Seq::empty()
    } else {
        enums_lines(enums.drop_last()) + enum_lines(enums.last())
    }
}

/// The fields of a structural record type, one line each.
pub open spec fn field_lines(fields: Seq<FieldModel>) -> Seq<Line> {
    Seq::new(
        fields.len(),
        |i: int| code_line(2, fields[i].name + ": "@ + type_code(fields[i].field_type)),
    )
}

/// One object as a member of a structural type.
pub open spec fn object_lines(object: ObjectModel) -> Seq<Line> {
    seq![code_line(1, object.name + ": {"@)] + field_lines(object.fields) + seq![
        code_line(1, "}"@),
    ]
}

/// All objects of one structural type, in order.
pub open spec fn objects_lines(objects: Seq<ObjectModel>) -> Seq<Line>
    decreases objects.len(),
{
    if objects.len() == 0 {
        Seq::empty()
    } else {
        objects_lines(objects.drop_last()) + object_lines(objects.last())
    }
}

/// A structural type that lists `objects`, opened by `opening`.
pub open spec fn structural_type_lines(opening: Seq<char>, objects: Seq<ObjectModel>) -> Seq<
    Line,
> {
    seq![code_line(0, opening)] + objects_lines(objects) + seq![code_line(0, "}"@)]
}

/// The lines of the type-definitions module: imports from the runtime
/// package, the scalar registry and its builder, the enumerations, then the
/// structural type of the output objects followed by an empty line, and that
/// of the input objects, each only if there is such an object.
pub open spec fn schema_lines(document: DocumentModel, runtime: Seq<char>) -> Seq<Line> {
    seq![
        code_line(0, "import { Scalar } from \""@ + runtime + "\""@),
        code_line(
            0,
            "import { QFun, QList, QNull, QObject, QScalar, QEnum } from \""@ + runtime + "\""@,
        ),
        Line::Blank,
        code_line(0, "export interface Scalars {"@),
    ] + scalar_lines(document.scalars) + seq![
        code_line(0, "}"@),
        Line::Blank,
        code_line(0, "export function createScalars<T extends Scalars>(scalars: T): T {"@),
        code_line(1, "return scalars"@),
        code_line(0, "}"@),
    ] + enums_lines(document.enums) + (if document.outputs.len() == 0 {
        Seq::empty()
    } else {
        structural_type_lines("export type ObjectSchema = {"@, document.outputs) + seq![
            Line::Blank,
        ]
    }) + (if document.inputs.len() == 0 {
        Seq::empty()
    } else {
        structural_type_lines("export type InputObjectSchema = {"@, document.inputs)
    })
}

/// The text of the type-definitions module under a layout.
pub open spec fn schema_text(
    document: DocumentModel,
    indent: Seq<char>,
    line_break: Seq<char>,
    runtime: Seq<char>,
) -> Seq<char> {
    rendered(schema_lines(document, runtime), indent, line_break)
}

/// A file under construction together with the lines it holds.
struct Page {
    file: CodeFile,
    lines: Ghost<Seq<Line>>,
}

impl Page {
    spec fn lines(&self) -> Seq<Line> {
        self.lines@
    }

    spec fn depth(&self) -> nat {
        self.file.depth()
    }

    /// The file holds the text of the lines, under the layout of `options`.
    spec fn holds(&self, options: &CodeFileOptions) -> bool {
        &&& self.file.indent_unit() == options.indent@
        &&& self.file.terminator() == options.line_break@
        &&& self.file.content() == rendered(self.lines@, options.indent@, options.line_break@)
    }

    fn new(options: &CodeFileOptions) -> (page: Page)
        ensures
            page.holds(options),
            page.lines() == Seq::<Line>::empty(),
            page.depth() == 0,
    {
        Page { file: CodeFile::new(options), lines: Ghost(Seq::empty()) }
    }

    fn line(&mut self, code: &str, options: &CodeFileOptions)
        requires
            old(self).holds(options),
        ensures
            final(self).holds(options),
            final(self).lines() == old(self).lines().push(code_line(old(self).depth(), code@)),
            final(self).depth() == old(self).depth(),
    {
        proof {
            lemma_rendered_push(
                self.lines@,
                code_line(self.depth(), code@),
                options.indent@,
                options.line_break@,
            );
        }
        self.file.line(code);
        self.lines = Ghost(self.lines@.push(code_line(old(self).depth(), code@)));
    }

    fn blank_line(&mut self, options: &CodeFileOptions)
        requires
            old(self).holds(options),
        ensures
            final(self).holds(options),
            final(self).lines() == old(self).lines().push(Line::Blank),
            final(self).depth() == old(self).depth(),
    {
        proof {
            lemma_rendered_push(self.lines@, Line::Blank, options.indent@, options.line_break@);
        }
        self.file.blank_line();
        self.lines = Ghost(self.lines@.push(Line::Blank));
    }

    fn begin_indent(&mut self, code: &str, options: &CodeFileOptions)
        requires
            old(self).holds(options),
            old(self).depth() < usize::MAX,
        ensures
            final(self).holds(options),
            final(self).lines() == old(self).lines().push(code_line(old(self).depth(), code@)),
            final(self).depth() == old(self).depth() + 1,
    {
        proof {
            lemma_rendered_push(
                self.lines@,
                code_line(self.depth(), code@),
                options.indent@,
                options.line_break@,
            );
        }
        self.file.begin_indent(code);
        self.lines = Ghost(self.lines@.push(code_line(old(self).depth(), code@)));
    }

    fn end_indent(&mut self, code: &str, options: &CodeFileOptions)
        requires
            old(self).holds(options),
            old(self).depth() > 0,
        ensures
            final(self).holds(options),
            final(self).lines() == old(self).lines().push(
                code_line((old(self).depth() - 1) as nat, code@),
            ),
            final(self).depth() == old(self).depth() - 1,
    {
        proof {
            lemma_rendered_push(
                self.lines@,
                code_line((self.depth() - 1) as nat, code@),
                options.indent@,
                options.line_break@,
            );
        }
        self.file.end_indent(code);
        self.lines = Ghost(self.lines@.push(code_line((old(self).depth() - 1) as nat, code@)));
    }

    fn build_string(self, options: &CodeFileOptions) -> (text: String)
        requires
            self.holds(options),
        ensures
            text@ == rendered(self.lines(), options.indent@, options.line_break@),
    {
        self.file.build_string()
    }
}

/// Appends the members of one structural type.
fn write_objects(page: &mut Page, objects: &Vec<Object>, options: &CodeFileOptions)
    requires
        old(page).holds(options),
        old(page).depth() == 1,
    ensures
        final(page).holds(options),
        final(page).depth() == 1,
        final(page).lines() == old(page).lines() + objects_lines(objects_model(objects@)),
{
    let ghost before = page.lines();
    let ghost models = objects_model(objects@);
    let mut i: usize = 0;
    while i < objects.len()
        invariant
            i <= objects.len(),
            models == objects_model(objects@),
            page.holds(options),
            page.depth() == 1,
            page.lines() == before + objects_lines(models.take(i as int)),
        decreases objects.len() - i,
    {
        let object = &objects[i];
        let ghost fields = fields_model(object.fields@);
        let opening = concat2(object.name.as_str(), ": {");
        page.begin_indent(opening.as_str(), options);
        let ghost opened = page.lines();
        let mut k: usize = 0;
        while k < object.fields.len()
            invariant
                k <= object.fields.len(),
                fields == fields_model(object.fields@),
                page.holds(options),
                page.depth() == 2,
                page.lines() == opened + field_lines(fields.take(k as int)),
            decreases object.fields.len() - k,
        {
            let field = &object.fields[k];
            let type_text = gql_type_to_code(&field.field_type);
            let code = concat3(field.name.as_str(), ": ", type_text.as_str());
            page.line(code.as_str(), options);
            k = k + 1;
        }
        page.end_indent("}", options);
        i = i + 1;
        proof {
            let next = models.take(i as int);
            assert(next.drop_last() =~= models.take(i - 1));
        }
    }
    assert(models.take(i as int) =~= models);
}

/// Appends one structural type that lists `objects`.
fn write_structural_type(
    page: &mut Page,
    opening: &str,
    objects: &Vec<Object>,
    options: &CodeFileOptions,
)
    requires
        old(page).holds(options),
        old(page).depth() == 0,
    ensures
        final(page).holds(options),
        final(page).depth() == 0,
        final(page).lines() == old(page).lines() + structural_type_lines(
            opening@,
            objects_model(objects@),
        ),
{
    page.begin_indent(opening, options);
    write_objects(page, objects, options);
    page.end_indent("}", options);
}

/// Appends the enumerations.
fn write_enums(page: &mut Page, enums: &Vec<Enum>, options: &CodeFileOptions)
    requires
        old(page).holds(options),
        old(page).depth() == 0,
    ensures
        final(page).holds(options),
        final(page).depth() == 0,
        final(page).lines() == old(page).lines() + enums_lines(enums_model(enums@)),
{
    let ghost before = page.lines();
    let ghost models = enums_model(enums@);
    let mut i: usize = 0;
    while i < enums.len()
        invariant
            i <= enums.len(),
            models == enums_model(enums@),
            page.holds(options),
            page.depth() == 0,
            page.lines() == before + enums_lines(models.take(i as int)),
        decreases enums.len() - i,
    {
        let enum_def = &enums[i];
        let ghost members = strings_model(enum_def.values@);
        page.blank_line(options);
        let opening = concat3("export enum ", enum_def.name.as_str(), " {");
        page.begin_indent(opening.as_str(), options);
        let ghost opened = page.lines();
        let mut k: usize = 0;
        while k < enum_def.values.len()
            invariant
                k <= enum_def.values.len(),
                members == strings_model(enum_def.values@),
                page.holds(options),
                page.depth() == 1,
                page.lines() == opened + member_lines(members.take(k as int)),
            decreases enum_def.values.len() - k,
        {
            let member = &enum_def.values[k];
            let mut code = String::new();
            code.append(member.as_str());
            code.append(" = \"");
            code.append(member.as_str());
            code.append("\",");
            page.line(code.as_str(), options);
            k = k + 1;
        }
        page.end_indent("}", options);
        i = i + 1;
        proof {
            let next = models.take(i as int);
            assert(next.drop_last() =~= models.take(i - 1));
        }
    }
    assert(models.take(i as int) =~= models);
}

/// The text of the type-definitions module for the given parts of a document.
pub fn write_schema_ts(
    inputs: &Vec<Object>,
    outputs: &Vec<Object>,
    scalars: &Vec<String>,
    enums: &Vec<Enum>,
    options: &CodeFileOptions,
    runtime: &str,
) -> (text: String)
    ensures
        text@ == schema_text(
            DocumentModel {
                inputs: objects_model(inputs@),
                outputs: objects_model(outputs@),
                enums: enums_model(enums@),
                scalars: strings_model(scalars@),
            },
            options.indent@,
            options.line_break@,
            runtime@,
        ),
{
    let ghost document = DocumentModel {
        inputs: objects_model(inputs@),
        outputs: objects_model(outputs@),
        enums: enums_model(enums@),
        scalars: strings_model(scalars@),
    };
    let mut page = Page::new(options);
    let import_scalar = concat3("import { Scalar } from \"", runtime, "\"");
    page.line(import_scalar.as_str(), options);
    let import_types = concat3(
        "import { QFun, QList, QNull, QObject, QScalar, QEnum } from \"",
        runtime,
        "\"",
    );
    page.line(import_types.as_str(), options);
    page.blank_line(options);

    page.begin_indent("export interface Scalars {", options);
    let ghost opened = page.lines();
    let mut i: usize = 0;
    while i < scalars.len()
        invariant
            i <= scalars.len(),
            document.scalars == strings_model(scalars@),
            page.holds(options),
            page.depth() == 1,
            page.lines() == opened + scalar_lines(document.scalars.take(i as int)),
        decreases scalars.len() - i,
    {
        let code = concat2(scalars[i].as_str(), ": Scalar<unknown, unknown>");
        page.line(code.as_str(), options);
        i = i + 1;
    }
    page.end_indent("}", options);

    page.blank_line(options);
    page.begin_indent(
        "export function createScalars<T extends Scalars>(scalars: T): T {",
        options,
    );
    page.line("return scalars", options);
    page.end_indent("}", options);

    write_enums(&mut page, enums, options);

    if outputs.len() != 0 {
        write_structural_type(&mut page, "export type ObjectSchema = {", outputs, options);
        page.blank_line(options);
    }
    if inputs.len() != 0 {
        write_structural_type(&mut page, "export type InputObjectSchema = {", inputs, options);
    }
    proof {
        assert(page.lines() =~= schema_lines(document, runtime@));
    }
    page.build_string(options)
}

/// Which codec a field's value is handed to.
#[derive(Debug, PartialEq, Eq)]
pub enum EncodingTarget {
    /// The value is a scalar or an enumeration member, at any depth of lists
    /// and nulls: no other codec is involved.
    SingleField,
    /// The value is, at some depth, the named object: that object's codec.
    Object(String),
}

impl View for EncodingTarget {
    type V = Option<Seq<char>>;

    open spec fn view(&self) -> Option<Seq<char>> {
        match self {
            EncodingTarget::SingleField => None,
            EncodingTarget::Object(name) => Some(name@),
        }
    }
}

/// The name of the object at the core of a type, if there is one: lists, nulls
/// and arguments are looked through.
pub open spec fn encoding_target(gql_type: TypeModel) -> Option<Seq<char>>
    decreases gql_type,
{
    match gql_type {
        TypeModel::Scalar(_) => None,
        TypeModel::Enum(_) => None,
        TypeModel::Nullable(inner) => encoding_target(*inner),
        TypeModel::List(inner) => encoding_target(*inner),
        TypeModel::Object(name) => Some(name),
        TypeModel::Function { output, .. } => encoding_target(*output),
    }
}

/// The expression that decodes `value` as a type: a null guard per `Nullable`,
/// an element mapping per `List`, then the scalar's decoder, the enumeration
/// member itself, or the named object's codec. For a function type, the
/// expression of its output.
pub open spec fn decode_code(gql_type: TypeModel) -> Seq<char>
    decreases gql_type,
{
    match gql_type {
        TypeModel::Nullable(inner) => "decodeNull(value, value => "@ + decode_code(*inner) + ")"@,
        TypeModel::List(inner) => "decodeList(value, value => "@ + decode_code(*inner) + ")"@,
        TypeModel::Enum(_) => "value"@,
        TypeModel::Scalar(name) => "this.scalars."@ + name + ".decode(value)"@,
        TypeModel::Object(name) => "decodeObject(value, this."@ + name + ")"@,
        TypeModel::Function { output, .. } => decode_code(*output),
    }
}

/// The expression that encodes `value` as a value type, built like
/// `decode_code`. A function type has no such expression.
pub open spec fn encode_code(gql_type: TypeModel) -> Seq<char>
    recommends
        gql_type.is_value_type(),
    decreases gql_type,
{
    match gql_type {
        TypeModel::Nullable(inner) => "encodeNull(value, value => "@ + encode_code(*inner) + ")"@,
        TypeModel::List(inner) => "encodeList(value, value => "@ + encode_code(*inner) + ")"@,
        TypeModel::Enum(_) => "value"@,
        TypeModel::Scalar(name) => "this.scalars."@ + name + ".encode(value)"@,
        TypeModel::Object(name) => "encodeObject(value, this."@ + name + ")"@,
        TypeModel::Function { .. } => Seq::empty(),
    }
}

/// Finds the object whose codec a field's value is handed to.
pub fn resolve_encoding_target(gql_type: &GqlType) -> (target: EncodingTarget)
    ensures
        target@ == encoding_target(gql_type@),
    decreases gql_type,
{
    match gql_type {
        GqlType::Scalar(_) => EncodingTarget::SingleField,
        GqlType::Enum(_) => EncodingTarget::SingleField,
        GqlType::Nullable(inner) => resolve_encoding_target(inner),
        GqlType::List(inner) => resolve_encoding_target(inner),
        GqlType::Object(name) => EncodingTarget::Object(name.clone()),
        GqlType::Function { inputs, output } => {
            resolve_encoding_target(output)
        },
    }
}

/// Writes the expression that decodes `value` as `gql_type`.
pub fn decode_to_code(gql_type: &GqlType) -> (code: String)
    ensures
        code@ == decode_code(gql_type@),
    decreases gql_type,
{
    match gql_type {
        GqlType::Nullable(inner) => {
            let inner_code = decode_to_code(inner);
            concat3("decodeNull(value, value => ", inner_code.as_str(), ")")
        },
        GqlType::List(inner) => {
            let inner_code = decode_to_code(inner);
            concat3("decodeList(value, value => ", inner_code.as_str(), ")")
        },
        GqlType::Enum(_) => "value".to_string(),
        GqlType::Scalar(name) => concat3("this.scalars.", name.as_str(), ".decode(value)"),
        GqlType::Object(name) => concat3("decodeObject(value, this.", name.as_str(), ")"),
        GqlType::Function { inputs, output } => {
            decode_to_code(output)
        },
    }
}

/// Writes the expression that encodes `value` as `gql_type`, which must be a
/// value type: a field with arguments is encoded argument by argument.
pub fn encode_to_code(gql_type: &GqlType) -> (code: String)
    requires
        gql_type@.is_value_type(),
    ensures
        code@ == encode_code(gql_type@),
    decreases gql_type,
{
    match gql_type {
        GqlType::Nullable(inner) => {
            let inner_code = encode_to_code(inner);
            concat3("encodeNull(value, value => ", inner_code.as_str(), ")")
        },
        GqlType::List(inner) => {
            let inner_code = encode_to_code(inner);
            concat3("encodeList(value, value => ", inner_code.as_str(), ")")
        },
        GqlType::Enum(_) => "value".to_string(),
        GqlType::Scalar(name) => concat3("this.scalars.", name.as_str(), ".encode(value)"),
        GqlType::Object(name) => concat3("encodeObject(value, this.", name.as_str(), ")"),
        GqlType::Function { inputs, output } => {
            String::new()
        },
    }
}

/// The arguments of a field's type: none unless it is a function type.
pub open spec fn arguments_of(gql_type: TypeModel) -> Seq<ArgumentModel> {
    match gql_type {
        TypeModel::Function { inputs, .. } => inputs,
        _ => Seq::empty(),
    }
}

/// Every argument of the field's type can be encoded.
pub open spec fn has_encodable_arguments(gql_type: TypeModel) -> bool {
    forall|i: int|
        0 <= i < arguments_of(gql_type).len() ==> (#[trigger] arguments_of(
            gql_type,
        )[i]).argument_type.is_value_type()
}

/// Every field of every object is one whose arguments can be encoded.
pub open spec fn have_encodable_arguments(objects: Seq<ObjectModel>) -> bool {
    forall|i: int, j: int|
        0 <= i < objects.len() && 0 <= j < objects[i].fields.len() ==> has_encodable_arguments(
            (#[trigger] objects[i].fields[j]).field_type,
        )
}

/// Every object holds values only.
pub open spec fn are_inputs(objects: Seq<ObjectModel>) -> bool {
    forall|i: int| 0 <= i < objects.len() ==> (#[trigger] objects[i]).is_input()
}

/// Whether no function type occurs in a type.
pub fn is_value_type(gql_type: &GqlType) -> (value: bool)
    ensures
        value == gql_type@.is_value_type(),
    decreases gql_type,
{
    match gql_type {
        GqlType::List(inner) => is_value_type(inner),
        GqlType::Nullable(inner) => is_value_type(inner),
        GqlType::Function { inputs, output } => {
            false
        },
        _ => true,
    }
}

/// Whether every argument of a field's type can be encoded.
pub fn can_encode_arguments(gql_type: &GqlType) -> (possible: bool)
    ensures
        possible == has_encodable_arguments(gql_type@),
{
    match gql_type {
        GqlType::Function { inputs, output } => {
            let ghost models = arguments_of(gql_type@);
            let mut i: usize = 0;
            while i < inputs.len()
                invariant
                    i <= inputs.len(),
                    models == crate::schema::arguments_model(inputs@),
                    models == arguments_of(gql_type@),
                    forall|k: int| 0 <= k < i ==> (#[trigger] models[k]).argument_type.is_value_type(),
                decreases inputs.len() - i,
            {
                if !is_value_type(&inputs[i].argument_type) {
                    assert(!models[i as int].argument_type.is_value_type());
                    return false;
                }
                i = i + 1;
            }
            true
        },
        _ => true,
    }
}

/// Whether the codec module can be written for these objects: the input
/// objects hold values only, and so do the arguments of the output fields.
pub fn can_write_codec(inputs: &Vec<Object>, outputs: &Vec<Object>) -> (possible: bool)
    ensures
        possible == (are_inputs(objects_model(inputs@)) && have_encodable_arguments(
            objects_model(outputs@),
        )),
{
    let ghost input_models = objects_model(inputs@);
    let mut i: usize = 0;
    while i < inputs.len()
        invariant
            i <= inputs.len(),
            input_models == objects_model(inputs@),
            forall|k: int| 0 <= k < i ==> (#[trigger] input_models[k]).is_input(),
        decreases inputs.len() - i,
    {
        let object = &inputs[i];
        let ghost fields = fields_model(object.fields@);
        let mut j: usize = 0;
        while j < object.fields.len()
            invariant
                j <= object.fields.len(),
                i < inputs.len(),
                input_models == objects_model(inputs@),
                object == &inputs[i as int],
                fields == input_models[i as int].fields,
                fields == fields_model(object.fields@),
                forall|k: int| 0 <= k < j ==> (#[trigger] fields[k]).field_type.is_value_type(),
            decreases object.fields.len() - j,
        {
            if !is_value_type(&object.fields[j].field_type) {
                assert(!fields[j as int].field_type.is_value_type());
                return false;
            }
            j = j + 1;
        }
        i = i + 1;
    }
    let ghost output_models = objects_model(outputs@);
    let mut i: usize = 0;
    while i < outputs.len()
        invariant
            i <= outputs.len(),
            output_models == objects_model(outputs@),
            forall|k: int, l: int|
                0 <= k < i && 0 <= l < output_models[k].fields.len() ==> has_encodable_arguments(
                    (#[trigger] output_models[k].fields[l]).field_type,
                ),
        decreases outputs.len() - i,
    {
        let object = &outputs[i];
        let ghost fields = fields_model(object.fields@);
        let mut j: usize = 0;
        while j < object.fields.len()
            invariant
                j <= object.fields.len(),
                i < outputs.len(),
                output_models == objects_model(outputs@),
                object == &outputs[i as int],
                fields == output_models[i as int].fields,
                fields == fields_model(object.fields@),
                forall|l: int|
                    0 <= l < j ==> has_encodable_arguments((#[trigger] fields[l]).field_type),
            decreases object.fields.len() - j,
        {
            if !can_encode_arguments(&object.fields[j].field_type) {
                assert(!has_encodable_arguments(
                    output_models[i as int].fields[j as int].field_type,
                ));
                return false;
            }
            j = j + 1;
        }
        i = i + 1;
    }
    true
}

/// The codec module can be written for every well-formed document.
pub proof fn lemma_well_formed_has_codec(document: DocumentModel)
    requires
        document.well_formed(),
    ensures
        are_inputs(document.inputs),
        have_encodable_arguments(document.outputs),
{
}

/// The encoders of an input object's fields.
pub open spec fn encoder_field_lines(fields: Seq<FieldModel>) -> Seq<Line> {
    Seq::new(
        fields.len(),
        |i: int|
            code_line(
                2,
                fields[i].name + ": (value) => "@ + encode_code(fields[i].field_type) + ","@,
            ),
    )
}

/// The encoder member of one input object.
pub open spec fn encoder_lines(object: ObjectModel) -> Seq<Line> {
    seq![code_line(1, "public "@ + object.name + ": Encoder = {"@)] + encoder_field_lines(
        object.fields,
    ) + seq![code_line(1, "}"@)]
}

/// The encoder members of all input objects, in order.
pub open spec fn encoders_lines(objects: Seq<ObjectModel>) -> Seq<Line>
    decreases objects.len(),
{
    if objects.len() == 0 {
        Seq::empty()
    } else {
        encoders_lines(objects.drop_last()) + encoder_lines(objects.last())
    }
}

/// The entry of one argument: its declared type and its encoder.
pub open spec fn argument_lines(argument: ArgumentModel) -> Seq<Line> {
    seq![
        code_line(4, argument.name + ": {"@),
        code_line(5, "type: \""@ + argument.declared_type + "\","@),
        code_line(5, "encode: (value) => "@ + encode_code(argument.argument_type) + ","@),
        code_line(4, "},"@),
    ]
}

/// The entries of all arguments of a field, in order.
pub open spec fn arguments_lines(arguments: Seq<ArgumentModel>) -> Seq<Line>
    decreases arguments.len(),
{
    if arguments.len() == 0 {
        Seq::empty()
    } else {
        arguments_lines(arguments.drop_last()) + argument_lines(arguments.last())
    }
}

/// The entry of one field of an output object: a reference to the codec of the
/// object at the core of its type, if there is one; its decoder; and, for a
/// field with arguments, their entries.
pub open spec fn codec_field_lines(field: FieldModel) -> Seq<Line> {
    seq![code_line(2, field.name + ": {"@)] + (match encoding_target(field.field_type) {
        None => Seq::empty(),
        Some(name) => seq![code_line(3, "codec: () => this."@ + name + ","@)],
    }) + seq![code_line(3, "decode: (value) => "@ + decode_code(field.field_type) + ","@)] + (
    if field.field_type is Function {
        seq![code_line(3, "args: {"@)] + arguments_lines(arguments_of(field.field_type)) + seq![
            code_line(3, "}"@),
        ]
    } else {
        Seq::empty()
    }) + seq![code_line(2, "},"@)]
}

/// The entries of all fields of an output object, in order.
pub open spec fn codec_fields_lines(fields: Seq<FieldModel>) -> Seq<Line>
    decreases fields.len(),
{
    if fields.len() == 0 {
        Seq::empty()
    } else {
        codec_fields_lines(fields.drop_last()) + codec_field_lines(fields.last())
    }
}

/// The codec member of one output object.
pub open spec fn codec_lines(object: ObjectModel) -> Seq<Line> {
    seq![code_line(1, "public "@ + object.name + ": Codec = {"@)] + codec_fields_lines(
        object.fields,
    ) + seq![code_line(1, "}"@)]
}

/// The codec members of all output objects, in order.
pub open spec fn codecs_lines(objects: Seq<ObjectModel>) -> Seq<Line>
    decreases objects.len(),
{
    if objects.len() == 0 {
        Seq::empty()
    } else {
        codecs_lines(objects.drop_last()) + codec_lines(objects.last())
    }
}

/// The lines of the codec module: imports, then one class that takes the
/// scalar registry and holds an encoder per input object and a codec per
/// output object.
pub open spec fn codec_module_lines(
    inputs: Seq<ObjectModel>,
    outputs: Seq<ObjectModel>,
    runtime: Seq<char>,
) -> Seq<Line> {
    seq![
        code_line(0, "import { Scalars } from \""@ + "./index"@ + "\""@),
        code_line(
            0,
            "import { Codec, Encoder, decodeNull, decodeList, decodeObject, encodeNull, encodeList, encodeObject } from \""@
                + runtime + "\""@,
        ),
        Line::Blank,
        code_line(0, "export class SchemaCodec {"@),
        code_line(1, "public constructor("@),
        code_line(2, "private readonly scalars: Scalars,"@),
        code_line(1, ") { }"@),
        Line::Blank,
    ] + encoders_lines(inputs) + codecs_lines(outputs) + seq![code_line(0, "}"@)]
}

/// The text of the codec module under a layout.
pub open spec fn codec_text(
    inputs: Seq<ObjectModel>,
    outputs: Seq<ObjectModel>,
    indent: Seq<char>,
    line_break: Seq<char>,
    runtime: Seq<char>,
) -> Seq<char> {
    rendered(codec_module_lines(inputs, outputs, runtime), indent, line_break)
}

/// Appends the encoder members of the input objects.
fn write_encoders(page: &mut Page, inputs: &Vec<Object>, options: &CodeFileOptions)
    requires
        old(page).holds(options),
        old(page).depth() == 1,
        are_inputs(objects_model(inputs@)),
    ensures
        final(page).holds(options),
        final(page).depth() == 1,
        final(page).lines() == old(page).lines() + encoders_lines(objects_model(inputs@)),
{
    let ghost before = page.lines();
    let ghost models = objects_model(inputs@);
    let mut i: usize = 0;
    while i < inputs.len()
        invariant
            i <= inputs.len(),
            models == objects_model(inputs@),
            are_inputs(models),
            page.holds(options),
            page.depth() == 1,
            page.lines() == before + encoders_lines(models.take(i as int)),
        decreases inputs.len() - i,
    {
        let object = &inputs[i];
        let ghost fields = fields_model(object.fields@);
        assert(models[i as int].is_input());
        let opening = concat3("public ", object.name.as_str(), ": Encoder = {");
        page.begin_indent(opening.as_str(), options);
        let ghost opened = page.lines();
        let mut k: usize = 0;
        while k < object.fields.len()
            invariant
                k <= object.fields.len(),
                fields == fields_model(object.fields@),
                forall|j: int| 0 <= j < fields.len() ==> (#[trigger] fields[j]).field_type.is_value_type(),
                page.holds(options),
                page.depth() == 2,
                page.lines() == opened + encoder_field_lines(fields.take(k as int)),
            decreases object.fields.len() - k,
        {
            let field = &object.fields[k];
            assert(fields[k as int].field_type.is_value_type());
            let expression = encode_to_code(&field.field_type);
            let mut code = String::new();
            code.append(field.name.as_str());
            code.append(": (value) => ");
            code.append(expression.as_str());
            code.append(",");
            page.line(code.as_str(), options);
            k = k + 1;
        }
        page.end_indent("}", options);
        i = i + 1;
        proof {
            let next = models.take(i as int);
            assert(next.drop_last() =~= models.take(i - 1));
        }
    }
    assert(models.take(i as int) =~= models);
}

/// Appends the entries of the arguments of a field.
fn write_arguments(page: &mut Page, field_type: &GqlType, options: &CodeFileOptions)
    requires
        old(page).holds(options),
        old(page).depth() == 4,
        has_encodable_arguments(field_type@),
    ensures
        final(page).holds(options),
        final(page).depth() == 4,
        final(page).lines() == old(page).lines() + arguments_lines(arguments_of(field_type@)),
{
    let ghost before = page.lines();
    let ghost models = arguments_of(field_type@);
    if let GqlType::Function { inputs, output } = field_type {
        let mut i: usize = 0;
        while i < inputs.len()
            invariant
                i <= inputs.len(),
                models == crate::schema::arguments_model(inputs@),
                forall|j: int|
                    0 <= j < models.len() ==> (#[trigger] models[j]).argument_type.is_value_type(),
                page.holds(options),
                page.depth() == 4,
                page.lines() == before + arguments_lines(models.take(i as int)),
            decreases inputs.len() - i,
        {
            let input = &inputs[i];
            assert(models[i as int].argument_type.is_value_type());
            let opening = concat2(input.name.as_str(), ": {");
            page.begin_indent(opening.as_str(), options);
            let declared = concat3("type: \"", input.declared_type.as_str(), "\",");
            page.line(declared.as_str(), options);
            let expression = encode_to_code(&input.argument_type);
            let encoder = concat3("encode: (value) => ", expression.as_str(), ",");
            page.line(encoder.as_str(), options);
            page.end_indent("},", options);
            i = i + 1;
            proof {
                let next = models.take(i as int);
                assert(next.drop_last() =~= models.take(i - 1));
            }
        }
        assert(models.take(i as int) =~= models);
    }
}

/// Appends the entry of one field of an output object.
fn write_codec_field(page: &mut Page, field: &Field, options: &CodeFileOptions)
    requires
        old(page).holds(options),
        old(page).depth() == 2,
        has_encodable_arguments(field@.field_type),
    ensures
        final(page).holds(options),
        final(page).depth() == 2,
        final(page).lines() == old(page).lines() + codec_field_lines(field@),
{
    let opening = concat2(field.name.as_str(), ": {");
    page.begin_indent(opening.as_str(), options);
    match resolve_encoding_target(&field.field_type) {
        EncodingTarget::SingleField => {},
        EncodingTarget::Object(name) => {
            let reference = concat3("codec: () => this.", name.as_str(), ",");
            page.line(reference.as_str(), options);
        },
    }
    let expression = decode_to_code(&field.field_type);
    let decoder = concat3("decode: (value) => ", expression.as_str(), ",");
    page.line(decoder.as_str(), options);
    if let GqlType::Function { .. } = &field.field_type {
        page.begin_indent("args: {", options);
        write_arguments(page, &field.field_type, options);
        page.end_indent("}", options);
    }
    page.end_indent("},", options);
}

/// Appends the codec members of the output objects.
fn write_codecs(page: &mut Page, outputs: &Vec<Object>, options: &CodeFileOptions)
    requires
        old(page).holds(options),
        old(page).depth() == 1,
        have_encodable_arguments(objects_model(outputs@)),
    ensures
        final(page).holds(options),
        final(page).depth() == 1,
        final(page).lines() == old(page).lines() + codecs_lines(objects_model(outputs@)),
{
    let ghost before = page.lines();
    let ghost models = objects_model(outputs@);
    let mut i: usize = 0;
    while i < outputs.len()
        invariant
            i <= outputs.len(),
            models == objects_model(outputs@),
            have_encodable_arguments(models),
            page.holds(options),
            page.depth() == 1,
            page.lines() == before + codecs_lines(models.take(i as int)),
        decreases outputs.len() - i,
    {
        let object = &outputs[i];
        let ghost fields = fields_model(object.fields@);
        let opening = concat3("public ", object.name.as_str(), ": Codec = {");
        page.begin_indent(opening.as_str(), options);
        let ghost opened = page.lines();
        let mut k: usize = 0;
        while k < object.fields.len()
            invariant
                k <= object.fields.len(),
                i < outputs.len(),
                models == objects_model(outputs@),
                have_encodable_arguments(models),
                object == &outputs[i as int],
                fields == fields_model(object.fields@),
                fields == models[i as int].fields,
                page.holds(options),
                page.depth() == 2,
                page.lines() == opened + codec_fields_lines(fields.take(k as int)),
            decreases object.fields.len() - k,
        {
            let field = &object.fields[k];
            assert(has_encodable_arguments(models[i as int].fields[k as int].field_type));
            write_codec_field(page, field, options);
            k = k + 1;
            proof {
                let next = fields.take(k as int);
                assert(next.drop_last() =~= fields.take(k - 1));
            }
        }
        assert(fields.take(k as int) =~= fields);
        page.end_indent("}", options);
        i = i + 1;
        proof {
            let next = models.take(i as int);
            assert(next.drop_last() =~= models.take(i - 1));
        }
    }
    assert(models.take(i as int) =~= models);
}

/// The text of the codec module for the objects of a document. Input objects
/// must hold values only, and so must the arguments of output fields: there is
/// no expression that encodes a function.
pub fn write_codec_ts(
    inputs: &Vec<Object>,
    outputs: &Vec<Object>,
    options: &CodeFileOptions,
    runtime: &str,
) -> (text: String)
    requires
        are_inputs(objects_model(inputs@)),
        have_encodable_arguments(objects_model(outputs@)),
    ensures
        text@ == codec_text(
            objects_model(inputs@),
            objects_model(outputs@),
            options.indent@,
            options.line_break@,
            runtime@,
        ),
{
    let mut page = Page::new(options);
    let import_scalars = concat3("import { Scalars } from \"", "./index", "\"");
    page.line(import_scalars.as_str(), options);
    let import_runtime = concat3(
        "import { Codec, Encoder, decodeNull, decodeList, decodeObject, encodeNull, encodeList, encodeObject } from \"",
        runtime,
        "\"",
    );
    page.line(import_runtime.as_str(), options);
    page.blank_line(options);

    page.begin_indent("export class SchemaCodec {", options);
    page.begin_indent("public constructor(", options);
    page.line("private readonly scalars: Scalars,", options);
    page.end_indent(") { }", options);
    page.blank_line(options);

    write_encoders(&mut page, inputs, options);
    write_codecs(&mut page, outputs, options);

    page.end_indent("}", options);
    assert(page.lines() =~= codec_module_lines(
        objects_model(inputs@),
        objects_model(outputs@),
        runtime@,
    ));
    page.build_string(options)
}

} // verus!
