//! How a change of one field's type shows in the emitted modules.
//!
//! The type-definitions module writes every field's type out, so another
//! value type gives another text. The codec module only depends on the
//! expressions that encode and decode the type and on the object whose codec
//! is referred to.

use vstd::prelude::*;
use crate::code_generator::{
    code_line, codec_field_lines, codec_fields_lines, codec_lines, codec_text,
    codecs_lines, decode_code, encoding_target, field_lines, object_lines, objects_lines,
    schema_lines, schema_text, structural_type_lines, type_code,
};
use crate::code_writer::{rendered, Line};
use crate::schema::{DocumentModel, FieldModel, ObjectModel, TypeModel};
use crate::text::repeated;

verus! {

/// Text between the same two texts is the same text if the wholes are.
pub proof fn lemma_middle_is_determined(
    front: Seq<char>,
    first: Seq<char>,
    second: Seq<char>,
    back: Seq<char>,
)
    requires
        front + first + back == front + second + back,
    ensures
        first == second,
{
    let one = front + first + back;
    let other = front + second + back;
    assert(one.len() == other.len());
    assert forall|k: int| 0 <= k < first.len() implies first[k] == second[k] by {
        assert(one[front.len() + k] == first[k]);
    }
}

/// Different value types are written differently: from the TypeScript type
/// the value type can be told.
pub proof fn lemma_type_code_tells_value_types_apart(a: TypeModel, b: TypeModel)
    requires
        a.is_value_type(),
        b.is_value_type(),
        type_code(a) == type_code(b),
    ensures
        a == b,
    decreases a,
{
    reveal_strlit("QList<");
    reveal_strlit("QNull<");
    reveal_strlit("QScalar<\"");
    reveal_strlit("QEnum<");
    reveal_strlit("QObject<\"");
    match a {
        TypeModel::List(inner) => {
            assert(type_code(a)[1] == 'L');
            match b {
                TypeModel::List(other) => {
                    lemma_middle_is_determined(
                        "QList<"@,
                        type_code(*inner),
                        type_code(*other),
                        ">"@,
                    );
                    lemma_type_code_tells_value_types_apart(*inner, *other);
                },
                _ => {},
            }
        },
        TypeModel::Nullable(inner) => {
            assert(type_code(a)[1] == 'N');
            match b {
                TypeModel::Nullable(other) => {
                    lemma_middle_is_determined(
                        "QNull<"@,
                        type_code(*inner),
                        type_code(*other),
                        ">"@,
                    );
                    lemma_type_code_tells_value_types_apart(*inner, *other);
                },
                _ => {},
            }
        },
        TypeModel::Scalar(name) => {
            assert(type_code(a)[1] == 'S');
            match b {
                TypeModel::Scalar(other) => {
                    lemma_middle_is_determined("QScalar<\""@, name, other, "\">"@);
                },
                _ => {},
            }
        },
        TypeModel::Enum(name) => {
            assert(type_code(a)[1] == 'E');
            match b {
                TypeModel::Enum(other) => {
                    lemma_middle_is_determined("QEnum<"@, name, other, ">"@);
                },
                _ => {},
            }
        },
        TypeModel::Object(name) => {
            assert(type_code(a)[1] == 'O');
            match b {
                TypeModel::Object(other) => {
                    lemma_middle_is_determined("QObject<\""@, name, other, "\">"@);
                },
                _ => {},
            }
        },
        _ => {},
    }
}

/// The text of lines in a row is the texts of the parts in a row.
pub proof fn lemma_rendered_concat(
    front: Seq<Line>,
    back: Seq<Line>,
    indent: Seq<char>,
    line_break: Seq<char>,
)
    ensures
        rendered(front + back, indent, line_break) == rendered(front, indent, line_break)
            + rendered(back, indent, line_break),
    decreases back.len(),
{
    if back.len() > 0 {
        assert((front + back).drop_last() =~= front + back.drop_last());
        lemma_rendered_concat(front, back.drop_last(), indent, line_break);
    }
}

/// `objects` with another type for field `field` of object `object`.
pub open spec fn with_field_type(
    objects: Seq<ObjectModel>,
    object: int,
    field: int,
    field_type: TypeModel,
) -> Seq<ObjectModel> {
    objects.update(
        object,
        ObjectModel {
            name: objects[object].name,
            fields: objects[object].fields.update(
                field,
                FieldModel { name: objects[object].fields[field].name, field_type },
            ),
        },
    )
}

/// The line of a structural type that holds a field.
pub open spec fn field_line(name: Seq<char>, field_type: TypeModel) -> Line {
    code_line(2, name + ": "@ + type_code(field_type))
}

/// The lines of a list of objects are the same before and behind the line of
/// one field, whatever the type of the field is. Returns what stands before
/// and behind.
pub proof fn lemma_objects_lines_around_field(
    objects: Seq<ObjectModel>,
    object: int,
    field: int,
    field_type: TypeModel,
) -> (around: (Seq<Line>, Seq<Line>))
    requires
        0 <= object < objects.len(),
        0 <= field < objects[object].fields.len(),
    ensures
        objects_lines(objects) == around.0 + seq![
            field_line(
                objects[object].fields[field].name,
                objects[object].fields[field].field_type,
            ),
        ] + around.1,
        objects_lines(with_field_type(objects, object, field, field_type)) == around.0 + seq![
            field_line(objects[object].fields[field].name, field_type),
        ] + around.1,
    decreases objects.len(),
{
    let changed = with_field_type(objects, object, field, field_type);
    let name = objects[object].fields[field].name;
    if object == objects.len() - 1 {
        let before = objects_lines(objects.drop_last());
        let fields = objects[object].fields;
        let opening = code_line(1, objects[object].name + ": {"@);
        let closing = code_line(1, "}"@);
        let front = before + seq![opening] + field_lines(fields).take(field);
        let back = field_lines(fields).skip(field + 1) + seq![closing];
        assert(changed.drop_last() =~= objects.drop_last());
        (front, back)
    } else {
        let (front, inner_back) = lemma_objects_lines_around_field(
            objects.drop_last(),
            object,
            field,
            field_type,
        );
        let back = inner_back + object_lines(objects.last());
        assert(changed.drop_last() =~= with_field_type(
            objects.drop_last(),
            object,
            field,
            field_type,
        ));
        (front, back)
    }
}

/// Two files whose lines are the same but for one field hold the field's
/// type between the same two texts.
proof fn lemma_texts_around_field(
    front: Seq<Line>,
    back: Seq<Line>,
    name: Seq<char>,
    field_type: TypeModel,
    indent: Seq<char>,
    line_break: Seq<char>,
)
    ensures
        rendered(front + seq![field_line(name, field_type)] + back, indent, line_break) == (
        rendered(front, indent, line_break) + repeated(indent, 2) + name + ": "@) + type_code(
            field_type,
        ) + (line_break + rendered(back, indent, line_break)),
{
    let line = field_line(name, field_type);
    lemma_rendered_concat(front + seq![line], back, indent, line_break);
    lemma_rendered_concat(front, seq![line], indent, line_break);
    crate::code_writer::lemma_rendered_push(Seq::empty(), line, indent, line_break);
}

/// Where the lines of two files are the same but for one field, and the
/// field's types are different value types, the texts are different.
proof fn lemma_other_type_other_text(
    front: Seq<Line>,
    back: Seq<Line>,
    name: Seq<char>,
    old_type: TypeModel,
    new_type: TypeModel,
    indent: Seq<char>,
    line_break: Seq<char>,
)
    requires
        old_type.is_value_type(),
        new_type.is_value_type(),
        old_type != new_type,
    ensures
        rendered(front + seq![field_line(name, old_type)] + back, indent, line_break)
            != rendered(front + seq![field_line(name, new_type)] + back, indent, line_break),
{
    lemma_texts_around_field(front, back, name, old_type, indent, line_break);
    lemma_texts_around_field(front, back, name, new_type, indent, line_break);
    if type_code(old_type) != type_code(new_type) {
        if rendered(front + seq![field_line(name, old_type)] + back, indent, line_break)
            == rendered(front + seq![field_line(name, new_type)] + back, indent, line_break) {
            lemma_middle_is_determined(
                rendered(front, indent, line_break) + repeated(indent, 2) + name + ": "@,
                type_code(old_type),
                type_code(new_type),
                line_break + rendered(back, indent, line_break),
            );
        }
    } else {
        lemma_type_code_tells_value_types_apart(old_type, new_type);
    }
}

/// Another value type for a field of an object changes the text of the
/// type-definitions module, under every layout.
pub proof fn lemma_output_field_type_shows(
    document: DocumentModel,
    object: int,
    field: int,
    field_type: TypeModel,
    indent: Seq<char>,
    line_break: Seq<char>,
    runtime: Seq<char>,
)
    requires
        0 <= object < document.outputs.len(),
        0 <= field < document.outputs[object].fields.len(),
        document.outputs[object].fields[field].field_type.is_value_type(),
        field_type.is_value_type(),
        field_type != document.outputs[object].fields[field].field_type,
    ensures
        schema_text(
            DocumentModel {
                outputs: with_field_type(document.outputs, object, field, field_type),
                ..document
            },
            indent,
            line_break,
            runtime,
        ) != schema_text(document, indent, line_break, runtime),
{
    let changed = DocumentModel {
        outputs: with_field_type(document.outputs, object, field, field_type),
        ..document
    };
    let name = document.outputs[object].fields[field].name;
    let old_type = document.outputs[object].fields[field].field_type;
    let (inner_front, inner_back) = lemma_objects_lines_around_field(
        document.outputs,
        object,
        field,
        field_type,
    );
    let before_block = schema_lines(
        DocumentModel { outputs: Seq::empty(), inputs: Seq::empty(), ..document },
        runtime,
    );
    let inputs_block = if document.inputs.len() == 0 {
        Seq::<Line>::empty()
    } else {
        structural_type_lines("export type InputObjectSchema = {"@, document.inputs)
    };
    let front = before_block + seq![code_line(0, "export type ObjectSchema = {"@)] + inner_front;
    let back = inner_back + seq![code_line(0, "}"@)] + seq![Line::Blank] + inputs_block;
    assert(schema_lines(document, runtime) =~= front + seq![field_line(name, old_type)] + back);
    assert(schema_lines(changed, runtime) =~= front + seq![field_line(name, field_type)] + back);
    lemma_other_type_other_text(front, back, name, old_type, field_type, indent, line_break);
}

/// Another value type for a field of an input object changes the text of the
/// type-definitions module, under every layout.
pub proof fn lemma_input_field_type_shows(
    document: DocumentModel,
    object: int,
    field: int,
    field_type: TypeModel,
    indent: Seq<char>,
    line_break: Seq<char>,
    runtime: Seq<char>,
)
    requires
        0 <= object < document.inputs.len(),
        0 <= field < document.inputs[object].fields.len(),
        document.inputs[object].fields[field].field_type.is_value_type(),
        field_type.is_value_type(),
        field_type != document.inputs[object].fields[field].field_type,
    ensures
        schema_text(
            DocumentModel {
                inputs: with_field_type(document.inputs, object, field, field_type),
                ..document
            },
            indent,
            line_break,
            runtime,
        ) != schema_text(document, indent, line_break, runtime),
{
    let changed = DocumentModel {
        inputs: with_field_type(document.inputs, object, field, field_type),
        ..document
    };
    let name = document.inputs[object].fields[field].name;
    let old_type = document.inputs[object].fields[field].field_type;
    let (inner_front, inner_back) = lemma_objects_lines_around_field(
        document.inputs,
        object,
        field,
        field_type,
    );
    let before_block = schema_lines(DocumentModel { inputs: Seq::empty(), ..document }, runtime);
    let front = before_block + seq![code_line(0, "export type InputObjectSchema = {"@)]
        + inner_front;
    let back = inner_back + seq![code_line(0, "}"@)];
    assert(schema_lines(document, runtime) =~= front + seq![field_line(name, old_type)] + back);
    assert(schema_lines(changed, runtime) =~= front + seq![field_line(name, field_type)] + back);
    lemma_other_type_other_text(front, back, name, old_type, field_type, indent, line_break);
}

/// The codec entries of a list of fields stay the same when a field gets a
/// type with the same entry.
proof fn lemma_codec_fields_lines_unchanged(
    fields: Seq<FieldModel>,
    field: int,
    replacement: FieldModel,
)
    requires
        0 <= field < fields.len(),
        codec_field_lines(replacement) == codec_field_lines(fields[field]),
    ensures
        codec_fields_lines(fields.update(field, replacement)) == codec_fields_lines(fields),
    decreases fields.len(),
{
    let changed = fields.update(field, replacement);
    if field == fields.len() - 1 {
        assert(changed.drop_last() =~= fields.drop_last());
    } else {
        assert(changed.drop_last() =~= fields.drop_last().update(field, replacement));
        lemma_codec_fields_lines_unchanged(fields.drop_last(), field, replacement);
    }
}

/// The codec members of a list of objects stay the same when an object is
/// replaced by one with the same member.
proof fn lemma_codecs_lines_unchanged(
    objects: Seq<ObjectModel>,
    object: int,
    replacement: ObjectModel,
)
    requires
        0 <= object < objects.len(),
        codec_lines(replacement) == codec_lines(objects[object]),
    ensures
        codecs_lines(objects.update(object, replacement)) == codecs_lines(objects),
    decreases objects.len(),
{
    let changed = objects.update(object, replacement);
    if object == objects.len() - 1 {
        assert(changed.drop_last() =~= objects.drop_last());
    } else {
        assert(changed.drop_last() =~= objects.drop_last().update(object, replacement));
        lemma_codecs_lines_unchanged(objects.drop_last(), object, replacement);
    }
}

/// The codec module does not change when a field of an object gets another
/// value type that is decoded by the same expression and refers to the same
/// object's codec, as when one enumeration is put for another.
pub proof fn lemma_codec_ignores_equally_decoded_type(
    inputs: Seq<ObjectModel>,
    outputs: Seq<ObjectModel>,
    object: int,
    field: int,
    field_type: TypeModel,
    indent: Seq<char>,
    line_break: Seq<char>,
    runtime: Seq<char>,
)
    requires
        0 <= object < outputs.len(),
        0 <= field < outputs[object].fields.len(),
        outputs[object].fields[field].field_type.is_value_type(),
        field_type.is_value_type(),
        decode_code(field_type) == decode_code(outputs[object].fields[field].field_type),
        encoding_target(field_type) == encoding_target(outputs[object].fields[field].field_type),
    ensures
        codec_text(
            inputs,
            with_field_type(outputs, object, field, field_type),
            indent,
            line_break,
            runtime,
        ) == codec_text(inputs, outputs, indent, line_break, runtime),
{
    let fields = outputs[object].fields;
    let replacement = FieldModel { name: fields[field].name, field_type };
    lemma_codec_fields_lines_unchanged(fields, field, replacement);
    let changed = ObjectModel { name: outputs[object].name, fields: fields.update(field, replacement) };
    lemma_codecs_lines_unchanged(outputs, object, changed);
}

} // verus!
