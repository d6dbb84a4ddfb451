//! Reading a schema from an introspection response.
//!
//! The types below mirror the JSON shape `{ data: { __schema: { types } } }`;
//! each type entry and each nested type reference is tagged by its `kind`.
//! Type references arrive fully resolved, so nullability is settled by
//! unwrapping them, without looking any name up. Turning the JSON text into
//! these types is the caller's part.

use vstd::prelude::*;
use crate::schema;
use crate::schema::{
    arguments_model, built_in_scalar_names, built_in_scalars, distinct, enums_model, fields_model,
    lemma_function_model, objects_model, with_nullability, wrap, Argument, ArgumentModel, DocumentModel,
    Enum, EnumModel, FieldModel, GqlDocument, GqlType, Object, ObjectModel, TypeModel,
};
use crate::text::{concat2, concat3, contains_string, strings_model};

verus! {

/// The whole response.
#[derive(Debug, PartialEq, Eq)]
pub struct IntrospectionQueryResponse {
    pub data: SchemaData,
}

/// The `data` member of the response.
#[derive(Debug, PartialEq, Eq)]
pub struct SchemaData {
    pub schema: Schema,
}

/// The `__schema` member: the types the server knows, in the server's order.
#[derive(Debug, PartialEq, Eq)]
pub struct Schema {
    pub types: Vec<FullType>,
}

/// One entry of `types`.
#[derive(Debug, PartialEq, Eq)]
pub enum FullType {
    Object { name: String, fields: Vec<Field> },
    Interface,
    Enum { name: String, enum_values: Vec<EnumValue> },
    InputObject { name: String, input_fields: Vec<InputValue> },
    Scalar { name: String },
    Union,
}

/// A field of an output object, with its arguments.
#[derive(Debug, PartialEq, Eq)]
pub struct Field {
    pub name: String,
    pub args: Vec<InputValue>,
    pub field_type: TypeRef,
}

/// An argument of a field, or a field of an input object.
#[derive(Debug, PartialEq, Eq)]
pub struct InputValue {
    pub name: String,
    pub input_type: TypeRef,
}

/// A reference to a type, wrapped in `NON_NULL` and `LIST` layers.
#[derive(Debug, PartialEq, Eq)]
pub enum TypeRef {
    NonNull { of_type: Box<TypeRef> },
    Scalar { name: String },
    InputObject { name: String },
    List { of_type: Box<TypeRef> },
    Object { name: String },
    Enum { name: String },
}

/// A member of an enumeration.
#[derive(Debug, PartialEq, Eq)]
pub struct EnumValue {
    pub name: String,
}

/// The type that `type_ref` denotes at a position that admits null iff
/// `nullable`. A `NON_NULL` layer resolves what it wraps as never null and adds
/// nothing itself; the element of a list admits null unless it says otherwise.
pub open spec fn resolved(type_ref: TypeRef, nullable: bool) -> TypeModel
    decreases type_ref,
{
    match type_ref {
        TypeRef::NonNull { of_type } => resolved(*of_type, false),
        TypeRef::List { of_type } => with_nullability(
            nullable,
            TypeModel::List(Box::new(resolved(*of_type, true))),
        ),
        TypeRef::Scalar { name } => with_nullability(nullable, TypeModel::Scalar(name@)),
        TypeRef::Enum { name } => with_nullability(nullable, TypeModel::Enum(name@)),
        TypeRef::InputObject { name } => with_nullability(nullable, TypeModel::Object(name@)),
        TypeRef::Object { name } => with_nullability(nullable, TypeModel::Object(name@)),
    }
}

/// The type reference as the schema language writes it: `[T]` for a list,
/// `T!` for a non-null type.
pub open spec fn signature(type_ref: TypeRef) -> Seq<char>
    decreases type_ref,
{
    match type_ref {
        TypeRef::NonNull { of_type } => signature(*of_type) + "!"@,
        TypeRef::List { of_type } => "["@ + signature(*of_type) + "]"@,
        TypeRef::Scalar { name } => name@,
        TypeRef::Enum { name } => name@,
        TypeRef::InputObject { name } => name@,
        TypeRef::Object { name } => name@,
    }
}

/// The argument that an input value of a field stands for.
pub open spec fn argument_of(value: InputValue) -> ArgumentModel {
    ArgumentModel {
        name: value.name@,
        argument_type: resolved(value.input_type, true),
        declared_type: signature(value.input_type),
    }
}

/// The field of an input object that an input value stands for.
pub open spec fn input_field_of(value: InputValue) -> FieldModel {
    FieldModel { name: value.name@, field_type: resolved(value.input_type, true) }
}

/// The field of an output object: a function type iff it takes arguments.
pub open spec fn output_field_of(field: Field) -> FieldModel {
    let output = resolved(field.field_type, true);
    FieldModel {
        name: field.name@,
        field_type: if field.args@.len() == 0 {
            output
        } else {
            TypeModel::Function {
                inputs: arguments_of(field.args@),
                output: Box::new(output),
            }
        },
    }
}

/// The arguments that the input values of a field stand for.
pub open spec fn arguments_of(args: Seq<InputValue>) -> Seq<ArgumentModel> {
    args.map_values(|a: InputValue| argument_of(a))
}

/// The fields of an input object.
pub open spec fn input_fields_of(input_fields: Seq<InputValue>) -> Seq<FieldModel> {
    input_fields.map_values(|f: InputValue| input_field_of(f))
}

/// The fields of an output object.
pub open spec fn output_fields_of(fields: Seq<Field>) -> Seq<FieldModel> {
    fields.map_values(|f: Field| output_field_of(f))
}

/// The names of the members of an enumeration.
pub open spec fn members_of(enum_values: Seq<EnumValue>) -> Seq<Seq<char>> {
    enum_values.map_values(|v: EnumValue| v.name@)
}

/// The output objects among `types`, in order.
pub open spec fn outputs_of(types: Seq<FullType>) -> Seq<ObjectModel>
    decreases types.len(),
{
    if types.len() == 0 {
        Seq::empty()
    } else {
        let before = outputs_of(types.drop_last());
        match types.last() {
            FullType::Object { name, fields } => before.push(
                ObjectModel {
                    name: name@,
                    fields: output_fields_of(fields@),
                },
            ),
            _ => before,
        }
    }
}

/// The input objects among `types`, in order.
pub open spec fn inputs_of(types: Seq<FullType>) -> Seq<ObjectModel>
    decreases types.len(),
{
    if types.len() == 0 {
        Seq::empty()
    } else {
        let before = inputs_of(types.drop_last());
        match types.last() {
            FullType::InputObject { name, input_fields } => before.push(
                ObjectModel {
                    name: name@,
                    fields: input_fields_of(input_fields@),
                },
            ),
            _ => before,
        }
    }
}

/// The enumerations among `types`, in order.
pub open spec fn enums_of(types: Seq<FullType>) -> Seq<EnumModel>
    decreases types.len(),
{
    if types.len() == 0 {
        Seq::empty()
    } else {
        let before = enums_of(types.drop_last());
        match types.last() {
            FullType::Enum { name, enum_values } => before.push(
                EnumModel {
                    name: name@,
                    values: members_of(enum_values@),
                },
            ),
            _ => before,
        }
    }
}

/// `names`, with `name` behind them unless it is among them.
pub open spec fn added_once(names: Seq<Seq<char>>, name: Seq<char>) -> Seq<Seq<char>> {
    if names.contains(name) {
        names
    } else {
        names.push(name)
    }
}

/// `names`, with each of `more` added once, one after the other.
pub open spec fn all_added_once(names: Seq<Seq<char>>, more: Seq<Seq<char>>) -> Seq<Seq<char>>
    decreases more.len(),
{
    if more.len() == 0 {
        names
    } else {
        added_once(all_added_once(names, more.drop_last()), more.last())
    }
}

/// The scalars among `types`, each once, in order.
pub open spec fn listed_scalars(types: Seq<FullType>) -> Seq<Seq<char>>
    decreases types.len(),
{
    if types.len() == 0 {
        Seq::empty()
    } else {
        let before = listed_scalars(types.drop_last());
        match types.last() {
            FullType::Scalar { name } => added_once(before, name@),
            _ => before,
        }
    }
}

/// The scalars of the document: those among `types`, in the server's order,
/// then the built-in scalars that the server did not list.
pub open spec fn scalars_of(types: Seq<FullType>) -> Seq<Seq<char>> {
    all_added_once(listed_scalars(types), built_in_scalar_names())
}

/// The document that a list of type entries describes. Interfaces and unions
/// contribute nothing.
pub open spec fn document_of(types: Seq<FullType>) -> DocumentModel {
    DocumentModel {
        inputs: inputs_of(types),
        outputs: outputs_of(types),
        enums: enums_of(types),
        scalars: scalars_of(types),
    }
}

/// Resolves a type reference at a position that admits null iff `nullable`.
pub fn to_gql_type(type_ref: &TypeRef, nullable: bool) -> (gql_type: GqlType)
    ensures
        gql_type@ == resolved(*type_ref, nullable),
        gql_type@.well_formed(),
        gql_type@.is_value_type(),
        gql_type@ is Nullable <==> nullable && !(type_ref is NonNull),
    decreases type_ref,
{
    proof {
        lemma_resolved_shape(*type_ref, nullable);
    }
    match type_ref {
        TypeRef::Enum { name } => wrap(nullable, GqlType::Enum(name.clone())),
        TypeRef::List { of_type } => {
            let inner = to_gql_type(of_type, true);
            wrap(nullable, GqlType::List(Box::new(inner)))
        },
        TypeRef::InputObject { name } => wrap(nullable, GqlType::Object(name.clone())),
        TypeRef::NonNull { of_type } => to_gql_type(of_type, false),
        TypeRef::Scalar { name } => wrap(nullable, GqlType::Scalar(name.clone())),
        TypeRef::Object { name } => wrap(nullable, GqlType::Object(name.clone())),
    }
}

/// Writes a type reference as the schema language does.
pub fn gql_type_name(type_ref: &TypeRef) -> (name: String)
    ensures
        name@ == signature(*type_ref),
    decreases type_ref,
{
    match type_ref {
        TypeRef::Scalar { name } => name.clone(),
        TypeRef::Object { name } => name.clone(),
        TypeRef::Enum { name } => name.clone(),
        TypeRef::InputObject { name } => name.clone(),
        TypeRef::List { of_type } => {
            let inner = gql_type_name(of_type);
            concat3("[", inner.as_str(), "]")
        },
        TypeRef::NonNull { of_type } => {
            let inner = gql_type_name(of_type);
            concat2(inner.as_str(), "!")
        },
    }
}

fn to_arguments(args: &Vec<InputValue>) -> (arguments: Vec<Argument>)
    ensures
        arguments_model(arguments@) == arguments_of(args@),
{
    let mut arguments: Vec<Argument> = Vec::new();
    let mut i: usize = 0;
    while i < args.len()
        invariant
            i <= args.len(),
            arguments@.len() == i,
            forall|k: int| 0 <= k < i ==> (#[trigger] arguments@[k])@ == argument_of(args@[k]),
        decreases args.len() - i,
    {
        let arg = &args[i];
        let argument = Argument {
            name: arg.name.clone(),
            argument_type: to_gql_type(&arg.input_type, true),
            declared_type: gql_type_name(&arg.input_type),
        };
        arguments.push(argument);
        i = i + 1;
    }
    arguments
}

fn to_output_fields(fields: &Vec<Field>) -> (object_fields: Vec<schema::Field>)
    ensures
        fields_model(object_fields@) == output_fields_of(fields@),
{
    let mut object_fields: Vec<schema::Field> = Vec::new();
    let mut i: usize = 0;
    while i < fields.len()
        invariant
            i <= fields.len(),
            object_fields@.len() == i,
            forall|k: int|
                0 <= k < i ==> (#[trigger] object_fields@[k])@ == output_field_of(fields@[k]),
        decreases fields.len() - i,
    {
        let field = &fields[i];
        let output = to_gql_type(&field.field_type, true);
        let field_type = if field.args.len() == 0 {
            output
        } else {
            let inputs = to_arguments(&field.args);
            let output = Box::new(output);
            proof {
                lemma_function_model(inputs, output);
            }
            GqlType::Function { inputs, output }
        };
        let object_field = schema::Field { name: field.name.clone(), field_type };
        object_fields.push(object_field);
        i = i + 1;
    }
    object_fields
}

fn to_input_fields(input_fields: &Vec<InputValue>) -> (object_fields: Vec<schema::Field>)
    ensures
        fields_model(object_fields@) == input_fields_of(input_fields@),
{
    let mut object_fields: Vec<schema::Field> = Vec::new();
    let mut i: usize = 0;
    while i < input_fields.len()
        invariant
            i <= input_fields.len(),
            object_fields@.len() == i,
            forall|k: int|
                0 <= k < i ==> (#[trigger] object_fields@[k])@ == input_field_of(
                    input_fields@[k],
                ),
        decreases input_fields.len() - i,
    {
        let field = &input_fields[i];
        let field_type = to_gql_type(&field.input_type, true);
        object_fields.push(schema::Field { name: field.name.clone(), field_type });
        i = i + 1;
    }
    object_fields
}

fn to_enum_members(enum_values: &Vec<EnumValue>) -> (members: Vec<String>)
    ensures
        strings_model(members@) == members_of(enum_values@),
{
    let mut members: Vec<String> = Vec::new();
    let mut i: usize = 0;
    while i < enum_values.len()
        invariant
            i <= enum_values.len(),
            members@.len() == i,
            forall|k: int| 0 <= k < i ==> (#[trigger] members@[k])@ == enum_values@[k].name@,
        decreases enum_values.len() - i,
    {
        members.push(enum_values[i].name.clone());
        i = i + 1;
    }
    members
}

/// Builds the document that an introspection response describes: objects,
/// input objects, enumerations and scalars in the server's order, each scalar
/// once, followed by the built-in scalars that the server did not list.
/// Interfaces and unions are dropped.
pub fn from_response_body(response: &IntrospectionQueryResponse) -> (document: GqlDocument)
    ensures
        document@ == document_of(response.data.schema.types@),
        document@.well_formed(),
{
    let types = &response.data.schema.types;
    let mut enums: Vec<Enum> = Vec::new();
    let mut scalars: Vec<String> = Vec::new();
    let mut inputs: Vec<Object> = Vec::new();
    let mut outputs: Vec<Object> = Vec::new();

    let mut i: usize = 0;
    while i < types.len()
        invariant
            i <= types.len(),
            enums_model(enums@) == enums_of(types@.take(i as int)),
            strings_model(scalars@) == listed_scalars(types@.take(i as int)),
            objects_model(inputs@) == inputs_of(types@.take(i as int)),
            objects_model(outputs@) == outputs_of(types@.take(i as int)),
        decreases types.len() - i,
    {
        assert(types@.take(i + 1).drop_last() =~= types@.take(i as int));
        match &types[i] {
            FullType::Enum { name, enum_values } => {
                let values = to_enum_members(enum_values);
                enums.push(Enum { name: name.clone(), values });
            },
            FullType::Object { name, fields } => {
                let object_fields = to_output_fields(fields);
                outputs.push(Object { name: name.clone(), fields: object_fields });
            },
            FullType::Scalar { name } => {
                if !contains_string(&scalars, name.as_str()) {
                    scalars.push(name.clone());
                }
            },
            FullType::InputObject { name, input_fields } => {
                let fields = to_input_fields(input_fields);
                inputs.push(Object { name: name.clone(), fields });
            },
            FullType::Interface => {},
            FullType::Union => {},
        }
        i = i + 1;
    }
    assert(types@.take(i as int) =~= types@);

    let built_in = built_in_scalars();
    let ghost listed = strings_model(scalars@);
    let ghost names = built_in_scalar_names();
    let mut k: usize = 0;
    while k < built_in.len()
        invariant
            k <= built_in.len(),
            strings_model(built_in@) == names,
            strings_model(scalars@) == all_added_once(listed, names.take(k as int)),
        decreases built_in.len() - k,
    {
        assert(names.take(k + 1).drop_last() =~= names.take(k as int));
        if !contains_string(&scalars, built_in[k].as_str()) {
            scalars.push(built_in[k].clone());
        }
        k = k + 1;
    }
    assert(names.take(k as int) =~= names);
    proof {
        lemma_document_well_formed(types@);
    }
    GqlDocument { inputs, outputs, enums, scalars }
}

/// Resolution never stacks two `Nullable` wrappers and never yields a
/// function type; the result is `Nullable` exactly when the position admits
/// null and the reference is not a `NON_NULL` layer.
pub proof fn lemma_resolved_shape(type_ref: TypeRef, nullable: bool)
    ensures
        resolved(type_ref, nullable).well_formed(),
        resolved(type_ref, nullable).is_value_type(),
        resolved(type_ref, nullable) is Nullable <==> nullable && !(type_ref is NonNull),
    decreases type_ref,
{
    reveal_with_fuel(TypeModel::well_formed, 3);
    reveal_with_fuel(TypeModel::is_value_type, 3);
    match type_ref {
        TypeRef::NonNull { of_type } => {
            lemma_resolved_shape(*of_type, false);
        },
        TypeRef::List { of_type } => {
            lemma_resolved_shape(*of_type, true);
        },
        _ => {},
    }
}

/// A non-null list of nullable elements and a nullable list of non-null
/// elements are different types, whatever the element is.
pub proof fn lemma_list_nullability_is_structural(element: TypeRef)
    ensures
        resolved(
            TypeRef::NonNull { of_type: Box::new(TypeRef::List { of_type: Box::new(element) }) },
            true,
        ) != resolved(
            TypeRef::List {
                of_type: Box::new(TypeRef::NonNull { of_type: Box::new(element) }),
            },
            true,
        ),
{
    reveal_with_fuel(resolved, 3);
}

/// Every document read from an introspection response is well formed.
pub proof fn lemma_document_well_formed(types: Seq<FullType>)
    ensures
        document_of(types).well_formed(),
{
    lemma_scalars_distinct(types);
    lemma_inputs_well_formed(types);
    lemma_outputs_well_formed(types);
}

proof fn lemma_all_added_once_distinct(names: Seq<Seq<char>>, more: Seq<Seq<char>>)
    requires
        distinct(names),
    ensures
        distinct(all_added_once(names, more)),
    decreases more.len(),
{
    if more.len() > 0 {
        lemma_all_added_once_distinct(names, more.drop_last());
    }
}

proof fn lemma_listed_scalars_distinct(types: Seq<FullType>)
    ensures
        distinct(listed_scalars(types)),
    decreases types.len(),
{
    if types.len() > 0 {
        lemma_listed_scalars_distinct(types.drop_last());
    }
}

proof fn lemma_scalars_distinct(types: Seq<FullType>)
    ensures
        distinct(scalars_of(types)),
{
    lemma_listed_scalars_distinct(types);
    lemma_all_added_once_distinct(listed_scalars(types), built_in_scalar_names());
}

proof fn lemma_inputs_well_formed(types: Seq<FullType>)
    ensures
        forall|i: int|
            0 <= i < inputs_of(types).len() ==> {
                &&& (#[trigger] inputs_of(types)[i]).well_formed()
                &&& inputs_of(types)[i].is_input()
            },
    decreases types.len(),
{
    if types.len() > 0 {
        lemma_inputs_well_formed(types.drop_last());
        match types.last() {
            FullType::InputObject { name, input_fields } => {
                let object = ObjectModel { name: name@, fields: input_fields_of(input_fields@) };
                assert forall|k: int| 0 <= k < object.fields.len() implies {
                    &&& (#[trigger] object.fields[k]).field_type.well_formed()
                    &&& object.fields[k].field_type.is_field_type()
                    &&& object.fields[k].field_type.is_value_type()
                } by {
                    lemma_resolved_shape(input_fields@[k].input_type, true);
                }
                assert(inputs_of(types) == inputs_of(types.drop_last()).push(object));
            },
            _ => {},
        }
    }
}

proof fn lemma_outputs_well_formed(types: Seq<FullType>)
    ensures
        forall|i: int|
            0 <= i < outputs_of(types).len() ==> (#[trigger] outputs_of(types)[i]).well_formed(),
    decreases types.len(),
{
    if types.len() > 0 {
        lemma_outputs_well_formed(types.drop_last());
        match types.last() {
            FullType::Object { name, fields } => {
                let object = ObjectModel { name: name@, fields: output_fields_of(fields@) };
                assert forall|k: int| 0 <= k < object.fields.len() implies {
                    &&& (#[trigger] object.fields[k]).field_type.well_formed()
                    &&& object.fields[k].field_type.is_field_type()
                } by {
                    lemma_output_field_shape(fields@[k]);
                }
                assert(outputs_of(types) == outputs_of(types.drop_last()).push(object));
            },
            _ => {},
        }
    }
}

/// The type of an output field is well formed, and functions occur in it at
/// the top only.
pub proof fn lemma_output_field_shape(field: Field)
    ensures
        output_field_of(field).field_type.well_formed(),
        output_field_of(field).field_type.is_field_type(),
{
    lemma_resolved_shape(field.field_type, true);
    let inputs = arguments_of(field.args@);
    assert forall|a: int| 0 <= a < inputs.len() implies {
        &&& (#[trigger] inputs[a]).argument_type.well_formed()
        &&& inputs[a].argument_type.is_value_type()
    } by {
        lemma_resolved_shape(field.args@[a].input_type, true);
    }
}

} // verus!
