//! Reading a schema from a parsed schema-definition document.
//!
//! The text is parsed by the caller. The types below hold, as plain values,
//! what this module reads of the parsed document; they follow the tree of the
//! crate `graphql-parser`, so that a caller converts node by node.
//!
//! A document may name a type before it defines it, so all definitions are
//! collected by name first, and field types are resolved afterwards against
//! the names collected. Definitions are kept in the order of their names; of
//! definitions with one name the last one stands.

use vstd::prelude::*;
use crate::name_map::{
    is_placed, lemma_placed_iff_contained, lemma_placed_names_sorted,
    lemma_placed_values_keep_names, lemma_position_bounds, lemma_sorted_names_differ,
    lemma_stored_after_placing, place_name, placed_names, placed_values, position, stored,
    strictly_sorted, NameMap,
};
use crate::schema;
use crate::schema::{
    arguments_model, built_in_scalar_names, enums_model, fields_model, lemma_function_model,
    objects_model, with_nullability, wrap, Argument, ArgumentModel, DocumentModel, Enum,
    EnumModel, FieldModel,
    GqlDocument, GqlType, Object, ObjectModel, TypeModel,
};
use crate::text::{concat2, concat3, contains_string, strings_model};

verus! {

/// A type as a document writes it: a name, a list, or a non-null type.
#[derive(Debug, PartialEq, Eq)]
pub enum Type {
    NamedType(String),
    ListType(Box<Type>),
    NonNullType(Box<Type>),
}

/// An argument of a field, or a field of an input object.
#[derive(Debug, PartialEq, Eq)]
pub struct InputValue {
    pub name: String,
    pub value_type: Type,
}

/// A field of an object, with its arguments.
#[derive(Debug, PartialEq, Eq)]
pub struct Field {
    pub name: String,
    pub arguments: Vec<InputValue>,
    pub field_type: Type,
}

/// The definition of a scalar.
#[derive(Debug, PartialEq, Eq)]
pub struct ScalarType {
    pub name: String,
}

/// The definition of an object.
#[derive(Debug, PartialEq, Eq)]
pub struct ObjectType {
    pub name: String,
    pub fields: Vec<Field>,
}

/// A member of an enumeration.
#[derive(Debug, PartialEq, Eq)]
pub struct EnumValue {
    pub name: String,
}

/// The definition of an enumeration.
#[derive(Debug, PartialEq, Eq)]
pub struct EnumType {
    pub name: String,
    pub values: Vec<EnumValue>,
}

/// The definition of an input object.
#[derive(Debug, PartialEq, Eq)]
pub struct InputObjectType {
    pub name: String,
    pub fields: Vec<InputValue>,
}

/// The definition of a type. Of interfaces and unions nothing is kept.
#[derive(Debug, PartialEq, Eq)]
pub enum TypeDefinition {
    Scalar(ScalarType),
    Object(ObjectType),
    Interface,
    Union,
    Enum(EnumType),
    InputObject(InputObjectType),
}

/// One definition of a document. Only type definitions are read.
#[derive(Debug, PartialEq, Eq)]
pub enum Definition {
    SchemaDefinition,
    TypeDefinition(TypeDefinition),
    TypeExtension,
    DirectiveDefinition,
}

/// A parsed document: its definitions, in the order of the text.
#[derive(Debug, PartialEq, Eq)]
pub struct Document {
    pub definitions: Vec<Definition>,
}

/// A field refers to a type that the document neither defines nor has built
/// in.
#[derive(Debug, PartialEq, Eq)]
pub struct UnknownTypeReference {
    pub name: String,
}

impl UnknownTypeReference {
    /// What the user is told.
    pub open spec fn message_text(self) -> Seq<char> {
        "Unknown type "@ + self.name@
    }

    /// Writes what the user is told.
    pub fn message(&self) -> (text: String)
        ensures
            text@ == self.message_text(),
    {
        concat2("Unknown type ", self.name.as_str())
    }
}

/// What has been collected from definitions: the scalars, and the
/// enumerations, input objects and objects, each with their names beside
/// them, all in the order of the names.
pub ghost struct Collected {
    pub scalars: Seq<Seq<char>>,
    pub enum_names: Seq<Seq<char>>,
    pub enums: Seq<EnumModel>,
    pub input_names: Seq<Seq<char>>,
    pub inputs: Seq<InputObjectType>,
    pub output_names: Seq<Seq<char>>,
    pub outputs: Seq<ObjectType>,
}

/// `names` after each of `added` was put where it belongs, one after the
/// other.
pub open spec fn placed_all(names: Seq<Seq<char>>, added: Seq<Seq<char>>) -> Seq<Seq<char>>
    decreases added.len(),
{
    if added.len() == 0 {
        names
    } else {
        placed_names(placed_all(names, added.drop_last()), added.last())
    }
}

/// What is collected before any definition is read: the built-in scalars.
pub open spec fn collected_at_start() -> Collected {
    Collected {
        scalars: placed_all(Seq::empty(), built_in_scalar_names()),
        enum_names: Seq::empty(),
        enums: Seq::empty(),
        input_names: Seq::empty(),
        inputs: Seq::empty(),
        output_names: Seq::empty(),
        outputs: Seq::empty(),
    }
}

/// The names of the members of an enumeration.
pub open spec fn members_of(values: Seq<EnumValue>) -> Seq<Seq<char>> {
    values.map_values(|v: EnumValue| v.name@)
}

/// What is collected once one more definition is read. A scalar adds its
/// name; an enumeration, an input object or an object is stored under its
/// name, in place of an earlier one of that name. Anything else adds nothing.
pub open spec fn collected_with(before: Collected, definition: Definition) -> Collected {
    match definition {
        Definition::TypeDefinition(TypeDefinition::Scalar(scalar)) => Collected {
            scalars: placed_names(before.scalars, scalar.name@),
            ..before
        },
        Definition::TypeDefinition(TypeDefinition::Object(object)) => Collected {
            output_names: placed_names(before.output_names, object.name@),
            outputs: placed_values(before.output_names, before.outputs, object.name@, object),
            ..before
        },
        Definition::TypeDefinition(TypeDefinition::InputObject(object)) => Collected {
            input_names: placed_names(before.input_names, object.name@),
            inputs: placed_values(before.input_names, before.inputs, object.name@, object),
            ..before
        },
        Definition::TypeDefinition(TypeDefinition::Enum(enum_type)) => Collected {
            enum_names: placed_names(before.enum_names, enum_type.name@),
            enums: placed_values(
                before.enum_names,
                before.enums,
                enum_type.name@,
                EnumModel { name: enum_type.name@, values: members_of(enum_type.values@) },
            ),
            ..before
        },
        _ => before,
    }
}

/// What is collected from the definitions of a document.
pub open spec fn collected(definitions: Seq<Definition>) -> Collected
    decreases definitions.len(),
{
    if definitions.len() == 0 {
        collected_at_start()
    } else {
        collected_with(collected(definitions.drop_last()), definitions.last())
    }
}

/// The type that a name stands for: a scalar, else an enumeration, else an
/// object; nothing if the name is not known.
pub open spec fn classified(scope: Collected, name: Seq<char>) -> Option<TypeModel> {
    if scope.scalars.contains(name) {
        Some(TypeModel::Scalar(name))
    } else if scope.enum_names.contains(name) {
        Some(TypeModel::Enum(name))
    } else if scope.input_names.contains(name) || scope.output_names.contains(name) {
        Some(TypeModel::Object(name))
    } else {
        None
    }
}

/// The type that `field_type` denotes at a position that admits null iff
/// `nullable`, or the first name in it that is not known. A non-null type
/// resolves what it wraps as never null and adds nothing itself; the element
/// of a list admits null unless it says otherwise.
pub open spec fn resolved(field_type: Type, nullable: bool, scope: Collected) -> Result<
    TypeModel,
    Seq<char>,
>
    decreases field_type,
{
    match field_type {
        Type::NonNullType(inner) => resolved(*inner, false, scope),
        Type::ListType(inner) => match resolved(*inner, true, scope) {
            Ok(element) => Ok(with_nullability(nullable, TypeModel::List(Box::new(element)))),
            Err(name) => Err(name),
        },
        Type::NamedType(name) => match classified(scope, name@) {
            Some(named) => Ok(with_nullability(nullable, named)),
            None => Err(name@),
        },
    }
}

/// The type as the schema language writes it: `[T]` for a list, `T!` for a
/// non-null type.
pub open spec fn signature(field_type: Type) -> Seq<char>
    decreases field_type,
{
    match field_type {
        Type::NamedType(name) => name@,
        Type::ListType(inner) => "["@ + signature(*inner) + "]"@,
        Type::NonNullType(inner) => signature(*inner) + "!"@,
    }
}

/// The arguments of a field, resolved in order, or the first unknown name.
pub open spec fn resolved_arguments(arguments: Seq<InputValue>, scope: Collected) -> Result<
    Seq<ArgumentModel>,
    Seq<char>,
>
    decreases arguments.len(),
{
    if arguments.len() == 0 {
        Ok(Seq::empty())
    } else {
        match resolved_arguments(arguments.drop_last(), scope) {
            Err(name) => Err(name),
            Ok(before) => match resolved(arguments.last().value_type, true, scope) {
                Err(name) => Err(name),
                Ok(argument_type) => Ok(
                    before.push(
                        ArgumentModel {
                            name: arguments.last().name@,
                            argument_type,
                            declared_type: signature(arguments.last().value_type),
                        },
                    ),
                ),
            },
        }
    }
}

/// The fields of an input object, resolved in order, or the first unknown
/// name.
pub open spec fn resolved_input_fields(fields: Seq<InputValue>, scope: Collected) -> Result<
    Seq<FieldModel>,
    Seq<char>,
>
    decreases fields.len(),
{
    if fields.len() == 0 {
        Ok(Seq::empty())
    } else {
        match resolved_input_fields(fields.drop_last(), scope) {
            Err(name) => Err(name),
            Ok(before) => match resolved(fields.last().value_type, true, scope) {
                Err(name) => Err(name),
                Ok(field_type) => Ok(before.push(FieldModel { name: fields.last().name@, field_type })),
            },
        }
    }
}

/// A field of an object: its type is resolved first, then its arguments; it
/// gets a function type iff it takes arguments.
pub open spec fn resolved_output_field(field: Field, scope: Collected) -> Result<
    FieldModel,
    Seq<char>,
> {
    match resolved(field.field_type, true, scope) {
        Err(name) => Err(name),
        Ok(output) => if field.arguments@.len() == 0 {
            Ok(FieldModel { name: field.name@, field_type: output })
        } else {
            match resolved_arguments(field.arguments@, scope) {
                Err(name) => Err(name),
                Ok(inputs) => Ok(
                    FieldModel {
                        name: field.name@,
                        field_type: TypeModel::Function { inputs, output: Box::new(output) },
                    },
                ),
            }
        },
    }
}

/// The fields of an object, resolved in order, or the first unknown name.
pub open spec fn resolved_output_fields(fields: Seq<Field>, scope: Collected) -> Result<
    Seq<FieldModel>,
    Seq<char>,
>
    decreases fields.len(),
{
    if fields.len() == 0 {
        Ok(Seq::empty())
    } else {
        match resolved_output_fields(fields.drop_last(), scope) {
            Err(name) => Err(name),
            Ok(before) => match resolved_output_field(fields.last(), scope) {
                Err(name) => Err(name),
                Ok(field) => Ok(before.push(field)),
            },
        }
    }
}

/// The input objects, resolved in order, or the first unknown name.
pub open spec fn resolved_inputs(objects: Seq<InputObjectType>, scope: Collected) -> Result<
    Seq<ObjectModel>,
    Seq<char>,
>
    decreases objects.len(),
{
    if objects.len() == 0 {
        Ok(Seq::empty())
    } else {
        match resolved_inputs(objects.drop_last(), scope) {
            Err(name) => Err(name),
            Ok(before) => match resolved_input_fields(objects.last().fields@, scope) {
                Err(name) => Err(name),
                Ok(fields) => Ok(before.push(ObjectModel { name: objects.last().name@, fields })),
            },
        }
    }
}

/// The objects, resolved in order, or the first unknown name.
pub open spec fn resolved_outputs(objects: Seq<ObjectType>, scope: Collected) -> Result<
    Seq<ObjectModel>,
    Seq<char>,
>
    decreases objects.len(),
{
    if objects.len() == 0 {
        Ok(Seq::empty())
    } else {
        match resolved_outputs(objects.drop_last(), scope) {
            Err(name) => Err(name),
            Ok(before) => match resolved_output_fields(objects.last().fields@, scope) {
                Err(name) => Err(name),
                Ok(fields) => Ok(before.push(ObjectModel { name: objects.last().name@, fields })),
            },
        }
    }
}

/// The document that what was collected describes: the input objects are
/// resolved first, then the objects. The first name that is not known is the
/// error.
pub open spec fn built(scope: Collected) -> Result<DocumentModel, Seq<char>> {
    match resolved_inputs(scope.inputs, scope) {
        Err(name) => Err(name),
        Ok(inputs) => match resolved_outputs(scope.outputs, scope) {
            Err(name) => Err(name),
            Ok(outputs) => Ok(
                DocumentModel { inputs, outputs, enums: scope.enums, scalars: scope.scalars },
            ),
        },
    }
}

/// The document that the definitions describe, or the first type name, in
/// the order of resolution, that they refer to without defining it.
pub open spec fn document_of(definitions: Seq<Definition>) -> Result<DocumentModel, Seq<char>> {
    built(collected(definitions))
}

/// What a resolution returned, as a value.
pub open spec fn type_outcome(outcome: Result<GqlType, UnknownTypeReference>) -> Result<
    TypeModel,
    Seq<char>,
> {
    match outcome {
        Ok(gql_type) => Ok(gql_type@),
        Err(error) => Err(error.name@),
    }
}

/// What resolving arguments returned, as a value.
pub open spec fn arguments_outcome(outcome: Result<Vec<Argument>, UnknownTypeReference>) -> Result<
    Seq<ArgumentModel>,
    Seq<char>,
> {
    match outcome {
        Ok(arguments) => Ok(arguments_model(arguments@)),
        Err(error) => Err(error.name@),
    }
}

/// What resolving an object returned, as a value.
pub open spec fn object_outcome(outcome: Result<Object, UnknownTypeReference>) -> Result<
    ObjectModel,
    Seq<char>,
> {
    match outcome {
        Ok(object) => Ok(object@),
        Err(error) => Err(error.name@),
    }
}

/// What reading a document returned, as a value.
pub open spec fn document_outcome(outcome: Result<GqlDocument, UnknownTypeReference>) -> Result<
    DocumentModel,
    Seq<char>,
> {
    match outcome {
        Ok(document) => Ok(document@),
        Err(error) => Err(error.name@),
    }
}

/// An object with resolved fields, or the error of the fields.
pub open spec fn object_of(name: Seq<char>, fields: Result<Seq<FieldModel>, Seq<char>>) -> Result<
    ObjectModel,
    Seq<char>,
> {
    match fields {
        Ok(fields) => Ok(ObjectModel { name, fields }),
        Err(unknown) => Err(unknown),
    }
}

/// Writes a type as the schema language does.
pub fn type_signature(field_type: &Type) -> (text: String)
    ensures
        text@ == signature(*field_type),
    decreases field_type,
{
    match field_type {
        Type::NamedType(name) => name.clone(),
        Type::ListType(inner) => {
            let inner_text = type_signature(inner);
            concat3("[", inner_text.as_str(), "]")
        },
        Type::NonNullType(inner) => {
            let inner_text = type_signature(inner);
            concat2(inner_text.as_str(), "!")
        },
    }
}

/// Collects the definitions of a document, then builds the document from
/// them.
struct GqlDocumentBuilder<'a> {
    input_definitions: NameMap<&'a InputObjectType>,
    output_definitions: NameMap<&'a ObjectType>,
    enums: NameMap<Enum>,
    scalars: Vec<String>,
}

impl<'a> GqlDocumentBuilder<'a> {
    /// The builder holds exactly what `state` says.
    spec fn holds(&self, state: Collected) -> bool {
        &&& strings_model(self.scalars@) == state.scalars
        &&& self.enums.well_formed()
        &&& self.enums.names() == state.enum_names
        &&& enums_model(self.enums.values()) == state.enums
        &&& self.input_definitions.well_formed()
        &&& self.input_definitions.names() == state.input_names
        &&& self.input_definitions.values().len() == state.inputs.len()
        &&& forall|i: int|
            0 <= i < state.inputs.len() ==> *(#[trigger] self.input_definitions.values()[i])
                == state.inputs[i]
        &&& self.output_definitions.well_formed()
        &&& self.output_definitions.names() == state.output_names
        &&& self.output_definitions.values().len() == state.outputs.len()
        &&& forall|i: int|
            0 <= i < state.outputs.len() ==> *(#[trigger] self.output_definitions.values()[i])
                == state.outputs[i]
    }

    fn new() -> (builder: GqlDocumentBuilder<'a>)
        ensures
            builder.holds(
                Collected {
                    scalars: Seq::empty(),
                    enum_names: Seq::empty(),
                    enums: Seq::empty(),
                    input_names: Seq::empty(),
                    inputs: Seq::empty(),
                    output_names: Seq::empty(),
                    outputs: Seq::empty(),
                },
            ),
    {
        let builder = GqlDocumentBuilder {
            input_definitions: NameMap::new(),
            output_definitions: NameMap::new(),
            enums: NameMap::new(),
            scalars: Vec::new(),
        };
        assert(strings_model(builder.scalars@) =~= Seq::<Seq<char>>::empty());
        assert(enums_model(builder.enums.values()) =~= Seq::<EnumModel>::empty());
        builder
    }

    fn add_scalar(&mut self, name: &str, Ghost(state): Ghost<Collected>)
        requires
            old(self).holds(state),
        ensures
            final(self).holds(Collected { scalars: placed_names(state.scalars, name@), ..state }),
    {
        place_name(&mut self.scalars, name.to_string());
    }

    fn add_definition(&mut self, definition: &'a Definition, Ghost(state): Ghost<Collected>)
        requires
            old(self).holds(state),
        ensures
            final(self).holds(collected_with(state, *definition)),
    {
        match definition {
            Definition::TypeDefinition(definition) => {
                match definition {
                    TypeDefinition::Scalar(definition) => {
                        place_name(&mut self.scalars, definition.name.clone());
                    },
                    TypeDefinition::Object(definition) => {
                        proof {
                            self.output_definitions.lemma_same_length();
                            lemma_position_bounds(state.output_names, definition.name@);
                        }
                        self.output_definitions.insert(definition.name.clone(), definition);
                    },
                    TypeDefinition::InputObject(definition) => {
                        proof {
                            self.input_definitions.lemma_same_length();
                            lemma_position_bounds(state.input_names, definition.name@);
                        }
                        self.input_definitions.insert(definition.name.clone(), definition);
                    },
                    TypeDefinition::Enum(definition) => {
                        let enum_members = to_enum_members(&definition.values);
                        let enum_def = Enum { name: definition.name.clone(), values: enum_members };
                        proof {
                            self.enums.lemma_same_length();
                            lemma_position_bounds(state.enum_names, definition.name@);
                        }
                        let ghost before = self.enums.values();
                        self.enums.insert(definition.name.clone(), enum_def);
                        proof {
                            let place = position(state.enum_names, definition.name@);
                            let model = EnumModel {
                                name: definition.name@,
                                values: members_of(definition.values@),
                            };
                            if is_placed(state.enum_names, definition.name@) {
                                assert(enums_model(before.update(place, enum_def))
                                    =~= enums_model(before).update(place, model));
                            } else {
                                assert(enums_model(before.insert(place, enum_def))
                                    =~= enums_model(before).insert(place, model));
                            }
                        }
                    },
                    TypeDefinition::Union => {},
                    TypeDefinition::Interface => {},
                }
            },
            Definition::SchemaDefinition => {},
            Definition::TypeExtension => {},
            Definition::DirectiveDefinition => {},
        }
    }

    fn add_document(&mut self, schema: &'a Document)
        requires
            old(self).holds(collected_at_start()),
        ensures
            final(self).holds(collected(schema.definitions@)),
    {
        let mut i: usize = 0;
        while i < schema.definitions.len()
            invariant
                i <= schema.definitions.len(),
                self.holds(collected(schema.definitions@.take(i as int))),
            decreases schema.definitions.len() - i,
        {
            let ghost state = collected(schema.definitions@.take(i as int));
            self.add_definition(&schema.definitions[i], Ghost(state));
            i = i + 1;
            proof {
                let next = schema.definitions@.take(i as int);
                assert(next.drop_last() =~= schema.definitions@.take(i - 1));
            }
        }
        assert(schema.definitions@.take(i as int) =~= schema.definitions@);
    }

    fn to_gql_type(&self, field_type: &Type, is_nullable: bool, Ghost(state): Ghost<Collected>) -> (outcome:
        Result<GqlType, UnknownTypeReference>)
        requires
            self.holds(state),
        ensures
            type_outcome(outcome) == resolved(*field_type, is_nullable, state),
        decreases field_type,
    {
        match field_type {
            Type::NonNullType(inner) => self.to_gql_type(inner, false, Ghost(state)),
            Type::ListType(inner) => {
                match self.to_gql_type(inner, true, Ghost(state)) {
                    Ok(inner_type) => Ok(wrap(is_nullable, GqlType::List(Box::new(inner_type)))),
                    Err(error) => Err(error),
                }
            },
            Type::NamedType(name) => {
                let inner = if contains_string(&self.scalars, name.as_str()) {
                    GqlType::Scalar(name.clone())
                } else if self.enums.contains_key(name.as_str()) {
                    GqlType::Enum(name.clone())
                } else if self.input_definitions.contains_key(name.as_str()) {
                    GqlType::Object(name.clone())
                } else if self.output_definitions.contains_key(name.as_str()) {
                    GqlType::Object(name.clone())
                } else {
                    return Err(UnknownTypeReference { name: name.clone() });
                };
                Ok(wrap(is_nullable, inner))
            },
        }
    }

    fn to_arguments(&self, arguments: &Vec<InputValue>, Ghost(state): Ghost<Collected>) -> (outcome:
        Result<Vec<Argument>, UnknownTypeReference>)
        requires
            self.holds(state),
        ensures
            arguments_outcome(outcome) == resolved_arguments(arguments@, state),
    {
        let mut args: Vec<Argument> = Vec::new();
        let mut i: usize = 0;
        assert(arguments_model(args@) =~= Seq::<ArgumentModel>::empty());
        while i < arguments.len()
            invariant
                i <= arguments.len(),
                self.holds(state),
                resolved_arguments(arguments@.take(i as int), state) == Ok::<
                    Seq<ArgumentModel>,
                    Seq<char>,
                >(arguments_model(args@)),
            decreases arguments.len() - i,
        {
            let arg = &arguments[i];
            let ghost next = arguments@.take(i + 1);
            assert(next.drop_last() =~= arguments@.take(i as int));
            let ghost before = arguments_model(args@);
            match self.to_gql_type(&arg.value_type, true, Ghost(state)) {
                Ok(argument_type) => {
                    let argument = Argument {
                        name: arg.name.clone(),
                        argument_type,
                        declared_type: type_signature(&arg.value_type),
                    };
                    args.push(argument);
                    assert(arguments_model(args@) =~= before.push(argument@));
                },
                Err(error) => {
                    proof {
                        lemma_arguments_error_stays(arguments@, i + 1, state);
                    }
                    return Err(error);
                },
            }
            i = i + 1;
        }
        assert(arguments@.take(i as int) =~= arguments@);
        Ok(args)
    }

    fn to_output_object(&self, definition: &ObjectType, Ghost(state): Ghost<Collected>) -> (outcome:
        Result<Object, UnknownTypeReference>)
        requires
            self.holds(state),
        ensures
            object_outcome(outcome) == object_of(
                definition.name@,
                resolved_output_fields(definition.fields@, state),
            ),
    {
        let mut fields: Vec<schema::Field> = Vec::new();
        let mut i: usize = 0;
        assert(fields_model(fields@) =~= Seq::<FieldModel>::empty());
        while i < definition.fields.len()
            invariant
                i <= definition.fields.len(),
                self.holds(state),
                resolved_output_fields(definition.fields@.take(i as int), state) == Ok::<
                    Seq<FieldModel>,
                    Seq<char>,
                >(fields_model(fields@)),
            decreases definition.fields.len() - i,
        {
            let field = &definition.fields[i];
            let ghost next = definition.fields@.take(i + 1);
            assert(next.drop_last() =~= definition.fields@.take(i as int));
            let ghost before = fields_model(fields@);
            let func_output = match self.to_gql_type(&field.field_type, true, Ghost(state)) {
                Ok(output) => output,
                Err(error) => {
                    proof {
                        lemma_output_fields_error_stays(definition.fields@, i + 1, state);
                    }
                    return Err(error);
                },
            };
            let field_type = if field.arguments.len() == 0 {
                func_output
            } else {
                match self.to_arguments(&field.arguments, Ghost(state)) {
                    Ok(inputs) => {
                        let output = Box::new(func_output);
                        proof {
                            lemma_function_model(inputs, output);
                        }
                        GqlType::Function { inputs, output }
                    },
                    Err(error) => {
                        proof {
                            lemma_output_fields_error_stays(definition.fields@, i + 1, state);
                        }
                        return Err(error);
                    },
                }
            };
            let resolved_field = schema::Field { name: field.name.clone(), field_type };
            fields.push(resolved_field);
            assert(fields_model(fields@) =~= before.push(resolved_field@));
            i = i + 1;
        }
        assert(definition.fields@.take(i as int) =~= definition.fields@);
        Ok(Object { name: definition.name.clone(), fields })
    }

    fn to_input_object(&self, definition: &InputObjectType, Ghost(state): Ghost<Collected>) -> (outcome:
        Result<Object, UnknownTypeReference>)
        requires
            self.holds(state),
        ensures
            object_outcome(outcome) == object_of(
                definition.name@,
                resolved_input_fields(definition.fields@, state),
            ),
    {
        let mut fields: Vec<schema::Field> = Vec::new();
        let mut i: usize = 0;
        assert(fields_model(fields@) =~= Seq::<FieldModel>::empty());
        while i < definition.fields.len()
            invariant
                i <= definition.fields.len(),
                self.holds(state),
                resolved_input_fields(definition.fields@.take(i as int), state) == Ok::<
                    Seq<FieldModel>,
                    Seq<char>,
                >(fields_model(fields@)),
            decreases definition.fields.len() - i,
        {
            let field = &definition.fields[i];
            let ghost next = definition.fields@.take(i + 1);
            assert(next.drop_last() =~= definition.fields@.take(i as int));
            let ghost before = fields_model(fields@);
            match self.to_gql_type(&field.value_type, true, Ghost(state)) {
                Ok(field_type) => {
                    let resolved_field = schema::Field { name: field.name.clone(), field_type };
                    fields.push(resolved_field);
                    assert(fields_model(fields@) =~= before.push(resolved_field@));
                },
                Err(error) => {
                    proof {
                        lemma_input_fields_error_stays(definition.fields@, i + 1, state);
                    }
                    return Err(error);
                },
            }
            i = i + 1;
        }
        assert(definition.fields@.take(i as int) =~= definition.fields@);
        Ok(Object { name: definition.name.clone(), fields })
    }

    fn build(self, Ghost(state): Ghost<Collected>) -> (outcome: Result<
        GqlDocument,
        UnknownTypeReference,
    >)
        requires
            self.holds(state),
        ensures
            document_outcome(outcome) == built(state),
    {
        let mut inputs: Vec<Object> = Vec::new();
        let mut i: usize = 0;
        assert(objects_model(inputs@) =~= Seq::<ObjectModel>::empty());
        while i < self.input_definitions.len()
            invariant
                i <= state.inputs.len(),
                self.holds(state),
                resolved_inputs(state.inputs.take(i as int), state) == Ok::<
                    Seq<ObjectModel>,
                    Seq<char>,
                >(objects_model(inputs@)),
            decreases state.inputs.len() - i,
        {
            let definition = *self.input_definitions.value_at(i);
            let ghost next = state.inputs.take(i + 1);
            assert(next.drop_last() =~= state.inputs.take(i as int));
            let ghost before = objects_model(inputs@);
            match self.to_input_object(definition, Ghost(state)) {
                Ok(object) => {
                    inputs.push(object);
                    assert(objects_model(inputs@) =~= before.push(object@));
                },
                Err(error) => {
                    proof {
                        lemma_inputs_error_stays(state.inputs, i + 1, state);
                    }
                    return Err(error);
                },
            }
            i = i + 1;
        }
        assert(state.inputs.take(i as int) =~= state.inputs);

        let mut outputs: Vec<Object> = Vec::new();
        let mut k: usize = 0;
        while k < self.output_definitions.len()
            invariant
                k <= state.outputs.len(),
                self.holds(state),
                resolved_inputs(state.inputs, state) == Ok::<Seq<ObjectModel>, Seq<char>>(
                    objects_model(inputs@),
                ),
                resolved_outputs(state.outputs.take(k as int), state) == Ok::<
                    Seq<ObjectModel>,
                    Seq<char>,
                >(objects_model(outputs@)),
            decreases state.outputs.len() - k,
        {
            let definition = *self.output_definitions.value_at(k);
            let ghost next = state.outputs.take(k + 1);
            assert(next.drop_last() =~= state.outputs.take(k as int));
            let ghost before = objects_model(outputs@);
            match self.to_output_object(definition, Ghost(state)) {
                Ok(object) => {
                    outputs.push(object);
                    assert(objects_model(outputs@) =~= before.push(object@));
                },
                Err(error) => {
                    proof {
                        lemma_outputs_error_stays(state.outputs, k + 1, state);
                    }
                    return Err(error);
                },
            }
            k = k + 1;
        }
        assert(state.outputs.take(k as int) =~= state.outputs);
        Ok(
            GqlDocument {
                inputs,
                outputs,
                scalars: self.scalars,
                enums: self.enums.into_values(),
            },
        )
    }
}

fn to_enum_members(values: &Vec<EnumValue>) -> (members: Vec<String>)
    ensures
        strings_model(members@) == members_of(values@),
{
    let mut members: Vec<String> = Vec::new();
    let mut i: usize = 0;
    while i < values.len()
        invariant
            i <= values.len(),
            members@.len() == i,
            forall|k: int| 0 <= k < i ==> (#[trigger] members@[k])@ == values@[k].name@,
        decreases values.len() - i,
    {
        members.push(values[i].name.clone());
        i = i + 1;
    }
    members
}

/// Once a prefix of the arguments has an unknown name, so has the whole.
proof fn lemma_arguments_error_stays(arguments: Seq<InputValue>, n: int, scope: Collected)
    requires
        0 <= n <= arguments.len(),
        resolved_arguments(arguments.take(n), scope) is Err,
    ensures
        resolved_arguments(arguments, scope) == resolved_arguments(arguments.take(n), scope),
    decreases arguments.len(),
{
    if n == arguments.len() {
        assert(arguments.take(n) =~= arguments);
    } else {
        assert(arguments.drop_last().take(n) =~= arguments.take(n));
        lemma_arguments_error_stays(arguments.drop_last(), n, scope);
    }
}

/// Once a prefix of the fields has an unknown name, so has the whole.
proof fn lemma_input_fields_error_stays(fields: Seq<InputValue>, n: int, scope: Collected)
    requires
        0 <= n <= fields.len(),
        resolved_input_fields(fields.take(n), scope) is Err,
    ensures
        resolved_input_fields(fields, scope) == resolved_input_fields(fields.take(n), scope),
    decreases fields.len(),
{
    if n == fields.len() {
        assert(fields.take(n) =~= fields);
    } else {
        assert(fields.drop_last().take(n) =~= fields.take(n));
        lemma_input_fields_error_stays(fields.drop_last(), n, scope);
    }
}

/// Once a prefix of the fields has an unknown name, so has the whole.
proof fn lemma_output_fields_error_stays(fields: Seq<Field>, n: int, scope: Collected)
    requires
        0 <= n <= fields.len(),
        resolved_output_fields(fields.take(n), scope) is Err,
    ensures
        resolved_output_fields(fields, scope) == resolved_output_fields(fields.take(n), scope),
    decreases fields.len(),
{
    if n == fields.len() {
        assert(fields.take(n) =~= fields);
    } else {
        assert(fields.drop_last().take(n) =~= fields.take(n));
        lemma_output_fields_error_stays(fields.drop_last(), n, scope);
    }
}

/// Once a prefix of the input objects has an unknown name, so has the whole.
proof fn lemma_inputs_error_stays(objects: Seq<InputObjectType>, n: int, scope: Collected)
    requires
        0 <= n <= objects.len(),
        resolved_inputs(objects.take(n), scope) is Err,
    ensures
        resolved_inputs(objects, scope) == resolved_inputs(objects.take(n), scope),
    decreases objects.len(),
{
    if n == objects.len() {
        assert(objects.take(n) =~= objects);
    } else {
        assert(objects.drop_last().take(n) =~= objects.take(n));
        lemma_inputs_error_stays(objects.drop_last(), n, scope);
    }
}

/// Once a prefix of the objects has an unknown name, so has the whole.
proof fn lemma_outputs_error_stays(objects: Seq<ObjectType>, n: int, scope: Collected)
    requires
        0 <= n <= objects.len(),
        resolved_outputs(objects.take(n), scope) is Err,
    ensures
        resolved_outputs(objects, scope) == resolved_outputs(objects.take(n), scope),
    decreases objects.len(),
{
    if n == objects.len() {
        assert(objects.take(n) =~= objects);
    } else {
        assert(objects.drop_last().take(n) =~= objects.take(n));
        lemma_outputs_error_stays(objects.drop_last(), n, scope);
    }
}

/// Builds the document that a parsed schema-definition document describes.
/// The built-in scalars are known from the start. Scalars, enumerations,
/// input objects and objects come out in the order of their names; of
/// definitions with one name the last one stands. A field that refers to an
/// unknown type fails the whole document.
pub fn from_parser_document(document: &Document) -> (outcome: Result<
    GqlDocument,
    UnknownTypeReference,
>)
    ensures
        document_outcome(outcome) == document_of(document.definitions@),
        outcome matches Ok(read) ==> read@.well_formed() && in_name_order(read@),
{
    proof {
        if document_of(document.definitions@) is Ok {
            lemma_document_well_formed(document.definitions@);
        }
    }
    let mut builder = GqlDocumentBuilder::new();
    let ghost mut state = Collected {
        scalars: Seq::empty(),
        enum_names: Seq::empty(),
        enums: Seq::empty(),
        input_names: Seq::empty(),
        inputs: Seq::empty(),
        output_names: Seq::empty(),
        outputs: Seq::empty(),
    };
    let scalars = schema::built_in_scalars();
    let mut i: usize = 0;
    let ghost names = built_in_scalar_names();
    while i < scalars.len()
        invariant
            i <= scalars.len(),
            strings_model(scalars@) == names,
            builder.holds(state),
            state == (Collected {
                scalars: placed_all(Seq::empty(), names.take(i as int)),
                enum_names: Seq::empty(),
                enums: Seq::empty(),
                input_names: Seq::empty(),
                inputs: Seq::empty(),
                output_names: Seq::empty(),
                outputs: Seq::empty(),
            }),
        decreases scalars.len() - i,
    {
        builder.add_scalar(scalars[i].as_str(), Ghost(state));
        proof {
            let next = names.take(i + 1);
            assert(next.drop_last() =~= names.take(i as int));
            state = Collected { scalars: placed_names(state.scalars, scalars@[i as int]@), ..state };
        }
        i = i + 1;
    }
    assert(names.take(i as int) =~= names);
    builder.add_document(document);
    builder.build(Ghost(collected(document.definitions@)))
}

/// A type resolves at a position that admits null iff it resolves at one that
/// does not.
pub proof fn lemma_resolves_either_way(field_type: Type, scope: Collected)
    ensures
        resolved(field_type, true, scope) is Ok <==> resolved(field_type, false, scope) is Ok,
    decreases field_type,
{
}

/// Resolution never stacks two `Nullable` wrappers and never yields a
/// function type; the result is `Nullable` exactly when the position admits
/// null and the type is not a non-null type.
pub proof fn lemma_resolved_shape(field_type: Type, nullable: bool, scope: Collected)
    requires
        resolved(field_type, nullable, scope) is Ok,
    ensures
        resolved(field_type, nullable, scope)->Ok_0.well_formed(),
        resolved(field_type, nullable, scope)->Ok_0.is_value_type(),
        resolved(field_type, nullable, scope)->Ok_0 is Nullable <==> nullable && !(field_type
            is NonNullType),
    decreases field_type,
{
    reveal_with_fuel(TypeModel::well_formed, 3);
    reveal_with_fuel(TypeModel::is_value_type, 3);
    match field_type {
        Type::NonNullType(inner) => {
            lemma_resolved_shape(*inner, false, scope);
        },
        Type::ListType(inner) => {
            lemma_resolved_shape(*inner, true, scope);
        },
        Type::NamedType(name) => {},
    }
}

/// A non-null list of nullable elements and a nullable list of non-null
/// elements are different types, whatever element the scope knows.
pub proof fn lemma_list_nullability_is_structural(element: Type, scope: Collected)
    requires
        resolved(element, true, scope) is Ok,
    ensures
        resolved(
            Type::NonNullType(Box::new(Type::ListType(Box::new(element)))),
            true,
            scope,
        ) is Ok,
        resolved(
            Type::ListType(Box::new(Type::NonNullType(Box::new(element)))),
            true,
            scope,
        ) is Ok,
        resolved(Type::NonNullType(Box::new(Type::ListType(Box::new(element)))), true, scope)
            != resolved(
            Type::ListType(Box::new(Type::NonNullType(Box::new(element)))),
            true,
            scope,
        ),
{
    reveal_with_fuel(resolved, 3);
}

/// The names of objects, in order.
pub open spec fn object_names(objects: Seq<ObjectModel>) -> Seq<Seq<char>> {
    Seq::new(objects.len(), |i: int| objects[i].name)
}

/// The names of enumerations, in order.
pub open spec fn enum_names(enums: Seq<EnumModel>) -> Seq<Seq<char>> {
    Seq::new(enums.len(), |i: int| enums[i].name)
}

/// Scalars, enumerations, input objects and objects each stand in the order
/// of their names, no name twice.
pub open spec fn in_name_order(document: DocumentModel) -> bool {
    &&& strictly_sorted(document.scalars)
    &&& strictly_sorted(enum_names(document.enums))
    &&& strictly_sorted(object_names(document.inputs))
    &&& strictly_sorted(object_names(document.outputs))
}

/// What is collected is in the order of the names, and everything is stored
/// under the name it bears.
pub open spec fn is_ordered(state: Collected) -> bool {
    &&& strictly_sorted(state.scalars)
    &&& strictly_sorted(state.enum_names)
    &&& strictly_sorted(state.input_names)
    &&& strictly_sorted(state.output_names)
    &&& state.enum_names.len() == state.enums.len()
    &&& state.input_names.len() == state.inputs.len()
    &&& state.output_names.len() == state.outputs.len()
    &&& forall|i: int| 0 <= i < state.enums.len() ==> (#[trigger] state.enums[i]).name == state.enum_names[i]
    &&& forall|i: int|
        0 <= i < state.inputs.len() ==> (#[trigger] state.inputs[i]).name@ == state.input_names[i]
    &&& forall|i: int|
        0 <= i < state.outputs.len() ==> (#[trigger] state.outputs[i]).name@
            == state.output_names[i]
}

proof fn lemma_placed_all_sorted(names: Seq<Seq<char>>, added: Seq<Seq<char>>)
    requires
        strictly_sorted(names),
    ensures
        strictly_sorted(placed_all(names, added)),
    decreases added.len(),
{
    if added.len() > 0 {
        lemma_placed_all_sorted(names, added.drop_last());
        lemma_placed_names_sorted(placed_all(names, added.drop_last()), added.last());
    }
}

/// One more definition keeps what is collected in order.
proof fn lemma_collected_with_ordered(before: Collected, definition: Definition)
    requires
        is_ordered(before),
    ensures
        is_ordered(collected_with(before, definition)),
{
    match definition {
        Definition::TypeDefinition(TypeDefinition::Scalar(scalar)) => {
            lemma_placed_names_sorted(before.scalars, scalar.name@);
        },
        Definition::TypeDefinition(TypeDefinition::Object(object)) => {
            lemma_placed_names_sorted(before.output_names, object.name@);
            lemma_placed_values_keep_names(
                before.output_names,
                before.outputs,
                object.name@,
                object,
                |o: ObjectType| o.name@,
            );
        },
        Definition::TypeDefinition(TypeDefinition::InputObject(object)) => {
            lemma_placed_names_sorted(before.input_names, object.name@);
            lemma_placed_values_keep_names(
                before.input_names,
                before.inputs,
                object.name@,
                object,
                |o: InputObjectType| o.name@,
            );
        },
        Definition::TypeDefinition(TypeDefinition::Enum(enum_type)) => {
            lemma_placed_names_sorted(before.enum_names, enum_type.name@);
            lemma_placed_values_keep_names(
                before.enum_names,
                before.enums,
                enum_type.name@,
                EnumModel { name: enum_type.name@, values: members_of(enum_type.values@) },
                |e: EnumModel| e.name,
            );
        },
        _ => {},
    }
}

/// What is collected from a document is in the order of the names.
pub proof fn lemma_collected_is_ordered(definitions: Seq<Definition>)
    ensures
        is_ordered(collected(definitions)),
    decreases definitions.len(),
{
    if definitions.len() == 0 {
        lemma_placed_all_sorted(Seq::empty(), built_in_scalar_names());
    } else {
        lemma_collected_is_ordered(definitions.drop_last());
        lemma_collected_with_ordered(collected(definitions.drop_last()), definitions.last());
    }
}

proof fn lemma_resolved_arguments_shape(arguments: Seq<InputValue>, scope: Collected)
    requires
        resolved_arguments(arguments, scope) is Ok,
    ensures
        forall|i: int|
            0 <= i < resolved_arguments(arguments, scope)->Ok_0.len() ==> {
                &&& (#[trigger] resolved_arguments(
                    arguments,
                    scope,
                )->Ok_0[i]).argument_type.well_formed()
                &&& resolved_arguments(arguments, scope)->Ok_0[i].argument_type.is_value_type()
            },
    decreases arguments.len(),
{
    if arguments.len() > 0 {
        lemma_resolved_arguments_shape(arguments.drop_last(), scope);
        lemma_resolved_shape(arguments.last().value_type, true, scope);
    }
}

proof fn lemma_resolved_input_fields_shape(fields: Seq<InputValue>, scope: Collected)
    requires
        resolved_input_fields(fields, scope) is Ok,
    ensures
        (ObjectModel {
            name: Seq::empty(),
            fields: resolved_input_fields(fields, scope)->Ok_0,
        }).well_formed(),
        (ObjectModel {
            name: Seq::empty(),
            fields: resolved_input_fields(fields, scope)->Ok_0,
        }).is_input(),
    decreases fields.len(),
{
    if fields.len() > 0 {
        lemma_resolved_input_fields_shape(fields.drop_last(), scope);
        lemma_resolved_shape(fields.last().value_type, true, scope);
    }
}

proof fn lemma_resolved_output_fields_shape(fields: Seq<Field>, scope: Collected)
    requires
        resolved_output_fields(fields, scope) is Ok,
    ensures
        (ObjectModel {
            name: Seq::empty(),
            fields: resolved_output_fields(fields, scope)->Ok_0,
        }).well_formed(),
    decreases fields.len(),
{
    if fields.len() > 0 {
        lemma_resolved_output_fields_shape(fields.drop_last(), scope);
        let field = fields.last();
        lemma_resolved_shape(field.field_type, true, scope);
        if field.arguments@.len() > 0 {
            lemma_resolved_arguments_shape(field.arguments@, scope);
        }
    }
}

proof fn lemma_resolved_inputs_shape(objects: Seq<InputObjectType>, scope: Collected)
    requires
        resolved_inputs(objects, scope) is Ok,
    ensures
        resolved_inputs(objects, scope)->Ok_0.len() == objects.len(),
        forall|i: int|
            0 <= i < objects.len() ==> {
                &&& (#[trigger] resolved_inputs(objects, scope)->Ok_0[i]).name == objects[i].name@
                &&& resolved_inputs(objects, scope)->Ok_0[i].well_formed()
                &&& resolved_inputs(objects, scope)->Ok_0[i].is_input()
            },
    decreases objects.len(),
{
    if objects.len() > 0 {
        lemma_resolved_inputs_shape(objects.drop_last(), scope);
        lemma_resolved_input_fields_shape(objects.last().fields@, scope);
    }
}

proof fn lemma_resolved_outputs_shape(objects: Seq<ObjectType>, scope: Collected)
    requires
        resolved_outputs(objects, scope) is Ok,
    ensures
        resolved_outputs(objects, scope)->Ok_0.len() == objects.len(),
        forall|i: int|
            0 <= i < objects.len() ==> {
                &&& (#[trigger] resolved_outputs(objects, scope)->Ok_0[i]).name
                    == objects[i].name@
                &&& resolved_outputs(objects, scope)->Ok_0[i].well_formed()
            },
    decreases objects.len(),
{
    if objects.len() > 0 {
        lemma_resolved_outputs_shape(objects.drop_last(), scope);
        lemma_resolved_output_fields_shape(objects.last().fields@, scope);
    }
}

/// A document read from definitions is well formed and in the order of the
/// names.
pub proof fn lemma_document_well_formed(definitions: Seq<Definition>)
    requires
        document_of(definitions) is Ok,
    ensures
        document_of(definitions)->Ok_0.well_formed(),
        in_name_order(document_of(definitions)->Ok_0),
{
    let state = collected(definitions);
    lemma_collected_is_ordered(definitions);
    lemma_resolved_inputs_shape(state.inputs, state);
    lemma_resolved_outputs_shape(state.outputs, state);
    lemma_sorted_names_differ(state.scalars);
}

/// The last definition of an object of a name, if there is one.
pub open spec fn last_object(definitions: Seq<Definition>, name: Seq<char>) -> Option<ObjectType>
    decreases definitions.len(),
{
    if definitions.len() == 0 {
        None
    } else {
        match definitions.last() {
            Definition::TypeDefinition(TypeDefinition::Object(object)) => if object.name@ == name {
                Some(object)
            } else {
                last_object(definitions.drop_last(), name)
            },
            _ => last_object(definitions.drop_last(), name),
        }
    }
}

/// The last definition of an input object of a name, if there is one.
pub open spec fn last_input_object(definitions: Seq<Definition>, name: Seq<char>) -> Option<
    InputObjectType,
>
    decreases definitions.len(),
{
    if definitions.len() == 0 {
        None
    } else {
        match definitions.last() {
            Definition::TypeDefinition(TypeDefinition::InputObject(object)) => if object.name@
                == name {
                Some(object)
            } else {
                last_input_object(definitions.drop_last(), name)
            },
            _ => last_input_object(definitions.drop_last(), name),
        }
    }
}

/// The last definition of an enumeration of a name, if there is one.
pub open spec fn last_enum(definitions: Seq<Definition>, name: Seq<char>) -> Option<EnumModel>
    decreases definitions.len(),
{
    if definitions.len() == 0 {
        None
    } else {
        match definitions.last() {
            Definition::TypeDefinition(TypeDefinition::Enum(enum_type)) => if enum_type.name@
                == name {
                Some(EnumModel { name: enum_type.name@, values: members_of(enum_type.values@) })
            } else {
                last_enum(definitions.drop_last(), name)
            },
            _ => last_enum(definitions.drop_last(), name),
        }
    }
}

/// Of the definitions of one name the last one stands: under every name
/// stands the last object, the last input object and the last enumeration
/// that the document defines by that name, and nothing under a name by which
/// it defines none.
pub proof fn lemma_last_definition_stands(definitions: Seq<Definition>, name: Seq<char>)
    ensures
        stored(collected(definitions).output_names, collected(definitions).outputs, name)
            == last_object(definitions, name),
        stored(collected(definitions).input_names, collected(definitions).inputs, name)
            == last_input_object(definitions, name),
        stored(collected(definitions).enum_names, collected(definitions).enums, name)
            == last_enum(definitions, name),
        collected(definitions).output_names.contains(name) <==> last_object(definitions, name)
            is Some,
        collected(definitions).input_names.contains(name) <==> last_input_object(
            definitions,
            name,
        ) is Some,
        collected(definitions).enum_names.contains(name) <==> last_enum(definitions, name)
            is Some,
    decreases definitions.len(),
{
    lemma_collected_is_ordered(definitions);
    let state = collected(definitions);
    lemma_placed_iff_contained(state.output_names, name);
    lemma_placed_iff_contained(state.input_names, name);
    lemma_placed_iff_contained(state.enum_names, name);
    if definitions.len() > 0 {
        let before = collected(definitions.drop_last());
        lemma_last_definition_stands(definitions.drop_last(), name);
        lemma_collected_is_ordered(definitions.drop_last());
        match definitions.last() {
            Definition::TypeDefinition(TypeDefinition::Object(object)) => {
                lemma_stored_after_placing(
                    before.output_names,
                    before.outputs,
                    object.name@,
                    object,
                    name,
                );
            },
            Definition::TypeDefinition(TypeDefinition::InputObject(object)) => {
                lemma_stored_after_placing(
                    before.input_names,
                    before.inputs,
                    object.name@,
                    object,
                    name,
                );
            },
            Definition::TypeDefinition(TypeDefinition::Enum(enum_type)) => {
                lemma_stored_after_placing(
                    before.enum_names,
                    before.enums,
                    enum_type.name@,
                    EnumModel { name: enum_type.name@, values: members_of(enum_type.values@) },
                    name,
                );
            },
            _ => {},
        }
    }
}

/// Whether the document defines a scalar of this name.
pub open spec fn defines_scalar(definitions: Seq<Definition>, name: Seq<char>) -> bool {
    exists|i: int|
        0 <= i < definitions.len() && (#[trigger] definitions[i]
            matches Definition::TypeDefinition(TypeDefinition::Scalar(scalar)) && scalar.name@
            == name)
}

proof fn lemma_placed_all_contains(names: Seq<Seq<char>>, added: Seq<Seq<char>>, name: Seq<char>)
    requires
        strictly_sorted(names),
    ensures
        placed_all(names, added).contains(name) <==> names.contains(name) || added.contains(name),
    decreases added.len(),
{
    if added.len() > 0 {
        lemma_placed_all_contains(names, added.drop_last(), name);
        lemma_placed_all_sorted(names, added.drop_last());
        lemma_placed_names_sorted(placed_all(names, added.drop_last()), added.last());
        if added.contains(name) {
            let at = choose|i: int| 0 <= i < added.len() && added[i] == name;
            if at < added.len() - 1 {
                assert(added.drop_last()[at] == name);
            }
        }
    }
}

/// The scalars of a document are the built-in ones and those it defines.
pub proof fn lemma_scalars_are_built_in_or_defined(definitions: Seq<Definition>, name: Seq<char>)
    ensures
        collected(definitions).scalars.contains(name) <==> built_in_scalar_names().contains(name)
            || defines_scalar(definitions, name),
    decreases definitions.len(),
{
    if definitions.len() == 0 {
        lemma_placed_all_contains(Seq::empty(), built_in_scalar_names(), name);
    } else {
        let rest = definitions.drop_last();
        lemma_scalars_are_built_in_or_defined(rest, name);
        lemma_collected_is_ordered(rest);
        if defines_scalar(rest, name) {
            let at = choose|i: int|
                0 <= i < rest.len() && (#[trigger] rest[i]
                    matches Definition::TypeDefinition(TypeDefinition::Scalar(scalar))
                    && scalar.name@ == name);
        }
        if defines_scalar(definitions, name) {
            let at = choose|i: int|
                0 <= i < definitions.len() && (#[trigger] definitions[i]
                    matches Definition::TypeDefinition(TypeDefinition::Scalar(scalar))
                    && scalar.name@ == name);
            if at < rest.len() {
                assert(rest[at] == definitions[at]);
            }
        }
        match definitions.last() {
            Definition::TypeDefinition(TypeDefinition::Scalar(scalar)) => {
                lemma_placed_names_sorted(collected(rest).scalars, scalar.name@);
            },
            _ => {},
        }
    }
}

} // verus!
