//! The type model shared by both ways of reading a schema and by the emitters.
//!
//! Every executable type has a mathematical model (its view) in which strings
//! are sequences of characters and vectors are sequences. Contracts across the
//! crate are stated over these models.

use vstd::prelude::*;
use crate::text::strings_model;

verus! {

/// A resolved GraphQL type. A position that may hold `null` carries an explicit
/// `Nullable` wrapper; without it the position is never null.
#[derive(Debug, PartialEq, Eq)]
pub enum GqlType {
    List(Box<GqlType>),
    Object(String),
    Scalar(String),
    Enum(String),
    Nullable(Box<GqlType>),
    Function { inputs: Vec<Argument>, output: Box<GqlType> },
}

/// One argument of a field that takes arguments. `declared_type` is the type as
/// the schema wrote it (`[Int!]!`), kept for the codec's metadata.
#[derive(Debug, PartialEq, Eq)]
pub struct Argument {
    pub name: String,
    pub argument_type: GqlType,
    pub declared_type: String,
}

/// A named member of an object; a `Function` type when the field takes arguments.
#[derive(Debug, PartialEq, Eq)]
pub struct Field {
    pub name: String,
    pub field_type: GqlType,
}

/// A named list of fields, used for input objects and output objects alike.
#[derive(Debug, PartialEq, Eq)]
pub struct Object {
    pub name: String,
    pub fields: Vec<Field>,
}

/// A named enumeration and the names of its members.
#[derive(Debug, PartialEq, Eq)]
pub struct Enum {
    pub name: String,
    pub values: Vec<String>,
}

/// Everything the emitters need to know about a schema.
#[derive(Debug, PartialEq, Eq)]
pub struct GqlDocument {
    pub inputs: Vec<Object>,
    pub outputs: Vec<Object>,
    pub enums: Vec<Enum>,
    pub scalars: Vec<String>,
}

/// The mathematical value of a `GqlType`.
pub ghost enum TypeModel {
    List(Box<TypeModel>),
    Object(Seq<char>),
    Scalar(Seq<char>),
    Enum(Seq<char>),
    Nullable(Box<TypeModel>),
    Function { inputs: Seq<ArgumentModel>, output: Box<TypeModel> },
}

/// The mathematical value of an `Argument`.
pub ghost struct ArgumentModel {
    pub name: Seq<char>,
    pub argument_type: TypeModel,
    pub declared_type: Seq<char>,
}

/// The mathematical value of a `Field`.
pub ghost struct FieldModel {
    pub name: Seq<char>,
    pub field_type: TypeModel,
}

/// The mathematical value of an `Object`.
pub ghost struct ObjectModel {
    pub name: Seq<char>,
    pub fields: Seq<FieldModel>,
}

/// The mathematical value of an `Enum`.
pub ghost struct EnumModel {
    pub name: Seq<char>,
    pub values: Seq<Seq<char>>,
}

/// The mathematical value of a `GqlDocument`.
pub ghost struct DocumentModel {
    pub inputs: Seq<ObjectModel>,
    pub outputs: Seq<ObjectModel>,
    pub enums: Seq<EnumModel>,
    pub scalars: Seq<Seq<char>>,
}

impl GqlType {
    /// The value of this type, independent of how its strings are stored.
    pub open spec fn model(&self) -> TypeModel
        decreases self,
    {
        match self {
            GqlType::List(inner) => TypeModel::List(Box::new(inner.model())),
            GqlType::Object(name) => TypeModel::Object(name@),
            GqlType::Scalar(name) => TypeModel::Scalar(name@),
            GqlType::Enum(name) => TypeModel::Enum(name@),
            GqlType::Nullable(inner) => TypeModel::Nullable(Box::new(inner.model())),
            GqlType::Function { inputs, output } => TypeModel::Function {
                inputs: Seq::new(
                    inputs.len() as nat,
                    |i: int|
                        if 0 <= i < inputs.len() {
                            inputs[i].model()
                        } else {
                            arbitrary()
                        },
                ),
                output: Box::new(output.model()),
            },
        }
    }
}

impl Argument {
    /// The value of this argument.
    pub open spec fn model(&self) -> ArgumentModel
        decreases self,
    {
        ArgumentModel {
            name: self.name@,
            argument_type: self.argument_type.model(),
            declared_type: self.declared_type@,
        }
    }
}

impl View for GqlType {
    type V = TypeModel;

    open spec fn view(&self) -> TypeModel {
        self.model()
    }
}

impl View for Argument {
    type V = ArgumentModel;

    open spec fn view(&self) -> ArgumentModel {
        self.model()
    }
}

impl View for Field {
    type V = FieldModel;

    open spec fn view(&self) -> FieldModel {
        FieldModel { name: self.name@, field_type: self.field_type@ }
    }
}

impl View for Object {
    type V = ObjectModel;

    open spec fn view(&self) -> ObjectModel {
        ObjectModel { name: self.name@, fields: fields_model(self.fields@) }
    }
}

impl View for Enum {
    type V = EnumModel;

    open spec fn view(&self) -> EnumModel {
        EnumModel { name: self.name@, values: strings_model(self.values@) }
    }
}

impl View for GqlDocument {
    type V = DocumentModel;

    open spec fn view(&self) -> DocumentModel {
        DocumentModel {
            inputs: objects_model(self.inputs@),
            outputs: objects_model(self.outputs@),
            enums: enums_model(self.enums@),
            scalars: strings_model(self.scalars@),
        }
    }
}

/// The values of a sequence of arguments.
pub open spec fn arguments_model(arguments: Seq<Argument>) -> Seq<ArgumentModel> {
    arguments.map_values(|a: Argument| a@)
}

/// The values of a sequence of fields.
pub open spec fn fields_model(fields: Seq<Field>) -> Seq<FieldModel> {
    fields.map_values(|f: Field| f@)
}

/// The values of a sequence of objects.
pub open spec fn objects_model(objects: Seq<Object>) -> Seq<ObjectModel> {
    objects.map_values(|o: Object| o@)
}

/// The values of a sequence of enums.
pub open spec fn enums_model(enums: Seq<Enum>) -> Seq<EnumModel> {
    enums.map_values(|e: Enum| e@)
}

/// The model of a function type lists the models of its arguments in order.
pub proof fn lemma_function_model(inputs: Vec<Argument>, output: Box<GqlType>)
    ensures
        (GqlType::Function { inputs, output })@ == (TypeModel::Function {
            inputs: arguments_model(inputs@),
            output: Box::new(output@),
        }),
{
    let built = (GqlType::Function { inputs, output })@;
    assert(built->inputs =~= arguments_model(inputs@));
}

/// `inner`, wrapped in `Nullable` when the position admits null.
pub open spec fn with_nullability(nullable: bool, inner: TypeModel) -> TypeModel {
    if nullable {
        TypeModel::Nullable(Box::new(inner))
    } else {
        inner
    }
}

/// `inner`, wrapped in `Nullable` when the position admits null.
pub fn wrap(nullable: bool, inner: GqlType) -> (gql_type: GqlType)
    ensures
        gql_type@ == with_nullability(nullable, inner@),
{
    if nullable {
        GqlType::Nullable(Box::new(inner))
    } else {
        inner
    }
}

impl TypeModel {
    /// No `Nullable` wraps another `Nullable`, at any depth.
    pub open spec fn well_formed(self) -> bool
        decreases self,
    {
        match self {
            TypeModel::List(inner) => inner.well_formed(),
            TypeModel::Nullable(inner) => !(*inner is Nullable) && inner.well_formed(),
            TypeModel::Function { inputs, output } => {
                &&& output.well_formed()
                &&& forall|i: int|
                    0 <= i < inputs.len() ==> (#[trigger] inputs[i]).argument_type.well_formed()
            },
            _ => true,
        }
    }

    /// No function type occurs in this type: it describes a value, not a field
    /// with arguments.
    pub open spec fn is_value_type(self) -> bool
        decreases self,
    {
        match self {
            TypeModel::List(inner) => inner.is_value_type(),
            TypeModel::Nullable(inner) => inner.is_value_type(),
            TypeModel::Function { .. } => false,
            _ => true,
        }
    }

    /// A type a field may have: a value type, or a function from arguments of
    /// value types to a value type.
    pub open spec fn is_field_type(self) -> bool {
        match self {
            TypeModel::Function { inputs, output } => {
                &&& output.is_value_type()
                &&& forall|i: int|
                    0 <= i < inputs.len() ==> (#[trigger] inputs[i]).argument_type.is_value_type()
            },
            _ => self.is_value_type(),
        }
    }
}

impl ObjectModel {
    /// Every field has a well-formed field type.
    pub open spec fn well_formed(self) -> bool {
        forall|i: int|
            0 <= i < self.fields.len() ==> {
                &&& (#[trigger] self.fields[i]).field_type.well_formed()
                &&& self.fields[i].field_type.is_field_type()
            }
    }

    /// Every field holds a value: none takes arguments.
    pub open spec fn is_input(self) -> bool {
        forall|i: int|
            0 <= i < self.fields.len() ==> (#[trigger] self.fields[i]).field_type.is_value_type()
    }
}

/// No string occurs twice in `names`: the sequence stands for a set.
pub open spec fn distinct(names: Seq<Seq<char>>) -> bool {
    forall|i: int, j: int| 0 <= i < j < names.len() ==> names[i] != names[j]
}

impl DocumentModel {
    /// The invariant of a document that an ingestion produced: scalars form a
    /// set, all types are well formed, input objects hold values only.
    pub open spec fn well_formed(self) -> bool {
        &&& distinct(self.scalars)
        &&& forall|i: int|
            0 <= i < self.inputs.len() ==> {
                &&& (#[trigger] self.inputs[i]).well_formed()
                &&& self.inputs[i].is_input()
            }
        &&& forall|i: int| 0 <= i < self.outputs.len() ==> (#[trigger] self.outputs[i]).well_formed()
    }
}

/// The names of the scalars that every schema has, in their fixed order.
pub open spec fn built_in_scalar_names() -> Seq<Seq<char>> {
    seq!["Int"@, "String"@, "Float"@, "Boolean"@, "ID"@]
}

/// The built-in scalars are five different names.
pub proof fn lemma_built_in_scalars_distinct()
    ensures
        distinct(built_in_scalar_names()),
        built_in_scalar_names().len() == 5,
{
    reveal_strlit("Int");
    reveal_strlit("String");
    reveal_strlit("Float");
    reveal_strlit("Boolean");
    reveal_strlit("ID");
    let names = built_in_scalar_names();
    assert(names[0].len() == 3);
    assert(names[1].len() == 6);
    assert(names[2].len() == 5);
    assert(names[3].len() == 7);
}

/// The scalars that every schema has.
pub fn built_in_scalars() -> (scalars: Vec<String>)
    ensures
        strings_model(scalars@) == built_in_scalar_names(),
{
    let mut scalars: Vec<String> = Vec::new();
    scalars.push("Int".to_string());
    scalars.push("String".to_string());
    scalars.push("Float".to_string());
    scalars.push("Boolean".to_string());
    scalars.push("ID".to_string());
    scalars
}

} // verus!
