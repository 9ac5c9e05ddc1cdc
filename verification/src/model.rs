//! Declarative schema model: the field, type and enum-variant descriptors
//! of an endpoint, the endpoint schema itself, and the stored-procedure
//! descriptor whose parameters are ordered so that optional ones come
//! last.

use convert_case::{Case, Casing};
use vstd::prelude::*;

verus! {

/// A named field of an endpoint's parameters or returned.
#[derive(PartialEq, Eq, Debug)]
pub struct Field {
    pub name: String,
    pub ty: Type,
}

/// One variant of a declared enum: a name, a numeric value and an
/// optional comment.
#[derive(Clone, PartialEq, Eq, Debug)]
pub struct EnumVariant {
    pub name: String,
    pub value: i64,
    pub comment: String,
}

/// The type of a field in an endpoint schema.
#[derive(PartialEq, Eq, Debug)]
pub enum Type {
    Date,
    Int,
    BigInt,
    Numeric,
    Boolean,
    Text,
    Bytea,
    Uuid,
    Inet,
    Struct { name: String, fields: Vec<Field> },
    StructRef(String),
    Object,
    DataTable { name: String, fields: Vec<Field> },
    List(Box<Type>),
    Unit,
    Optional(Box<Type>),
    Enum { name: String, variants: Vec<EnumVariant> },
    EnumRef(String),
    TimeStampMs,
    BlockchainDecimal,
    BlockchainAddress,
    BlockchainTransactionHash,
}

impl Field {
    pub fn new(name: String, ty: Type) -> (r: Field)
        ensures
            r.name == name,
            r.ty == ty,
    {
        Field { name, ty }
    }
}

impl EnumVariant {
    /// A variant with an empty comment.
    pub fn new(name: String, value: i64) -> (r: EnumVariant)
        ensures
            r.name == name,
            r.value == value,
            r.comment@ == Seq::<char>::empty(),
    {
        EnumVariant { name, value, comment: String::new() }
    }

    pub fn new_with_comment(name: String, value: i64, comment: String) -> (r: EnumVariant)
        ensures
            r.name == name,
            r.value == value,
            r.comment == comment,
    {
        EnumVariant { name, value, comment }
    }
}

impl Type {
    pub fn struct_(name: String, fields: Vec<Field>) -> (r: Type)
        ensures
            r == (Type::Struct { name, fields }),
    {
        Type::Struct { name, fields }
    }

    pub fn struct_ref(name: String) -> (r: Type)
        ensures
            r == Type::StructRef(name),
    {
        Type::StructRef(name)
    }

    pub fn datatable(name: String, fields: Vec<Field>) -> (r: Type)
        ensures
            r == (Type::DataTable { name, fields }),
    {
        Type::DataTable { name, fields }
    }

    pub fn vec(ty: Type) -> (r: Type)
        ensures
            (r matches Type::List(b) && *b == ty),
    {
        Type::List(Box::new(ty))
    }

    pub fn optional(ty: Type) -> (r: Type)
        ensures
            (r matches Type::Optional(b) && *b == ty),
    {
        Type::Optional(Box::new(ty))
    }

    pub fn enum_ref(name: String) -> (r: Type)
        ensures
            r == Type::EnumRef(name),
    {
        Type::EnumRef(name)
    }

    pub fn enum_(name: String, fields: Vec<EnumVariant>) -> (r: Type)
        ensures
            r == (Type::Enum { name, variants: fields }),
    {
        Type::Enum { name, variants: fields }
    }

    /// A list type unwraps to its element; a data table unwraps to
    /// nothing; anything else stands for itself.
    pub fn try_unwrap(self) -> (r: Option<Type>)
        ensures
            (match self {
                Type::List(v) => r == Some(*v),
                Type::DataTable { .. } => r is None,
                _ => r == Some(self),
            }),
    {
        match self {
            Type::List(v) => Some(*v),
            Type::DataTable { .. } => None,
            other => Some(other),
        }
    }
}

/// A single endpoint of the API: its name, numeric method code,
/// parameters, returned fields, optional stream-response type and
/// description.
#[derive(Debug)]
pub struct EndpointSchema {
    pub name: String,
    pub code: u32,
    pub parameters: Vec<Field>,
    pub returned: Vec<Field>,
    pub stream_response: Option<Type>,
    pub description: String,
    /// The endpoint's serialized JSON schema, once one is attached.
    pub json_schema: Option<String>,
}

impl EndpointSchema {
    pub fn new(name: String, code: u32, parameters: Vec<Field>, returned: Vec<Field>) -> (r:
        EndpointSchema)
        ensures
            r.name == name,
            r.code == code,
            r.parameters == parameters,
            r.returned == returned,
            r.stream_response is None,
            r.description@ == Seq::<char>::empty(),
            r.json_schema is None,
    {
        EndpointSchema {
            name,
            code,
            parameters,
            returned,
            stream_response: None,
            description: String::new(),
            json_schema: None,
        }
    }

    /// The same endpoint with a stream response type attached.
    pub fn with_stream_response_type(self, stream_response: Type) -> (r: EndpointSchema)
        ensures
            r.stream_response == Some(stream_response),
            r.name == self.name,
            r.code == self.code,
            r.parameters == self.parameters,
            r.returned == self.returned,
            r.description == self.description,
            r.json_schema == self.json_schema,
    {
        EndpointSchema { stream_response: Some(stream_response), ..self }
    }

    /// The same endpoint with a description attached.
    pub fn with_description(self, desc: String) -> (r: EndpointSchema)
        ensures
            r.description == desc,
            r.name == self.name,
            r.code == self.code,
            r.parameters == self.parameters,
            r.returned == self.returned,
            r.stream_response == self.stream_response,
            r.json_schema == self.json_schema,
    {
        EndpointSchema { description: desc, ..self }
    }
}

pub open spec fn is_optional_field(f: Field) -> bool {
    f.ty matches Type::Optional(_)
}

/// The fields of `s` that are not optional, in order.
pub open spec fn keep_required(s: Seq<Field>) -> Seq<Field>
    decreases s.len(),
{
    if s.len() == 0 {
        Seq::empty()
    } else if is_optional_field(s.last()) {
        keep_required(s.drop_last())
    } else {
        keep_required(s.drop_last()).push(s.last())
    }
}

/// The optional fields of `s`, in order.
pub open spec fn keep_optional(s: Seq<Field>) -> Seq<Field>
    decreases s.len(),
{
    if s.len() == 0 {
        Seq::empty()
    } else if is_optional_field(s.last()) {
        keep_optional(s.drop_last()).push(s.last())
    } else {
        keep_optional(s.drop_last())
    }
}

/// Order a parameter list so that optional parameters come last, each
/// group keeping its original order.
pub fn sort_parameters(parameters: Vec<Field>) -> (r: Vec<Field>)
    ensures
        r@ == keep_required(parameters@) + keep_optional(parameters@),
{
    let ghost orig = parameters@;
    let mut rest = parameters;
    let mut required: Vec<Field> = Vec::new();
    let mut optional: Vec<Field> = Vec::new();
    proof {
        assert(orig.subrange(0, 0) =~= Seq::<Field>::empty());
        assert(required@ =~= keep_required(orig.subrange(0, 0)));
        assert(optional@ =~= keep_optional(orig.subrange(0, 0)));
        assert(rest@ =~= orig.subrange(0, orig.len() as int));
    }
    while rest.len() > 0
        invariant
            rest@.len() <= orig.len(),
            rest@ == orig.subrange(orig.len() - rest@.len(), orig.len() as int),
            required@ == keep_required(orig.subrange(0, orig.len() - rest@.len())),
            optional@ == keep_optional(orig.subrange(0, orig.len() - rest@.len())),
        decreases rest@.len(),
    {
        let ghost k = orig.len() - rest@.len();
        let f = rest.remove(0);
        proof {
            assert(f == orig[k]);
            assert(rest@ =~= orig.subrange(k + 1, orig.len() as int));
            assert(orig.subrange(0, k + 1).drop_last() =~= orig.subrange(0, k));
            assert(orig.subrange(0, k + 1).last() == orig[k]);
        }
        if matches!(f.ty, Type::Optional(_)) {
            optional.push(f);
        } else {
            required.push(f);
        }
    }
    proof {
        assert(orig.subrange(0, orig.len() as int) =~= orig);
    }
    let mut r = required;
    r.append(&mut optional);
    r
}

/// What convert_case's Pascal conversion makes of a text: the result
/// depends on the characters alone.
pub uninterp spec fn pascal_of(s: Seq<char>) -> Seq<char>;

/// Relies on convert_case's Casing::to_case with Case::Pascal: a pure
/// text transformation of its input.
#[verifier::external_body]
fn pascal_case(s: &str) -> (r: String)
    ensures
        r@ == pascal_of(s@),
{
    s.to_case(Case::Pascal)
}

/// A stored procedure of the API: its name, its parameters with optional
/// ones last, the row type its results come back as, and its SQL body.
#[derive(Debug)]
pub struct ProceduralFunction {
    pub name: String,
    pub parameters: Vec<Field>,
    pub return_row_type: Type,
    pub body: String,
}

impl ProceduralFunction {
    /// A procedure whose result-row type is derived from its name: the
    /// name in Pascal case with `RespRow` appended, over the given
    /// returned fields.
    pub fn new(name: String, parameters: Vec<Field>, returned: Vec<Field>, body: String) -> (r:
        ProceduralFunction)
        ensures
            r.name == name,
            r.parameters@ == keep_required(parameters@) + keep_optional(parameters@),
            (r.return_row_type matches Type::Struct { name: rn, fields } && rn@ == pascal_of(
                name@,
            ) + "RespRow"@ && fields == returned),
            r.body == body,
    {
        let sorted = sort_parameters(parameters);
        let mut row_name = pascal_case(name.as_str());
        row_name.append("RespRow");
        ProceduralFunction {
            name,
            parameters: sorted,
            return_row_type: Type::Struct { name: row_name, fields: returned },
            body,
        }
    }

    /// A procedure with an explicitly given result-row type.
    pub fn new_with_row_type(
        name: String,
        parameters: Vec<Field>,
        return_row_type: Type,
        body: String,
    ) -> (r: ProceduralFunction)
        ensures
            r.name == name,
            r.parameters@ == keep_required(parameters@) + keep_optional(parameters@),
            r.return_row_type == return_row_type,
            r.body == body,
    {
        ProceduralFunction {
            name,
            parameters: sort_parameters(parameters),
            return_row_type,
            body,
        }
    }
}

} // verus!
