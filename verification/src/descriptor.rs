//! Type descriptors: the already-parsed description of one serializable
//! struct or tagged-union type — field order, bit widths, endianness,
//! custom codecs, context parameters and discriminant rules. Descriptors are
//! produced once and stay immutable while values are written against them.

use vstd::prelude::*;
use crate::bits::Endian;

verus! {

/// The shape of one field's data.
pub enum FieldType {
    /// An unsigned scalar whose natural width is `width` bits (at most 64).
    Scalar { width: usize },
    /// A variable-length collection of unsigned scalars, each of natural
    /// width `elem_width` bits. Every element currently held is written; a
    /// sibling count field is kept consistent by a derived update.
    List { elem_width: usize },
    /// A nested value described by its own type descriptor.
    Nested(Box<TypeDescriptor>),
}

/// A custom write expression: a caller-supplied strategy that fully replaces
/// the default codec for a field, or the whole body of an enum variant.
pub enum WriteExpr {
    /// Emit these bits verbatim.
    Bits(Vec<bool>),
    /// Encode the field's own scalar value with this width and byte order.
    OwnScalar { width: usize, endian: Endian },
    /// Encode the context argument at `idx` with this width and byte order.
    CtxScalar { idx: usize, width: usize, endian: Endian },
    /// Report a codec failure; the error is propagated unchanged.
    Fail,
}

/// A derived-update expression: re-evaluated before every write against the
/// container's current field values, and assigned back into its field after
/// conversion into the field's declared type.
pub enum UpdateExpr {
    /// The length of the collection held by field `j` of the same container.
    LenOf(usize),
    /// A fixed value.
    Lit(u64),
    /// The scalar currently held by field `j` of the same container.
    CopyField(usize),
}

/// A context-argument expression: one position of the argument list handed
/// to a nested field's own write call.
pub enum CtxExpr {
    /// A fixed value.
    Lit(u64),
    /// The scalar held by field `j` of the containing value, as refreshed by
    /// that field's derived update, when it carries one.
    FieldScalar(usize),
    /// The containing write call's own context argument at `k`.
    Ctx(usize),
}

/// Describes one field within a struct or variant.
pub struct FieldDescriptor {
    /// The shape of the field's data.
    pub ty: FieldType,
    /// Declared bit width; when absent the natural width of the field's
    /// type applies. For a collection it applies to each element.
    pub bits: Option<usize>,
    /// Per-field byte-order override; falls back to the container default.
    pub endian: Option<Endian>,
    /// A skipped field contributes no bits at all.
    pub skip: bool,
    /// Custom write expression replacing the default codec.
    pub writer: Option<WriteExpr>,
    /// Derived-update expression refreshing this field before every write.
    pub update: Option<UpdateExpr>,
    /// Context arguments forwarded into a nested field's own write call,
    /// matching the nested descriptor's context parameter list exactly.
    pub ctx_args: Vec<CtxExpr>,
}

/// Describes one case of a tagged union.
pub struct VariantDescriptor {
    /// The discriminant emitted ahead of the variant's fields. At most one
    /// variant of an enum may omit it: the catch-all case, which
    /// contributes no discriminant bits.
    pub disc: Option<u64>,
    /// Custom write expression replacing the entire variant body; when
    /// present, no discriminant is emitted separately.
    pub writer: Option<WriteExpr>,
    /// The variant's own field layout.
    pub fields: Vec<FieldDescriptor>,
}

/// Whether a descriptor describes a struct or a tagged union.
pub enum TypeKind {
    /// An ordered list of fields; declaration order fixes the wire layout.
    Struct(Vec<FieldDescriptor>),
    /// A tagged union: the discriminant scalar is `disc_width` bits wide
    /// and is emitted with `disc_endian`, falling back to the container
    /// default byte order.
    Enum { disc_width: usize, disc_endian: Option<Endian>, variants: Vec<VariantDescriptor> },
}

/// Describes one serializable struct or tagged-union type.
pub struct TypeDescriptor {
    /// Struct or tagged union, with the respective layout.
    pub kind: TypeKind,
    /// Default byte order for every field without an override. When this is
    /// also absent, network byte order (big-endian) applies, so that the
    /// emitted layout never depends on the host.
    pub default_endian: Option<Endian>,
    /// How many context arguments every write call on this type must
    /// supply. A type with a non-empty context parameter list offers no
    /// context-free byte-conversion entry point.
    pub ctx_arity: usize,
}

/// The byte order a field resolves to: its own override, else the container
/// default, else network order (big-endian). Every emission resolves to a
/// concrete choice; no bit is written with its byte order left open.
pub open spec fn effective_endian(over: Option<Endian>, dflt: Option<Endian>) -> Endian {
    match over {
        Some(e) => e,
        None => match dflt {
            Some(e) => e,
            None => Endian::Big,
        },
    }
}

/// Resolves a field's byte order against the container default.
pub fn resolve_endian(over: &Option<Endian>, dflt: &Option<Endian>) -> (e: Endian)
    ensures
        e == effective_endian(*over, *dflt),
{
    match over {
        Some(e) => *e,
        None => match dflt {
            Some(e) => *e,
            None => Endian::Big,
        },
    }
}

/// The natural bit width of a scalar field's declared type; meaningful only
/// for scalar fields.
pub open spec fn natural_width(ty: FieldType) -> nat {
    match ty {
        FieldType::Scalar { width } => width as nat,
        _ => 0,
    }
}

/// The width a field's default codec emits per scalar: the declared bit
/// width when one is given, else the natural width of the type.
pub open spec fn emitted_width(f: FieldDescriptor) -> nat {
    match f.bits {
        Some(b) => b as nat,
        None => match f.ty {
            FieldType::Scalar { width } => width as nat,
            FieldType::List { elem_width } => elem_width as nat,
            FieldType::Nested(_) => 0,
        },
    }
}

/// A well-formed custom write expression: widths stay in machine range and
/// context references stay within the context parameter list. `own_ok` says
/// whether the expression may read an own scalar value (true for field
/// writers on scalar fields, false for variant writers).
pub open spec fn wf_writer(e: WriteExpr, ctx_arity: nat, own_ok: bool) -> bool {
    match e {
        WriteExpr::Bits(_) => true,
        WriteExpr::OwnScalar { width, .. } => own_ok && 1 <= width <= 64,
        WriteExpr::CtxScalar { idx, width, .. } => idx < ctx_arity && 1 <= width <= 64,
        WriteExpr::Fail => true,
    }
}

/// A well-formed derived-update expression for a container with the given
/// fields: every reference lands on an existing field of the right shape.
pub open spec fn wf_update(u: UpdateExpr, fields: Seq<FieldDescriptor>) -> bool {
    match u {
        UpdateExpr::LenOf(j) => j < fields.len() && fields[j as int].ty is List,
        UpdateExpr::Lit(_) => true,
        UpdateExpr::CopyField(j) => j < fields.len() && fields[j as int].ty is Scalar,
    }
}

/// A well-formed context-argument expression: every reference lands on a
/// scalar sibling field or a context argument that exists.
pub open spec fn wf_ctx_expr(c: CtxExpr, fields: Seq<FieldDescriptor>, ctx_arity: nat) -> bool {
    match c {
        CtxExpr::Lit(_) => true,
        CtxExpr::FieldScalar(j) => j < fields.len() && fields[j as int].ty is Scalar,
        CtxExpr::Ctx(k) => k < ctx_arity,
    }
}

/// Well-formedness of the field at position `i` of a container whose write
/// calls carry `ctx_arity` context arguments.
pub open spec fn wf_field_at(fields: Seq<FieldDescriptor>, ctx_arity: nat, i: int) -> bool
    decreases fields[i], 1int,
{
    let f = fields[i];
    &&& match f.ty {
        FieldType::Scalar { width } => 1 <= width <= 64,
        FieldType::List { elem_width } => 1 <= elem_width <= 64,
        FieldType::Nested(d) => wf_type(*d),
    }
    &&& match f.bits {
        Some(b) => match f.ty {
            FieldType::Scalar { width } => 1 <= b <= width,
            FieldType::List { elem_width } => 1 <= b <= elem_width,
            FieldType::Nested(_) => false,
        },
        None => true,
    }
    &&& match f.writer {
        Some(e) => wf_writer(e, ctx_arity, f.ty is Scalar),
        None => true,
    }
    &&& match f.update {
        Some(u) => f.ty is Scalar && wf_update(u, fields),
        None => true,
    }
    &&& match f.ty {
        FieldType::Nested(d) => {
            &&& f.ctx_args@.len() == d.ctx_arity
            &&& forall|k: int|
                0 <= k < f.ctx_args@.len() ==> wf_ctx_expr(#[trigger] f.ctx_args@[k], fields, ctx_arity)
        },
        _ => f.ctx_args@.len() == 0,
    }
}

/// Well-formedness of a whole field list.
pub open spec fn wf_fields(fields: Seq<FieldDescriptor>, ctx_arity: nat) -> bool
    decreases fields, 2int,
{
    forall|i: int| #![trigger fields[i]] 0 <= i < fields.len() ==> wf_field_at(fields, ctx_arity, i)
}

/// Well-formedness of the derived update, if any, carried by the field at
/// position `i`: the target is a scalar of machine width and every
/// reference lands on an existing field of the right shape.
pub open spec fn wf_update_at(fields: Seq<FieldDescriptor>, i: int) -> bool {
    match fields[i].update {
        Some(u) => fields[i].ty is Scalar && 1 <= natural_width(fields[i].ty) <= 64 && wf_update(
            u,
            fields,
        ),
        None => true,
    }
}

/// Well-formedness of every derived update of a container.
pub open spec fn wf_updates(fields: Seq<FieldDescriptor>) -> bool {
    forall|i: int| 0 <= i < fields.len() ==> #[trigger] wf_update_at(fields, i)
}

/// A well-formed field list has well-formed derived updates.
pub proof fn lemma_wf_fields_updates(fields: Seq<FieldDescriptor>, ctx_arity: nat)
    requires
        wf_fields(fields, ctx_arity),
    ensures
        wf_updates(fields),
{
    assert forall|i: int| 0 <= i < fields.len() implies #[trigger] wf_update_at(fields, i) by {
        let f = fields[i];
        assert(wf_field_at(fields, ctx_arity, i));
    }
}

/// How many variants of an enum omit a discriminant value.
pub open spec fn count_without_disc(variants: Seq<VariantDescriptor>) -> nat
    decreases variants.len(),
{
    if variants.len() == 0 {
        0
    } else {
        count_without_disc(variants.drop_last()) + (if variants.last().disc is None {
            1nat
        } else {
            0nat
        })
    }
}

/// A well-formed descriptor: every width lies in machine range, every
/// reference lands on an existing item of the right shape, every nested
/// descriptor is well formed in turn, and at most one variant of an enum
/// omits its discriminant (the catch-all case) — with more, the encoding
/// would be ambiguous.
pub open spec fn wf_type(d: TypeDescriptor) -> bool
    decreases d, 3int,
{
    match d.kind {
        TypeKind::Struct(fields) => wf_fields(fields@, d.ctx_arity as nat),
        TypeKind::Enum { disc_width, disc_endian: _, variants } => {
            &&& 1 <= disc_width <= 64
            &&& count_without_disc(variants@) <= 1
            &&& forall|i: int|
                0 <= i < variants@.len() ==> wf_variant(#[trigger] variants@[i], d.ctx_arity as nat)
        },
    }
}

/// Well-formedness of one variant of a tagged union.
pub open spec fn wf_variant(v: VariantDescriptor, ctx_arity: nat) -> bool
    decreases v, 4int,
{
    &&& wf_fields(v.fields@, ctx_arity)
    &&& match v.writer {
        Some(e) => wf_writer(e, ctx_arity, false),
        None => true,
    }
}

} // verus!
