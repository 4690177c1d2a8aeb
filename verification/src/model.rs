//! The mathematical model of the write engine: spec functions that say, bit
//! by bit, what every update and write call returns. The executable engine
//! in [`crate::writer`] is proved to match this model exactly.

use vstd::prelude::*;
use vstd::arithmetic::power2::pow2;
use crate::bits::{spec_encode_uint, Endian};
use crate::descriptor::{
    effective_endian, emitted_width, natural_width, CtxExpr, FieldDescriptor, FieldType,
    TypeDescriptor, TypeKind, UpdateExpr, WriteExpr,
};
use crate::error::Error;
use crate::value::Value;

verus! {

/// What a derived-update expression evaluates to against the container's
/// current field values, converted into a scalar of `width` bits: the
/// conversion fails — rather than silently wrapping — when the result does
/// not fit that width.
pub open spec fn spec_eval_update(u: UpdateExpr, vals: Seq<Value>, width: nat) -> Result<
    u64,
    Error,
> {
    let n: nat = match u {
        UpdateExpr::LenOf(j) => vals[j as int]->List_0@.len(),
        UpdateExpr::Lit(k) => k as nat,
        UpdateExpr::CopyField(j) => vals[j as int]->Uint_0 as nat,
    };
    if n < pow2(width) {
        Ok(n as u64)
    } else {
        Err(Error::Conversion)
    }
}

/// Whether every derived update of the container converts successfully.
/// When one does not, the whole write or update call fails with a
/// conversion error and no bits are emitted.
pub open spec fn spec_updates_ok(fields: Seq<FieldDescriptor>, vals: Seq<Value>) -> bool {
    forall|i: int|
        0 <= i < fields.len() && #[trigger] fields[i].update is Some ==> spec_eval_update(
            fields[i].update->0,
            vals,
            natural_width(fields[i].ty),
        ) is Ok
}

/// The value field `i` carries at write time: the refreshed scalar for a
/// field with a derived update, and the stored value for every other field.
pub open spec fn spec_eff_value(fields: Seq<FieldDescriptor>, vals: Seq<Value>, i: int) -> Value {
    match fields[i].update {
        Some(u) => Value::Uint(spec_eval_update(u, vals, natural_width(fields[i].ty))->Ok_0),
        None => vals[i],
    }
}

/// The field values after a container's derived-field update pass: every
/// field with an update expression is replaced by the expression's result,
/// every other field is untouched. All expressions see the values as they
/// stood before the pass; nothing is committed unless every one converts.
pub open spec fn spec_update_fields(fields: Seq<FieldDescriptor>, vals: Seq<Value>) -> Result<
    Seq<Value>,
    Error,
> {
    if spec_updates_ok(fields, vals) {
        Ok(Seq::new(fields.len(), |i: int| spec_eff_value(fields, vals, i)))
    } else {
        Err(Error::Conversion)
    }
}

/// The field descriptors an update or write pass on `v` runs over: the
/// struct's fields, or the active variant's fields.
pub open spec fn container_fields(d: TypeDescriptor, v: Value) -> Seq<FieldDescriptor> {
    match d.kind {
        TypeKind::Struct(fields) => fields@,
        TypeKind::Enum { variants, .. } => variants@[v->Variant_0 as int].fields@,
    }
}

/// The field values a container value carries: the struct's values, or the
/// active variant's values.
pub open spec fn container_vals(v: Value) -> Seq<Value> {
    match v {
        Value::Struct(vals) => vals@,
        Value::Variant(_, vals) => vals@,
        _ => Seq::empty(),
    }
}

/// Whether two container values are the same value up to their field
/// values: an update pass replaces field values and changes nothing else —
/// in particular, never the active variant.
pub open spec fn same_shell(pre: Value, post: Value) -> bool {
    match pre {
        Value::Struct(_) => post is Struct,
        Value::Variant(..) => post is Variant && post->Variant_0 == pre->Variant_0,
        _ => post == pre,
    }
}

/// One context-argument expression's value: a literal, a sibling scalar
/// field (as refreshed by its derived update, when it carries one), or one
/// of the container's own context arguments.
pub open spec fn spec_eval_ctx_one(
    c: CtxExpr,
    fields: Seq<FieldDescriptor>,
    vals: Seq<Value>,
    ctx: Seq<u64>,
) -> u64 {
    match c {
        CtxExpr::Lit(k) => k,
        CtxExpr::FieldScalar(j) => spec_eff_value(fields, vals, j as int)->Uint_0,
        CtxExpr::Ctx(k) => ctx[k as int],
    }
}

/// The full argument list handed to a nested field's own write call, in
/// positional order.
pub open spec fn spec_eval_ctx_args(
    args: Seq<CtxExpr>,
    fields: Seq<FieldDescriptor>,
    vals: Seq<Value>,
    ctx: Seq<u64>,
) -> Seq<u64> {
    Seq::new(args.len(), |k: int| spec_eval_ctx_one(args[k], fields, vals, ctx))
}

/// What a custom write expression returns: its bit sequence, or its error
/// propagated unchanged.
pub open spec fn spec_eval_writer(e: WriteExpr, v: Value, ctx: Seq<u64>) -> Result<
    Seq<bool>,
    Error,
> {
    match e {
        WriteExpr::Bits(b) => Ok(b@),
        WriteExpr::OwnScalar { width, endian } => spec_encode_uint(
            v->Uint_0,
            width as nat,
            endian,
        ),
        WriteExpr::CtxScalar { idx, width, endian } => spec_encode_uint(
            ctx[idx as int],
            width as nat,
            endian,
        ),
        WriteExpr::Fail => Err(Error::Codec),
    }
}

/// The bits of a collection: every element encoded in order, each at the
/// same width and byte order; an element too wide for the width fails the
/// whole write.
pub open spec fn spec_emit_list(elems: Seq<u64>, w: nat, e: Endian) -> Result<Seq<bool>, Error>
    decreases elems.len(),
{
    if elems.len() == 0 {
        Ok(Seq::empty())
    } else {
        match spec_encode_uint(elems[0], w, e) {
            Ok(b) => match spec_emit_list(elems.drop_first(), w, e) {
                Ok(rest) => Ok(b + rest),
                Err(err) => Err(err),
            },
            Err(err) => Err(err),
        }
    }
}

/// What a write call on a whole value returns: for a struct, the update
/// pass followed by its fields' bits in declaration order; for a tagged
/// union, the active variant's contribution — its custom writer's output
/// alone when it has one, else the discriminant bits (when the variant
/// declares a discriminant) followed by the variant's fields.
pub open spec fn spec_write_value(d: TypeDescriptor, v: Value, ctx: Seq<u64>) -> Result<
    Seq<bool>,
    Error,
>
    decreases d, 0int,
{
    match d.kind {
        TypeKind::Struct(fields) => spec_write_struct(fields@, v->Struct_0@, d.default_endian, ctx),
        TypeKind::Enum { disc_width, disc_endian, variants } => if (v->Variant_0 as int)
            >= variants@.len() {
            // A value whose active variant the descriptor does not know is
            // malformed; a shape mismatch is a codec failure.
            Err(Error::Codec)
        } else {
            let vt = variants@[v->Variant_0 as int];
            match vt.writer {
                Some(e) => spec_eval_writer(e, v, ctx),
                None => {
                    let head = match vt.disc {
                        Some(dv) => spec_encode_uint(
                            dv,
                            disc_width as nat,
                            effective_endian(disc_endian, d.default_endian),
                        ),
                        None => Ok(Seq::empty()),
                    };
                    match head {
                        Ok(hb) => match spec_write_struct(
                            vt.fields@,
                            v->Variant_1@,
                            d.default_endian,
                            ctx,
                        ) {
                            Ok(fb) => Ok(hb + fb),
                            Err(err) => Err(err),
                        },
                        Err(err) => Err(err),
                    }
                },
            }
        },
    }
}

/// A container's write pass: first every derived field must convert, then
/// the fields are emitted in declaration order into one bit sequence.
pub open spec fn spec_write_struct(
    fields: Seq<FieldDescriptor>,
    vals: Seq<Value>,
    de: Option<Endian>,
    ctx: Seq<u64>,
) -> Result<Seq<bool>, Error>
    decreases fields, fields.len() + 1,
{
    if !spec_updates_ok(fields, vals) {
        Err(Error::Conversion)
    } else {
        spec_emit_from(fields, vals, 0, de, ctx)
    }
}

/// The concatenated bits of the fields from position `i` on, each field
/// carrying its write-time value. A field failure discards everything: no
/// partial sequence is ever returned.
pub open spec fn spec_emit_from(
    fields: Seq<FieldDescriptor>,
    vals: Seq<Value>,
    i: int,
    de: Option<Endian>,
    ctx: Seq<u64>,
) -> Result<Seq<bool>, Error>
    decreases fields, fields.len() - i,
{
    if i < 0 || i >= fields.len() {
        Ok(Seq::empty())
    } else {
        match spec_emit_field(fields[i], spec_eff_value(fields, vals, i), fields, vals, de, ctx) {
            Ok(b) => match spec_emit_from(fields, vals, i + 1, de, ctx) {
                Ok(rest) => Ok(b + rest),
                Err(err) => Err(err),
            },
            Err(err) => Err(err),
        }
    }
}

/// One field's bits: nothing for a skipped field; a custom writer's output
/// unchanged when one is present; otherwise the default codec — the scalar
/// or the collection's elements at the field's resolved width and byte
/// order, or a nested value's own write call with the context arguments the
/// field forwards. The default codec always receives the same fixed-shape
/// parameter set — resolved byte order, width, context — so a one-parameter
/// call is not a special case.
pub open spec fn spec_emit_field(
    f: FieldDescriptor,
    v: Value,
    cfields: Seq<FieldDescriptor>,
    cvals: Seq<Value>,
    de: Option<Endian>,
    ctx: Seq<u64>,
) -> Result<Seq<bool>, Error>
    decreases f, 0int,
{
    if f.skip {
        Ok(Seq::empty())
    } else {
        match f.writer {
            Some(e) => spec_eval_writer(e, v, ctx),
            None => match f.ty {
                FieldType::Scalar { .. } => spec_encode_uint(
                    v->Uint_0,
                    emitted_width(f),
                    effective_endian(f.endian, de),
                ),
                FieldType::List { .. } => spec_emit_list(
                    v->List_0@,
                    emitted_width(f),
                    effective_endian(f.endian, de),
                ),
                FieldType::Nested(d) => spec_write_value(
                    *d,
                    v,
                    spec_eval_ctx_args(f.ctx_args@, cfields, cvals, ctx),
                ),
            },
        }
    }
}

/// Whether an executable result carries exactly what the model says: the
/// same bits on success, the same error on failure.
pub open spec fn result_bits_match(r: Result<Vec<bool>, Error>, s: Result<Seq<bool>, Error>) -> bool {
    match r {
        Ok(b) => s == Ok::<Seq<bool>, Error>(b@),
        Err(e) => s == Err::<Seq<bool>, Error>(e),
    }
}

/// The packed bytes a context-free write call returns.
pub open spec fn spec_write_bytes(d: TypeDescriptor, v: Value) -> Result<Seq<u8>, Error> {
    match spec_write_value(d, v, Seq::empty()) {
        Ok(b) => Ok(crate::bits::bytes_of_bits(b)),
        Err(err) => Err(err),
    }
}

} // verus!
