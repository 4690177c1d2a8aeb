//! Laws of the write engine, stated over the model and proved once for all
//! descriptors and values.

use vstd::prelude::*;
use vstd::arithmetic::power2::pow2;
use crate::bits::{lemma_uint_bits_len, spec_encode_uint, Endian};
use crate::descriptor::{
    effective_endian, emitted_width, natural_width, FieldDescriptor, TypeDescriptor, TypeKind,
    UpdateExpr,
};
use crate::error::Error;
use crate::model::{
    spec_emit_field, spec_emit_from, spec_eff_value, spec_eval_update, spec_eval_writer,
    spec_update_fields, spec_updates_ok, spec_write_bytes, spec_write_struct, spec_write_value,
};
use crate::value::Value;

verus! {

/// Writing is deterministic: the bytes a context-free write emits are a
/// function of the descriptor and the value alone, so two write calls on an
/// unmodified value return identical results — the write half of the
/// round-trip guarantee a matching read direction builds on.
pub proof fn lemma_write_deterministic(
    d: TypeDescriptor,
    v: Value,
    r1: Result<Seq<u8>, Error>,
    r2: Result<Seq<u8>, Error>,
)
    requires
        r1 == spec_write_bytes(d, v),
        r2 == spec_write_bytes(d, v),
    ensures
        r1 == r2,
{
}

/// After an update pass, a derived count field bound to a collection's
/// length carries exactly that length; and when the length exceeds what the
/// counter's type can represent, the pass fails with a conversion error
/// instead of silently wrapping.
pub proof fn lemma_update_count(
    fields: Seq<FieldDescriptor>,
    vals: Seq<Value>,
    i: int,
    j: usize,
)
    requires
        0 <= i < fields.len(),
        (j as int) < fields.len(),
        vals.len() == fields.len(),
        fields[i].update == Some(UpdateExpr::LenOf(j)),
        vals[j as int] is List,
    ensures
        spec_update_fields(fields, vals) matches Ok(nv) ==> nv[i] == Value::Uint(
            vals[j as int]->List_0@.len() as u64,
        ),
        vals[j as int]->List_0@.len() >= pow2(natural_width(fields[i].ty))
            ==> spec_update_fields(fields, vals) == Err::<Seq<Value>, Error>(Error::Conversion),
{
    if vals[j as int]->List_0@.len() >= pow2(natural_width(fields[i].ty)) {
        assert(spec_eval_update(fields[i].update->0, vals, natural_width(fields[i].ty)) is Err);
        assert(!spec_updates_ok(fields, vals));
    }
    if spec_update_fields(fields, vals) is Ok {
        assert(spec_update_fields(fields, vals)->Ok_0[i] == spec_eff_value(fields, vals, i));
    }
}

/// A struct-kind write is exactly its container pass: the update check
/// followed by the fields' bits in declaration order, nothing before,
/// between or after them.
pub proof fn lemma_struct_write_is_container_pass(d: TypeDescriptor, v: Value, ctx: Seq<u64>)
    requires
        d.kind is Struct,
    ensures
        spec_write_value(d, v, ctx) == spec_write_struct(
            d.kind->Struct_0@,
            v->Struct_0@,
            d.default_endian,
            ctx,
        ),
{
}

/// Every field from position `k` on still succeeds when the whole container
/// write succeeds (helper for the declaration-order law).
proof fn lemma_emit_from_ok(
    fields: Seq<FieldDescriptor>,
    vals: Seq<Value>,
    de: Option<Endian>,
    ctx: Seq<u64>,
    k: int,
)
    requires
        0 <= k <= fields.len(),
        spec_emit_from(fields, vals, 0, de, ctx) is Ok,
    ensures
        spec_emit_from(fields, vals, k, de, ctx) is Ok,
    decreases k,
{
    if k > 0 {
        lemma_emit_from_ok(fields, vals, de, ctx, k - 1);
    }
}

/// Declaration order fixes the wire layout: in a successful container
/// write, field `k` contributes exactly one segment, standing between the
/// bits of the fields declared before it and the bits of those declared
/// after it — no field contributes to any position outside its slot.
pub proof fn lemma_declaration_order(
    fields: Seq<FieldDescriptor>,
    vals: Seq<Value>,
    de: Option<Endian>,
    ctx: Seq<u64>,
    k: int,
)
    requires
        0 <= k < fields.len(),
        spec_write_struct(fields, vals, de, ctx) is Ok,
    ensures
        spec_write_struct(fields, vals, de, ctx) == spec_emit_from(fields, vals, 0, de, ctx),
        spec_emit_from(fields, vals, k, de, ctx) is Ok,
        spec_emit_from(fields, vals, k + 1, de, ctx) is Ok,
        spec_emit_field(fields[k], spec_eff_value(fields, vals, k), fields, vals, de, ctx) is Ok,
        spec_emit_from(fields, vals, k, de, ctx)->Ok_0 == spec_emit_field(
            fields[k],
            spec_eff_value(fields, vals, k),
            fields,
            vals,
            de,
            ctx,
        )->Ok_0 + spec_emit_from(fields, vals, k + 1, de, ctx)->Ok_0,
{
    lemma_emit_from_ok(fields, vals, de, ctx, k);
}

/// Bit-width narrowing: a scalar field declared `k` bits wide contributes
/// exactly `k` bits to the stream, and a value that needs more than `k`
/// bits fails with a codec error rather than spilling into the next slot or
/// being silently truncated.
pub proof fn lemma_bit_width_narrowing(
    f: FieldDescriptor,
    v: Value,
    cfields: Seq<FieldDescriptor>,
    cvals: Seq<Value>,
    de: Option<Endian>,
    ctx: Seq<u64>,
)
    requires
        !f.skip,
        f.writer is None,
        f.ty is Scalar,
        v is Uint,
    ensures
        (v->Uint_0 as nat) < pow2(emitted_width(f)) ==> (spec_emit_field(
            f,
            v,
            cfields,
            cvals,
            de,
            ctx,
        ) matches Ok(b) && b.len() == emitted_width(f)),
        (v->Uint_0 as nat) >= pow2(emitted_width(f)) ==> spec_emit_field(
            f,
            v,
            cfields,
            cvals,
            de,
            ctx,
        ) == Err::<Seq<bool>, Error>(Error::Codec),
{
    lemma_uint_bits_len(v->Uint_0 as nat, emitted_width(f), effective_endian(f.endian, de));
}

/// Packing pads only at the final output: the byte count of a packed bit
/// sequence is its bit count rounded up to the next whole byte.
pub proof fn lemma_bytes_of_bits_len(bits: Seq<bool>)
    ensures
        crate::bits::bytes_of_bits(bits).len() == (bits.len() + 7) / 8,
    decreases bits.len(),
{
    if bits.len() >= 8 {
        lemma_bytes_of_bits_len(bits.skip(8));
    }
}

/// A collection contributes exactly one fixed-width slot per element it
/// holds when it writes successfully.
pub proof fn lemma_list_width(elems: Seq<u64>, w: nat, e: Endian)
    ensures
        crate::model::spec_emit_list(elems, w, e) matches Ok(b) ==> b.len() == elems.len() * w,
    decreases elems.len(),
{
    if elems.len() > 0 {
        lemma_uint_bits_len(elems[0] as nat, w, e);
        lemma_list_width(elems.drop_first(), w, e);
        assert(w + (elems.len() - 1) * w == elems.len() * w) by (nonlinear_arith)
            requires
                elems.len() >= 1,
        ;
    }
}

/// Tagged-union layout: a variant with a declared discriminant emits the
/// discriminant bits ahead of its own fields' bits; a variant with a custom
/// writer contributes that writer's output alone, with no discriminant; and
/// the catch-all variant (no discriminant, no writer) contributes only its
/// fields.
pub proof fn lemma_variant_layout(d: TypeDescriptor, v: Value, ctx: Seq<u64>)
    requires
        v is Variant,
        d.kind matches TypeKind::Enum { variants, .. } && (v->Variant_0 as int) < variants@.len(),
    ensures
        d.kind matches TypeKind::Enum { disc_width, disc_endian, variants } ==> {
            let vt = variants@[v->Variant_0 as int];
            let body = spec_write_struct(vt.fields@, v->Variant_1@, d.default_endian, ctx);
            &&& (vt.writer matches Some(e) ==> spec_write_value(d, v, ctx) == spec_eval_writer(
                e,
                v,
                ctx,
            ))
            &&& (vt.writer is None && vt.disc is None ==> spec_write_value(d, v, ctx) == body)
            &&& (vt.disc is Some && vt.writer is None ==> {
                let head = spec_encode_uint(
                    vt.disc->0,
                    disc_width as nat,
                    effective_endian(disc_endian, d.default_endian),
                );
                &&& (spec_write_value(d, v, ctx) is Ok ==> head is Ok && body is Ok
                    && spec_write_value(d, v, ctx)->Ok_0 == head->Ok_0 + body->Ok_0)
                &&& (head is Err ==> spec_write_value(d, v, ctx) == head)
                &&& (head is Ok && body is Err ==> spec_write_value(d, v, ctx) == body)
            })
        },
{
}

} // verus!
