//! The executable write engine: derived-field updating, field codec
//! resolution and container emission, each proved to match the model in
//! [`crate::model`] bit for bit.

use vstd::prelude::*;
use vstd::arithmetic::power2::{lemma2_to64, lemma2_to64_rest};
use crate::bits::{encode_uint, pow2_u64, BitSink, Endian};
use crate::descriptor::{
    emitted_width, lemma_wf_fields_updates, natural_width, resolve_endian, wf_ctx_expr,
    wf_field_at, wf_fields, wf_type, wf_update_at, wf_updates, wf_variant, CtxExpr,
    FieldDescriptor, FieldType, TypeDescriptor, TypeKind, UpdateExpr, WriteExpr,
};
use crate::error::Error;
use crate::model::{
    container_fields, container_vals, result_bits_match, same_shell, spec_emit_field,
    spec_emit_from, spec_emit_list, spec_eval_ctx_args, spec_eval_ctx_one, spec_eval_update,
    spec_eval_writer, spec_eff_value, spec_update_fields, spec_updates_ok, spec_write_bytes,
    spec_write_struct, spec_write_value,
};
use crate::value::{conforms, field_conforms, fields_conform, Value};

verus! {

/// A fresh copy of a bit vector.
fn copy_bits(b: &Vec<bool>) -> (r: Vec<bool>)
    ensures
        r@ == b@,
{
    let mut r: Vec<bool> = Vec::new();
    let mut i: usize = 0;
    while i < b.len()
        invariant
            i <= b@.len(),
            r@ == b@.take(i as int),
        decreases b@.len() - i,
    {
        r.push(b[i]);
        proof {
            assert(b@.take((i + 1) as int) =~= b@.take(i as int).push(b@[i as int]));
        }
        i = i + 1;
    }
    proof {
        assert(b@.take(b@.len() as int) =~= b@);
    }
    r
}

/// The natural bit width of a scalar field's type.
fn natural_width_of(ty: &FieldType) -> (w: usize)
    ensures
        w as nat == natural_width(*ty),
{
    match ty {
        FieldType::Scalar { width } => *width,
        _ => 0,
    }
}

/// The width the default codec emits per scalar of this field.
fn emitted_width_of(f: &FieldDescriptor) -> (w: usize)
    ensures
        w as nat == emitted_width(*f),
{
    match f.bits {
        Some(b) => b,
        None => match f.ty {
            FieldType::Scalar { width } => width,
            FieldType::List { elem_width } => elem_width,
            FieldType::Nested(_) => 0,
        },
    }
}

/// Evaluates one derived-update expression against the container's current
/// field values and converts the result into a scalar of `width` bits,
/// failing with a conversion error when it does not fit.
fn eval_update(u: &UpdateExpr, vals: &Vec<Value>, width: usize) -> (r: Result<u64, Error>)
    requires
        1 <= width <= 64,
        u matches UpdateExpr::LenOf(j) ==> j < vals@.len() && vals@[j as int] is List,
        u matches UpdateExpr::CopyField(j) ==> j < vals@.len() && vals@[j as int] is Uint,
    ensures
        match r {
            Ok(x) => spec_eval_update(*u, vals@, width as nat) == Ok::<u64, Error>(x),
            Err(e) => spec_eval_update(*u, vals@, width as nat) == Err::<u64, Error>(e),
        },
{
    let n: u64 = match u {
        UpdateExpr::LenOf(j) => match &vals[*j] {
            Value::List(l) => l.len() as u64,
            _ => {
                proof {
                    assert(false);
                }
                0
            },
        },
        UpdateExpr::Lit(k) => *k,
        UpdateExpr::CopyField(j) => match &vals[*j] {
            Value::Uint(x) => *x,
            _ => {
                proof {
                    assert(false);
                }
                0
            },
        },
    };
    if width >= 64 {
        proof {
            lemma2_to64();
            lemma2_to64_rest();
        }
        Ok(n)
    } else {
        let bound = pow2_u64(width);
        if n < bound {
            Ok(n)
        } else {
            Err(Error::Conversion)
        }
    }
}

/// The scalar field `j` carries at write time: its refreshed value when it
/// has a derived update, its stored value otherwise.
fn eff_scalar(fields: &Vec<FieldDescriptor>, vals: &Vec<Value>, j: usize) -> (x: u64)
    requires
        j < fields@.len(),
        fields@[j as int].ty is Scalar,
        wf_update_at(fields@, j as int),
        fields_conform(fields@, vals@),
        spec_updates_ok(fields@, vals@),
    ensures
        Value::Uint(x) == spec_eff_value(fields@, vals@, j as int),
{
    proof {
        assert(field_conforms(fields@[j as int], vals@[j as int]));
    }
    match &fields[j].update {
        Some(u) => {
            proof {
                match *u {
                    UpdateExpr::LenOf(j2) => {
                        assert(field_conforms(fields@[j2 as int], vals@[j2 as int]));
                    },
                    UpdateExpr::CopyField(j2) => {
                        assert(field_conforms(fields@[j2 as int], vals@[j2 as int]));
                    },
                    UpdateExpr::Lit(_) => {},
                }
            }
            let w = natural_width_of(&fields[j].ty);
            match eval_update(u, vals, w) {
                Ok(x) => x,
                Err(_) => {
                    proof {
                        assert(fields@[j as int].update is Some);
                        assert(false);
                    }
                    0
                },
            }
        },
        None => match &vals[j] {
            Value::Uint(x) => *x,
            _ => {
                proof {
                    assert(false);
                }
                0
            },
        },
    }
}

/// Evaluates the context-argument expressions a nested field forwards,
/// producing the positional argument list for the nested write call.
fn eval_ctx_args(
    args: &Vec<CtxExpr>,
    fields: &Vec<FieldDescriptor>,
    vals: &Vec<Value>,
    ctx: &Vec<u64>,
) -> (r: Vec<u64>)
    requires
        forall|k: int|
            0 <= k < args@.len() ==> wf_ctx_expr(#[trigger] args@[k], fields@, ctx@.len() as nat),
        wf_updates(fields@),
        fields_conform(fields@, vals@),
        spec_updates_ok(fields@, vals@),
    ensures
        r@ == spec_eval_ctx_args(args@, fields@, vals@, ctx@),
{
    let mut r: Vec<u64> = Vec::new();
    let mut k: usize = 0;
    while k < args.len()
        invariant
            k <= args@.len(),
            r@.len() == k,
            forall|m: int|
                0 <= m < k ==> r@[m] == spec_eval_ctx_one(#[trigger] args@[m], fields@, vals@, ctx@),
            forall|k2: int|
                0 <= k2 < args@.len() ==> wf_ctx_expr(#[trigger] args@[k2], fields@, ctx@.len() as nat),
            wf_updates(fields@),
            fields_conform(fields@, vals@),
            spec_updates_ok(fields@, vals@),
        decreases args@.len() - k,
    {
        proof {
            assert(wf_ctx_expr(args@[k as int], fields@, ctx@.len() as nat));
        }
        let x: u64 = match &args[k] {
            CtxExpr::Lit(c) => *c,
            CtxExpr::FieldScalar(j) => {
                proof {
                    assert(wf_update_at(fields@, *j as int));
                }
                eff_scalar(fields, vals, *j)
            },
            CtxExpr::Ctx(kk) => ctx[*kk],
        };
        r.push(x);
        k = k + 1;
    }
    proof {
        assert(r@ =~= spec_eval_ctx_args(args@, fields@, vals@, ctx@));
    }
    r
}

/// Evaluates a custom write expression. `own` is the scalar the field
/// carries at write time (meaningful only when the expression reads it, in
/// which case the ghost value `gv` is that scalar).
fn eval_writer(e: &WriteExpr, own: u64, ctx: &Vec<u64>, Ghost(gv): Ghost<Value>) -> (r: Result<
    Vec<bool>,
    Error,
>)
    requires
        e matches WriteExpr::OwnScalar { width, .. } ==> 1 <= *width <= 64 && gv is Uint && own
            == gv->Uint_0,
        e matches WriteExpr::CtxScalar { idx, width, .. } ==> *idx < ctx@.len() && 1 <= *width
            <= 64,
    ensures
        result_bits_match(r, spec_eval_writer(*e, gv, ctx@)),
{
    match e {
        WriteExpr::Bits(b) => Ok(copy_bits(b)),
        WriteExpr::OwnScalar { width, endian } => encode_uint(own, *width, *endian),
        WriteExpr::CtxScalar { idx, width, endian } => encode_uint(ctx[*idx], *width, *endian),
        WriteExpr::Fail => Err(Error::Codec),
    }
}

/// Emits every element of a collection in order, each at the same width and
/// byte order.
fn emit_list(elems: &Vec<u64>, w: usize, e: Endian) -> (r: Result<Vec<bool>, Error>)
    requires
        1 <= w <= 64,
    ensures
        result_bits_match(r, spec_emit_list(elems@, w as nat, e)),
{
    let mut acc: Vec<bool> = Vec::new();
    let mut i: usize = 0;
    proof {
        assert(elems@.skip(0) =~= elems@);
        if spec_emit_list(elems@, w as nat, e) is Ok {
            assert(Seq::<bool>::empty() + spec_emit_list(elems@, w as nat, e)->Ok_0
                =~= spec_emit_list(elems@, w as nat, e)->Ok_0);
        }
    }
    while i < elems.len()
        invariant
            i <= elems@.len(),
            1 <= w <= 64,
            match spec_emit_list(elems@.skip(i as int), w as nat, e) {
                Ok(rest) => spec_emit_list(elems@, w as nat, e) == Ok::<Seq<bool>, Error>(
                    acc@ + rest,
                ),
                Err(err) => spec_emit_list(elems@, w as nat, e) == Err::<Seq<bool>, Error>(err),
            },
        decreases elems@.len() - i,
    {
        let ghost pre = elems@.skip(i as int);
        proof {
            assert(pre[0] == elems@[i as int]);
            assert(pre.drop_first() =~= elems@.skip((i + 1) as int));
        }
        match encode_uint(elems[i], w, e) {
            Ok(mut b) => {
                proof {
                    let post = elems@.skip((i + 1) as int);
                    if spec_emit_list(post, w as nat, e) is Ok {
                        assert(acc@ + (b@ + spec_emit_list(post, w as nat, e)->Ok_0) =~= (acc@ + b@)
                            + spec_emit_list(post, w as nat, e)->Ok_0);
                    }
                }
                acc.append(&mut b);
            },
            Err(err) => {
                return Err(err);
            },
        }
        i = i + 1;
    }
    proof {
        assert(elems@.skip(elems@.len() as int) =~= Seq::<u64>::empty());
        assert(acc@ + Seq::<bool>::empty() =~= acc@);
    }
    Ok(acc)
}

/// Emits one container's fields: first every derived field must convert
/// (else the whole call fails with that conversion error and no bits), then
/// each field's bits are appended in declaration order. Any field failure
/// discards everything accumulated; no partial sequence is returned.
fn write_fields(
    fields: &Vec<FieldDescriptor>,
    vals: &Vec<Value>,
    de: Option<Endian>,
    ctx: &Vec<u64>,
) -> (r: Result<Vec<bool>, Error>)
    requires
        wf_fields(fields@, ctx@.len() as nat),
        fields_conform(fields@, vals@),
    ensures
        result_bits_match(r, spec_write_struct(fields@, vals@, de, ctx@)),
    decreases fields@, 1int,
{
    let n: usize = fields.len();
    // The update pass: every derived field must convert before any bit is
    // emitted.
    let mut i: usize = 0;
    while i < n
        invariant
            i <= n,
            n == fields@.len(),
            wf_fields(fields@, ctx@.len() as nat),
            fields_conform(fields@, vals@),
            forall|m: int|
                0 <= m < i && #[trigger] fields@[m].update is Some ==> spec_eval_update(
                    fields@[m].update->0,
                    vals@,
                    natural_width(fields@[m].ty),
                ) is Ok,
        decreases n - i,
    {
        proof {
            let f = fields@[i as int];
            assert(wf_field_at(fields@, ctx@.len() as nat, i as int));
        }
        match &fields[i].update {
            Some(u) => {
                proof {
                    match *u {
                        UpdateExpr::LenOf(j2) => {
                            assert(field_conforms(fields@[j2 as int], vals@[j2 as int]));
                        },
                        UpdateExpr::CopyField(j2) => {
                            assert(field_conforms(fields@[j2 as int], vals@[j2 as int]));
                        },
                        UpdateExpr::Lit(_) => {},
                    }
                }
                let w = natural_width_of(&fields[i].ty);
                match eval_update(u, vals, w) {
                    Ok(_) => {},
                    Err(err) => {
                        proof {
                            assert(!spec_updates_ok(fields@, vals@));
                        }
                        return Err(err);
                    },
                }
            },
            None => {},
        }
        i = i + 1;
    }
    proof {
        assert(spec_updates_ok(fields@, vals@));
    }
    // The write pass: each field in declaration order, appended to one sink.
    let mut acc: Vec<bool> = Vec::new();
    proof {
        if spec_emit_from(fields@, vals@, 0, de, ctx@) is Ok {
            assert(Seq::<bool>::empty() + spec_emit_from(fields@, vals@, 0, de, ctx@)->Ok_0
                =~= spec_emit_from(fields@, vals@, 0, de, ctx@)->Ok_0);
        }
    }
    let mut i: usize = 0;
    while i < n
        invariant
            i <= n,
            n == fields@.len(),
            n == vals@.len(),
            wf_fields(fields@, ctx@.len() as nat),
            fields_conform(fields@, vals@),
            spec_updates_ok(fields@, vals@),
            match spec_emit_from(fields@, vals@, i as int, de, ctx@) {
                Ok(rest) => spec_write_struct(fields@, vals@, de, ctx@) == Ok::<Seq<bool>, Error>(
                    acc@ + rest,
                ),
                Err(err) => spec_write_struct(fields@, vals@, de, ctx@) == Err::<Seq<bool>, Error>(
                    err,
                ),
            },
        decreases n - i,
    {
        proof {
            let f = fields@[i as int];
            assert(wf_field_at(fields@, ctx@.len() as nat, i as int));
            assert(field_conforms(fields@[i as int], vals@[i as int]));
            assert(wf_update_at(fields@, i as int));
        }
        let f = &fields[i];
        let ghost ev = spec_eff_value(fields@, vals@, i as int);
        let ghost gfield = spec_emit_field(fields@[i as int], ev, fields@, vals@, de, ctx@);
        let bres: Result<Vec<bool>, Error> = if f.skip {
            Ok(Vec::new())
        } else {
            match &f.writer {
                Some(e) => {
                    let own: u64 = match &f.ty {
                        FieldType::Scalar { .. } => eff_scalar(fields, vals, i),
                        _ => 0,
                    };
                    eval_writer(e, own, ctx, Ghost(ev))
                },
                None => match &f.ty {
                    FieldType::Scalar { .. } => {
                        let x = eff_scalar(fields, vals, i);
                        let w = emitted_width_of(f);
                        encode_uint(x, w, resolve_endian(&f.endian, &de))
                    },
                    FieldType::List { .. } => {
                        let w = emitted_width_of(f);
                        match &vals[i] {
                            Value::List(l) => emit_list(l, w, resolve_endian(&f.endian, &de)),
                            _ => {
                                proof {
                                    assert(false);
                                }
                                Err(Error::Codec)
                            },
                        }
                    },
                    FieldType::Nested(d2) => {
                        proof {
                            lemma_wf_fields_updates(fields@, ctx@.len() as nat);
                        }
                        let nctx = eval_ctx_args(&f.ctx_args, fields, vals, ctx);
                        write_val(&**d2, &vals[i], &nctx)
                    },
                },
            }
        };
        proof {
            assert(result_bits_match(bres, gfield));
        }
        match bres {
            Ok(mut b) => {
                proof {
                    let post = spec_emit_from(fields@, vals@, (i + 1) as int, de, ctx@);
                    if post is Ok {
                        assert((acc@ + b@) + post->Ok_0 =~= acc@ + (b@ + post->Ok_0));
                    }
                }
                acc.append(&mut b);
            },
            Err(err) => {
                return Err(err);
            },
        }
        i = i + 1;
    }
    proof {
        assert(acc@ + Seq::<bool>::empty() =~= acc@);
    }
    Ok(acc)
}

/// Writes one whole value against its descriptor: for a struct, the update
/// pass followed by the fields; for a tagged union, the active variant's
/// custom writer alone when it has one, else its discriminant bits (when
/// declared) followed by its fields.
fn write_val(d: &TypeDescriptor, v: &Value, ctx: &Vec<u64>) -> (r: Result<Vec<bool>, Error>)
    requires
        wf_type(*d),
        conforms(*d, *v),
        ctx@.len() == d.ctx_arity,
    ensures
        result_bits_match(r, spec_write_value(*d, *v, ctx@)),
    decreases *d, 0int,
{
    match &d.kind {
        TypeKind::Struct(fields) => match v {
            Value::Struct(vals) => write_fields(fields, vals, d.default_endian, ctx),
            _ => {
                proof {
                    assert(false);
                }
                Err(Error::Codec)
            },
        },
        TypeKind::Enum { disc_width, disc_endian, variants } => match v {
            Value::Variant(idx, vvals) => {
                let vt = &variants[*idx];
                proof {
                    assert(wf_variant(variants@[*idx as int], d.ctx_arity as nat));
                }
                match &vt.writer {
                    Some(e) => eval_writer(e, 0, ctx, Ghost(*v)),
                    None => {
                        let mut head: Vec<bool> = match &vt.disc {
                            Some(dv) => match encode_uint(
                                *dv,
                                *disc_width,
                                resolve_endian(disc_endian, &d.default_endian),
                            ) {
                                Ok(b) => b,
                                Err(err) => {
                                    return Err(err);
                                },
                            },
                            None => Vec::new(),
                        };
                        match write_fields(&vt.fields, vvals, d.default_endian, ctx) {
                            Ok(mut fb) => {
                                head.append(&mut fb);
                                Ok(head)
                            },
                            Err(err) => Err(err),
                        }
                    },
                }
            },
            _ => {
                proof {
                    assert(false);
                }
                Err(Error::Codec)
            },
        },
    }
}

/// Runs the derived-field update pass over one container's values in place:
/// every expression is evaluated against the values as they stand, and
/// nothing is committed unless every result converts — on failure the
/// values are left exactly as they were.
fn update_vals(fields: &Vec<FieldDescriptor>, vals: &mut Vec<Value>) -> (r: Result<(), Error>)
    requires
        wf_updates(fields@),
        fields_conform(fields@, old(vals)@),
    ensures
        match r {
            Ok(()) => spec_update_fields(fields@, old(vals)@) == Ok::<Seq<Value>, Error>(
                final(vals)@,
            ),
            Err(err) => spec_update_fields(fields@, old(vals)@) == Err::<Seq<Value>, Error>(err)
                && *final(vals) == *old(vals),
        },
{
    let ghost orig = vals@;
    let n: usize = fields.len();
    // Evaluate every derived expression against the untouched values.
    let mut patch: Vec<u64> = Vec::new();
    let mut i: usize = 0;
    while i < n
        invariant
            i <= n,
            n == fields@.len(),
            vals@ == orig,
            *vals == *old(vals),
            patch@.len() == i,
            wf_updates(fields@),
            fields_conform(fields@, orig),
            forall|m: int|
                0 <= m < i && #[trigger] fields@[m].update is Some ==> spec_eval_update(
                    fields@[m].update->0,
                    orig,
                    natural_width(fields@[m].ty),
                ) == Ok::<u64, Error>(patch@[m]),
        decreases n - i,
    {
        proof {
            assert(wf_update_at(fields@, i as int));
        }
        match &fields[i].update {
            Some(u) => {
                proof {
                    match *u {
                        UpdateExpr::LenOf(j2) => {
                            assert(field_conforms(fields@[j2 as int], vals@[j2 as int]));
                        },
                        UpdateExpr::CopyField(j2) => {
                            assert(field_conforms(fields@[j2 as int], vals@[j2 as int]));
                        },
                        UpdateExpr::Lit(_) => {},
                    }
                }
                let w = natural_width_of(&fields[i].ty);
                match eval_update(u, vals, w) {
                    Ok(x) => {
                        patch.push(x);
                    },
                    Err(err) => {
                        proof {
                            assert(!spec_updates_ok(fields@, orig));
                        }
                        return Err(err);
                    },
                }
            },
            None => {
                patch.push(0);
            },
        }
        i = i + 1;
    }
    proof {
        assert(spec_updates_ok(fields@, orig));
    }
    // Commit every refreshed scalar.
    let mut i: usize = 0;
    while i < n
        invariant
            i <= n,
            n == fields@.len(),
            n == patch@.len(),
            vals@.len() == orig.len(),
            orig.len() == fields@.len(),
            wf_updates(fields@),
            fields_conform(fields@, orig),
            spec_updates_ok(fields@, orig),
            forall|m: int|
                0 <= m < n && #[trigger] fields@[m].update is Some ==> spec_eval_update(
                    fields@[m].update->0,
                    orig,
                    natural_width(fields@[m].ty),
                ) == Ok::<u64, Error>(patch@[m]),
            forall|m: int| i <= m < n ==> vals@[m] == orig[m],
            forall|m: int| 0 <= m < i ==> vals@[m] == spec_eff_value(fields@, orig, m),
        decreases n - i,
    {
        match &fields[i].update {
            Some(_) => {
                vals[i] = Value::Uint(patch[i]);
            },
            None => {},
        }
        i = i + 1;
    }
    proof {
        assert(vals@ =~= Seq::new(fields@.len(), |m: int| spec_eff_value(fields@, orig, m)));
    }
    Ok(())
}

impl TypeDescriptor {
    /// Writes a value against this descriptor with the given context
    /// arguments, one per context parameter, and returns the emitted bit
    /// sequence. The derived-field update pass runs first: the emitted bits
    /// always carry the refreshed derived fields, whether or not the caller
    /// remembered to refresh them. The stored value itself is not changed;
    /// [`TypeDescriptor::update`] refreshes it in place.
    pub fn write(&self, v: &Value, ctx: &Vec<u64>) -> (r: Result<BitSink, Error>)
        requires
            wf_type(*self),
            conforms(*self, *v),
            ctx@.len() == self.ctx_arity,
        ensures
            match r {
                Ok(s) => spec_write_value(*self, *v, ctx@) == Ok::<Seq<bool>, Error>(s@),
                Err(err) => spec_write_value(*self, *v, ctx@) == Err::<Seq<bool>, Error>(err),
            },
    {
        match write_val(self, v, ctx) {
            Ok(bits) => {
                let mut s = BitSink::new();
                proof {
                    assert(Seq::<bool>::empty() + bits@ =~= bits@);
                }
                s.extend(bits);
                Ok(s)
            },
            Err(err) => Err(err),
        }
    }

    /// The context-free write entry point: available only for a type whose
    /// context parameter list is empty. A context-requiring type offers no
    /// such shortcut — its callers must supply the context on every write.
    pub fn write_to_bit_sequence(&self, v: &Value) -> (r: Result<BitSink, Error>)
        requires
            wf_type(*self),
            conforms(*self, *v),
            self.ctx_arity == 0,
        ensures
            match r {
                Ok(s) => spec_write_value(*self, *v, Seq::empty()) == Ok::<Seq<bool>, Error>(s@),
                Err(err) => spec_write_value(*self, *v, Seq::empty()) == Err::<Seq<bool>, Error>(
                    err,
                ),
            },
    {
        let ctx: Vec<u64> = Vec::new();
        proof {
            assert(ctx@ =~= Seq::<u64>::empty());
        }
        self.write(v, &ctx)
    }

    /// The context-free byte entry point: the emitted bits packed most
    /// significant bit first, the final byte padded with zero bits. Like the
    /// bit entry point, it exists only for context-free types.
    pub fn write_to_bytes(&self, v: &Value) -> (r: Result<Vec<u8>, Error>)
        requires
            wf_type(*self),
            conforms(*self, *v),
            self.ctx_arity == 0,
        ensures
            match r {
                Ok(b) => spec_write_bytes(*self, *v) == Ok::<Seq<u8>, Error>(b@),
                Err(err) => spec_write_bytes(*self, *v) == Err::<Seq<u8>, Error>(err),
            },
    {
        match self.write_to_bit_sequence(v) {
            Ok(s) => Ok(s.into_bytes()),
            Err(err) => Err(err),
        }
    }

    /// Runs the derived-field update pass in isolation, refreshing the
    /// value's derived fields in place without serializing: for a struct
    /// over its fields, for a tagged union over the active variant's
    /// fields. On failure the value is left exactly as it was.
    pub fn update(&self, v: &mut Value) -> (r: Result<(), Error>)
        requires
            wf_type(*self),
            conforms(*self, *old(v)),
        ensures
            match r {
                Ok(()) => {
                    &&& same_shell(*old(v), *final(v))
                    &&& spec_update_fields(
                        container_fields(*self, *old(v)),
                        container_vals(*old(v)),
                    ) == Ok::<Seq<Value>, Error>(container_vals(*final(v)))
                    &&& conforms(*self, *final(v))
                },
                Err(err) => *final(v) == *old(v) && spec_update_fields(
                    container_fields(*self, *old(v)),
                    container_vals(*old(v)),
                ) == Err::<Seq<Value>, Error>(err),
            },
    {
        match &self.kind {
            TypeKind::Struct(fields) => {
                proof {
                    lemma_wf_fields_updates(fields@, self.ctx_arity as nat);
                }
                match v {
                    Value::Struct(vals) => {
                        let ghost orig = vals@;
                        let r = update_vals(fields, vals);
                        proof {
                            if r is Ok {
                                lemma_updated_conform(fields@, orig, vals@);
                            }
                        }
                        r
                    },
                    _ => {
                        proof {
                            assert(false);
                        }
                        Err(Error::Codec)
                    },
                }
            },
            TypeKind::Enum { variants, .. } => match v {
                Value::Variant(idx, vals) => {
                    proof {
                        assert(wf_variant(variants@[*idx as int], self.ctx_arity as nat));
                        lemma_wf_fields_updates(
                            variants@[*idx as int].fields@,
                            self.ctx_arity as nat,
                        );
                    }
                    let i: usize = *idx;
                    let ghost orig = vals@;
                    let r = update_vals(&variants[i].fields, vals);
                    proof {
                        if r is Ok {
                            lemma_updated_conform(variants@[i as int].fields@, orig, vals@);
                        }
                    }
                    r
                },
                _ => {
                    proof {
                        assert(false);
                    }
                    Err(Error::Codec)
                },
            },
        }
    }
}

/// Converts a value of a context-free type into its bit sequence;
/// equivalent to the descriptor's own context-free bit entry point.
pub fn value_to_bit_sequence(d: &TypeDescriptor, v: &Value) -> (r: Result<BitSink, Error>)
    requires
        wf_type(*d),
        conforms(*d, *v),
        d.ctx_arity == 0,
    ensures
        match r {
            Ok(s) => spec_write_value(*d, *v, Seq::empty()) == Ok::<Seq<bool>, Error>(s@),
            Err(err) => spec_write_value(*d, *v, Seq::empty()) == Err::<Seq<bool>, Error>(err),
        },
{
    d.write_to_bit_sequence(v)
}

/// Converts a value of a context-free type into its packed bytes;
/// equivalent to the descriptor's own context-free byte entry point.
pub fn value_to_bytes(d: &TypeDescriptor, v: &Value) -> (r: Result<Vec<u8>, Error>)
    requires
        wf_type(*d),
        conforms(*d, *v),
        d.ctx_arity == 0,
    ensures
        match r {
            Ok(b) => spec_write_bytes(*d, *v) == Ok::<Seq<u8>, Error>(b@),
            Err(err) => spec_write_bytes(*d, *v) == Err::<Seq<u8>, Error>(err),
        },
{
    d.write_to_bytes(v)
}

/// An update pass preserves the shape a descriptor expects: refreshed
/// fields are scalars holding scalars, and every other field is untouched.
proof fn lemma_updated_conform(
    fields: Seq<FieldDescriptor>,
    orig: Seq<Value>,
    post: Seq<Value>,
)
    requires
        wf_updates(fields),
        fields_conform(fields, orig),
        spec_update_fields(fields, orig) == Ok::<Seq<Value>, Error>(post),
    ensures
        fields_conform(fields, post),
{
    assert(post == spec_update_fields(fields, orig)->Ok_0);
    assert forall|i: int| 0 <= i < fields.len() implies field_conforms(
        #[trigger] fields[i],
        post[i],
    ) by {
        assert(wf_update_at(fields, i));
        assert(field_conforms(fields[i], orig[i]));
        assert(post[i] == spec_eff_value(fields, orig, i));
    }
}

} // verus!
