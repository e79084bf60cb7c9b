//! Elementwise comparison, structural equality and the derived numeric
//! utilities: argmax, mean, negative-log-likelihood loss, accuracy and
//! one-hot encoding.

use vstd::prelude::*;
use vstd::pervasive::unreached;
use vstd::arithmetic::div_mod::{lemma_fundamental_div_mod_converse, lemma_div_multiples_vanish};
use crate::kind::{Kind, BinOp, Scalar, elem_ok, elem_eq, elem_eq_exec, elem_lt, elem_lt_exec,
    elem_bin, elem_bin_exec, elem_neg, elem_neg_exec, scalar_elem, scalar_elem_exec,
    is_float_kind, is_int_kind, supported_kind, sext, sext_exec, one_bits, one_bits_exec};
use crate::engine::{Engine, Tensor, TchError, BufV, Device, buf_wf, eng_wf, numel_of, shape_ok,
    clone_i64s, lemma_numel_nonneg};
use crate::ops::{pushed_result, is_kind_mismatch, is_device_mismatch, is_shape_mismatch,
    eq_shapes};
use crate::transform::cast_buf;

verus! {

/// The `Uint8` mask of an elementwise equality comparison: one where the
/// elements compare equal under the kind's equality, else zero.
pub open spec fn eq_data(k: Kind, xs: Seq<u64>, ys: Seq<u64>) -> Seq<u64> {
    Seq::new(xs.len(), |i: int| if elem_eq(k, xs[i], ys[i]) { 1u64 } else { 0u64 })
}

/// The buffer an elementwise equality comparison materializes.
pub open spec fn eq_buf(a: BufV, b: BufV) -> BufV {
    BufV { shape: a.shape, kind: Kind::Uint8, device: a.device, data: eq_data(a.kind, a.data, b.data) }
}

/// Structural equality of two arrays: the same shape, kind and device, and
/// every element pair equal under the kind's equality (IEEE equality for
/// the float kinds, so an array holding a NaN does not equal itself).
pub open spec fn tensors_equal(a: BufV, b: BufV) -> bool {
    &&& a.shape == b.shape
    &&& a.kind == b.kind
    &&& a.device == b.device
    &&& forall|i: int| 0 <= i < a.data.len() ==> elem_eq(a.kind, #[trigger] a.data[i], b.data[i])
}

/// One group's argmax after scanning its first `t` elements: the index of
/// the first element no later element strictly exceeds.
pub open spec fn argmax_scan(k: Kind, data: Seq<u64>, base: int, t: int) -> int
    decreases t,
{
    if t <= 1 {
        0
    } else {
        let prev = argmax_scan(k, data, base, t - 1);
        if elem_lt(k, data[base + prev], data[base + (t - 1)]) { t - 1 } else { prev }
    }
}

/// The data of an argmax over the last axis: one `Int64` index per group of
/// `c` consecutive elements.
pub open spec fn argmax_data(k: Kind, data: Seq<u64>, groups: int, c: int) -> Seq<u64> {
    Seq::new(groups as nat, |g: int| argmax_scan(k, data, g * c, c) as u64)
}

/// The left fold of the kind's addition over the first `t` elements,
/// starting from the all-zero bit pattern.
pub open spec fn fold_add(k: Kind, data: Seq<u64>, t: int) -> u64
    decreases t,
{
    if t <= 0 {
        0u64
    } else {
        elem_bin(BinOp::Add, k, fold_add(k, data, t - 1), data[t - 1])
    }
}

/// The mean of all elements: their fold divided by their count, promoted to
/// the array's kind.
pub open spec fn mean_elem(k: Kind, data: Seq<u64>) -> u64 {
    elem_bin(BinOp::Div, k, fold_add(k, data, data.len() as int),
        scalar_elem(k, Scalar::Int(data.len() as i64)))
}

/// The fold of the gathered log-probabilities `data[i * c + target_i]` over
/// the first `t` rows, skipping rows whose target is the ignore index -100.
pub open spec fn nll_sum(k: Kind, data: Seq<u64>, c: int, tgts: Seq<u64>, t: int) -> u64
    decreases t,
{
    if t <= 0 {
        0u64
    } else {
        let prev = nll_sum(k, data, c, tgts, t - 1);
        let tv = sext(Kind::Int64, tgts[t - 1]);
        if tv == -100 {
            prev
        } else {
            elem_bin(BinOp::Add, k, prev, data[(t - 1) * c + tv])
        }
    }
}

/// How many of the first `t` targets are not the ignore index.
pub open spec fn nll_count(tgts: Seq<u64>, t: int) -> int
    decreases t,
{
    if t <= 0 {
        0
    } else {
        nll_count(tgts, t - 1) + if sext(Kind::Int64, tgts[t - 1]) == -100 { 0int } else { 1int }
    }
}

/// The scalar the negative-log-likelihood loss materializes: the negated
/// mean of the gathered log-probabilities over the non-ignored rows.
pub open spec fn nll_elem(k: Kind, data: Seq<u64>, c: int, tgts: Seq<u64>) -> u64 {
    elem_neg(k, elem_bin(BinOp::Div, k, nll_sum(k, data, c, tgts, tgts.len() as int),
        scalar_elem(k, Scalar::Int(nll_count(tgts, tgts.len() as int) as i64))))
}

/// The data of a one-hot encoding: each source element of value `v` becomes
/// a group of `labels` elements holding the kind's one at offset `v`.
pub open spec fn onehot_data(k: Kind, data: Seq<u64>, labels: int) -> Seq<u64> {
    Seq::new((data.len() * labels) as nat,
        |x: int| if x % labels == sext(k, data[x / labels]) { one_bits(Kind::Float) } else { 0u64 })
}

/// The product of the dimensions splits at the last axis.
pub proof fn lemma_numel_drop_last(shape: Seq<i64>)
    requires
        shape.len() >= 1,
    ensures
        numel_of(shape) == numel_of(shape.drop_last()) * shape[shape.len() - 1],
    decreases shape.len(),
{
    if shape.len() == 1 {
        assert(shape.drop_last() =~= Seq::<i64>::empty());
        assert(shape.drop_first() =~= Seq::<i64>::empty());
        assert(numel_of(Seq::<i64>::empty()) == 1);
        assert(numel_of(shape) == shape[0] * numel_of(shape.drop_first()));
        assert(numel_of(shape) == shape[0]);
        assert(numel_of(shape.drop_last()) * shape[shape.len() - 1] == 1 * shape[0]);
    } else {
        let df = shape.drop_first();
        lemma_numel_drop_last(df);
        assert(df.drop_last() =~= shape.drop_last().drop_first());
        let last = shape[shape.len() - 1];
        assert(df[df.len() - 1] == last);
        assert(numel_of(df) == numel_of(df.drop_last()) * last);
        assert(numel_of(shape) == shape[0] * numel_of(df));
        assert(numel_of(shape) == shape[0] * (numel_of(df.drop_last()) * last));
        assert(numel_of(shape.drop_last()) == shape[0] * numel_of(df.drop_last()));
        assert(shape[0] * (numel_of(df.drop_last()) * last)
            == (shape[0] * numel_of(df.drop_last())) * last) by (nonlinear_arith);
        assert(numel_of(shape.drop_last()) == shape[0] * numel_of(df.drop_last()));
        assert(numel_of(shape) == numel_of(shape.drop_last()) * last);
    }
}

impl Tensor {
    /// Elementwise equality of two arrays as a `Uint8` mask (fallible
    /// form): fails on a kind, device or shape mismatch.
    pub fn try_eq_elems(&self, eng: &mut Engine, rhs: &Tensor) -> (r: Result<Tensor, TchError>)
        requires
            self.ok_in(old(eng)@),
            rhs.ok_in(old(eng)@),
            eng_wf(old(eng)@),
        ensures
            eng_wf(final(eng)@),
            ({
                let a = self.buf_in(old(eng)@);
                let b = rhs.buf_in(old(eng)@);
                if a.kind != b.kind {
                    final(eng)@ == old(eng)@ && (r matches Err(e)
                        && is_kind_mismatch(e, a.kind, b.kind))
                } else if a.device != b.device {
                    final(eng)@ == old(eng)@ && (r matches Err(e)
                        && is_device_mismatch(e, a.device, b.device))
                } else if a.shape != b.shape {
                    final(eng)@ == old(eng)@ && (r matches Err(e)
                        && is_shape_mismatch(e, a.shape, b.shape))
                } else {
                    r matches Ok(t) && pushed_result(old(eng)@, final(eng)@, eq_buf(a, b), t)
                }
            }),
    {
        proof {
            assert(buf_wf(self.buf_in(eng@)));
            assert(buf_wf(rhs.buf_in(eng@)));
        }
        let ka = eng.buf_kind(self);
        let kb = eng.buf_kind(rhs);
        if ka != kb {
            return Err(TchError::KindMismatch { left: ka, right: kb });
        }
        let da = eng.buf_device(self);
        let db = eng.buf_device(rhs);
        if da != db {
            return Err(TchError::DeviceMismatch { left: da, right: db });
        }
        if !eq_shapes(eng.buf_shape(self), eng.buf_shape(rhs)) {
            let left = clone_i64s(eng.buf_shape(self));
            let right = clone_i64s(eng.buf_shape(rhs));
            return Err(TchError::ShapeMismatch { left, right });
        }
        let xs = eng.buf_data(self);
        let ys = eng.buf_data(rhs);
        let mut out: Vec<u64> = Vec::new();
        let mut i: usize = 0;
        while i < xs.len()
            invariant
                eng@ == old(eng)@,
                eng_wf(eng@),
                self.ok_in(eng@),
                rhs.ok_in(eng@),
                ka == self.buf_in(eng@).kind,
                xs@ == self.buf_in(eng@).data,
                ys@ == rhs.buf_in(eng@).data,
                xs@.len() == ys@.len(),
                supported_kind(ka),
                forall|j: int| 0 <= j < xs@.len() ==> elem_ok(ka, #[trigger] xs@[j]),
                forall|j: int| 0 <= j < ys@.len() ==> elem_ok(ka, #[trigger] ys@[j]),
                i <= xs@.len(),
                out@.len() == i,
                forall|j: int| 0 <= j < i ==> #[trigger] out@[j]
                    == if elem_eq(ka, xs@[j], ys@[j]) { 1u64 } else { 0u64 },
            decreases xs@.len() - i,
        {
            let e = elem_eq_exec(ka, xs[i], ys[i]);
            out.push(if e { 1u64 } else { 0u64 });
            i += 1;
        }
        proof {
            assert(out@ =~= eq_data(ka, xs@, ys@));
        }
        let shape = clone_i64s(eng.buf_shape(self));
        let t = eng.push_buf(shape, Kind::Uint8, da, out);
        Ok(t)
    }

    /// Whether every element of the array is nonzero (the all-reduce the
    /// engine offers over a comparison mask).
    pub fn all_true(&self, eng: &Engine) -> (r: bool)
        requires
            self.ok_in(eng@),
            eng_wf(eng@),
        ensures
            r == forall|i: int| 0 <= i < self.buf_in(eng@).data.len()
                ==> self.buf_in(eng@).data[i] != 0,
    {
        let xs = eng.buf_data(self);
        let mut i: usize = 0;
        while i < xs.len()
            invariant
                xs@ == self.buf_in(eng@).data,
                i <= xs@.len(),
                forall|j: int| 0 <= j < i ==> #[trigger] xs@[j] != 0,
            decreases xs@.len() - i,
        {
            if xs[i] == 0 {
                return false;
            }
            i += 1;
        }
        true
    }

    /// Structural equality: total and panic-free. True exactly when the
    /// shapes, kinds and devices agree and every element pair compares
    /// equal; every comparison failure (mismatched kind, device or shape)
    /// is "not equal", never an error.
    pub fn eq_tensor(&self, eng: &Engine, rhs: &Tensor) -> (r: bool)
        requires
            self.ok_in(eng@),
            rhs.ok_in(eng@),
            eng_wf(eng@),
        ensures
            r == tensors_equal(self.buf_in(eng@), rhs.buf_in(eng@)),
    {
        proof {
            assert(buf_wf(self.buf_in(eng@)));
            assert(buf_wf(rhs.buf_in(eng@)));
        }
        let ka = eng.buf_kind(self);
        if ka != eng.buf_kind(rhs) {
            return false;
        }
        if eng.buf_device(self) != eng.buf_device(rhs) {
            return false;
        }
        if !eq_shapes(eng.buf_shape(self), eng.buf_shape(rhs)) {
            return false;
        }
        let xs = eng.buf_data(self);
        let ys = eng.buf_data(rhs);
        let mut i: usize = 0;
        while i < xs.len()
            invariant
                eng_wf(eng@),
                self.ok_in(eng@),
                rhs.ok_in(eng@),
                ka == self.buf_in(eng@).kind,
                ka == rhs.buf_in(eng@).kind,
                supported_kind(ka),
                xs@ == self.buf_in(eng@).data,
                ys@ == rhs.buf_in(eng@).data,
                xs@.len() == ys@.len(),
                self.buf_in(eng@).shape == rhs.buf_in(eng@).shape,
                self.buf_in(eng@).device == rhs.buf_in(eng@).device,
                forall|j: int| 0 <= j < xs@.len() ==> elem_ok(ka, #[trigger] xs@[j]),
                forall|j: int| 0 <= j < ys@.len() ==> elem_ok(ka, #[trigger] ys@[j]),
                i <= xs@.len(),
                forall|j: int| 0 <= j < i ==> elem_eq(ka, #[trigger] xs@[j], ys@[j]),
            decreases xs@.len() - i,
        {
            if !elem_eq_exec(ka, xs[i], ys[i]) {
                return false;
            }
            i += 1;
        }
        true
    }

    /// The index of the first maximum along the last axis, one `Int64`
    /// index per group of trailing-axis elements.
    pub fn argmax(&self, eng: &mut Engine) -> (t: Tensor)
        requires
            self.ok_in(old(eng)@),
            eng_wf(old(eng)@),
            self.buf_in(old(eng)@).shape.len() >= 1,
            self.buf_in(old(eng)@).shape[self.buf_in(old(eng)@).shape.len() - 1] >= 1,
            self.buf_in(old(eng)@).shape[self.buf_in(old(eng)@).shape.len() - 1] <= usize::MAX,
        ensures
            eng_wf(final(eng)@),
            ({
                let a = self.buf_in(old(eng)@);
                let c = a.shape[a.shape.len() - 1];
                pushed_result(old(eng)@, final(eng)@, BufV {
                    shape: a.shape.drop_last(),
                    kind: Kind::Int64,
                    device: a.device,
                    data: argmax_data(a.kind, a.data, numel_of(a.shape.drop_last()), c as int),
                }, t)
            }),
    {
        proof {
            assert(buf_wf(self.buf_in(eng@)));
            lemma_numel_drop_last(self.buf_in(eng@).shape);
            assert(shape_ok(self.buf_in(eng@).shape.drop_last()));
            lemma_numel_nonneg(self.buf_in(eng@).shape.drop_last());
        }
        let ghost b = self.buf_in(eng@);
        let ghost groups_g = numel_of(b.shape.drop_last());
        let k = eng.buf_kind(self);
        let shape = eng.buf_shape(self);
        let c: usize = shape[shape.len() - 1] as usize;
        let xs = eng.buf_data(self);
        let total: usize = xs.len();
        let groups: usize = xs.len() / c;
        proof {
            lemma_div_multiples_vanish(groups_g, c as int);
            assert(xs@.len() == c as int * groups_g) by (nonlinear_arith)
                requires
                    xs@.len() == groups_g * c as int,
            ;
            assert(groups as int == groups_g);
        }
        let mut out: Vec<u64> = Vec::new();
        let mut g: usize = 0;
        while g < groups
            invariant
                eng@ == old(eng)@,
                eng_wf(eng@),
                self.ok_in(eng@),
                b == self.buf_in(eng@),
                xs@ == b.data,
                k == b.kind,
                supported_kind(k),
                forall|j: int| 0 <= j < xs@.len() ==> elem_ok(k, #[trigger] xs@[j]),
                c >= 1,
                total == xs@.len(),
                xs@.len() == groups * c,
                g <= groups,
                out@.len() == g,
                forall|x: int| 0 <= x < g ==> #[trigger] out@[x]
                    == argmax_scan(k, b.data, x * c, c as int) as u64,
            decreases groups - g,
        {
            proof {
                assert((g + 1) * c <= groups * c) by (nonlinear_arith)
                    requires
                        g + 1 <= groups,
                        c >= 0,
                ;
                assert(g * c >= 0 && (g + 1) * c == g * c + c) by (nonlinear_arith)
                    requires
                        g >= 0,
                        c >= 0,
                ;
                assert(g * c <= total as int);
            }
            let base: usize = g * c;
            let mut best: usize = 0;
            let mut l: usize = 1;
            while l < c
                invariant
                    eng@ == old(eng)@,
                    b == self.buf_in(eng@),
                    self.ok_in(eng@),
                    xs@ == b.data,
                    k == b.kind,
                    supported_kind(k),
                    forall|j: int| 0 <= j < xs@.len() ==> elem_ok(k, #[trigger] xs@[j]),
                    c >= 1,
                    total == xs@.len(),
                    base == g * c,
                    base + c <= total,
                    1 <= l <= c,
                    best < l,
                    best as int == argmax_scan(k, b.data, base as int, l as int),
                decreases c - l,
            {
                if elem_lt_exec(k, xs[base + best], xs[base + l]) {
                    best = l;
                }
                l += 1;
            }
            out.push(best as u64);
            g += 1;
        }
        proof {
            assert(out@ =~= argmax_data(k, b.data, groups_g, c as int));
        }
        let mut new_shape = clone_i64s(eng.buf_shape(self));
        new_shape.pop();
        let device = eng.buf_device(self);
        proof {
            assert(new_shape@ =~= b.shape.drop_last());
        }
        eng.push_buf(new_shape, Kind::Int64, device, out)
    }

    /// The mean of all elements as a rank-0 array of the same kind: the
    /// elementwise fold of addition divided by the element count.
    pub fn mean(&self, eng: &mut Engine) -> (t: Tensor)
        requires
            self.ok_in(old(eng)@),
            eng_wf(old(eng)@),
            is_float_kind(self.buf_in(old(eng)@).kind),
        ensures
            eng_wf(final(eng)@),
            pushed_result(old(eng)@, final(eng)@, BufV {
                shape: Seq::<i64>::empty(),
                kind: self.buf_in(old(eng)@).kind,
                device: self.buf_in(old(eng)@).device,
                data: seq![mean_elem(self.buf_in(old(eng)@).kind, self.buf_in(old(eng)@).data)],
            }, t),
    {
        proof {
            assert(buf_wf(self.buf_in(eng@)));
        }
        let k = eng.buf_kind(self);
        let xs = eng.buf_data(self);
        let mut acc: u64 = 0;
        let mut i: usize = 0;
        while i < xs.len()
            invariant
                eng@ == old(eng)@,
                self.ok_in(eng@),
                xs@ == self.buf_in(eng@).data,
                k == self.buf_in(eng@).kind,
                is_float_kind(k),
                forall|j: int| 0 <= j < xs@.len() ==> elem_ok(k, #[trigger] xs@[j]),
                i <= xs@.len(),
                acc == fold_add(k, xs@, i as int),
                elem_ok(k, acc),
            decreases xs@.len() - i,
        {
            acc = elem_bin_exec(BinOp::Add, k, acc, xs[i]);
            i += 1;
        }
        let count = xs.len() as i64;
        let ce = scalar_elem_exec(k, Scalar::Int(count));
        let m = elem_bin_exec(BinOp::Div, k, acc, ce);
        let shape: Vec<i64> = Vec::new();
        let mut data: Vec<u64> = Vec::new();
        data.push(m);
        let device = eng.buf_device(self);
        proof {
            assert(shape@ =~= Seq::<i64>::empty());
            assert(data@ =~= seq![mean_elem(k, xs@)]);
        }
        eng.push_buf(shape, k, device, data)
    }

    /// The negative-log-likelihood loss of a `[rows, classes]` array of
    /// log-probabilities against `Int64` targets, mean reduction, with the
    /// index -100 reserved as "ignore".
    pub fn nll_loss(&self, eng: &mut Engine, targets: &Tensor) -> (t: Tensor)
        requires
            self.ok_in(old(eng)@),
            targets.ok_in(old(eng)@),
            eng_wf(old(eng)@),
            is_float_kind(self.buf_in(old(eng)@).kind),
            self.buf_in(old(eng)@).shape.len() == 2,
            targets.buf_in(old(eng)@).kind == Kind::Int64,
            targets.buf_in(old(eng)@).shape.len() == 1,
            targets.buf_in(old(eng)@).shape[0] == self.buf_in(old(eng)@).shape[0],
            forall|i: int| 0 <= i < targets.buf_in(old(eng)@).data.len()
                ==> sext(Kind::Int64, #[trigger] targets.buf_in(old(eng)@).data[i]) == -100
                    || 0 <= sext(Kind::Int64, targets.buf_in(old(eng)@).data[i])
                        < self.buf_in(old(eng)@).shape[1],
        ensures
            eng_wf(final(eng)@),
            pushed_result(old(eng)@, final(eng)@, BufV {
                shape: Seq::<i64>::empty(),
                kind: self.buf_in(old(eng)@).kind,
                device: self.buf_in(old(eng)@).device,
                data: seq![nll_elem(self.buf_in(old(eng)@).kind, self.buf_in(old(eng)@).data,
                    self.buf_in(old(eng)@).shape[1] as int, targets.buf_in(old(eng)@).data)],
            }, t),
    {
        proof {
            assert(buf_wf(self.buf_in(eng@)));
            assert(buf_wf(targets.buf_in(eng@)));
            let ts = targets.buf_in(eng@).shape;
            assert(ts.drop_first() =~= Seq::<i64>::empty());
            assert(numel_of(Seq::<i64>::empty()) == 1);
            assert(numel_of(ts) == ts[0] * 1);
            let ss = self.buf_in(eng@).shape;
            assert(ss.drop_first().drop_first() =~= Seq::<i64>::empty());
            assert(numel_of(ss.drop_first()) == ss[1] * 1);
            assert(numel_of(ss) == ss[0] * (ss[1] * 1));
        }
        let ghost b = self.buf_in(eng@);
        let ghost tb = targets.buf_in(eng@);
        let k = eng.buf_kind(self);
        let xs = eng.buf_data(self);
        let total: usize = xs.len();
        let tgts = eng.buf_data(targets);
        let shape = eng.buf_shape(self);
        let c: i64 = shape[1];
        let n = tgts.len();
        let mut acc: u64 = 0;
        let mut count: i64 = 0;
        let mut i: usize = 0;
        while i < n
            invariant
                eng@ == old(eng)@,
                self.ok_in(eng@),
                targets.ok_in(eng@),
                b == self.buf_in(eng@),
                tb == targets.buf_in(eng@),
                xs@ == b.data,
                tgts@ == tb.data,
                k == b.kind,
                is_float_kind(k),
                tb.kind == Kind::Int64,
                c as int == b.shape[1],
                b.shape.len() == 2,
                n == tb.data.len(),
                n as int == b.shape[0],
                total == b.data.len(),
                b.data.len() == b.shape[0] * (b.shape[1] * 1),
                forall|j: int| 0 <= j < xs@.len() ==> elem_ok(k, #[trigger] xs@[j]),
                forall|j: int| 0 <= j < tgts@.len() ==> elem_ok(Kind::Int64, #[trigger] tgts@[j]),
                forall|j: int| 0 <= j < tgts@.len()
                    ==> sext(Kind::Int64, #[trigger] tgts@[j]) == -100
                        || 0 <= sext(Kind::Int64, tgts@[j]) < c as int,
                i <= n,
                acc == nll_sum(k, b.data, c as int, tb.data, i as int),
                elem_ok(k, acc),
                count == nll_count(tb.data, i as int),
                0 <= count <= i,
            decreases n - i,
        {
            let tv = sext_exec(Kind::Int64, tgts[i]);
            if tv != -100 {
                proof {
                    assert((i + 1) * (c as int) <= n * (c as int)) by (nonlinear_arith)
                        requires
                            i + 1 <= n,
                            c as int >= 0,
                    ;
                    assert(i * (c as int) + tv < (i + 1) * (c as int)) by (nonlinear_arith)
                        requires
                            tv < c as int,
                    ;
                    assert(i * (c as int) + tv >= 0) by (nonlinear_arith)
                        requires
                            i >= 0,
                            c as int >= 0,
                            tv >= 0,
                    ;
                    assert(n * (c as int) == b.data.len()) by (nonlinear_arith)
                        requires
                            b.data.len() == n as int * ((c as int) * 1),
                    ;
                    assert(c as int <= total as int) by (nonlinear_arith)
                        requires
                            n as int >= 1,
                            c as int >= 0,
                            total as int == n as int * (c as int),
                    ;
                    assert((c as usize) as int == c as int);
                    assert(i * (c as int) + tv < total as int);
                    assert(i * (c as int) >= 0) by (nonlinear_arith)
                        requires
                            i >= 0,
                            c as int >= 0,
                    ;
                }
                let pos: usize = i * (c as usize) + (tv as usize);
                acc = elem_bin_exec(BinOp::Add, k, acc, xs[pos]);
                count = count + 1;
            }
            i += 1;
        }
        let ce = scalar_elem_exec(k, Scalar::Int(count));
        let m = elem_bin_exec(BinOp::Div, k, acc, ce);
        let r = elem_neg_exec(k, m);
        let out_shape: Vec<i64> = Vec::new();
        let mut data: Vec<u64> = Vec::new();
        data.push(r);
        let device = eng.buf_device(self);
        proof {
            assert(out_shape@ =~= Seq::<i64>::empty());
            assert(data@ =~= seq![nll_elem(k, b.data, c as int, tb.data)]);
        }
        eng.push_buf(out_shape, k, device, data)
    }
}

impl Tensor {
    /// The average accuracy of some logits against ground-truth targets:
    /// argmax over the last axis, elementwise equality with the targets,
    /// cast to `Float`, mean-reduced to a rank-0 array.
    pub fn accuracy_for_logits(&self, eng: &mut Engine, targets: &Tensor) -> (t: Tensor)
        requires
            self.ok_in(old(eng)@),
            targets.ok_in(old(eng)@),
            eng_wf(old(eng)@),
            self.buf_in(old(eng)@).shape.len() >= 1,
            1 <= self.buf_in(old(eng)@).shape[self.buf_in(old(eng)@).shape.len() - 1]
                <= usize::MAX,
            targets.buf_in(old(eng)@).kind == Kind::Int64,
            targets.buf_in(old(eng)@).device == self.buf_in(old(eng)@).device,
            targets.buf_in(old(eng)@).shape == self.buf_in(old(eng)@).shape.drop_last(),
        ensures
            eng_wf(final(eng)@),
            ({
                let a = self.buf_in(old(eng)@);
                let c = a.shape[a.shape.len() - 1];
                let am = BufV {
                    shape: a.shape.drop_last(),
                    kind: Kind::Int64,
                    device: a.device,
                    data: argmax_data(a.kind, a.data, numel_of(a.shape.drop_last()), c as int),
                };
                let em = eq_buf(am, targets.buf_in(old(eng)@));
                let cm = cast_buf(em, Kind::Float);
                let mm = BufV {
                    shape: Seq::<i64>::empty(),
                    kind: Kind::Float,
                    device: a.device,
                    data: seq![mean_elem(Kind::Float, cm.data)],
                };
                final(eng)@ == old(eng)@.push(am).push(em).push(cm).push(mm)
                    && t.loc() == old(eng)@.len() + 3
            }),
    {
        proof {
            assert(buf_wf(self.buf_in(eng@)));
            assert(buf_wf(targets.buf_in(eng@)));
            lemma_numel_drop_last(self.buf_in(eng@).shape);
        }
        let am = self.argmax(eng);
        let em = match am.try_eq_elems(eng, targets) {
            Ok(em) => em,
            Err(_) => unreached(),
        };
        let cm = em.to_kind(eng, Kind::Float);
        cm.mean(eng)
    }

    /// One-hot encodes an array of integer labels (fallible form): the
    /// result has the source shape with `labels` appended, `Float` kind on
    /// the host device, a one at each label's offset along the new trailing
    /// axis; fails, naming the offending element, exactly when a label
    /// falls outside `0..labels`.
    pub fn try_onehot(&self, eng: &mut Engine, labels: i64) -> (r: Result<Tensor, TchError>)
        requires
            self.ok_in(old(eng)@),
            eng_wf(old(eng)@),
            is_int_kind(self.buf_in(old(eng)@).kind),
            1 <= labels <= usize::MAX,
            self.buf_in(old(eng)@).data.len() * labels <= 0x7fff_ffff_ffff_ffff,
            self.buf_in(old(eng)@).data.len() * labels <= usize::MAX,
        ensures
            eng_wf(final(eng)@),
            ({
                let a = self.buf_in(old(eng)@);
                if forall|i: int| 0 <= i < a.data.len()
                    ==> 0 <= sext(a.kind, #[trigger] a.data[i]) < labels {
                    r matches Ok(t) && pushed_result(old(eng)@, final(eng)@, BufV {
                        shape: a.shape.push(labels),
                        kind: Kind::Float,
                        device: Device::Cpu,
                        data: onehot_data(a.kind, a.data, labels as int),
                    }, t)
                } else {
                    final(eng)@ == old(eng)@ && (r matches Err(e)
                        && e matches TchError::IndexOutOfRange { index, bound }
                        && bound == labels
                        && (exists|i: int| 0 <= i < a.data.len()
                            && sext(a.kind, #[trigger] a.data[i]) == index
                            && !(0 <= index < labels)))
                }
            }),
    {
        proof {
            assert(buf_wf(self.buf_in(eng@)));
        }
        let ghost b = self.buf_in(eng@);
        let k = eng.buf_kind(self);
        let xs = eng.buf_data(self);
        let n = xs.len();
        let mut i: usize = 0;
        while i < n
            invariant
                eng@ == old(eng)@,
                eng_wf(eng@),
                self.ok_in(eng@),
                b == self.buf_in(eng@),
                xs@ == b.data,
                k == b.kind,
                is_int_kind(k),
                supported_kind(k),
                labels >= 1,
                n == xs@.len(),
                forall|j: int| 0 <= j < xs@.len() ==> elem_ok(k, #[trigger] xs@[j]),
                i <= n,
                forall|j: int| 0 <= j < i ==> 0 <= sext(k, #[trigger] xs@[j]) < labels,
            decreases n - i,
        {
            let v = sext_exec(k, xs[i]);
            if v < 0 || v >= labels as i128 {
                return Err(TchError::IndexOutOfRange { index: v as i64, bound: labels });
            }
            i += 1;
        }
        let lab: usize = labels as usize;
        let one = one_bits_exec(Kind::Float);
        let mut data: Vec<u64> = Vec::new();
        let mut i2: usize = 0;
        while i2 < n
            invariant
                eng@ == old(eng)@,
                eng_wf(eng@),
                self.ok_in(eng@),
                b == self.buf_in(eng@),
                xs@ == b.data,
                k == b.kind,
                is_int_kind(k),
                supported_kind(k),
                1 <= labels <= usize::MAX,
                lab == labels as usize,
                lab as int == labels as int,
                one == one_bits(Kind::Float),
                n == xs@.len(),
                n * labels <= usize::MAX,
                forall|j: int| 0 <= j < xs@.len() ==> elem_ok(k, #[trigger] xs@[j]),
                forall|j: int| 0 <= j < n ==> 0 <= sext(k, #[trigger] xs@[j]) < labels,
                i2 <= n,
                data@.len() == i2 * labels,
                forall|x: int| 0 <= x < data@.len() ==> #[trigger] data@[x]
                    == if x % labels as int == sext(k, xs@[x / labels as int]) {
                        one_bits(Kind::Float)
                    } else {
                        0u64
                    },
                forall|x: int| 0 <= x < data@.len()
                    ==> elem_ok(Kind::Float, #[trigger] data@[x]),
            decreases n - i2,
        {
            let tv = sext_exec(k, xs[i2]);
            proof {
                assert((i2 + 1) * (labels as int) <= n * (labels as int)) by (nonlinear_arith)
                    requires
                        i2 + 1 <= n,
                        labels as int >= 0,
                ;
                assert((i2 + 1) * (labels as int) == i2 * (labels as int) + labels as int)
                    by (nonlinear_arith);
            }
            let mut j: usize = 0;
            while j < lab
                invariant
                    eng@ == old(eng)@,
                    b == self.buf_in(eng@),
                    self.ok_in(eng@),
                    xs@ == b.data,
                    k == b.kind,
                    1 <= labels <= usize::MAX,
                    lab as int == labels as int,
                    one == one_bits(Kind::Float),
                    n == xs@.len(),
                    i2 < n,
                    tv == sext(k, xs@[i2 as int]),
                    0 <= tv < labels as int,
                    i2 * (labels as int) + labels as int <= n * (labels as int),
                    n * labels <= usize::MAX,
                    forall|y: int| 0 <= y < n ==> 0 <= sext(k, #[trigger] xs@[y]) < labels,
                    j <= lab,
                    data@.len() == i2 * (labels as int) + j,
                    forall|x: int| 0 <= x < data@.len() ==> #[trigger] data@[x]
                        == if x % labels as int == sext(k, xs@[x / labels as int]) {
                            one_bits(Kind::Float)
                        } else {
                            0u64
                        },
                    forall|x: int| 0 <= x < data@.len()
                        ==> elem_ok(Kind::Float, #[trigger] data@[x]),
                decreases lab - j,
            {
                proof {
                    lemma_fundamental_div_mod_converse(
                        (i2 * (labels as int) + j) as int, labels as int, i2 as int, j as int);
                }
                if j as i128 == tv {
                    data.push(one);
                } else {
                    data.push(0u64);
                }
                j += 1;
            }
            i2 += 1;
        }
        let mut shape = clone_i64s(eng.buf_shape(self));
        shape.push(labels);
        proof {
            assert(data@ =~= onehot_data(k, b.data, labels as int));
            assert(shape@ =~= b.shape.push(labels));
            lemma_numel_drop_last(shape@);
            assert(shape@.drop_last() =~= b.shape);
            assert(numel_of(shape@) == numel_of(b.shape) * labels);
            assert(shape_ok(shape@));
        }
        let t = eng.push_buf(shape, Kind::Float, Device::Cpu, data);
        Ok(t)
    }

    /// One-hot encodes an array of integer labels expected to lie in
    /// `0..labels`.
    pub fn onehot(&self, eng: &mut Engine, labels: i64) -> (t: Tensor)
        requires
            self.ok_in(old(eng)@),
            eng_wf(old(eng)@),
            is_int_kind(self.buf_in(old(eng)@).kind),
            1 <= labels <= usize::MAX,
            self.buf_in(old(eng)@).data.len() * labels <= 0x7fff_ffff_ffff_ffff,
            self.buf_in(old(eng)@).data.len() * labels <= usize::MAX,
            forall|i: int| 0 <= i < self.buf_in(old(eng)@).data.len()
                ==> 0 <= sext(self.buf_in(old(eng)@).kind,
                    #[trigger] self.buf_in(old(eng)@).data[i]) < labels,
        ensures
            eng_wf(final(eng)@),
            pushed_result(old(eng)@, final(eng)@, BufV {
                shape: self.buf_in(old(eng)@).shape.push(labels),
                kind: Kind::Float,
                device: Device::Cpu,
                data: onehot_data(self.buf_in(old(eng)@).kind, self.buf_in(old(eng)@).data,
                    labels as int),
            }, t),
    {
        match self.try_onehot(eng, labels) {
            Ok(t) => t,
            Err(_) => unreached(),
        }
    }
}

} // verus!
