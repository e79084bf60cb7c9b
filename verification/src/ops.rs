//! The fallible/infallible operation pairs and the operator layer.
//!
//! Every primitive is exposed twice: a `try_*` form returning a result and a
//! convenience form whose preconditions rule the failures out.  Scalar
//! operands are promoted to the array's kind on either side; the
//! non-commutative operators reverse a scalar-on-the-left expression with an
//! explicit reversal (`s - a` is `-(a - s)`, `s / a` is `(a / s)` reciprocal).

use vstd::prelude::*;
use vstd::pervasive::unreached;
use crate::kind::{Kind, BinOp, elem_ok, elem_bin, elem_bin_ok, elem_neg, elem_recip,
    elem_recip_ok, supported_kind, is_int_kind, kind_is_int, kind_is_float, elem_bin_exec,
    elem_neg_exec, elem_recip_exec, scalar_elem, scalar_promotes, Scalar, scalar_elem_exec};
use crate::engine::{Engine, Tensor, TchError, BufV, Device, buf_wf, eng_wf, clone_i64s};

verus! {

/// The data of an elementwise binary operation of two arrays.
pub open spec fn bin_data(op: BinOp, k: Kind, xs: Seq<u64>, ys: Seq<u64>) -> Seq<u64> {
    Seq::new(xs.len(), |i: int| elem_bin(op, k, xs[i], ys[i]))
}

/// The operation is defined on every element pair (only integer division
/// by a zero element is not).
pub open spec fn bin_data_ok(op: BinOp, k: Kind, xs: Seq<u64>, ys: Seq<u64>) -> bool {
    forall|i: int| 0 <= i < xs.len() ==> elem_bin_ok(op, k, xs[i], #[trigger] ys[i])
}

/// The data of an elementwise operation against a promoted scalar element.
pub open spec fn bin_scalar_data(op: BinOp, k: Kind, xs: Seq<u64>, se: u64) -> Seq<u64> {
    Seq::new(xs.len(), |i: int| elem_bin(op, k, xs[i], se))
}

/// The data of an elementwise negation.
pub open spec fn neg_data(k: Kind, xs: Seq<u64>) -> Seq<u64> {
    Seq::new(xs.len(), |i: int| elem_neg(k, xs[i]))
}

/// The data of an elementwise reciprocal.
pub open spec fn recip_data(k: Kind, xs: Seq<u64>) -> Seq<u64> {
    Seq::new(xs.len(), |i: int| elem_recip(k, xs[i]))
}

/// The reciprocal is defined on every element (no integer element is zero).
pub open spec fn recip_data_ok(k: Kind, xs: Seq<u64>) -> bool {
    forall|i: int| 0 <= i < xs.len() ==> elem_recip_ok(k, #[trigger] xs[i])
}

/// The buffer an elementwise binary operation materializes.
pub open spec fn binop_buf(op: BinOp, a: BufV, b: BufV) -> BufV {
    BufV { shape: a.shape, kind: a.kind, device: a.device,
        data: bin_data(op, a.kind, a.data, b.data) }
}

/// The buffer an array-scalar operation materializes.
pub open spec fn scalar_buf(op: BinOp, a: BufV, s: Scalar) -> BufV {
    BufV { shape: a.shape, kind: a.kind, device: a.device,
        data: bin_scalar_data(op, a.kind, a.data, scalar_elem(a.kind, s)) }
}

/// The buffer a negation materializes.
pub open spec fn neg_buf(a: BufV) -> BufV {
    BufV { shape: a.shape, kind: a.kind, device: a.device, data: neg_data(a.kind, a.data) }
}

/// The buffer a reciprocal materializes.
pub open spec fn recip_buf(a: BufV) -> BufV {
    BufV { shape: a.shape, kind: a.kind, device: a.device, data: recip_data(a.kind, a.data) }
}

pub open spec fn is_kind_mismatch(e: TchError, l: Kind, r: Kind) -> bool {
    e matches TchError::KindMismatch { left, right } && left == l && right == r
}

pub open spec fn is_device_mismatch(e: TchError, l: Device, r: Device) -> bool {
    e matches TchError::DeviceMismatch { left, right } && left == l && right == r
}

pub open spec fn is_shape_mismatch(e: TchError, l: Seq<i64>, r: Seq<i64>) -> bool {
    e matches TchError::ShapeMismatch { left, right } && left@ == l && right@ == r
}

/// One new buffer was materialized and the result handle names it.
pub open spec fn pushed_result(pre: Seq<BufV>, post: Seq<BufV>, b: BufV, t: Tensor) -> bool {
    t.loc() == pre.len() && post == pre.push(b)
}

/// What a fallible binary operation returns: each failure is reported with
/// the operands that caused it and leaves the store unchanged; otherwise a
/// new buffer holds the elementwise result.
pub open spec fn binop_post(op: BinOp, pre: Seq<BufV>, post: Seq<BufV>, at: Tensor, bt: Tensor,
    r: Result<Tensor, TchError>) -> bool {
    let a = at.buf_in(pre);
    let b = bt.buf_in(pre);
    if a.kind != b.kind {
        post == pre && (r matches Err(e) && is_kind_mismatch(e, a.kind, b.kind))
    } else if a.device != b.device {
        post == pre && (r matches Err(e) && is_device_mismatch(e, a.device, b.device))
    } else if a.shape != b.shape {
        post == pre && (r matches Err(e) && is_shape_mismatch(e, a.shape, b.shape))
    } else if !bin_data_ok(op, a.kind, a.data, b.data) {
        post == pre && (r matches Err(e) && e == TchError::DivisionByZero)
    } else {
        r matches Ok(t) && pushed_result(pre, post, binop_buf(op, a, b), t)
    }
}

/// The operands a binary operation accepts.
pub open spec fn binop_ok(op: BinOp, a: BufV, b: BufV) -> bool {
    a.kind == b.kind && a.device == b.device && a.shape == b.shape
        && bin_data_ok(op, a.kind, a.data, b.data)
}

/// What a fallible array-scalar operation returns.
pub open spec fn scalar_post(op: BinOp, pre: Seq<BufV>, post: Seq<BufV>, at: Tensor, s: Scalar,
    r: Result<Tensor, TchError>) -> bool {
    let a = at.buf_in(pre);
    if !scalar_promotes(a.kind, s) {
        post == pre && (r matches Err(e) && e matches TchError::ScalarKindMismatch { kind }
            && kind == a.kind)
    } else if op == BinOp::Div && is_int_kind(a.kind) && scalar_elem(a.kind, s) == 0 {
        post == pre && (r matches Err(e) && e == TchError::DivisionByZero)
    } else {
        r matches Ok(t) && pushed_result(pre, post, scalar_buf(op, a, s), t)
    }
}

/// The scalar operands an array-scalar operation accepts.
pub open spec fn scalar_ok(op: BinOp, a: BufV, s: Scalar) -> bool {
    scalar_promotes(a.kind, s)
        && !(op == BinOp::Div && is_int_kind(a.kind) && scalar_elem(a.kind, s) == 0)
}

pub(crate) fn eq_shapes(a: &Vec<i64>, b: &Vec<i64>) -> (r: bool)
    ensures
        r == (a@ == b@),
{
    if a.len() != b.len() {
        proof {
            assert(a@.len() != b@.len());
        }
        return false;
    }
    let mut i: usize = 0;
    while i < a.len()
        invariant
            i <= a.len(),
            a@.len() == b@.len(),
            forall|j: int| 0 <= j < i ==> a@[j] == #[trigger] b@[j],
        decreases a.len() - i,
    {
        if a[i] != b[i] {
            return false;
        }
        i += 1;
    }
    proof {
        assert(a@ =~= b@);
    }
    true
}

fn bin_data_exec(op: BinOp, k: Kind, xs: &Vec<u64>, ys: &Vec<u64>) -> (r: Result<Vec<u64>, TchError>)
    requires
        supported_kind(k),
        xs@.len() == ys@.len(),
        forall|i: int| 0 <= i < xs@.len() ==> elem_ok(k, #[trigger] xs@[i]),
        forall|i: int| 0 <= i < ys@.len() ==> elem_ok(k, #[trigger] ys@[i]),
    ensures
        match r {
            Ok(v) => bin_data_ok(op, k, xs@, ys@) && v@ == bin_data(op, k, xs@, ys@)
                && forall|i: int| 0 <= i < v@.len() ==> elem_ok(k, #[trigger] v@[i]),
            Err(e) => !bin_data_ok(op, k, xs@, ys@) && e == TchError::DivisionByZero,
        },
{
    let div_check = matches!(op, BinOp::Div) && kind_is_int(k);
    let mut out: Vec<u64> = Vec::new();
    let mut i: usize = 0;
    while i < xs.len()
        invariant
            i <= xs@.len(),
            xs@.len() == ys@.len(),
            supported_kind(k),
            div_check == (op == BinOp::Div && is_int_kind(k)),
            forall|j: int| 0 <= j < xs@.len() ==> elem_ok(k, #[trigger] xs@[j]),
            forall|j: int| 0 <= j < ys@.len() ==> elem_ok(k, #[trigger] ys@[j]),
            out@.len() == i,
            forall|j: int| 0 <= j < i ==> elem_bin_ok(op, k, xs@[j], #[trigger] ys@[j]),
            forall|j: int| 0 <= j < i ==> #[trigger] out@[j] == elem_bin(op, k, xs@[j], ys@[j]),
            forall|j: int| 0 <= j < i ==> elem_ok(k, #[trigger] out@[j]),
        decreases xs@.len() - i,
    {
        if div_check && ys[i] == 0 {
            return Err(TchError::DivisionByZero);
        }
        out.push(elem_bin_exec(op, k, xs[i], ys[i]));
        i += 1;
    }
    proof {
        assert(out@ =~= bin_data(op, k, xs@, ys@));
    }
    Ok(out)
}

fn scalar_data_exec(op: BinOp, k: Kind, xs: &Vec<u64>, se: u64) -> (v: Vec<u64>)
    requires
        supported_kind(k),
        elem_ok(k, se),
        !(op == BinOp::Div && is_int_kind(k) && se == 0),
        forall|i: int| 0 <= i < xs@.len() ==> elem_ok(k, #[trigger] xs@[i]),
    ensures
        v@ == bin_scalar_data(op, k, xs@, se),
        forall|i: int| 0 <= i < v@.len() ==> elem_ok(k, #[trigger] v@[i]),
{
    let mut out: Vec<u64> = Vec::new();
    let mut i: usize = 0;
    while i < xs.len()
        invariant
            i <= xs@.len(),
            supported_kind(k),
            elem_ok(k, se),
            !(op == BinOp::Div && is_int_kind(k) && se == 0),
            forall|j: int| 0 <= j < xs@.len() ==> elem_ok(k, #[trigger] xs@[j]),
            out@.len() == i,
            forall|j: int| 0 <= j < i ==> #[trigger] out@[j] == elem_bin(op, k, xs@[j], se),
            forall|j: int| 0 <= j < i ==> elem_ok(k, #[trigger] out@[j]),
        decreases xs@.len() - i,
    {
        out.push(elem_bin_exec(op, k, xs[i], se));
        i += 1;
    }
    proof {
        assert(out@ =~= bin_scalar_data(op, k, xs@, se));
    }
    out
}

impl Tensor {
    /// The canonical two-argument kernel dispatch every binary operator
    /// entry point reduces to (fallible form).
    pub fn try_binop(&self, eng: &mut Engine, rhs: &Tensor, op: BinOp)
        -> (r: Result<Tensor, TchError>)
        requires
            self.ok_in(old(eng)@),
            rhs.ok_in(old(eng)@),
            eng_wf(old(eng)@),
        ensures
            eng_wf(final(eng)@),
            binop_post(op, old(eng)@, final(eng)@, *self, *rhs, r),
    {
        proof {
            assert(buf_wf(self.buf_in(eng@)));
            assert(buf_wf(rhs.buf_in(eng@)));
        }
        let ka = eng.buf_kind(self);
        let kb = eng.buf_kind(rhs);
        if ka != kb {
            return Err(TchError::KindMismatch { left: ka, right: kb });
        }
        let da = eng.buf_device(self);
        let db = eng.buf_device(rhs);
        if da != db {
            return Err(TchError::DeviceMismatch { left: da, right: db });
        }
        if !eq_shapes(eng.buf_shape(self), eng.buf_shape(rhs)) {
            let left = clone_i64s(eng.buf_shape(self));
            let right = clone_i64s(eng.buf_shape(rhs));
            return Err(TchError::ShapeMismatch { left, right });
        }
        match bin_data_exec(op, ka, eng.buf_data(self), eng.buf_data(rhs)) {
            Err(e) => Err(e),
            Ok(d) => {
                let shape = clone_i64s(eng.buf_shape(self));
                let t = eng.push_buf(shape, ka, da, d);
                Ok(t)
            }
        }
    }

    /// The convenience form of [`Tensor::try_binop`]: defined exactly on the
    /// operands the engine accepts.
    pub fn binop(&self, eng: &mut Engine, rhs: &Tensor, op: BinOp) -> (t: Tensor)
        requires
            self.ok_in(old(eng)@),
            rhs.ok_in(old(eng)@),
            eng_wf(old(eng)@),
            binop_ok(op, self.buf_in(old(eng)@), rhs.buf_in(old(eng)@)),
        ensures
            eng_wf(final(eng)@),
            pushed_result(old(eng)@, final(eng)@,
                binop_buf(op, self.buf_in(old(eng)@), rhs.buf_in(old(eng)@)), t),
    {
        match self.try_binop(eng, rhs, op) {
            Ok(t) => t,
            Err(_) => unreached(),
        }
    }

    /// The canonical array-scalar kernel dispatch (fallible form); the
    /// scalar is promoted to the array's kind.
    pub fn try_binop_scalar(&self, eng: &mut Engine, s: Scalar, op: BinOp)
        -> (r: Result<Tensor, TchError>)
        requires
            self.ok_in(old(eng)@),
            eng_wf(old(eng)@),
        ensures
            eng_wf(final(eng)@),
            scalar_post(op, old(eng)@, final(eng)@, *self, s, r),
    {
        proof {
            assert(buf_wf(self.buf_in(eng@)));
        }
        let k = eng.buf_kind(self);
        let float_scalar = matches!(s, Scalar::FloatBits(_));
        if float_scalar && !kind_is_float(k) {
            return Err(TchError::ScalarKindMismatch { kind: k });
        }
        let se = scalar_elem_exec(k, s);
        if matches!(op, BinOp::Div) && kind_is_int(k) && se == 0 {
            return Err(TchError::DivisionByZero);
        }
        let d = scalar_data_exec(op, k, eng.buf_data(self), se);
        let shape = clone_i64s(eng.buf_shape(self));
        let device = eng.buf_device(self);
        let t = eng.push_buf(shape, k, device, d);
        Ok(t)
    }

    /// The convenience form of [`Tensor::try_binop_scalar`].
    pub fn binop_scalar(&self, eng: &mut Engine, s: Scalar, op: BinOp) -> (t: Tensor)
        requires
            self.ok_in(old(eng)@),
            eng_wf(old(eng)@),
            scalar_ok(op, self.buf_in(old(eng)@), s),
        ensures
            eng_wf(final(eng)@),
            pushed_result(old(eng)@, final(eng)@, scalar_buf(op, self.buf_in(old(eng)@), s), t),
    {
        match self.try_binop_scalar(eng, s, op) {
            Ok(t) => t,
            Err(_) => unreached(),
        }
    }

    /// In-place elementwise operation with an array right operand: the
    /// storage this handle names is overwritten, so every alias observes
    /// the result. A failing in-place operation is a fatal bug, hence no
    /// fallible form: the preconditions rule every failure out.
    pub fn binop_assign(&self, eng: &mut Engine, rhs: &Tensor, op: BinOp)
        requires
            self.ok_in(old(eng)@),
            rhs.ok_in(old(eng)@),
            eng_wf(old(eng)@),
            binop_ok(op, self.buf_in(old(eng)@), rhs.buf_in(old(eng)@)),
        ensures
            eng_wf(final(eng)@),
            final(eng)@ == old(eng)@.update(self.loc(),
                binop_buf(op, self.buf_in(old(eng)@), rhs.buf_in(old(eng)@))),
    {
        proof {
            assert(buf_wf(self.buf_in(eng@)));
            assert(buf_wf(rhs.buf_in(eng@)));
        }
        let k = eng.buf_kind(self);
        match bin_data_exec(op, k, eng.buf_data(self), eng.buf_data(rhs)) {
            Ok(d) => eng.set_data(self, d),
            Err(_) => unreached(),
        }
    }

    /// In-place elementwise operation with a promoted scalar right operand.
    pub fn binop_assign_scalar(&self, eng: &mut Engine, s: Scalar, op: BinOp)
        requires
            self.ok_in(old(eng)@),
            eng_wf(old(eng)@),
            scalar_ok(op, self.buf_in(old(eng)@), s),
        ensures
            eng_wf(final(eng)@),
            final(eng)@ == old(eng)@.update(self.loc(),
                scalar_buf(op, self.buf_in(old(eng)@), s)),
    {
        proof {
            assert(buf_wf(self.buf_in(eng@)));
        }
        let k = eng.buf_kind(self);
        let se = scalar_elem_exec(k, s);
        let d = scalar_data_exec(op, k, eng.buf_data(self), se);
        eng.set_data(self, d);
    }

    /// Elementwise negation (fallible form; negation is total on the kinds
    /// the engine materializes, so it always succeeds).
    pub fn try_neg(&self, eng: &mut Engine) -> (r: Result<Tensor, TchError>)
        requires
            self.ok_in(old(eng)@),
            eng_wf(old(eng)@),
        ensures
            eng_wf(final(eng)@),
            r matches Ok(t) && pushed_result(old(eng)@, final(eng)@,
                neg_buf(self.buf_in(old(eng)@)), t),
    {
        Ok(self.negate(eng))
    }

    /// Elementwise negation.
    pub fn negate(&self, eng: &mut Engine) -> (t: Tensor)
        requires
            self.ok_in(old(eng)@),
            eng_wf(old(eng)@),
        ensures
            eng_wf(final(eng)@),
            pushed_result(old(eng)@, final(eng)@, neg_buf(self.buf_in(old(eng)@)), t),
    {
        proof {
            assert(buf_wf(self.buf_in(eng@)));
        }
        let k = eng.buf_kind(self);
        let xs = eng.buf_data(self);
        let mut out: Vec<u64> = Vec::new();
        let mut i: usize = 0;
        while i < xs.len()
            invariant
                eng@ == old(eng)@,
                eng_wf(eng@),
                self.ok_in(eng@),
                k == self.buf_in(eng@).kind,
                xs@ == self.buf_in(eng@).data,
                i <= xs@.len(),
                supported_kind(k),
                forall|j: int| 0 <= j < xs@.len() ==> elem_ok(k, #[trigger] xs@[j]),
                out@.len() == i,
                forall|j: int| 0 <= j < i ==> #[trigger] out@[j] == elem_neg(k, xs@[j]),
                forall|j: int| 0 <= j < i ==> elem_ok(k, #[trigger] out@[j]),
            decreases xs@.len() - i,
        {
            out.push(elem_neg_exec(k, xs[i]));
            i += 1;
        }
        proof {
            assert(out@ =~= neg_data(k, xs@));
        }
        let shape = clone_i64s(eng.buf_shape(self));
        let device = eng.buf_device(self);
        eng.push_buf(shape, k, device, out)
    }

    /// Elementwise reciprocal, the engine's power-to-minus-one primitive
    /// (fallible form): fails exactly when an integer element is such that
    /// one divided by it is undefined, that is when it is zero.
    pub fn try_recip(&self, eng: &mut Engine) -> (r: Result<Tensor, TchError>)
        requires
            self.ok_in(old(eng)@),
            eng_wf(old(eng)@),
        ensures
            eng_wf(final(eng)@),
            ({
                let a = self.buf_in(old(eng)@);
                if recip_data_ok(a.kind, a.data) {
                    r matches Ok(t) && pushed_result(old(eng)@, final(eng)@, recip_buf(a), t)
                } else {
                    final(eng)@ == old(eng)@ && (r matches Err(e)
                        && e == TchError::DivisionByZero)
                }
            }),
    {
        proof {
            assert(buf_wf(self.buf_in(eng@)));
        }
        let k = eng.buf_kind(self);
        let xs = eng.buf_data(self);
        let int_kind = kind_is_int(k);
        let mut out: Vec<u64> = Vec::new();
        let mut i: usize = 0;
        while i < xs.len()
            invariant
                eng@ == old(eng)@,
                eng_wf(eng@),
                self.ok_in(eng@),
                k == self.buf_in(eng@).kind,
                xs@ == self.buf_in(eng@).data,
                i <= xs@.len(),
                supported_kind(k),
                int_kind == is_int_kind(k),
                forall|j: int| 0 <= j < xs@.len() ==> elem_ok(k, #[trigger] xs@[j]),
                out@.len() == i,
                forall|j: int| 0 <= j < i ==> elem_recip_ok(k, #[trigger] xs@[j]),
                forall|j: int| 0 <= j < i ==> #[trigger] out@[j] == elem_recip(k, xs@[j]),
                forall|j: int| 0 <= j < i ==> elem_ok(k, #[trigger] out@[j]),
            decreases xs@.len() - i,
        {
            if int_kind && xs[i] == 0 {
                return Err(TchError::DivisionByZero);
            }
            out.push(elem_recip_exec(k, xs[i]));
            i += 1;
        }
        proof {
            assert(out@ =~= recip_data(k, xs@));
        }
        let shape = clone_i64s(eng.buf_shape(self));
        let device = eng.buf_device(self);
        let t = eng.push_buf(shape, k, device, out);
        Ok(t)
    }

    /// Elementwise reciprocal (convenience form).
    pub fn recip(&self, eng: &mut Engine) -> (t: Tensor)
        requires
            self.ok_in(old(eng)@),
            eng_wf(old(eng)@),
            recip_data_ok(self.buf_in(old(eng)@).kind, self.buf_in(old(eng)@).data),
        ensures
            eng_wf(final(eng)@),
            pushed_result(old(eng)@, final(eng)@, recip_buf(self.buf_in(old(eng)@)), t),
    {
        match self.try_recip(eng) {
            Ok(t) => t,
            Err(_) => unreached(),
        }
    }
}

impl Tensor {
    /// Elementwise sum of two arrays (fallible form).
    pub fn try_add_t(&self, eng: &mut Engine, rhs: &Tensor) -> (r: Result<Tensor, TchError>)
        requires
            self.ok_in(old(eng)@),
            rhs.ok_in(old(eng)@),
            eng_wf(old(eng)@),
        ensures
            eng_wf(final(eng)@),
            binop_post(BinOp::Add, old(eng)@, final(eng)@, *self, *rhs, r),
    {
        self.try_binop(eng, rhs, BinOp::Add)
    }

    /// Elementwise sum of two arrays.
    pub fn add_t(&self, eng: &mut Engine, rhs: &Tensor) -> (t: Tensor)
        requires
            self.ok_in(old(eng)@),
            rhs.ok_in(old(eng)@),
            eng_wf(old(eng)@),
            binop_ok(BinOp::Add, self.buf_in(old(eng)@), rhs.buf_in(old(eng)@)),
        ensures
            eng_wf(final(eng)@),
            pushed_result(old(eng)@, final(eng)@,
                binop_buf(BinOp::Add, self.buf_in(old(eng)@), rhs.buf_in(old(eng)@)), t),
    {
        self.binop(eng, rhs, BinOp::Add)
    }

    /// Elementwise difference of two arrays (fallible form).
    pub fn try_sub_t(&self, eng: &mut Engine, rhs: &Tensor) -> (r: Result<Tensor, TchError>)
        requires
            self.ok_in(old(eng)@),
            rhs.ok_in(old(eng)@),
            eng_wf(old(eng)@),
        ensures
            eng_wf(final(eng)@),
            binop_post(BinOp::Sub, old(eng)@, final(eng)@, *self, *rhs, r),
    {
        self.try_binop(eng, rhs, BinOp::Sub)
    }

    /// Elementwise difference of two arrays.
    pub fn sub_t(&self, eng: &mut Engine, rhs: &Tensor) -> (t: Tensor)
        requires
            self.ok_in(old(eng)@),
            rhs.ok_in(old(eng)@),
            eng_wf(old(eng)@),
            binop_ok(BinOp::Sub, self.buf_in(old(eng)@), rhs.buf_in(old(eng)@)),
        ensures
            eng_wf(final(eng)@),
            pushed_result(old(eng)@, final(eng)@,
                binop_buf(BinOp::Sub, self.buf_in(old(eng)@), rhs.buf_in(old(eng)@)), t),
    {
        self.binop(eng, rhs, BinOp::Sub)
    }

    /// Elementwise product of two arrays (fallible form).
    pub fn try_mul_t(&self, eng: &mut Engine, rhs: &Tensor) -> (r: Result<Tensor, TchError>)
        requires
            self.ok_in(old(eng)@),
            rhs.ok_in(old(eng)@),
            eng_wf(old(eng)@),
        ensures
            eng_wf(final(eng)@),
            binop_post(BinOp::Mul, old(eng)@, final(eng)@, *self, *rhs, r),
    {
        self.try_binop(eng, rhs, BinOp::Mul)
    }

    /// Elementwise product of two arrays.
    pub fn mul_t(&self, eng: &mut Engine, rhs: &Tensor) -> (t: Tensor)
        requires
            self.ok_in(old(eng)@),
            rhs.ok_in(old(eng)@),
            eng_wf(old(eng)@),
            binop_ok(BinOp::Mul, self.buf_in(old(eng)@), rhs.buf_in(old(eng)@)),
        ensures
            eng_wf(final(eng)@),
            pushed_result(old(eng)@, final(eng)@,
                binop_buf(BinOp::Mul, self.buf_in(old(eng)@), rhs.buf_in(old(eng)@)), t),
    {
        self.binop(eng, rhs, BinOp::Mul)
    }

    /// Elementwise quotient of two arrays (fallible form).
    pub fn try_div_t(&self, eng: &mut Engine, rhs: &Tensor) -> (r: Result<Tensor, TchError>)
        requires
            self.ok_in(old(eng)@),
            rhs.ok_in(old(eng)@),
            eng_wf(old(eng)@),
        ensures
            eng_wf(final(eng)@),
            binop_post(BinOp::Div, old(eng)@, final(eng)@, *self, *rhs, r),
    {
        self.try_binop(eng, rhs, BinOp::Div)
    }

    /// Elementwise quotient of two arrays.
    pub fn div_t(&self, eng: &mut Engine, rhs: &Tensor) -> (t: Tensor)
        requires
            self.ok_in(old(eng)@),
            rhs.ok_in(old(eng)@),
            eng_wf(old(eng)@),
            binop_ok(BinOp::Div, self.buf_in(old(eng)@), rhs.buf_in(old(eng)@)),
        ensures
            eng_wf(final(eng)@),
            pushed_result(old(eng)@, final(eng)@,
                binop_buf(BinOp::Div, self.buf_in(old(eng)@), rhs.buf_in(old(eng)@)), t),
    {
        self.binop(eng, rhs, BinOp::Div)
    }

    /// Array plus scalar.
    pub fn add_s(&self, eng: &mut Engine, s: Scalar) -> (t: Tensor)
        requires
            self.ok_in(old(eng)@),
            eng_wf(old(eng)@),
            scalar_ok(BinOp::Add, self.buf_in(old(eng)@), s),
        ensures
            eng_wf(final(eng)@),
            pushed_result(old(eng)@, final(eng)@,
                scalar_buf(BinOp::Add, self.buf_in(old(eng)@), s), t),
    {
        self.binop_scalar(eng, s, BinOp::Add)
    }

    /// Array minus scalar.
    pub fn sub_s(&self, eng: &mut Engine, s: Scalar) -> (t: Tensor)
        requires
            self.ok_in(old(eng)@),
            eng_wf(old(eng)@),
            scalar_ok(BinOp::Sub, self.buf_in(old(eng)@), s),
        ensures
            eng_wf(final(eng)@),
            pushed_result(old(eng)@, final(eng)@,
                scalar_buf(BinOp::Sub, self.buf_in(old(eng)@), s), t),
    {
        self.binop_scalar(eng, s, BinOp::Sub)
    }

    /// Array times scalar.
    pub fn mul_s(&self, eng: &mut Engine, s: Scalar) -> (t: Tensor)
        requires
            self.ok_in(old(eng)@),
            eng_wf(old(eng)@),
            scalar_ok(BinOp::Mul, self.buf_in(old(eng)@), s),
        ensures
            eng_wf(final(eng)@),
            pushed_result(old(eng)@, final(eng)@,
                scalar_buf(BinOp::Mul, self.buf_in(old(eng)@), s), t),
    {
        self.binop_scalar(eng, s, BinOp::Mul)
    }

    /// Array divided by scalar.
    pub fn div_s(&self, eng: &mut Engine, s: Scalar) -> (t: Tensor)
        requires
            self.ok_in(old(eng)@),
            eng_wf(old(eng)@),
            scalar_ok(BinOp::Div, self.buf_in(old(eng)@), s),
        ensures
            eng_wf(final(eng)@),
            pushed_result(old(eng)@, final(eng)@,
                scalar_buf(BinOp::Div, self.buf_in(old(eng)@), s), t),
    {
        self.binop_scalar(eng, s, BinOp::Div)
    }

    /// In-place sum with an array right operand.
    pub fn add_assign_t(&self, eng: &mut Engine, rhs: &Tensor)
        requires
            self.ok_in(old(eng)@),
            rhs.ok_in(old(eng)@),
            eng_wf(old(eng)@),
            binop_ok(BinOp::Add, self.buf_in(old(eng)@), rhs.buf_in(old(eng)@)),
        ensures
            eng_wf(final(eng)@),
            final(eng)@ == old(eng)@.update(self.loc(),
                binop_buf(BinOp::Add, self.buf_in(old(eng)@), rhs.buf_in(old(eng)@))),
    {
        self.binop_assign(eng, rhs, BinOp::Add)
    }

    /// In-place difference with an array right operand.
    pub fn sub_assign_t(&self, eng: &mut Engine, rhs: &Tensor)
        requires
            self.ok_in(old(eng)@),
            rhs.ok_in(old(eng)@),
            eng_wf(old(eng)@),
            binop_ok(BinOp::Sub, self.buf_in(old(eng)@), rhs.buf_in(old(eng)@)),
        ensures
            eng_wf(final(eng)@),
            final(eng)@ == old(eng)@.update(self.loc(),
                binop_buf(BinOp::Sub, self.buf_in(old(eng)@), rhs.buf_in(old(eng)@))),
    {
        self.binop_assign(eng, rhs, BinOp::Sub)
    }

    /// In-place product with an array right operand.
    pub fn mul_assign_t(&self, eng: &mut Engine, rhs: &Tensor)
        requires
            self.ok_in(old(eng)@),
            rhs.ok_in(old(eng)@),
            eng_wf(old(eng)@),
            binop_ok(BinOp::Mul, self.buf_in(old(eng)@), rhs.buf_in(old(eng)@)),
        ensures
            eng_wf(final(eng)@),
            final(eng)@ == old(eng)@.update(self.loc(),
                binop_buf(BinOp::Mul, self.buf_in(old(eng)@), rhs.buf_in(old(eng)@))),
    {
        self.binop_assign(eng, rhs, BinOp::Mul)
    }

    /// In-place quotient with an array right operand.
    pub fn div_assign_t(&self, eng: &mut Engine, rhs: &Tensor)
        requires
            self.ok_in(old(eng)@),
            rhs.ok_in(old(eng)@),
            eng_wf(old(eng)@),
            binop_ok(BinOp::Div, self.buf_in(old(eng)@), rhs.buf_in(old(eng)@)),
        ensures
            eng_wf(final(eng)@),
            final(eng)@ == old(eng)@.update(self.loc(),
                binop_buf(BinOp::Div, self.buf_in(old(eng)@), rhs.buf_in(old(eng)@))),
    {
        self.binop_assign(eng, rhs, BinOp::Div)
    }

    /// In-place sum with a scalar right operand.
    pub fn add_assign_s(&self, eng: &mut Engine, s: Scalar)
        requires
            self.ok_in(old(eng)@),
            eng_wf(old(eng)@),
            scalar_ok(BinOp::Add, self.buf_in(old(eng)@), s),
        ensures
            eng_wf(final(eng)@),
            final(eng)@ == old(eng)@.update(self.loc(),
                scalar_buf(BinOp::Add, self.buf_in(old(eng)@), s)),
    {
        self.binop_assign_scalar(eng, s, BinOp::Add)
    }

    /// In-place difference with a scalar right operand.
    pub fn sub_assign_s(&self, eng: &mut Engine, s: Scalar)
        requires
            self.ok_in(old(eng)@),
            eng_wf(old(eng)@),
            scalar_ok(BinOp::Sub, self.buf_in(old(eng)@), s),
        ensures
            eng_wf(final(eng)@),
            final(eng)@ == old(eng)@.update(self.loc(),
                scalar_buf(BinOp::Sub, self.buf_in(old(eng)@), s)),
    {
        self.binop_assign_scalar(eng, s, BinOp::Sub)
    }

    /// In-place product with a scalar right operand.
    pub fn mul_assign_s(&self, eng: &mut Engine, s: Scalar)
        requires
            self.ok_in(old(eng)@),
            eng_wf(old(eng)@),
            scalar_ok(BinOp::Mul, self.buf_in(old(eng)@), s),
        ensures
            eng_wf(final(eng)@),
            final(eng)@ == old(eng)@.update(self.loc(),
                scalar_buf(BinOp::Mul, self.buf_in(old(eng)@), s)),
    {
        self.binop_assign_scalar(eng, s, BinOp::Mul)
    }

    /// In-place quotient with a scalar right operand.
    pub fn div_assign_s(&self, eng: &mut Engine, s: Scalar)
        requires
            self.ok_in(old(eng)@),
            eng_wf(old(eng)@),
            scalar_ok(BinOp::Div, self.buf_in(old(eng)@), s),
        ensures
            eng_wf(final(eng)@),
            final(eng)@ == old(eng)@.update(self.loc(),
                scalar_buf(BinOp::Div, self.buf_in(old(eng)@), s)),
    {
        self.binop_assign_scalar(eng, s, BinOp::Div)
    }
}

/// Scalar plus array: addition is commutative, so this is the array-plus-
/// scalar form with the operands swapped.
pub fn scalar_add(eng: &mut Engine, s: Scalar, t: &Tensor) -> (r: Tensor)
    requires
        t.ok_in(old(eng)@),
        eng_wf(old(eng)@),
        scalar_ok(BinOp::Add, t.buf_in(old(eng)@), s),
    ensures
        eng_wf(final(eng)@),
        pushed_result(old(eng)@, final(eng)@, scalar_buf(BinOp::Add, t.buf_in(old(eng)@), s), r),
{
    t.add_s(eng, s)
}

/// Scalar times array: multiplication is commutative, so this is the
/// array-times-scalar form with the operands swapped.
pub fn scalar_mul(eng: &mut Engine, s: Scalar, t: &Tensor) -> (r: Tensor)
    requires
        t.ok_in(old(eng)@),
        eng_wf(old(eng)@),
        scalar_ok(BinOp::Mul, t.buf_in(old(eng)@), s),
    ensures
        eng_wf(final(eng)@),
        pushed_result(old(eng)@, final(eng)@, scalar_buf(BinOp::Mul, t.buf_in(old(eng)@), s), r),
{
    t.mul_s(eng, s)
}

/// Scalar minus array: subtraction is not commutative, so the result is the
/// negation of array-minus-scalar, `s - a == -(a - s)`.
pub fn scalar_sub(eng: &mut Engine, s: Scalar, t: &Tensor) -> (r: Tensor)
    requires
        t.ok_in(old(eng)@),
        eng_wf(old(eng)@),
        scalar_ok(BinOp::Sub, t.buf_in(old(eng)@), s),
    ensures
        eng_wf(final(eng)@),
        ({
            let d = scalar_buf(BinOp::Sub, t.buf_in(old(eng)@), s);
            final(eng)@ == old(eng)@.push(d).push(neg_buf(d))
                && r.loc() == old(eng)@.len() + 1
        }),
{
    let d = t.sub_s(eng, s);
    d.negate(eng)
}

/// Scalar divided by array: division is not commutative, so the result is
/// the elementwise reciprocal of array-divided-by-scalar,
/// `s / a == (a / s) ^ -1`.
pub fn scalar_div(eng: &mut Engine, s: Scalar, t: &Tensor) -> (r: Tensor)
    requires
        t.ok_in(old(eng)@),
        eng_wf(old(eng)@),
        scalar_ok(BinOp::Div, t.buf_in(old(eng)@), s),
        recip_data_ok(t.buf_in(old(eng)@).kind,
            scalar_buf(BinOp::Div, t.buf_in(old(eng)@), s).data),
    ensures
        eng_wf(final(eng)@),
        ({
            let d = scalar_buf(BinOp::Div, t.buf_in(old(eng)@), s);
            final(eng)@ == old(eng)@.push(d).push(recip_buf(d))
                && r.loc() == old(eng)@.len() + 1
        }),
{
    let d = t.div_s(eng, s);
    d.recip(eng)
}

/// The identity function, the reversal of the commutative operators.
pub fn id<T>(v: T) -> (r: T)
    ensures
        r == v,
{
    v
}

/// Negation as a free function, the reversal of subtraction.
pub fn neg(eng: &mut Engine, t: Tensor) -> (r: Tensor)
    requires
        t.ok_in(old(eng)@),
        eng_wf(old(eng)@),
    ensures
        eng_wf(final(eng)@),
        pushed_result(old(eng)@, final(eng)@, neg_buf(t.buf_in(old(eng)@)), r),
{
    t.negate(eng)
}

/// Elementwise reciprocal (the power-to-minus-one primitive) as a free
/// function, the reversal of division.
pub fn inv(eng: &mut Engine, t: Tensor) -> (r: Tensor)
    requires
        t.ok_in(old(eng)@),
        eng_wf(old(eng)@),
        recip_data_ok(t.buf_in(old(eng)@).kind, t.buf_in(old(eng)@).data),
    ensures
        eng_wf(final(eng)@),
        pushed_result(old(eng)@, final(eng)@, recip_buf(t.buf_in(old(eng)@)), r),
{
    t.recip(eng)
}

/// The data of a left fold of addition over the first `t` arrays' data,
/// seeded with the first array and folded as `next + accumulator`.
pub open spec fn sum_fold(k: Kind, rows: Seq<Seq<u64>>, t: int) -> Seq<u64>
    decreases t,
{
    if t <= 1 {
        rows[0]
    } else {
        bin_data(BinOp::Add, k, rows[t - 1], sum_fold(k, rows, t - 1))
    }
}

/// The sum of a run of arrays, folded in order with each new operand on
/// the left; an empty run sums to a rank-0 `Double` zero.
pub fn sum_tensors(eng: &mut Engine, ts: &Vec<Tensor>) -> (r: Tensor)
    requires
        eng_wf(old(eng)@),
        forall|i: int| 0 <= i < ts@.len() ==> (#[trigger] ts@[i]).ok_in(old(eng)@),
        forall|i: int| 0 <= i < ts@.len()
            ==> (#[trigger] ts@[i]).buf_in(old(eng)@).kind == ts@[0].buf_in(old(eng)@).kind
                && ts@[i].buf_in(old(eng)@).device == ts@[0].buf_in(old(eng)@).device
                && ts@[i].buf_in(old(eng)@).shape == ts@[0].buf_in(old(eng)@).shape,
    ensures
        eng_wf(final(eng)@),
        r.ok_in(final(eng)@),
        old(eng)@ == final(eng)@.subrange(0, old(eng)@.len() as int),
        ts@.len() == 0 ==> r.buf_in(final(eng)@) == (BufV {
            shape: Seq::<i64>::empty(),
            kind: Kind::Double,
            device: Device::Cpu,
            data: seq![0u64],
        }),
        ts@.len() > 0 ==> ({
            let first = ts@[0].buf_in(old(eng)@);
            r.buf_in(final(eng)@) == (BufV {
                shape: first.shape,
                kind: first.kind,
                device: first.device,
                data: sum_fold(first.kind,
                    ts@.map(|_i: int, t: Tensor| t.buf_in(old(eng)@).data), ts@.len() as int),
            })
        }),
{
    let ghost rows = ts@.map(|_i: int, t: Tensor| t.buf_in(old(eng)@).data);
    if ts.len() == 0 {
        let mut data: Vec<u64> = Vec::new();
        data.push(0u64);
        let shape: Vec<i64> = Vec::new();
        proof {
            assert(shape@ =~= Seq::<i64>::empty());
            assert(data@ =~= seq![0u64]);
        }
        let t = eng.push_buf(shape, Kind::Double, Device::Cpu, data);
        proof {
            assert(old(eng)@ =~= eng@.subrange(0, old(eng)@.len() as int));
        }
        return t;
    }
    let mut acc: Tensor = ts[0].shallow_clone();
    let mut i: usize = 1;
    while i < ts.len()
        invariant
            eng_wf(eng@),
            1 <= i <= ts@.len(),
            old(eng)@ == eng@.subrange(0, old(eng)@.len() as int),
            old(eng)@.len() <= eng@.len(),
            rows == ts@.map(|_i: int, t: Tensor| t.buf_in(old(eng)@).data),
            forall|j: int| 0 <= j < ts@.len() ==> (#[trigger] ts@[j]).ok_in(old(eng)@),
            forall|j: int| 0 <= j < ts@.len()
                ==> (#[trigger] ts@[j]).buf_in(old(eng)@).kind == ts@[0].buf_in(old(eng)@).kind
                    && ts@[j].buf_in(old(eng)@).device == ts@[0].buf_in(old(eng)@).device
                    && ts@[j].buf_in(old(eng)@).shape == ts@[0].buf_in(old(eng)@).shape,
            forall|j: int| 0 <= j < ts@.len()
                ==> (#[trigger] ts@[j]).buf_in(eng@) == ts@[j].buf_in(old(eng)@),
            acc.ok_in(eng@),
            acc.buf_in(eng@).kind == ts@[0].buf_in(old(eng)@).kind,
            acc.buf_in(eng@).device == ts@[0].buf_in(old(eng)@).device,
            acc.buf_in(eng@).shape == ts@[0].buf_in(old(eng)@).shape,
            acc.buf_in(eng@).data == sum_fold(ts@[0].buf_in(old(eng)@).kind, rows, i as int),
        decreases ts@.len() - i,
    {
        proof {
            assert(buf_wf(ts@[i as int].buf_in(eng@)));
            assert(buf_wf(acc.buf_in(eng@)));
            assert(rows[i as int].len() == rows[0].len());
            assert(bin_data_ok(BinOp::Add, ts@[i as int].buf_in(eng@).kind,
                ts@[i as int].buf_in(eng@).data, acc.buf_in(eng@).data));
        }
        let ghost pre = eng@;
        let next = ts[i].add_t(eng, &acc);
        proof {
            assert(old(eng)@ =~= eng@.subrange(0, old(eng)@.len() as int));
            assert forall|j: int| 0 <= j < ts@.len()
                implies (#[trigger] ts@[j]).buf_in(eng@) == ts@[j].buf_in(old(eng)@) by {
                assert(ts@[j].buf_in(pre) == ts@[j].buf_in(old(eng)@));
            }
        }
        acc = next;
        i += 1;
    }
    proof {
        assert(old(eng)@ =~= eng@.subrange(0, old(eng)@.len() as int));
    }
    acc
}

} // verus!
