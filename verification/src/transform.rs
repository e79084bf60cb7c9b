//! Kind casts, device transfers, reshaping and allocation.

use vstd::prelude::*;
use vstd::pervasive::unreached;
use vstd::arithmetic::div_mod::lemma_div_multiples_vanish;
use crate::kind::{Kind, elem_ok, supported_kind, cast_elem, cast_elem_exec, kind_is_supported};
use crate::engine::{Engine, Tensor, TchError, BufV, Device, buf_wf, eng_wf, numel_of, shape_ok,
    clone_i64s, clone_u64s};
use crate::ops::pushed_result;

verus! {

/// The data of a whole-array cast from kind `from` to kind `to`.
pub open spec fn cast_data(from: Kind, to: Kind, d: Seq<u64>) -> Seq<u64> {
    Seq::new(d.len(), |i: int| cast_elem(from, to, d[i]))
}

/// The buffer a cast materializes: the same shape and device, the new kind.
pub open spec fn cast_buf(a: BufV, to: Kind) -> BufV {
    BufV { shape: a.shape, kind: to, device: a.device, data: cast_data(a.kind, to, a.data) }
}

/// An array of this shape holds at least one element when every dimension
/// is positive.
pub proof fn lemma_numel_pos(shape: Seq<i64>)
    requires
        forall|i: int| 0 <= i < shape.len() ==> shape[i] >= 1,
    ensures
        numel_of(shape) >= 1,
    decreases shape.len(),
{
    if shape.len() > 0 {
        lemma_numel_pos(shape.drop_first());
        assert(shape[0] * numel_of(shape.drop_first()) >= 1) by (nonlinear_arith)
            requires
                shape[0] >= 1,
                numel_of(shape.drop_first()) >= 1,
        ;
    }
}

/// An array with a zero dimension holds no elements.
pub proof fn lemma_numel_zero(shape: Seq<i64>, j: int)
    requires
        0 <= j < shape.len(),
        shape[j] == 0,
    ensures
        numel_of(shape) == 0,
    decreases shape.len(),
{
    if j == 0 {
    } else {
        lemma_numel_zero(shape.drop_first(), j - 1);
    }
}

impl Tensor {
    /// Casts the array to the given kind (fallible form): a new array with
    /// the same shape and device whose elements are converted one by one;
    /// fails exactly when the engine cannot materialize the kind.
    pub fn try_to_kind(&self, eng: &mut Engine, kind: Kind) -> (r: Result<Tensor, TchError>)
        requires
            self.ok_in(old(eng)@),
            eng_wf(old(eng)@),
        ensures
            eng_wf(final(eng)@),
            if supported_kind(kind) {
                r matches Ok(t) && pushed_result(old(eng)@, final(eng)@,
                    cast_buf(self.buf_in(old(eng)@), kind), t)
            } else {
                final(eng)@ == old(eng)@ && (r matches Err(e)
                    && e matches TchError::UnsupportedKind { kind: kk } && kk == kind)
            },
    {
        proof {
            assert(buf_wf(self.buf_in(eng@)));
        }
        if !kind_is_supported(kind) {
            return Err(TchError::UnsupportedKind { kind });
        }
        let from = eng.buf_kind(self);
        let xs = eng.buf_data(self);
        let mut out: Vec<u64> = Vec::new();
        let mut i: usize = 0;
        while i < xs.len()
            invariant
                eng@ == old(eng)@,
                eng_wf(eng@),
                self.ok_in(eng@),
                from == self.buf_in(eng@).kind,
                xs@ == self.buf_in(eng@).data,
                supported_kind(from),
                supported_kind(kind),
                i <= xs@.len(),
                forall|j: int| 0 <= j < xs@.len() ==> elem_ok(from, #[trigger] xs@[j]),
                out@.len() == i,
                forall|j: int| 0 <= j < i ==> #[trigger] out@[j] == cast_elem(from, kind, xs@[j]),
                forall|j: int| 0 <= j < i ==> elem_ok(kind, #[trigger] out@[j]),
            decreases xs@.len() - i,
        {
            out.push(cast_elem_exec(from, kind, xs[i]));
            i += 1;
        }
        proof {
            assert(out@ =~= cast_data(from, kind, xs@));
        }
        let shape = clone_i64s(eng.buf_shape(self));
        let device = eng.buf_device(self);
        let t = eng.push_buf(shape, kind, device, out);
        Ok(t)
    }

    /// Casts the array to the given kind.
    pub fn to_kind(&self, eng: &mut Engine, kind: Kind) -> (t: Tensor)
        requires
            self.ok_in(old(eng)@),
            eng_wf(old(eng)@),
            supported_kind(kind),
        ensures
            eng_wf(final(eng)@),
            pushed_result(old(eng)@, final(eng)@, cast_buf(self.buf_in(old(eng)@), kind), t),
    {
        match self.try_to_kind(eng, kind) {
            Ok(t) => t,
            Err(_) => unreached(),
        }
    }

    /// Moves the array to the given device (fallible form); the abstract
    /// devices of this engine always accept a transfer, so it always
    /// succeeds.
    pub fn try_to_device(&self, eng: &mut Engine, device: Device)
        -> (r: Result<Tensor, TchError>)
        requires
            self.ok_in(old(eng)@),
            eng_wf(old(eng)@),
        ensures
            eng_wf(final(eng)@),
            r matches Ok(t) && pushed_result(old(eng)@, final(eng)@, BufV {
                shape: self.buf_in(old(eng)@).shape,
                kind: self.buf_in(old(eng)@).kind,
                device,
                data: self.buf_in(old(eng)@).data,
            }, t),
    {
        Ok(self.to_device(eng, device))
    }

    /// Moves the array to the given device.
    pub fn to_device(&self, eng: &mut Engine, device: Device) -> (t: Tensor)
        requires
            self.ok_in(old(eng)@),
            eng_wf(old(eng)@),
        ensures
            eng_wf(final(eng)@),
            pushed_result(old(eng)@, final(eng)@, BufV {
                shape: self.buf_in(old(eng)@).shape,
                kind: self.buf_in(old(eng)@).kind,
                device,
                data: self.buf_in(old(eng)@).data,
            }, t),
    {
        proof {
            assert(buf_wf(self.buf_in(eng@)));
        }
        let shape = clone_i64s(eng.buf_shape(self));
        let data = clone_u64s(eng.buf_data(self));
        let kind = eng.buf_kind(self);
        eng.push_buf(shape, kind, device, data)
    }

    /// Flattens the array to two dimensions, keeping the leading
    /// (mini-batch) dimension and folding all the others into one.
    pub fn flat_view(&self, eng: &mut Engine) -> (t: Tensor)
        requires
            self.ok_in(old(eng)@),
            eng_wf(old(eng)@),
            self.buf_in(old(eng)@).shape.len() >= 1,
            self.buf_in(old(eng)@).shape[0] >= 1,
        ensures
            eng_wf(final(eng)@),
            pushed_result(old(eng)@, final(eng)@, BufV {
                shape: seq![
                    self.buf_in(old(eng)@).shape[0],
                    ((self.buf_in(old(eng)@).data.len() as int)
                        / (self.buf_in(old(eng)@).shape[0] as int)) as i64,
                ],
                kind: self.buf_in(old(eng)@).kind,
                device: self.buf_in(old(eng)@).device,
                data: self.buf_in(old(eng)@).data,
            }, t),
    {
        proof {
            assert(buf_wf(self.buf_in(eng@)));
        }
        let d0: i64 = eng.buf_shape(self)[0];
        let n = eng.buf_data(self).len() as i64;
        let rest: i64 = n / d0;
        let ghost b = self.buf_in(eng@);
        proof {
            let rn = numel_of(b.shape.drop_first());
            assert(numel_of(b.shape) == b.shape[0] * rn);
            lemma_div_multiples_vanish(rn, d0 as int);
            assert(n as int == d0 * rn);
            assert(rest as int == rn);
            let ns = seq![d0, rest];
            assert(ns.drop_first() =~= seq![rest]);
            assert(seq![rest].drop_first() =~= Seq::<i64>::empty());
            assert(numel_of(Seq::<i64>::empty()) == 1);
            assert(numel_of(seq![rest]) == rest * 1);
            assert(numel_of(ns) == d0 * (rest * 1));
            assert(numel_of(ns) == b.data.len());
        }
        let mut shape: Vec<i64> = Vec::new();
        shape.push(d0);
        shape.push(rest);
        let data = clone_u64s(eng.buf_data(self));
        let kind = eng.buf_kind(self);
        let device = eng.buf_device(self);
        proof {
            assert(shape@ =~= seq![d0, rest]);
        }
        eng.push_buf(shape, kind, device, data)
    }
}

/// The buffer a zero allocation materializes.
pub open spec fn zeros_buf(shape: Seq<i64>, kind: Kind, device: Device) -> BufV {
    BufV { shape, kind, device, data: Seq::new(numel_of(shape) as nat, |_i: int| 0u64) }
}

/// What a fallible zero allocation returns: a kind the engine cannot
/// materialize, a negative dimension and an element count beyond the
/// engine's limit are each refused.
pub open spec fn zeros_post(pre: Seq<BufV>, post: Seq<BufV>, shape: Seq<i64>, kind: Kind,
    device: Device, r: Result<Tensor, TchError>) -> bool {
    if !supported_kind(kind) {
        post == pre && (r matches Err(e) && e matches TchError::UnsupportedKind { kind: kk }
            && kk == kind)
    } else if !shape_ok(shape) {
        post == pre && (r matches Err(e) && e matches TchError::NegativeDim { dim }
            && shape.contains(dim) && dim < 0)
    } else if numel_of(shape) > 0x7fff_ffff_ffff_ffff || numel_of(shape) > usize::MAX {
        post == pre && (r matches Err(e) && e == TchError::TooLarge)
    } else {
        r matches Ok(t) && pushed_result(pre, post, zeros_buf(shape, kind, device), t)
    }
}

impl Tensor {
    /// Allocates an array of zero elements with the given shape, kind and
    /// device (fallible form).
    pub fn try_zeros(eng: &mut Engine, shape: &Vec<i64>, kind: Kind, device: Device)
        -> (r: Result<Tensor, TchError>)
        requires
            eng_wf(old(eng)@),
        ensures
            eng_wf(final(eng)@),
            zeros_post(old(eng)@, final(eng)@, shape@, kind, device, r),
    {
        if !kind_is_supported(kind) {
            return Err(TchError::UnsupportedKind { kind });
        }
        let mut i: usize = 0;
        let mut any_zero = false;
        let ghost mut zero_at: int = 0;
        while i < shape.len()
            invariant
                eng@ == old(eng)@,
                eng_wf(eng@),
                supported_kind(kind),
                i <= shape@.len(),
                forall|j: int| 0 <= j < i ==> shape@[j] >= 0,
                any_zero ==> 0 <= zero_at < i && shape@[zero_at] == 0,
                !any_zero ==> forall|j: int| 0 <= j < i ==> shape@[j] >= 1,
            decreases shape@.len() - i,
        {
            if shape[i] < 0 {
                proof {
                    assert(shape@[i as int] < 0);
                    assert(shape@.contains(shape@[i as int]));
                    assert(!shape_ok(shape@));
                }
                return Err(TchError::NegativeDim { dim: shape[i] });
            }
            if shape[i] == 0 {
                any_zero = true;
                proof {
                    zero_at = i as int;
                }
            }
            i += 1;
        }
        if any_zero {
            proof {
                lemma_numel_zero(shape@, zero_at);
            }
            let s = clone_i64s(shape);
            let t = eng.push_buf(s, kind, device, Vec::new());
            proof {
                assert(Seq::new(numel_of(shape@) as nat, |_i: int| 0u64) =~= Seq::<u64>::empty());
            }
            return Ok(t);
        }
        let cap: u128 = if (usize::MAX as u128) < 0x7fff_ffff_ffff_ffffu128 {
            usize::MAX as u128
        } else {
            0x7fff_ffff_ffff_ffffu128
        };
        proof {
            assert(shape@.subrange(0, shape@.len() as int) =~= shape@);
        }
        let mut acc: u128 = 1;
        let mut i2: usize = 0;
        while i2 < shape.len()
            invariant
                eng@ == old(eng)@,
                eng_wf(eng@),
                supported_kind(kind),
                i2 <= shape@.len(),
                forall|j: int| 0 <= j < shape@.len() ==> shape@[j] >= 1,
                1 <= acc as int <= cap as int,
                cap as int == if usize::MAX <= 0x7fff_ffff_ffff_ffff { usize::MAX as int }
                    else { 0x7fff_ffff_ffff_ffffint },
                numel_of(shape@) == acc * numel_of(shape@.subrange(i2 as int, shape@.len() as int)),
            decreases shape@.len() - i2,
        {
            let d: i64 = shape[i2];
            let ghost tail = shape@.subrange(i2 as int, shape@.len() as int);
            let ghost tail2 = shape@.subrange(i2 as int + 1, shape@.len() as int);
            proof {
                assert(tail.drop_first() =~= tail2);
                assert(numel_of(tail) == d * numel_of(tail2));
                assert((acc as int) * ((d as int) * numel_of(tail2))
                    == ((acc as int) * (d as int)) * numel_of(tail2)) by (nonlinear_arith);
                assert((acc as int) * (d as int) <= 0x1_0000_0000_0000_0000int
                    * 0x8000_0000_0000_0000int) by (nonlinear_arith)
                    requires
                        0 <= acc as int <= 0x1_0000_0000_0000_0000int,
                        0 <= d as int <= 0x8000_0000_0000_0000int,
                ;
            }
            let next: u128 = acc * (d as u128);
            if next > cap {
                proof {
                    lemma_numel_pos(tail2);
                    assert(numel_of(shape@) >= next as int) by (nonlinear_arith)
                        requires
                            numel_of(shape@) == (next as int) * numel_of(tail2),
                            numel_of(tail2) >= 1,
                            next as int >= 0,
                    ;
                }
                return Err(TchError::TooLarge);
            }
            proof {
                lemma_numel_pos(tail2);
                assert(next as int >= 1) by (nonlinear_arith)
                    requires
                        acc as int >= 1,
                        d as int >= 1,
                        next as int == (acc as int) * (d as int),
                ;
            }
            acc = next;
            i2 += 1;
        }
        proof {
            assert(shape@.subrange(shape@.len() as int, shape@.len() as int)
                =~= Seq::<i64>::empty());
            assert(numel_of(shape@) == acc as int);
        }
        let n: usize = acc as usize;
        let mut data: Vec<u64> = Vec::new();
        while data.len() < n
            invariant
                eng@ == old(eng)@,
                eng_wf(eng@),
                data@.len() <= n,
                forall|j: int| 0 <= j < data@.len() ==> #[trigger] data@[j] == 0u64,
            decreases n - data@.len(),
        {
            data.push(0u64);
        }
        proof {
            assert(data@ =~= Seq::new(numel_of(shape@) as nat, |_i: int| 0u64));
        }
        let s = clone_i64s(shape);
        let t = eng.push_buf(s, kind, device, data);
        Ok(t)
    }

    /// Allocates an array of zero elements with the given shape, kind and
    /// device.
    pub fn zeros(eng: &mut Engine, shape: &Vec<i64>, kind: Kind, device: Device) -> (t: Tensor)
        requires
            eng_wf(old(eng)@),
            supported_kind(kind),
            shape_ok(shape@),
            numel_of(shape@) <= 0x7fff_ffff_ffff_ffff,
            numel_of(shape@) <= usize::MAX,
        ensures
            eng_wf(final(eng)@),
            pushed_result(old(eng)@, final(eng)@, zeros_buf(shape@, kind, device), t),
    {
        match Self::try_zeros(eng, shape, kind, device) {
            Ok(t) => t,
            Err(_) => unreached(),
        }
    }
}

} // verus!
