//! Index selection along dimension zero and random batching.

use vstd::prelude::*;
use vstd::pervasive::unreached;
use vstd::arithmetic::div_mod::lemma_fundamental_div_mod_converse;
use crate::kind::{Kind, elem_ok, sext, sext_exec};
use crate::engine::{Engine, Tensor, TchError, BufV, Device, buf_wf, eng_wf, numel_of, shape_ok,
    clone_i64s, lemma_numel_nonneg};
use crate::ops::{pushed_result, is_shape_mismatch};
use crate::marshal::row_numel;

verus! {

/// The slice of an array's data at index `i` along dimension zero.
pub open spec fn row_of(b: BufV, i: int) -> Seq<u64> {
    b.data.subrange(i * row_numel(b.shape), (i + 1) * row_numel(b.shape))
}

/// The buffer an index selection along dimension zero materializes on the
/// given device: row `x` of the result is row `idx[x]` of the source.
pub open spec fn select_buf(b: BufV, idx: Seq<i64>, device: Device) -> BufV {
    BufV {
        shape: seq![idx.len() as i64] + b.shape.drop_first(),
        kind: b.kind,
        device,
        data: Seq::new((idx.len() * row_numel(b.shape)) as nat,
            |x: int| b.data[idx[x / row_numel(b.shape)] * row_numel(b.shape)
                + x % row_numel(b.shape)]),
    }
}

/// Row `i` of an index selection is row `idx[i]` of the source.
pub proof fn lemma_select_row(b: BufV, idx: Seq<i64>, device: Device, i: int)
    requires
        buf_wf(b),
        b.shape.len() >= 1,
        0 <= i < idx.len(),
        forall|j: int| 0 <= j < idx.len() ==> 0 <= #[trigger] idx[j] < b.shape[0],
    ensures
        row_of(select_buf(b, idx, device), i) == row_of(b, idx[i] as int),
{
    let rl = row_numel(b.shape);
    assert(shape_ok(b.shape.drop_first()));
    lemma_numel_nonneg(b.shape.drop_first());
    let sel = select_buf(b, idx, device);
    assert(sel.shape.drop_first() =~= b.shape.drop_first());
    assert(row_numel(sel.shape) == rl);
    assert((i + 1) * rl <= idx.len() * rl) by (nonlinear_arith)
        requires
            i + 1 <= idx.len(),
            rl >= 0,
    ;
    assert(i * rl >= 0 && (i + 1) * rl == i * rl + rl) by (nonlinear_arith)
        requires
            i >= 0,
            rl >= 0,
    ;
    assert((idx[i] + 1) * rl <= b.shape[0] * rl) by (nonlinear_arith)
        requires
            idx[i] + 1 <= b.shape[0],
            rl >= 0,
    ;
    assert(idx[i] * rl >= 0 && (idx[i] + 1) * rl == idx[i] * rl + rl) by (nonlinear_arith)
        requires
            idx[i] >= 0,
            rl >= 0,
    ;
    assert(numel_of(b.shape) == b.shape[0] * rl);
    assert forall|l: int| 0 <= l < rl implies row_of(sel, i)[l] == row_of(b, idx[i] as int)[l] by {
        let x = i * rl + l;
        lemma_fundamental_div_mod_converse(x, rl, i, l);
        assert(sel.data[x] == b.data[idx[i] * rl + l]);
    }
    assert(row_of(sel, i) =~= row_of(b, idx[i] as int));
}

/// Relies on rand::random: some unsigned 64-bit value; nothing is assumed
/// about which one comes back.
#[verifier::external_body]
fn random_u64() -> u64 {
    rand::random::<u64>()
}

/// Gathers the rows named by `idx` into a new buffer on `device`.
fn gather0(eng: &mut Engine, src: &Tensor, idx: &Vec<i64>, device: Device) -> (t: Tensor)
    requires
        src.ok_in(old(eng)@),
        eng_wf(old(eng)@),
        src.buf_in(old(eng)@).shape.len() >= 1,
        src.buf_in(old(eng)@).shape[0] <= usize::MAX,
        forall|j: int| 0 <= j < idx@.len()
            ==> 0 <= #[trigger] idx@[j] < src.buf_in(old(eng)@).shape[0],
        idx@.len() * row_numel(src.buf_in(old(eng)@).shape) <= 0x7fff_ffff_ffff_ffff,
        idx@.len() * row_numel(src.buf_in(old(eng)@).shape) <= usize::MAX,
        idx@.len() <= 0x7fff_ffff_ffff_ffff,
    ensures
        eng_wf(final(eng)@),
        pushed_result(old(eng)@, final(eng)@,
            select_buf(src.buf_in(old(eng)@), idx@, device), t),
{
    proof {
        assert(buf_wf(src.buf_in(eng@)));
        assert(shape_ok(src.buf_in(eng@).shape.drop_first()));
        lemma_numel_nonneg(src.buf_in(eng@).shape.drop_first());
    }
    let ghost b = src.buf_in(eng@);
    let ghost rl_g = row_numel(b.shape);
    let d0: i64 = eng.buf_shape(src)[0];
    let xs = eng.buf_data(src);
    let total: usize = xs.len();
    let n = idx.len();
    let rl: usize = if d0 == 0 { 0 } else { xs.len() / (d0 as usize) };
    proof {
        assert(numel_of(b.shape) == b.shape[0] * rl_g);
        if d0 == 0 {
            if idx@.len() > 0 {
                assert(0 <= idx@[0] < b.shape[0]);
            }
            assert(idx@.len() == 0);
        } else {
            vstd::arithmetic::div_mod::lemma_div_multiples_vanish(rl_g, d0 as int);
            assert(rl as int == rl_g);
        }
    }
    let mut data: Vec<u64> = Vec::new();
    let mut i: usize = 0;
    while i < n
        invariant
            eng@ == old(eng)@,
            eng_wf(eng@),
            src.ok_in(eng@),
            b == src.buf_in(eng@),
            xs@ == b.data,
            buf_wf(b),
            b.shape.len() >= 1,
            d0 as int == b.shape[0],
            d0 as int <= usize::MAX,
            total == b.data.len(),
            n > 0 ==> rl as int == rl_g,
            rl_g >= 0,
            numel_of(b.shape) == b.shape[0] * rl_g,
            n == idx@.len(),
            n * rl_g <= usize::MAX,
            forall|j: int| 0 <= j < n ==> 0 <= #[trigger] idx@[j] < b.shape[0],
            i <= n,
            data@.len() == i * rl_g,
            forall|x: int| 0 <= x < data@.len() ==> #[trigger] data@[x]
                == b.data[idx@[x / rl_g] * rl_g + x % rl_g],
            forall|x: int| 0 <= x < data@.len() ==> elem_ok(b.kind, #[trigger] data@[x]),
        decreases n - i,
    {
        let j: i64 = idx[i];
        proof {
            assert((i + 1) * rl_g <= n * rl_g) by (nonlinear_arith)
                requires
                    i + 1 <= n,
                    rl_g >= 0,
            ;
            assert((i + 1) * rl_g == i * rl_g + rl_g) by (nonlinear_arith);
            assert((j + 1) * rl_g <= b.shape[0] * rl_g) by (nonlinear_arith)
                requires
                    j + 1 <= b.shape[0],
                    rl_g >= 0,
            ;
            assert(j * rl_g >= 0 && (j + 1) * rl_g == j * rl_g + rl_g) by (nonlinear_arith)
                requires
                    j >= 0,
                    rl_g >= 0,
            ;
            assert(b.shape[0] * rl_g == b.data.len());
            assert((j as usize) as int * (rl as int) + rl as int <= total as int);
        }
        let base: usize = (j as usize) * rl;
        let mut l: usize = 0;
        while l < rl
            invariant
                eng@ == old(eng)@,
                eng_wf(eng@),
                src.ok_in(eng@),
                b == src.buf_in(eng@),
                xs@ == b.data,
                buf_wf(b),
                b.shape.len() >= 1,
                rl as int == rl_g,
                rl_g >= 0,
                i < n,
                n == idx@.len(),
                j == idx@[i as int],
                0 <= j as int,
                base == (j as int) * rl_g,
                total == b.data.len(),
                base + rl <= total,
                i * rl_g + rl_g <= n * rl_g,
                n * rl_g <= usize::MAX,
                forall|y: int| 0 <= y < n ==> 0 <= #[trigger] idx@[y] < b.shape[0],
                l <= rl,
                data@.len() == i * rl_g + l,
                forall|x: int| 0 <= x < data@.len() ==> #[trigger] data@[x]
                    == b.data[idx@[x / rl_g] * rl_g + x % rl_g],
                forall|x: int| 0 <= x < data@.len() ==> elem_ok(b.kind, #[trigger] data@[x]),
            decreases rl - l,
        {
            proof {
                lemma_fundamental_div_mod_converse((i * rl_g + l) as int, rl_g,
                    i as int, l as int);
            }
            data.push(xs[base + l]);
            l += 1;
        }
        i += 1;
    }
    let mut shape: Vec<i64> = Vec::new();
    shape.push(n as i64);
    let src_shape = eng.buf_shape(src);
    let mut k: usize = 1;
    while k < src_shape.len()
        invariant
            eng@ == old(eng)@,
            src.ok_in(eng@),
            src_shape@ == src.buf_in(eng@).shape,
            src_shape@.len() >= 1,
            1 <= k <= src_shape@.len(),
            shape@.len() == k,
            shape@[0] == n as i64,
            forall|y: int| 1 <= y < k ==> #[trigger] shape@[y] == src_shape@[y],
        decreases src_shape@.len() - k,
    {
        shape.push(src_shape[k]);
        k += 1;
    }
    let kind = eng.buf_kind(src);
    let ghost sel = select_buf(b, idx@, device);
    proof {
        assert(shape@ =~= seq![n as i64] + b.shape.drop_first());
        assert(data@ =~= sel.data);
        assert(shape@.drop_first() =~= b.shape.drop_first());
        assert(numel_of(shape@) == n as int * rl_g);
        lemma_numel_nonneg(b.shape.drop_first());
        assert(shape_ok(shape@));
    }
    eng.push_buf(shape, kind, device, data)
}

impl Tensor {
    /// An array of `n` random indices drawn uniformly (with replacement)
    /// below `high`, of kind `Int64` on the host device; which indices come
    /// back is not specified.
    pub fn randint(eng: &mut Engine, high: i64, n: i64) -> (t: Tensor)
        requires
            eng_wf(old(eng)@),
            high >= 1,
            0 <= n <= usize::MAX,
        ensures
            eng_wf(final(eng)@),
            ({
                let nb = final(eng)@[old(eng)@.len() as int];
                &&& final(eng)@ == old(eng)@.push(nb)
                &&& t.loc() == old(eng)@.len()
                &&& nb.shape == seq![n]
                &&& nb.kind == Kind::Int64
                &&& nb.device == Device::Cpu
                &&& forall|i: int| 0 <= i < nb.data.len()
                    ==> #[trigger] nb.data[i] < high as u64
            }),
    {
        let count = n as usize;
        let mut data: Vec<u64> = Vec::new();
        let mut i: usize = 0;
        while i < count
            invariant
                eng@ == old(eng)@,
                high >= 1,
                i <= count,
                data@.len() == i,
                forall|x: int| 0 <= x < i ==> #[trigger] data@[x] < high as u64,
            decreases count - i,
        {
            let raw = random_u64();
            data.push(raw % (high as u64));
            i += 1;
        }
        let mut shape: Vec<i64> = Vec::new();
        shape.push(n);
        proof {
            assert(shape@ =~= seq![n]);
            assert(shape@.drop_first() =~= Seq::<i64>::empty());
            assert(numel_of(Seq::<i64>::empty()) == 1);
            assert(numel_of(shape@) == n as int);
        }
        eng.push_buf(shape, Kind::Int64, Device::Cpu, data)
    }

    /// Selects the rows of the array named by an `Int64` index array along
    /// dimension zero (the only dimension this engine selects along).
    pub fn index_select(&self, eng: &mut Engine, index: &Tensor) -> (t: Tensor)
        requires
            self.ok_in(old(eng)@),
            index.ok_in(old(eng)@),
            eng_wf(old(eng)@),
            self.buf_in(old(eng)@).shape.len() >= 1,
            self.buf_in(old(eng)@).shape[0] <= usize::MAX,
            index.buf_in(old(eng)@).kind == Kind::Int64,
            forall|j: int| 0 <= j < index.buf_in(old(eng)@).data.len()
                ==> 0 <= sext(Kind::Int64, #[trigger] index.buf_in(old(eng)@).data[j])
                    < self.buf_in(old(eng)@).shape[0],
            index.buf_in(old(eng)@).data.len() * row_numel(self.buf_in(old(eng)@).shape)
                <= 0x7fff_ffff_ffff_ffff,
            index.buf_in(old(eng)@).data.len() * row_numel(self.buf_in(old(eng)@).shape)
                <= usize::MAX,
        ensures
            eng_wf(final(eng)@),
            pushed_result(old(eng)@, final(eng)@, select_buf(self.buf_in(old(eng)@),
                index.buf_in(old(eng)@).data.map(
                    |_x: int, e: u64| sext(Kind::Int64, e) as i64), self.buf_in(old(eng)@).device),
                t),
    {
        proof {
            assert(buf_wf(index.buf_in(eng@)));
            assert(buf_wf(self.buf_in(eng@)));
        }
        let raw = eng.buf_data(index);
        let mut idx: Vec<i64> = Vec::new();
        let mut i: usize = 0;
        while i < raw.len()
            invariant
                eng@ == old(eng)@,
                eng_wf(eng@),
                index.ok_in(eng@),
                raw@ == index.buf_in(eng@).data,
                index.buf_in(eng@).kind == Kind::Int64,
                forall|j: int| 0 <= j < raw@.len()
                    ==> elem_ok(Kind::Int64, #[trigger] raw@[j]),
                i <= raw@.len(),
                idx@.len() == i,
                forall|j: int| 0 <= j < i
                    ==> #[trigger] idx@[j] == sext(Kind::Int64, raw@[j]) as i64,
            decreases raw@.len() - i,
        {
            let v = sext_exec(Kind::Int64, raw[i]);
            idx.push(v as i64);
            i += 1;
        }
        let device = eng.buf_device(self);
        proof {
            assert(idx@ =~= index.buf_in(eng@).data.map(
                |_x: int, e: u64| sext(Kind::Int64, e) as i64));
        }
        gather0(eng, self, &idx, device)
    }

    /// A batch of `batch_size` rows of the array, drawn uniformly with
    /// replacement from its leading dimension: some sequence of in-range
    /// row indices selects the result.
    pub fn random_batch(&self, eng: &mut Engine, batch_size: i64) -> (t: Tensor)
        requires
            self.ok_in(old(eng)@),
            eng_wf(old(eng)@),
            self.buf_in(old(eng)@).shape.len() >= 1,
            1 <= self.buf_in(old(eng)@).shape[0] <= usize::MAX,
            0 <= batch_size <= usize::MAX,
            batch_size * row_numel(self.buf_in(old(eng)@).shape) <= 0x7fff_ffff_ffff_ffff,
            batch_size * row_numel(self.buf_in(old(eng)@).shape) <= usize::MAX,
        ensures
            eng_wf(final(eng)@),
            exists|idx: Seq<i64>|
                idx.len() == batch_size
                && (forall|j: int| 0 <= j < idx.len()
                    ==> 0 <= #[trigger] idx[j] < self.buf_in(old(eng)@).shape[0])
                && pushed_result(old(eng)@, final(eng)@,
                    select_buf(self.buf_in(old(eng)@), idx,
                        self.buf_in(old(eng)@).device), t),
    {
        proof {
            assert(buf_wf(self.buf_in(eng@)));
        }
        let d0: i64 = eng.buf_shape(self)[0];
        let idx = draw_indices(d0, batch_size as usize);
        let device = eng.buf_device(self);
        gather0(eng, self, &idx, device)
    }

    /// Draws one batch of rows from each of two arrays, aligned by index:
    /// row `i` of both results comes from the same source row, and both are
    /// placed on the requested device (fallible form). Fails, reporting the
    /// two shapes, exactly when the leading dimensions differ.
    pub fn try_random_batch2(t1: &Tensor, t2: &Tensor, eng: &mut Engine, batch_size: i64,
        device: Device) -> (r: Result<(Tensor, Tensor), TchError>)
        requires
            t1.ok_in(old(eng)@),
            t2.ok_in(old(eng)@),
            eng_wf(old(eng)@),
            t1.buf_in(old(eng)@).shape.len() >= 1,
            t2.buf_in(old(eng)@).shape.len() >= 1,
            t1.buf_in(old(eng)@).shape[0] <= usize::MAX,
            t2.buf_in(old(eng)@).shape[0] <= usize::MAX,
            t1.buf_in(old(eng)@).shape[0] == t2.buf_in(old(eng)@).shape[0]
                ==> t1.buf_in(old(eng)@).shape[0] >= 1,
            0 <= batch_size <= usize::MAX,
            batch_size * row_numel(t1.buf_in(old(eng)@).shape) <= 0x7fff_ffff_ffff_ffff,
            batch_size * row_numel(t1.buf_in(old(eng)@).shape) <= usize::MAX,
            batch_size * row_numel(t2.buf_in(old(eng)@).shape) <= 0x7fff_ffff_ffff_ffff,
            batch_size * row_numel(t2.buf_in(old(eng)@).shape) <= usize::MAX,
        ensures
            eng_wf(final(eng)@),
            ({
                let b1 = t1.buf_in(old(eng)@);
                let b2 = t2.buf_in(old(eng)@);
                if b1.shape[0] != b2.shape[0] {
                    final(eng)@ == old(eng)@ && (r matches Err(e)
                        && is_shape_mismatch(e, b1.shape, b2.shape))
                } else {
                    r matches Ok(p) && exists|idx: Seq<i64>|
                        idx.len() == batch_size
                        && (forall|j: int| 0 <= j < idx.len()
                            ==> 0 <= #[trigger] idx[j] < b1.shape[0])
                        && final(eng)@ == old(eng)@.push(select_buf(b1, idx, device)).push(
                            select_buf(b2, idx, device))
                        && p.0.loc() == old(eng)@.len()
                        && p.1.loc() == old(eng)@.len() + 1
                }
            }),
    {
        proof {
            assert(buf_wf(t1.buf_in(eng@)));
            assert(buf_wf(t2.buf_in(eng@)));
        }
        let len1: i64 = eng.buf_shape(t1)[0];
        let len2: i64 = eng.buf_shape(t2)[0];
        if len1 != len2 {
            let left = clone_i64s(eng.buf_shape(t1));
            let right = clone_i64s(eng.buf_shape(t2));
            return Err(TchError::ShapeMismatch { left, right });
        }
        let idx = draw_indices(len1, batch_size as usize);
        let batch1 = gather0(eng, t1, &idx, device);
        let batch2 = gather0(eng, t2, &idx, device);
        Ok((batch1, batch2))
    }

    /// Draws one batch of rows from each of two arrays, aligned by index.
    pub fn random_batch2(t1: &Tensor, t2: &Tensor, eng: &mut Engine, batch_size: i64,
        device: Device) -> (r: (Tensor, Tensor))
        requires
            t1.ok_in(old(eng)@),
            t2.ok_in(old(eng)@),
            eng_wf(old(eng)@),
            t1.buf_in(old(eng)@).shape.len() >= 1,
            t2.buf_in(old(eng)@).shape.len() >= 1,
            t1.buf_in(old(eng)@).shape[0] <= usize::MAX,
            t2.buf_in(old(eng)@).shape[0] <= usize::MAX,
            t1.buf_in(old(eng)@).shape[0] == t2.buf_in(old(eng)@).shape[0],
            t1.buf_in(old(eng)@).shape[0] >= 1,
            0 <= batch_size <= usize::MAX,
            batch_size * row_numel(t1.buf_in(old(eng)@).shape) <= 0x7fff_ffff_ffff_ffff,
            batch_size * row_numel(t1.buf_in(old(eng)@).shape) <= usize::MAX,
            batch_size * row_numel(t2.buf_in(old(eng)@).shape) <= 0x7fff_ffff_ffff_ffff,
            batch_size * row_numel(t2.buf_in(old(eng)@).shape) <= usize::MAX,
        ensures
            eng_wf(final(eng)@),
            exists|idx: Seq<i64>|
                idx.len() == batch_size
                && (forall|j: int| 0 <= j < idx.len()
                    ==> 0 <= #[trigger] idx[j] < t1.buf_in(old(eng)@).shape[0])
                && final(eng)@ == old(eng)@.push(select_buf(t1.buf_in(old(eng)@), idx,
                    device)).push(select_buf(t2.buf_in(old(eng)@), idx, device))
                && r.0.loc() == old(eng)@.len()
                && r.1.loc() == old(eng)@.len() + 1,
    {
        match Self::try_random_batch2(t1, t2, eng, batch_size, device) {
            Ok(p) => p,
            Err(_) => unreached(),
        }
    }
}

/// Draws `count` uniformly random indices below `high`, with replacement.
fn draw_indices(high: i64, count: usize) -> (idx: Vec<i64>)
    requires
        high >= 1,
    ensures
        idx@.len() == count,
        forall|j: int| 0 <= j < count ==> 0 <= #[trigger] idx@[j] < high,
{
    let mut idx: Vec<i64> = Vec::new();
    let mut i: usize = 0;
    while i < count
        invariant
            high >= 1,
            i <= count,
            idx@.len() == i,
            forall|j: int| 0 <= j < i ==> 0 <= #[trigger] idx@[j] < high,
        decreases count - i,
    {
        let raw = random_u64();
        let v = raw % (high as u64);
        idx.push(v as i64);
        i += 1;
    }
    idx
}

} // verus!
