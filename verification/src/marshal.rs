//! Shape-driven marshaling between arrays and nested host vectors.
//!
//! One generic recursive algorithm, instantiated per supported element
//! kind through the [`HostElem`] descriptor: a host scalar type bound to a
//! kind tag together with its bit-pattern conversions.  Extraction casts
//! the array to the requested kind and folds the flat buffer into nested
//! vectors by the array's shape (dimension zero outermost); construction
//! flattens a rectangular nested sequence and materializes a new array of
//! the corresponding shape.

use vstd::prelude::*;
use vstd::pervasive::unreached;
use vstd::arithmetic::div_mod::{lemma_fundamental_div_mod_converse, lemma_div_multiples_vanish,
    lemma_mod_multiples_vanish, lemma_small_mod};
use crate::kind::{Kind, elem_ok, supported_kind, cast_elem, cast_elem_exec, wrap, sext,
    wrap_i128_exec, sext_exec, lemma_wrap_sext, lemma_sext_wrap, lemma_cast_same};
use crate::engine::{Engine, Tensor, TchError, BufV, Device, buf_wf, eng_wf, numel_of, shape_ok,
    clone_i64s};
use crate::ops::pushed_result;
use crate::transform::cast_data;

verus! {

/// A host scalar type bound to an element kind: the descriptor the generic
/// marshaling algorithm is instantiated with.
pub trait HostElem: Copy + Sized {
    /// The element kind this host type marshals.
    spec fn kind_spec() -> Kind;

    /// The element bit pattern of this host value.
    spec fn bits_spec(self) -> u64;

    /// The host value of an element bit pattern.
    spec fn of_bits_spec(b: u64) -> Self;

    /// The kind is one the engine materializes.
    proof fn lemma_kind_supported()
        ensures
            supported_kind(Self::kind_spec()),
    ;

    /// Every host value's bit pattern is valid for the kind, and the two
    /// conversions invert each other.
    proof fn lemma_round_trip(v: Self, b: u64)
        ensures
            elem_ok(Self::kind_spec(), v.bits_spec()),
            Self::of_bits_spec(v.bits_spec()) == v,
            elem_ok(Self::kind_spec(), b) ==> Self::of_bits_spec(b).bits_spec() == b,
    ;

    fn kind_of() -> (k: Kind)
        ensures
            k == Self::kind_spec(),
    ;

    fn to_bits(self) -> (b: u64)
        ensures
            b == self.bits_spec(),
    ;

    fn of_bits(b: u64) -> (v: Self)
        requires
            elem_ok(Self::kind_spec(), b),
        ensures
            v == Self::of_bits_spec(b),
    ;
}

impl HostElem for u8 {
    open spec fn kind_spec() -> Kind {
        Kind::Uint8
    }

    open spec fn bits_spec(self) -> u64 {
        self as u64
    }

    open spec fn of_bits_spec(b: u64) -> u8 {
        b as u8
    }

    proof fn lemma_kind_supported() {
    }

    proof fn lemma_round_trip(v: Self, b: u64) {
    }

    fn kind_of() -> Kind {
        Kind::Uint8
    }

    fn to_bits(self) -> u64 {
        self as u64
    }

    fn of_bits(b: u64) -> u8 {
        b as u8
    }
}

impl HostElem for i8 {
    open spec fn kind_spec() -> Kind {
        Kind::Int8
    }

    open spec fn bits_spec(self) -> u64 {
        wrap(Kind::Int8, self as int)
    }

    open spec fn of_bits_spec(b: u64) -> i8 {
        sext(Kind::Int8, b) as i8
    }

    proof fn lemma_kind_supported() {
    }

    proof fn lemma_round_trip(v: Self, b: u64) {
        lemma_sext_wrap(Kind::Int8, v as int);
        if elem_ok(Kind::Int8, b) {
            lemma_wrap_sext(Kind::Int8, b);
        }
    }

    fn kind_of() -> Kind {
        Kind::Int8
    }

    fn to_bits(self) -> (b: u64) {
        wrap_i128_exec(Kind::Int8, self as i128)
    }

    fn of_bits(b: u64) -> (v: i8) {
        let s = sext_exec(Kind::Int8, b);
        s as i8
    }
}

impl HostElem for i32 {
    open spec fn kind_spec() -> Kind {
        Kind::Int
    }

    open spec fn bits_spec(self) -> u64 {
        wrap(Kind::Int, self as int)
    }

    open spec fn of_bits_spec(b: u64) -> i32 {
        sext(Kind::Int, b) as i32
    }

    proof fn lemma_kind_supported() {
    }

    proof fn lemma_round_trip(v: Self, b: u64) {
        lemma_sext_wrap(Kind::Int, v as int);
        if elem_ok(Kind::Int, b) {
            lemma_wrap_sext(Kind::Int, b);
        }
    }

    fn kind_of() -> Kind {
        Kind::Int
    }

    fn to_bits(self) -> (b: u64) {
        wrap_i128_exec(Kind::Int, self as i128)
    }

    fn of_bits(b: u64) -> (v: i32) {
        let s = sext_exec(Kind::Int, b);
        s as i32
    }
}

impl HostElem for i64 {
    open spec fn kind_spec() -> Kind {
        Kind::Int64
    }

    open spec fn bits_spec(self) -> u64 {
        wrap(Kind::Int64, self as int)
    }

    open spec fn of_bits_spec(b: u64) -> i64 {
        sext(Kind::Int64, b) as i64
    }

    proof fn lemma_kind_supported() {
    }

    proof fn lemma_round_trip(v: Self, b: u64) {
        lemma_sext_wrap(Kind::Int64, v as int);
        if elem_ok(Kind::Int64, b) {
            lemma_wrap_sext(Kind::Int64, b);
        }
    }

    fn kind_of() -> Kind {
        Kind::Int64
    }

    fn to_bits(self) -> (b: u64) {
        wrap_i128_exec(Kind::Int64, self as i128)
    }

    fn of_bits(b: u64) -> (v: i64) {
        let s = sext_exec(Kind::Int64, b);
        s as i64
    }
}

/// Host carrier of `Float` elements: the IEEE binary32 bit pattern.
impl HostElem for u32 {
    open spec fn kind_spec() -> Kind {
        Kind::Float
    }

    open spec fn bits_spec(self) -> u64 {
        self as u64
    }

    open spec fn of_bits_spec(b: u64) -> u32 {
        b as u32
    }

    proof fn lemma_kind_supported() {
    }

    proof fn lemma_round_trip(v: Self, b: u64) {
    }

    fn kind_of() -> Kind {
        Kind::Float
    }

    fn to_bits(self) -> u64 {
        self as u64
    }

    fn of_bits(b: u64) -> u32 {
        b as u32
    }
}

/// Host carrier of `Double` elements: the IEEE binary64 bit pattern.
impl HostElem for u64 {
    open spec fn kind_spec() -> Kind {
        Kind::Double
    }

    open spec fn bits_spec(self) -> u64 {
        self
    }

    open spec fn of_bits_spec(b: u64) -> u64 {
        b
    }

    proof fn lemma_kind_supported() {
    }

    proof fn lemma_round_trip(v: Self, b: u64) {
    }

    fn kind_of() -> Kind {
        Kind::Double
    }

    fn to_bits(self) -> u64 {
        self
    }

    fn of_bits(b: u64) -> u64 {
        b
    }
}

/// The host values of a run of element bit patterns.
pub open spec fn data_to_host<T: HostElem>(d: Seq<u64>) -> Seq<T> {
    d.map(|_i: int, b: u64| T::of_bits_spec(b))
}

/// The element bit patterns of a run of host values.
pub open spec fn host_to_data<T: HostElem>(s: Seq<T>) -> Seq<u64> {
    s.map(|_i: int, v: T| v.bits_spec())
}

/// The flat host image of a whole array: its data cast to `T`'s kind and
/// read as host values, dimension zero outermost.
pub open spec fn host_flat<T: HostElem>(b: BufV) -> Seq<T> {
    data_to_host::<T>(cast_data(b.kind, T::kind_spec(), b.data))
}

/// How many elements one slice along dimension zero holds.
pub open spec fn row_numel(shape: Seq<i64>) -> int {
    numel_of(shape.drop_first())
}

impl Tensor {
    /// The whole array as one flat host vector of `T`, cast to `T`'s kind;
    /// arrays of every rank flatten, dimension zero outermost.
    pub fn to_vec<T: HostElem>(&self, eng: &Engine) -> (r: Vec<T>)
        requires
            self.ok_in(eng@),
            eng_wf(eng@),
        ensures
            r@ == host_flat::<T>(self.buf_in(eng@)),
    {
        proof {
            assert(buf_wf(self.buf_in(eng@)));
            T::lemma_kind_supported();
        }
        let from = eng.buf_kind(self);
        let to = T::kind_of();
        let xs = eng.buf_data(self);
        let mut out: Vec<T> = Vec::new();
        let mut i: usize = 0;
        while i < xs.len()
            invariant
                i <= xs@.len(),
                supported_kind(from),
                supported_kind(to),
                to == T::kind_spec(),
                forall|j: int| 0 <= j < xs@.len() ==> elem_ok(from, #[trigger] xs@[j]),
                out@.len() == i,
                forall|j: int| 0 <= j < i
                    ==> #[trigger] out@[j] == T::of_bits_spec(cast_elem(from, to, xs@[j])),
            decreases xs@.len() - i,
        {
            let cb = cast_elem_exec(from, to, xs[i]);
            out.push(T::of_bits(cb));
            i += 1;
        }
        proof {
            assert(out@ =~= host_flat::<T>(self.buf_in(eng@)));
        }
        out
    }

    /// The array as a vector of rows: entry `i` is the flat host image of
    /// the slice at index `i` along dimension zero.
    pub fn to_vec2<T: HostElem>(&self, eng: &Engine) -> (r: Vec<Vec<T>>)
        requires
            self.ok_in(eng@),
            eng_wf(eng@),
            self.buf_in(eng@).shape.len() >= 1,
            self.buf_in(eng@).shape[0] <= usize::MAX,
        ensures
            r@.len() == self.buf_in(eng@).shape[0],
            forall|i: int| 0 <= i < r@.len() ==> #[trigger] r@[i]@ == host_flat::<T>(
                self.buf_in(eng@)).subrange(i * row_numel(self.buf_in(eng@).shape),
                (i + 1) * row_numel(self.buf_in(eng@).shape)),
    {
        proof {
            assert(buf_wf(self.buf_in(eng@)));
        }
        let flat = self.to_vec::<T>(eng);
        let d0: i64 = eng.buf_shape(self)[0];
        let ghost b = self.buf_in(eng@);
        proof {
            assert(numel_of(b.shape) == b.shape[0] * row_numel(b.shape));
        }
        if d0 == 0 {
            let empty: Vec<Vec<T>> = Vec::new();
            return empty;
        }
        let rl: usize = flat.len() / (d0 as usize);
        proof {
            lemma_div_multiples_vanish(row_numel(b.shape), d0 as int);
            assert(flat@.len() == d0 as int * row_numel(b.shape));
            assert(rl as int == row_numel(b.shape));
        }
        chunk_rows(&flat, d0 as usize, rl)
    }

    /// The array as a vector of vectors of rows, splitting along the two
    /// leading dimensions.
    pub fn to_vec3<T: HostElem>(&self, eng: &Engine) -> (r: Vec<Vec<Vec<T>>>)
        requires
            self.ok_in(eng@),
            eng_wf(eng@),
            self.buf_in(eng@).shape.len() >= 2,
            self.buf_in(eng@).shape[0] <= usize::MAX,
            self.buf_in(eng@).shape[1] <= usize::MAX,
        ensures
            r@.len() == self.buf_in(eng@).shape[0],
            forall|i: int| 0 <= i < r@.len()
                ==> #[trigger] r@[i]@.len() == self.buf_in(eng@).shape[1],
            forall|i: int, j: int| 0 <= i < r@.len() && 0 <= j < self.buf_in(eng@).shape[1]
                ==> #[trigger] r@[i]@[j]@ == host_flat::<T>(self.buf_in(eng@)).subrange(
                    (i * self.buf_in(eng@).shape[1] + j) * row_numel(
                        self.buf_in(eng@).shape.drop_first()),
                    (i * self.buf_in(eng@).shape[1] + j + 1) * row_numel(
                        self.buf_in(eng@).shape.drop_first())),
    {
        proof {
            assert(buf_wf(self.buf_in(eng@)));
        }
        let flat = self.to_vec::<T>(eng);
        let d0: i64 = eng.buf_shape(self)[0];
        let d1: i64 = eng.buf_shape(self)[1];
        let ghost b = self.buf_in(eng@);
        let ghost rl2 = row_numel(b.shape.drop_first());
        proof {
            assert(shape_ok(b.shape.drop_first()));
            assert(shape_ok(b.shape.drop_first().drop_first()));
            crate::engine::lemma_numel_nonneg(b.shape.drop_first().drop_first());
            crate::engine::lemma_numel_nonneg(b.shape.drop_first());
            assert(rl2 >= 0);
            assert(numel_of(b.shape) == b.shape[0] * numel_of(b.shape.drop_first()));
            assert(numel_of(b.shape.drop_first()) == b.shape[1] * rl2);
        }
        let mut out: Vec<Vec<Vec<T>>> = Vec::new();
        if d0 == 0 {
            return out;
        }
        let mid: usize = flat.len() / (d0 as usize);
        proof {
            lemma_div_multiples_vanish(numel_of(b.shape.drop_first()), d0 as int);
            assert(flat@.len() == d0 as int * numel_of(b.shape.drop_first()));
            assert(mid as int == numel_of(b.shape.drop_first()));
        }
        let rl: usize = if d1 == 0 { 0 } else { mid / (d1 as usize) };
        proof {
            if d1 != 0 {
                lemma_div_multiples_vanish(rl2, d1 as int);
                assert(mid as int == d1 as int * rl2);
                assert(rl as int == rl2);
            } else {
                assert(d1 as int == b.shape[1]);
                assert(numel_of(b.shape.drop_first()) == b.shape[1] * rl2);
                assert(b.shape[1] * rl2 == 0) by (nonlinear_arith)
                    requires
                        b.shape[1] == 0,
                ;
                assert(mid as int == 0);
            }
        }
        let rows = chunk_rows(&flat, d0 as usize, mid);
        proof {
            assert(host_flat::<T>(b).len() == b.data.len());
            assert(host_flat::<T>(b).len() == d0 as int * mid as int) by (nonlinear_arith)
                requires
                    host_flat::<T>(b).len() == d0 as int * numel_of(b.shape.drop_first()),
                    mid as int == numel_of(b.shape.drop_first()),
            ;
        }
        let mut i: usize = 0;
        while i < rows.len()
            invariant
                i <= rows@.len(),
                rows@.len() == d0 as int,
                b.shape.len() >= 2,
                d0 >= 1,
                d1 >= 0,
                d1 as int <= usize::MAX,
                d1 as int == b.shape[1],
                rl2 >= 0,
                d1 != 0 ==> rl as int == rl2,
                d1 == 0 ==> rl as int == 0,
                mid as int == d1 as int * rl2,
                host_flat::<T>(b).len() == d0 as int * mid as int,
                forall|x: int| 0 <= x < rows@.len() ==> #[trigger] rows@[x]@
                    == host_flat::<T>(b).subrange(x * mid as int, (x + 1) * mid as int),
                out@.len() == i,
                forall|x: int, y: int| 0 <= x < i && 0 <= y < d1 as int
                    ==> #[trigger] out@[x]@[y]@ == host_flat::<T>(b).subrange(
                        (x * d1 + y) * rl2, (x * d1 + y + 1) * rl2),
                forall|x: int| 0 <= x < i ==> #[trigger] out@[x]@.len() == d1 as int,
            decreases rows@.len() - i,
        {
            let row = &rows[i];
            proof {
                assert(row@ == host_flat::<T>(b).subrange(i * mid as int,
                    (i + 1) * mid as int));
                assert(i * (mid as int) >= 0) by (nonlinear_arith)
                    requires
                        i >= 0,
                        mid as int >= 0,
                ;
                assert((i + 1) * (mid as int) <= d0 as int * mid as int) by (nonlinear_arith)
                    requires
                        i + 1 <= d0 as int,
                        mid as int >= 0,
                ;
                assert((i + 1) * (mid as int) == i * (mid as int) + mid as int)
                    by (nonlinear_arith);
                assert(row@.len() == mid as int);
                if d1 == 0 {
                    assert(mid as int == d1 as int * rl2);
                    assert(mid as int == 0) by (nonlinear_arith)
                        requires
                            mid as int == d1 as int * rl2,
                            d1 as int == 0,
                    ;
                    assert(mid as int == (d1 as usize) * (rl as int));
                } else {
                    assert((d1 as usize) * (rl as int) == d1 as int * rl2)
                        by (nonlinear_arith)
                        requires
                            (d1 as usize) as int == d1 as int,
                            rl as int == rl2,
                    ;
                    assert(mid as int == (d1 as usize) * (rl as int));
                }
            }
            let inner = chunk_rows(row, d1 as usize, rl);
            proof {
                assert forall|y: int| 0 <= y < d1 as int implies #[trigger] inner@[y]@
                    == host_flat::<T>(b).subrange((i * d1 + y) * rl2,
                    (i * d1 + y + 1) * rl2) by {
                    assert(inner@[y]@ == row@.subrange(y * rl as int, (y + 1) * rl as int));
                    assert((i * d1 + y) * rl2 == i * (mid as int) + y * rl2)
                        by (nonlinear_arith)
                        requires
                            mid as int == d1 as int * rl2,
                    ;
                    assert((i * d1 + y + 1) * rl2 == i * (mid as int) + (y + 1) * rl2)
                        by (nonlinear_arith)
                        requires
                            mid as int == d1 as int * rl2,
                    ;
                    assert(y * rl2 >= 0) by (nonlinear_arith)
                        requires
                            y >= 0,
                            rl2 >= 0,
                    ;
                    assert((y + 1) * rl2 <= mid as int) by (nonlinear_arith)
                        requires
                            mid as int == d1 as int * rl2,
                            y + 1 <= d1 as int,
                            rl2 >= 0,
                    ;
                    assert(y * rl2 <= (y + 1) * rl2) by (nonlinear_arith)
                        requires
                            rl2 >= 0,
                    ;
                    if d1 != 0 {
                        assert(row@.subrange(y * rl as int, (y + 1) * rl as int)
                            =~= host_flat::<T>(b).subrange(i * mid as int + y * rl2,
                            i * mid as int + (y + 1) * rl2));
                    }
                }
            }
            out.push(inner);
            i += 1;
        }
        out
    }

    /// Extracts the single element of a one-element array as a host scalar
    /// (fallible form): fails, reporting the actual element count, exactly
    /// when the array holds any other number of elements.
    pub fn try_to_scalar<T: HostElem>(&self, eng: &Engine) -> (r: Result<T, TchError>)
        requires
            self.ok_in(eng@),
            eng_wf(eng@),
        ensures
            if self.buf_in(eng@).data.len() == 1 {
                r matches Ok(v) && v == host_flat::<T>(self.buf_in(eng@))[0]
            } else {
                r matches Err(e) && (e matches TchError::ScalarCount { numel }
                    && numel == self.buf_in(eng@).data.len())
            },
    {
        proof {
            assert(buf_wf(self.buf_in(eng@)));
        }
        let n = self.numel(eng);
        if n != 1 {
            return Err(TchError::ScalarCount { numel: n });
        }
        let v = self.to_vec::<T>(eng);
        Ok(v[0])
    }

    /// Extracts the single element of a one-element array as a host scalar.
    pub fn to_scalar<T: HostElem>(&self, eng: &Engine) -> (v: T)
        requires
            self.ok_in(eng@),
            eng_wf(eng@),
            self.buf_in(eng@).data.len() == 1,
        ensures
            v == host_flat::<T>(self.buf_in(eng@))[0],
    {
        match self.try_to_scalar::<T>(eng) {
            Ok(v) => v,
            Err(_) => unreached(),
        }
    }

    /// Materializes a rank-1 array from a flat host slice.
    pub fn of_slice<T: HostElem>(eng: &mut Engine, v: &[T]) -> (t: Tensor)
        requires
            eng_wf(old(eng)@),
            v@.len() <= 0x7fff_ffff_ffff_ffff,
        ensures
            eng_wf(final(eng)@),
            pushed_result(old(eng)@, final(eng)@, BufV {
                shape: seq![v@.len() as i64],
                kind: T::kind_spec(),
                device: Device::Cpu,
                data: host_to_data::<T>(v@),
            }, t),
    {
        proof {
            T::lemma_kind_supported();
        }
        let kind = T::kind_of();
        let mut data: Vec<u64> = Vec::new();
        let mut i: usize = 0;
        while i < v.len()
            invariant
                eng@ == old(eng)@,
                i <= v@.len(),
                data@.len() == i,
                forall|j: int| 0 <= j < i ==> #[trigger] data@[j] == v@[j].bits_spec(),
                forall|j: int| 0 <= j < i ==> elem_ok(T::kind_spec(), #[trigger] data@[j]),
            decreases v@.len() - i,
        {
            proof {
                T::lemma_round_trip(v@[i as int], 0);
            }
            data.push(v[i].to_bits());
            i += 1;
        }
        let mut shape: Vec<i64> = Vec::new();
        shape.push(v.len() as i64);
        proof {
            assert(data@ =~= host_to_data::<T>(v@));
            assert(shape@ =~= seq![v@.len() as i64]);
            assert(shape@.drop_first() =~= Seq::<i64>::empty());
            assert(numel_of(Seq::<i64>::empty()) == 1);
            assert(numel_of(shape@) == shape@[0] * numel_of(shape@.drop_first()));
            assert(numel_of(shape@) == v@.len() as int);
        }
        eng.push_buf(shape, kind, Device::Cpu, data)
    }

    /// Materializes a rank-0 array from one host scalar.
    pub fn of_scalar<T: HostElem>(eng: &mut Engine, v: T) -> (t: Tensor)
        requires
            eng_wf(old(eng)@),
        ensures
            eng_wf(final(eng)@),
            pushed_result(old(eng)@, final(eng)@, BufV {
                shape: Seq::<i64>::empty(),
                kind: T::kind_spec(),
                device: Device::Cpu,
                data: seq![v.bits_spec()],
            }, t),
    {
        proof {
            T::lemma_kind_supported();
            T::lemma_round_trip(v, 0);
        }
        let mut data: Vec<u64> = Vec::new();
        data.push(v.to_bits());
        let shape: Vec<i64> = Vec::new();
        proof {
            assert(data@ =~= seq![v.bits_spec()]);
            assert(shape@ =~= Seq::<i64>::empty());
        }
        eng.push_buf(shape, T::kind_of(), Device::Cpu, data)
    }
}

/// Splits a flat host vector into `rows` consecutive chunks of `cols`
/// elements.
fn chunk_rows<T: Copy>(v: &Vec<T>, rows: usize, cols: usize) -> (r: Vec<Vec<T>>)
    requires
        v@.len() == rows * cols,
    ensures
        r@.len() == rows,
        forall|i: int| 0 <= i < rows
            ==> #[trigger] r@[i]@ == v@.subrange(i * cols, (i + 1) * cols),
{
    let total: usize = v.len();
    let mut out: Vec<Vec<T>> = Vec::new();
    let mut i: usize = 0;
    while i < rows
        invariant
            i <= rows,
            v@.len() == rows * cols,
            total == v@.len(),
            out@.len() == i,
            forall|x: int| 0 <= x < i
                ==> #[trigger] out@[x]@ == v@.subrange(x * cols, (x + 1) * cols),
        decreases rows - i,
    {
        proof {
            assert((i + 1) * (cols as int) <= rows * cols) by (nonlinear_arith)
                requires
                    i + 1 <= rows,
                    cols >= 0,
            ;
            assert((i + 1) * (cols as int) == i * (cols as int) + cols) by (nonlinear_arith);
            assert(i * (cols as int) >= 0) by (nonlinear_arith)
                requires
                    i >= 0,
                    cols >= 0,
            ;
            assert(i * (cols as int) <= (i + 1) * (cols as int)) by (nonlinear_arith)
                requires
                    i >= 0,
                    cols >= 0,
            ;
            assert(i * (cols as int) <= total as int);
        }
        let base: usize = i * cols;
        let mut row: Vec<T> = Vec::new();
        let mut j: usize = 0;
        while j < cols
            invariant
                j <= cols,
                base == i * cols,
                total == v@.len(),
                base + cols <= total,
                row@.len() == j,
                forall|y: int| 0 <= y < j ==> #[trigger] row@[y] == v@[base + y],
            decreases cols - j,
        {
            row.push(v[base + j]);
            j += 1;
        }
        proof {
            assert(row@ =~= v@.subrange(i * cols, (i + 1) * cols));
        }
        out.push(row);
        i += 1;
    }
    out
}

/// The row length of a nested host sequence (zero when it has no rows).
pub open spec fn vec2_cols<T>(v: Seq<Vec<T>>) -> int {
    if v.len() == 0 { 0 } else { v[0]@.len() as int }
}

/// The sequence is rectangular: every row as long as the first.
pub open spec fn rect2<T>(v: Seq<Vec<T>>) -> bool {
    forall|i: int| 0 <= i < v.len() ==> #[trigger] v[i]@.len() == vec2_cols(v)
}

/// The flat element data of a rectangular nested host sequence, row-major.
pub open spec fn vec2_data<T: HostElem>(v: Seq<Vec<T>>) -> Seq<u64> {
    Seq::new((v.len() * vec2_cols(v)) as nat,
        |x: int| v[x / vec2_cols(v)]@[x % vec2_cols(v)].bits_spec())
}

/// The buffer a rank-2 host construction materializes.
pub open spec fn vec2_buf<T: HostElem>(v: Seq<Vec<T>>) -> BufV {
    BufV {
        shape: seq![v.len() as i64, vec2_cols(v) as i64],
        kind: T::kind_spec(),
        device: Device::Cpu,
        data: vec2_data::<T>(v),
    }
}

impl Tensor {
    /// Materializes a rank-2 array from a nested host sequence (fallible
    /// form): fails, reporting the two row lengths, exactly when the
    /// sequence is not rectangular.
    pub fn try_of_vec2<T: HostElem>(eng: &mut Engine, v: &Vec<Vec<T>>)
        -> (r: Result<Tensor, TchError>)
        requires
            eng_wf(old(eng)@),
            v@.len() <= 0x7fff_ffff_ffff_ffff,
            forall|i: int| 0 <= i < v@.len()
                ==> #[trigger] v@[i]@.len() <= 0x7fff_ffff_ffff_ffff,
            v@.len() * vec2_cols(v@) <= 0x7fff_ffff_ffff_ffff,
        ensures
            eng_wf(final(eng)@),
            if rect2(v@) {
                r matches Ok(t) && pushed_result(old(eng)@, final(eng)@, vec2_buf::<T>(v@), t)
            } else {
                final(eng)@ == old(eng)@ && (r matches Err(e)
                    && e matches TchError::Ragged { expected, found }
                    && expected == vec2_cols(v@)
                    && (exists|i: int| 0 <= i < v@.len()
                        && #[trigger] v@[i]@.len() == found && found != expected))
            },
    {
        let n = v.len();
        let m: usize = if n == 0 { 0 } else { v[0].len() };
        let mut i: usize = 0;
        while i < n
            invariant
                eng@ == old(eng)@,
                eng_wf(eng@),
                n == v@.len(),
                m as int == vec2_cols(v@),
                forall|j: int| 0 <= j < v@.len()
                    ==> #[trigger] v@[j]@.len() <= 0x7fff_ffff_ffff_ffff,
                i <= n,
                forall|j: int| 0 <= j < i ==> #[trigger] v@[j]@.len() == m as int,
            decreases n - i,
        {
            if v[i].len() != m {
                return Err(TchError::Ragged { expected: m as i64, found: v[i].len() as i64 });
            }
            i += 1;
        }
        let mut data: Vec<u64> = Vec::new();
        let mut i2: usize = 0;
        while i2 < n
            invariant
                eng@ == old(eng)@,
                n == v@.len(),
                m as int == vec2_cols(v@),
                n * m <= 0x7fff_ffff_ffff_ffff,
                forall|j: int| 0 <= j < n ==> #[trigger] v@[j]@.len() == m as int,
                i2 <= n,
                data@.len() == i2 * m,
                forall|x: int| 0 <= x < data@.len() ==> #[trigger] data@[x]
                    == v@[x / m as int]@[x % m as int].bits_spec(),
                forall|x: int| 0 <= x < data@.len()
                    ==> elem_ok(T::kind_spec(), #[trigger] data@[x]),
            decreases n - i2,
        {
            let mut j: usize = 0;
            proof {
                assert((i2 + 1) * m <= n * m) by (nonlinear_arith)
                    requires
                        i2 + 1 <= n,
                        m >= 0,
                ;
                assert((i2 + 1) * m == i2 * m + m) by (nonlinear_arith);
            }
            while j < m
                invariant
                    eng@ == old(eng)@,
                    n == v@.len(),
                    m as int == vec2_cols(v@),
                    i2 < n,
                    i2 * m + m <= n * m,
                    n * m <= 0x7fff_ffff_ffff_ffff,
                    forall|y: int| 0 <= y < n ==> #[trigger] v@[y]@.len() == m as int,
                    j <= m,
                    data@.len() == i2 * m + j,
                    forall|x: int| 0 <= x < data@.len() ==> #[trigger] data@[x]
                        == v@[x / m as int]@[x % m as int].bits_spec(),
                    forall|x: int| 0 <= x < data@.len()
                        ==> elem_ok(T::kind_spec(), #[trigger] data@[x]),
                decreases m - j,
            {
                proof {
                    T::lemma_round_trip(v@[i2 as int]@[j as int], 0);
                    lemma_fundamental_div_mod_converse((i2 * m + j) as int, m as int,
                        i2 as int, j as int);
                }
                data.push(v[i2][j].to_bits());
                j += 1;
            }
            i2 += 1;
        }
        let mut shape: Vec<i64> = Vec::new();
        shape.push(n as i64);
        shape.push(m as i64);
        proof {
            assert(data@ =~= vec2_data::<T>(v@));
            assert(shape@ =~= seq![n as i64, m as i64]);
            assert(shape@.drop_first() =~= seq![m as i64]);
            assert(seq![m as i64].drop_first() =~= Seq::<i64>::empty());
            assert(numel_of(Seq::<i64>::empty()) == 1);
            assert(numel_of(seq![m as i64]) == m as int * 1);
            assert(numel_of(shape@) == n as int * (m as int * 1));
            assert(n as int * (m as int * 1) == n * m) by (nonlinear_arith);
            T::lemma_kind_supported();
        }
        let t = eng.push_buf(shape, T::kind_of(), Device::Cpu, data);
        Ok(t)
    }

    /// Materializes a rank-2 array from a rectangular nested host sequence.
    pub fn of_vec2<T: HostElem>(eng: &mut Engine, v: &Vec<Vec<T>>) -> (t: Tensor)
        requires
            eng_wf(old(eng)@),
            v@.len() <= 0x7fff_ffff_ffff_ffff,
            forall|i: int| 0 <= i < v@.len()
                ==> #[trigger] v@[i]@.len() <= 0x7fff_ffff_ffff_ffff,
            v@.len() * vec2_cols(v@) <= 0x7fff_ffff_ffff_ffff,
            rect2(v@),
        ensures
            eng_wf(final(eng)@),
            pushed_result(old(eng)@, final(eng)@, vec2_buf::<T>(v@), t),
    {
        match Self::try_of_vec2::<T>(eng, v) {
            Ok(t) => t,
            Err(_) => unreached(),
        }
    }
}

/// Marshaling a host sequence into element data of its own kind and back
/// out returns the same sequence: the host-side half of the round trip.
pub proof fn lemma_host_round_trip<T: HostElem>(s: Seq<T>)
    ensures
        data_to_host::<T>(cast_data(T::kind_spec(), T::kind_spec(), host_to_data::<T>(s))) == s,
{
    let out = data_to_host::<T>(cast_data(T::kind_spec(), T::kind_spec(), host_to_data::<T>(s)));
    assert forall|i: int| 0 <= i < s.len() implies out[i] == s[i] by {
        lemma_cast_same(T::kind_spec(), s[i].bits_spec());
        T::lemma_round_trip(s[i], 0);
    }
    assert(out =~= s);
}

/// Copying an array's elements out to host values of the array's own kind
/// and marshaling them back gives exactly the array's element data: the
/// engine-side half of the round trip.
pub proof fn lemma_data_round_trip<T: HostElem>(d: Seq<u64>)
    requires
        forall|i: int| 0 <= i < d.len() ==> elem_ok(T::kind_spec(), #[trigger] d[i]),
    ensures
        host_to_data::<T>(data_to_host::<T>(cast_data(T::kind_spec(), T::kind_spec(), d))) == d,
{
    let out = host_to_data::<T>(data_to_host::<T>(cast_data(T::kind_spec(), T::kind_spec(), d)));
    assert forall|i: int| 0 <= i < d.len() implies out[i] == d[i] by {
        lemma_cast_same(T::kind_spec(), d[i]);
        T::lemma_round_trip(T::of_bits_spec(d[i]), d[i]);
    }
    assert(out =~= d);
}

/// Round trip at rank 0: the single host scalar extracted from a
/// one-element array carries exactly the array's element, so constructing
/// a scalar array from it rebuilds the data.
pub proof fn lemma_round_trip_rank0<T: HostElem>(b: BufV)
    requires
        buf_wf(b),
        b.kind == T::kind_spec(),
        b.shape.len() == 0,
    ensures
        seq![host_flat::<T>(b)[0].bits_spec()] == b.data,
{
    assert(numel_of(b.shape) == 1);
    lemma_cast_same(T::kind_spec(), b.data[0]);
    T::lemma_round_trip(T::of_bits_spec(b.data[0]), b.data[0]);
    assert(seq![host_flat::<T>(b)[0].bits_spec()] =~= b.data);
}

/// Round trip at rank 1: the flat host vector extracted from a rank-1
/// array rebuilds both the array's data and its shape.
pub proof fn lemma_round_trip_rank1<T: HostElem>(b: BufV)
    requires
        buf_wf(b),
        b.kind == T::kind_spec(),
        b.shape.len() == 1,
    ensures
        host_to_data::<T>(host_flat::<T>(b)) == b.data,
        seq![b.data.len() as i64] == b.shape,
{
    assert(b.shape.drop_first() =~= Seq::<i64>::empty());
    assert(numel_of(Seq::<i64>::empty()) == 1);
    assert(numel_of(b.shape) == b.shape[0] * 1);
    assert(forall|i: int| 0 <= i < b.data.len() ==> elem_ok(T::kind_spec(), #[trigger] b.data[i]));
    lemma_data_round_trip::<T>(b.data);
    assert(seq![b.data.len() as i64] =~= b.shape);
}

/// Round trip at rank 2: the rows extracted from a rank-2 array form a
/// rectangular nested sequence whose construction rebuilds the array's
/// shape and data.
pub proof fn lemma_round_trip_rank2<T: HostElem>(b: BufV, rows: Seq<Vec<T>>)
    requires
        buf_wf(b),
        b.kind == T::kind_spec(),
        b.shape.len() == 2,
        b.shape[0] >= 1,
        rows.len() == b.shape[0],
        forall|i: int| 0 <= i < rows.len() ==> #[trigger] rows[i]@ == host_flat::<T>(b).subrange(
            i * row_numel(b.shape), (i + 1) * row_numel(b.shape)),
    ensures
        rect2(rows),
        vec2_data::<T>(rows) == b.data,
        seq![rows.len() as i64, vec2_cols(rows) as i64] == b.shape,
{
    let d0 = b.shape[0] as int;
    let d1 = b.shape[1] as int;
    assert(b.shape.drop_first().drop_first() =~= Seq::<i64>::empty());
    assert(numel_of(Seq::<i64>::empty()) == 1);
    assert(numel_of(b.shape.drop_first()) == b.shape[1] * 1);
    assert(numel_of(b.shape) == b.shape[0] * (b.shape[1] * 1));
    assert(row_numel(b.shape) == d1);
    assert(host_flat::<T>(b).len() == b.data.len());
    assert(b.data.len() == d0 * d1) by (nonlinear_arith)
        requires
            b.data.len() == d0 * (d1 * 1),
    ;
    assert forall|i: int| 0 <= i < rows.len() implies #[trigger] rows[i]@.len() == d1 by {
        assert((i + 1) * d1 <= d0 * d1) by (nonlinear_arith)
            requires
                i + 1 <= d0,
                d1 >= 0,
        ;
        assert(i * d1 >= 0 && (i + 1) * d1 == i * d1 + d1) by (nonlinear_arith)
            requires
                i >= 0,
                d1 >= 0,
        ;
    }
    assert(vec2_cols(rows) == d1);
    assert(rect2(rows));
    let out = vec2_data::<T>(rows);
    assert(out.len() == rows.len() * d1);
    assert(out.len() == b.data.len()) by (nonlinear_arith)
        requires
            out.len() == d0 * d1,
            b.data.len() == d0 * d1,
    ;
    assert forall|x: int| 0 <= x < out.len() implies out[x] == b.data[x] by {
        vstd::arithmetic::div_mod::lemma_fundamental_div_mod(x, d1);
        vstd::arithmetic::div_mod::lemma_mod_bound(x, d1);
        let i = x / d1;
        let j = x % d1;
        assert(0 <= i < d0) by (nonlinear_arith)
            requires
                x == d1 * i + j,
                0 <= j < d1,
                0 <= x < d0 * d1,
        ;
        assert((i + 1) * d1 <= d0 * d1) by (nonlinear_arith)
            requires
                i + 1 <= d0,
                d1 >= 0,
        ;
        assert(i * d1 >= 0 && (i + 1) * d1 == i * d1 + d1 && d1 * i == i * d1)
            by (nonlinear_arith)
            requires
                i >= 0,
                d1 >= 0,
        ;
        assert(rows[i]@[j] == host_flat::<T>(b)[i * d1 + j]);
        assert(out[x] == rows[i]@[j].bits_spec());
        lemma_cast_same(T::kind_spec(), b.data[x]);
        T::lemma_round_trip(T::of_bits_spec(b.data[x]), b.data[x]);
    }
    assert(out =~= b.data);
    assert(seq![rows.len() as i64, vec2_cols(rows) as i64] =~= b.shape);
}

/// The middle dimension of a doubly nested host sequence.
pub open spec fn vec3_d1<T>(v: Seq<Vec<Vec<T>>>) -> int {
    if v.len() == 0 { 0 } else { v[0]@.len() as int }
}

/// The innermost dimension of a doubly nested host sequence.
pub open spec fn vec3_d2<T>(v: Seq<Vec<Vec<T>>>) -> int {
    if v.len() == 0 { 0 } else if v[0]@.len() == 0 { 0 } else { v[0]@[0]@.len() as int }
}

/// The sequence is rectangular at both nesting levels.
pub open spec fn rect3<T>(v: Seq<Vec<Vec<T>>>) -> bool {
    &&& forall|i: int| 0 <= i < v.len() ==> #[trigger] v[i]@.len() == vec3_d1(v)
    &&& forall|i: int, j: int| 0 <= i < v.len() && 0 <= j < vec3_d1(v)
        ==> #[trigger] v[i]@[j]@.len() == vec3_d2(v)
}

/// The flat element data of a rectangular doubly nested host sequence.
pub open spec fn vec3_data<T: HostElem>(v: Seq<Vec<Vec<T>>>) -> Seq<u64> {
    Seq::new((v.len() * vec3_d1(v) * vec3_d2(v)) as nat,
        |x: int| v[x / (vec3_d1(v) * vec3_d2(v))]@[(x / vec3_d2(v)) % vec3_d1(v)]@[
            x % vec3_d2(v)].bits_spec())
}

/// The buffer a rank-3 host construction materializes.
pub open spec fn vec3_buf<T: HostElem>(v: Seq<Vec<Vec<T>>>) -> BufV {
    BufV {
        shape: seq![v.len() as i64, vec3_d1(v) as i64, vec3_d2(v) as i64],
        kind: T::kind_spec(),
        device: Device::Cpu,
        data: vec3_data::<T>(v),
    }
}

impl Tensor {
    /// Materializes a rank-3 array from a doubly nested host sequence
    /// (fallible form): fails, reporting the two lengths, exactly when the
    /// sequence is not rectangular at some level.
    pub fn try_of_vec3<T: HostElem>(eng: &mut Engine, v: &Vec<Vec<Vec<T>>>)
        -> (r: Result<Tensor, TchError>)
        requires
            eng_wf(old(eng)@),
            v@.len() <= 0x7fff_ffff_ffff_ffff,
            vec3_d1(v@) <= 0x7fff_ffff_ffff_ffff,
            vec3_d2(v@) <= 0x7fff_ffff_ffff_ffff,
            forall|i: int| 0 <= i < v@.len()
                ==> #[trigger] v@[i]@.len() <= 0x7fff_ffff_ffff_ffff,
            forall|i: int, j: int| 0 <= i < v@.len() && 0 <= j < v@[i]@.len()
                ==> #[trigger] v@[i]@[j]@.len() <= 0x7fff_ffff_ffff_ffff,
            v@.len() * vec3_d1(v@) * vec3_d2(v@) <= 0x7fff_ffff_ffff_ffff,
            v@.len() * vec3_d1(v@) * vec3_d2(v@) <= usize::MAX,
        ensures
            eng_wf(final(eng)@),
            if rect3(v@) {
                r matches Ok(t) && pushed_result(old(eng)@, final(eng)@, vec3_buf::<T>(v@), t)
            } else {
                final(eng)@ == old(eng)@ && (r matches Err(e)
                    && e matches TchError::Ragged { .. })
            },
    {
        let n = v.len();
        let d1: usize = if n == 0 { 0 } else { v[0].len() };
        let d2: usize = if n == 0 { 0 } else if v[0].len() == 0 { 0 } else { v[0][0].len() };
        let mut i: usize = 0;
        while i < n
            invariant
                eng@ == old(eng)@,
                eng_wf(eng@),
                n == v@.len(),
                d1 as int == vec3_d1(v@),
                d2 as int == vec3_d2(v@),
                forall|x: int, y: int| 0 <= x < n && 0 <= y < v@[x]@.len()
                    ==> #[trigger] v@[x]@[y]@.len() <= 0x7fff_ffff_ffff_ffff,
                i <= n,
                forall|x: int| 0 <= x < i ==> #[trigger] v@[x]@.len() == d1 as int,
                forall|x: int, y: int| 0 <= x < i && 0 <= y < d1 as int
                    ==> #[trigger] v@[x]@[y]@.len() == d2 as int,
            decreases n - i,
        {
            if v[i].len() != d1 {
                return Err(TchError::Ragged { expected: d1 as i64, found: v[i].len() as i64 });
            }
            let mut j: usize = 0;
            while j < d1
                invariant
                    eng@ == old(eng)@,
                    eng_wf(eng@),
                    n == v@.len(),
                    i < n,
                    d1 as int == vec3_d1(v@),
                    d2 as int == vec3_d2(v@),
                    v@[i as int]@.len() == d1 as int,
                    forall|x: int, y: int| 0 <= x < n && 0 <= y < v@[x]@.len()
                        ==> #[trigger] v@[x]@[y]@.len() <= 0x7fff_ffff_ffff_ffff,
                    j <= d1,
                    forall|y: int| 0 <= y < j
                        ==> #[trigger] v@[i as int]@[y]@.len() == d2 as int,
                decreases d1 - j,
            {
                if v[i][j].len() != d2 {
                    return Err(TchError::Ragged {
                        expected: d2 as i64,
                        found: v[i][j].len() as i64,
                    });
                }
                j += 1;
            }
            i += 1;
        }
        let mut data: Vec<u64> = Vec::new();
        let mut i2: usize = 0;
        while i2 < n
            invariant
                eng@ == old(eng)@,
                eng_wf(eng@),
                n == v@.len(),
                d1 as int == vec3_d1(v@),
                d2 as int == vec3_d2(v@),
                n * d1 * d2 <= 0x7fff_ffff_ffff_ffff,
                forall|x: int| 0 <= x < n ==> #[trigger] v@[x]@.len() == d1 as int,
                forall|x: int, y: int| 0 <= x < n && 0 <= y < d1 as int
                    ==> #[trigger] v@[x]@[y]@.len() == d2 as int,
                i2 <= n,
                data@.len() == i2 * (d1 * d2),
                forall|x: int| 0 <= x < data@.len() ==> #[trigger] data@[x]
                    == v@[x / (d1 as int * d2 as int)]@[(x / d2 as int) % d1 as int]@[
                        x % d2 as int].bits_spec(),
                forall|x: int| 0 <= x < data@.len()
                    ==> elem_ok(T::kind_spec(), #[trigger] data@[x]),
            decreases n - i2,
        {
            proof {
                assert((i2 + 1) * (d1 * d2) <= n * (d1 * d2)) by (nonlinear_arith)
                    requires
                        i2 + 1 <= n,
                        d1 >= 0,
                        d2 >= 0,
                ;
                assert(n * (d1 * d2) == n * d1 * d2) by (nonlinear_arith);
                assert((i2 + 1) * (d1 * d2) == i2 * (d1 * d2) + d1 * d2) by (nonlinear_arith);
            }
            let mut j: usize = 0;
            while j < d1
                invariant
                    eng@ == old(eng)@,
                    n == v@.len(),
                    i2 < n,
                    d1 as int == vec3_d1(v@),
                    d2 as int == vec3_d2(v@),
                    i2 * (d1 * d2) + d1 * d2 <= n * (d1 * d2),
                    n * (d1 * d2) <= 0x7fff_ffff_ffff_ffff,
                    forall|x: int| 0 <= x < n ==> #[trigger] v@[x]@.len() == d1 as int,
                    forall|x: int, y: int| 0 <= x < n && 0 <= y < d1 as int
                        ==> #[trigger] v@[x]@[y]@.len() == d2 as int,
                    j <= d1,
                    data@.len() == i2 * (d1 * d2) + j * d2,
                    forall|x: int| 0 <= x < data@.len() ==> #[trigger] data@[x]
                        == v@[x / (d1 as int * d2 as int)]@[(x / d2 as int) % d1 as int]@[
                            x % d2 as int].bits_spec(),
                    forall|x: int| 0 <= x < data@.len()
                        ==> elem_ok(T::kind_spec(), #[trigger] data@[x]),
                decreases d1 - j,
            {
                proof {
                    assert((j + 1) * d2 <= d1 * d2) by (nonlinear_arith)
                        requires
                            j + 1 <= d1,
                            d2 >= 0,
                    ;
                    assert((j + 1) * d2 == j * d2 + d2) by (nonlinear_arith);
                }
                let mut l: usize = 0;
                while l < d2
                    invariant
                        eng@ == old(eng)@,
                        n == v@.len(),
                        i2 < n,
                        j < d1,
                        d1 as int == vec3_d1(v@),
                        d2 as int == vec3_d2(v@),
                        i2 * (d1 * d2) + d1 * d2 <= n * (d1 * d2),
                        j * d2 + d2 <= d1 * d2,
                        n * (d1 * d2) <= 0x7fff_ffff_ffff_ffff,
                        forall|x: int| 0 <= x < n ==> #[trigger] v@[x]@.len() == d1 as int,
                        forall|x: int, y: int| 0 <= x < n && 0 <= y < d1 as int
                            ==> #[trigger] v@[x]@[y]@.len() == d2 as int,
                        l <= d2,
                        data@.len() == i2 * (d1 * d2) + j * d2 + l,
                        forall|x: int| 0 <= x < data@.len() ==> #[trigger] data@[x]
                            == v@[x / (d1 as int * d2 as int)]@[(x / d2 as int) % d1 as int]@[
                                x % d2 as int].bits_spec(),
                        forall|x: int| 0 <= x < data@.len()
                            ==> elem_ok(T::kind_spec(), #[trigger] data@[x]),
                    decreases d2 - l,
                {
                    proof {
                        T::lemma_round_trip(v@[i2 as int]@[j as int]@[l as int], 0);
                        let d1i = d1 as int;
                        let d2i = d2 as int;
                        let x: int = i2 * (d1i * d2i) + j * d2i + l;
                        assert(data@.len() == x);
                        assert(x == (i2 * d1i + j) * d2i + l) by (nonlinear_arith)
                            requires
                                x == i2 * (d1i * d2i) + j * d2i + l,
                        ;
                        assert(i2 * d1i + j >= 0) by (nonlinear_arith)
                            requires
                                i2 >= 0,
                                d1i >= 0,
                                j >= 0,
                        ;
                        lemma_fundamental_div_mod_converse(x, d2i, i2 * d1i + j, l as int);
                        lemma_mod_multiples_vanish(i2 as int, j as int, d1i);
                        assert(d1i * i2 + j == i2 * d1i + j) by (nonlinear_arith);
                        lemma_small_mod(j as nat, d1 as nat);
                        assert(0 <= j * d2i + l < d1i * d2i) by (nonlinear_arith)
                            requires
                                0 <= j < d1i,
                                0 <= l < d2i,
                        ;
                        lemma_fundamental_div_mod_converse(x, d1i * d2i, i2 as int,
                            j * d2i + l);
                    }
                    data.push(v[i2][j][l].to_bits());
                    l += 1;
                }
                j += 1;
            }
            i2 += 1;
        }
        let mut shape: Vec<i64> = Vec::new();
        shape.push(n as i64);
        shape.push(d1 as i64);
        shape.push(d2 as i64);
        proof {
            assert(data@.len() == n * (d1 * d2)) by (nonlinear_arith)
                requires
                    data@.len() == n * (d1 * d2),
            ;
            assert(data@ =~= vec3_data::<T>(v@)) by {
                assert(n * (d1 * d2) == n * d1 * d2) by (nonlinear_arith);
            }
            assert(shape@ =~= seq![n as i64, d1 as i64, d2 as i64]);
            assert(shape@.drop_first() =~= seq![d1 as i64, d2 as i64]);
            assert(seq![d1 as i64, d2 as i64].drop_first() =~= seq![d2 as i64]);
            assert(seq![d2 as i64].drop_first() =~= Seq::<i64>::empty());
            assert(numel_of(Seq::<i64>::empty()) == 1);
            assert(numel_of(seq![d2 as i64]) == d2 as int * 1);
            assert(numel_of(seq![d1 as i64, d2 as i64]) == d1 as int * (d2 as int * 1));
            assert(numel_of(shape@) == n as int * (d1 as int * (d2 as int * 1)));
            assert(n as int * (d1 as int * (d2 as int * 1)) == n * d1 * d2)
                by (nonlinear_arith);
            T::lemma_kind_supported();
        }
        let t = eng.push_buf(shape, T::kind_of(), Device::Cpu, data);
        Ok(t)
    }

    /// Materializes a rank-3 array from a rectangular doubly nested host
    /// sequence.
    pub fn of_vec3<T: HostElem>(eng: &mut Engine, v: &Vec<Vec<Vec<T>>>) -> (t: Tensor)
        requires
            eng_wf(old(eng)@),
            v@.len() <= 0x7fff_ffff_ffff_ffff,
            vec3_d1(v@) <= 0x7fff_ffff_ffff_ffff,
            vec3_d2(v@) <= 0x7fff_ffff_ffff_ffff,
            forall|i: int| 0 <= i < v@.len()
                ==> #[trigger] v@[i]@.len() <= 0x7fff_ffff_ffff_ffff,
            forall|i: int, j: int| 0 <= i < v@.len() && 0 <= j < v@[i]@.len()
                ==> #[trigger] v@[i]@[j]@.len() <= 0x7fff_ffff_ffff_ffff,
            v@.len() * vec3_d1(v@) * vec3_d2(v@) <= 0x7fff_ffff_ffff_ffff,
            v@.len() * vec3_d1(v@) * vec3_d2(v@) <= usize::MAX,
            rect3(v@),
        ensures
            eng_wf(final(eng)@),
            pushed_result(old(eng)@, final(eng)@, vec3_buf::<T>(v@), t),
    {
        match Self::try_of_vec3::<T>(eng, v) {
            Ok(t) => t,
            Err(_) => unreached(),
        }
    }
}

impl Tensor {
    /// Materializes an array of the given shape from a flat host buffer
    /// whose element count matches the shape exactly: the engine's
    /// raw-storage-in primitive.
    pub fn of_flat<T: HostElem>(eng: &mut Engine, shape: &Vec<i64>, v: &[T]) -> (t: Tensor)
        requires
            eng_wf(old(eng)@),
            shape_ok(shape@),
            numel_of(shape@) == v@.len(),
            v@.len() <= 0x7fff_ffff_ffff_ffff,
        ensures
            eng_wf(final(eng)@),
            pushed_result(old(eng)@, final(eng)@, BufV {
                shape: shape@,
                kind: T::kind_spec(),
                device: Device::Cpu,
                data: host_to_data::<T>(v@),
            }, t),
    {
        proof {
            T::lemma_kind_supported();
        }
        let kind = T::kind_of();
        let mut data: Vec<u64> = Vec::new();
        let mut i: usize = 0;
        while i < v.len()
            invariant
                eng@ == old(eng)@,
                eng_wf(eng@),
                i <= v@.len(),
                data@.len() == i,
                forall|j: int| 0 <= j < i ==> #[trigger] data@[j] == v@[j].bits_spec(),
                forall|j: int| 0 <= j < i ==> elem_ok(T::kind_spec(), #[trigger] data@[j]),
            decreases v@.len() - i,
        {
            proof {
                T::lemma_round_trip(v@[i as int], 0);
            }
            data.push(v[i].to_bits());
            i += 1;
        }
        let s = clone_i64s(shape);
        proof {
            assert(data@ =~= host_to_data::<T>(v@));
        }
        eng.push_buf(s, kind, Device::Cpu, data)
    }
}

} // verus!
