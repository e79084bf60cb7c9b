//! The engine store and the array handle.
//!
//! The engine owns every array buffer; a [`Tensor`] is a handle naming one
//! buffer. Copying a handle (a shallow clone) names the same storage, so an
//! in-place operation through one handle is observed through every alias;
//! [`Tensor::copy`] is the only way to break aliasing. Buffers live as long
//! as the engine that owns them.

use vstd::prelude::*;
use crate::kind::{Kind, elem_ok, supported_kind};

verus! {

/// Abstract placement of an array's storage.
#[derive(Clone, Copy, PartialEq, Eq, Structural, Debug, Hash)]
pub enum Device {
    Cpu,
    Cuda(usize),
}

/// A recoverable failure reported by an engine primitive.
#[derive(Debug)]
pub enum TchError {
    /// The two operands' shapes differ.
    ShapeMismatch { left: Vec<i64>, right: Vec<i64> },
    /// The two operands' kinds differ.
    KindMismatch { left: Kind, right: Kind },
    /// The two operands live on different devices.
    DeviceMismatch { left: Device, right: Device },
    /// The requested kind cannot be materialized by the engine.
    UnsupportedKind { kind: Kind },
    /// A scalar operand cannot be promoted to the array's kind.
    ScalarKindMismatch { kind: Kind },
    /// An integer element was divided by zero.
    DivisionByZero,
    /// An index element fell outside the indexed dimension.
    IndexOutOfRange { index: i64, bound: i64 },
    /// A single element was requested from an array holding `numel` elements.
    ScalarCount { numel: i64 },
    /// A dimension of a requested shape is negative.
    NegativeDim { dim: i64 },
    /// A nested host sequence is not rectangular.
    Ragged { expected: i64, found: i64 },
    /// The requested allocation exceeds the engine's element-count limit.
    TooLarge,
}

/// Ghost image of one engine-resident buffer.
pub ghost struct BufV {
    pub shape: Seq<i64>,
    pub kind: Kind,
    pub device: Device,
    pub data: Seq<u64>,
}

/// The number of elements an array of this shape holds.
pub open spec fn numel_of(shape: Seq<i64>) -> int
    decreases shape.len(),
{
    if shape.len() == 0 {
        1
    } else {
        shape[0] * numel_of(shape.drop_first())
    }
}

/// Every dimension is non-negative.
pub open spec fn shape_ok(shape: Seq<i64>) -> bool {
    forall|i: int| 0 <= i < shape.len() ==> shape[i] >= 0
}

/// A well-formed buffer: a supported kind, non-negative dimensions whose
/// product is the data length, every element a valid bit pattern of the
/// kind, and an element count the engine's introspection can report.
pub open spec fn buf_wf(b: BufV) -> bool {
    &&& shape_ok(b.shape)
    &&& numel_of(b.shape) == b.data.len()
    &&& b.data.len() <= 0x7fff_ffff_ffff_ffff
    &&& supported_kind(b.kind)
    &&& forall|i: int| 0 <= i < b.data.len() ==> elem_ok(b.kind, #[trigger] b.data[i])
}

/// Every buffer of the store is well formed.
pub open spec fn eng_wf(e: Seq<BufV>) -> bool {
    forall|i: int| 0 <= i < e.len() ==> buf_wf(#[trigger] e[i])
}

struct Buf {
    shape: Vec<i64>,
    kind: Kind,
    device: Device,
    data: Vec<u64>,
}

impl Buf {
    spec fn view_spec(&self) -> BufV {
        BufV { shape: self.shape@, kind: self.kind, device: self.device, data: self.data@ }
    }
}

/// The compute engine: the store that owns every array buffer.
pub struct Engine {
    bufs: Vec<Buf>,
}

impl View for Engine {
    type V = Seq<BufV>;

    closed spec fn view(&self) -> Seq<BufV> {
        self.bufs@.map(|_i: int, b: Buf| b.view_spec())
    }
}

/// A handle to one engine-resident array. Copying the handle is a shallow
/// clone: both copies name the same storage.
#[derive(Clone, Copy)]
pub struct Tensor {
    id: usize,
}

impl Tensor {
    /// Which buffer of the store this handle names.
    pub closed spec fn loc(&self) -> int {
        self.id as int
    }

    /// The handle names a buffer of the store image `e`.
    pub open spec fn ok_in(&self, e: Seq<BufV>) -> bool {
        0 <= self.loc() < e.len()
    }

    /// The buffer this handle names in the store image `e`.
    pub open spec fn buf_in(&self, e: Seq<BufV>) -> BufV {
        e[self.loc()]
    }

    /// Two handles alias when they name the same storage, so that mutating
    /// through one is observed through the other.
    pub open spec fn aliases(&self, other: &Tensor) -> bool {
        self.loc() == other.loc()
    }

    /// A shallow clone: a new handle to the same storage.
    pub fn shallow_clone(&self) -> (r: Tensor)
        ensures
            r == *self,
            r.aliases(self),
    {
        Tensor { id: self.id }
    }
}

impl Engine {
    /// A fresh engine holding no arrays.
    pub fn new() -> (e: Engine)
        ensures
            e@.len() == 0,
            eng_wf(e@),
    {
        Engine { bufs: Vec::new() }
    }

    pub(crate) fn buf_kind(&self, t: &Tensor) -> (k: Kind)
        requires
            t.ok_in(self@),
        ensures
            k == t.buf_in(self@).kind,
    {
        self.bufs[t.id].kind
    }

    pub(crate) fn buf_device(&self, t: &Tensor) -> (d: Device)
        requires
            t.ok_in(self@),
        ensures
            d == t.buf_in(self@).device,
    {
        self.bufs[t.id].device
    }

    pub(crate) fn buf_shape<'a>(&'a self, t: &Tensor) -> (s: &'a Vec<i64>)
        requires
            t.ok_in(self@),
        ensures
            s@ == t.buf_in(self@).shape,
    {
        &self.bufs[t.id].shape
    }

    pub(crate) fn buf_data<'a>(&'a self, t: &Tensor) -> (d: &'a Vec<u64>)
        requires
            t.ok_in(self@),
        ensures
            d@ == t.buf_in(self@).data,
    {
        &self.bufs[t.id].data
    }

    /// Materializes a new buffer and returns a fresh handle to it.
    pub(crate) fn push_buf(&mut self, shape: Vec<i64>, kind: Kind, device: Device, data: Vec<u64>)
        -> (t: Tensor)
        requires
            buf_wf(BufV { shape: shape@, kind, device, data: data@ }),
        ensures
            final(self)@ == old(self)@.push(BufV { shape: shape@, kind, device, data: data@ }),
            t.loc() == old(self)@.len(),
            eng_wf(old(self)@) ==> eng_wf(final(self)@),
    {
        let id = self.bufs.len();
        let ghost pre = self@;
        self.bufs.push(Buf { shape, kind, device, data });
        proof {
            assert(self@ =~= pre.push(BufV {
                shape: self.bufs@[id as int].shape@,
                kind: self.bufs@[id as int].kind,
                device: self.bufs@[id as int].device,
                data: self.bufs@[id as int].data@,
            }));
            if eng_wf(pre) {
                assert forall|i: int| 0 <= i < self@.len() implies buf_wf(#[trigger] self@[i]) by {
                    if i < pre.len() {
                        assert(self@[i] == pre[i]);
                    }
                }
            }
        }
        Tensor { id }
    }

    /// Replaces the element data of the buffer a handle names, keeping its
    /// shape, kind and device; every alias of the handle observes the change.
    pub(crate) fn set_data(&mut self, t: &Tensor, data: Vec<u64>)
        requires
            t.ok_in(old(self)@),
            data@.len() == t.buf_in(old(self)@).data.len(),
            forall|i: int| 0 <= i < data@.len()
                ==> elem_ok(t.buf_in(old(self)@).kind, #[trigger] data@[i]),
        ensures
            final(self)@ == old(self)@.update(t.loc(), BufV {
                shape: t.buf_in(old(self)@).shape,
                kind: t.buf_in(old(self)@).kind,
                device: t.buf_in(old(self)@).device,
                data: data@,
            }),
            eng_wf(old(self)@) ==> eng_wf(final(self)@),
    {
        let ghost pre = self@;
        let ghost target = BufV {
            shape: t.buf_in(pre).shape,
            kind: t.buf_in(pre).kind,
            device: t.buf_in(pre).device,
            data: data@,
        };
        let slot = &mut self.bufs[t.id];
        slot.data = data;
        proof {
            assert(self@ =~= pre.update(t.loc(), target));
            if eng_wf(pre) {
                assert forall|i: int| 0 <= i < self@.len() implies buf_wf(#[trigger] self@[i]) by {
                    if i != t.loc() {
                        assert(self@[i] == pre[i]);
                    } else {
                        assert(buf_wf(pre[i]));
                    }
                }
            }
        }
    }
}

impl Tensor {
    /// The array's shape, one size per axis.
    pub fn size(&self, eng: &Engine) -> (s: Vec<i64>)
        requires
            self.ok_in(eng@),
        ensures
            s@ == self.buf_in(eng@).shape,
    {
        clone_i64s(eng.buf_shape(self))
    }

    /// The array's element kind.
    pub fn kind(&self, eng: &Engine) -> (k: Kind)
        requires
            self.ok_in(eng@),
        ensures
            k == self.buf_in(eng@).kind,
    {
        eng.buf_kind(self)
    }

    /// The device the array's storage lives on.
    pub fn device(&self, eng: &Engine) -> (d: Device)
        requires
            self.ok_in(eng@),
        ensures
            d == self.buf_in(eng@).device,
    {
        eng.buf_device(self)
    }

    /// How many elements the array holds.
    pub fn numel(&self, eng: &Engine) -> (n: i64)
        requires
            self.ok_in(eng@),
            eng_wf(eng@),
        ensures
            n == self.buf_in(eng@).data.len(),
    {
        let d = eng.buf_data(self);
        proof {
            assert(buf_wf(self.buf_in(eng@)));
        }
        d.len() as i64
    }

    /// Copies the array to a newly allocated array with the same shape,
    /// kind and device; the copy aliases nothing that existed before.
    pub fn copy(&self, eng: &mut Engine) -> (r: Tensor)
        requires
            self.ok_in(old(eng)@),
            eng_wf(old(eng)@),
        ensures
            eng_wf(final(eng)@),
            final(eng)@ == old(eng)@.push(self.buf_in(old(eng)@)),
            r.loc() == old(eng)@.len(),
            !r.aliases(self),
    {
        let shape = clone_i64s(eng.buf_shape(self));
        let data = clone_u64s(eng.buf_data(self));
        let kind = eng.buf_kind(self);
        let device = eng.buf_device(self);
        proof {
            assert(buf_wf(self.buf_in(eng@)));
        }
        let t = eng.push_buf(shape, kind, device, data);
        proof {
            assert(BufV {
                shape: self.buf_in(old(eng)@).shape,
                kind: self.buf_in(old(eng)@).kind,
                device: self.buf_in(old(eng)@).device,
                data: self.buf_in(old(eng)@).data,
            } =~= self.buf_in(old(eng)@));
        }
        t
    }
}

pub(crate) fn clone_i64s(v: &Vec<i64>) -> (r: Vec<i64>)
    ensures
        r@ == v@,
{
    let mut r: Vec<i64> = Vec::new();
    let mut i: usize = 0;
    while i < v.len()
        invariant
            i <= v.len(),
            r@ == v@.subrange(0, i as int),
        decreases v.len() - i,
    {
        r.push(v[i]);
        i += 1;
    }
    proof {
        assert(r@ =~= v@);
    }
    r
}

pub(crate) fn clone_u64s(v: &Vec<u64>) -> (r: Vec<u64>)
    ensures
        r@ == v@,
{
    let mut r: Vec<u64> = Vec::new();
    let mut i: usize = 0;
    while i < v.len()
        invariant
            i <= v.len(),
            r@ == v@.subrange(0, i as int),
        decreases v.len() - i,
    {
        r.push(v[i]);
        i += 1;
    }
    proof {
        assert(r@ =~= v@);
    }
    r
}

/// An array of a well-formed shape holds a non-negative number of elements.
pub proof fn lemma_numel_nonneg(shape: Seq<i64>)
    requires
        shape_ok(shape),
    ensures
        numel_of(shape) >= 0,
    decreases shape.len(),
{
    if shape.len() > 0 {
        assert(shape_ok(shape.drop_first()));
        lemma_numel_nonneg(shape.drop_first());
        assert(shape[0] * numel_of(shape.drop_first()) >= 0) by (nonlinear_arith)
            requires
                shape[0] >= 0,
                numel_of(shape.drop_first()) >= 0,
        ;
    }
}

/// In-place mutation through a handle is observed through every alias of
/// that handle, and never through a handle that names other storage, such
/// as an explicit copy taken beforehand.
pub proof fn lemma_inplace_aliasing(pre: Seq<BufV>, nb: BufV, a: Tensor, b: Tensor, c: Tensor)
    requires
        a.ok_in(pre),
        b.ok_in(pre),
        c.ok_in(pre),
        a.aliases(&b),
        !a.aliases(&c),
    ensures
        b.buf_in(pre.update(a.loc(), nb)) == nb,
        c.buf_in(pre.update(a.loc(), nb)) == c.buf_in(pre),
{
}

} // verus!
