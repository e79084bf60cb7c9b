//! Neural-network layer interfaces over the tensor façade.

use vstd::prelude::*;
use crate::engine::{Engine, Tensor, eng_wf};

verus! {

/// A layer applied without a training flag.
pub trait Module {
    fn forward(&self, eng: &mut Engine, xs: &Tensor) -> (r: Tensor)
        requires
            xs.ok_in(old(eng)@),
            eng_wf(old(eng)@),
        ensures
            eng_wf(final(eng)@),
            r.ok_in(final(eng)@),
    ;
}

/// A layer whose application may depend on whether it is training.
pub trait ModuleT {
    fn forward_t(&self, eng: &mut Engine, xs: &Tensor, train: bool) -> (r: Tensor)
        requires
            xs.ok_in(old(eng)@),
            eng_wf(old(eng)@),
        ensures
            eng_wf(final(eng)@),
            r.ok_in(final(eng)@),
    ;
}

/// An identity layer: propagates its input handle as output, sharing the
/// input's storage.
#[derive(Debug)]
pub struct Id();

impl ModuleT for Id {
    fn forward_t(&self, eng: &mut Engine, xs: &Tensor, _train: bool) -> Tensor {
        xs.shallow_clone()
    }
}

} // verus!
