//! An older form of configurable output: nested choices, repetitions and
//! chances of xp and items. Chances are `f32` bit patterns; compiling an
//! output draws random numbers against them and happens outside this crate's
//! verified part.

use vstd::prelude::*;

verus! {

/// What compiling a complex output produced.
#[derive(Clone, Debug)]
pub struct CompiledOutput<I> {
    pub xp: usize,
    pub items: Vec<I>,
}

impl<I> CompiledOutput<I> {
    /// An output with no xp and no items.
    pub fn new() -> (r: Self)
        ensures
            r.xp == 0,
            r.items@.len() == 0,
    {
        Self { xp: 0, items: Vec::new() }
    }
}

#[derive(Debug)]
pub enum ComplexOutput<I> {
    All(Vec<ComplexOutput<I>>),
    /// Each choice with the `f32` bit pattern of its chance.
    OneOf(Vec<(u32, ComplexOutput<I>)>),
    Times(usize, Box<ComplexOutput<I>>),
    /// An `f32` bit pattern, and what happens with that chance.
    Chance(u32, Box<ComplexOutput<I>>),
    Xp(usize),
    Item(I),
}

} // verus!
