use vstd::prelude::*;

use crate::data_field::{texture_fetched, DataField, GridView};
use crate::norm::NormMap;

verus! {

/// The mathematical content of a vector field: its two component grids.
pub struct PairView {
    pub u: GridView,
    pub v: GridView,
}

/// Two scalar fields holding the orthogonal components, U and V, of one
/// wind snapshot. All operations delegate to one component or the other;
/// their texture caches are independent.
pub struct VectorField {
    u: DataField,
    v: DataField,
}

impl View for VectorField {
    type V = PairView;

    closed spec fn view(&self) -> PairView {
        PairView { u: self.u.model(), v: self.v.model() }
    }
}

impl VectorField {
    pub open spec fn wf(&self) -> bool {
        self@.u.wf() && self@.v.wf()
    }

    pub fn new(u: DataField, v: DataField) -> (r: VectorField)
        ensures
            r@.u == u.model(),
            r@.v == v.model(),
    {
        VectorField { u, v }
    }

    /// A read-only view of the U component's raw samples, with no copy.
    pub fn u_data(&self) -> (r: &Vec<i8>)
        ensures
            r@ == self@.u.samples,
    {
        self.u.view()
    }

    /// A read-only view of the V component's raw samples, with no copy.
    pub fn v_data(&self) -> (r: &Vec<i8>)
        ensures
            r@ == self@.v.samples,
    {
        self.v.view()
    }

    /// True exactly when the U component's samples fill its grid.
    pub fn u_covers_grid(&self) -> (b: bool)
        requires
            self@.u.geo_wf(),
        ensures
            b == self@.u.covers(),
    {
        self.u.covers_grid()
    }

    /// True exactly when the V component's samples fill its grid.
    pub fn v_covers_grid(&self) -> (b: bool)
        requires
            self@.v.geo_wf(),
        ensures
            b == self@.v.covers(),
    {
        self.v.covers_grid()
    }

    /// The U component's texture under the given normalization table.
    pub fn u_data_for_gpu(&mut self, max_speed: &NormMap) -> (r: Vec<u8>)
        requires
            old(self)@.u.wf(),
            max_speed.wf(),
            old(self)@.u.covers(),
        ensures
            final(self)@.u.wf(),
            final(self)@.v == old(self)@.v,
            texture_fetched(old(self)@.u, final(self)@.u, max_speed@, r@),
    {
        self.u.view_for_gpu(max_speed)
    }

    /// The V component's texture under the given normalization table.
    pub fn v_data_for_gpu(&mut self, max_speed: &NormMap) -> (r: Vec<u8>)
        requires
            old(self)@.v.wf(),
            max_speed.wf(),
            old(self)@.v.covers(),
        ensures
            final(self)@.v.wf(),
            final(self)@.u == old(self)@.u,
            texture_fetched(old(self)@.v, final(self)@.v, max_speed@, r@),
    {
        self.v.view_for_gpu(max_speed)
    }
}

} // verus!
