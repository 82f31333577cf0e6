use vstd::prelude::*;

pub mod data_field;
pub mod norm;
pub mod vector_field;

use std::collections::HashMap;

use crate::data_field::{texture_fetched, DataField, GridView};
use crate::norm::NormMap;
use crate::vector_field::{PairView, VectorField};

verus! {

broadcast use vstd::std_specs::hash::group_hash_axioms;

/// The fixed geographic domain every snapshot is stored with, in
/// thousandths of a degree: longitude 0 to 359, latitude -90 to 90, one
/// degree per cell. It is a property of this dataset's grid convention.
pub const DOMAIN_MIN_LON: i32 = 0;

pub const DOMAIN_MAX_LON: i32 = 359_000;

pub const DOMAIN_MIN_LAT: i32 = -90_000;

pub const DOMAIN_MAX_LAT: i32 = 90_000;

pub const DOMAIN_RESOLUTION: i32 = 1_000;

/// Why an operation on the cycle store was refused.
#[derive(Debug, Clone, Copy, PartialEq, Eq)]
pub enum DataError {
    /// A snapshot's array length disagrees with the cycle's established
    /// sample count.
    SizeMismatch { tau: u32 },
    /// The requested time offset was never inserted.
    TauMissing { tau: u32 },
    /// The snapshot's samples do not fill the fixed grid, so no texture
    /// can be computed from them.
    GridTooSmall { tau: u32 },
}

/// The mathematical content of a cycle store.
pub struct WindView {
    pub cycle: Seq<char>,
    pub snapshots: Map<u32, PairView>,
    pub size: Option<nat>,
    pub max_speed: Seq<u8>,
}

/// A freshly stored component grid: the given samples over the fixed
/// domain, with no cached texture.
pub open spec fn fresh_grid(samples: Seq<i8>) -> GridView {
    GridView {
        samples,
        min_lon: DOMAIN_MIN_LON as int,
        max_lon: DOMAIN_MAX_LON as int,
        min_lat: DOMAIN_MIN_LAT as int,
        max_lat: DOMAIN_MAX_LAT as int,
        resolution: DOMAIN_RESOLUTION as int,
        cache: None,
    }
}

/// A freshly stored snapshot built from the two raw component arrays.
pub open spec fn fresh_snapshot(u: Seq<i8>, v: Seq<i8>) -> PairView {
    PairView { u: fresh_grid(u), v: fresh_grid(v) }
}

/// How a successful insertion changes the store: the snapshot under `tau`
/// is replaced by the fresh pair, the expected sample count is established
/// on first use, and everything else stays.
pub open spec fn snapshot_inserted(
    pre: WindView,
    post: WindView,
    tau: u32,
    u: Seq<i8>,
    v: Seq<i8>,
) -> bool {
    &&& post.cycle == pre.cycle
    &&& post.max_speed == pre.max_speed
    &&& post.snapshots == pre.snapshots.insert(tau, fresh_snapshot(u, v))
    &&& post.size == (match pre.size {
        Some(n) => Some(n),
        None => Some(u.len()),
    })
}

/// Whether the two arrays' lengths violate the store's size invariant.
/// A first insertion cannot: it is what establishes the expected count,
/// recorded from the U array's length.
pub open spec fn size_mismatch(expected: Option<nat>, u_len: nat, v_len: nat) -> bool {
    match expected {
        Some(n) => u_len != n || v_len != n,
        None => false,
    }
}

/// A stored snapshot is well formed: both components are well-formed
/// fields over the fixed domain, and the U component holds exactly `n`
/// samples. The V component's length is unconstrained: the first
/// insertion establishes the count from U alone, and texture requests
/// check grid coverage themselves.
pub open spec fn snapshot_wf(p: PairView, n: nat) -> bool {
    &&& p.u.wf()
    &&& p.v.wf()
    &&& p.u.samples.len() == n
    &&& on_fixed_domain(p.u)
    &&& on_fixed_domain(p.v)
}

/// The grid's bounding box and cell size are the fixed domain's.
pub open spec fn on_fixed_domain(g: GridView) -> bool {
    &&& g.min_lon == DOMAIN_MIN_LON as int
    &&& g.max_lon == DOMAIN_MAX_LON as int
    &&& g.min_lat == DOMAIN_MIN_LAT as int
    &&& g.max_lat == DOMAIN_MAX_LAT as int
    &&& g.resolution == DOMAIN_RESOLUTION as int
}

/// One forecast cycle: a name, a global normalization table, and the
/// snapshots keyed by time offset. The first insertion establishes the
/// cycle's sample count; every later one must match it.
pub struct WindData {
    cycle: String,
    data: HashMap<u32, VectorField>,
    size: Option<usize>,
    max_speed: NormMap,
}

impl View for WindData {
    type V = WindView;

    closed spec fn view(&self) -> WindView {
        WindView {
            cycle: self.cycle@,
            snapshots: self.data@.map_values(|vf: VectorField| vf@),
            size: match self.size {
                Some(n) => Some(n as nat),
                None => None,
            },
            max_speed: self.max_speed@,
        }
    }
}

impl WindData {
    /// The store's invariant: the table is complete, the expected sample
    /// count exists as soon as any snapshot does, and every stored
    /// snapshot is well formed with that count.
    pub open spec fn wf(&self) -> bool {
        &&& self@.max_speed.len() == 256
        &&& match self@.size {
            Some(n) => forall|t: u32| #[trigger]
                self@.snapshots.contains_key(t) ==> snapshot_wf(self@.snapshots[t], n),
            None => self@.snapshots == Map::<u32, PairView>::empty(),
        }
    }

    /// An empty store for one forecast cycle.
    pub fn new(cycle: String, max_speed: NormMap) -> (r: WindData)
        requires
            max_speed.wf(),
        ensures
            r@.cycle == cycle@,
            r@.snapshots == Map::<u32, PairView>::empty(),
            r@.size is None,
            r@.max_speed == max_speed@,
            r.wf(),
    {
        let r = WindData { cycle, data: HashMap::new(), size: None, max_speed };
        proof {
            assert(r@.snapshots =~= Map::<u32, PairView>::empty());
        }
        r
    }

    /// The cycle's name, as an owned copy.
    pub fn cycle(&self) -> (r: String)
        ensures
            r@ == self@.cycle,
    {
        self.cycle.clone()
    }

    /// Whether a snapshot was stored under `tau`.
    pub fn has_tau(&self, tau: u32) -> (b: bool)
        ensures
            b == self@.snapshots.contains_key(tau),
    {
        self.data.contains_key(&tau)
    }

    /// Stores the snapshot for `tau`, replacing any prior one under the
    /// same key. The first insertion is always accepted and records the
    /// U array's length as the expected sample count; every later
    /// insertion must match it with both arrays, and a mismatch is
    /// refused with the store left untouched.
    pub fn set_data(&mut self, tau: u32, u: Vec<i8>, v: Vec<i8>) -> (r: Result<(), DataError>)
        requires
            old(self).wf(),
        ensures
            final(self).wf(),
            match r {
                Ok(_) => {
                    &&& !size_mismatch(old(self)@.size, u@.len(), v@.len())
                    &&& snapshot_inserted(old(self)@, final(self)@, tau, u@, v@)
                },
                Err(e) => {
                    &&& size_mismatch(old(self)@.size, u@.len(), v@.len())
                    &&& e == (DataError::SizeMismatch { tau })
                    &&& final(self)@ == old(self)@
                },
            },
    {
        let expected: usize = match self.size {
            Some(n) => {
                if u.len() != n || v.len() != n {
                    return Err(DataError::SizeMismatch { tau });
                }
                n
            },
            None => u.len(),
        };
        self.size = Some(expected);
        let fu = DataField::new(
            u,
            DOMAIN_MIN_LON,
            DOMAIN_MAX_LON,
            DOMAIN_MIN_LAT,
            DOMAIN_MAX_LAT,
            DOMAIN_RESOLUTION,
        );
        let fv = DataField::new(
            v,
            DOMAIN_MIN_LON,
            DOMAIN_MAX_LON,
            DOMAIN_MIN_LAT,
            DOMAIN_MAX_LAT,
            DOMAIN_RESOLUTION,
        );
        self.data.insert(tau, VectorField::new(fu, fv));
        proof {
            let pre = old(self)@;
            let post = self@;
            assert(post.snapshots =~= pre.snapshots.insert(tau, fresh_snapshot(u@, v@)));
            assert forall|t: u32| #[trigger] post.snapshots.contains_key(t) implies snapshot_wf(
                post.snapshots[t],
                expected as nat,
            ) by {
                if t != tau {
                    assert(pre.snapshots.contains_key(t));
                }
            }
        }
        Ok(())
    }

    /// The raw U samples stored for `tau`.
    pub fn u_data(&self, tau: u32) -> (r: Result<&Vec<i8>, DataError>)
        ensures
            match r {
                Ok(d) => self@.snapshots.contains_key(tau) && d@ == self@.snapshots[tau].u.samples,
                Err(e) => !self@.snapshots.contains_key(tau) && e == (DataError::TauMissing {
                    tau,
                }),
            },
    {
        match self.data.get(&tau) {
            Some(vf) => Ok(vf.u_data()),
            None => Err(DataError::TauMissing { tau }),
        }
    }

    /// The raw V samples stored for `tau`.
    pub fn v_data(&self, tau: u32) -> (r: Result<&Vec<i8>, DataError>)
        ensures
            match r {
                Ok(d) => self@.snapshots.contains_key(tau) && d@ == self@.snapshots[tau].v.samples,
                Err(e) => !self@.snapshots.contains_key(tau) && e == (DataError::TauMissing {
                    tau,
                }),
            },
    {
        match self.data.get(&tau) {
            Some(vf) => Ok(vf.v_data()),
            None => Err(DataError::TauMissing { tau }),
        }
    }

    /// The U texture for `tau` under the store's normalization table,
    /// cached per snapshot.
    pub fn u_data_for_gpu(&mut self, tau: u32) -> (r: Result<Vec<u8>, DataError>)
        requires
            old(self).wf(),
        ensures
            final(self).wf(),
            final(self)@.cycle == old(self)@.cycle,
            final(self)@.size == old(self)@.size,
            final(self)@.max_speed == old(self)@.max_speed,
            match r {
                Ok(tex) => {
                    &&& old(self)@.snapshots.contains_key(tau)
                    &&& old(self)@.snapshots[tau].u.covers()
                    &&& texture_fetched(
                        old(self)@.snapshots[tau].u,
                        final(self)@.snapshots[tau].u,
                        old(self)@.max_speed,
                        tex@,
                    )
                    &&& final(self)@.snapshots[tau].v == old(self)@.snapshots[tau].v
                    &&& final(self)@.snapshots == old(self)@.snapshots.insert(
                        tau,
                        final(self)@.snapshots[tau],
                    )
                },
                Err(e) => {
                    &&& final(self)@.snapshots == old(self)@.snapshots
                    &&& match e {
                        DataError::TauMissing { tau: t } => t == tau && !old(
                            self,
                        )@.snapshots.contains_key(tau),
                        DataError::GridTooSmall { tau: t } => t == tau && old(
                            self,
                        )@.snapshots.contains_key(tau) && !old(self)@.snapshots[tau].u.covers(),
                        DataError::SizeMismatch { .. } => false,
                    }
                },
            },
    {
        match self.data.remove(&tau) {
            None => {
                proof {
                    assert(self@.snapshots =~= old(self)@.snapshots);
                }
                Err(DataError::TauMissing { tau })
            },
            Some(mut vf) => {
                proof {
                    let pre = old(self)@;
                    assert(pre.snapshots.contains_key(tau));
                    assert(pre.snapshots[tau] == vf@);
                    assert(pre.size is Some);
                    assert(snapshot_wf(vf@, pre.size.unwrap()));
                }
                if !vf.u_covers_grid() {
                    self.data.insert(tau, vf);
                    proof {
                        assert(self@.snapshots =~= old(self)@.snapshots);
                    }
                    Err(DataError::GridTooSmall { tau })
                } else {
                    let tex = vf.u_data_for_gpu(&self.max_speed);
                    self.data.insert(tau, vf);
                    proof {
                        let pre = old(self)@;
                        let post = self@;
                        assert(post.snapshots =~= pre.snapshots.insert(tau, post.snapshots[tau]));
                        let n = pre.size.unwrap();
                        assert forall|t: u32| #[trigger]
                            post.snapshots.contains_key(t) implies snapshot_wf(
                            post.snapshots[t],
                            n,
                        ) by {
                            if t != tau {
                                assert(pre.snapshots.contains_key(t));
                            }
                        }
                    }
                    Ok(tex)
                }
            },
        }
    }

    /// The V texture for `tau` under the store's normalization table,
    /// cached per snapshot.
    pub fn v_data_for_gpu(&mut self, tau: u32) -> (r: Result<Vec<u8>, DataError>)
        requires
            old(self).wf(),
        ensures
            final(self).wf(),
            final(self)@.cycle == old(self)@.cycle,
            final(self)@.size == old(self)@.size,
            final(self)@.max_speed == old(self)@.max_speed,
            match r {
                Ok(tex) => {
                    &&& old(self)@.snapshots.contains_key(tau)
                    &&& old(self)@.snapshots[tau].v.covers()
                    &&& texture_fetched(
                        old(self)@.snapshots[tau].v,
                        final(self)@.snapshots[tau].v,
                        old(self)@.max_speed,
                        tex@,
                    )
                    &&& final(self)@.snapshots[tau].u == old(self)@.snapshots[tau].u
                    &&& final(self)@.snapshots == old(self)@.snapshots.insert(
                        tau,
                        final(self)@.snapshots[tau],
                    )
                },
                Err(e) => {
                    &&& final(self)@.snapshots == old(self)@.snapshots
                    &&& match e {
                        DataError::TauMissing { tau: t } => t == tau && !old(
                            self,
                        )@.snapshots.contains_key(tau),
                        DataError::GridTooSmall { tau: t } => t == tau && old(
                            self,
                        )@.snapshots.contains_key(tau) && !old(self)@.snapshots[tau].v.covers(),
                        DataError::SizeMismatch { .. } => false,
                    }
                },
            },
    {
        match self.data.remove(&tau) {
            None => {
                proof {
                    assert(self@.snapshots =~= old(self)@.snapshots);
                }
                Err(DataError::TauMissing { tau })
            },
            Some(mut vf) => {
                proof {
                    let pre = old(self)@;
                    assert(pre.snapshots.contains_key(tau));
                    assert(pre.snapshots[tau] == vf@);
                    assert(pre.size is Some);
                    assert(snapshot_wf(vf@, pre.size.unwrap()));
                }
                if !vf.v_covers_grid() {
                    self.data.insert(tau, vf);
                    proof {
                        assert(self@.snapshots =~= old(self)@.snapshots);
                    }
                    Err(DataError::GridTooSmall { tau })
                } else {
                    let tex = vf.v_data_for_gpu(&self.max_speed);
                    self.data.insert(tau, vf);
                    proof {
                        let pre = old(self)@;
                        let post = self@;
                        assert(post.snapshots =~= pre.snapshots.insert(tau, post.snapshots[tau]));
                        let n = pre.size.unwrap();
                        assert forall|t: u32| #[trigger]
                            post.snapshots.contains_key(t) implies snapshot_wf(
                            post.snapshots[t],
                            n,
                        ) by {
                            if t != tau {
                                assert(pre.snapshots.contains_key(t));
                            }
                        }
                    }
                    Ok(tex)
                }
            },
        }
    }
}

/// Law: inserting a snapshot and then reading it back returns exactly the
/// arrays that were inserted, element for element.
pub proof fn lemma_raw_round_trip(pre: WindView, post: WindView, tau: u32, u: Seq<i8>, v: Seq<i8>)
    requires
        snapshot_inserted(pre, post, tau, u, v),
    ensures
        post.snapshots.contains_key(tau),
        post.snapshots[tau].u.samples == u,
        post.snapshots[tau].v.samples == v,
{
}

} // verus!
