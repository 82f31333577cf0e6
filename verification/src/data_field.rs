use vstd::prelude::*;

use crate::norm::{copy_bytes, NormMap};
use vstd::arithmetic::div_mod::{
    lemma_div_pos_is_pos, lemma_fundamental_div_mod_converse, lemma_multiply_divide_lt,
};

verus! {

/// Side length, in pixels, of every texture buffer this library produces.
pub const GPU_TEX_SIZE: u32 = 512;

/// A cached texture transform: the normalization table it was computed with
/// and the square pixel buffer it produced.
pub struct CacheView {
    pub levels: Seq<u8>,
    pub texels: Seq<u8>,
}

/// The mathematical content of one scalar field: its samples in row-major
/// order over the grid, its geographic bounding box and cell size in
/// thousandths of a degree, and the cached texture transform, if any.
pub struct GridView {
    pub samples: Seq<i8>,
    pub min_lon: int,
    pub max_lon: int,
    pub min_lat: int,
    pub max_lat: int,
    pub resolution: int,
    pub cache: Option<CacheView>,
}

impl GridView {
    /// Cells per row: the floor of the longitude extent over the cell size,
    /// plus one.
    pub open spec fn width(self) -> int {
        (self.max_lon - self.min_lon) / self.resolution + 1
    }

    /// Cells per column: the floor of the latitude extent over the cell
    /// size, plus one.
    pub open spec fn height(self) -> int {
        (self.max_lat - self.min_lat) / self.resolution + 1
    }

    /// The bounding box is ordered, cells have positive size, and both grid
    /// dimensions fit the machine words that address them.
    pub open spec fn geo_wf(self) -> bool {
        &&& self.min_lon <= self.max_lon
        &&& self.min_lat <= self.max_lat
        &&& 1 <= self.resolution
        &&& self.width() <= u32::MAX
        &&& self.height() <= u32::MAX
    }

    /// The samples fill the grid, so every cell the resampler can address
    /// exists.
    pub open spec fn covers(self) -> bool {
        self.samples.len() >= self.width() * self.height()
    }

    /// A stored cache entry is never stale: it holds exactly the texture of
    /// the current samples under its own table.
    pub open spec fn cache_wf(self) -> bool {
        match self.cache {
            Some(c) => {
                &&& c.levels.len() == 256
                &&& c.texels == texture_seq(
                    self.samples,
                    c.levels,
                    self.width(),
                    self.height(),
                    GPU_TEX_SIZE as int,
                )
            },
            None => true,
        }
    }

    pub open spec fn wf(self) -> bool {
        self.geo_wf() && self.cache_wf()
    }
}

/// The row-major cell that output pixel `(x, y)` reads: each axis is scaled
/// independently and floored, and the source array is addressed column by
/// column, at `height * column + row`.
pub open spec fn src_cell(x: int, y: int, width: int, height: int, tex: int) -> int {
    height * ((x * width) / tex) + (y * height) / tex
}

/// The texture byte at output pixel `(x, y)`: the normalization table's
/// entry for the nearest source sample.
pub open spec fn texel_at(
    samples: Seq<i8>,
    levels: Seq<u8>,
    width: int,
    height: int,
    tex: int,
    x: int,
    y: int,
) -> u8 {
    levels[samples[src_cell(x, y, width, height, tex)] + 128]
}

/// The whole square texture of side `tex`, pixel `(x, y)` at offset
/// `y * tex + x`.
pub open spec fn texture_seq(
    samples: Seq<i8>,
    levels: Seq<u8>,
    width: int,
    height: int,
    tex: int,
) -> Seq<u8> {
    Seq::new((tex * tex) as nat, |i: int| texel_at(samples, levels, width, height, tex, i % tex, i / tex))
}

/// Every cell the resampler addresses lies inside a `width` by `height`
/// grid.
pub proof fn lemma_src_cell_in_grid(x: int, y: int, width: int, height: int, tex: int)
    requires
        0 <= x < tex,
        0 <= y < tex,
        1 <= width,
        1 <= height,
    ensures
        0 <= (x * width) / tex < width,
        0 <= (y * height) / tex < height,
        0 <= src_cell(x, y, width, height, tex) < width * height,
{
    let col = (x * width) / tex;
    let row = (y * height) / tex;
    assert(0 <= x * width && x * width < tex * width) by (nonlinear_arith)
        requires
            0 <= x < tex,
            1 <= width,
    ;
    assert(0 <= y * height && y * height < tex * height) by (nonlinear_arith)
        requires
            0 <= y < tex,
            1 <= height,
    ;
    lemma_div_pos_is_pos(x * width, tex);
    lemma_multiply_divide_lt(x * width, tex, width);
    lemma_div_pos_is_pos(y * height, tex);
    lemma_multiply_divide_lt(y * height, tex, height);
    assert(0 <= height * col + row && height * col + row < width * height) by (nonlinear_arith)
        requires
            0 <= col < width,
            0 <= row < height,
            1 <= height,
    ;
}

/// A product of two values below a common limit stays below the limit's
/// square.
proof fn lemma_mul_bound(a: int, b: int, lim: int)
    requires
        0 <= a <= lim,
        0 <= b <= lim,
    ensures
        0 <= a * b <= lim * lim,
{
    assert(0 <= a * b && a * b <= lim * lim) by (nonlinear_arith)
        requires
            0 <= a <= lim,
            0 <= b <= lim,
    ;
}

/// Resamples a `width` by `height` grid of signed samples onto a square
/// texture of side `tex_size` by nearest neighbor, mapping each sample
/// through the normalization table.
#[verifier::loop_isolation(false)]
pub fn resample(
    samples: &Vec<i8>,
    levels: &NormMap,
    width: u32,
    height: u32,
    tex_size: u32,
) -> (r: Vec<u8>)
    requires
        levels.wf(),
        1 <= width,
        1 <= height,
        1 <= tex_size,
        samples@.len() >= width * height,
        tex_size * tex_size <= usize::MAX,
    ensures
        r@ == texture_seq(samples@, levels@, width as int, height as int, tex_size as int),
        r@.len() == tex_size * tex_size,
{
    let ghost w = width as int;
    let ghost h = height as int;
    let ghost t = tex_size as int;
    let n: usize = samples.len();
    let mut out: Vec<u8> = Vec::new();
    let mut y: u32 = 0;
    while y < tex_size
        invariant
            y <= tex_size,
            out@.len() == y * tex_size,
            forall|i: int|
                0 <= i < out@.len() ==> out@[i] == texel_at(
                    samples@,
                    levels@,
                    w,
                    h,
                    t,
                    i % t,
                    i / t,
                ),
        decreases tex_size - y,
    {
        let mut x: u32 = 0;
        while x < tex_size
            invariant
                x <= tex_size,
                y < tex_size,
                out@.len() == y * tex_size + x,
                forall|i: int|
                    0 <= i < out@.len() ==> out@[i] == texel_at(
                        samples@,
                        levels@,
                        w,
                        h,
                        t,
                        i % t,
                        i / t,
                    ),
            decreases tex_size - x,
        {
            proof {
                lemma_src_cell_in_grid(x as int, y as int, w, h, t);
                lemma_mul_bound(x as int, w, u32::MAX as int);
                lemma_mul_bound(y as int, h, u32::MAX as int);
                lemma_mul_bound(h, (x * width) as int / t, u32::MAX as int);
            }
            let col: u64 = (x as u64) * (width as u64) / (tex_size as u64);
            let row: u64 = (y as u64) * (height as u64) / (tex_size as u64);
            let idx: u64 = (height as u64) * col + row;
            proof {
                assert(idx == src_cell(x as int, y as int, w, h, t));
                assert(idx < n);
            }
            let s: i8 = samples[idx as usize];
            out.push(levels.level_for(s));
            proof {
                let k = y * t + x;
                lemma_fundamental_div_mod_converse(k, t, y as int, x as int);
                assert(out@[k] == levels@[samples@[src_cell(x as int, y as int, w, h, t)] + 128]);
                assert(out@[k] == texel_at(samples@, levels@, w, h, t, k % t, k / t));
            }
            x += 1;
        }
        proof {
            assert((y + 1) * t == y * t + t) by (nonlinear_arith);
        }
        y += 1;
    }
    proof {
        assert(out@ =~= texture_seq(samples@, levels@, w, h, t));
    }
    out
}

/// A square texture buffer for the graphics pipeline, remembering the
/// normalization table it was built with.
pub struct DataForGpu {
    pub data: Vec<u8>,
    pub max_val: NormMap,
}

impl DataForGpu {
    pub fn new(
        data_to_transform: &Vec<i8>,
        max_val: &NormMap,
        width: u32,
        height: u32,
    ) -> (r: DataForGpu)
        requires
            max_val.wf(),
            1 <= width,
            1 <= height,
            data_to_transform@.len() >= width * height,
        ensures
            r.data@ == texture_seq(
                data_to_transform@,
                max_val@,
                width as int,
                height as int,
                GPU_TEX_SIZE as int,
            ),
            r.data@.len() == GPU_TEX_SIZE * GPU_TEX_SIZE,
            r.max_val@ == max_val@,
    {
        DataForGpu {
            data: resample(data_to_transform, max_val, width, height, GPU_TEX_SIZE),
            max_val: max_val.duplicate(),
        }
    }
}

/// How one texture request changes a field and what it returns: the samples
/// and geometry stay as they were, the result is exactly the resampled
/// texture under `levels`, the cache afterwards holds that table with that
/// buffer, and a request whose table is already cached leaves the field
/// untouched.
pub open spec fn texture_fetched(pre: GridView, post: GridView, levels: Seq<u8>, r: Seq<u8>) -> bool {
    &&& post.samples == pre.samples
    &&& post.min_lon == pre.min_lon
    &&& post.max_lon == pre.max_lon
    &&& post.min_lat == pre.min_lat
    &&& post.max_lat == pre.max_lat
    &&& post.resolution == pre.resolution
    &&& r == texture_seq(pre.samples, levels, pre.width(), pre.height(), GPU_TEX_SIZE as int)
    &&& post.cache == Some(CacheView { levels, texels: r })
    &&& match pre.cache {
        Some(c) => c.levels == levels ==> post == pre,
        None => true,
    }
}

/// One rectangular grid of signed 8-bit samples with its geographic
/// bounding box, plus the one-entry texture cache.
pub struct DataField {
    data: Vec<i8>,
    min_lon: i32,
    max_lon: i32,
    min_lat: i32,
    max_lat: i32,
    resolution: i32,
    data_for_gpu: Option<DataForGpu>,
}

impl DataField {
    /// The mathematical content of the field.
    pub closed spec fn model(&self) -> GridView {
        GridView {
            samples: self.data@,
            min_lon: self.min_lon as int,
            max_lon: self.max_lon as int,
            min_lat: self.min_lat as int,
            max_lat: self.max_lat as int,
            resolution: self.resolution as int,
            cache: match self.data_for_gpu {
                Some(c) => Some(CacheView { levels: c.max_val@, texels: c.data@ }),
                None => None,
            },
        }
    }

    pub open spec fn wf(&self) -> bool {
        self.model().wf()
    }

    /// Builds a field over the given box and cell size, with no cached
    /// texture. Coordinates and cell size are in thousandths of a degree.
    pub fn new(
        data: Vec<i8>,
        min_lon: i32,
        max_lon: i32,
        min_lat: i32,
        max_lat: i32,
        resolution: i32,
    ) -> (r: DataField)
        requires
            min_lon <= max_lon,
            min_lat <= max_lat,
            1 <= resolution,
            (max_lon - min_lon) / (resolution as int) + 1 <= u32::MAX,
            (max_lat - min_lat) / (resolution as int) + 1 <= u32::MAX,
        ensures
            r.model() == (GridView {
                samples: data@,
                min_lon: min_lon as int,
                max_lon: max_lon as int,
                min_lat: min_lat as int,
                max_lat: max_lat as int,
                resolution: resolution as int,
                cache: None,
            }),
            r.wf(),
    {
        DataField { data, min_lon, max_lon, min_lat, max_lat, resolution, data_for_gpu: None }
    }

    /// A read-only view of the raw samples, with no copy.
    pub fn view(&self) -> (r: &Vec<i8>)
        ensures
            r@ == self.model().samples,
    {
        &self.data
    }

    /// Cells per row of the stored grid.
    pub fn data_width(&self) -> (w: u32)
        requires
            self.model().geo_wf(),
        ensures
            w == self.model().width(),
    {
        let diff: u64 = ((self.max_lon as i64) - (self.min_lon as i64)) as u64;
        let w64: u64 = diff / (self.resolution as u64) + 1;
        w64 as u32
    }

    /// Cells per column of the stored grid.
    pub fn data_height(&self) -> (h: u32)
        requires
            self.model().geo_wf(),
        ensures
            h == self.model().height(),
    {
        let diff: u64 = ((self.max_lat as i64) - (self.min_lat as i64)) as u64;
        let h64: u64 = diff / (self.resolution as u64) + 1;
        h64 as u32
    }

    /// True exactly when the samples fill the grid, so that a texture can
    /// be computed.
    pub fn covers_grid(&self) -> (b: bool)
        requires
            self.model().geo_wf(),
        ensures
            b == self.model().covers(),
    {
        let w = self.data_width();
        let h = self.data_height();
        proof {
            lemma_mul_bound(w as int, h as int, u32::MAX as int);
        }
        (self.data.len() as u64) >= (w as u64) * (h as u64)
    }

    /// The square texture of the samples under the given normalization
    /// table. Served from the cache when the table matches the cached one;
    /// recomputed, and the cache replaced, when it does not.
    pub fn view_for_gpu(&mut self, max_val: &NormMap) -> (r: Vec<u8>)
        requires
            old(self).wf(),
            max_val.wf(),
            old(self).model().covers(),
        ensures
            final(self).wf(),
            texture_fetched(old(self).model(), final(self).model(), max_val@, r@),
    {
        let hit = match &self.data_for_gpu {
            Some(c) => c.max_val.same_levels(max_val),
            None => false,
        };
        if !hit {
            let w = self.data_width();
            let h = self.data_height();
            proof {
                lemma_mul_bound(w as int, h as int, u32::MAX as int);
            }
            self.data_for_gpu = Some(DataForGpu::new(&self.data, max_val, w, h));
        }
        let c = self.data_for_gpu.as_ref().unwrap();
        copy_bytes(&c.data)
    }
}

/// Law: a second texture request under the table already cached returns the
/// byte-identical buffer and leaves the field exactly as it was; nothing is
/// recomputed.
pub proof fn lemma_texture_refetch_same_table(
    g0: GridView,
    g1: GridView,
    g2: GridView,
    levels: Seq<u8>,
    r1: Seq<u8>,
    r2: Seq<u8>,
)
    requires
        texture_fetched(g0, g1, levels, r1),
        texture_fetched(g1, g2, levels, r2),
    ensures
        r2 == r1,
        g2 == g1,
{
}

/// Law: texture requests under two tables in turn each return the texture
/// of the original samples under their own table, and the cache afterwards
/// holds the table requested last.
pub proof fn lemma_texture_refetch_new_table(
    g0: GridView,
    g1: GridView,
    g2: GridView,
    levels1: Seq<u8>,
    levels2: Seq<u8>,
    r1: Seq<u8>,
    r2: Seq<u8>,
)
    requires
        texture_fetched(g0, g1, levels1, r1),
        texture_fetched(g1, g2, levels2, r2),
    ensures
        r1 == texture_seq(g0.samples, levels1, g0.width(), g0.height(), GPU_TEX_SIZE as int),
        r2 == texture_seq(g0.samples, levels2, g0.width(), g0.height(), GPU_TEX_SIZE as int),
        g2.cache == Some(CacheView { levels: levels2, texels: r2 }),
{
}

} // verus!
