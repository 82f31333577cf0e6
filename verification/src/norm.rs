use vstd::prelude::*;

verus! {

/// Copies a byte buffer element by element.
pub(crate) fn copy_bytes(v: &Vec<u8>) -> (r: Vec<u8>)
    ensures
        r@ == v@,
{
    let mut r: Vec<u8> = Vec::new();
    let mut i: usize = 0;
    while i < v.len()
        invariant
            0 <= i <= v@.len(),
            r@.len() == i,
            forall|j: int| 0 <= j < i ==> r@[j] == v@[j],
        decreases v@.len() - i,
    {
        r.push(v[i]);
        i += 1;
    }
    proof {
        assert(r@ =~= v@);
    }
    r
}

/// A normalization table: entry `i` holds the texture byte assigned to the
/// signed sample value `i - 128`.
///
/// Texture bytes are produced from signed samples by a real-valued scaling
/// formula that the hosting layer evaluates. Since a sample is a single
/// signed byte, any such formula induces a finite table, and the table alone
/// determines every texture this library produces; the library therefore
/// stores and compares the table itself, and the host converts its bound
/// into a table once at the boundary.
pub struct NormMap {
    levels: Vec<u8>,
}

impl View for NormMap {
    type V = Seq<u8>;

    closed spec fn view(&self) -> Seq<u8> {
        self.levels@
    }
}

impl NormMap {
    /// Well-formed: one output byte for each of the 256 sample values.
    pub open spec fn wf(&self) -> bool {
        self@.len() == 256
    }

    pub fn new(levels: Vec<u8>) -> (r: NormMap)
        requires
            levels@.len() == 256,
        ensures
            r@ == levels@,
            r.wf(),
    {
        NormMap { levels }
    }

    /// The texture byte this table assigns to the sample `s`.
    pub fn level_for(&self, s: i8) -> (r: u8)
        requires
            self.wf(),
        ensures
            r == self@[s as int + 128],
    {
        let idx: usize = ((s as i16) + 128) as usize;
        self.levels[idx]
    }

    /// True exactly when the two tables assign the same byte to every sample.
    pub fn same_levels(&self, other: &NormMap) -> (r: bool)
        ensures
            r == (self@ == other@),
    {
        if self.levels.len() != other.levels.len() {
            return false;
        }
        let mut i: usize = 0;
        while i < self.levels.len()
            invariant
                0 <= i <= self.levels@.len(),
                self.levels@.len() == other.levels@.len(),
                forall|j: int| 0 <= j < i ==> self.levels@[j] == other.levels@[j],
            decreases self.levels@.len() - i,
        {
            if self.levels[i] != other.levels[i] {
                return false;
            }
            i += 1;
        }
        proof {
            assert(self.levels@ =~= other.levels@);
        }
        true
    }

    /// An owned table with the same entries.
    pub fn duplicate(&self) -> (r: NormMap)
        ensures
            r@ == self@,
    {
        NormMap { levels: copy_bytes(&self.levels) }
    }
}

} // verus!
