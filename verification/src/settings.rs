use vstd::prelude::*;

verus! {

/// Parameters handed to the point-set generator that feeds the triangulation:
/// a pseudorandom seed and the number of points to generate. The generator
/// itself is an external collaborator; the core only carries its settings.
#[derive(Debug, Clone, Copy, PartialEq, Eq, Structural)]
pub struct Settings {
    pub seed: u64,
    pub num_seeds: u32,
}

impl Default for Settings {
    fn default() -> (r: Self)
        ensures
            r.seed == 12345,
            r.num_seeds == 500,
    {
        Self { seed: 12345, num_seeds: 500 }
    }
}

} // verus!
