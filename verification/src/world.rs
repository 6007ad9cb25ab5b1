//! The parts of loading the world that are not geometry: default values of a
//! prop's description, and the grouping of a mesh's indices into triangles.
use vstd::prelude::*;

verus! {

/// The name of a prop that gives none.
pub fn prop_default_name() -> (r: String)
    ensures
        r@ == "UNNAMED"@,
{
    String::from_str("UNNAMED")
}

/// The model of a prop that gives none.
pub fn prop_default_modelname() -> (r: String)
    ensures
        r@ == "cube"@,
{
    String::from_str("cube")
}

/// Whether a prop that does not say is moved by physics: it is.
pub fn prop_default_dynamic() -> (r: bool)
    ensures
        r,
{
    true
}

/// The triangles of a mesh, each made of three consecutive indices.
pub fn triangles(indices: &[u32]) -> (r: Vec<[u32; 3]>)
    requires
        indices@.len() % 3 == 0,
    ensures
        r@.len() == indices@.len() / 3,
        forall|t: int|
            0 <= t < r@.len() ==> #[trigger] r@[t]@ == seq![
                indices@[3 * t],
                indices@[3 * t + 1],
                indices@[3 * t + 2],
            ],
{
    let mut r: Vec<[u32; 3]> = Vec::new();
    let mut k: usize = 0;
    while k < indices.len()
        invariant
            k <= indices@.len(),
            k % 3 == 0,
            indices@.len() % 3 == 0,
            r@.len() == k / 3,
            forall|t: int|
                0 <= t < r@.len() ==> #[trigger] r@[t]@ == seq![
                    indices@[3 * t],
                    indices@[3 * t + 1],
                    indices@[3 * t + 2],
                ],
        decreases indices@.len() - k,
    {
        let tri: [u32; 3] = [indices[k], indices[k + 1], indices[k + 2]];
        assert(tri@ == seq![indices@[k as int], indices@[k + 1], indices@[k + 2]]);
        r.push(tri);
        k += 3;
    }
    r
}

} // verus!
