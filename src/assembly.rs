use vstd::prelude::*;

verus! {

/// The vertex list that an index list describes: entry `i` is
/// `vertices[indices[i]]`.
pub fn gather_vertices<T: Copy>(vertices: &Vec<T>, indices: &Vec<usize>) -> (out: Vec<T>)
    requires
        forall|i: int| 0 <= i < indices@.len() ==> (indices@[i] as int) < vertices@.len(),
    ensures
        out@.len() == indices@.len(),
        forall|i: int| 0 <= i < indices@.len() ==> out@[i] == vertices@[indices@[i] as int],
{
    let mut out: Vec<T> = Vec::with_capacity(indices.len());
    let mut i: usize = 0;
    while i < indices.len()
        invariant
            i <= indices@.len(),
            out@.len() == i,
            forall|k: int| 0 <= k < indices@.len() ==> (indices@[k] as int) < vertices@.len(),
            forall|k: int| 0 <= k < i ==> out@[k] == vertices@[indices@[k] as int],
        decreases indices@.len() - i,
    {
        let v = vertices[indices[i]];
        out.push(v);
        i = i + 1;
    }
    out
}

/// Primitive assembly: every run of three consecutive vertices is one
/// triangle; a trailing run of one or two vertices is dropped.
pub fn assemble_triangles<T: Copy>(vertices: &Vec<T>) -> (tris: Vec<(T, T, T)>)
    ensures
        tris@.len() == vertices@.len() / 3,
        forall|t: int|
            0 <= t < tris@.len() ==> #[trigger] tris@[t] == (
                vertices@[3 * t],
                vertices@[3 * t + 1],
                vertices@[3 * t + 2],
            ),
{
    let mut tris: Vec<(T, T, T)> = Vec::new();
    let mut i: usize = 0;
    while vertices.len() - i >= 3
        invariant
            i == 3 * tris@.len(),
            i <= vertices@.len(),
            tris@.len() <= vertices@.len() / 3,
            forall|t: int|
                0 <= t < tris@.len() ==> #[trigger] tris@[t] == (
                    vertices@[3 * t],
                    vertices@[3 * t + 1],
                    vertices@[3 * t + 2],
                ),
        decreases vertices@.len() - i,
    {
        tris.push((vertices[i], vertices[i + 1], vertices[i + 2]));
        i = i + 3;
    }
    tris
}

} // verus!
