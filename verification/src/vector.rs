//! How a namespace represents its vectors.
//!
//! A vector is a `Vec<u32>`: each component is an IEEE 754 single-precision
//! number by its bits. The core moves vectors and compares their lengths; it
//! does not compute with components.
use vstd::prelude::*;

verus! {

/// Vector representation of a namespace.
#[derive(Debug, Clone, Copy, PartialEq, Eq, Structural)]
pub enum VectorKind {
    /// One dense vector per row.
    Single,
    /// A bag of equal-width sub-vectors per row.
    Multivector,
}

/// The label of a kind, as responses and messages spell it.
pub open spec fn kind_label(kind: VectorKind) -> Seq<char> {
    match kind {
        VectorKind::Single => "single"@,
        VectorKind::Multivector => "multivector"@,
    }
}

impl VectorKind {
    /// The label of the kind.
    pub fn as_label(self) -> (r: &'static str)
        ensures
            r@ == kind_label(self),
    {
        match self {
            VectorKind::Single => "single",
            VectorKind::Multivector => "multivector",
        }
    }
}

/// A copy of a vector.
pub fn copy_vector(v: &Vec<u32>) -> (r: Vec<u32>)
    ensures
        r@ == v@,
{
    let mut out: Vec<u32> = Vec::new();
    let mut i: usize = 0;
    while i < v.len()
        invariant
            i <= v@.len(),
            out@ == v@.take(i as int),
        decreases v@.len() - i,
    {
        out.push(v[i]);
        i = i + 1;
    }
    assert(v@.take(v@.len() as int) =~= v@);
    out
}

/// The components of a bag of vectors.
pub open spec fn bag(v: Seq<Vec<u32>>) -> Seq<Seq<u32>> {
    v.map_values(|x: Vec<u32>| x@)
}

/// A copy of a bag of vectors.
pub fn copy_bag(v: &Vec<Vec<u32>>) -> (r: Vec<Vec<u32>>)
    ensures
        bag(r@) == bag(v@),
{
    let mut out: Vec<Vec<u32>> = Vec::new();
    let mut i: usize = 0;
    while i < v.len()
        invariant
            i <= v@.len(),
            out@.len() == i,
            forall|k: int| 0 <= k < i ==> out@[k]@ == v@[k]@,
        decreases v@.len() - i,
    {
        out.push(copy_vector(&v[i]));
        i = i + 1;
    }
    assert(bag(out@) =~= bag(v@));
    out
}

// ------------------------------------------------------------------ laws
/// The contents of a bag are its vectors, each with every component, in their order.
pub proof fn law_bags_are_seen_whole(v: Seq<Vec<u32>>, i: int)
    requires
        0 <= i < v.len(),
    ensures
        bag(v).len() == v.len(),
        bag(v)[i] == v[i]@,
{
}

/// The two representations are called single and multivector.
pub proof fn law_kinds_have_names(kind: VectorKind)
    ensures
        kind is Single ==> kind_label(kind) == "single"@,
        kind is Multivector ==> kind_label(kind) == "multivector"@,
{
}

} // verus!
