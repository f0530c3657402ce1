use vstd::prelude::*;

verus! {

/// The one-hot vector of length `size` whose only `1` stands at `i`.
pub open spec fn one_hot(i: nat, size: nat) -> Seq<usize> {
    Seq::new(size, |j: int| if j == i { 1usize } else { 0usize })
}

/// Encodes the class index `i` among `size` classes as a one-hot vector.
pub fn one_hot_encode(i: usize, size: usize) -> (r: Vec<usize>)
    requires
        i < size,
    ensures
        r@ == one_hot(i as nat, size as nat),
{
    let mut encoded: Vec<usize> = Vec::new();
    let mut j: usize = 0;
    while j < size
        invariant
            j <= size,
            encoded@ == one_hot(i as nat, j as nat),
        decreases size - j,
    {
        if j == i {
            encoded.push(1);
        } else {
            encoded.push(0);
        }
        j = j + 1;
        assert(encoded@ =~= one_hot(i as nat, j as nat));
    }
    encoded
}

} // verus!
