use vstd::prelude::*;

verus! {

/// A key that names one interactive element of a menu, such as "start" or "quit".
///
/// The keys of one type are totally ordered by their rank. The order carries no
/// meaning of its own: it only fixes the order in which the buttons of a menu
/// are walked.
pub trait EventKey: Copy + Sized {
    /// The place of the key in the order of its type.
    spec fn rank(&self) -> nat;

    /// Keys that differ have different ranks.
    proof fn rank_is_injective(a: Self, b: Self)
        requires
            a.rank() == b.rank(),
        ensures
            a == b,
    ;

    /// Computes the rank of the key.
    fn ordinal(&self) -> (r: u32)
        ensures
            r == self.rank(),
    ;
}

} // verus!
