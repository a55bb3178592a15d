use vstd::prelude::*;

verus! {

/// Identity of a node that the scene graph of the engine owns.
///
/// A handle is the instance number that the engine gave the node. Two handles
/// are equal exactly when they name the same node. The number is never zero.
#[derive(Clone, Copy, Debug, PartialEq, Eq, Hash, Structural)]
pub struct NodeHandle {
    id: i64,
}

impl NodeHandle {
    #[verifier::type_invariant]
    spec fn nonzero(self) -> bool {
        self.id != 0
    }

    /// The instance number behind the handle.
    pub closed spec fn spec_id(self) -> i64 {
        self.id
    }

    /// A handle for the instance number `id`, or `None` for zero, which names no node.
    pub fn new(id: i64) -> (handle: Option<NodeHandle>)
        ensures
            id == 0 <==> handle is None,
            handle matches Some(h) ==> h.spec_id() == id,
    {
        if id == 0 {
            None
        } else {
            Some(NodeHandle { id })
        }
    }

    /// The instance number behind the handle.
    #[verifier::when_used_as_spec(spec_id)]
    pub fn id(self) -> (id: i64)
        ensures
            id == self.spec_id(),
            id != 0,
    {
        proof {
            use_type_invariant(&self);
        }
        self.id
    }

    /// Handles are equal exactly when their instance numbers are.
    pub proof fn same_id_same_node(a: NodeHandle, b: NodeHandle)
        ensures
            (a == b) <==> (a.spec_id() == b.spec_id()),
    {
    }
}

} // verus!
