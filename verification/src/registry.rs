use crate::handle::NodeHandle;
use crate::key::EventKey;
use vstd::prelude::*;

verus! {

/// The buttons are held in the order of their keys, and no key occurs twice.
pub open spec fn ordered<E: EventKey>(s: Seq<(E, NodeHandle)>) -> bool {
    forall|i: int, j: int|
        #![trigger s[i], s[j]]
        0 <= i < j < s.len() ==> s[i].0.rank() < s[j].0.rank()
}

/// Some button is registered under `key`.
pub open spec fn has_key<E: EventKey>(s: Seq<(E, NodeHandle)>, key: E) -> bool {
    exists|i: int| #![trigger s[i]] 0 <= i < s.len() && s[i].0 == key
}

/// Some button shows the node `handle`.
pub open spec fn has_node<E: EventKey>(s: Seq<(E, NodeHandle)>, handle: NodeHandle) -> bool {
    exists|i: int| #![trigger s[i]] 0 <= i < s.len() && s[i].1 == handle
}

/// The keys under which a button is registered.
pub open spec fn keys<E: EventKey>(s: Seq<(E, NodeHandle)>) -> Set<E> {
    Set::new(|key: E| has_key(s, key))
}

/// The number of buttons whose key comes before `key`.
pub open spec fn preceding<E: EventKey>(s: Seq<(E, NodeHandle)>, key: E) -> nat
    decreases s.len(),
{
    if s.len() == 0 {
        0
    } else if s.last().0.rank() < key.rank() {
        preceding(s.drop_last(), key) + 1
    } else {
        preceding(s.drop_last(), key)
    }
}

/// The buttons after `key` was registered for `handle`: a key that is already
/// there keeps its node, a new key takes its place in the order of the keys.
pub open spec fn register<E: EventKey>(
    s: Seq<(E, NodeHandle)>,
    key: E,
    handle: NodeHandle,
) -> Seq<(E, NodeHandle)> {
    if has_key(s, key) {
        s
    } else {
        s.insert(preceding(s, key) as int, (key, handle))
    }
}

/// The buttons after every pair of `found` was registered, first pair first.
pub open spec fn register_all<E: EventKey>(
    s: Seq<(E, NodeHandle)>,
    found: Seq<(E, NodeHandle)>,
) -> Seq<(E, NodeHandle)>
    decreases found.len(),
{
    if found.len() == 0 {
        s
    } else {
        register(register_all(s, found.drop_last()), found.last().0, found.last().1)
    }
}

/// The node registered under `key`, if there is one.
pub open spec fn node_of<E: EventKey>(s: Seq<(E, NodeHandle)>, key: E) -> Option<NodeHandle>
    decreases s.len(),
{
    if s.len() == 0 {
        None
    } else if s.first().0 == key {
        Some(s.first().1)
    } else {
        node_of(s.drop_first(), key)
    }
}

/// The key of the first button, in the order of the keys, whose node is `handle`.
pub open spec fn resolve<E: EventKey>(s: Seq<(E, NodeHandle)>, handle: NodeHandle) -> Option<E>
    decreases s.len(),
{
    if s.len() == 0 {
        None
    } else if s.first().1 == handle {
        Some(s.first().0)
    } else {
        resolve(s.drop_first(), handle)
    }
}

/// In ordered buttons, the place that splits the keys below `key` from the
/// others is the number of keys that come before `key`.
pub proof fn lemma_preceding_is_split<E: EventKey>(s: Seq<(E, NodeHandle)>, key: E, at: int)
    requires
        0 <= at <= s.len(),
        forall|j: int| #![trigger s[j]] 0 <= j < at ==> s[j].0.rank() < key.rank(),
        forall|j: int| #![trigger s[j]] at <= j < s.len() ==> s[j].0.rank() >= key.rank(),
    ensures
        preceding(s, key) == at,
    decreases s.len(),
{
    if s.len() > 0 {
        let rest = s.drop_last();
        if at == s.len() {
            assert(s.last() == s[at - 1]);
            lemma_preceding_is_split(rest, key, at - 1);
        } else {
            assert(s.last() == s[s.len() - 1]);
            lemma_preceding_is_split(rest, key, at);
        }
    }
}

/// The number of keys that come before `key` is a place in the sequence, and in
/// ordered buttons it splits the keys below `key` from the others.
pub proof fn lemma_preceding_splits<E: EventKey>(s: Seq<(E, NodeHandle)>, key: E)
    requires
        ordered(s),
    ensures
        preceding(s, key) <= s.len(),
        forall|j: int| #![trigger s[j]] 0 <= j < preceding(s, key) ==> s[j].0.rank() < key.rank(),
        forall|j: int|
            #![trigger s[j]]
            preceding(s, key) <= j < s.len() ==> s[j].0.rank() >= key.rank(),
    decreases s.len(),
{
    if s.len() > 0 {
        let rest = s.drop_last();
        let last = s.len() - 1;
        assert(ordered(rest)) by {
            assert forall|i: int, j: int| 0 <= i < j < rest.len() implies rest[i].0.rank()
                < rest[j].0.rank() by {
                assert(rest[i] == s[i] && rest[j] == s[j]);
            }
        }
        lemma_preceding_splits(rest, key);
        assert forall|j: int| 0 <= j < preceding(s, key) implies s[j].0.rank() < key.rank() by {
            if j < last {
                assert(rest[j] == s[j]);
                if j >= preceding(rest, key) {
                    assert(s[j].0.rank() < s[last].0.rank());
                }
            }
        }
        assert forall|j: int| preceding(s, key) <= j < s.len() implies s[j].0.rank()
            >= key.rank() by {
            if j < last {
                assert(rest[j] == s[j]);
            }
        }
    }
}

/// Registering keeps the buttons ordered.
pub proof fn lemma_register_keeps_order<E: EventKey>(
    s: Seq<(E, NodeHandle)>,
    key: E,
    handle: NodeHandle,
)
    requires
        ordered(s),
    ensures
        ordered(register(s, key, handle)),
{
    if !has_key(s, key) {
        lemma_preceding_splits(s, key);
        let at = preceding(s, key) as int;
        let r = s.insert(at, (key, handle));
        assert forall|i: int, j: int| 0 <= i < j < r.len() implies r[i].0.rank()
            < r[j].0.rank() by {
            let a = if i < at { i } else { i - 1 };
            let b = if j < at { j } else { j - 1 };
            if i != at {
                assert(r[i] == s[a]);
            }
            if j != at {
                assert(r[j] == s[b]);
            }
            if j == at {
                assert(s[a].0.rank() < key.rank());
            } else if i == at {
                assert(s[b].0.rank() >= key.rank());
                if s[b].0.rank() == key.rank() {
                    E::rank_is_injective(s[b].0, key);
                    assert(has_key(s, key));
                }
            } else {
                assert(a < b);
            }
        }
    }
}

/// Registering adds the key to the keys, and nothing else.
pub proof fn lemma_register_keys<E: EventKey>(s: Seq<(E, NodeHandle)>, key: E, handle: NodeHandle)
    requires
        ordered(s),
    ensures
        keys(register(s, key, handle)) == keys(s).insert(key),
{
    let r = register(s, key, handle);
    if has_key(s, key) {
        assert(keys(r) =~= keys(s).insert(key));
    } else {
        lemma_preceding_splits(s, key);
        let at = preceding(s, key) as int;
        assert forall|k: E| keys(r).contains(k) <==> keys(s).insert(key).contains(k) by {
            if has_key(r, k) {
                let i = choose|i: int| #![trigger r[i]] 0 <= i < r.len() && r[i].0 == k;
                if i < at {
                    assert(r[i] == s[i]);
                } else if i > at {
                    assert(r[i] == s[i - 1]);
                }
            }
            if k == key {
                assert(r[at].0 == key);
            } else if has_key(s, k) {
                let i = choose|i: int| #![trigger s[i]] 0 <= i < s.len() && s[i].0 == k;
                if i < at {
                    assert(r[i] == s[i]);
                } else {
                    assert(r[i + 1] == s[i]);
                }
            }
        }
        assert(keys(r) =~= keys(s).insert(key));
    }
}

/// Registering a sequence of pairs keeps the buttons ordered.
pub proof fn lemma_register_all_keeps_order<E: EventKey>(
    s: Seq<(E, NodeHandle)>,
    found: Seq<(E, NodeHandle)>,
)
    requires
        ordered(s),
    ensures
        ordered(register_all(s, found)),
    decreases found.len(),
{
    if found.len() > 0 {
        lemma_register_all_keeps_order(s, found.drop_last());
        lemma_register_keeps_order(
            register_all(s, found.drop_last()),
            found.last().0,
            found.last().1,
        );
    }
}

/// Registering a sequence of pairs adds their keys to the keys, and nothing else.
pub proof fn lemma_register_all_keys<E: EventKey>(
    s: Seq<(E, NodeHandle)>,
    found: Seq<(E, NodeHandle)>,
)
    requires
        ordered(s),
    ensures
        keys(register_all(s, found)) == keys(s).union(keys(found)),
    decreases found.len(),
{
    if found.len() == 0 {
        assert(keys(register_all(s, found)) =~= keys(s).union(keys(found)));
    } else {
        let rest = found.drop_last();
        let last = found.last();
        let before = register_all(s, rest);
        lemma_register_all_keys(s, rest);
        lemma_register_all_keeps_order(s, rest);
        lemma_register_keys(before, last.0, last.1);
        assert forall|k: E| has_key(found, k) <==> has_key(rest, k) || k == last.0 by {
            if has_key(found, k) {
                let i = choose|i: int| #![trigger found[i]] 0 <= i < found.len() && found[i].0 == k;
                if i < rest.len() {
                    assert(rest[i] == found[i]);
                }
            }
            if has_key(rest, k) {
                let i = choose|i: int| #![trigger rest[i]] 0 <= i < rest.len() && rest[i].0 == k;
                assert(found[i] == rest[i]);
            }
            if k == last.0 {
                assert(found[found.len() - 1].0 == k);
            }
        }
        assert(keys(register_all(s, found)) =~= keys(s).union(keys(found)));
    }
}

/// Registering pairs whose keys are all taken changes nothing.
pub proof fn lemma_register_all_taken<E: EventKey>(
    s: Seq<(E, NodeHandle)>,
    found: Seq<(E, NodeHandle)>,
)
    requires
        forall|i: int| #![trigger found[i]] 0 <= i < found.len() ==> has_key(s, found[i].0),
    ensures
        register_all(s, found) == s,
    decreases found.len(),
{
    if found.len() > 0 {
        let rest = found.drop_last();
        assert forall|i: int| 0 <= i < rest.len() implies has_key(s, #[trigger] rest[i].0) by {
            assert(rest[i] == found[i]);
        }
        lemma_register_all_taken(s, rest);
        assert(has_key(s, found[found.len() - 1].0));
    }
}

/// What `resolve` gives is the key of the first button whose node is
/// `handle`, and it gives none only where no button has that node.
pub proof fn lemma_resolve_is_first_match<E: EventKey>(s: Seq<(E, NodeHandle)>, handle: NodeHandle)
    ensures
        match resolve(s, handle) {
            Some(key) => exists|i: int|
                #![trigger s[i]]
                0 <= i < s.len() && s[i] == (key, handle) && forall|j: int|
                    #![trigger s[j]]
                    0 <= j < i ==> s[j].1 != handle,
            None => forall|i: int| #![trigger s[i]] 0 <= i < s.len() ==> s[i].1 != handle,
        },
    decreases s.len(),
{
    if s.len() > 0 {
        let rest = s.drop_first();
        if s.first().1 == handle {
            assert(s[0] == (s.first().0, handle));
        } else {
            lemma_resolve_is_first_match(rest, handle);
            match resolve(rest, handle) {
                Some(key) => {
                    let i = choose|i: int|
                        #![trigger rest[i]]
                        0 <= i < rest.len() && rest[i] == (key, handle) && forall|j: int|
                            #![trigger rest[j]]
                            0 <= j < i ==> rest[j].1 != handle;
                    assert(s[i + 1] == rest[i]);
                    assert forall|j: int| 0 <= j < i + 1 implies (#[trigger] s[j]).1 != handle by {
                        if j > 0 {
                            assert(s[j] == rest[j - 1]);
                        }
                    }
                },
                None => {
                    assert forall|i: int| 0 <= i < s.len() implies (#[trigger] s[i]).1
                        != handle by {
                        if i > 0 {
                            assert(s[i] == rest[i - 1]);
                        }
                    }
                },
            }
        }
    }
}

/// In ordered buttons, the node of a key is the node of the one button that
/// has the key, and a key has no node only where no button has it.
pub proof fn lemma_node_of_is_entry<E: EventKey>(s: Seq<(E, NodeHandle)>, key: E)
    requires
        ordered(s),
    ensures
        match node_of(s, key) {
            Some(node) => exists|i: int| #![trigger s[i]] 0 <= i < s.len() && s[i] == (key, node),
            None => !has_key(s, key),
        },
        forall|i: int|
            #![trigger s[i]]
            0 <= i < s.len() && s[i].0 == key ==> node_of(s, key) == Some(s[i].1),
    decreases s.len(),
{
    if s.len() > 0 {
        let rest = s.drop_first();
        if s.first().0 == key {
            assert(s[0] == (key, s.first().1));
            assert forall|i: int| 0 <= i < s.len() && (#[trigger] s[i]).0 == key implies node_of(
                s,
                key,
            ) == Some(s[i].1) by {
                if i > 0 {
                    assert(s[0].0.rank() < s[i].0.rank());
                }
            }
        } else {
            assert(ordered(rest)) by {
                assert forall|i: int, j: int| 0 <= i < j < rest.len() implies rest[i].0.rank()
                    < rest[j].0.rank() by {
                    assert(rest[i] == s[i + 1] && rest[j] == s[j + 1]);
                }
            }
            lemma_node_of_is_entry(rest, key);
            match node_of(rest, key) {
                Some(node) => {
                    let i = choose|i: int|
                        #![trigger rest[i]]
                        0 <= i < rest.len() && rest[i] == (key, node);
                    assert(s[i + 1] == rest[i]);
                },
                None => {
                    if has_key(s, key) {
                        let i = choose|i: int|
                            #![trigger s[i]]
                            0 <= i < s.len() && s[i].0 == key;
                        assert(rest[i - 1] == s[i]);
                    }
                },
            }
            assert forall|i: int| 0 <= i < s.len() && (#[trigger] s[i]).0 == key implies node_of(
                s,
                key,
            ) == Some(s[i].1) by {
                assert(rest[i - 1] == s[i]);
            }
        }
    }
}

/// The buttons of a menu: each key with the node that shows it, in the order
/// of the keys.
pub struct ButtonRegistry<E: EventKey> {
    entries: Vec<(E, NodeHandle)>,
}

impl<E: EventKey> View for ButtonRegistry<E> {
    type V = Seq<(E, NodeHandle)>;

    closed spec fn view(&self) -> Seq<(E, NodeHandle)> {
        self.entries@
    }
}

impl<E: EventKey> ButtonRegistry<E> {
    #[verifier::type_invariant]
    pub(crate) open spec fn in_order(self) -> bool {
        ordered(self@)
    }

    /// A registry without buttons.
    pub fn new() -> (registry: Self)
        ensures
            registry@ == Seq::<(E, NodeHandle)>::empty(),
    {
        ButtonRegistry { entries: Vec::new() }
    }

    /// The number of buttons.
    pub fn len(&self) -> (n: usize)
        ensures
            n == self@.len(),
            ordered(self@),
    {
        proof {
            use_type_invariant(self);
        }
        self.entries.len()
    }

    /// The key and the node at place `i` in the order of the keys, if there
    /// are that many buttons.
    pub fn entry(&self, i: usize) -> (e: Option<(E, NodeHandle)>)
        ensures
            e == if i < self@.len() {
                Some(self@[i as int])
            } else {
                None
            },
    {
        if i < self.entries.len() {
            Some(self.entries[i])
        } else {
            None
        }
    }

    /// The first place whose key does not come before a key of rank `rank`.
    fn split(&self, rank: u32) -> (at: usize)
        ensures
            at <= self@.len(),
            forall|j: int| #![trigger self@[j]] 0 <= j < at ==> self@[j].0.rank() < rank,
            forall|j: int| #![trigger self@[j]] at <= j < self@.len() ==> self@[j].0.rank() >= rank,
    {
        proof {
            use_type_invariant(self);
        }
        let n: usize = self.entries.len();
        let mut at: usize = 0;
        while at < n
            invariant
                n == self.entries@.len(),
                at <= n,
                ordered(self.entries@),
                forall|j: int|
                    #![trigger self.entries@[j]]
                    0 <= j < at ==> self.entries@[j].0.rank() < rank,
            decreases n - at,
        {
            if self.entries[at].0.ordinal() >= rank {
                assert forall|j: int| at <= j < self@.len() implies self@[j].0.rank() >= rank by {
                    if j > at {
                        assert(self.entries@[at as int].0.rank() < self.entries@[j].0.rank());
                    }
                }
                return at;
            }
            at = at + 1;
        }
        at
    }

    /// Registers `handle` under `key`, unless the key is registered already:
    /// then nothing changes.
    pub fn register(&mut self, key: E, handle: NodeHandle)
        ensures
            final(self)@ == register(old(self)@, key, handle),
            ordered(final(self)@),
    {
        proof {
            use_type_invariant(&*self);
        }
        let rank: u32 = key.ordinal();
        let at: usize = self.split(rank);
        proof {
            lemma_preceding_is_split(self@, key, at as int);
            lemma_register_keeps_order(self@, key, handle);
        }
        if at < self.entries.len() && self.entries[at].0.ordinal() == rank {
            proof {
                E::rank_is_injective(self@[at as int].0, key);
                assert(has_key(self@, key));
            }
            return ;
        }
        proof {
            if has_key(self@, key) {
                let i = choose|i: int| #![trigger self@[i]] 0 <= i < self@.len() && self@[i].0 == key;
                if i > at {
                    assert(self@[at as int].0.rank() < self@[i].0.rank());
                }
            }
        }
        let mut entries: Vec<(E, NodeHandle)> = Vec::new();
        core::mem::swap(&mut entries, &mut self.entries);
        entries.insert(at, (key, handle));
        self.entries = entries;
    }

    /// The node registered under `key`, if there is one.
    pub fn get(&self, key: E) -> (node: Option<NodeHandle>)
        ensures
            node == node_of(self@, key),
            node is Some <==> has_key(self@, key),
    {
        proof {
            use_type_invariant(self);
            lemma_node_of_is_entry(self@, key);
        }
        let rank: u32 = key.ordinal();
        let n: usize = self.entries.len();
        let mut i: usize = 0;
        assert(self.entries@.skip(0) == self.entries@);
        while i < n
            invariant
                n == self.entries@.len(),
                i <= n,
                rank == key.rank(),
                node_of(self.entries@, key) == node_of(self.entries@.skip(i as int), key),
            decreases n - i,
        {
            let ghost rest = self.entries@.skip(i as int);
            assert(rest.first() == self.entries@[i as int]);
            assert(rest.drop_first() == self.entries@.skip(i + 1));
            if self.entries[i].0.ordinal() == rank {
                proof {
                    E::rank_is_injective(self.entries@[i as int].0, key);
                }
                return Some(self.entries[i].1);
            }
            i = i + 1;
        }
        None
    }

    /// The key of the button whose node is `handle`; where several buttons
    /// share the node, the first of them in the order of the keys.
    pub fn lookup_by_handle(&self, handle: NodeHandle) -> (key: Option<E>)
        ensures
            key == resolve(self@, handle),
            key is Some <==> has_node(self@, handle),
    {
        proof {
            lemma_resolve_is_first_match(self@, handle);
        }
        let n: usize = self.entries.len();
        let mut i: usize = 0;
        assert(self.entries@.skip(0) == self.entries@);
        while i < n
            invariant
                n == self.entries@.len(),
                i <= n,
                resolve(self.entries@, handle) == resolve(self.entries@.skip(i as int), handle),
            decreases n - i,
        {
            let ghost rest = self.entries@.skip(i as int);
            assert(rest.first() == self.entries@[i as int]);
            assert(rest.drop_first() == self.entries@.skip(i + 1));
            if self.entries[i].1 == handle {
                return Some(self.entries[i].0);
            }
            i = i + 1;
        }
        None
    }
}

} // verus!
