//! Process-wide routing table: one binding per DID, shared by every
//! identity of the process. Serialization of concurrent callers (an actor
//! inbox or a mutex around the table) is the embedding's concern; every
//! operation on the table itself is verified here.

use vstd::prelude::*;
use crate::error::{AgentError, ErrorKind};

verus! {

/// Registry from DID to handler reference. A handler reference is an opaque
/// identifier the embedding maps to the task that owns the bound identity.
pub struct Router {
    routes: Vec<(String, u64)>,
}

/// The mapping described by a sequence of bindings (later entries would
/// shadow earlier ones; the table keeps DIDs unique, so none do).
pub open spec fn map_of(s: Seq<(String, u64)>) -> Map<Seq<char>, u64>
    decreases s.len(),
{
    if s.len() == 0 {
        Map::empty()
    } else {
        map_of(s.drop_last()).insert(s.last().0@, s.last().1)
    }
}

/// No two bindings are for the same DID.
pub open spec fn dids_unique(s: Seq<(String, u64)>) -> bool {
    forall|i: int, j: int| 0 <= i < j < s.len() ==> s[i].0@ != s[j].0@
}

proof fn lemma_map_of_contains(s: Seq<(String, u64)>, did: Seq<char>)
    ensures
        map_of(s).contains_key(did) <==> exists|i: int| 0 <= i < s.len() && s[i].0@ == did,
    decreases s.len(),
{
    if s.len() > 0 {
        lemma_map_of_contains(s.drop_last(), did);
        if map_of(s).contains_key(did) {
            if s.last().0@ == did {
                assert(s[s.len() - 1].0@ == did);
            } else {
                let i = choose|i: int| 0 <= i < s.drop_last().len() && s.drop_last()[i].0@ == did;
                assert(s[i].0@ == did);
            }
        }
        if exists|i: int| 0 <= i < s.len() && s[i].0@ == did {
            let i = choose|i: int| 0 <= i < s.len() && s[i].0@ == did;
            if i < s.len() - 1 {
                assert(s.drop_last()[i].0@ == did);
            }
        }
    }
}

proof fn lemma_map_of_value(s: Seq<(String, u64)>, i: int)
    requires
        dids_unique(s),
        0 <= i < s.len(),
    ensures
        map_of(s).contains_key(s[i].0@),
        map_of(s)[s[i].0@] == s[i].1,
    decreases s.len(),
{
    lemma_map_of_contains(s, s[i].0@);
    if i < s.len() - 1 {
        assert(s.drop_last()[i] == s[i]);
        lemma_map_of_value(s.drop_last(), i);
        assert(s.last().0@ != s[i].0@);
    }
}

impl Router {
    /// Bindings held, in insertion order.
    pub closed spec fn table(&self) -> Seq<(String, u64)> {
        self.routes@
    }

    /// The table always keeps DIDs unique.
    pub closed spec fn wf(&self) -> bool {
        dids_unique(self.routes@)
    }

    /// The mapping this table represents.
    pub closed spec fn view(&self) -> Map<Seq<char>, u64> {
        map_of(self.routes@)
    }

    /// An empty table.
    pub fn new() -> (r: Router)
        ensures
            r.wf(),
            r@ == Map::<Seq<char>, u64>::empty(),
    {
        Router { routes: Vec::new() }
    }

    /// Index of the binding for `did`, if any.
    fn find(&self, did: &String) -> (r: Option<usize>)
        requires
            self.wf(),
        ensures
            match r {
                Some(i) => i < self.table().len() && self.table()[i as int].0@ == did@
                    && self@.contains_key(did@) && self@[did@] == self.table()[i as int].1,
                None => !self@.contains_key(did@),
            },
    {
        proof {
            lemma_map_of_contains(self.routes@, did@);
        }
        let n = self.routes.len();
        for i in 0..n
            invariant
                n == self.routes@.len(),
                self.wf(),
                forall|j: int| 0 <= j < i ==> self.routes@[j].0@ != did@,
        {
            if self.routes[i].0.eq(did) {
                proof {
                    lemma_map_of_value(self.routes@, i as int);
                }
                return Some(i);
            }
        }
        None
    }

    /// Bind `did` to `handler`. Fails with a state conflict, and leaves the
    /// table untouched, exactly when `did` is already bound.
    pub fn add_a2a_route(&mut self, did: String, handler: u64) -> (r: Result<(), AgentError>)
        requires
            old(self).wf(),
        ensures
            final(self).wf(),
            match r {
                Ok(()) => !old(self)@.contains_key(did@)
                    && final(self)@ == old(self)@.insert(did@, handler),
                Err(e) => old(self)@.contains_key(did@)
                    && final(self)@ == old(self)@
                    && e.kind == ErrorKind::StateConflict,
            },
    {
        match self.find(&did) {
            Some(_) => Err(AgentError::new(
                ErrorKind::StateConflict,
                "Route already exists.",
                String::new(),
            )),
            None => {
                proof {
                    lemma_map_of_contains(self.routes@, did@);
                }
                self.routes.push((did, handler));
                proof {
                    assert(self.routes@.drop_last() == old(self).routes@);
                }
                Ok(())
            }
        }
    }

    /// Resolve a routed message: return the handler bound to `did` together
    /// with the bytes to deliver, byte-for-byte the bytes handed in. Fails
    /// with a not-found error exactly when `did` is unbound; the table is
    /// never changed by routing.
    pub fn route_a2a_msg(&self, did: &String, msg: Vec<u8>) -> (r: Result<(u64, Vec<u8>), AgentError>)
        requires
            self.wf(),
        ensures
            match r {
                Ok((handler, bytes)) => self@.contains_key(did@)
                    && handler == self@[did@]
                    && bytes == msg,
                Err(e) => !self@.contains_key(did@) && e.kind == ErrorKind::NotFound,
            },
    {
        match self.find(did) {
            Some(i) => Ok((self.routes[i].1, msg)),
            None => Err(AgentError::new(ErrorKind::NotFound, "No route found.", String::new())),
        }
    }
}

} // verus!
