//! Predator-side data: orca attributes, pods, and the pod pool.
//!
//! A pod is a named collection of orca identities sharing perception and
//! alignment context.  An orca belongs to at most one pod; membership is
//! fixed at creation.  The pod owns its member list, while each orca only
//! carries its pod id back-reference.

use vstd::prelude::*;

verus! {

/// Index of a pod inside the pod pool.
pub type PodId = usize;

/// Gender of an orca.
#[derive(Clone, Copy, PartialEq, Eq, Structural, Debug)]
pub enum Gender {
    Male,
    Female,
}

/// Ecotype of a pod.
#[derive(Clone, Copy, PartialEq, Eq, Structural, Debug)]
pub enum Type {
    Resident,
    Transient,
}

/// Descriptive attributes of one orca.
pub struct Orca {
    pub name: String,
    pub gender: Gender,
    /// age in years
    pub age: u32,
    /// mass in kg
    pub mass: u32,
    pub orca_type: Type,
    pub pod_id: Option<PodId>,
}

/// A named collection of orca identities.
pub struct Pod {
    pub name: String,
    pub members: Vec<u64>,
}

/// The mathematical value of a pod: its name and member identities.
pub struct AbsPod {
    pub name: String,
    pub members: Seq<u64>,
}

impl View for Pod {
    type V = AbsPod;

    open spec fn view(&self) -> AbsPod {
        AbsPod { name: self.name, members: self.members@ }
    }
}

/// All pods of the running simulation, indexed by `PodId`.
pub struct PodPool(pub Vec<Pod>);

impl View for PodPool {
    type V = Seq<AbsPod>;

    open spec fn view(&self) -> Seq<AbsPod> {
        self.0@.map(|i: int, p: Pod| p@)
    }
}

impl PodPool {
    /// An empty pool.
    pub fn new() -> (r: PodPool)
        ensures
            r@ =~= Seq::<AbsPod>::empty(),
    {
        PodPool(Vec::new())
    }

    /// Number of pods.
    pub fn len(&self) -> (r: usize)
        ensures
            r == self@.len(),
    {
        self.0.len()
    }

    /// Add a pod with no members yet; its id is the new index.
    pub fn push_pod(&mut self, name: String) -> (id: PodId)
        ensures
            id == old(self)@.len(),
            final(self)@ =~= old(self)@.push(AbsPod { name: name, members: Seq::empty() }),
    {
        let id = self.0.len();
        self.0.push(Pod { name, members: Vec::new() });
        proof {
            assert(final(self).0@.len() == old(self).0@.len() + 1);
        }
        id
    }

    /// Record a member identity in pod `id`, if that pod exists.
    pub fn add_member(&mut self, id: PodId, member: u64)
        ensures
            id < old(self)@.len() ==> final(self)@ =~= old(self)@.update(
                id as int,
                AbsPod {
                    name: old(self)@[id as int].name,
                    members: old(self)@[id as int].members.push(member),
                },
            ),
            id >= old(self)@.len() ==> final(self)@ =~= old(self)@,
    {
        if id < self.0.len() {
            self.0[id].members.push(member);
        }
    }

    /// Remove every pod.
    pub fn clear(&mut self)
        ensures
            final(self)@ =~= Seq::<AbsPod>::empty(),
    {
        self.0.clear();
    }
}

} // verus!
