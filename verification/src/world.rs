//! The registry of live bodies: each has an identity and a role, fixed when
//! it is spawned.

use vstd::prelude::*;
use crate::vector::Vec3;

verus! {

/// What a body is in the game. A body has exactly one role for its lifetime.
#[derive(Clone, Copy, PartialEq, Eq, Structural, Debug)]
pub enum Role {
    Player,
    Projectile,
    Hazard,
}

/// A live body: its identity and its role.
#[derive(Clone, Copy, PartialEq, Eq, Structural, Debug)]
pub struct Body {
    pub id: u64,
    pub role: Role,
}

/// The request to create a body: where, and with what push.
#[derive(Clone, Copy, PartialEq, Eq, Structural, Debug)]
pub struct SpawnCommand {
    pub id: u64,
    pub role: Role,
    pub position: Vec3,
    pub impulse: Vec3,
}

/// No identity occurs twice.
pub open spec fn distinct_ids(s: Seq<Body>) -> bool {
    forall|i: int, j: int| 0 <= i < j < s.len() ==> s[i].id != s[j].id
}

/// Whether a body with this identity is among `s`.
pub open spec fn has_id(s: Seq<Body>, id: u64) -> bool {
    exists|i: int| 0 <= i < s.len() && s[i].id == id
}

/// The role of the body with this identity, if it is among `s`.
pub open spec fn role_in(s: Seq<Body>, id: u64) -> Option<Role> {
    if has_id(s, id) {
        Some(s[choose|i: int| 0 <= i < s.len() && s[i].id == id].role)
    } else {
        None
    }
}

/// How many bodies of `s` have this role.
pub open spec fn count_role(s: Seq<Body>, role: Role) -> nat {
    s.filter(|b: Body| b.role == role).len()
}

/// The bodies of `s` whose identity is not in `ids`, in their order.
pub open spec fn without(s: Seq<Body>, ids: Set<u64>) -> Seq<Body> {
    s.filter(|b: Body| !ids.contains(b.id))
}

/// The identities of the bodies of `s`, in their order.
pub open spec fn ids_of(s: Seq<Body>) -> Seq<u64> {
    Seq::new(s.len(), |i: int| s[i].id)
}

/// A body of `s` has the role that is recorded with its identity.
pub proof fn lemma_role_of_member(s: Seq<Body>, i: int)
    requires
        distinct_ids(s),
        0 <= i < s.len(),
    ensures
        role_in(s, s[i].id) == Some(s[i].role),
{
    let id = s[i].id;
    assert(has_id(s, id));
    let k = choose|k: int| 0 <= k < s.len() && s[k].id == id;
    if k < i {
        assert(s[k].id != s[i].id);
    } else if i < k {
        assert(s[i].id != s[k].id);
    }
}

/// One more body counts for its own role and for no other.
pub proof fn lemma_count_push(s: Seq<Body>, b: Body, role: Role)
    ensures
        count_role(s.push(b), role) == count_role(s, role) + if b.role == role {
            1nat
        } else {
            0nat
        },
{
    s.lemma_filter_push(b, |x: Body| x.role == role);
}

/// An empty world has no body of any role.
pub proof fn lemma_count_empty(role: Role)
    ensures
        count_role(Seq::<Body>::empty(), role) == 0,
{
    reveal(Seq::filter);
}

/// More bodies of one role leave the number of bodies of every other role as
/// it was.
pub proof fn lemma_count_other_roles(s: Seq<Body>, more: Seq<Body>, added: Role, role: Role)
    requires
        forall|i: int| 0 <= i < more.len() ==> more[i].role == added,
        added != role,
    ensures
        count_role(s + more, role) == count_role(s, role),
    decreases more.len(),
{
    if more.len() == 0 {
        assert(s + more =~= s);
    } else {
        let front = more.drop_last();
        assert(s + more =~= (s + front).push(more.last()));
        lemma_count_push(s + front, more.last(), role);
        lemma_count_other_roles(s, front, added, role);
    }
}

/// Taking bodies of other roles away leaves the number of bodies of a role as
/// it was.
pub proof fn lemma_count_without(s: Seq<Body>, ids: Set<u64>, role: Role)
    requires
        forall|i: int| 0 <= i < s.len() && s[i].role == role ==> !ids.contains(s[i].id),
    ensures
        count_role(without(s, ids), role) == count_role(s, role),
    decreases s.len(),
{
    if s.len() == 0 {
        reveal(Seq::filter);
        assert(without(s, ids) =~= s);
    } else {
        let front = s.drop_last();
        let b = s.last();
        assert(s =~= front.push(b));
        front.lemma_filter_push(b, |x: Body| !ids.contains(x.id));
        lemma_count_push(front, b, role);
        lemma_count_without(front, ids, role);
        if !ids.contains(b.id) {
            lemma_count_push(without(front, ids), b, role);
        }
    }
}

/// Whether `id` occurs in `ids`.
pub fn contains_id(ids: &Vec<u64>, id: u64) -> (found: bool)
    ensures
        found == ids@.contains(id),
{
    let mut i: usize = 0;
    while i < ids.len()
        invariant
            i <= ids.len(),
            forall|k: int| 0 <= k < i ==> ids@[k] != id,
        decreases ids.len() - i,
    {
        if ids[i] == id {
            return true;
        }
        i += 1;
    }
    false
}

/// Adds `id` to `ids` unless it is there already.
pub fn insert_id(ids: &mut Vec<u64>, id: u64)
    requires
        old(ids)@.no_duplicates(),
    ensures
        final(ids)@.no_duplicates(),
        forall|x: u64| final(ids)@.contains(x) <==> old(ids)@.contains(x) || x == id,
        final(ids)@ == if old(ids)@.contains(id) {
            old(ids)@
        } else {
            old(ids)@.push(id)
        },
{
    if !contains_id(ids, id) {
        let ghost before = ids@;
        ids.push(id);
        proof {
            assert forall|x: u64| ids@.contains(x) <==> before.contains(x) || x == id by {
                if before.contains(x) {
                    let k = choose|k: int| 0 <= k < before.len() && before[k] == x;
                    assert(ids@[k] == x);
                }
                if x == id {
                    assert(ids@[before.len() as int] == x);
                }
            }
        }
    }
}

/// The registry of live bodies, in the order in which they were spawned.
pub struct World {
    bodies: Vec<Body>,
    next_id: u64,
}

/// In contracts a world is its live bodies. The identity that the next body
/// will get stands beside them, as `next_id()`.
impl View for World {
    type V = Seq<Body>;

    closed spec fn view(&self) -> Seq<Body> {
        self.bodies@
    }
}

impl World {
    /// The identity that the next body will get.
    pub closed spec fn next_id(&self) -> u64 {
        self.next_id
    }

    /// Identities are distinct, and all of them were handed out already.
    pub open spec fn wf(&self) -> bool {
        &&& distinct_ids(self@)
        &&& forall|i: int| 0 <= i < self@.len() ==> self@[i].id < self.next_id()
    }

    /// An empty world.
    pub fn new() -> (w: World)
        ensures
            w@ == Seq::<Body>::empty(),
            w.next_id() == 0,
            w.wf(),
    {
        World { bodies: Vec::new(), next_id: 0 }
    }

    pub fn len(&self) -> (n: usize)
        ensures
            n == self@.len(),
    {
        self.bodies.len()
    }

    /// The role of a live body, or `None` for an identity that is not live.
    pub fn role_of(&self, id: u64) -> (r: Option<Role>)
        requires
            self.wf(),
        ensures
            r == role_in(self@, id),
    {
        let mut i: usize = 0;
        while i < self.bodies.len()
            invariant
                i <= self.bodies.len(),
                self.wf(),
                forall|k: int| 0 <= k < i ==> self.bodies@[k].id != id,
            decreases self.bodies.len() - i,
        {
            if self.bodies[i].id == id {
                proof {
                    assert(0 <= i < self@.len() && self@[i as int].id == id);
                    let k = choose|k: int| 0 <= k < self@.len() && self@[k].id == id;
                    if i < k {
                        assert(self@[i as int].id != self@[k].id);
                    }
                }
                return Some(self.bodies[i].role);
            }
            i += 1;
        }
        None
    }

    /// How many live bodies have this role.
    pub fn count(&self, role: Role) -> (n: usize)
        ensures
            n == count_role(self@, role),
    {
        let ghost pred = |b: Body| b.role == role;
        let mut n: usize = 0;
        let mut i: usize = 0;
        proof {
            assert(self.bodies@.take(0) =~= Seq::<Body>::empty());
            reveal(Seq::filter);
        }
        while i < self.bodies.len()
            invariant
                i <= self.bodies.len(),
                n <= i,
                pred == (|b: Body| b.role == role),
                n == self.bodies@.take(i as int).filter(pred).len(),
            decreases self.bodies.len() - i,
        {
            proof {
                let prefix = self.bodies@.take(i as int);
                assert(self.bodies@.take(i + 1) =~= prefix.push(self.bodies@[i as int]));
                prefix.lemma_filter_push(self.bodies@[i as int], pred);
            }
            if self.bodies[i].role == role {
                n += 1;
            }
            i += 1;
        }
        proof {
            assert(self.bodies@.take(i as int) =~= self.bodies@);
        }
        n
    }

    /// Registers a new body and gives it an identity that no live body has.
    /// `None`, and nothing changes, once the identities have run out.
    pub fn spawn(&mut self, role: Role) -> (r: Option<u64>)
        requires
            old(self).wf(),
        ensures
            final(self).wf(),
            old(self).next_id() < u64::MAX ==> r == Some(old(self).next_id()) && final(self)@
                == old(self)@.push(Body { id: old(self).next_id(), role }) && final(self).next_id()
                == old(self).next_id() + 1,
            old(self).next_id() == u64::MAX ==> r is None && final(self)@ == old(self)@
                && final(self).next_id() == old(self).next_id(),
    {
        if self.next_id == u64::MAX {
            return None;
        }
        let id: u64 = self.next_id;
        self.bodies.push(Body { id, role });
        self.next_id = id + 1;
        Some(id)
    }

    /// Removes the bodies whose identity is in `ids`; the others stay, in
    /// their order. An identity that is not live is passed over.
    pub fn despawn_all(&mut self, ids: &Vec<u64>)
        requires
            old(self).wf(),
        ensures
            final(self).wf(),
            final(self)@ == without(old(self)@, ids@.to_set()),
            final(self).next_id() == old(self).next_id(),
    {
        let ghost gone = ids@.to_set();
        let ghost pred = |b: Body| !gone.contains(b.id);
        let mut kept: Vec<Body> = Vec::new();
        let mut i: usize = 0;
        proof {
            assert(self.bodies@.take(0) =~= Seq::<Body>::empty());
            reveal(Seq::filter);
        }
        while i < self.bodies.len()
            invariant
                i <= self.bodies.len(),
                self.wf(),
                gone == ids@.to_set(),
                pred == (|b: Body| !gone.contains(b.id)),
                kept@ == self.bodies@.take(i as int).filter(pred),
                distinct_ids(kept@),
                forall|k: int|
                    0 <= k < kept@.len() ==> exists|j: int|
                        0 <= j < i && self.bodies@[j] == #[trigger] kept@[k],
            decreases self.bodies.len() - i,
        {
            let b: Body = self.bodies[i];
            proof {
                let prefix = self.bodies@.take(i as int);
                assert(self.bodies@.take(i + 1) =~= prefix.push(b));
                prefix.lemma_filter_push(b, pred);
            }
            if !contains_id(ids, b.id) {
                proof {
                    assert forall|k: int| 0 <= k < kept@.len() implies kept@[k].id != b.id by {
                        let j = choose|j: int| 0 <= j < i && self.bodies@[j] == kept@[k];
                        assert(self@[j].id != self@[i as int].id);
                    }
                }
                let ghost before = kept@;
                kept.push(b);
                proof {
                    assert forall|k: int| 0 <= k < kept@.len() implies exists|j: int|
                        0 <= j < i + 1 && self.bodies@[j] == #[trigger] kept@[k] by {
                        if k < before.len() {
                            let j = choose|j: int| 0 <= j < i && self.bodies@[j] == before[k];
                            assert(self.bodies@[j] == kept@[k]);
                        } else {
                            assert(self.bodies@[i as int] == kept@[k]);
                        }
                    }
                }
            }
            i += 1;
        }
        proof {
            assert(self.bodies@.take(i as int) =~= self.bodies@);
            assert forall|k: int| 0 <= k < kept@.len() implies kept@[k].id < self.next_id by {
                let j = choose|j: int| 0 <= j < i && self.bodies@[j] == kept@[k];
                assert(self@[j].id < self.next_id());
            }
        }
        self.bodies = kept;
    }

    /// The identities of the live bodies, in the order in which they were
    /// spawned.
    pub fn ids(&self) -> (ids: Vec<u64>)
        ensures
            ids@ == ids_of(self@),
    {
        let mut ids: Vec<u64> = Vec::new();
        let mut i: usize = 0;
        while i < self.bodies.len()
            invariant
                i <= self.bodies.len(),
                ids@.len() == i,
                forall|k: int| 0 <= k < i ==> ids@[k] == self.bodies@[k].id,
            decreases self.bodies.len() - i,
        {
            ids.push(self.bodies[i].id);
            i += 1;
        }
        proof {
            assert(ids@ =~= ids_of(self@));
        }
        ids
    }

    /// Removes every body and starts the identities over.
    pub fn clear(&mut self)
        ensures
            final(self)@ == Seq::<Body>::empty(),
            final(self).next_id() == 0,
            final(self).wf(),
    {
        self.bodies = Vec::new();
        self.next_id = 0;
    }
}

} // verus!
