//! The entity registry: the live player, enemies and stars of the current
//! game, as tagged records over plain integer geometry. Systems query it by
//! kind and rewrite it; the well-formedness predicate keeps at most one
//! player alive and every stored vector within its bounds.

use vstd::prelude::*;

verus! {

use crate::geom::{Vec2, in_bounds};
use crate::seqs::{lemma_filter_push, lemma_filter_step};
use crate::{DIR_SCALE, POS_LIMIT};

/// What a live entity is.
#[derive(Clone, Copy, PartialEq, Eq, Structural, Debug)]
pub enum EntityKind {
    Player,
    Enemy,
    Star,
}

/// One live entity: its kind, its position in pixels, and — meaningful for
/// enemies only — its direction at the `DIR_SCALE` fixed-point scale.
#[derive(Clone, Copy, PartialEq, Eq, Structural, Debug)]
pub struct Entity {
    pub kind: EntityKind,
    pub pos: Vec2,
    pub dir: Vec2,
}

/// The store of live entities.
pub struct Registry {
    entities: Vec<Entity>,
}

/// How many entities of the given kind a sequence holds.
pub open spec fn count_kind(s: Seq<Entity>, k: EntityKind) -> int {
    s.filter(is_kind(k)).len() as int
}

/// The predicate an entity of kind `k` satisfies.
pub open spec fn is_kind(k: EntityKind) -> spec_fn(Entity) -> bool {
    |e: Entity| e.kind == k
}

/// The predicate an entity of any kind but `t` satisfies.
pub open spec fn not_kind(t: EntityKind) -> spec_fn(Entity) -> bool {
    |e: Entity| e.kind != t
}

/// A single entity within the registry's bounds: position within
/// `POS_LIMIT`, direction within `DIR_SCALE`.
pub open spec fn entity_in_bounds(e: Entity) -> bool {
    in_bounds(e.pos, POS_LIMIT as int) && in_bounds(e.dir, DIR_SCALE as int)
}

impl View for Registry {
    type V = Seq<Entity>;

    closed spec fn view(&self) -> Seq<Entity> {
        self.entities@
    }
}

/// Appending one entity raises its kind's count by one and no other.
pub proof fn lemma_count_push(s: Seq<Entity>, e: Entity, k: EntityKind)
    ensures
        count_kind(s.push(e), k) == count_kind(s, k) + if e.kind == k {
            1int
        } else {
            0int
        },
{
    reveal(Seq::filter);
    assert(s.push(e).drop_last() =~= s);
    assert(s.push(e).last() == e);
}

/// Two sequences whose entities agree on kinds, position for position, have
/// the same counts: moving or turning entities never changes how many there
/// are of each kind.
pub proof fn lemma_count_kinds_eq(s1: Seq<Entity>, s2: Seq<Entity>, k: EntityKind)
    requires
        s1.len() == s2.len(),
        forall|i: int| 0 <= i < s1.len() ==> s1[i].kind == s2[i].kind,
    ensures
        count_kind(s1, k) == count_kind(s2, k),
    decreases s1.len(),
{
    reveal(Seq::filter);
    if s1.len() > 0 {
        assert(forall|i: int|
            0 <= i < s1.drop_last().len() ==> s1.drop_last()[i].kind == s2.drop_last()[i].kind);
        lemma_count_kinds_eq(s1.drop_last(), s2.drop_last(), k);
        assert(s1.last().kind == s2.last().kind);
    }
}

/// Removing every entity of kind `t` zeroes that count and keeps the rest.
pub proof fn lemma_count_clear(s: Seq<Entity>, t: EntityKind, k: EntityKind)
    ensures
        count_kind(s.filter(not_kind(t)), t) == 0,
        k != t ==> count_kind(s.filter(not_kind(t)), k) == count_kind(s, k),
    decreases s.len(),
{
    reveal(Seq::filter);
    if s.len() > 0 {
        lemma_count_clear(s.drop_last(), t, k);
        if s.last().kind != t {
            lemma_count_push(s.drop_last().filter(not_kind(t)), s.last(), t);
            lemma_count_push(s.drop_last().filter(not_kind(t)), s.last(), k);
        }
    }
}

impl Registry {
    /// How many live players there are.
    pub open spec fn player_count(self) -> int {
        count_kind(self@, EntityKind::Player)
    }

    /// Every entity within bounds, and never more than one player.
    pub open spec fn wf(self) -> bool {
        self.player_count() <= 1 && forall|i: int|
            0 <= i < self@.len() ==> entity_in_bounds(#[trigger] self@[i])
    }

    /// Every entity's position within magnitude `b`.
    pub open spec fn positions_within(self, b: int) -> bool {
        forall|i: int| 0 <= i < self@.len() ==> in_bounds(#[trigger] self@[i].pos, b)
    }

    /// An empty registry.
    pub fn new() -> (r: Registry)
        ensures
            r@ == Seq::<Entity>::empty(),
            r.wf(),
            r.player_count() == 0,
    {
        let r = Registry { entities: Vec::new() };
        proof {
            reveal(Seq::filter);
            assert(r@ =~= Seq::<Entity>::empty());
        }
        r
    }

    /// How many entities are live.
    pub fn len(&self) -> (n: usize)
        ensures
            n == self@.len(),
    {
        self.entities.len()
    }

    /// The entity at an index.
    pub fn get(&self, i: usize) -> (e: &Entity)
        requires
            i < self@.len(),
        ensures
            *e == self@[i as int],
    {
        &self.entities[i]
    }

    /// Replaces the entity at an index.
    pub fn set_at(&mut self, i: usize, e: Entity)
        requires
            i < old(self)@.len(),
        ensures
            final(self)@ == old(self)@.update(i as int, e),
    {
        self.entities[i] = e;
    }

    /// Replaces the whole entity store.
    pub fn set_entities(&mut self, entities: Vec<Entity>)
        ensures
            final(self)@ == entities@,
    {
        self.entities = entities;
    }

    /// How many entities of one kind are live.
    pub fn count_of(&self, k: EntityKind) -> (n: usize)
        ensures
            n == count_kind(self@, k),
    {
        let mut n: usize = 0;
        let mut i: usize = 0;
        let len = self.entities.len();
        proof {
            reveal(Seq::filter);
            assert(self@.subrange(0, 0) =~= Seq::<Entity>::empty());
        }
        while i < len
            invariant
                i <= len,
                len == self@.len(),
                n == count_kind(self@.subrange(0, i as int), k),
                n <= i,
            decreases len - i,
        {
            proof {
                lemma_filter_step(self@, is_kind(k), i as int);
                if (is_kind(k))(self@[i as int]) {
                    lemma_count_push(
                        self@.subrange(0, i as int).filter(is_kind(k)),
                        self@[i as int],
                        k,
                    );
                }
            }
            if self.entities[i].kind == k {
                n = n + 1;
            }
            i = i + 1;
        }
        proof {
            assert(self@.subrange(0, len as int) =~= self@);
        }
        n
    }

    /// Adds one entity; a player may be added only while none is live.
    pub fn spawn(&mut self, kind: EntityKind, pos: Vec2, dir: Vec2)
        requires
            old(self).wf(),
            in_bounds(pos, POS_LIMIT as int),
            in_bounds(dir, DIR_SCALE as int),
            kind == EntityKind::Player ==> old(self).player_count() == 0,
        ensures
            final(self)@ == old(self)@.push(Entity { kind, pos, dir }),
            final(self).wf(),
            forall|k: EntityKind|
                count_kind(final(self)@, k) == count_kind(old(self)@, k) + if k == kind {
                    1int
                } else {
                    0int
                },
    {
        self.entities.push(Entity { kind, pos, dir });
        proof {
            assert forall|k: EntityKind|
                count_kind(self@, k) == count_kind(old(self)@, k) + if k == kind {
                    1int
                } else {
                    0int
                } by {
                lemma_count_push(old(self)@, Entity { kind, pos, dir }, k);
            }
        }
    }

    /// Removes every entity of the given kind, keeping all others in order.
    pub fn clear_kind(&mut self, t: EntityKind)
        requires
            old(self).wf(),
        ensures
            final(self)@ == old(self)@.filter(not_kind(t)),
            final(self).wf(),
            count_kind(final(self)@, t) == 0,
            forall|k: EntityKind| k != t ==> count_kind(final(self)@, k) == count_kind(old(self)@, k),
    {
        let mut out: Vec<Entity> = Vec::new();
        let mut i: usize = 0;
        let len = self.entities.len();
        proof {
            reveal(Seq::filter);
            assert(self@.subrange(0, 0) =~= Seq::<Entity>::empty());
            assert(out@ =~= self@.subrange(0, 0).filter(not_kind(t)));
        }
        while i < len
            invariant
                i <= len,
                len == self@.len(),
                self.wf(),
                out@ == self@.subrange(0, i as int).filter(not_kind(t)),
                forall|j: int| 0 <= j < out@.len() ==> entity_in_bounds(#[trigger] out@[j]),
            decreases len - i,
        {
            proof {
                lemma_filter_step(self@, not_kind(t), i as int);
            }
            let e = self.entities[i];
            if e.kind != t {
                out.push(e);
            }
            i = i + 1;
        }
        proof {
            assert(self@.subrange(0, len as int) =~= self@);
        }
        self.entities = out;
        proof {
            lemma_count_clear(old(self)@, t, EntityKind::Player);
            assert forall|k: EntityKind|
                k != t implies count_kind(self@, k) == count_kind(old(self)@, k) by {
                lemma_count_clear(old(self)@, t, k);
            }
            if t == EntityKind::Player {
                lemma_count_clear(old(self)@, t, EntityKind::Enemy);
            }
        }
    }

    /// The index of the live player, if one exists.
    pub fn find_player(&self) -> (r: Option<usize>)
        requires
            self.wf(),
        ensures
            match r {
                Some(i) => i < self@.len() && self@[i as int].kind == EntityKind::Player
                    && self.player_count() == 1 && forall|j: int|
                    0 <= j < self@.len() && j != i ==> (#[trigger] self@[j]).kind
                        != EntityKind::Player,
                None => self.player_count() == 0 && forall|j: int|
                    0 <= j < self@.len() ==> (#[trigger] self@[j]).kind != EntityKind::Player,
            },
    {
        let mut i: usize = 0;
        let len = self.entities.len();
        while i < len
            invariant
                i <= len,
                len == self@.len(),
                self.wf(),
                forall|j: int| 0 <= j < i ==> (#[trigger] self@[j]).kind != EntityKind::Player,
            decreases len - i,
        {
            if matches!(self.entities[i].kind, EntityKind::Player) {
                proof {
                    self@.lemma_filter_contains(is_kind(EntityKind::Player), i as int);
                    assert(self@.filter(is_kind(EntityKind::Player)).contains(self@[i as int]));
                    assert(self@.filter(is_kind(EntityKind::Player)).len() >= 1);
                    assert forall|j: int|
                        0 <= j < self@.len() && j != i implies (#[trigger] self@[j]).kind
                        != EntityKind::Player by {
                        if self@[j].kind == EntityKind::Player {
                            if j < i {
                                lemma_two_kind(self@, j, i as int, EntityKind::Player);
                            } else {
                                lemma_two_kind(self@, i as int, j, EntityKind::Player);
                            }
                        }
                    }
                }
                return Some(i);
            }
            i = i + 1;
        }
        proof {
            lemma_count_none(self@, EntityKind::Player);
        }
        None
    }
}

/// Filtering never raises a kind's count.
pub proof fn lemma_count_filter_le(s: Seq<Entity>, pred: spec_fn(Entity) -> bool, k: EntityKind)
    ensures
        count_kind(s.filter(pred), k) <= count_kind(s, k),
    decreases s.len(),
{
    reveal(Seq::filter);
    if s.len() > 0 {
        lemma_count_filter_le(s.drop_last(), pred, k);
        if pred(s.last()) {
            lemma_count_push(s.drop_last().filter(pred), s.last(), k);
        }
    }
}

/// Two distinct positions of one kind put its count at two or more.
pub proof fn lemma_two_kind(s: Seq<Entity>, i: int, j: int, k: EntityKind)
    requires
        0 <= i < j < s.len(),
        s[i].kind == k,
        s[j].kind == k,
    ensures
        count_kind(s, k) >= 2,
    decreases s.len(),
{
    reveal(Seq::filter);
    if j == s.len() - 1 {
        s.drop_last().lemma_filter_contains(is_kind(k), i);
        assert(s.drop_last().filter(is_kind(k)).contains(s.drop_last()[i]));
        assert(count_kind(s.drop_last(), k) >= 1);
        assert(s.last().kind == k);
    } else {
        lemma_two_kind(s.drop_last(), i, j, k);
    }
}

/// A positive count names an index of that kind.
pub proof fn lemma_count_pos_exists(s: Seq<Entity>, k: EntityKind)
    requires
        count_kind(s, k) >= 1,
    ensures
        exists|i: int| 0 <= i < s.len() && (#[trigger] s[i]).kind == k,
    decreases s.len(),
{
    reveal(Seq::filter);
    if s.len() > 0 {
        if s.last().kind == k {
            assert(s[s.len() - 1].kind == k);
        } else {
            lemma_count_pos_exists(s.drop_last(), k);
            let i = choose|i: int| 0 <= i < s.drop_last().len() && (#[trigger] s.drop_last()[i]).kind == k;
            assert(s[i].kind == k);
        }
    }
}

/// A sequence without any entity of kind `k` counts zero of them.
pub proof fn lemma_count_none(s: Seq<Entity>, k: EntityKind)
    requires
        forall|i: int| 0 <= i < s.len() ==> (#[trigger] s[i]).kind != k,
    ensures
        count_kind(s, k) == 0,
    decreases s.len(),
{
    reveal(Seq::filter);
    if s.len() > 0 {
        assert(forall|i: int| 0 <= i < s.drop_last().len() ==> (#[trigger] s.drop_last()[i]).kind != k);
        lemma_count_none(s.drop_last(), k);
    }
}

} // verus!
