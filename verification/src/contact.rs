//! The cauldron contact filter: from the overlaps that the physics engine
//! reports for one step to the deliveries that count.
//!
//! An overlap counts when exactly one side is the cauldron sensor and the
//! other side is an entity tagged as an item. The entity is then removed
//! from the world, so it counts once, however often the step reports it.

use vstd::prelude::*;
use std::collections::HashMap;
use crate::item::ItemKind;

verus! {

/// An item that reached the cauldron: the entity to remove from the world,
/// and the kind to hand to the recipe.
#[derive(Clone, Copy, Debug, PartialEq, Eq, Structural)]
pub struct Delivery {
    pub entity: u64,
    pub kind: ItemKind,
}

/// The entity that meets the sensor in `pair`: the other side where exactly
/// one side is the sensor, nothing otherwise.
pub open spec fn other_side(sensor: u64, pair: (u64, u64)) -> Option<u64> {
    if pair.0 == sensor && pair.1 != sensor {
        Some(pair.1)
    } else if pair.1 == sensor && pair.0 != sensor {
        Some(pair.0)
    } else {
        None
    }
}

/// Whether `deliveries` already holds `entity`.
pub open spec fn holds_entity(deliveries: Seq<Delivery>, entity: u64) -> bool {
    exists|i: int| 0 <= i < deliveries.len() && (#[trigger] deliveries[i]).entity == entity
}

/// The deliveries of one step: the pairs are read in order, and a pair adds
/// a delivery when an item meets the sensor in it that no earlier pair of
/// the step has delivered.
pub open spec fn deliveries_of(
    sensor: u64,
    pairs: Seq<(u64, u64)>,
    tags: Map<u64, ItemKind>,
) -> Seq<Delivery>
    decreases pairs.len(),
{
    if pairs.len() == 0 {
        Seq::empty()
    } else {
        let before = deliveries_of(sensor, pairs.drop_last(), tags);
        match other_side(sensor, pairs.last()) {
            Some(entity) => if tags.contains_key(entity) && !holds_entity(before, entity) {
                before.push(Delivery { entity, kind: tags[entity] })
            } else {
                before
            },
            None => before,
        }
    }
}

/// The kinds of `deliveries`, in order: what the progression is told.
pub open spec fn kinds_of(deliveries: Seq<Delivery>) -> Seq<ItemKind> {
    Seq::new(deliveries.len(), |i: int| deliveries[i].kind)
}

fn other_entity(sensor: u64, pair: (u64, u64)) -> (r: Option<u64>)
    ensures
        r == other_side(sensor, pair),
{
    if pair.0 == sensor && pair.1 != sensor {
        Some(pair.1)
    } else if pair.1 == sensor && pair.0 != sensor {
        Some(pair.0)
    } else {
        None
    }
}

fn already_delivered(deliveries: &Vec<Delivery>, entity: u64) -> (r: bool)
    ensures
        r == holds_entity(deliveries@, entity),
{
    let mut i: usize = 0;
    while i < deliveries.len()
        invariant
            i <= deliveries.len(),
            forall|j: int| 0 <= j < i ==> (#[trigger] deliveries@[j]).entity != entity,
        decreases deliveries.len() - i,
    {
        if deliveries[i].entity == entity {
            return true;
        }
        i = i + 1;
    }
    false
}

/// Filters the overlaps of one physics step. `sensor` is the cauldron
/// sensor, `pairs` the overlaps as reported, `tags` the entities that are
/// items, each with its kind. Every delivery that comes back asks for its
/// entity to be removed and its kind to be handed to the progression.
pub fn detect_deliveries(
    sensor: u64,
    pairs: &Vec<(u64, u64)>,
    tags: &HashMap<u64, ItemKind>,
) -> (out: Vec<Delivery>)
    ensures
        out@ == deliveries_of(sensor, pairs@, tags@),
{
    broadcast use vstd::std_specs::hash::group_hash_axioms;

    let mut out: Vec<Delivery> = Vec::new();
    let mut i: usize = 0;
    while i < pairs.len()
        invariant
            i <= pairs.len(),
            out@ == deliveries_of(sensor, pairs@.take(i as int), tags@),
        decreases pairs.len() - i,
    {
        assert(pairs@.take(i + 1).drop_last() =~= pairs@.take(i as int));
        if let Some(entity) = other_entity(sensor, pairs[i]) {
            if !already_delivered(&out, entity) {
                if let Some(kind) = tags.get(&entity) {
                    out.push(Delivery { entity, kind: *kind });
                }
            }
        }
        i = i + 1;
    }
    assert(pairs@.take(pairs@.len() as int) =~= pairs@);
    out
}

/// The kinds of `deliveries`, in order.
pub fn delivered_kinds(deliveries: &Vec<Delivery>) -> (kinds: Vec<ItemKind>)
    ensures
        kinds@ == kinds_of(deliveries@),
{
    let mut kinds: Vec<ItemKind> = Vec::new();
    let mut i: usize = 0;
    while i < deliveries.len()
        invariant
            i <= deliveries.len(),
            kinds@.len() == i,
            forall|j: int| 0 <= j < i ==> kinds@[j] == deliveries@[j].kind,
        decreases deliveries.len() - i,
    {
        kinds.push(deliveries[i].kind);
        i = i + 1;
    }
    assert(kinds@ =~= kinds_of(deliveries@));
    kinds
}

/// Every delivery of a step is owed: its entity is an item of the kind
/// named, and meets the sensor in one of the pairs.
pub proof fn lemma_deliveries_are_owed(
    sensor: u64,
    pairs: Seq<(u64, u64)>,
    tags: Map<u64, ItemKind>,
    i: int,
)
    requires
        0 <= i < deliveries_of(sensor, pairs, tags).len(),
    ensures
        ({
            let d = deliveries_of(sensor, pairs, tags)[i];
            &&& d.entity != sensor
            &&& tags.contains_key(d.entity)
            &&& tags[d.entity] == d.kind
            &&& exists|j: int|
                0 <= j < pairs.len() && other_side(sensor, #[trigger] pairs[j]) == Some(d.entity)
        }),
    decreases pairs.len(),
{
    if pairs.len() > 0 {
        let before = deliveries_of(sensor, pairs.drop_last(), tags);
        if i < before.len() {
            lemma_deliveries_are_owed(sensor, pairs.drop_last(), tags, i);
            let d = before[i];
            let j = choose|j: int|
                0 <= j < pairs.drop_last().len() && other_side(
                    sensor,
                    #[trigger] pairs.drop_last()[j],
                ) == Some(d.entity);
            assert(pairs[j] == pairs.drop_last()[j]);
        } else {
            assert(other_side(sensor, pairs[pairs.len() - 1]) == Some(
                deliveries_of(sensor, pairs, tags)[i].entity,
            ));
        }
    }
}

/// No entity is delivered twice in one step.
pub proof fn lemma_no_entity_twice(
    sensor: u64,
    pairs: Seq<(u64, u64)>,
    tags: Map<u64, ItemKind>,
    i: int,
    j: int,
)
    requires
        0 <= i < j < deliveries_of(sensor, pairs, tags).len(),
    ensures
        deliveries_of(sensor, pairs, tags)[i].entity != deliveries_of(sensor, pairs, tags)[j].entity,
    decreases pairs.len(),
{
    if pairs.len() > 0 {
        let before = deliveries_of(sensor, pairs.drop_last(), tags);
        if j < before.len() {
            lemma_no_entity_twice(sensor, pairs.drop_last(), tags, i, j);
        } else {
            assert(before[i].entity == deliveries_of(sensor, pairs, tags)[i].entity);
        }
    }
}

/// Every item that meets the sensor in some pair of the step is delivered.
pub proof fn lemma_every_item_is_delivered(
    sensor: u64,
    pairs: Seq<(u64, u64)>,
    tags: Map<u64, ItemKind>,
    j: int,
)
    requires
        0 <= j < pairs.len(),
        other_side(sensor, pairs[j]) is Some,
        tags.contains_key(other_side(sensor, pairs[j]).unwrap()),
    ensures
        holds_entity(deliveries_of(sensor, pairs, tags), other_side(sensor, pairs[j]).unwrap()),
    decreases pairs.len(),
{
    let entity = other_side(sensor, pairs[j]).unwrap();
    let before = deliveries_of(sensor, pairs.drop_last(), tags);
    let all = deliveries_of(sensor, pairs, tags);
    if j < pairs.len() - 1 {
        assert(pairs.drop_last()[j] == pairs[j]);
        lemma_every_item_is_delivered(sensor, pairs.drop_last(), tags, j);
        let i = choose|i: int| 0 <= i < before.len() && (#[trigger] before[i]).entity == entity;
        assert(all[i].entity == entity);
    } else {
        if holds_entity(before, entity) {
            let i = choose|i: int| 0 <= i < before.len() && (#[trigger] before[i]).entity == entity;
            assert(all[i].entity == entity);
        } else {
            assert(all[all.len() - 1].entity == entity);
        }
    }
}

/// A pair that the step has reported before adds nothing when it is
/// reported again.
pub proof fn lemma_repeated_pair_adds_nothing(
    sensor: u64,
    pairs: Seq<(u64, u64)>,
    tags: Map<u64, ItemKind>,
    j: int,
)
    requires
        0 <= j < pairs.len(),
    ensures
        deliveries_of(sensor, pairs.push(pairs[j]), tags) == deliveries_of(sensor, pairs, tags),
{
    assert(pairs.push(pairs[j]).drop_last() =~= pairs);
    if other_side(sensor, pairs[j]) is Some && tags.contains_key(
        other_side(sensor, pairs[j]).unwrap(),
    ) {
        lemma_every_item_is_delivered(sensor, pairs, tags, j);
    }
}

/// One item that meets the sensor, reported twice in a step and alone in
/// it, gives exactly one delivery.
pub proof fn lemma_same_pair_twice(sensor: u64, pair: (u64, u64), tags: Map<u64, ItemKind>)
    requires
        other_side(sensor, pair) is Some,
        tags.contains_key(other_side(sensor, pair).unwrap()),
    ensures
        deliveries_of(sensor, seq![pair, pair], tags) == seq![
            Delivery {
                entity: other_side(sensor, pair).unwrap(),
                kind: tags[other_side(sensor, pair).unwrap()],
            },
        ],
{
    let once = seq![pair];
    assert(once.drop_last() =~= Seq::<(u64, u64)>::empty());
    assert(deliveries_of(sensor, once.drop_last(), tags) =~= Seq::<Delivery>::empty());
    assert(deliveries_of(sensor, once, tags) =~= seq![
        Delivery {
            entity: other_side(sensor, pair).unwrap(),
            kind: tags[other_side(sensor, pair).unwrap()],
        },
    ]);
    assert(once.push(once[0]) =~= seq![pair, pair]);
    lemma_repeated_pair_adds_nothing(sensor, once, tags, 0);
}

} // verus!
