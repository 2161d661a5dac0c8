use vstd::prelude::*;

use crate::body::EntityId;
use crate::editor::{body_type_at, CreateBodyType};
use crate::scenario::{plan_size, typed_from, SpawnNode};

verus! {

/// A spawned body as saving a scenario sees it: its entity, whether it is a
/// star, and the entities orbiting it (if it records any).
pub struct WorldBody {
    pub id: EntityId,
    pub is_star: bool,
    pub children: Option<Vec<EntityId>>,
}

/// A body to write to the scenario file: the index of the world record whose
/// data is written, and the bodies orbiting it.
pub struct SavedBody {
    pub record: usize,
    pub children: Vec<SavedBody>,
}

/// The mathematical form of a saved body.
pub struct SavedNode {
    pub record: nat,
    pub children: Seq<SavedNode>,
}

/// Some record is entity `id`.
pub open spec fn has_record(world: Seq<WorldBody>, id: EntityId) -> bool {
    exists|i: int| 0 <= i < world.len() && #[trigger] world[i].id == id
}

/// `i` is the first record of entity `id`.
pub open spec fn is_first_record(world: Seq<WorldBody>, id: EntityId, i: int) -> bool {
    0 <= i < world.len() && world[i].id == id && forall|j: int| 0 <= j < i ==> world[j].id != id
}

/// The first record of entity `id` (meaningful when there is one).
pub open spec fn first_record(world: Seq<WorldBody>, id: EntityId) -> int {
    choose|i: int| is_first_record(world, id, i)
}

/// The entities recorded as orbiting record `i` (none when it records none).
pub open spec fn children_of(world: Seq<WorldBody>, i: int) -> Seq<EntityId> {
    match world[i].children {
        Some(c) => c@,
        None => Seq::empty(),
    }
}

/// The moons saved for the listed entities: each entity that has a record,
/// in order, without anything orbiting it.
pub open spec fn saved_moons(world: Seq<WorldBody>, ids: Seq<EntityId>) -> Seq<SavedNode>
    decreases ids.len(),
{
    if ids.len() == 0 {
        Seq::empty()
    } else {
        let rest = saved_moons(world, ids.drop_last());
        if has_record(world, ids.last()) {
            rest.push(SavedNode { record: first_record(world, ids.last()) as nat, children: Seq::empty() })
        } else {
            rest
        }
    }
}

/// The planets saved for the listed entities: each entity that has a record,
/// in order, with its moons.
pub open spec fn saved_planets(world: Seq<WorldBody>, ids: Seq<EntityId>) -> Seq<SavedNode>
    decreases ids.len(),
{
    if ids.len() == 0 {
        Seq::empty()
    } else {
        let rest = saved_planets(world, ids.drop_last());
        if has_record(world, ids.last()) {
            let p = first_record(world, ids.last());
            rest.push(SavedNode { record: p as nat, children: saved_moons(world, children_of(world, p)) })
        } else {
            rest
        }
    }
}

/// The stars saved from the first `n` records: each star record, in order,
/// with its planets.
pub open spec fn saved_stars(world: Seq<WorldBody>, n: nat) -> Seq<SavedNode>
    decreases n,
{
    if n == 0 || n > world.len() {
        Seq::empty()
    } else {
        let i = (n - 1) as int;
        let rest = saved_stars(world, (n - 1) as nat);
        if world[i].is_star {
            rest.push(SavedNode {
                record: first_record(world, world[i].id) as nat,
                children: saved_planets(world, children_of(world, i)),
            })
        } else {
            rest
        }
    }
}

/// Saving needs to read the orbiting bodies of every star and of every planet
/// found among a star's children.
pub open spec fn save_ready(world: Seq<WorldBody>) -> bool {
    forall|i: int| 0 <= i < world.len() && (#[trigger] world[i]).is_star ==> {
        &&& world[i].children.is_some()
        &&& forall|k: int| 0 <= k < children_of(world, i).len() && has_record(world, #[trigger] children_of(world, i)[k])
            ==> world[first_record(world, children_of(world, i)[k])].children.is_some()
    }
}

impl SavedBody {
    /// The mathematical form of a saved body.
    pub open spec fn node(self) -> SavedNode
        decreases self,
    {
        SavedNode {
            record: self.record as nat,
            children: Seq::new(
                self.children@.len(),
                |i: int|
                    if 0 <= i < self.children@.len() {
                        self.children@[i].node()
                    } else {
                        SavedNode { record: 0, children: Seq::empty() }
                    },
            ),
        }
    }
}

/// The mathematical form of saved bodies.
pub open spec fn saved_nodes(v: Seq<SavedBody>) -> Seq<SavedNode> {
    Seq::new(v.len(), |i: int| v[i].node())
}

/// The first record of entity `id`.
fn find_record(world: &Vec<WorldBody>, id: EntityId) -> (r: Option<usize>)
    ensures
        match r {
            Some(i) => is_first_record(world@, id, i as int) && first_record(world@, id) == i,
            None => !has_record(world@, id),
        },
{
    let mut i: usize = 0;
    while i < world.len()
        invariant
            i <= world@.len(),
            forall|j: int| 0 <= j < i ==> world@[j].id != id,
        decreases world@.len() - i,
    {
        if world[i].id == id {
            proof {
                assert(is_first_record(world@, id, i as int));
                let f = first_record(world@, id);
                assert(is_first_record(world@, id, f));
            }
            return Some(i);
        }
        i = i + 1;
    }
    None
}

fn collect_moons(world: &Vec<WorldBody>, ids: &Vec<EntityId>) -> (moons: Vec<SavedBody>)
    ensures
        saved_nodes(moons@) == saved_moons(world@, ids@),
{
    let mut moons: Vec<SavedBody> = Vec::new();
    let mut k: usize = 0;
    while k < ids.len()
        invariant
            k <= ids@.len(),
            saved_nodes(moons@) == saved_moons(world@, ids@.take(k as int)),
        decreases ids@.len() - k,
    {
        let ghost before = moons@;
        proof {
            assert(ids@.take(k + 1).drop_last() =~= ids@.take(k as int));
            assert(ids@.take(k + 1).last() == ids@[k as int]);
        }
        match find_record(world, ids[k]) {
            Some(m) => {
                moons.push(SavedBody { record: m, children: Vec::new() });
                proof {
                    assert(moons@[before.len() as int].node().children =~= Seq::<SavedNode>::empty());
                    assert(saved_nodes(moons@) =~= saved_nodes(before).push(
                        SavedNode { record: m as nat, children: Seq::empty() }));
                }
            },
            None => {},
        }
        k = k + 1;
    }
    assert(ids@.take(ids@.len() as int) =~= ids@);
    moons
}

fn collect_planets(world: &Vec<WorldBody>, ids: &Vec<EntityId>) -> (planets: Vec<SavedBody>)
    requires
        forall|k: int| 0 <= k < ids@.len() && has_record(world@, #[trigger] ids@[k])
            ==> world@[first_record(world@, ids@[k])].children.is_some(),
    ensures
        saved_nodes(planets@) == saved_planets(world@, ids@),
{
    let mut planets: Vec<SavedBody> = Vec::new();
    let mut k: usize = 0;
    while k < ids.len()
        invariant
            k <= ids@.len(),
            forall|k: int| 0 <= k < ids@.len() && has_record(world@, #[trigger] ids@[k])
                ==> world@[first_record(world@, ids@[k])].children.is_some(),
            saved_nodes(planets@) == saved_planets(world@, ids@.take(k as int)),
        decreases ids@.len() - k,
    {
        let ghost before = planets@;
        proof {
            assert(ids@.take(k + 1).drop_last() =~= ids@.take(k as int));
            assert(ids@.take(k + 1).last() == ids@[k as int]);
        }
        match find_record(world, ids[k]) {
            Some(p) => {
                let moons = match &world[p].children {
                    Some(c) => collect_moons(world, c),
                    None => Vec::new(),
                };
                let ghost moon_nodes = saved_nodes(moons@);
                planets.push(SavedBody { record: p, children: moons });
                proof {
                    assert(moon_nodes == saved_moons(world@, children_of(world@, p as int)));
                    assert(planets@[before.len() as int].node().children =~= moon_nodes);
                    assert(saved_nodes(planets@) =~= saved_nodes(before).push(
                        SavedNode { record: p as nat, children: moon_nodes }));
                }
            },
            None => {},
        }
        k = k + 1;
    }
    assert(ids@.take(ids@.len() as int) =~= ids@);
    planets
}

/// The scenario hierarchy to save: every star, in world order, with the
/// planets recorded as orbiting it and their moons; bodies orbiting moons
/// are not saved. Each body's data comes from the first record of its entity.
pub fn collect_bodies(world: &Vec<WorldBody>) -> (stars: Vec<SavedBody>)
    requires
        save_ready(world@),
    ensures
        saved_nodes(stars@) == saved_stars(world@, world@.len()),
{
    let mut stars: Vec<SavedBody> = Vec::new();
    let mut i: usize = 0;
    while i < world.len()
        invariant
            i <= world@.len(),
            save_ready(world@),
            saved_nodes(stars@) == saved_stars(world@, i as nat),
        decreases world@.len() - i,
    {
        if world[i].is_star {
            let ghost before = stars@;
            let record = match find_record(world, world[i].id) {
                Some(r) => r,
                None => i,
            };
            let planets = match &world[i].children {
                Some(c) => {
                    proof {
                        let w = world@[i as int];
                        assert(w.is_star);
                        assert(children_of(world@, i as int) == c@);
                    }
                    collect_planets(world, c)
                },
                None => Vec::new(),
            };
            let ghost planet_nodes = saved_nodes(planets@);
            stars.push(SavedBody { record, children: planets });
            proof {
                assert(record == first_record(world@, world@[i as int].id));
                assert(planet_nodes == saved_planets(world@, children_of(world@, i as int)));
                assert(stars@[before.len() as int].node().children =~= planet_nodes);
                assert(saved_nodes(stars@) =~= saved_nodes(before).push(
                    SavedNode { record: record as nat, children: planet_nodes }));
            }
        }
        i = i + 1;
    }
    stars
}

// ---------------------------------------------------------------------
// Saving a freshly spawned scenario
// ---------------------------------------------------------------------

/// Where the `k`-th body of a level starts, relative to the level's first
/// body, when bodies are spawned parent first (each body followed by
/// everything orbiting it).
pub open spec fn offset(level: Seq<SpawnNode>, k: int) -> nat {
    plan_size(level.take(k))
}

/// The entities of the bodies of a level that starts at record `start`.
pub open spec fn child_ids(world: Seq<WorldBody>, children: Seq<SpawnNode>, start: nat) -> Seq<EntityId> {
    Seq::new(children.len(), |k: int| world[(start + offset(children, k)) as int].id)
}

/// Record `pos` is the spawned form of `node`: a star exactly when the node is
/// one, recording the entities of the node's children.
pub open spec fn body_laid_out(world: Seq<WorldBody>, node: SpawnNode, pos: nat) -> bool {
    &&& pos < world.len()
    &&& world[pos as int].is_star == (node.body_type == CreateBodyType::Star)
    &&& world[pos as int].children.is_some()
    &&& children_of(world, pos as int) == child_ids(world, node.children, pos + 1)
}

/// The records from `start` on are the spawned form of `level`, parent first.
pub open spec fn laid_out(world: Seq<WorldBody>, level: Seq<SpawnNode>, start: nat) -> bool
    decreases level,
{
    if level.len() == 0 {
        true
    } else {
        let pos = start + plan_size(level.drop_last());
        &&& laid_out(world, level.drop_last(), start)
        &&& body_laid_out(world, level.last(), pos)
        &&& laid_out(world, level.last().children, pos + 1)
    }
}

/// No two records are the same entity.
pub open spec fn distinct_ids(world: Seq<WorldBody>) -> bool {
    forall|i: int, j: int| 0 <= i < world.len() && 0 <= j < world.len() && i != j ==> world[i].id != world[j].id
}

/// The moons expected in a saved file for a level of bodies starting at `start`.
pub open spec fn expected_moons(children: Seq<SpawnNode>, start: nat) -> Seq<SavedNode> {
    Seq::new(children.len(), |k: int| SavedNode { record: start + offset(children, k), children: Seq::empty() })
}

/// The planets expected in a saved file, each with its moons.
pub open spec fn expected_planets(children: Seq<SpawnNode>, start: nat) -> Seq<SavedNode> {
    Seq::new(
        children.len(),
        |k: int|
            SavedNode {
                record: start + offset(children, k),
                children: expected_moons(children[k].children, start + offset(children, k) + 1),
            },
    )
}

/// The stars expected in a saved file, each with its planets.
pub open spec fn expected_stars(plan: Seq<SpawnNode>) -> Seq<SavedNode> {
    Seq::new(
        plan.len(),
        |k: int| SavedNode { record: offset(plan, k), children: expected_planets(plan[k].children, offset(plan, k) + 1) },
    )
}

proof fn lemma_offset_drop_last(level: Seq<SpawnNode>, k: int)
    requires
        0 <= k < level.len(),
    ensures
        offset(level.drop_last(), k) == offset(level, k),
        offset(level, level.len() - 1) == plan_size(level.drop_last()),
{
    assert(level.drop_last().take(k) =~= level.take(k));
    assert(level.take(level.len() - 1) =~= level.drop_last());
}

proof fn lemma_first_record(world: Seq<WorldBody>, p: int)
    requires
        distinct_ids(world),
        0 <= p < world.len(),
    ensures
        has_record(world, world[p].id),
        first_record(world, world[p].id) == p,
{
    assert(is_first_record(world, world[p].id, p));
    let f = first_record(world, world[p].id);
    assert(is_first_record(world, world[p].id, f));
}

proof fn lemma_laid_each(world: Seq<WorldBody>, level: Seq<SpawnNode>, start: nat, k: int)
    requires
        laid_out(world, level, start),
        0 <= k < level.len(),
    ensures
        body_laid_out(world, level[k], start + offset(level, k)),
        laid_out(world, level[k].children, start + offset(level, k) + 1),
    decreases level,
{
    lemma_offset_drop_last(level, k);
    if k < level.len() - 1 {
        lemma_laid_each(world, level.drop_last(), start, k);
        assert(level.drop_last()[k] == level[k]);
    }
}

proof fn lemma_saved_moons(world: Seq<WorldBody>, children: Seq<SpawnNode>, start: nat)
    requires
        distinct_ids(world),
        laid_out(world, children, start),
    ensures
        saved_moons(world, child_ids(world, children, start)) == expected_moons(children, start),
    decreases children.len(),
{
    let ids = child_ids(world, children, start);
    if children.len() > 0 {
        let last = children.len() - 1;
        lemma_saved_moons(world, children.drop_last(), start);
        assert forall|k: int| 0 <= k < last implies offset(children.drop_last(), k) == offset(children, k) by {
            lemma_offset_drop_last(children, k);
        }
        assert(ids.drop_last() =~= child_ids(world, children.drop_last(), start));
        lemma_laid_each(world, children, start, last);
        let pos = start + offset(children, last);
        lemma_first_record(world, pos as int);
        assert(ids.last() == world[pos as int].id);
        assert(expected_moons(children, start) =~= expected_moons(children.drop_last(), start).push(
            SavedNode { record: pos, children: Seq::empty() }));
    } else {
        assert(expected_moons(children, start) =~= Seq::<SavedNode>::empty());
    }
}

proof fn lemma_saved_planets(world: Seq<WorldBody>, children: Seq<SpawnNode>, start: nat)
    requires
        distinct_ids(world),
        laid_out(world, children, start),
    ensures
        saved_planets(world, child_ids(world, children, start)) == expected_planets(children, start),
    decreases children.len(),
{
    let ids = child_ids(world, children, start);
    if children.len() > 0 {
        let last = children.len() - 1;
        lemma_saved_planets(world, children.drop_last(), start);
        assert forall|k: int| 0 <= k < last implies offset(children.drop_last(), k) == offset(children, k) by {
            lemma_offset_drop_last(children, k);
        }
        assert(ids.drop_last() =~= child_ids(world, children.drop_last(), start));
        lemma_laid_each(world, children, start, last);
        let pos = start + offset(children, last);
        lemma_first_record(world, pos as int);
        assert(ids.last() == world[pos as int].id);
        lemma_saved_moons(world, children[last].children, pos + 1);
        let node = SavedNode { record: pos, children: expected_moons(children[last].children, pos + 1) };
        assert forall|k: int| 0 <= k < last implies
            #[trigger] expected_planets(children, start)[k] == expected_planets(children.drop_last(), start)[k] by {
            assert(children.drop_last()[k] == children[k]);
        }
        assert(expected_planets(children, start) =~= expected_planets(children.drop_last(), start).push(node));
    } else {
        assert(expected_planets(children, start) =~= Seq::<SavedNode>::empty());
    }
}

/// Every record of a laid-out level records its children, and below the top
/// level none is a star.
proof fn lemma_cover(world: Seq<WorldBody>, level: Seq<SpawnNode>, start: nat, depth: nat)
    requires
        laid_out(world, level, start),
        typed_from(level, depth),
    ensures
        level.len() > 0 ==> start + plan_size(level) <= world.len(),
        forall|p: int| start <= p < start + plan_size(level) ==> {
            &&& (#[trigger] world[p]).children.is_some()
            &&& depth >= 1 ==> !world[p].is_star
        },
    decreases level,
{
    if level.len() > 0 {
        let pos = start + plan_size(level.drop_last());
        let node = level.last();
        lemma_cover(world, level.drop_last(), start, depth);
        lemma_cover(world, node.children, pos + 1, depth + 1);
        assert(node.body_type == body_type_at(depth));
    }
}

proof fn lemma_stars_skip(world: Seq<WorldBody>, a: nat, b: nat)
    requires
        a <= b <= world.len(),
        forall|p: int| a <= p < b ==> !(#[trigger] world[p]).is_star,
    ensures
        saved_stars(world, b) == saved_stars(world, a),
    decreases b,
{
    if a < b {
        lemma_stars_skip(world, a, (b - 1) as nat);
        let w = world[b - 1];
    }
}

proof fn lemma_saved_stars(world: Seq<WorldBody>, level: Seq<SpawnNode>)
    requires
        distinct_ids(world),
        laid_out(world, level, 0),
        typed_from(level, 0),
    ensures
        level.len() > 0 ==> plan_size(level) <= world.len(),
        saved_stars(world, plan_size(level)) == expected_stars(level),
    decreases level,
{
    if level.len() == 0 {
        assert(expected_stars(level) =~= Seq::<SavedNode>::empty());
    } else {
        let last = level.len() - 1;
        let prev = level.drop_last();
        let node = level.last();
        let pos = plan_size(prev);
        lemma_saved_stars(world, prev);
        lemma_cover(world, level, 0, 0);
        assert(world[pos as int].is_star);
        lemma_first_record(world, pos as int);
        lemma_saved_planets(world, node.children, pos + 1);
        let star = SavedNode { record: pos, children: expected_planets(node.children, pos + 1) };
        assert(saved_stars(world, pos + 1) == saved_stars(world, pos).push(star));
        lemma_cover(world, node.children, pos + 1, 1);
        lemma_stars_skip(world, pos + 1, pos + 1 + plan_size(node.children));
        lemma_offset_drop_last(level, last);
        assert forall|k: int| 0 <= k < last implies
            #[trigger] expected_stars(level)[k] == expected_stars(prev)[k] by {
            lemma_offset_drop_last(level, k);
            assert(prev[k] == level[k]);
        }
        assert(expected_stars(level) =~= expected_stars(prev).push(star));
    }
}

/// Law: saving a scenario right after its bodies were spawned (parent first,
/// each body recording its children, every entity distinct) is possible, and
/// writes every star in spawn order, each with all its planets and their
/// moons, each body from its own record; bodies orbiting moons are not written.
pub proof fn lemma_spawn_then_save(world: Seq<WorldBody>, plan: Seq<SpawnNode>)
    requires
        world.len() == plan_size(plan),
        distinct_ids(world),
        laid_out(world, plan, 0),
        typed_from(plan, 0),
    ensures
        save_ready(world),
        saved_stars(world, world.len()) == expected_stars(plan),
{
    lemma_saved_stars(world, plan);
    lemma_cover(world, plan, 0, 0);
    assert forall|i: int| 0 <= i < world.len() && (#[trigger] world[i]).is_star implies {
        &&& world[i].children.is_some()
        &&& forall|k: int| 0 <= k < children_of(world, i).len() && has_record(world, #[trigger] children_of(world, i)[k])
            ==> world[first_record(world, children_of(world, i)[k])].children.is_some()
    } by {
        assert forall|k: int| 0 <= k < children_of(world, i).len() && has_record(world, #[trigger] children_of(world, i)[k])
            implies world[first_record(world, children_of(world, i)[k])].children.is_some() by {
            let id = children_of(world, i)[k];
            let q = first_record(world, id);
            let w = choose|j: int| 0 <= j < world.len() && #[trigger] world[j].id == id;
            assert(is_first_record(world, id, w) || exists|j: int| 0 <= j < w && world[j].id == id);
            if !is_first_record(world, id, w) {
                let j = choose|j: int| 0 <= j < w && world[j].id == id;
                assert(is_first_record(world, id, j));
            }
            assert(is_first_record(world, id, q));
            let wq = world[q];
        }
    }
}

} // verus!
