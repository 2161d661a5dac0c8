use vstd::prelude::*;

use crate::body::{EntityId, Star};
use crate::editor::{body_type_at, CreateBodyType};
use crate::loading::LoadingState;
use crate::selection::SelectedEntity;
use crate::state::SimState;

verus! {

/// The hierarchy of a scenario file: whether each body takes part in the
/// simulation, and the bodies orbiting it (already in spawn order).
pub struct ScenarioBody {
    pub simulate: bool,
    pub children: Vec<ScenarioBody>,
}

/// A body to spawn, with the bodies to spawn orbiting it.
pub struct SpawnedBody {
    /// Position of its scenario entry among its siblings in the file.
    pub source: usize,
    /// Number of siblings in the file, itself and bodies not simulated included.
    pub sibling_count: usize,
    pub body_type: CreateBodyType,
    pub children: Vec<SpawnedBody>,
}

/// The mathematical form of a planned body.
pub struct SpawnNode {
    pub source: nat,
    pub sibling_count: nat,
    pub body_type: CreateBodyType,
    pub children: Seq<SpawnNode>,
}

/// The planned bodies for the first `n` entries of a level at `depth`: every
/// simulated entry, in file order, typed by its depth, with its own simulated
/// children planned one level deeper. Entries not simulated are left out
/// together with everything orbiting them.
pub open spec fn plan_prefix(level: Seq<ScenarioBody>, depth: nat, n: nat) -> Seq<SpawnNode>
    decreases level, n,
{
    if n == 0 || n > level.len() {
        Seq::empty()
    } else {
        let i = (n - 1) as int;
        let rest = plan_prefix(level, depth, (n - 1) as nat);
        if level[i].simulate {
            rest.push(SpawnNode {
                source: i as nat,
                sibling_count: level.len(),
                body_type: body_type_at(depth),
                children: plan_prefix(level[i].children@, depth + 1, level[i].children@.len()),
            })
        } else {
            rest
        }
    }
}

/// The planned bodies for a whole level at `depth`.
pub open spec fn spawn_plan(level: Seq<ScenarioBody>, depth: nat) -> Seq<SpawnNode> {
    plan_prefix(level, depth, level.len())
}

/// The bodies counted for the first `n` entries of a level: the full
/// sibling list below each simulated entry, and recursively below those.
pub open spec fn count_prefix(level: Seq<ScenarioBody>, n: nat) -> nat
    decreases level, n,
{
    if n == 0 || n > level.len() {
        0
    } else {
        let i = (n - 1) as int;
        let rest = count_prefix(level, (n - 1) as nat);
        if level[i].simulate {
            rest + level[i].children@.len() + count_prefix(level[i].children@, level[i].children@.len())
        } else {
            rest
        }
    }
}

/// The total body count shown while loading: every entry of the top level,
/// and every entry of each level reached through simulated bodies (entries
/// not simulated are counted, what orbits them is not).
pub open spec fn total_count(level: Seq<ScenarioBody>) -> nat {
    level.len() + count_prefix(level, level.len())
}

impl SpawnedBody {
    /// The mathematical form of the plan.
    pub open spec fn node(self) -> SpawnNode
        decreases self,
    {
        SpawnNode {
            source: self.source as nat,
            sibling_count: self.sibling_count as nat,
            body_type: self.body_type,
            children: Seq::new(
                self.children@.len(),
                |i: int|
                    if 0 <= i < self.children@.len() {
                        self.children@[i].node()
                    } else {
                        SpawnNode { source: 0, sibling_count: 0, body_type: self.body_type, children: Seq::empty() }
                    },
            ),
        }
    }
}

/// The mathematical form of a planned level.
pub open spec fn nodes(v: Seq<SpawnedBody>) -> Seq<SpawnNode> {
    Seq::new(v.len(), |i: int| v[i].node())
}

fn plan_level(level: &Vec<ScenarioBody>, depth: Ghost<nat>, depth_class: usize) -> (planned: (Vec<SpawnedBody>, usize))
    requires
        depth_class == (if depth@ < 2 { depth@ } else { 2 }),
        count_prefix(level@, level@.len()) <= usize::MAX,
    ensures
        nodes(planned.0@) == spawn_plan(level@, depth@),
        planned.1 == count_prefix(level@, level@.len()),
    decreases level@,
{
    let mut planned: Vec<SpawnedBody> = Vec::new();
    let mut count: usize = 0;
    let mut i: usize = 0;
    let body_type = CreateBodyType::from_depth(depth_class);
    let next_class: usize = if depth_class < 2 { depth_class + 1 } else { 2 };
    while i < level.len()
        invariant
            i <= level@.len(),
            depth_class == (if depth@ < 2 { depth@ } else { 2 }),
            next_class == (if depth@ + 1 < 2 { depth@ + 1 } else { 2 }),
            body_type == body_type_at(depth@),
            count_prefix(level@, level@.len()) <= usize::MAX,
            nodes(planned@) == plan_prefix(level@, depth@, i as nat),
            count == count_prefix(level@, i as nat),
        decreases level@.len() - i,
    {
        proof {
            lemma_count_prefix_monotone(level@, (i + 1) as nat, level@.len());
        }
        if level[i].simulate {
            let children = &level[i].children;
            proof {
                assert(count_prefix(level@, (i + 1) as nat) == count + children@.len()
                    + count_prefix(children@, children@.len()));
            }
            let (sub, sub_count) = plan_level(children, Ghost(depth@ + 1), next_class);
            let ghost before = planned@;
            planned.push(SpawnedBody { source: i, sibling_count: level.len(), body_type, children: sub });
            count = count + children.len() + sub_count;
            proof {
                let node = SpawnNode {
                    source: i as nat,
                    sibling_count: level@.len(),
                    body_type: body_type_at(depth@),
                    children: spawn_plan(children@, depth@ + 1),
                };
                assert(planned@[before.len() as int].node() == node) by {
                    assert(planned@[before.len() as int].node().children =~= nodes(sub@));
                }
                assert(nodes(planned@) =~= nodes(before).push(node));
            }
        }
        i = i + 1;
    }
    (planned, count)
}

/// Counting more entries never gives fewer bodies.
proof fn lemma_count_prefix_monotone(level: Seq<ScenarioBody>, m: nat, n: nat)
    requires
        m <= n <= level.len(),
    ensures
        count_prefix(level, m) <= count_prefix(level, n),
    decreases n - m,
{
    if m < n {
        lemma_count_prefix_monotone(level, m, (n - 1) as nat);
    }
}

/// Number of planned bodies, those orbiting others included.
pub open spec fn plan_size(plan: Seq<SpawnNode>) -> nat
    decreases plan,
{
    if plan.len() == 0 {
        0
    } else {
        plan_size(plan.drop_last()) + 1 + plan_size(plan.last().children)
    }
}

/// Every planned body has the kind of its depth: the top level holds stars,
/// the next level planets, every deeper level moons.
pub open spec fn typed_from(plan: Seq<SpawnNode>, depth: nat) -> bool
    decreases plan,
{
    if plan.len() == 0 {
        true
    } else {
        &&& typed_from(plan.drop_last(), depth)
        &&& plan.last().body_type == body_type_at(depth)
        &&& typed_from(plan.last().children, depth + 1)
    }
}

proof fn lemma_plan_prefix_bounded(level: Seq<ScenarioBody>, depth: nat, n: nat)
    requires
        n <= level.len(),
    ensures
        plan_size(plan_prefix(level, depth, n)) <= n + count_prefix(level, n),
        typed_from(plan_prefix(level, depth, n), depth),
    decreases level, n,
{
    if n > 0 {
        let i = (n - 1) as int;
        lemma_plan_prefix_bounded(level, depth, (n - 1) as nat);
        let rest = plan_prefix(level, depth, (n - 1) as nat);
        if level[i].simulate {
            let ch = level[i].children@;
            lemma_plan_prefix_bounded(ch, depth + 1, ch.len());
            let node = SpawnNode {
                source: i as nat,
                sibling_count: level.len(),
                body_type: body_type_at(depth),
                children: plan_prefix(ch, depth + 1, ch.len()),
            };
            assert(plan_prefix(level, depth, n) == rest.push(node));
            assert(rest.push(node).drop_last() =~= rest);
            assert(rest.push(node).last() == node);
        }
    }
}

/// The first `n` entries of a level, and every body below them, take part in
/// the simulation.
pub open spec fn simulated_prefix(level: Seq<ScenarioBody>, n: nat) -> bool
    decreases level, n,
{
    if n == 0 || n > level.len() {
        true
    } else {
        let i = (n - 1) as int;
        &&& simulated_prefix(level, (n - 1) as nat)
        &&& level[i].simulate
        &&& simulated_prefix(level[i].children@, level[i].children@.len())
    }
}

/// Every body of the hierarchy takes part in the simulation.
pub open spec fn all_simulated(level: Seq<ScenarioBody>) -> bool {
    simulated_prefix(level, level.len())
}

proof fn lemma_plan_prefix_exact(level: Seq<ScenarioBody>, depth: nat, n: nat)
    requires
        n <= level.len(),
        simulated_prefix(level, n),
    ensures
        plan_size(plan_prefix(level, depth, n)) == n + count_prefix(level, n),
    decreases level, n,
{
    if n > 0 {
        let i = (n - 1) as int;
        lemma_plan_prefix_exact(level, depth, (n - 1) as nat);
        let rest = plan_prefix(level, depth, (n - 1) as nat);
        let ch = level[i].children@;
        lemma_plan_prefix_exact(ch, depth + 1, ch.len());
        let node = SpawnNode {
            source: i as nat,
            sibling_count: level.len(),
            body_type: body_type_at(depth),
            children: plan_prefix(ch, depth + 1, ch.len()),
        };
        assert(plan_prefix(level, depth, n) == rest.push(node));
        assert(rest.push(node).drop_last() =~= rest);
        assert(rest.push(node).last() == node);
    }
}

/// Law: when every body of a scenario takes part in the simulation, the count
/// shown while loading is exactly the number of bodies spawned.
pub proof fn lemma_all_simulated_count_exact(level: Seq<ScenarioBody>)
    requires
        all_simulated(level),
    ensures
        plan_size(spawn_plan(level, 0)) == total_count(level),
{
    lemma_plan_prefix_exact(level, 0, level.len());
}

/// Law: the loading display never counts fewer bodies than are spawned, and
/// every spawned body has the kind of its depth in the hierarchy.
pub proof fn lemma_spawn_plan_counted(level: Seq<ScenarioBody>)
    ensures
        plan_size(spawn_plan(level, 0)) <= total_count(level),
        typed_from(spawn_plan(level, 0), 0),
{
    lemma_plan_prefix_bounded(level, 0, level.len());
}

/// Plans the bodies to spawn for a scenario's top level (its stars) and
/// returns the body count shown while loading.
pub fn plan_scenario(stars: &Vec<ScenarioBody>) -> (planned: (Vec<SpawnedBody>, i32))
    requires
        total_count(stars@) <= i32::MAX,
    ensures
        nodes(planned.0@) == spawn_plan(stars@, 0),
        planned.1 == total_count(stars@),
{
    let (plan, count) = plan_level(stars, Ghost(0), 0);
    let total = stars.len() + count;
    (plan, total as i32)
}

/// Whether the selected scenario's bodies have been spawned.
pub struct SelectedScenario {
    pub spawned: bool,
}

/// Whether a scenario's bodies are to be spawned now: not when they are
/// spawned already, nor while the scenario's data has not been loaded.
pub open spec fn setup_due(scenario: SelectedScenario, data_loaded: bool) -> bool {
    !scenario.spawned && data_loaded
}

/// Decides whether setting up the scenario spawns its bodies this frame.
pub fn setup_needed(scenario: &SelectedScenario, data_loaded: bool) -> (b: bool)
    ensures
        b == setup_due(*scenario, data_loaded),
{
    !scenario.spawned && data_loaded
}

/// Law: a scenario's bodies are spawned once: after the setup has finished it
/// is not due again, and only leaving the scenario (which marks it not spawned)
/// makes it due again once the data is loaded.
pub proof fn lemma_bodies_spawned_once(scenario: SelectedScenario, data_loaded: bool)
    ensures
        scenario.spawned ==> !setup_due(scenario, data_loaded),
        !scenario.spawned ==> (setup_due(scenario, data_loaded) <==> data_loaded),
{
}

/// Completes spawning a scenario with `total` counted bodies: the first star
/// becomes the selection when nothing is selected yet, the scenario and the
/// loading state record that bodies are spawned, and a scenario without
/// bodies is loaded at once.
pub fn finish_setup(
    scenario: &mut SelectedScenario,
    loading: &mut LoadingState,
    selected: &mut SelectedEntity,
    first_star: Option<EntityId>,
    total: i32,
) -> (next: Option<SimState>)
    ensures
        final(scenario).spawned,
        *final(loading) == (LoadingState { spawned_bodies: true, total_bodies: total, ..*old(loading) }),
        *final(selected) == (if old(selected).entity.is_none() && first_star.is_some() {
            SelectedEntity { entity: first_star, changed_focus: false }
        } else {
            *old(selected)
        }),
        next == (if total == 0 { Some(SimState::Loaded) } else { None::<SimState> }),
{
    if selected.entity.is_none() {
        if let Some(star) = first_star {
            selected.change_entity(star, false);
        }
    }
    scenario.spawned = true;
    loading.spawned_bodies = true;
    loading.total_bodies = total;
    if total == 0 {
        Some(SimState::Loaded)
    } else {
        None
    }
}

/// The components a spawned body gets for its kind.
pub struct BodyComponents {
    pub star: Option<Star>,
    pub planet: bool,
    pub moon: bool,
    /// Tracks the closest and farthest distance to its parent.
    pub apsis: bool,
    /// A glowing billboard that stands in for the star when it is far away.
    pub imposter: bool,
}

/// A star is marked as a star drawn with an imposter far away; planets and
/// moons are marked as such and track their apsides.
pub fn body_components(body_type: CreateBodyType) -> (c: BodyComponents)
    ensures
        c.star == (if body_type == CreateBodyType::Star { Some(Star { use_imposter: true }) } else { None::<Star> }),
        c.planet == (body_type == CreateBodyType::Planet),
        c.moon == (body_type == CreateBodyType::Moon),
        c.apsis == (body_type != CreateBodyType::Star),
        c.imposter == (body_type == CreateBodyType::Star),
{
    match body_type {
        CreateBodyType::Moon => BodyComponents { star: None, planet: false, moon: true, apsis: true, imposter: false },
        CreateBodyType::Planet => BodyComponents { star: None, planet: true, moon: false, apsis: true, imposter: false },
        CreateBodyType::Star => BodyComponents {
            star: Some(Star { use_imposter: true }),
            planet: false,
            moon: false,
            apsis: false,
            imposter: true,
        },
    }
}

} // verus!
