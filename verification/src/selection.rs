use vstd::prelude::*;

use crate::body::EntityId;

verus! {

/// The body the camera follows.
pub struct SelectedEntity {
    pub entity: Option<EntityId>,
    /// The camera has already been moved to the selected body.
    pub changed_focus: bool,
}

impl Default for SelectedEntity {
    fn default() -> (s: Self)
        ensures
            s.entity.is_none(),
            !s.changed_focus,
    {
        SelectedEntity { entity: None, changed_focus: false }
    }
}

impl SelectedEntity {
    /// Selects `entity`; unless `ignore_focus` is set the camera will move to it.
    pub fn change_entity(&mut self, entity: EntityId, ignore_focus: bool)
        ensures
            final(self).entity == Some(entity),
            final(self).changed_focus == ignore_focus,
    {
        self.entity = Some(entity);
        self.changed_focus = ignore_focus;
    }
}

/// A body as the selection logic sees it.
pub struct SelectableBody {
    pub id: EntityId,
    pub is_star: bool,
}

/// Some body has identifier `id`.
pub open spec fn has_body(bodies: Seq<SelectableBody>, id: EntityId) -> bool {
    exists|i: int| 0 <= i < bodies.len() && #[trigger] bodies[i].id == id
}

/// The first star among the bodies, if any.
pub open spec fn first_star(bodies: Seq<SelectableBody>) -> Option<EntityId>
    decreases bodies.len(),
{
    if bodies.len() == 0 {
        None
    } else if bodies[0].is_star {
        Some(bodies[0].id)
    } else {
        first_star(bodies.skip(1))
    }
}

/// What the camera has to do after the selection was updated.
#[derive(PartialEq, Eq, Structural, Clone, Copy, Debug)]
pub enum CameraUpdate {
    /// Nothing changes.
    Keep,
    /// Zoom to the selected body and center on it.
    FocusSelected,
}

fn contains_body(bodies: &Vec<SelectableBody>, id: EntityId) -> (b: bool)
    ensures
        b == has_body(bodies@, id),
{
    let mut i: usize = 0;
    while i < bodies.len()
        invariant
            i <= bodies.len(),
            forall|j: int| 0 <= j < i ==> bodies@[j].id != id,
        decreases bodies.len() - i,
    {
        if bodies[i].id == id {
            return true;
        }
        i = i + 1;
    }
    false
}

fn find_first_star(bodies: &Vec<SelectableBody>) -> (s: Option<EntityId>)
    ensures
        s == first_star(bodies@),
{
    let mut i: usize = 0;
    assert(bodies@.skip(0) =~= bodies@);
    while i < bodies.len()
        invariant
            i <= bodies.len(),
            first_star(bodies@) == first_star(bodies@.skip(i as int)),
        decreases bodies.len() - i,
    {
        let ghost rest = bodies@.skip(i as int);
        assert(rest[0] == bodies@[i as int]);
        assert(rest.skip(1) =~= bodies@.skip(i + 1));
        if bodies[i].is_star {
            return Some(bodies[i].id);
        }
        i = i + 1;
    }
    assert(bodies@.skip(i as int).len() == 0);
    None
}

/// The selection and camera update after one pass of the selection check.
pub open spec fn camera_step(selected: SelectedEntity, bodies: Seq<SelectableBody>) -> (SelectedEntity, CameraUpdate) {
    match selected.entity {
        Some(e) => if !has_body(bodies, e) {
            (SelectedEntity { entity: None, ..selected }, CameraUpdate::Keep)
        } else if !selected.changed_focus {
            (SelectedEntity { changed_focus: true, ..selected }, CameraUpdate::FocusSelected)
        } else {
            (selected, CameraUpdate::Keep)
        },
        None => match first_star(bodies) {
            Some(star) => (SelectedEntity { entity: Some(star), changed_focus: false }, CameraUpdate::Keep),
            None => (selected, CameraUpdate::Keep),
        },
    }
}

/// Keeps the selection valid: a selected body that no longer exists is
/// deselected; a newly selected body gets the camera's focus once; with nothing
/// selected, the first star is selected.
pub fn apply_camera_to_selection(selected: &mut SelectedEntity, bodies: &Vec<SelectableBody>) -> (update: CameraUpdate)
    ensures
        (*final(selected), update) == camera_step(*old(selected), bodies@),
{
    match selected.entity {
        Some(entity) => {
            if !contains_body(bodies, entity) {
                selected.entity = None;
                CameraUpdate::Keep
            } else if !selected.changed_focus {
                selected.changed_focus = true;
                CameraUpdate::FocusSelected
            } else {
                CameraUpdate::Keep
            }
        },
        None => {
            match find_first_star(bodies) {
                Some(star) => {
                    selected.change_entity(star, false);
                    CameraUpdate::Keep
                },
                None => CameraUpdate::Keep,
            }
        },
    }
}

/// Law: the camera moves to a selected body once; while the bodies stay the
/// same, the following checks keep the selection and the camera as they are.
pub proof fn lemma_focus_once(selected: SelectedEntity, bodies: Seq<SelectableBody>)
    requires
        camera_step(selected, bodies).1 == CameraUpdate::FocusSelected,
    ensures
        camera_step(camera_step(selected, bodies).0, bodies) == (camera_step(selected, bodies).0, CameraUpdate::Keep),
{
}

/// Law: with at least one star among the bodies, at most three checks select a
/// body and give it the camera's focus, after which nothing changes.
pub proof fn lemma_selection_settles(selected: SelectedEntity, bodies: Seq<SelectableBody>)
    requires
        first_star(bodies).is_some(),
    ensures
        ({
            let s1 = camera_step(selected, bodies).0;
            let s2 = camera_step(s1, bodies).0;
            let s3 = camera_step(s2, bodies).0;
            &&& s3.entity.is_some()
            &&& s3.changed_focus
            &&& camera_step(s3, bodies) == (s3, CameraUpdate::Keep)
        }),
{
    lemma_first_star_is_body(bodies);
}

/// The first star is one of the bodies.
proof fn lemma_first_star_is_body(bodies: Seq<SelectableBody>)
    ensures
        first_star(bodies) matches Some(id) ==> has_body(bodies, id),
    decreases bodies.len(),
{
    if bodies.len() > 0 && !bodies[0].is_star {
        lemma_first_star_is_body(bodies.skip(1));
        if let Some(id) = first_star(bodies.skip(1)) {
            let i = choose|i: int| 0 <= i < bodies.skip(1).len() && #[trigger] bodies.skip(1)[i].id == id;
            assert(bodies[i + 1].id == id);
        }
    } else if bodies.len() > 0 {
        assert(bodies[0].id == bodies[0].id);
    }
}

/// Follows the global selection with a local copy; returns whether the
/// selection moved to another body (body positions then have to be
/// recomputed around it).
pub fn selection_listener(selected: &SelectedEntity, local: &mut SelectedEntity) -> (changed: bool)
    ensures
        ({
            let seen = if old(local).entity.is_none() { selected.entity } else { old(local).entity };
            &&& changed == (selected.entity.is_some() && seen.is_some() && selected.entity != seen)
            &&& final(local).entity == (if changed { selected.entity } else { seen })
            &&& final(local).changed_focus == old(local).changed_focus
        }),
{
    if local.entity.is_none() {
        local.entity = selected.entity;
    }
    match (selected.entity, local.entity) {
        (Some(e1), Some(e2)) => {
            if e1 != e2 {
                local.entity = selected.entity;
                true
            } else {
                false
            }
        },
        _ => false,
    }
}

/// Law: after the listener ran, the local copy agrees with a non-empty global selection.
pub proof fn lemma_listener_follows(global: Option<EntityId>, local_before: Option<EntityId>)
    requires
        global.is_some(),
    ensures
        ({
            let seen = if local_before.is_none() { global } else { local_before };
            let changed = global.is_some() && seen.is_some() && global != seen;
            (if changed { global } else { seen }) == global
        }),
{
}

/// The body lists of candidate parents contain `child`.
pub open spec fn is_parent(children: Seq<Vec<EntityId>>, i: int, child: EntityId) -> bool {
    children[i]@.contains(child)
}

fn vec_contains(v: &Vec<EntityId>, e: EntityId) -> (b: bool)
    ensures
        b == v@.contains(e),
{
    let mut i: usize = 0;
    while i < v.len()
        invariant
            i <= v.len(),
            forall|j: int| 0 <= j < i ==> v@[j] != e,
        decreases v.len() - i,
    {
        if v[i] == e {
            assert(v@[i as int] == e);
            return true;
        }
        i = i + 1;
    }
    false
}

/// Index of the first body whose children include `child` (the parent found
/// when searching the bodies in order and stopping at the first match).
pub fn find_first_parent(children: &Vec<Vec<EntityId>>, child: EntityId) -> (r: Option<usize>)
    ensures
        match r {
            Some(i) => i < children@.len() && is_parent(children@, i as int, child)
                && forall|j: int| 0 <= j < i ==> !is_parent(children@, j, child),
            None => forall|j: int| 0 <= j < children@.len() ==> !is_parent(children@, j, child),
        },
{
    let mut i: usize = 0;
    while i < children.len()
        invariant
            i <= children.len(),
            forall|j: int| 0 <= j < i ==> !is_parent(children@, j, child),
        decreases children.len() - i,
    {
        if vec_contains(&children[i], child) {
            return Some(i);
        }
        i = i + 1;
    }
    None
}

/// Index of the last body whose children include `child` (the parent kept
/// when every body is visited and each match overrides the previous one).
pub fn find_last_parent(children: &Vec<Vec<EntityId>>, child: EntityId) -> (r: Option<usize>)
    ensures
        match r {
            Some(i) => i < children@.len() && is_parent(children@, i as int, child)
                && forall|j: int| i < j < children@.len() ==> !is_parent(children@, j, child),
            None => forall|j: int| 0 <= j < children@.len() ==> !is_parent(children@, j, child),
        },
{
    let mut found: Option<usize> = None;
    let mut i: usize = 0;
    while i < children.len()
        invariant
            i <= children.len(),
            match found {
                Some(k) => k < i && is_parent(children@, k as int, child)
                    && forall|j: int| k < j < i ==> !is_parent(children@, j, child),
                None => forall|j: int| 0 <= j < i ==> !is_parent(children@, j, child),
            },
        decreases children.len() - i,
    {
        if vec_contains(&children[i], child) {
            found = Some(i);
        }
        i = i + 1;
    }
    found
}

/// Whether the camera follows the selected body's parent.
pub struct LockOn {
    pub enabled: bool,
}

impl Default for LockOn {
    fn default() -> (l: Self)
        ensures
            !l.enabled,
    {
        LockOn { enabled: false }
    }
}

/// The body the camera looks at when locked on: the parent of the selected body.
pub fn lock_on_target(lock_on: &LockOn, selected: &SelectedEntity, children: &Vec<Vec<EntityId>>) -> (r: Option<usize>)
    ensures
        match r {
            Some(i) => lock_on.enabled && selected.entity.is_some() && i < children@.len()
                && is_parent(children@, i as int, selected.entity.unwrap())
                && forall|j: int| i < j < children@.len() ==> !is_parent(children@, j, selected.entity.unwrap()),
            None => !lock_on.enabled || selected.entity.is_none()
                || forall|j: int| 0 <= j < children@.len() ==> !is_parent(children@, j, selected.entity.unwrap()),
        },
{
    if !lock_on.enabled {
        return None;
    }
    match selected.entity {
        Some(s) => find_last_parent(children, s),
        None => None,
    }
}

} // verus!
