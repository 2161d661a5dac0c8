use vstd::prelude::*;
use vstd::string::*;

use crate::body::{BodyChildren, EntityId, ModelPath};
use crate::selection::SelectedEntity;
use crate::text::{decimal, push_decimal};

verus! {

/// Names under which the editor's one-shot systems are registered.
pub struct EditorSystemType;

impl EditorSystemType {
    pub const UPDATE_POSITIONS: &'static str = "update_positions";
    pub const UPDATE_DIAMETER: &'static str = "update_diameter";
    pub const UPDATE_TILT: &'static str = "update_tilt";
    pub const CREATE_BODY: &'static str = "create_body";
    pub const SAVE_SCENARIO: &'static str = "save_scenario";
    pub const RETRIEVE_DATA: &'static str = "retrieve_data";
}

/// The kind of body the editor creates, which is also the kind a body of a
/// scenario has by its depth in the hierarchy.
#[derive(PartialEq, Eq, Structural, Clone, Copy, Debug)]
pub enum CreateBodyType {
    Moon,
    Planet,
    Star,
}

impl Default for CreateBodyType {
    fn default() -> (t: Self)
        ensures
            t == CreateBodyType::Moon,
    {
        CreateBodyType::Moon
    }
}

/// The kind of a body at `depth` in the hierarchy: stars at the top, their
/// planets below, and everything deeper is a moon.
pub open spec fn body_type_at(depth: nat) -> CreateBodyType {
    if depth == 0 {
        CreateBodyType::Star
    } else if depth == 1 {
        CreateBodyType::Planet
    } else {
        CreateBodyType::Moon
    }
}

impl CreateBodyType {
    /// The kind of a body at `depth` in the hierarchy.
    pub fn from_depth(depth: usize) -> (t: CreateBodyType)
        ensures
            t == body_type_at(depth as nat),
    {
        match depth {
            0 => CreateBodyType::Star,
            1 => CreateBodyType::Planet,
            _ => CreateBodyType::Moon,
        }
    }
}

/// What the editor's next created body will be.
pub struct CreateBodyState {
    pub parent: Option<EntityId>,
    pub body_type: CreateBodyType,
}

impl Default for CreateBodyState {
    fn default() -> (s: Self)
        ensures
            s.parent.is_none(),
            s.body_type == CreateBodyType::Moon,
    {
        CreateBodyState { parent: None, body_type: CreateBodyType::Moon }
    }
}

/// Name of the `index`-th body created in the editor.
pub open spec fn empty_body_name(index: int) -> Seq<char> {
    "New body "@ + decimal(index)
}

/// The model an editor-created body starts with.
pub open spec fn empty_body_model() -> Seq<char> {
    "models/earth.glb#Scene0"@
}

/// The name of the `index`-th body created in the editor.
pub fn new_body_name(index: i32) -> (res: String)
    ensures
        res@ == empty_body_name(index as int),
{
    let mut res = String::from_str("New body ");
    push_decimal(&mut res, index as i64);
    res
}

/// The body the editor has just created.
pub struct NewBody {
    pub name: String,
    pub model_path: ModelPath,
    pub body_type: CreateBodyType,
    /// Whether the body can have bodies orbiting it.
    pub has_children: bool,
    /// The body it orbits.
    pub parent: Option<EntityId>,
}

/// Creates the editor's next body as entity `id`: it is named after the
/// creation counter, gets the kind and parent chosen in `state`, becomes the
/// selected body, and the chosen parent is cleared for the next creation.
pub fn create_empty_body(
    state: &mut CreateBodyState,
    selected: &mut SelectedEntity,
    index: &mut i32,
    id: EntityId,
) -> (body: NewBody)
    requires
        *old(index) < i32::MAX,
    ensures
        body.name@ == empty_body_name(*old(index) as int),
        body.model_path.0@ == empty_body_model(),
        body.body_type == old(state).body_type,
        body.has_children == (old(state).body_type != CreateBodyType::Moon),
        body.parent == old(state).parent,
        final(selected).entity == Some(id),
        final(selected).changed_focus == old(selected).changed_focus,
        final(state).parent.is_none(),
        final(state).body_type == old(state).body_type,
        *final(index) == *old(index) + 1,
{
    let name = new_body_name(*index);
    let body = NewBody {
        name,
        model_path: ModelPath(String::from_str("models/earth.glb#Scene0")),
        body_type: state.body_type,
        has_children: state.body_type != CreateBodyType::Moon,
        parent: state.parent,
    };
    selected.entity = Some(id);
    state.parent = None;
    *index = *index + 1;
    body
}

/// Records `child` as orbiting the body that owns `children`.
pub fn add_child(children: &mut BodyChildren, child: EntityId)
    ensures
        final(children).0@ == old(children).0@.push(child),
{
    children.0.push(child);
}

} // verus!
