use vstd::prelude::*;
use vstd::string::*;

use crate::state::SimState;
use crate::text::{decimal, push_decimal};

verus! {

/// Marks the text element that shows loading progress.
pub struct ProgressMarker;

/// Progress of loading a scenario.
pub struct LoadingState {
    pub scaled_bodies: bool,
    pub scaled_bodies_count: i32,
    pub total_bodies: i32,
    pub tilted_bodies: bool,
    pub spice_loaded: i32,
    pub spice_total: i32,
    pub loaded_spice_files: bool,
    pub spawned_bodies: bool,
}

impl LoadingState {
    /// Nothing loaded yet: every flag false, every counter zero.
    pub open spec fn is_initial(self) -> bool {
        &&& !self.scaled_bodies
        &&& self.scaled_bodies_count == 0
        &&& self.total_bodies == 0
        &&& !self.tilted_bodies
        &&& self.spice_loaded == 0
        &&& self.spice_total == 0
        &&& !self.loaded_spice_files
        &&& !self.spawned_bodies
    }

    /// Every loading stage has finished.
    pub open spec fn spec_is_done(self) -> bool {
        self.scaled_bodies && self.tilted_bodies && self.loaded_spice_files && self.spawned_bodies
    }

    /// A loading state with nothing loaded.
    pub fn new() -> (s: LoadingState)
        ensures
            s.is_initial(),
    {
        LoadingState {
            scaled_bodies: false,
            scaled_bodies_count: 0,
            total_bodies: 0,
            tilted_bodies: false,
            spice_loaded: 0,
            spice_total: 0,
            loaded_spice_files: false,
            spawned_bodies: false,
        }
    }

    /// Forgets all progress, ready for loading the next scenario.
    pub fn reset(&mut self)
        ensures
            final(self).is_initial(),
    {
        self.scaled_bodies = false;
        self.tilted_bodies = false;
        self.spice_loaded = 0;
        self.spice_total = 0;
        self.spawned_bodies = false;
        self.scaled_bodies_count = 0;
        self.loaded_spice_files = false;
        self.total_bodies = 0;
    }

    /// Whether bodies are spawned, scaled and rotated and the SPICE kernels are loaded.
    pub fn is_done(&self) -> (b: bool)
        ensures
            b == self.spec_is_done(),
            b <==> (self.spawned_bodies && self.scaled_bodies && self.tilted_bodies && self.loaded_spice_files),
    {
        self.scaled_bodies && self.tilted_bodies && self.loaded_spice_files && self.spawned_bodies
    }
}

/// Law: loading is done exactly when bodies are spawned, scaled and rotated
/// and the SPICE kernels are loaded; in particular a state whose bodies are not
/// rotated yet is never done.
pub proof fn lemma_done_needs_every_stage(s: LoadingState)
    ensures
        s.spec_is_done() <==> (s.spawned_bodies && s.scaled_bodies && s.tilted_bodies && s.loaded_spice_files),
        !s.tilted_bodies ==> !s.spec_is_done(),
        !s.scaled_bodies ==> !s.spec_is_done(),
        !s.spawned_bodies ==> !s.spec_is_done(),
        !s.loaded_spice_files ==> !s.spec_is_done(),
{
}

/// Law: a freshly reset loading state is never done.
pub proof fn lemma_reset_not_done(s: LoadingState)
    requires
        s.is_initial(),
    ensures
        !s.spec_is_done(),
{
}

/// One line of the progress display.
pub open spec fn progress_line(text: Seq<char>, predicate: bool, skip: bool) -> Seq<char> {
    if predicate {
        "Done - "@ + text
    } else if skip {
        "Skipped - "@ + text
    } else {
        "In Progress - "@ + text
    }
}

/// `<label><done>/<total>`, the text of a counted loading stage.
pub open spec fn counted(label: Seq<char>, done: int, total: int) -> Seq<char> {
    label + decimal(done) + "/"@ + decimal(total)
}

/// The whole progress display: one line per loading stage.
pub open spec fn progress_text(s: LoadingState) -> Seq<char> {
    progress_line("Spawning bodies"@, s.spawned_bodies, false) + "\n"@
        + progress_line(counted("Scaling bodies: "@, s.scaled_bodies_count as int, s.total_bodies as int), s.scaled_bodies, false)
        + "\n"@
        + progress_line("Rotating bodies"@, s.tilted_bodies, false) + "\n"@
        + progress_line(counted("Loading SPK files: "@, s.spice_loaded as int, s.spice_total as int), s.loaded_spice_files, false)
}

/// The progress display written out line by line: each stage's line starts
/// with `Done - ` exactly when that stage's own flag is set.
pub open spec fn progress_display(s: LoadingState) -> Seq<char> {
    (if s.spawned_bodies { "Done - "@ + "Spawning bodies"@ } else { "In Progress - "@ + "Spawning bodies"@ })
        + "\n"@
        + (if s.scaled_bodies {
            "Done - "@ + ("Scaling bodies: "@ + decimal(s.scaled_bodies_count as int) + "/"@ + decimal(s.total_bodies as int))
        } else {
            "In Progress - "@ + ("Scaling bodies: "@ + decimal(s.scaled_bodies_count as int) + "/"@ + decimal(s.total_bodies as int))
        })
        + "\n"@
        + (if s.tilted_bodies { "Done - "@ + "Rotating bodies"@ } else { "In Progress - "@ + "Rotating bodies"@ })
        + "\n"@
        + (if s.loaded_spice_files {
            "Done - "@ + ("Loading SPK files: "@ + decimal(s.spice_loaded as int) + "/"@ + decimal(s.spice_total as int))
        } else {
            "In Progress - "@ + ("Loading SPK files: "@ + decimal(s.spice_loaded as int) + "/"@ + decimal(s.spice_total as int))
        })
}

/// Law: the progress text has one line per stage, in the order spawning,
/// scaling, rotating, loading SPK files; each line says `Done` exactly when its
/// own stage's flag is set (whatever the other flags), and the counted lines
/// show `<done>/<total>` of that stage.
pub proof fn lemma_progress_lines(s: LoadingState)
    ensures
        progress_text(s) == progress_display(s),
{
}

/// The progress line for a loading stage: done, skipped or in progress.
pub fn loading_text(text: &str, predicate: bool, skip: bool) -> (res: String)
    ensures
        res@ == progress_line(text@, predicate, skip),
{
    let mut res = if predicate {
        String::from_str("Done - ")
    } else if skip {
        String::from_str("Skipped - ")
    } else {
        String::from_str("In Progress - ")
    };
    res.append(text);
    res
}

fn counted_text(label: &str, done: i32, total: i32) -> (res: String)
    ensures
        res@ == counted(label@, done as int, total as int),
{
    let mut res = String::from_str(label);
    push_decimal(&mut res, done as i64);
    res.append("/");
    push_decimal(&mut res, total as i64);
    res
}

/// The text of the progress display for a loading state.
pub fn update_progress_text(state: &LoadingState) -> (res: String)
    ensures
        res@ == progress_text(*state),
        res@ == progress_display(*state),
{
    let text0 = loading_text("Spawning bodies", state.spawned_bodies, false);
    let scaling = counted_text("Scaling bodies: ", state.scaled_bodies_count, state.total_bodies);
    let text1 = loading_text(scaling.as_str(), state.scaled_bodies, false);
    let text2 = loading_text("Rotating bodies", state.tilted_bodies, false);
    let spk = counted_text("Loading SPK files: ", state.spice_loaded, state.spice_total);
    let text3 = loading_text(spk.as_str(), state.loaded_spice_files, false);
    let mut res = text0;
    res.append("\n");
    res.append(text1.as_str());
    res.append("\n");
    res.append(text2.as_str());
    res.append("\n");
    res.append(text3.as_str());
    proof {
        lemma_progress_lines(*state);
    }
    res
}

/// Every entry is set.
pub open spec fn all_set(flags: Seq<bool>) -> bool {
    forall|i: int| 0 <= i < flags.len() ==> #[trigger] flags[i]
}

fn all_true(flags: &Vec<bool>) -> (b: bool)
    ensures
        b == all_set(flags@),
{
    let mut i: usize = 0;
    while i < flags.len()
        invariant
            i <= flags@.len(),
            forall|j: int| 0 <= j < i ==> #[trigger] flags@[j],
        decreases flags@.len() - i,
    {
        if !flags[i] {
            return false;
        }
        i = i + 1;
    }
    true
}

/// The loading state after checking the bodies' scaled flags: scaling is
/// finished once there are bodies and every one of them has been scaled.
pub open spec fn after_scale_check(s: LoadingState, scaled: Seq<bool>) -> LoadingState {
    if scaled.len() > 0 && all_set(scaled) {
        LoadingState { scaled_bodies: true, ..s }
    } else {
        s
    }
}

/// Scaling is finished once there are bodies and every one of them has been
/// scaled to its real size (`scaled` holds one flag per body).
pub fn check_scaled(state: &mut LoadingState, scaled: &Vec<bool>)
    ensures
        *final(state) == after_scale_check(*old(state), scaled@),
{
    if scaled.len() > 0 && all_true(scaled) {
        state.scaled_bodies = true;
    }
}

/// How far loading a body's model has come.
#[derive(PartialEq, Eq, Structural, Clone, Copy, Debug)]
pub enum ModelLoad {
    NotLoaded,
    Loading,
    Loaded,
    Failed,
}

/// What scaling does to one body this frame.
pub struct ScaleStep {
    /// The body counts as scaled from now on.
    pub applied: bool,
    /// The model is scaled to the body's real size now, and counted.
    pub scale: bool,
}

/// One body's scaling step: a body already scaled is left alone; a model that
/// failed to load counts as scaled without being scaled or counted, so loading
/// cannot wait for it forever; a loaded model whose scene is ready is scaled
/// and counted; any other body waits.
pub open spec fn scale_step_of(applied: bool, load: ModelLoad, scene_ready: bool) -> ScaleStep {
    if applied {
        ScaleStep { applied: true, scale: false }
    } else if load == ModelLoad::Failed {
        ScaleStep { applied: true, scale: false }
    } else if load == ModelLoad::Loaded && scene_ready {
        ScaleStep { applied: true, scale: true }
    } else {
        ScaleStep { applied: false, scale: false }
    }
}

/// Decides one body's scaling step.
pub fn scale_step(applied: bool, load: ModelLoad, scene_ready: bool) -> (step: ScaleStep)
    ensures
        step == scale_step_of(applied, load, scene_ready),
        applied ==> step.applied && !step.scale,
        step.scale <==> (!applied && load == ModelLoad::Loaded && scene_ready),
        step.applied <==> (applied || load == ModelLoad::Failed || (load == ModelLoad::Loaded && scene_ready)),
{
    if applied {
        ScaleStep { applied: true, scale: false }
    } else if load == ModelLoad::Failed {
        ScaleStep { applied: true, scale: false }
    } else if load == ModelLoad::Loaded && scene_ready {
        ScaleStep { applied: true, scale: true }
    } else {
        ScaleStep { applied: false, scale: false }
    }
}

/// Law: once every body's model has either failed to load or loaded with its
/// scene ready, one pass of scaling steps leaves every body scaled, so the
/// scaling check that follows finishes that stage (when there are bodies).
pub proof fn lemma_failed_models_do_not_block(
    applied: Seq<bool>,
    loads: Seq<ModelLoad>,
    ready: Seq<bool>,
    state: LoadingState,
)
    requires
        loads.len() == applied.len(),
        ready.len() == applied.len(),
        forall|i: int| 0 <= i < loads.len() ==>
            #[trigger] loads[i] == ModelLoad::Failed || (loads[i] == ModelLoad::Loaded && ready[i]),
    ensures
        ({
            let after = Seq::new(applied.len(), |i: int| scale_step_of(applied[i], loads[i], ready[i]).applied);
            &&& all_set(after)
            &&& (after.len() > 0 ==> after_scale_check(state, after).scaled_bodies)
        }),
{
    let after = Seq::new(applied.len(), |i: int| scale_step_of(applied[i], loads[i], ready[i]).applied);
    assert forall|i: int| 0 <= i < after.len() implies #[trigger] after[i] by {
        assert(loads[i] == ModelLoad::Failed || (loads[i] == ModelLoad::Loaded && ready[i]));
    }
}

/// Law: a body already scaled is never scaled or counted again, whatever its
/// model's load state; a body is scaled (and counted) exactly when it was not
/// yet and its model has loaded with its scene ready; a failed model is never
/// scaled but counts as done.
pub proof fn lemma_scaled_once(applied: bool, load: ModelLoad, scene_ready: bool)
    ensures
        applied ==> scale_step_of(applied, load, scene_ready).applied && !scale_step_of(applied, load, scene_ready).scale,
        scale_step_of(applied, load, scene_ready).scale <==> (!applied && load == ModelLoad::Loaded && scene_ready),
        load == ModelLoad::Failed ==> scale_step_of(applied, load, scene_ready).applied
            && !scale_step_of(applied, load, scene_ready).scale,
        (load == ModelLoad::NotLoaded || load == ModelLoad::Loading) ==> scale_step_of(applied, load, scene_ready).applied
            == applied,
{
}

/// Records that one more body has been scaled.
pub fn body_scaled(state: &mut LoadingState)
    requires
        old(state).scaled_bodies_count < i32::MAX,
    ensures
        *final(state) == (LoadingState { scaled_bodies_count: (old(state).scaled_bodies_count + 1) as i32, ..*old(state) }),
{
    state.scaled_bodies_count = state.scaled_bodies_count + 1;
}

/// Rotation is finished once every body has its initial rotation applied
/// (`rotated` holds one flag per body; with no bodies it is finished at once).
pub fn check_rotated(state: &mut LoadingState, rotated: &Vec<bool>)
    ensures
        *final(state) == (if all_set(rotated@) {
            LoadingState { tilted_bodies: true, ..*old(state) }
        } else {
            *old(state)
        }),
{
    if all_true(rotated) {
        state.tilted_bodies = true;
    }
}

/// The phase loading switches to: the loaded scenario once every stage is done.
pub fn loading_system(state: &LoadingState) -> (next: Option<SimState>)
    ensures
        next == (if state.spec_is_done() { Some(SimState::Loaded) } else { None::<SimState> }),
        next.is_some() <==> (state.spawned_bodies && state.scaled_bodies && state.tilted_bodies
            && state.loaded_spice_files),
        next.is_some() ==> next == Some(SimState::Loaded),
{
    if state.is_done() {
        Some(SimState::Loaded)
    } else {
        None
    }
}

} // verus!
