use vstd::prelude::*;
use vstd::string::*;

use crate::loading::LoadingState;
use crate::text::{ends_with, has_suffix};

verus! {

/// Asset source from which scenario files are read.
pub const SCENARIO_ASSET_SOURCE: &'static str = "scenarios";

/// NAIF identifier meaning "none given".
pub fn default_id() -> (id: i32)
    ensures
        id == -1,
{
    -1
}

/// The body-fixed frame of a body: the NAIF ids of its target and orientation.
pub struct SerializedFixedBodyFrame {
    pub target_id: i32,
    pub orientation_id: i32,
}

/// A body-fixed frame with neither id given.
pub fn default_frame() -> (f: SerializedFixedBodyFrame)
    ensures
        f.target_id == -1,
        f.orientation_id == -1,
{
    SerializedFixedBodyFrame { target_id: default_id(), orientation_id: default_id() }
}

/// A scenario without SPICE kernels.
pub fn default_spk() -> (v: Vec<String>)
    ensures
        v@.len() == 0,
{
    Vec::new()
}

/// The light color used when a scenario gives none: white.
pub fn default_color() -> (c: String)
    ensures
        c@ == "#ffffff"@,
{
    String::from_str("#ffffff")
}

/// How a body is looked up in the SPICE kernels.
pub struct AniseMetadata {
    pub ephemeris_id: i32,
    /// For constants and rotation.
    pub target_id: i32,
    pub orientation_id: i32,
}

impl Default for AniseMetadata {
    fn default() -> (m: Self)
        ensures
            m.ephemeris_id == -1,
            m.target_id == -1,
            m.orientation_id == -1,
    {
        AniseMetadata { ephemeris_id: -1, orientation_id: -1, target_id: -1 }
    }
}

/// The SPICE kernel files of a scenario, each with whether it has been loaded.
/// No file name occurs twice.
pub struct SpiceFiles {
    pub entries: Vec<(String, bool)>,
}

impl SpiceFiles {
    /// The file names, in order.
    pub open spec fn keys(self) -> Seq<Seq<char>> {
        Seq::new(self.entries@.len(), |i: int| self.entries@[i].0@)
    }

    /// No file name occurs twice.
    pub open spec fn wf(self) -> bool {
        self.keys().no_duplicates()
    }
}

impl View for SpiceFiles {
    type V = Map<Seq<char>, bool>;

    /// Each file name mapped to whether it has been loaded.
    open spec fn view(&self) -> Map<Seq<char>, bool> {
        Map::new(|k: Seq<char>| self.keys().contains(k), |k: Seq<char>| self.entries@[self.keys().index_of(k)].1)
    }
}

proof fn lemma_index_of_unique(s: Seq<Seq<char>>, i: int)
    requires
        s.no_duplicates(),
        0 <= i < s.len(),
    ensures
        s.contains(s[i]),
        s.index_of(s[i]) == i,
{
    assert(s[i] == s[i]);
    let j = s.index_of(s[i]);
    assert(0 <= j < s.len() && s[j] == s[i]);
}

impl SpiceFiles {
    /// Index of the entry for `path`.
    fn find(&self, path: &str) -> (r: Option<usize>)
        requires
            self.wf(),
        ensures
            match r {
                Some(i) => i < self.entries@.len() && self.keys()[i as int] == path@,
                None => !self.keys().contains(path@),
            },
    {
        let target = String::from_str(path);
        let mut i: usize = 0;
        while i < self.entries.len()
            invariant
                i <= self.entries@.len(),
                target@ == path@,
                forall|j: int| 0 <= j < i ==> self.keys()[j] != path@,
            decreases self.entries@.len() - i,
        {
            if self.entries[i].0 == target {
                return Some(i);
            }
            i = i + 1;
        }
        None
    }

    /// The files of a scenario's data sets, none loaded yet; a name given twice
    /// is kept once.
    pub fn from_data_sets(data_sets: &Vec<String>) -> (files: SpiceFiles)
        ensures
            files.wf(),
            forall|k: Seq<char>| #[trigger] files@.contains_key(k)
                <==> exists|i: int| 0 <= i < data_sets@.len() && data_sets@[i]@ == k,
            forall|k: Seq<char>| files@.contains_key(k) ==> !#[trigger] files@[k],
    {
        let mut files = SpiceFiles { entries: Vec::new() };
        let mut i: usize = 0;
        while i < data_sets.len()
            invariant
                i <= data_sets@.len(),
                files.wf(),
                forall|k: Seq<char>| #[trigger] files.keys().contains(k)
                    <==> exists|j: int| 0 <= j < i && data_sets@[j]@ == k,
                forall|j: int| 0 <= j < files.entries@.len() ==> !(#[trigger] files.entries@[j]).1,
            decreases data_sets@.len() - i,
        {
            let ghost old_keys = files.keys();
            match files.find(data_sets[i].as_str()) {
                Some(_) => {
                    proof {
                        assert forall|k: Seq<char>| #[trigger] files.keys().contains(k)
                            <==> exists|j: int| 0 <= j < i + 1 && data_sets@[j]@ == k by {
                            if exists|j: int| 0 <= j < i + 1 && data_sets@[j]@ == k {
                                let j = choose|j: int| 0 <= j < i + 1 && data_sets@[j]@ == k;
                                if j == i {
                                } else {
                                    assert(exists|j: int| 0 <= j < i && data_sets@[j]@ == k);
                                }
                            }
                        }
                    }
                },
                None => {
                    let name = data_sets[i].clone();
                    files.entries.push((name, false));
                    proof {
                        let keys = files.keys();
                        assert(keys =~= old_keys.push(data_sets@[i as int]@));
                        assert forall|a: int, b: int| 0 <= a < keys.len() && 0 <= b < keys.len() && a != b
                            implies keys[a] != keys[b] by {
                            if a == keys.len() - 1 {
                                assert(old_keys[b] == keys[b]);
                            } else if b == keys.len() - 1 {
                                assert(old_keys[a] == keys[a]);
                            }
                        }
                        assert forall|k: Seq<char>| #[trigger] keys.contains(k)
                            <==> exists|j: int| 0 <= j < i + 1 && data_sets@[j]@ == k by {
                            if keys.contains(k) {
                                let p = choose|p: int| 0 <= p < keys.len() && keys[p] == k;
                                if p < old_keys.len() {
                                    assert(old_keys[p] == k);
                                    assert(old_keys.contains(k));
                                }
                            }
                            if exists|j: int| 0 <= j < i + 1 && data_sets@[j]@ == k {
                                let j = choose|j: int| 0 <= j < i + 1 && data_sets@[j]@ == k;
                                if j == i {
                                    assert(keys[keys.len() - 1] == k);
                                } else {
                                    assert(exists|j: int| 0 <= j < i && data_sets@[j]@ == k);
                                    assert(old_keys.contains(k));
                                    let p = choose|p: int| 0 <= p < old_keys.len() && old_keys[p] == k;
                                    assert(keys[p] == k);
                                }
                            }
                        }
                    }
                },
            }
            i = i + 1;
        }
        proof {
            assert forall|k: Seq<char>| files@.contains_key(k) implies !#[trigger] files@[k] by {
                let p = files.keys().index_of(k);
                assert(0 <= p < files.entries@.len());
            }
        }
        files
    }

    /// Records that `path` has been loaded (adding it when it is not listed).
    pub fn set_loaded(&mut self, path: &str)
        requires
            old(self).wf(),
        ensures
            final(self).wf(),
            final(self)@ == old(self)@.insert(path@, true),
    {
        let ghost old_keys = self.keys();
        match self.find(path) {
            Some(i) => {
                let name = String::from_str(path);
                self.entries.set(i, (name, true));
                proof {
                    assert(self.keys() =~= old_keys);
                    assert forall|k: Seq<char>| #![auto] self@.contains_key(k) implies self@[k] == old(self)@.insert(path@, true)[k] by {
                        let p = self.keys().index_of(k);
                        lemma_index_of_unique(self.keys(), p);
                        lemma_index_of_unique(old_keys, p);
                    }
                    assert(self@ =~= old(self)@.insert(path@, true));
                }
            },
            None => {
                let name = String::from_str(path);
                self.entries.push((name, true));
                proof {
                    let keys = self.keys();
                    assert(keys =~= old_keys.push(path@));
                    assert forall|a: int, b: int| 0 <= a < keys.len() && 0 <= b < keys.len() && a != b
                        implies keys[a] != keys[b] by {
                        if a == keys.len() - 1 {
                            assert(old_keys[b] == keys[b]);
                        } else if b == keys.len() - 1 {
                            assert(old_keys[a] == keys[a]);
                        }
                    }
                    assert forall|k: Seq<char>| keys.contains(k) <==> old_keys.contains(k) || k == path@ by {
                        if keys.contains(k) && k != path@ {
                            let p = choose|p: int| 0 <= p < keys.len() && keys[p] == k;
                            assert(old_keys[p] == k);
                        }
                        if old_keys.contains(k) {
                            let p = choose|p: int| 0 <= p < old_keys.len() && old_keys[p] == k;
                            assert(keys[p] == k);
                        }
                        if k == path@ {
                            assert(keys[keys.len() - 1] == k);
                        }
                    }
                    assert forall|k: Seq<char>| #![auto] self@.contains_key(k) implies self@[k] == old(self)@.insert(path@, true)[k] by {
                        let p = keys.index_of(k);
                        lemma_index_of_unique(keys, p);
                        if p < old_keys.len() {
                            lemma_index_of_unique(old_keys, p);
                        }
                    }
                    assert(self@ =~= old(self)@.insert(path@, true));
                }
            },
        }
    }

    /// Marks every file as not loaded.
    pub fn mark_all_unloaded(&mut self)
        requires
            old(self).wf(),
        ensures
            final(self).wf(),
            final(self)@.dom() == old(self)@.dom(),
            forall|k: Seq<char>| final(self)@.contains_key(k) ==> !#[trigger] final(self)@[k],
    {
        let ghost old_keys = self.keys();
        let mut i: usize = 0;
        while i < self.entries.len()
            invariant
                i <= self.entries@.len(),
                self.keys() == old_keys,
                forall|j: int| 0 <= j < i ==> !(#[trigger] self.entries@[j]).1,
            decreases self.entries@.len() - i,
        {
            let name = self.entries[i].0.clone();
            self.entries.set(i, (name, false));
            assert(self.keys() =~= old_keys);
            i = i + 1;
        }
        proof {
            assert(self@.dom() =~= old(self)@.dom());
            assert forall|k: Seq<char>| self@.contains_key(k) implies !#[trigger] self@[k] by {
                let p = self.keys().index_of(k);
                assert(0 <= p < self.entries@.len());
            }
        }
    }

    /// Number of files.
    pub fn len(&self) -> (n: usize)
        requires
            self.wf(),
        ensures
            n == self@.dom().len(),
    {
        proof {
            self.keys().unique_seq_to_set();
            assert(self@.dom() =~= self.keys().to_set());
        }
        self.entries.len()
    }

    /// No file is listed.
    pub fn is_empty(&self) -> (b: bool)
        requires
            self.wf(),
        ensures
            b == (self@.dom().len() == 0),
    {
        self.len() == 0
    }
}

/// The kind of a SPICE kernel file, told by its extension.
#[derive(PartialEq, Eq, Structural, Clone, Copy, Debug)]
pub enum SpiceFileKind {
    /// `.bsp`: ephemeris data.
    Spk,
    /// `.pca`: planetary constants.
    Pca,
    Unsupported,
}

/// The kind of a SPICE file, told by the end of its path.
pub open spec fn file_kind(path: Seq<char>) -> SpiceFileKind {
    if has_suffix(path, ".bsp"@) {
        SpiceFileKind::Spk
    } else if has_suffix(path, ".pca"@) {
        SpiceFileKind::Pca
    } else {
        SpiceFileKind::Unsupported
    }
}

/// The kind of the SPICE file at `path`.
pub fn spice_file_kind(path: &str) -> (k: SpiceFileKind)
    ensures
        k == file_kind(path@),
{
    if ends_with(path, ".bsp") {
        SpiceFileKind::Spk
    } else if ends_with(path, ".pca") {
        SpiceFileKind::Pca
    } else {
        SpiceFileKind::Unsupported
    }
}

/// What SPICE kernel loading does this frame.
#[derive(PartialEq, Eq, Structural, Clone, Copy, Debug)]
pub enum SpiceStep {
    /// Nothing to do (already loaded, or bodies not spawned yet).
    Idle,
    /// Loading is finished or not needed.
    Finished,
    /// Start a loading task for every file, then poll the tasks.
    StartAndPoll,
    /// Poll the running loading tasks.
    Poll,
}

/// The step SPICE kernel loading takes for loading state `s` with `n_files`
/// files, and the loading state after it. Kernels are only loaded in the
/// editor once the bodies are spawned; with no files, or once every file has
/// been handled, loading is marked finished; starting sets the number of files
/// to handle.
pub open spec fn spice_step(s: LoadingState, is_editor: bool, n_files: nat, task_pool_idle: bool) -> (SpiceStep, LoadingState) {
    if s.loaded_spice_files || !s.spawned_bodies {
        (SpiceStep::Idle, s)
    } else if !is_editor || n_files == 0 || (s.spice_loaded > 0 && s.spice_loaded == s.spice_total) {
        (SpiceStep::Finished, LoadingState { loaded_spice_files: true, ..s })
    } else if task_pool_idle && s.spice_total == 0 {
        (SpiceStep::StartAndPoll, LoadingState { spice_total: n_files as i32, ..s })
    } else {
        (SpiceStep::Poll, s)
    }
}

/// Law: with bodies spawned and kernel loading not finished, a scenario that
/// lists no SPICE files finishes loading them at once, in the editor or not,
/// whether or not the task pool is idle.
pub proof fn lemma_no_files_finish_at_once(s: LoadingState, is_editor: bool, idle: bool)
    requires
        s.spawned_bodies,
        !s.loaded_spice_files,
    ensures
        spice_step(s, is_editor, 0, idle) == (SpiceStep::Finished, LoadingState { loaded_spice_files: true, ..s }),
{
}

/// Law: outside the editor, kernel loading finishes as soon as the bodies are
/// spawned, whatever the files.
pub proof fn lemma_simulation_skips_kernels(s: LoadingState, n_files: nat, idle: bool)
    requires
        s.spawned_bodies,
        !s.loaded_spice_files,
    ensures
        spice_step(s, false, n_files, idle) == (SpiceStep::Finished, LoadingState { loaded_spice_files: true, ..s }),
{
}

/// Law: once kernel loading has finished, every later frame does nothing and
/// leaves the loading state as it is, whatever the files and the task pool.
pub proof fn lemma_spice_finished_stays_idle(
    s: LoadingState,
    is_editor: bool,
    n_files: nat,
    idle: bool,
    later_editor: bool,
    later_files: nat,
    later_idle: bool,
)
    requires
        spice_step(s, is_editor, n_files, idle).0 == SpiceStep::Finished,
    ensures
        spice_step(spice_step(s, is_editor, n_files, idle).1, later_editor, later_files, later_idle)
            == (SpiceStep::Idle, spice_step(s, is_editor, n_files, idle).1),
{
}

/// The loading state after `m` more loading tasks have finished.
pub open spec fn tasks_finished(s: LoadingState, m: nat) -> LoadingState
    decreases m,
{
    if m == 0 {
        s
    } else {
        one_more_spice_file(tasks_finished(s, (m - 1) as nat))
    }
}

/// The loading state once kernel loading has started: one that has not
/// started yet has `n_files` files to handle.
pub open spec fn spice_started(s: LoadingState, n_files: nat) -> LoadingState {
    if s.spice_total == 0 {
        LoadingState { spice_total: n_files as i32, ..s }
    } else {
        s
    }
}

proof fn lemma_tasks_finished(s: LoadingState, m: nat)
    requires
        0 <= s.spice_loaded,
        s.spice_loaded + m <= i32::MAX,
    ensures
        tasks_finished(s, m) == (LoadingState { spice_loaded: (s.spice_loaded + m) as i32, ..s }),
    decreases m,
{
    if m > 0 {
        lemma_tasks_finished(s, (m - 1) as nat);
    }
}

/// Law: in the editor, with bodies spawned and files listed, kernel loading
/// finishes. It starts (setting the number of files to handle) once the task
/// pool is idle; then, whatever the pool, every frame polls while fewer files
/// than that have been handled (the `j`-th of them here), and the frame after
/// the last file has been handled finishes loading for good. A file for which
/// no loading task is started keeps the count below the total, so loading
/// keeps polling. This holds from any state whose handled count does not
/// already exceed the number of files to handle.
pub proof fn lemma_spice_loading_finishes(s: LoadingState, n_files: nat, idle: bool, j: nat)
    requires
        s.spawned_bodies,
        !s.loaded_spice_files,
        0 < n_files <= i32::MAX,
        0 <= s.spice_loaded,
        0 <= s.spice_total,
        s.spice_loaded <= spice_started(s, n_files).spice_total,
    ensures
        s.spice_total == 0 ==> spice_step(s, true, n_files, true) == (SpiceStep::StartAndPoll, spice_started(s, n_files)),
        ({
            let t = spice_started(s, n_files);
            let m = (t.spice_total - t.spice_loaded) as nat;
            &&& j < m ==> spice_step(tasks_finished(t, j), true, n_files, idle).0 == SpiceStep::Poll
            &&& tasks_finished(t, m).spice_loaded == t.spice_total
            &&& spice_step(tasks_finished(t, m), true, n_files, idle)
                == (SpiceStep::Finished, LoadingState { loaded_spice_files: true, ..tasks_finished(t, m) })
            &&& spice_step(spice_step(tasks_finished(t, m), true, n_files, idle).1, true, n_files, idle).0 == SpiceStep::Idle
        }),
{
    let t = spice_started(s, n_files);
    let m = (t.spice_total - t.spice_loaded) as nat;
    lemma_tasks_finished(t, m);
    if j < m {
        lemma_tasks_finished(t, j);
    }
}

/// The files a loading task is started for, in order, with their kind: every
/// `.bsp` and `.pca` file; a file of another kind gets no task.
pub open spec fn load_tasks(paths: Seq<Seq<char>>) -> Seq<(Seq<char>, SpiceFileKind)>
    decreases paths.len(),
{
    if paths.len() == 0 {
        Seq::empty()
    } else {
        let rest = load_tasks(paths.drop_last());
        let kind = file_kind(paths.last());
        if kind == SpiceFileKind::Unsupported {
            rest
        } else {
            rest.push((paths.last(), kind))
        }
    }
}

/// Law: fewer tasks than files are started exactly when some file is of an
/// unsupported kind.
pub proof fn lemma_unsupported_files_get_no_task(paths: Seq<Seq<char>>)
    ensures
        load_tasks(paths).len() <= paths.len(),
        load_tasks(paths).len() < paths.len()
            <==> exists|i: int| 0 <= i < paths.len() && file_kind(#[trigger] paths[i]) == SpiceFileKind::Unsupported,
    decreases paths.len(),
{
    if paths.len() > 0 {
        let init = paths.drop_last();
        lemma_unsupported_files_get_no_task(init);
        if exists|i: int| 0 <= i < init.len() && file_kind(#[trigger] init[i]) == SpiceFileKind::Unsupported {
            let i = choose|i: int| 0 <= i < init.len() && file_kind(#[trigger] init[i]) == SpiceFileKind::Unsupported;
            assert(paths[i] == init[i]);
        }
        if exists|i: int| 0 <= i < paths.len() && file_kind(#[trigger] paths[i]) == SpiceFileKind::Unsupported {
            let i = choose|i: int| 0 <= i < paths.len() && file_kind(#[trigger] paths[i]) == SpiceFileKind::Unsupported;
            if i < paths.len() - 1 {
                assert(init[i] == paths[i]);
            }
        }
        assert(paths.last() == paths[paths.len() - 1]);
    }
}

/// The loading tasks to start for the files, in order, each with the kind of
/// its file.
pub fn spice_load_tasks(files: &SpiceFiles) -> (tasks: Vec<(String, SpiceFileKind)>)
    ensures
        tasks@.len() == load_tasks(files.keys()).len(),
        forall|i: int| 0 <= i < tasks@.len() ==>
            (#[trigger] tasks@[i]).0@ == load_tasks(files.keys())[i].0 && tasks@[i].1 == load_tasks(files.keys())[i].1,
{
    let mut tasks: Vec<(String, SpiceFileKind)> = Vec::new();
    let mut i: usize = 0;
    while i < files.entries.len()
        invariant
            i <= files.entries@.len(),
            tasks@.len() == load_tasks(files.keys().take(i as int)).len(),
            forall|k: int| 0 <= k < tasks@.len() ==>
                (#[trigger] tasks@[k]).0@ == load_tasks(files.keys().take(i as int))[k].0
                && tasks@[k].1 == load_tasks(files.keys().take(i as int))[k].1,
        decreases files.entries@.len() - i,
    {
        let ghost prefix = files.keys().take(i as int);
        let ghost next = files.keys().take(i + 1);
        proof {
            assert(next.drop_last() =~= prefix);
            assert(next.last() == files.entries@[i as int].0@);
        }
        let kind = spice_file_kind(files.entries[i].0.as_str());
        if kind != SpiceFileKind::Unsupported {
            let name = files.entries[i].0.clone();
            tasks.push((name, kind));
        }
        i = i + 1;
    }
    proof {
        assert(files.keys().take(files.entries@.len() as int) =~= files.keys());
    }
    tasks
}

/// Decides this frame's SPICE kernel loading step; starting marks every file
/// as not loaded.
pub fn spk_file_loading_step(
    state: &mut LoadingState,
    is_editor: bool,
    files: &mut SpiceFiles,
    task_pool_idle: bool,
) -> (step: SpiceStep)
    requires
        old(files).wf(),
        old(files)@.dom().len() <= i32::MAX,
    ensures
        (step, *final(state)) == spice_step(*old(state), is_editor, old(files)@.dom().len(), task_pool_idle),
        old(state).loaded_spice_files || !old(state).spawned_bodies ==> step == SpiceStep::Idle && *final(state)
            == *old(state),
        old(state).spawned_bodies && !old(state).loaded_spice_files && !is_editor ==> step == SpiceStep::Finished
            && final(state).loaded_spice_files,
        old(state).spawned_bodies && !old(state).loaded_spice_files && old(files)@.dom().len() == 0 ==> step
            == SpiceStep::Finished && *final(state) == (LoadingState { loaded_spice_files: true, ..*old(state) }),
        final(files).wf(),
        final(files)@.dom() == old(files)@.dom(),
        step == SpiceStep::StartAndPoll ==> forall|k: Seq<char>| final(files)@.contains_key(k) ==> !#[trigger] final(files)@[k],
        step != SpiceStep::StartAndPoll ==> final(files)@ == old(files)@,
{
    if state.loaded_spice_files || !state.spawned_bodies {
        return SpiceStep::Idle;
    }
    if !is_editor || files.is_empty() || (state.spice_loaded > 0 && state.spice_loaded == state.spice_total) {
        state.loaded_spice_files = true;
        return SpiceStep::Finished;
    }
    if task_pool_idle && state.spice_total == 0 {
        let n = files.len();
        state.spice_total = n as i32;
        files.mark_all_unloaded();
        return SpiceStep::StartAndPoll;
    }
    SpiceStep::Poll
}

/// The loading state with one more SPICE file handled.
pub open spec fn one_more_spice_file(s: LoadingState) -> LoadingState {
    LoadingState { spice_loaded: (s.spice_loaded + 1) as i32, ..s }
}

/// What a finished loading task does to the files.
pub open spec fn files_after(files: Map<Seq<char>, bool>, outcome: SpiceOutcome) -> Map<Seq<char>, bool> {
    match outcome {
        SpiceOutcome::Loaded(path) => files.insert(path@, true),
        SpiceOutcome::Failed => files,
    }
}

/// How a SPICE loading task ended.
pub enum SpiceOutcome {
    /// The file at this path was added to the kernel set.
    Loaded(String),
    /// Reading or adding the file failed.
    Failed,
}

/// Records a finished loading task: a loaded file is marked as loaded, and
/// either way one more file has been handled.
pub fn spice_task_finished(state: &mut LoadingState, files: &mut SpiceFiles, outcome: SpiceOutcome)
    requires
        old(files).wf(),
        old(state).spice_loaded < i32::MAX,
    ensures
        final(files).wf(),
        *final(state) == one_more_spice_file(*old(state)),
        final(files)@ == files_after(old(files)@, outcome),
{
    match outcome {
        SpiceOutcome::Loaded(path) => {
            files.set_loaded(path.as_str());
        },
        SpiceOutcome::Failed => {},
    }
    state.spice_loaded = state.spice_loaded + 1;
}

} // verus!
