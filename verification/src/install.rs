//! An install attempt, step by step.
//!
//! An install resolves what has to exist, prepares the directories and, for
//! a full install, fetches each archive into its directory:
//!
//! ```text
//! ResolvingManifest -> PlanningDirectories -> FetchingArchives -> Done
//!                \________________\___________________\________> Failed
//! ```
//!
//! The work on the network and on disk is done by the caller. The install
//! tells it what to do next ([`InstallAction`]), the caller reports what
//! came of it ([`InstallEvent`]), and [`step`] decides how the attempt goes
//! on. The first failure ends the attempt; what was created or extracted
//! before it stays.

use vstd::prelude::*;
use vstd::string::*;
use crate::archive::ArchiveDescriptor;
use crate::error::{ErrorModel, InstallError};
use crate::layout::{target_path, version_rel, versions_rel, InstallLayout, Resolved};
use crate::manifest::{
    manifest_file_of, manifest_url, paths_of, repo_url, setup_file_url, setup_url, Channel,
    Manifest,
};
use crate::planner::{
    create_manifest_dirs, lemma_all_targets_exist, lemma_settled_all_grows, missing, missing_all,
    settled, settled_all,
};
use crate::segments::{segments, texts};
use crate::text::joined;
use crate::tree::{chain, directory_chain, target, PathIndex};

verus! {

/// Whether the studio of `year` is installed: whether its directory exists
/// among the versions. Without a layout nothing is installed.
pub fn is_installed(index: &PathIndex, layout: Option<&InstallLayout>, year: &str) -> (r: bool)
    ensures
        r == (layout matches Some(l) && index@.contains(
            target(l.local_data@, versions_rel()) + seq!['/'] + year@,
        )),
{
    match layout {
        Some(l) => {
            let folder = target_path(l.local_data.as_str(), "Syntax/Versions");
            let path = joined(folder.as_str(), year);
            index.contains(path.as_str())
        },
        None => false,
    }
}

/// Prepares a client of `version`: the directory of the version and, below
/// it, every path of `manifest`. Returns the directory of the version with
/// the directories to create, in the order in which to create them.
/// Afterwards the directory of the version exists, and so does the target
/// of every path of the manifest. The directories of a version are shared
/// by the clients of all years, so the year does not enter.
pub fn prepare_client(
    index: &mut PathIndex,
    layout: &InstallLayout,
    _year: &str,
    version: &str,
    manifest: &Manifest,
) -> (r: Resolved)
    ensures
        ({
            let local = layout.local_data@;
            let rel = version_rel(version@);
            let paths = paths_of(manifest.entries());
            let reached = settled(old(index)@, local, rel);
            &&& r.path@ == target(local, rel)
            &&& texts(r.created@) == missing(old(index)@, local, rel) + missing_all(
                reached,
                r.path@,
                paths,
            )
            &&& final(index)@ == settled_all(reached, r.path@, paths)
            &&& final(index)@.contains(r.path@)
            &&& forall|i: int|
                0 <= i < paths.len() && segments(paths[i]).len() > 0 ==> final(index)@.contains(
                    #[trigger] target(r.path@, paths[i]),
                )
        }),
{
    let folder = layout.get_version_folder(index, version);
    let paths = manifest.paths();
    let mut created = folder.created;
    let ghost first = texts(created@);
    let ghost reached = index@;
    let mut more = create_manifest_dirs(index, folder.path.as_str(), &paths);
    let ghost second = texts(more@);
    created.append(&mut more);
    proof {
        let all = paths_of(manifest.entries());
        assert(texts(created@) =~= first + second);
        lemma_settled_all_grows(reached, folder.path@, all);
        assert forall|i: int| 0 <= i < all.len() && segments(all[i]).len() > 0 implies index@.contains(
            #[trigger] target(folder.path@, all[i]),
        ) by {
            lemma_all_targets_exist(reached, folder.path@, all, i);
        }
    }
    Resolved { path: folder.path, created }
}

/// What one step of a plan does.
#[derive(Debug, Clone, Copy, PartialEq, Eq, Structural)]
pub enum StepKind {
    /// The target directory is prepared; nothing is fetched.
    DirectoryOnly,
    /// The target directory is prepared and the archive at the source is
    /// extracted into it.
    Archive,
}

/// One step of a plan: where its content comes from, the directory it goes
/// to, relative to the base of the install, and what is done.
pub struct PlanStep {
    pub source: String,
    pub target_path: String,
    pub kind: StepKind,
}

/// A [`PlanStep`] with its texts as sequences of characters.
pub struct StepModel {
    pub source: Seq<char>,
    pub target_path: Seq<char>,
    pub kind: StepKind,
}

impl View for PlanStep {
    type V = StepModel;

    open spec fn view(&self) -> StepModel {
        StepModel { source: self.source@, target_path: self.target_path@, kind: self.kind }
    }
}

/// What an install has to do, in order.
pub struct InstallPlan {
    pub steps: Vec<PlanStep>,
}

impl View for InstallPlan {
    type V = Seq<StepModel>;

    open spec fn view(&self) -> Seq<StepModel> {
        Seq::new(self.steps@.len(), |i: int| self.steps@[i]@)
    }
}

/// The plan of a manifest: each entry's path is prepared, nothing is
/// fetched.
pub open spec fn manifest_plan(entries: Seq<(Seq<char>, Seq<char>)>) -> Seq<StepModel> {
    Seq::new(
        entries.len(),
        |i: int|
            StepModel {
                source: entries[i].0,
                target_path: entries[i].1,
                kind: StepKind::DirectoryOnly,
            },
    )
}

/// The plan of a table of archives: each archive is fetched from the setup
/// host and extracted into its target.
pub open spec fn archive_plan(table: Seq<ArchiveDescriptor>) -> Seq<StepModel> {
    Seq::new(
        table.len(),
        |i: int|
            StepModel {
                source: setup_url(table[i].file_name@),
                target_path: table[i].target@,
                kind: StepKind::Archive,
            },
    )
}

/// The target paths of a plan, in order.
pub open spec fn plan_paths(steps: Seq<StepModel>) -> Seq<Seq<char>> {
    Seq::new(steps.len(), |i: int| steps[i].target_path)
}

/// The first step at or after `from` that fetches an archive; the number of
/// steps if there is none.
pub open spec fn next_archive(steps: Seq<StepModel>, from: int) -> int
    decreases steps.len() - from,
{
    if from < 0 || from >= steps.len() {
        steps.len() as int
    } else if steps[from].kind == StepKind::Archive {
        from
    } else {
        next_archive(steps, from + 1)
    }
}

/// `next_archive` finds the first archive at or after `from`.
pub proof fn lemma_next_archive(steps: Seq<StepModel>, from: int)
    requires
        0 <= from <= steps.len(),
    ensures
        from <= next_archive(steps, from) <= steps.len(),
        next_archive(steps, from) < steps.len() ==> steps[next_archive(steps, from)].kind
            == StepKind::Archive,
        forall|i: int|
            from <= i < next_archive(steps, from) ==> (#[trigger] steps[i]).kind
                != StepKind::Archive,
    decreases steps.len() - from,
{
    if from < steps.len() && steps[from].kind != StepKind::Archive {
        lemma_next_archive(steps, from + 1);
    }
}

impl InstallPlan {
    /// The plan that prepares the paths of `manifest`.
    pub fn from_manifest(manifest: &Manifest) -> (plan: InstallPlan)
        ensures
            plan@ == manifest_plan(manifest.entries()),
    {
        let names = manifest.names();
        let paths = manifest.paths();
        let mut steps: Vec<PlanStep> = Vec::new();
        let mut i: usize = 0;
        assert(texts(names@).len() == names.len());
        assert(texts(paths@).len() == paths.len());
        while i < names.len()
            invariant
                i <= names.len(),
                names.len() == paths.len(),
                names.len() == manifest.entries().len(),
                texts(names@) == Seq::new(
                    manifest.entries().len(),
                    |k: int| manifest.entries()[k].0,
                ),
                texts(paths@) == paths_of(manifest.entries()),
                steps.len() == i,
                forall|k: int| 0 <= k < i ==> (#[trigger] steps[k])@ == manifest_plan(
                    manifest.entries(),
                )[k],
            decreases names.len() - i,
        {
            proof {
                assert(texts(names@)[i as int] == names[i as int]@);
                assert(texts(paths@)[i as int] == paths[i as int]@);
            }
            steps.push(
                PlanStep {
                    source: names[i].clone(),
                    target_path: paths[i].clone(),
                    kind: StepKind::DirectoryOnly,
                },
            );
            i += 1;
        }
        let plan = InstallPlan { steps };
        assert(plan@ =~= manifest_plan(manifest.entries()));
        plan
    }

    /// The plan that fetches each archive of `table` from the setup host.
    pub fn from_archives(table: &Vec<ArchiveDescriptor>) -> (plan: InstallPlan)
        ensures
            plan@ == archive_plan(table@),
    {
        let mut steps: Vec<PlanStep> = Vec::new();
        let mut i: usize = 0;
        while i < table.len()
            invariant
                i <= table.len(),
                steps.len() == i,
                forall|k: int| 0 <= k < i ==> (#[trigger] steps[k])@ == archive_plan(table@)[k],
            decreases table.len() - i,
        {
            steps.push(
                PlanStep {
                    source: setup_file_url(table[i].file_name.as_str()),
                    target_path: table[i].target.clone(),
                    kind: StepKind::Archive,
                },
            );
            i += 1;
        }
        let plan = InstallPlan { steps };
        assert(plan@ =~= archive_plan(table@));
        plan
    }

    /// The target paths of the plan, in order.
    pub fn target_paths(&self) -> (paths: Vec<String>)
        ensures
            texts(paths@) == plan_paths(self@),
    {
        let mut paths: Vec<String> = Vec::new();
        let mut i: usize = 0;
        while i < self.steps.len()
            invariant
                i <= self.steps.len(),
                paths.len() == i,
                forall|k: int| 0 <= k < i ==> (#[trigger] paths[k])@ == self.steps[k].target_path@,
            decreases self.steps.len() - i,
        {
            paths.push(self.steps[i].target_path.clone());
            i += 1;
        }
        assert(texts(paths@) =~= plan_paths(self@));
        paths
    }

    /// The first step at or after `from` that fetches an archive; the number
    /// of steps if there is none.
    pub fn find_archive(&self, from: usize) -> (found: usize)
        ensures
            found == next_archive(self@, from as int),
    {
        let mut i: usize = from;
        if from >= self.steps.len() {
            return self.steps.len();
        }
        while i < self.steps.len()
            invariant
                from <= i <= self.steps.len(),
                next_archive(self@, from as int) == next_archive(self@, i as int),
            decreases self.steps.len() - i,
        {
            assert(self@[i as int] == self.steps[i as int]@);
            match self.steps[i].kind {
                StepKind::Archive => {
                    return i;
                },
                StepKind::DirectoryOnly => {},
            }
            i += 1;
        }
        i
    }
}

/// Every directory on the way down from `base` to the target of each path,
/// path by path: what has to be looked at before the directories are
/// planned.
pub open spec fn chains_of(base: Seq<char>, paths: Seq<Seq<char>>) -> Seq<Seq<char>>
    decreases paths.len(),
{
    if paths.len() == 0 {
        Seq::empty()
    } else {
        chains_of(base, paths.drop_last()) + chain(base, paths.last())
    }
}

/// The directories to look at before the paths of `paths` are prepared
/// below `base`.
pub fn probe_paths(base: &str, paths: &Vec<String>) -> (dirs: Vec<String>)
    ensures
        texts(dirs@) == chains_of(base@, texts(paths@)),
{
    let mut dirs: Vec<String> = Vec::new();
    let ghost all = texts(paths@);
    let mut i: usize = 0;
    proof {
        assert(all.take(0) =~= Seq::<Seq<char>>::empty());
        assert(texts(dirs@) =~= Seq::<Seq<char>>::empty());
    }
    while i < paths.len()
        invariant
            i <= paths.len(),
            all == texts(paths@),
            texts(dirs@) == chains_of(base@, all.take(i as int)),
        decreases paths.len() - i,
    {
        let ghost before = texts(dirs@);
        proof {
            assert(all[i as int] == paths[i as int]@);
            assert(all.take(i + 1).drop_last() =~= all.take(i as int));
            assert(all.take(i + 1).last() == all[i as int]);
        }
        let mut more = directory_chain(base, paths[i].as_str());
        let ghost added = texts(more@);
        dirs.append(&mut more);
        assert(texts(dirs@) =~= before + added);
        i += 1;
    }
    proof {
        assert(all.take(all.len() as int) =~= all);
    }
    dirs
}

/// Where an install attempt stands.
pub enum InstallState {
    /// The manifest has been asked for.
    ResolvingManifest { base: String },
    /// The directories of the plan are being prepared: they have been
    /// looked at and their creation has been asked for if `creating`, else
    /// the look at them has been asked for.
    PlanningDirectories { base: String, plan: InstallPlan, creating: bool },
    /// The archive of the step `next` has been asked for.
    FetchingArchives { base: String, plan: InstallPlan, next: usize },
    /// Everything is installed.
    Done,
    /// The attempt failed.
    Failed(InstallError),
}

/// An [`InstallState`] with its texts as sequences of characters.
pub enum StateModel {
    ResolvingManifest { base: Seq<char> },
    PlanningDirectories { base: Seq<char>, plan: Seq<StepModel>, creating: bool },
    FetchingArchives { base: Seq<char>, plan: Seq<StepModel>, next: int },
    Done,
    Failed(ErrorModel),
}

impl View for InstallState {
    type V = StateModel;

    open spec fn view(&self) -> StateModel {
        match self {
            InstallState::ResolvingManifest { base } => StateModel::ResolvingManifest {
                base: base@,
            },
            InstallState::PlanningDirectories {
                base,
                plan,
                creating,
            } => StateModel::PlanningDirectories { base: base@, plan: plan@, creating: *creating },
            InstallState::FetchingArchives { base, plan, next } => StateModel::FetchingArchives {
                base: base@,
                plan: plan@,
                next: *next as int,
            },
            InstallState::Done => StateModel::Done,
            InstallState::Failed(e) => StateModel::Failed(e@),
        }
    }
}

/// What the caller reports.
pub enum InstallEvent {
    /// The manifest was fetched and decoded.
    ManifestResolved(Manifest),
    /// The directories were looked at: the index holds those that exist.
    Probed(PathIndex),
    /// The directories were created.
    DirectoriesCreated,
    /// The archive was downloaded and extracted.
    ArchiveInstalled,
    /// What was asked for failed.
    Failure(InstallError),
}

/// An [`InstallEvent`] with its contents as mathematical values.
pub enum EventModel {
    ManifestResolved(Seq<(Seq<char>, Seq<char>)>),
    Probed(Set<Seq<char>>),
    DirectoriesCreated,
    ArchiveInstalled,
    Failure(ErrorModel),
}

impl View for InstallEvent {
    type V = EventModel;

    open spec fn view(&self) -> EventModel {
        match self {
            InstallEvent::ManifestResolved(m) => EventModel::ManifestResolved(m.entries()),
            InstallEvent::Probed(index) => EventModel::Probed(index@),
            InstallEvent::DirectoriesCreated => EventModel::DirectoriesCreated,
            InstallEvent::ArchiveInstalled => EventModel::ArchiveInstalled,
            InstallEvent::Failure(e) => EventModel::Failure(e@),
        }
    }
}

/// What the caller is to do next.
pub enum InstallAction {
    /// Fetch the manifest at `url` and decode it.
    FetchManifest { url: String },
    /// Look which of `paths` exist.
    Probe { paths: Vec<String> },
    /// Create `dirs`, in order.
    CreateDirectories { dirs: Vec<String> },
    /// Download the archive at `url` and extract it into `target`.
    FetchArchive { url: String, target: String },
    /// Nothing more: the attempt is done or has failed.
    Stop,
    /// Nothing new: the event does not answer what was asked for, and the
    /// attempt still waits for its answer.
    Wait,
}

/// An [`InstallAction`] with its texts as sequences of characters.
pub enum ActionModel {
    FetchManifest { url: Seq<char> },
    Probe { paths: Seq<Seq<char>> },
    CreateDirectories { dirs: Seq<Seq<char>> },
    FetchArchive { url: Seq<char>, target: Seq<char> },
    Stop,
    Wait,
}

impl View for InstallAction {
    type V = ActionModel;

    open spec fn view(&self) -> ActionModel {
        match self {
            InstallAction::FetchManifest { url } => ActionModel::FetchManifest { url: url@ },
            InstallAction::Probe { paths } => ActionModel::Probe { paths: texts(paths@) },
            InstallAction::CreateDirectories { dirs } => ActionModel::CreateDirectories {
                dirs: texts(dirs@),
            },
            InstallAction::FetchArchive { url, target } => ActionModel::FetchArchive {
                url: url@,
                target: target@,
            },
            InstallAction::Stop => ActionModel::Stop,
            InstallAction::Wait => ActionModel::Wait,
        }
    }
}

/// Whether the attempt has ended.
pub open spec fn is_terminal(s: StateModel) -> bool {
    s is Done || s is Failed
}

/// How the attempt goes on once the directories exist: with the archive of
/// the first step at or after `from` that has one, or to its end.
pub open spec fn fetch_from(base: Seq<char>, plan: Seq<StepModel>, from: int) -> (
    StateModel,
    ActionModel,
) {
    let next = next_archive(plan, from);
    if next < plan.len() {
        (
            StateModel::FetchingArchives { base, plan, next },
            ActionModel::FetchArchive {
                url: plan[next].source,
                target: target(base, plan[next].target_path),
            },
        )
    } else {
        (StateModel::Done, ActionModel::Stop)
    }
}

/// How the attempt begins once its plan is known: by looking at the
/// directories that the plan needs.
pub open spec fn plan_from(base: Seq<char>, plan: Seq<StepModel>) -> (StateModel, ActionModel) {
    (
        StateModel::PlanningDirectories { base, plan, creating: false },
        ActionModel::Probe { paths: chains_of(base, plan_paths(plan)) },
    )
}

/// The state after the event `e` in the state `s`, and what to do next.
pub open spec fn transition(s: StateModel, e: EventModel) -> (StateModel, ActionModel) {
    match (s, e) {
        (StateModel::Done, _) => (s, ActionModel::Stop),
        (StateModel::Failed(_), _) => (s, ActionModel::Stop),
        (_, EventModel::Failure(error)) => (StateModel::Failed(error), ActionModel::Stop),
        (StateModel::ResolvingManifest { base }, EventModel::ManifestResolved(entries)) => plan_from(
            base,
            manifest_plan(entries),
        ),
        (
            StateModel::PlanningDirectories { base, plan, creating: false },
            EventModel::Probed(existing),
        ) => (
            StateModel::PlanningDirectories { base, plan, creating: true },
            ActionModel::CreateDirectories { dirs: missing_all(existing, base, plan_paths(plan)) },
        ),
        (
            StateModel::PlanningDirectories { base, plan, creating: true },
            EventModel::DirectoriesCreated,
        ) => fetch_from(base, plan, 0),
        (StateModel::FetchingArchives { base, plan, next }, EventModel::ArchiveInstalled) => fetch_from(
            base,
            plan,
            next + 1,
        ),
        _ => (s, ActionModel::Wait),
    }
}

/// Begins the install of a client from the manifest of `version`: the
/// directories go below `base`.
pub fn begin_client_install(channel: Channel, base: String, version: &str) -> (r: (
    InstallState,
    InstallAction,
))
    ensures
        r.0@ == (StateModel::ResolvingManifest { base: base@ }),
        r.1@ == (ActionModel::FetchManifest {
            url: repo_url(channel, manifest_file_of(version@)),
        }),
{
    let url = manifest_url(channel, version);
    (InstallState::ResolvingManifest { base }, InstallAction::FetchManifest { url })
}

/// Begins the full install of the archives of `table` below `base`.
pub fn begin_archive_install(base: String, table: &Vec<ArchiveDescriptor>) -> (r: (
    InstallState,
    InstallAction,
))
    ensures
        (r.0@, r.1@) == plan_from(base@, archive_plan(table@)),
{
    start_plan(base, InstallPlan::from_archives(table))
}

/// Begins the work on a plan below `base`.
pub fn start_plan(base: String, plan: InstallPlan) -> (r: (InstallState, InstallAction))
    ensures
        (r.0@, r.1@) == plan_from(base@, plan@),
{
    let targets = plan.target_paths();
    let paths = probe_paths(base.as_str(), &targets);
    (InstallState::PlanningDirectories { base, plan, creating: false }, InstallAction::Probe { paths })
}

/// Goes on with the archive of the first step at or after `from` that has
/// one, or ends the attempt.
fn continue_fetching(base: String, plan: InstallPlan, from: usize) -> (r: (
    InstallState,
    InstallAction,
))
    ensures
        (r.0@, r.1@) == fetch_from(base@, plan@, from as int),
{
    let next = plan.find_archive(from);
    if next < plan.steps.len() {
        assert(plan@[next as int] == plan.steps[next as int]@);
        let url = plan.steps[next].source.clone();
        let target = target_path(base.as_str(), plan.steps[next].target_path.as_str());
        (InstallState::FetchingArchives { base, plan, next }, InstallAction::FetchArchive { url, target })
    } else {
        (InstallState::Done, InstallAction::Stop)
    }
}

/// Takes the event `event` in the state `state`: returns the state that
/// follows and what the caller is to do next.
pub fn step(state: InstallState, event: InstallEvent) -> (r: (InstallState, InstallAction))
    ensures
        (r.0@, r.1@) == transition(state@, event@),
{
    match state {
        InstallState::Done => (InstallState::Done, InstallAction::Stop),
        InstallState::Failed(e) => (InstallState::Failed(e), InstallAction::Stop),
        InstallState::ResolvingManifest { base } => match event {
            InstallEvent::Failure(error) => (InstallState::Failed(error), InstallAction::Stop),
            InstallEvent::ManifestResolved(manifest) => start_plan(
                base,
                InstallPlan::from_manifest(&manifest),
            ),
            _ => (InstallState::ResolvingManifest { base }, InstallAction::Wait),
        },
        InstallState::PlanningDirectories { base, plan, creating } => match event {
            InstallEvent::Failure(error) => (InstallState::Failed(error), InstallAction::Stop),
            InstallEvent::Probed(index) => {
                if creating {
                    (InstallState::PlanningDirectories { base, plan, creating }, InstallAction::Wait)
                } else {
                    let mut index = index;
                    let targets = plan.target_paths();
                    let dirs = create_manifest_dirs(&mut index, base.as_str(), &targets);
                    (
                        InstallState::PlanningDirectories { base, plan, creating: true },
                        InstallAction::CreateDirectories { dirs },
                    )
                }
            },
            InstallEvent::DirectoriesCreated => {
                if creating {
                    continue_fetching(base, plan, 0)
                } else {
                    (InstallState::PlanningDirectories { base, plan, creating }, InstallAction::Wait)
                }
            },
            _ => (InstallState::PlanningDirectories { base, plan, creating }, InstallAction::Wait),
        },
        InstallState::FetchingArchives { base, plan, next } => match event {
            InstallEvent::Failure(error) => (InstallState::Failed(error), InstallAction::Stop),
            InstallEvent::ArchiveInstalled => {
                if next < usize::MAX {
                    continue_fetching(base, plan, next + 1)
                } else {
                    assert(plan@.len() == plan.steps@.len());
                    assert(next_archive(plan@, next + 1) == plan@.len());
                    (InstallState::Done, InstallAction::Stop)
                }
            },
            _ => (InstallState::FetchingArchives { base, plan, next }, InstallAction::Wait),
        },
    }
}

/// A failure ends the attempt: the state that follows is the failure that
/// was reported and nothing more is asked for. An attempt that has ended
/// stays as it is whatever is reported.
pub proof fn lemma_failure_ends_attempt(s: StateModel, e: EventModel)
    ensures
        !is_terminal(s) ==> match e {
            EventModel::Failure(error) => transition(s, e) == (
                StateModel::Failed(error),
                ActionModel::Stop,
            ),
            _ => true,
        },
        is_terminal(s) ==> transition(s, e) == (s, ActionModel::Stop),
{
}

/// An attempt reaches its end in success only on the report that the
/// directories were created, where no archive is left to fetch, or on the
/// report that an archive was installed, where none is left after it.
pub proof fn lemma_done_only_after_last_step(s: StateModel, e: EventModel)
    requires
        !(s is Done),
        transition(s, e).0 is Done,
    ensures
        match s {
            StateModel::PlanningDirectories { plan, creating, .. } => creating && e
                is DirectoriesCreated && next_archive(plan, 0) == plan.len(),
            StateModel::FetchingArchives { plan, next, .. } => e is ArchiveInstalled
                && next_archive(plan, next + 1) == plan.len(),
            _ => false,
        },
{
    match s {
        StateModel::PlanningDirectories { plan, .. } => {
            lemma_next_archive(plan, 0);
        },
        StateModel::FetchingArchives { plan, next, .. } => {
            if 0 <= next + 1 <= plan.len() {
                lemma_next_archive(plan, next + 1);
            }
        },
        _ => {},
    }
}

/// An archive is asked for only once the directories were created or the
/// archive before it was installed: never after a failure.
pub proof fn lemma_fetch_only_on_success(s: StateModel, e: EventModel)
    requires
        transition(s, e).1 is FetchArchive,
    ensures
        e is DirectoriesCreated || e is ArchiveInstalled,
        transition(s, e).0 is FetchingArchives,
{
}

} // verus!
