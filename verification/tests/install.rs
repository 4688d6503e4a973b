use syntax_installer::archive::ArchiveDescriptor;
use syntax_installer::error::InstallError;
use syntax_installer::install::{
    begin_archive_install, begin_client_install, probe_paths, start_plan, step, InstallAction,
    InstallEvent, InstallPlan, InstallState, PlanStep, StepKind,
};
use syntax_installer::manifest::{Channel, Manifest};
use syntax_installer::tree::PathIndex;

fn strings(items: &[&str]) -> Vec<String> {
    items.iter().map(|s| s.to_string()).collect()
}

fn table() -> Vec<ArchiveDescriptor> {
    vec![
        ArchiveDescriptor { file_name: "content-fonts.zip".to_string(), target: "content/fonts".to_string() },
        ArchiveDescriptor { file_name: "shaders.zip".to_string(), target: "shaders".to_string() },
    ]
}

fn manifest() -> Manifest {
    Manifest::from_entries(vec![("font.zip".to_string(), "content/fonts".to_string())]).unwrap()
}

fn probed(existing: &[&str]) -> InstallEvent {
    let mut index = PathIndex::new();
    for path in existing {
        index.record(path);
    }
    InstallEvent::Probed(index)
}

#[test]
fn plan_of_a_manifest_prepares_directories_only() {
    let plan = InstallPlan::from_manifest(&manifest());
    assert_eq!(plan.steps.len(), 1);
    assert_eq!(plan.steps[0].source, "font.zip");
    assert_eq!(plan.steps[0].target_path, "content/fonts");
    assert_eq!(plan.steps[0].kind, StepKind::DirectoryOnly);
    assert_eq!(plan.target_paths(), strings(&["content/fonts"]));
    assert_eq!(plan.find_archive(0), 1);
}

#[test]
fn plan_of_a_table_fetches_each_archive() {
    let plan = InstallPlan::from_archives(&table());
    assert_eq!(plan.steps.len(), 2);
    assert_eq!(plan.steps[0].source, "https://setup.syntax.eco/content-fonts.zip");
    assert_eq!(plan.steps[0].target_path, "content/fonts");
    assert_eq!(plan.steps[0].kind, StepKind::Archive);
    assert_eq!(plan.steps[1].source, "https://setup.syntax.eco/shaders.zip");
    assert_eq!(plan.find_archive(0), 0);
    assert_eq!(plan.find_archive(1), 1);
    assert_eq!(plan.find_archive(2), 2);
    assert_eq!(plan.find_archive(9), 2);
}

#[test]
fn find_archive_skips_directory_steps() {
    let plan = InstallPlan {
        steps: vec![
            PlanStep { source: "a".to_string(), target_path: "a".to_string(), kind: StepKind::DirectoryOnly },
            PlanStep { source: "b".to_string(), target_path: "b".to_string(), kind: StepKind::Archive },
            PlanStep { source: "c".to_string(), target_path: "c".to_string(), kind: StepKind::DirectoryOnly },
        ],
    };
    assert_eq!(plan.find_archive(0), 1);
    assert_eq!(plan.find_archive(1), 1);
    assert_eq!(plan.find_archive(2), 3);
}

#[test]
fn probe_lists_every_chain() {
    assert_eq!(
        probe_paths("/v", &strings(&["content/fonts", "shaders"])),
        strings(&["/v/content", "/v/content/fonts", "/v/shaders"])
    );
    assert_eq!(probe_paths("/v", &Vec::new()), Vec::<String>::new());
}

#[test]
fn client_install_runs_to_done_without_fetching() {
    let (state, action) = begin_client_install(Channel::Release, "/r/Versions/v1".to_string(), "v1");
    assert!(matches!(state, InstallState::ResolvingManifest { .. }));
    match action {
        InstallAction::FetchManifest { url } => assert_eq!(
            url,
            "https://raw.githubusercontent.com/MojaveMF/syntax/release/data/manifest/v1.json"
        ),
        _ => panic!("expected the manifest to be fetched"),
    }
    let (state, action) = step(state, InstallEvent::ManifestResolved(manifest()));
    assert!(matches!(state, InstallState::PlanningDirectories { creating: false, .. }));
    match action {
        InstallAction::Probe { paths } => assert_eq!(
            paths,
            strings(&["/r/Versions/v1/content", "/r/Versions/v1/content/fonts"])
        ),
        _ => panic!("expected a probe"),
    }
    let (state, action) = step(state, probed(&["/r/Versions/v1"]));
    assert!(matches!(state, InstallState::PlanningDirectories { creating: true, .. }));
    match action {
        InstallAction::CreateDirectories { dirs } => assert_eq!(
            dirs,
            strings(&["/r/Versions/v1/content", "/r/Versions/v1/content/fonts"])
        ),
        _ => panic!("expected directories to create"),
    }
    let (state, action) = step(state, InstallEvent::DirectoriesCreated);
    assert!(matches!(state, InstallState::Done));
    assert!(matches!(action, InstallAction::Stop));
}

#[test]
fn second_client_install_creates_nothing() {
    let (state, _) = begin_client_install(Channel::Release, "/r/Versions/v1".to_string(), "v1");
    let (state, _) = step(state, InstallEvent::ManifestResolved(manifest()));
    let (state, action) = step(state, probed(&["/r/Versions/v1/content/fonts"]));
    match action {
        InstallAction::CreateDirectories { dirs } => assert!(dirs.is_empty()),
        _ => panic!("expected directories to create"),
    }
    let (state, _) = step(state, InstallEvent::DirectoriesCreated);
    assert!(matches!(state, InstallState::Done));
}

#[test]
fn archive_install_fetches_each_archive_in_order() {
    let (state, action) = begin_archive_install("/r/Versions/v1".to_string(), &table());
    match action {
        InstallAction::Probe { paths } => assert_eq!(
            paths,
            strings(&[
                "/r/Versions/v1/content",
                "/r/Versions/v1/content/fonts",
                "/r/Versions/v1/shaders",
            ])
        ),
        _ => panic!("expected a probe"),
    }
    let (state, action) = step(state, probed(&["/r/Versions/v1/content"]));
    match action {
        InstallAction::CreateDirectories { dirs } => assert_eq!(
            dirs,
            strings(&["/r/Versions/v1/content/fonts", "/r/Versions/v1/shaders"])
        ),
        _ => panic!("expected directories to create"),
    }
    let (state, action) = step(state, InstallEvent::DirectoriesCreated);
    assert!(matches!(state, InstallState::FetchingArchives { next: 0, .. }));
    match action {
        InstallAction::FetchArchive { url, target } => {
            assert_eq!(url, "https://setup.syntax.eco/content-fonts.zip");
            assert_eq!(target, "/r/Versions/v1/content/fonts");
        }
        _ => panic!("expected an archive"),
    }
    let (state, action) = step(state, InstallEvent::ArchiveInstalled);
    assert!(matches!(state, InstallState::FetchingArchives { next: 1, .. }));
    match action {
        InstallAction::FetchArchive { url, target } => {
            assert_eq!(url, "https://setup.syntax.eco/shaders.zip");
            assert_eq!(target, "/r/Versions/v1/shaders");
        }
        _ => panic!("expected an archive"),
    }
    let (state, action) = step(state, InstallEvent::ArchiveInstalled);
    assert!(matches!(state, InstallState::Done));
    assert!(matches!(action, InstallAction::Stop));
}

#[test]
fn failed_archive_ends_the_attempt_without_success() {
    let (state, _) = begin_archive_install("/r".to_string(), &table());
    let (state, _) = step(state, probed(&[]));
    let (state, _) = step(state, InstallEvent::DirectoriesCreated);
    let (state, _) = step(state, InstallEvent::ArchiveInstalled);
    let failure = InstallError::IOError("invalid Zip archive".to_string());
    let (state, action) = step(state, InstallEvent::Failure(failure.duplicate()));
    assert!(matches!(action, InstallAction::Stop));
    match &state {
        InstallState::Failed(e) => assert_eq!(*e, failure),
        _ => panic!("expected the attempt to have failed"),
    }
    let (state, action) = step(state, InstallEvent::ArchiveInstalled);
    assert!(matches!(state, InstallState::Failed(_)));
    assert!(matches!(action, InstallAction::Stop));
}

#[test]
fn failure_in_each_phase_ends_the_attempt() {
    let (state, _) = begin_client_install(Channel::Development, "/r".to_string(), "v1");
    let (state, action) = step(state, InstallEvent::Failure(InstallError::NetworkError("down".to_string())));
    assert!(matches!(action, InstallAction::Stop));
    match state {
        InstallState::Failed(e) => assert_eq!(e, InstallError::NetworkError("down".to_string())),
        _ => panic!("expected the attempt to have failed"),
    }
    let (state, _) = start_plan("/r".to_string(), InstallPlan::from_archives(&table()));
    let (state, _) = step(state, InstallEvent::Failure(InstallError::IOError("denied".to_string())));
    assert!(matches!(state, InstallState::Failed(InstallError::IOError(_))));
    let (state, _) = start_plan("/r".to_string(), InstallPlan::from_archives(&table()));
    let (state, _) = step(state, probed(&[]));
    let (state, _) = step(state, InstallEvent::Failure(InstallError::IOError("denied".to_string())));
    assert!(matches!(state, InstallState::Failed(InstallError::IOError(_))));
}

#[test]
fn event_that_does_not_answer_is_waited_out() {
    let (state, _) = begin_client_install(Channel::Release, "/r".to_string(), "v1");
    let (state, action) = step(state, InstallEvent::ArchiveInstalled);
    assert!(matches!(state, InstallState::ResolvingManifest { .. }));
    assert!(matches!(action, InstallAction::Wait));
    let (state, action) = step(state, InstallEvent::DirectoriesCreated);
    assert!(matches!(state, InstallState::ResolvingManifest { .. }));
    assert!(matches!(action, InstallAction::Wait));
    let (state, _) = step(state, InstallEvent::ManifestResolved(manifest()));
    let (state, action) = step(state, InstallEvent::DirectoriesCreated);
    assert!(matches!(state, InstallState::PlanningDirectories { creating: false, .. }));
    assert!(matches!(action, InstallAction::Wait));
    let (state, _) = step(state, probed(&[]));
    let (state, action) = step(state, probed(&[]));
    assert!(matches!(state, InstallState::PlanningDirectories { creating: true, .. }));
    assert!(matches!(action, InstallAction::Wait));
    let (state, action) = step(state, InstallEvent::ManifestResolved(manifest()));
    assert!(matches!(state, InstallState::PlanningDirectories { creating: true, .. }));
    assert!(matches!(action, InstallAction::Wait));
}

#[test]
fn done_stays_done() {
    let (state, _) = start_plan("/r".to_string(), InstallPlan { steps: Vec::new() });
    let (state, _) = step(state, probed(&[]));
    let (state, _) = step(state, InstallEvent::DirectoriesCreated);
    assert!(matches!(state, InstallState::Done));
    let (state, action) = step(state, InstallEvent::Failure(InstallError::NoLocalDataDirectory));
    assert!(matches!(state, InstallState::Done));
    assert!(matches!(action, InstallAction::Stop));
}
