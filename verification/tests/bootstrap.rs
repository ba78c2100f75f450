use twer::bootstrap::{next_request, step, Event, Phase, Request};
use twer::errors::Artifact;

/// An in-memory stand-in for the filesystem: which artifacts exist.
#[derive(Clone, Copy, PartialEq, Eq, Debug)]
struct FakeFs {
    dir: bool,
    config: bool,
    links: bool,
}

/// Answers a request the way an honest filesystem would: probes report the
/// truth and create-if-absent succeeds exactly when the artifact is absent.
fn answer(fs: &mut FakeFs, request: Request) -> Event {
    match request {
        Request::ProbeDirectory => Event::DirectoryProbed { exists: fs.dir },
        Request::CreateDirectory => {
            let ok = !fs.dir;
            fs.dir = true;
            Event::DirectoryCreated { ok }
        }
        Request::ProbeFiles => Event::FilesProbed {
            config_exists: fs.config,
            links_exists: fs.links,
        },
        Request::CreateConfigFile => {
            let ok = !fs.config;
            if fs.dir {
                fs.config = true;
            }
            Event::ConfigFileCreated { ok }
        }
        Request::CreateLinksFile => {
            let ok = !fs.links;
            if fs.dir {
                fs.links = true;
            }
            Event::LinksFileCreated { ok }
        }
    }
}

/// Drives the machine to a terminal phase, returning it together with the
/// requests performed and how many of them mutate the filesystem.
fn drive(fs: &mut FakeFs) -> (Phase, Vec<Request>, usize) {
    let mut phase = Phase::ProbingDirectory;
    let mut performed = Vec::new();
    let mut mutations = 0;
    while let Some(request) = next_request(phase) {
        performed.push(request);
        if !matches!(
            request,
            Request::ProbeDirectory | Request::ProbeFiles
        ) {
            mutations += 1;
        }
        let event = answer(fs, request);
        phase = step(phase, event);
    }
    (phase, performed, mutations)
}

#[test]
fn bootstrap_creates_everything_from_nothing() {
    let mut fs = FakeFs { dir: false, config: false, links: false };
    let (phase, performed, mutations) = drive(&mut fs);
    assert_eq!(phase, Phase::Complete);
    assert_eq!(fs, FakeFs { dir: true, config: true, links: true });
    assert_eq!(mutations, 3);
    assert_eq!(
        performed,
        vec![
            Request::ProbeDirectory,
            Request::CreateDirectory,
            Request::ProbeFiles,
            Request::CreateConfigFile,
            Request::CreateLinksFile,
        ]
    );
}

#[test]
fn second_bootstrap_is_a_no_op() {
    let mut fs = FakeFs { dir: false, config: false, links: false };
    let (first_phase, _, first_mutations) = drive(&mut fs);
    assert_eq!(first_phase, Phase::Complete);
    assert_eq!(first_mutations, 3);
    let fs_after_first = fs;
    let (second_phase, performed, second_mutations) = drive(&mut fs);
    assert_eq!(second_phase, Phase::Complete);
    assert_eq!(second_mutations, 0);
    assert_eq!(fs, fs_after_first);
    assert_eq!(performed, vec![Request::ProbeDirectory, Request::ProbeFiles]);
}

#[test]
fn complete_store_takes_the_fast_path() {
    let mut fs = FakeFs { dir: true, config: true, links: true };
    let (phase, performed, mutations) = drive(&mut fs);
    assert_eq!(phase, Phase::Complete);
    assert_eq!(mutations, 0);
    assert_eq!(performed, vec![Request::ProbeDirectory, Request::ProbeFiles]);
}

#[test]
fn only_the_missing_file_is_created() {
    let mut fs = FakeFs { dir: true, config: false, links: true };
    let (phase, performed, mutations) = drive(&mut fs);
    assert_eq!(phase, Phase::Complete);
    assert_eq!(mutations, 1);
    assert!(performed.contains(&Request::CreateConfigFile));
    assert!(!performed.contains(&Request::CreateLinksFile));
    assert!(!performed.contains(&Request::CreateDirectory));
}

#[test]
fn losing_the_config_creation_race_is_fatal() {
    // The probe saw no configuration file, but another actor creates it
    // before this invocation's create-if-absent attempt runs.
    let phase = Phase::CreatingConfigFile { links_missing: false };
    let next = step(phase, Event::ConfigFileCreated { ok: false });
    assert_eq!(next, Phase::Failed { failed: Artifact::ConfigFile });
}

#[test]
fn losing_the_links_creation_race_is_fatal() {
    let next = step(Phase::CreatingLinksFile, Event::LinksFileCreated { ok: false });
    assert_eq!(next, Phase::Failed { failed: Artifact::LinksFile });
}

#[test]
fn directory_creation_failure_is_fatal() {
    let next = step(Phase::CreatingDirectory, Event::DirectoryCreated { ok: false });
    assert_eq!(next, Phase::Failed { failed: Artifact::Directory });
}

#[test]
fn unrelated_event_leaves_the_phase_unchanged() {
    let phase = Phase::ProbingFiles;
    let next = step(phase, Event::DirectoryProbed { exists: true });
    assert_eq!(next, phase);
}

#[test]
fn terminal_phases_request_nothing() {
    assert_eq!(next_request(Phase::Complete), None);
    assert_eq!(next_request(Phase::Failed { failed: Artifact::Directory }), None);
}
