//! StoreBootstrapper: plans the idempotent creation of the storage directory
//! and the two files it must contain.
//!
//! The component is a state machine. Each non-terminal phase names one
//! filesystem request (a metadata probe or a creation); the caller performs
//! the request and feeds the observed outcome back as an event. Creation uses
//! create-if-absent semantics, so a creation that fails because the artifact
//! appeared concurrently is reported as a fatal error instead of silently
//! truncating the concurrent actor's file. The machine performs at most one
//! directory creation and at most two file creations, and mutates nothing at
//! all when every artifact already exists.

use vstd::prelude::*;

use crate::errors::Artifact;

verus! {

/// A filesystem request the caller must perform next.
#[derive(Clone, Copy, Debug, PartialEq, Eq, Structural)]
pub enum Request {
    /// Probe whether the storage directory exists (metadata only).
    ProbeDirectory,
    /// Create the storage directory, non-recursively.
    CreateDirectory,
    /// Probe whether the configuration file and the links file exist
    /// (two independent metadata probes).
    ProbeFiles,
    /// Create the configuration file, failing if it already exists.
    CreateConfigFile,
    /// Create the links file, failing if it already exists.
    CreateLinksFile,
}

/// The observed outcome of a performed request.
#[derive(Clone, Copy, Debug, PartialEq, Eq, Structural)]
pub enum Event {
    DirectoryProbed { exists: bool },
    DirectoryCreated { ok: bool },
    FilesProbed { config_exists: bool, links_exists: bool },
    ConfigFileCreated { ok: bool },
    LinksFileCreated { ok: bool },
}

/// The control state of the bootstrap sequence.
#[derive(Clone, Copy, Debug, PartialEq, Eq, Structural)]
pub enum Phase {
    /// Waiting for the directory probe.
    ProbingDirectory,
    /// The directory was missing; waiting for its creation.
    CreatingDirectory,
    /// The directory exists; waiting for the two file probes.
    ProbingFiles,
    /// The configuration file was missing; waiting for its creation.
    /// `links_missing` records whether the links file must follow.
    CreatingConfigFile { links_missing: bool },
    /// The links file was missing; waiting for its creation.
    CreatingLinksFile,
    /// Every artifact exists; nothing left to do.
    Complete,
    /// A creation failed; the run is aborted and `failed` names the artifact.
    Failed { failed: Artifact },
}

/// The request a phase asks the caller to perform; terminal phases ask none.
pub open spec fn request_of(phase: Phase) -> Option<Request> {
    match phase {
        Phase::ProbingDirectory => Some(Request::ProbeDirectory),
        Phase::CreatingDirectory => Some(Request::CreateDirectory),
        Phase::ProbingFiles => Some(Request::ProbeFiles),
        Phase::CreatingConfigFile { .. } => Some(Request::CreateConfigFile),
        Phase::CreatingLinksFile => Some(Request::CreateLinksFile),
        Phase::Complete => None,
        Phase::Failed { .. } => None,
    }
}

/// The transition relation. An event that does not answer the phase's
/// request leaves the phase unchanged.
pub open spec fn next_phase(phase: Phase, event: Event) -> Phase {
    match (phase, event) {
        (Phase::ProbingDirectory, Event::DirectoryProbed { exists }) => if exists {
            Phase::ProbingFiles
        } else {
            Phase::CreatingDirectory
        },
        (Phase::CreatingDirectory, Event::DirectoryCreated { ok }) => if ok {
            Phase::ProbingFiles
        } else {
            Phase::Failed { failed: Artifact::Directory }
        },
        (Phase::ProbingFiles, Event::FilesProbed { config_exists, links_exists }) => {
            if config_exists && links_exists {
                Phase::Complete
            } else if !config_exists {
                Phase::CreatingConfigFile { links_missing: !links_exists }
            } else {
                Phase::CreatingLinksFile
            }
        },
        (Phase::CreatingConfigFile { links_missing }, Event::ConfigFileCreated { ok }) => if ok {
            if links_missing {
                Phase::CreatingLinksFile
            } else {
                Phase::Complete
            }
        } else {
            Phase::Failed { failed: Artifact::ConfigFile }
        },
        (Phase::CreatingLinksFile, Event::LinksFileCreated { ok }) => if ok {
            Phase::Complete
        } else {
            Phase::Failed { failed: Artifact::LinksFile }
        },
        _ => phase,
    }
}

/// The phase every bootstrap starts in.
pub fn initial_phase() -> (r: Phase)
    ensures
        r == Phase::ProbingDirectory,
{
    Phase::ProbingDirectory
}

/// The request the caller must perform next, or `None` once the phase is
/// terminal (`Complete` or `Failed`).
pub fn next_request(phase: Phase) -> (r: Option<Request>)
    ensures
        r == request_of(phase),
{
    match phase {
        Phase::ProbingDirectory => Some(Request::ProbeDirectory),
        Phase::CreatingDirectory => Some(Request::CreateDirectory),
        Phase::ProbingFiles => Some(Request::ProbeFiles),
        Phase::CreatingConfigFile { .. } => Some(Request::CreateConfigFile),
        Phase::CreatingLinksFile => Some(Request::CreateLinksFile),
        Phase::Complete => None,
        Phase::Failed { .. } => None,
    }
}

/// Advances the machine by one observed event.
pub fn step(phase: Phase, event: Event) -> (r: Phase)
    ensures
        r == next_phase(phase, event),
{
    match (phase, event) {
        (Phase::ProbingDirectory, Event::DirectoryProbed { exists }) => if exists {
            Phase::ProbingFiles
        } else {
            Phase::CreatingDirectory
        },
        (Phase::CreatingDirectory, Event::DirectoryCreated { ok }) => if ok {
            Phase::ProbingFiles
        } else {
            Phase::Failed { failed: Artifact::Directory }
        },
        (Phase::ProbingFiles, Event::FilesProbed { config_exists, links_exists }) => {
            if config_exists && links_exists {
                Phase::Complete
            } else if !config_exists {
                Phase::CreatingConfigFile { links_missing: !links_exists }
            } else {
                Phase::CreatingLinksFile
            }
        },
        (Phase::CreatingConfigFile { links_missing }, Event::ConfigFileCreated { ok }) => if ok {
            if links_missing {
                Phase::CreatingLinksFile
            } else {
                Phase::Complete
            }
        } else {
            Phase::Failed { failed: Artifact::ConfigFile }
        },
        (Phase::CreatingLinksFile, Event::LinksFileCreated { ok }) => if ok {
            Phase::Complete
        } else {
            Phase::Failed { failed: Artifact::LinksFile }
        },
        _ => phase,
    }
}

/// Whether a request mutates the filesystem (the probes do not).
pub open spec fn is_mutation(request: Request) -> bool {
    match request {
        Request::ProbeDirectory => false,
        Request::CreateDirectory => true,
        Request::ProbeFiles => false,
        Request::CreateConfigFile => true,
        Request::CreateLinksFile => true,
    }
}

/// An abstract filesystem: whether each artifact currently exists.
#[derive(Clone, Copy, Debug, PartialEq, Eq, Structural)]
pub struct FsState {
    pub dir: bool,
    pub config: bool,
    pub links: bool,
}

impl FsState {
    /// All three artifacts exist.
    pub open spec fn complete(self) -> bool {
        self.dir && self.config && self.links
    }
}

/// How an honest filesystem answers a request: probes report the truth, and
/// a create-if-absent primitive succeeds exactly when the artifact is absent.
pub open spec fn fs_answer(fs: FsState, request: Request) -> Event {
    match request {
        Request::ProbeDirectory => Event::DirectoryProbed { exists: fs.dir },
        Request::CreateDirectory => Event::DirectoryCreated { ok: !fs.dir },
        Request::ProbeFiles => Event::FilesProbed {
            config_exists: fs.config,
            links_exists: fs.links,
        },
        Request::CreateConfigFile => Event::ConfigFileCreated { ok: !fs.config },
        Request::CreateLinksFile => Event::LinksFileCreated { ok: !fs.links },
    }
}

/// How a request changes the filesystem: a successful creation brings the
/// artifact into existence; probes and failed creations change nothing.
pub open spec fn fs_apply(fs: FsState, request: Request) -> FsState {
    match request {
        Request::ProbeDirectory => fs,
        Request::CreateDirectory => FsState { dir: true, ..fs },
        Request::ProbeFiles => fs,
        Request::CreateConfigFile => if fs.dir {
            FsState { config: true, ..fs }
        } else {
            fs
        },
        Request::CreateLinksFile => if fs.dir {
            FsState { links: true, ..fs }
        } else {
            fs
        },
    }
}

/// A bound on the number of steps left from a phase; drives termination of
/// the model run.
pub open spec fn phase_rank(phase: Phase) -> nat {
    match phase {
        Phase::ProbingDirectory => 5,
        Phase::CreatingDirectory => 4,
        Phase::ProbingFiles => 3,
        Phase::CreatingConfigFile { .. } => 2,
        Phase::CreatingLinksFile => 1,
        Phase::Complete => 0,
        Phase::Failed { .. } => 0,
    }
}

/// Runs the machine against an honest filesystem until a terminal phase,
/// returning the terminal phase, the filesystem left behind, and how many
/// mutating requests were performed.
pub open spec fn model_run(phase: Phase, fs: FsState) -> (Phase, FsState, nat)
    decreases phase_rank(phase),
{
    match request_of(phase) {
        None => (phase, fs, 0),
        Some(request) => {
            let next = next_phase(phase, fs_answer(fs, request));
            let rest = model_run(next, fs_apply(fs, request));
            (rest.0, rest.1, rest.2 + if is_mutation(request) { 1nat } else { 0nat })
        },
    }
}

/// The number of artifacts a filesystem is missing.
pub open spec fn missing_count(fs: FsState) -> nat {
    (if fs.dir { 0nat } else { 1nat }) + (if fs.config { 0nat } else { 1nat }) + (if fs.links {
        0nat
    } else {
        1nat
    })
}

/// Law: against an honest filesystem whose parent directory admits creation,
/// the bootstrap always completes, leaves all three artifacts in place, and
/// performs exactly one mutation per artifact that was missing.
pub proof fn lemma_bootstrap_completes(fs: FsState)
    ensures
        model_run(Phase::ProbingDirectory, fs).0 == Phase::Complete,
        model_run(Phase::ProbingDirectory, fs).1 == (FsState { dir: true, config: true, links: true }),
        model_run(Phase::ProbingDirectory, fs).2 == missing_count(fs),
{
    reveal_with_fuel(model_run, 7);
}

/// Law (idempotence): running the bootstrap a second time against the
/// filesystem the first run left behind performs no mutation at all and
/// leaves the filesystem exactly as the first run left it.
pub proof fn lemma_bootstrap_idempotent(fs: FsState)
    ensures
        model_run(Phase::ProbingDirectory, model_run(Phase::ProbingDirectory, fs).1).2 == 0,
        model_run(Phase::ProbingDirectory, model_run(Phase::ProbingDirectory, fs).1).1
            == model_run(Phase::ProbingDirectory, fs).1,
        model_run(Phase::ProbingDirectory, model_run(Phase::ProbingDirectory, fs).1).0
            == Phase::Complete,
{
    lemma_bootstrap_completes(fs);
    lemma_bootstrap_completes(model_run(Phase::ProbingDirectory, fs).1);
}

/// Law (race tolerance): if the configuration file appears between the
/// existence probe and this component's creation attempt, the create-if-absent
/// primitive reports failure and the machine aborts with a fatal error naming
/// the configuration file — it never overwrites the concurrently created file.
pub proof fn lemma_lost_race_is_fatal(links_missing: bool)
    ensures
        next_phase(
            Phase::CreatingConfigFile { links_missing },
            Event::ConfigFileCreated { ok: false },
        ) == (Phase::Failed { failed: Artifact::ConfigFile }),
        next_phase(Phase::CreatingLinksFile, Event::LinksFileCreated { ok: false })
            == (Phase::Failed { failed: Artifact::LinksFile }),
{
}

} // verus!
