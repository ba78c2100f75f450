use twer::bootstrap::{next_request, step, Event, Phase, Request};
use twer::errors::{Artifact, FatalError};
use twer::parser::parse;
use twer::{config_file_path, links_file_path, run};

#[test]
fn run_plans_paths_from_the_fallback_home() {
    let plan = run(None, Some("/home/u")).unwrap();
    assert_eq!(plan.location, "/home/u/.local/etc/twer/");
    assert_eq!(plan.config_path, "/home/u/.local/etc/twer/twer.conf");
    assert_eq!(plan.links_path, "/home/u/.local/etc/twer/links");
    assert_eq!(plan.phase, Phase::ProbingDirectory);
}

#[test]
fn run_prefers_the_config_home() {
    let plan = run(Some("/xdg"), Some("/home/u")).unwrap();
    assert_eq!(plan.location, "/xdg/twer/");
    assert_eq!(plan.config_path, "/xdg/twer/twer.conf");
    assert_eq!(plan.links_path, "/xdg/twer/links");
}

#[test]
fn run_fails_without_a_location() {
    assert_eq!(run(None, None).unwrap_err(), FatalError::UnresolvableLocation);
}

#[test]
fn path_helpers_append_the_file_names() {
    assert_eq!(config_file_path("/d/"), "/d/twer.conf");
    assert_eq!(links_file_path("/d/"), "/d/links");
}

#[test]
fn bootstrap_messages_name_the_artifact() {
    let dir = FatalError::Bootstrap { failed: Artifact::Directory };
    let conf = FatalError::Bootstrap { failed: Artifact::ConfigFile };
    let links = FatalError::Bootstrap { failed: Artifact::LinksFile };
    assert_eq!(dir.message(), "cannot create the storage directory");
    assert_eq!(conf.message(), "cannot create the configuration file");
    assert_eq!(links.message(), "cannot create the links file");
    let unread = FatalError::ReadFailure { unreadable: Artifact::ConfigFile };
    assert_eq!(unread.message(), "cannot read the configuration file");
}

#[test]
fn end_to_end_first_run_in_an_empty_home() {
    // No configuration-home variable, a home-directory variable of /home/u,
    // and nothing on disk yet.
    let plan = run(None, Some("/home/u")).unwrap();
    assert_eq!(plan.location, "/home/u/.local/etc/twer/");

    let mut dir_exists = false;
    let mut config_exists = false;
    let mut links_exists = false;
    let mut config_content: Option<String> = None;
    let mut links_content: Option<String> = None;

    let mut phase = plan.phase;
    while let Some(request) = next_request(phase) {
        let event = match request {
            Request::ProbeDirectory => Event::DirectoryProbed { exists: dir_exists },
            Request::CreateDirectory => {
                let ok = !dir_exists;
                dir_exists = true;
                Event::DirectoryCreated { ok }
            }
            Request::ProbeFiles => Event::FilesProbed { config_exists, links_exists },
            Request::CreateConfigFile => {
                let ok = !config_exists;
                config_exists = true;
                config_content = Some(String::new());
                Event::ConfigFileCreated { ok }
            }
            Request::CreateLinksFile => {
                let ok = !links_exists;
                links_exists = true;
                links_content = Some(String::new());
                Event::LinksFileCreated { ok }
            }
        };
        phase = step(phase, event);
    }

    assert_eq!(phase, Phase::Complete);
    assert!(dir_exists && config_exists && links_exists);
    assert_eq!(config_content.as_deref(), Some(""));
    assert_eq!(links_content.as_deref(), Some(""));

    let mapping = parse(config_content.as_deref().unwrap());
    assert!(mapping.is_empty());
}
