use nix_service_manager::args::{Args, Commands};
use nix_service_manager::config::{join, Config, ConfigError, ConfigService};
use nix_service_manager::launch::{split_at_space, ServiceError};
use nix_service_manager::sources::{
    key_path, repo_dir, ssh_user, staging_dir, update_available, StartStep,
};

fn service(base_dir: Option<&str>, git_uri: Option<&str>, run_command: &str) -> ConfigService {
    ConfigService {
        base_dir: base_dir.map(|s| s.to_string()),
        git_uri: git_uri.map(|s| s.to_string()),
        ssh_key_file: None,
        enabled: true,
        run_command: run_command.to_string(),
        env: Vec::new(),
    }
}

fn config(root: &str, services: Vec<(&str, ConfigService)>) -> Config {
    Config {
        debug: None,
        root: root.to_string(),
        services: services.into_iter().map(|(n, s)| (n.to_string(), s)).collect(),
    }
}

#[test]
fn join_inserts_one_separator() {
    assert_eq!(join("/srv/sources", "worker"), "/srv/sources/worker");
    assert_eq!(join("/srv/sources/", "worker"), "/srv/sources/worker");
    assert_eq!(join("", "worker"), "worker");
    assert_eq!(join("/srv", "/abs/dir"), "/abs/dir");
}

#[test]
fn work_dir_of_base_dir_service() {
    let s = service(Some("/srv/api"), None, "sh -c ./run.sh");
    assert_eq!(s.work_dir("api", "/root"), Ok("/srv/api".to_string()));
}

#[test]
fn work_dir_of_git_service_is_under_root() {
    let s = service(None, Some("https://example/repo.git"), "sh -c ./run.sh");
    assert_eq!(s.work_dir("worker", "/var/lib/sources"), Ok("/var/lib/sources/worker".to_string()));
}

#[test]
fn both_sources_is_a_configuration_error() {
    let s = service(Some("/srv/api"), Some("https://example/repo.git"), "sh -c ./run.sh");
    assert_eq!(s.work_dir("api", "/root"), Err(ConfigError::BothSources));
    let e = s.launch("api", "/root", "/usr/bin").unwrap_err();
    assert_eq!(e, ServiceError::Config(ConfigError::BothSources));
}

#[test]
fn no_source_is_a_configuration_error() {
    let s = service(None, None, "sh -c ./run.sh");
    assert_eq!(s.work_dir("api", "/root"), Err(ConfigError::NoSource));
    let e = s.launch("api", "/root", "/usr/bin").unwrap_err();
    assert_eq!(e, ServiceError::Config(ConfigError::NoSource));
}

#[test]
fn invalid_services_are_not_launched_and_others_are() {
    let c = config(
        "/var/lib/sources",
        vec![
            ("both", service(Some("/a"), Some("https://example/a.git"), "sh -c x")),
            ("api", service(Some("/srv/api"), None, "sh -c ./run.sh")),
            ("neither", service(None, None, "sh -c x")),
        ],
    );
    let plan = c.start_plan("/usr/bin", "/home/me");
    assert_eq!(plan.len(), 3);
    assert!(matches!(plan[0], StartStep::Invalid(ServiceError::Config(ConfigError::BothSources))));
    assert!(matches!(plan[1], StartStep::Launch { .. }));
    assert!(matches!(plan[2], StartStep::Invalid(ServiceError::Config(ConfigError::NoSource))));
}

#[test]
fn disabled_service_is_skipped() {
    let mut s = service(Some("/srv/api"), None, "sh -c ./run.sh");
    s.enabled = false;
    let plan = config("/r", vec![("api", s)]).start_plan("/usr/bin", "/home/me");
    assert!(matches!(plan[0], StartStep::Skip));
}

#[test]
fn base_dir_service_launch_scenario() {
    let s = service(Some("/srv/api"), None, "sh -c ./run.sh");
    let plan = config("/var/lib/sources", vec![("api", s)]).start_plan("/usr/bin:/bin", "/home/me");
    match &plan[0] {
        StartStep::Launch { clone, spec } => {
            assert!(clone.is_none());
            assert_eq!(spec.program, "sh");
            assert_eq!(spec.args, vec!["-c".to_string(), "./run.sh".to_string()]);
            assert_eq!(spec.dir, "/srv/api");
            assert_eq!(spec.env, vec![("PATH".to_string(), "/usr/bin:/bin".to_string())]);
        }
        other => panic!("unexpected step {:?}", other),
    }
}

#[test]
fn git_service_clones_before_launch_scenario() {
    let mut s = service(None, Some("https://example/repo.git"), "sh -c ./run.sh");
    s.ssh_key_file = Some("id_deploy".to_string());
    s.env = vec![("MODE".to_string(), "prod".to_string())];
    let plan = config("/var/lib/sources", vec![("worker", s)]).start_plan("/bin", "/home/me");
    match &plan[0] {
        StartStep::Launch { clone, spec } => {
            let c = clone.as_ref().expect("a git service is cloned first");
            assert_eq!(c.uri, "https://example/repo.git");
            assert_eq!(c.dest, "/var/lib/sources/worker");
            assert_eq!(c.key_path.as_deref(), Some("/home/me/.ssh/id_deploy"));
            assert_eq!(spec.dir, "/var/lib/sources/worker");
            assert_eq!(
                spec.env,
                vec![
                    ("PATH".to_string(), "/bin".to_string()),
                    ("MODE".to_string(), "prod".to_string())
                ]
            );
        }
        other => panic!("unexpected step {:?}", other),
    }
}

#[test]
fn quoted_arguments_are_split_as_a_shell_does() {
    let s = service(Some("/srv/api"), None, "sh -c \"echo hi\" 'a b'");
    let l = s.launch("api", "/r", "/bin").unwrap();
    assert_eq!(l.program, "sh");
    assert_eq!(l.args, vec!["-c".to_string(), "echo hi".to_string(), "a b".to_string()]);
}

#[test]
fn unmatched_quote_is_refused() {
    let s = service(Some("/srv/api"), None, "sh -c \"echo hi");
    assert_eq!(s.launch("api", "/r", "/bin").unwrap_err(), ServiceError::UnbalancedQuotes);
}

#[test]
fn command_without_space_is_refused() {
    let s = service(Some("/srv/api"), None, "server");
    assert_eq!(s.launch("api", "/r", "/bin").unwrap_err(), ServiceError::MissingArguments);
}

#[test]
fn split_at_first_space_only() {
    assert_eq!(split_at_space("a b c"), Some(("a".to_string(), "b c".to_string())));
    assert_eq!(split_at_space("abc"), None);
    assert_eq!(split_at_space(" x"), Some(("".to_string(), "x".to_string())));
}

#[test]
fn source_paths() {
    assert_eq!(repo_dir("/var/lib/sources", "worker"), "/var/lib/sources/worker");
    assert_eq!(staging_dir("/var/lib/sources", "worker"), "/var/lib/sources/worker-update-tmp");
    assert_eq!(key_path("/home/me", "id_rsa"), "/home/me/.ssh/id_rsa");
    assert_eq!(ssh_user(Some("deploy")), "deploy");
    assert_eq!(ssh_user(None), "git");
}

#[test]
fn update_needs_received_bytes() {
    assert!(!update_available(0));
    assert!(update_available(1));
}

#[test]
fn config_lookup_and_debug() {
    let mut c = config("/r", vec![("a", service(Some("/a"), None, "sh -c x"))]);
    assert_eq!(c.find("a"), Some(0));
    assert_eq!(c.find("b"), None);
    assert!(!c.debug_allowed());
    c.debug = Some(true);
    assert!(c.debug_allowed());
    let e = Config::empty();
    assert!(e.services.is_empty());
}

#[test]
fn daemon_flags() {
    let a = Args {
        command: Commands::Daemon { start: true, stop: false, no_fork: Some(true), wait: None },
        config: None,
    };
    assert!(a.forking_disabled());
    assert!(!a.waits());
    let b = Args { command: Commands::TestConfig {}, config: Some("c.nix".to_string()) };
    assert!(!b.forking_disabled());
}
