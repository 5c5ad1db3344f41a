use relay_core::control::bootstrap::{
    executable_name, host_binary_candidates, io_err, poll_ready, BootstrapError, ReadyStep, SpawnRequest,
    HOST_BINARY_NAME,
};
use relay_core::control::client::{
    after_discovery, after_version, judge_answer, lifecycle_audit_path, parse_error_body, ApiVersionInfo,
    ConnectStep, ControlClient, ControlClientError, DaemonStatus,
};
use relay_core::control::config::{
    config_path, load, may_write_default, ConfigError, ConfigFile, DaemonSection, RelayConfig,
    DEFAULT_CONFIG_TEMPLATE,
};
use relay_core::control::manifest::{
    daemon_lock_path, discover, judge_lock, lock_content, manifest_path, process_alive, read_lock_pid,
    removes_lock_file, signal_target, temporary_manifest_path, DaemonManifest, Discovery,
    LockAttempt, LockError, ManifestFile, ProcessProbe, CONTROL_API_VERSION,
};

const DEAD_PID: u32 = 999_999_999;

fn manifest_for_current_process() -> DaemonManifest {
    DaemonManifest {
        pid: 4242,
        api_version: CONTROL_API_VERSION.to_string(),
        engine_version: "0.0.0-test".to_string(),
        api_port: 18082,
        proxy_port: Some(18080),
        mcp_port: Some(18083),
        token: Some("test-token".to_string()),
        serve_webui: false,
        started_at_ms: 1_700_000_000_000,
        data_dir: "/data".to_string(),
    }
}

#[test]
fn executable_name_has_the_platform_suffix() {
    let windows = std::path::MAIN_SEPARATOR == '\\';
    let name = executable_name("relay-core-cli", windows);
    if windows {
        assert_eq!(name, "relay-core-cli.exe");
    } else {
        assert_eq!(name, "relay-core-cli");
    }
    assert_eq!(executable_name("relay-core-cli", true), "relay-core-cli.exe");
    assert_eq!(executable_name("relay-core-cli", false), "relay-core-cli");
}

#[test]
fn the_host_binary_is_looked_for_next_to_this_executable_first() {
    let list = host_binary_candidates(Some("/opt/relay"), &vec!["/usr/bin".to_string(), "/bin/".to_string()], false);
    assert_eq!(
        list,
        vec!["/opt/relay/relay-core-cli", "/usr/bin/relay-core-cli", "/bin/relay-core-cli"]
    );
    for path in &list {
        assert!(
            path.contains(HOST_BINARY_NAME),
            "found a binary that is not the host: {path}"
        );
    }
    assert_eq!(host_binary_candidates(None, &vec![], true), Vec::<String>::new());
}

#[test]
fn a_missing_file_yields_defaults() {
    let config = load("/data", ConfigFile::Missing, false).expect("defaults");
    assert_eq!(config, RelayConfig::default());
    assert!(config.daemon.mcp, "MCP is on by default");
    assert!(config.client.autostart_daemon, "the bridge auto-starts by default");
    assert_eq!(
        config.daemon.idle_timeout, 0,
        "the proxy is never stopped automatically unless asked"
    );
}

#[test]
fn a_malformed_file_is_an_error_not_a_fallback() {
    let error = load("/data", ConfigFile::Malformed("expected u16".to_string()), false).expect_err("a typo must be reported");
    assert!(
        matches!(error, ConfigError::Parse { .. }),
        "expected a parse error, got {error:?}"
    );
    assert_eq!(error.message(), "/data/config.toml is not valid TOML: expected u16");
    let error = load("/data", ConfigFile::Unreadable("denied".to_string()), false).expect_err("must be reported");
    assert_eq!(error.message(), "cannot read /data/config.toml: denied");
}

#[test]
fn the_default_template_round_trips() {
    let table: toml::Table = toml::from_str(DEFAULT_CONFIG_TEMPLATE).expect("the shipped template must be valid");
    let int = |section: &str, key: &str| table[section][key].as_integer().expect("integer");
    let flag = |section: &str, key: &str| table[section][key].as_bool().expect("flag");
    let mut parsed = RelayConfig::default();
    parsed.daemon.api_port = int("daemon", "api_port") as u16;
    parsed.daemon.mcp_port = int("daemon", "mcp_port") as u16;
    parsed.daemon.mcp = flag("daemon", "mcp");
    parsed.daemon.idle_timeout = int("daemon", "idle_timeout") as u64;
    parsed.daemon.save_stream = table["daemon"]["save_stream"].as_str().expect("text").to_string();
    parsed.proxy.port = int("proxy", "port") as u16;
    parsed.client.autostart_daemon = flag("client", "autostart_daemon");
    assert_eq!(
        parsed,
        RelayConfig::default(),
        "the template documents the defaults, so it must parse to them"
    );
    assert_eq!(table.len(), 3);
    assert_eq!(table["daemon"].as_table().expect("section").len(), 5);
}

#[test]
fn an_empty_save_stream_setting_means_do_not_write() {
    let mut section = DaemonSection::default();
    assert_eq!(section.save_stream_path(), None);

    section.save_stream = "   ".to_string();
    assert_eq!(section.save_stream_path(), None, "whitespace is not a path");

    section.save_stream = "/tmp/flows.jsonl".to_string();
    assert_eq!(section.save_stream_path(), Some("/tmp/flows.jsonl".to_string()));
}

#[test]
fn writing_the_default_refuses_to_clobber_existing_settings() {
    assert_eq!(may_write_default("/data", false, false, false).expect("first write"), "/data/config.toml");
    let refused = may_write_default("/data", true, false, false)
        .expect_err("an existing config must not be overwritten by accident");
    assert_eq!(
        refused.message(),
        "cannot write /data/config.toml: config already exists (pass --force to overwrite)"
    );
    may_write_default("/data", true, true, false).expect("--force overwrites");
}

#[test]
fn the_browser_url_carries_the_token_in_the_fragment() {
    let manifest = DaemonManifest {
        serve_webui: true,
        ..manifest_for_current_process()
    };
    assert_eq!(
        manifest.webui_url().as_deref(),
        Some("http://127.0.0.1:18082/#token=test-token")
    );

    let without_ui = DaemonManifest {
        serve_webui: false,
        ..manifest.clone()
    };
    assert_eq!(without_ui.webui_url(), None);
    let open = DaemonManifest {
        token: None,
        ..manifest
    };
    assert_eq!(open.webui_url().as_deref(), Some("http://127.0.0.1:18082/"));
}

#[test]
fn discovery_reports_absent_when_no_manifest_exists() {
    assert_eq!(discover(ManifestFile::Missing), (Discovery::Absent, false));
}

#[test]
fn discovery_reclaims_a_manifest_whose_process_is_gone() {
    let manifest = DaemonManifest {
        pid: DEAD_PID,
        ..manifest_for_current_process()
    };
    let (found, remove) = discover(ManifestFile::Read { manifest, alive: false });
    assert_eq!(found, Discovery::Stale);
    assert!(
        remove,
        "a stale manifest must be removed so the next start is not blocked by a corpse"
    );
    assert_eq!(discover(ManifestFile::Unreadable), (Discovery::Stale, true));
}

#[test]
fn discovery_finds_a_manifest_owned_by_a_live_process() {
    let manifest = manifest_for_current_process();
    let (found, remove) = discover(ManifestFile::Read {
        manifest: manifest.clone(),
        alive: true,
    });
    assert_eq!(found, Discovery::Running(manifest));
    assert!(!remove);
}

#[test]
fn discovery_reports_an_incompatible_control_protocol() {
    let manifest = DaemonManifest {
        api_version: "999".to_string(),
        ..manifest_for_current_process()
    };
    match discover(ManifestFile::Read { manifest, alive: true }) {
        (Discovery::Incompatible { found, expected }, remove) => {
            assert_eq!(found, "999");
            assert_eq!(expected, CONTROL_API_VERSION);
            assert!(!remove, "a live daemon keeps its manifest");
        }
        other => panic!("expected Incompatible, got {other:?}"),
    }
}

#[test]
fn lock_is_exclusive_and_blocks_a_second_owner() {
    assert_eq!(judge_lock(LockAttempt::Locked), Ok(()));
    match judge_lock(LockAttempt::Held {
        content: Some(lock_content(4242)),
    }) {
        Err(LockError::AlreadyRunning { pid }) => assert_eq!(pid, 4242),
        other => panic!("expected AlreadyRunning, got {other:?}"),
    }
    assert_eq!(
        judge_lock(LockAttempt::Held { content: None }),
        Err(LockError::AlreadyRunning { pid: 0 })
    );
    let failed = judge_lock(LockAttempt::Failed {
        path: "/p".to_string(),
        error: "e".to_string(),
    })
    .expect_err("failed");
    assert_eq!(failed.message(), "daemon lock error: locking /p: e");
}

#[test]
fn released_lock_leaves_no_file_behind() {
    assert!(
        removes_lock_file(&Some(lock_content(7)), 7),
        "a released lock must not leave a file that looks like a running daemon"
    );
    assert!(!removes_lock_file(&Some(lock_content(8)), 7));
    assert!(!removes_lock_file(&None, 7));
}

#[test]
fn lock_errors_name_the_owner_they_know() {
    assert_eq!(
        LockError::AlreadyRunning { pid: 0 }.message(),
        "another RelayCore daemon already owns this data directory"
    );
    assert_eq!(
        LockError::AlreadyRunning { pid: 12 }.message(),
        "another RelayCore daemon (pid 12) already owns this data directory"
    );
    assert_eq!(read_lock_pid(" 42\n"), Some(42));
    assert_eq!(read_lock_pid("4294967296"), None);
    assert_eq!(read_lock_pid("x"), None);
}

#[test]
fn files_of_a_data_directory_have_their_names() {
    assert_eq!(manifest_path("/d", false), "/d/daemon.json");
    assert_eq!(daemon_lock_path("/d/", false), "/d/daemon.lock");
    assert_eq!(config_path("", false), "config.toml");
    assert_eq!(temporary_manifest_path("/d", 9, false), "/d/daemon.json.9.tmp");
}

#[test]
fn windows_has_its_own_separator() {
    let config = |dir: &str| config_path(dir, true);
    assert_eq!(config(r"C:\data"), r"C:\data\config.toml");
    assert_eq!(config(r"C:\data\"), r"C:\data\config.toml");
    assert_eq!(config("C:/data/"), "C:/data/config.toml");
    assert_eq!(config("C:/data"), r"C:/data\config.toml");
    assert_eq!(config(r"\\server\share"), r"\\server\share\config.toml");
    assert_eq!(config("data"), r"data\config.toml");
    assert_eq!(config(""), "config.toml");
}

#[test]
fn a_drive_alone_stands_for_its_current_directory() {
    assert_eq!(manifest_path("C:", true), "C:daemon.json");
    assert_eq!(manifest_path("z:", true), "z:daemon.json");
    assert_eq!(manifest_path("1:", true), r"1:\daemon.json");
    assert_eq!(manifest_path("C:", false), "C:/daemon.json");
}

#[test]
fn verbatim_paths_are_written_with_single_separators() {
    assert_eq!(manifest_path(r"\\?\C:\data", true), r"\\?\C:\data\daemon.json");
    assert_eq!(manifest_path(r"\\?\C:\data\", true), r"\\?\C:\data\daemon.json");
    assert_eq!(manifest_path(r"\\?\C:\a\\b/", true), r"\\?\C:\a\b/\daemon.json");
    assert_eq!(manifest_path(r"\\?\C:", true), r"\\?\C:\daemon.json");
    assert_eq!(
        manifest_path(r"\\?\UNC\server\share\\x", true),
        r"\\?\UNC\server\share\x\daemon.json"
    );
}

#[test]
fn paths_are_joined_as_std_joins_them_here() {
    for dir in ["", "/", "d", "d/", "/a//b", "C:", r"a\b", "a/../b"] {
        let joined = std::path::Path::new(dir).join("daemon.lock");
        let windows = std::path::MAIN_SEPARATOR == '\\';
        assert_eq!(daemon_lock_path(dir, windows), joined.to_str().expect("text"));
    }
}

#[test]
fn processes_are_asked_by_signal() {
    assert!(process_alive(0, ProcessProbe::Unsupported));
    assert!(process_alive(1, ProcessProbe::Unsupported));
    assert_eq!(signal_target(0), None);
    assert_eq!(signal_target(7), Some(7));
    assert_eq!(signal_target(0x8000_0000), None);
    assert!(process_alive(7, ProcessProbe::Taken));
    assert!(!process_alive(0, ProcessProbe::Taken));
    assert!(!process_alive(0x8000_0000, ProcessProbe::Taken));
    assert!(process_alive(7, ProcessProbe::Refused(Some(1))));
    assert!(!process_alive(7, ProcessProbe::Refused(Some(3))));
    assert!(!process_alive(7, ProcessProbe::Refused(None)));
}

#[test]
fn a_starting_daemon_is_waited_for() {
    assert!(matches!(poll_ready(false, true, true, 1, "/l", 5, 250), ReadyStep::Attach));
    assert!(matches!(poll_ready(false, false, true, 1, "/l", 5, 250), ReadyStep::Wait(50)));
    match poll_ready(false, false, false, 3, "/l", 5, 250) {
        ReadyStep::Failed(e) => assert_eq!(
            e.message(),
            "the RelayCore daemon exited during startup (pid 3); see /l"
        ),
        other => panic!("expected a failure, got {other:?}"),
    }
    match poll_ready(true, false, true, 3, "/l", 5, 250) {
        ReadyStep::Failed(e) => assert_eq!(
            e.message(),
            "the RelayCore daemon (pid 3) did not become ready within 5s; see /l"
        ),
        other => panic!("expected a failure, got {other:?}"),
    }
    assert_eq!(
        io_err("no".to_string()).message(),
        "failed to start the RelayCore daemon: no"
    );
    assert!(BootstrapError::HostBinaryNotFound.message().contains("on PATH (install"));
    let request = SpawnRequest {
        program: "p".to_string(),
        args: vec![],
        log_file: "l".to_string(),
    };
    assert_eq!(request.clone().program, "p");
}

fn version(v: &str) -> ApiVersionInfo {
    ApiVersionInfo {
        engine_version: "1".to_string(),
        api_version: v.to_string(),
        capabilities: vec![],
    }
}

fn unreachable() -> ControlClientError {
    ControlClientError::Unreachable {
        url: "http://127.0.0.1:1/x".to_string(),
        detail: "refused".to_string(),
    }
}

#[test]
fn a_client_discovers_and_attaches_to_a_running_daemon() {
    let manifest = manifest_for_current_process();
    let asked = match after_discovery(Discovery::Running(manifest)) {
        ConnectStep::Confirm(m) => m,
        other => panic!("expected a question, got {other:?}"),
    };
    let (status, remove) = after_version(asked, Ok(version("1")), true);
    assert!(status.is_running());
    assert!(!remove);
    match &status {
        DaemonStatus::Running { client, .. } => {
            assert_eq!(client.base_url(), "http://127.0.0.1:18082");
            assert_eq!(client.token(), Some("test-token"));
        }
        other => panic!("expected a daemon, got {other:?}"),
    }
}

#[test]
fn a_live_pid_with_a_dead_api_is_reported_as_unresponsive() {
    let (status, remove) = after_version(manifest_for_current_process(), Err(unreachable()), true);
    assert!(!remove);
    assert_eq!(status.manifest().map(|m| m.pid), Some(4242));
    match status {
        DaemonStatus::Unresponsive { reason, .. } => assert_eq!(
            reason,
            "no RelayCore daemon is answering at http://127.0.0.1:1/x (refused)"
        ),
        other => panic!("expected Unresponsive, got {other:?}"),
    }
}

#[test]
fn a_manifest_for_a_dead_process_is_not_running() {
    let (status, remove) = after_version(manifest_for_current_process(), Err(unreachable()), false);
    assert!(matches!(status, DaemonStatus::NotRunning));
    assert!(remove);
    assert!(matches!(
        after_discovery(Discovery::Stale),
        ConnectStep::Known(DaemonStatus::NotRunning)
    ));
}

#[test]
fn an_empty_registry_reports_not_running() {
    assert!(matches!(
        after_discovery(Discovery::Absent),
        ConnectStep::Known(DaemonStatus::NotRunning)
    ));
}

#[test]
fn a_foreign_control_protocol_is_reported_as_incompatible() {
    let (status, remove) = after_version(manifest_for_current_process(), Ok(version("2")), true);
    assert!(remove, "the daemon is trusted over its file");
    match status {
        DaemonStatus::Incompatible { found, expected } => {
            assert_eq!(found, "2");
            assert_eq!(expected, "1");
        }
        other => panic!("expected Incompatible, got {other:?}"),
    }
}

#[test]
fn failure_bodies_are_read_for_their_code() {
    assert_eq!(
        parse_error_body(r#"{"error":{"code":"start_failed","message":"port 1 is taken"}}"#),
        ("start_failed".to_string(), "port 1 is taken".to_string())
    );
    assert_eq!(
        parse_error_body(r#"{"error":"missing_or_invalid_bearer_token"}"#),
        (
            "missing_or_invalid_bearer_token".to_string(),
            r#"{"error":"missing_or_invalid_bearer_token"}"#.to_string()
        )
    );
    assert_eq!(
        parse_error_body(" plain words "),
        ("request_failed".to_string(), "plain words".to_string())
    );
    assert_eq!(
        parse_error_body(""),
        (
            "request_failed".to_string(),
            "the daemon refused the request without a message".to_string()
        )
    );
    assert_eq!(parse_error_body("{}").0, "request_failed");
}

#[test]
fn answers_of_the_daemon_are_judged_by_status() {
    assert!(judge_answer(200, "").is_ok());
    let e = judge_answer(409, r#"{"error":{"code":"c","message":"m"}}"#).expect_err("refused");
    assert_eq!(e.code(), "c");
    assert_eq!(e.message(), "c: m");
    assert_eq!(unreachable().code(), "daemon_unreachable");
    let p = ControlClientError::Protocol("x".to_string());
    assert_eq!(p.code(), "daemon_protocol_error");
    assert_eq!(p.message(), "unexpected response from the daemon: x");
}

#[test]
fn clients_say_who_they_are() {
    let c = ControlClient::new("http://127.0.0.1:8082//", Some("t".to_string())).identifying_as("cli:x".to_string());
    assert_eq!(c.base_url(), "http://127.0.0.1:8082");
    assert_eq!(c.url("/api/v1/version"), "http://127.0.0.1:8082/api/v1/version");
    assert_eq!(
        c.authorize(),
        vec![
            ("authorization".to_string(), "Bearer t".to_string()),
            ("x-relay-client".to_string(), "cli:x".to_string())
        ]
    );
    assert_eq!(
        c.unreachable("/p", "d").message(),
        "no RelayCore daemon is answering at http://127.0.0.1:8082/p (d)"
    );
    assert_eq!(
        lifecycle_audit_path(5),
        "/api/v1/audit?kind=proxy_lifecycle_changed&limit=5"
    );
}
