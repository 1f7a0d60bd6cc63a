//! Containers: images, mounts, creation, crashes, listing, commands and counters.
use ring_runtime::docker::container::{
    build_health_config, build_user_config, classify_pull_error, classify_pull_text,
    connect_network_error, container_body, create_mount_from_resolved, exposed_ports,
    extract_digest, forget_created, get_privileged_config, instance_name, mount_with_hash,
    named_volume_error, named_volume_request, network_aliases, network_error, network_name, never_pull_error,
    next_create_step, plan_creation, port_bindings, prefer_local_cache, pull_tag,
    pulled_image_missing, record_created, record_image, registry_credentials, requested_image,
    requested_policy, scratch_file, start_error, uses_host_network, CreateStep, MountKind,
};
use ring_runtime::docker::docker_lifecycle::filter_instances;
use ring_runtime::docker::exec::{
    admit_exec, check_request, create_exec_error, detached_error, initial_size, map_output,
    poll_exit, start_exec_error, ExecError, ExecOutput, ExecRequest, ExitPoll, Frame, Inspection,
    TerminalSize,
};
use ring_runtime::docker::health_check::{
    command_run_result, container_addresses, CommandRun, NetworkAddress,
};
use ring_runtime::docker::instances::{
    build_list_options, list_instances, list_instances_with_names, list_running_instances_grouped,
    matches_status, ContainerSummary, SummaryState,
};
use ring_runtime::docker::lifecycle::{
    apply_unexpected_exits, check_container_status, confirmed_alive, detect_crashes,
    handle_create_error, is_job, job_begin, job_created, job_inspected, remove_all_instances,
    scratch_dir, status_filter, worker_begin, worker_created, worker_exits_seen, worker_inspected,
    ContainerState, ExitedContainer, JobAction, WorkerAction, LIVENESS_SETTLE_MILLIS,
    count_exits, job_filter, job_listed, JobStep,
};
use ring_runtime::docker::logs::{format_log_output, process_log_chunk};
use ring_runtime::docker::stats::{
    compute_disk_io_stats, compute_memory_stats, compute_network_stats, compute_pid_stats,
    cpu_ratio_of, no_stats_error, restart_count_of, stats_error, RawCpu, RawDiskEntry, RawMemory,
    RawNetwork,
};
use ring_runtime::docker::{
    connect_error, daemon_error, host_address, parse_image_reference, ping_error, tiny_id,
    tiny_id_of, DockerImage, HostAddress, ImagePullPolicy, ImageReference,
};
use ring_runtime::error::RuntimeError;
use ring_runtime::models::{
    Deployment, DeploymentConfig, DeploymentNetwork, DeploymentStatus, EnvValue, FailureAction,
    HealthCheck, HealthCheckStatus, InstanceStatus, NetworkMode, Port, Protocol, ResolvedMount,
    Resource, ResourceSpec, UserConfig, MAX_RESTART_COUNT,
};
use ring_runtime::stats::Ratio;

fn worker_running() -> Deployment {
    Deployment {
        id: "crash-loop".to_string(),
        created_at: String::new(),
        updated_at: None,
        status: DeploymentStatus::Running,
        restart_count: 0,
        namespace: "test".to_string(),
        name: "crasher".to_string(),
        image: "busybox".to_string(),
        config: None,
        runtime: "docker".to_string(),
        kind: "worker".to_string(),
        replicas: 1,
        command: vec![],
        instances: vec![],
        labels: vec![],
        environment: vec![],
        volumes: "[]".to_string(),
        health_checks: vec![],
        resources: None,
        image_digest: None,
        ports: vec![],
        pending_events: vec![],
        parent_id: None,
        network: None,
    }
}

#[test]
fn container_test_build_user_config_with_uid_and_gid() {
    let config = Some(DeploymentConfig {
        image_pull_policy: String::from("always"),
        server: None,
        username: None,
        password: None,
        user: Some(UserConfig {
            id: Some(1000),
            group: Some(1000),
            privileged: Some(false),
        }),
    });
    assert_eq!(build_user_config(&config), Some("1000:1000".to_string()));
}

#[test]
fn container_test_build_user_config_with_uid_only() {
    let config = Some(DeploymentConfig {
        image_pull_policy: String::from("always"),
        server: None,
        username: None,
        password: None,
        user: Some(UserConfig {
            id: Some(1000),
            group: None,
            privileged: Some(false),
        }),
    });
    assert_eq!(build_user_config(&config), Some("1000".to_string()));
}

#[test]
fn container_test_build_user_config_none() {
    assert_eq!(build_user_config(&None), None);
}

#[test]
fn container_test_get_privileged_config() {
    let config = Some(DeploymentConfig {
        image_pull_policy: String::from("always"),
        server: None,
        username: None,
        password: None,
        user: Some(UserConfig {
            id: Some(0),
            group: Some(0),
            privileged: Some(true),
        }),
    });
    assert_eq!(get_privileged_config(&config), Some(true));
}

#[test]
fn docker_test_build_user_config_with_uid_and_gid() {
    let config = Some(DeploymentConfig {
        image_pull_policy: String::from("always"),
        server: None,
        username: None,
        password: None,
        user: Some(UserConfig {
            id: Some(1000),
            group: Some(1000),
            privileged: Some(false),
        }),
    });

    let result = build_user_config(&config);
    assert_eq!(result, Some("1000:1000".to_string()));
}

#[test]
fn docker_test_build_user_config_with_uid_only() {
    let config = Some(DeploymentConfig {
        image_pull_policy: String::from("always"),
        server: None,
        username: None,
        password: None,
        user: Some(UserConfig {
            id: Some(1000),
            group: None,
            privileged: Some(false),
        }),
    });

    let result = build_user_config(&config);
    assert_eq!(result, Some("1000".to_string()));
}

#[test]
fn docker_test_build_user_config_none() {
    let config = None;
    let result = build_user_config(&config);
    assert_eq!(result, None);
}

#[test]
fn docker_test_get_privileged_config() {
    let config = Some(DeploymentConfig {
        image_pull_policy: String::from("always"),
        server: None,
        username: None,
        password: None,
        user: Some(UserConfig {
            id: Some(0),
            group: Some(0),
            privileged: Some(true),
        }),
    });

    let result = get_privileged_config(&config);
    assert_eq!(result, Some(true));
}

#[test]
fn extract_digest_none_when_repo_digests_missing() {
    assert_eq!(extract_digest(&None, "nginx"), None);
}

#[test]
fn extract_digest_picks_matching_repo() {
    let digests = Some(vec![
        "docker.io/library/nginx@sha256:aaa".to_string(),
        "ghcr.io/kemeter/nginx@sha256:bbb".to_string(),
    ]);
    assert_eq!(
        extract_digest(&digests, "ghcr.io/kemeter/nginx"),
        Some("sha256:bbb".to_string())
    );
}

#[test]
fn extract_digest_falls_back_to_first_when_no_match() {
    let digests = Some(vec!["docker.io/library/nginx@sha256:zzz".to_string()]);
    assert_eq!(
        extract_digest(&digests, "nginx"),
        Some("sha256:zzz".to_string())
    );
}

#[test]
fn extract_digest_handles_malformed_entry() {
    let digests = Some(vec![
        "garbage_without_at_sign".to_string(),
        "nginx@sha256:ok".to_string(),
    ]);
    assert_eq!(
        extract_digest(&digests, "nginx"),
        Some("sha256:ok".to_string())
    );
}

#[test]
fn extract_digest_none_when_no_at_sign() {
    let repo_digests = Some(vec!["nginx:latest".to_string()]);
    assert_eq!(extract_digest(&repo_digests, "nginx"), None);
}

#[test]
fn extract_digest_none_when_empty_vec() {
    assert_eq!(extract_digest(&Some(vec![]), "nginx"), None);
}

#[test]
fn build_health_config_returns_none_when_no_readiness_hc() {
    let hcs = vec![HealthCheck::Command {
        command: "echo ok".to_string(),
        interval: "10s".to_string(),
        timeout: "5s".to_string(),
        threshold: 3,
        on_failure: FailureAction::Alert,
        readiness: false,
        min_healthy_time: None,
    }];
    assert!(build_health_config(&hcs).is_none());
}

#[test]
fn build_health_config_returns_none_for_tcp_readiness() {
    let hcs = vec![HealthCheck::Tcp {
        port: 80,
        interval: "10s".to_string(),
        timeout: "5s".to_string(),
        threshold: 3,
        on_failure: FailureAction::Alert,
        readiness: true,
        min_healthy_time: None,
    }];
    assert!(build_health_config(&hcs).is_none());
}

#[test]
fn build_health_config_returns_none_for_http_readiness() {
    let hcs = vec![HealthCheck::Http {
        url: "http://localhost/health".to_string(),
        interval: "10s".to_string(),
        timeout: "5s".to_string(),
        threshold: 3,
        on_failure: FailureAction::Alert,
        readiness: true,
        min_healthy_time: None,
    }];
    assert!(build_health_config(&hcs).is_none());
}

#[test]
fn build_health_config_translates_command_readiness() {
    let hcs = vec![HealthCheck::Command {
        command: "test -f /var/run/kemeter/ready".to_string(),
        interval: "10s".to_string(),
        timeout: "5s".to_string(),
        threshold: 3,
        on_failure: FailureAction::Alert,
        readiness: true,
        min_healthy_time: None,
    }];
    let cfg = build_health_config(&hcs).expect("should translate");
    assert_eq!(
        cfg.test,
        Some(vec![
            "CMD-SHELL".to_string(),
            "test -f /var/run/kemeter/ready".to_string(),
        ])
    );
    assert_eq!(cfg.interval, Some(10_000_000_000));
    assert_eq!(cfg.timeout, Some(5_000_000_000));
    assert_eq!(cfg.retries, Some(3));
}

#[test]
fn build_health_config_picks_first_command_readiness_when_mixed() {
    let hcs = vec![
        HealthCheck::Tcp {
            port: 80,
            interval: "10s".to_string(),
            timeout: "5s".to_string(),
            threshold: 3,
            on_failure: FailureAction::Alert,
            readiness: true,
            min_healthy_time: None,
        },
        HealthCheck::Command {
            command: "/usr/local/bin/ready.sh".to_string(),
            interval: "15s".to_string(),
            timeout: "3s".to_string(),
            threshold: 5,
            on_failure: FailureAction::Alert,
            readiness: true,
            min_healthy_time: None,
        },
    ];
    let cfg = build_health_config(&hcs).expect("should translate the command HC");
    assert_eq!(cfg.test.as_ref().unwrap()[1], "/usr/local/bin/ready.sh");
}

#[test]
fn prefer_cache_no_registry_serves_local_first_any_policy() {
    let r = ImageReference::Tag("9809f6b1".to_string());
    assert!(prefer_local_cache(ImagePullPolicy::Always, &r, false));
    assert!(prefer_local_cache(ImagePullPolicy::IfNotPresent, &r, false));
}

#[test]
fn prefer_cache_ifnotpresent_uses_cache_even_with_registry() {
    let r = ImageReference::Tag("9809f6b1".to_string());
    assert!(prefer_local_cache(ImagePullPolicy::IfNotPresent, &r, true));
}

#[test]
fn prefer_cache_digest_reference_uses_cache() {
    let r = ImageReference::Digest("sha256:deadbeef".to_string());
    assert!(prefer_local_cache(ImagePullPolicy::Always, &r, true));
    assert!(prefer_local_cache(ImagePullPolicy::Always, &r, false));
}

#[test]
fn prefer_cache_always_with_registry_goes_to_registry() {
    let r = ImageReference::Tag("9809f6b1".to_string());
    assert!(!prefer_local_cache(ImagePullPolicy::Always, &r, true));
}

#[test]
fn classify_pull_error_missing_image_stays_not_found() {
    let e = classify_pull_error(
        "manifest unknown: manifest unknown",
        "registry.example.com/app:v1",
    );
    assert!(matches!(e, RuntimeError::ImageNotFound(_)));

    let e = classify_pull_error("received unexpected HTTP status: 404 Not Found", "app:v1");
    assert!(matches!(e, RuntimeError::ImageNotFound(_)));
}

#[test]
fn classify_pull_error_auth_names_the_credentials_fix() {
    for raw in [
        "unauthorized: authentication required",
        "denied: requested access to the resource is denied",
        "pull access denied, repository does not exist or may require authorization",
    ] {
        let e = classify_pull_error(raw, "private.io/app:v1");
        match e {
            RuntimeError::ImagePullFailed(msg) => {
                assert!(
                    msg.contains("config.username") && msg.contains("config.password"),
                    "auth error should point at the credential config, got: {msg}"
                );
                assert!(msg.contains("private.io/app:v1"), "should name the image");
            }
            other => panic!("expected ImagePullFailed, got {other:?}"),
        }
    }
}

#[test]
fn classify_pull_error_unreachable_names_the_registry() {
    for raw in [
        "dial tcp 10.0.0.1:5000: connect: connection refused",
        "dial tcp: lookup registry.invalid: no such host",
        "Get \"https://registry.invalid/v2/\": net/http: request canceled (Client.Timeout exceeded)",
    ] {
        let e = classify_pull_error(raw, "registry.invalid/app:v1");
        match e {
            RuntimeError::ImagePullFailed(msg) => {
                assert!(
                    msg.contains("cannot reach the registry"),
                    "unreachable error should say so, got: {msg}"
                );
                assert!(
                    msg.contains("registry.invalid/app:v1"),
                    "should name the image"
                );
            }
            other => panic!("expected ImagePullFailed, got {other:?}"),
        }
    }
}

#[test]
fn classify_pull_error_unknown_keeps_the_original_detail() {
    let e = classify_pull_error("some unexpected daemon hiccup", "app:v1");
    match e {
        RuntimeError::ImagePullFailed(msg) => {
            assert!(msg.contains("some unexpected daemon hiccup"));
        }
        other => panic!("expected ImagePullFailed, got {other:?}"),
    }
}

#[test]
fn test_bind_mount_from_resolved() {
    let resolved = ResolvedMount::Bind {
        source: "/host/path".to_string(),
        destination: "/container/path".to_string(),
        read_only: false,
    };
    let mount = create_mount_from_resolved(&resolved, "test-deployment");
    assert_eq!(mount.target, "/container/path");
    assert_eq!(mount.source, "/host/path");
    assert_eq!(mount.kind, MountKind::Bind);
    assert_eq!(mount.read_only, false);
}

#[test]
fn test_content_mount_from_resolved() {
    let resolved = ResolvedMount::Content {
        content: "server { listen 80; }".to_string(),
        destination: "/app/nginx.conf".to_string(),
    };
    let mount = create_mount_from_resolved(&resolved, "test-deployment");
    assert_eq!(mount.target, "/app/nginx.conf");
    assert!(
        mount.source.contains("/tmp/ring_configs/test-deployment")
    );
    assert_eq!(mount.read_only, true);
}

#[test]
fn test_named_volume_from_resolved() {
    let resolved = ResolvedMount::Named {
        name: "my-docker-volume".to_string(),
        destination: "/app/data".to_string(),
        read_only: false,
        driver: "local".to_string(),
    };
    let mount = create_mount_from_resolved(&resolved, "test-deployment");
    assert_eq!(mount.target, "/app/data");
    assert_eq!(mount.source, "my-docker-volume");
    assert_eq!(mount.kind, MountKind::Volume);
    assert_eq!(mount.read_only, false);
    assert!(mount.driver.is_none());
}

#[test]
fn test_named_volume_with_nfs_driver() {
    let resolved = ResolvedMount::Named {
        name: "shared".to_string(),
        destination: "/mnt".to_string(),
        read_only: true,
        driver: "nfs".to_string(),
    };
    let mount = create_mount_from_resolved(&resolved, "test-deployment");
    assert_eq!(mount.driver, Some("nfs".to_string()));
}

#[test]
fn active_counts_running_and_restarting() {
    assert!(matches_status(
        Some(&SummaryState::Running),
        "active"
    ));
    assert!(matches_status(
        Some(&SummaryState::Restarting),
        "active"
    ));
}

#[test]
fn active_excludes_created_and_exited() {
    assert!(!matches_status(
        Some(&SummaryState::Created),
        "active"
    ));
    assert!(!matches_status(
        Some(&SummaryState::Exited),
        "active"
    ));
    assert!(!matches_status(None, "active"));
}

#[test]
fn all_matches_any_state() {
    assert!(matches_status(
        Some(&SummaryState::Created),
        "all"
    ));
    assert!(matches_status(None, "all"));
}

#[test]
fn explicit_state_filter_matches_by_name() {
    assert!(matches_status(
        Some(&SummaryState::Exited),
        "exited"
    ));
    assert!(!matches_status(
        Some(&SummaryState::Running),
        "exited"
    ));
    assert!(!matches_status(None, "exited"));
}

#[test]
fn list_options_always_request_all_states() {
    for filter in ["all", "active", "running", "exited", "created"] {
        assert!(
            build_list_options(filter).all,
            "build_list_options({filter:?}) must set all=true so exited containers are visible",
        );
    }
}

#[test]
fn worker_crash_loop_reaches_crashloopbackoff_within_bound() {
    let mut deployment = worker_running();

    let mut converged_at = None;
    for tick in 1..=(MAX_RESTART_COUNT as usize) {
        let exited = vec![(format!("container-{tick:03}"), None)];
        let hit_bound = apply_unexpected_exits(&mut deployment, &exited);

        assert_eq!(
            deployment.restart_count, tick as u32,
            "each unexpected exit must bump restart_count exactly once"
        );

        if hit_bound {
            converged_at = Some(tick);
            break;
        }
    }

    assert_eq!(
        converged_at,
        Some(MAX_RESTART_COUNT as usize),
        "must converge on the tick that reaches MAX_RESTART_COUNT, not before or never"
    );
    assert_eq!(deployment.restart_count, MAX_RESTART_COUNT);
    assert_eq!(deployment.status, DeploymentStatus::CrashLoopBackOff);
}

#[test]
fn no_unexpected_exit_never_counts() {
    let mut deployment = worker_running();
    let hit_bound = apply_unexpected_exits(&mut deployment, &vec![]);
    assert!(!hit_bound);
    assert_eq!(deployment.restart_count, 0);
    assert_eq!(deployment.status, DeploymentStatus::Running);
}

#[test]
fn multiple_exits_in_one_tick_count_each() {
    let mut deployment = worker_running();
    let exited: Vec<(String, Option<i64>)> = (0..MAX_RESTART_COUNT)
        .map(|i| (format!("container-{i}"), None))
        .collect();
    let hit_bound = apply_unexpected_exits(&mut deployment, &exited);
    assert!(hit_bound);
    assert_eq!(deployment.restart_count, MAX_RESTART_COUNT);
    assert_eq!(deployment.status, DeploymentStatus::CrashLoopBackOff);
}

#[test]
fn non_retryable_exit_code_fails_fast() {
    let mut deployment = worker_running();
    let exited = vec![("container-bad".to_string(), Some(127))];
    let hit_bound = apply_unexpected_exits(&mut deployment, &exited);
    assert!(hit_bound, "a non-retryable exit must stop reconciling");
    assert_eq!(
        deployment.status,
        DeploymentStatus::CreateContainerError,
        "127 fails fast onto the terminal create-container status, not CrashLoopBackOff"
    );
    assert_eq!(
        deployment.restart_count, 1,
        "the single real exit is counted, but we don't loop to MAX"
    );
}

#[test]
fn retryable_exit_code_keeps_retrying() {
    let mut deployment = worker_running();
    let exited = vec![("container-1".to_string(), Some(1))];
    let hit_bound = apply_unexpected_exits(&mut deployment, &exited);
    assert!(!hit_bound);
    assert_eq!(deployment.restart_count, 1);
    assert_eq!(deployment.status, DeploymentStatus::Running);
}

#[test]
fn confirmed_alive_only_for_running() {
    assert!(confirmed_alive(&InstanceStatus::Running));
}

#[test]
fn not_alive_when_already_exited() {
    assert!(!confirmed_alive(&InstanceStatus::Completed));
    assert!(!confirmed_alive(&InstanceStatus::Failed));
}

#[test]
fn liveness_settle_is_within_a_sane_range() {
    assert!(LIVENESS_SETTLE_MILLIS >= 500);
    assert!(LIVENESS_SETTLE_MILLIS <= 1000);
}

#[test]
fn parse_image_reference_bare_name_defaults_to_latest() {
    let (name, reference) = parse_image_reference("nginx");
    assert_eq!(name, "nginx");
    assert_eq!(reference, ImageReference::Tag("latest".to_string()));
}

#[test]
fn parse_image_reference_with_tag() {
    let (name, reference) = parse_image_reference("nginx:1.25");
    assert_eq!(name, "nginx");
    assert_eq!(reference, ImageReference::Tag("1.25".to_string()));
}

#[test]
fn parse_image_reference_with_repo_path() {
    let (name, reference) = parse_image_reference("library/nginx:1.25");
    assert_eq!(name, "library/nginx");
    assert_eq!(reference, ImageReference::Tag("1.25".to_string()));
}

#[test]
fn parse_image_reference_with_registry_host_no_port() {
    let (name, reference) = parse_image_reference("ghcr.io/kemeter/ring:v0.8.0");
    assert_eq!(name, "ghcr.io/kemeter/ring");
    assert_eq!(reference, ImageReference::Tag("v0.8.0".to_string()));
}

#[test]
fn parse_image_reference_with_registry_port_keeps_port_in_name() {
    let (name, reference) = parse_image_reference("registry.example:5000/foo/bar:v1");
    assert_eq!(name, "registry.example:5000/foo/bar");
    assert_eq!(reference, ImageReference::Tag("v1".to_string()));
}

#[test]
fn parse_image_reference_with_registry_port_no_tag() {
    let (name, reference) = parse_image_reference("registry.example:5000/foo/bar");
    assert_eq!(name, "registry.example:5000/foo/bar");
    assert_eq!(reference, ImageReference::Tag("latest".to_string()));
}

#[test]
fn parse_image_reference_digest() {
    let (name, reference) = parse_image_reference(
        "nginx@sha256:0123456789abcdef0123456789abcdef0123456789abcdef0123456789abcdef",
    );
    assert_eq!(name, "nginx");
    assert_eq!(
        reference,
        ImageReference::Digest(
            "sha256:0123456789abcdef0123456789abcdef0123456789abcdef0123456789abcdef"
                .to_string()
        )
    );
}

#[test]
fn parse_image_reference_digest_with_registry_port() {
    let (name, reference) = parse_image_reference("registry.example:5000/foo/bar@sha256:deadbeef");
    assert_eq!(name, "registry.example:5000/foo/bar");
    assert_eq!(reference, ImageReference::Digest("sha256:deadbeef".to_string()));
}

#[test]
fn full_ref_roundtrip_tag() {
    let img = DockerImage {
        name: "ghcr.io/kemeter/ring".to_string(),
        reference: ImageReference::Tag("v0.8.0".to_string()),
        auth: None,
    };
    assert_eq!(img.full_ref(), "ghcr.io/kemeter/ring:v0.8.0");
}

#[test]
fn full_ref_roundtrip_digest() {
    let img = DockerImage {
        name: "nginx".to_string(),
        reference: ImageReference::Digest("sha256:abc".to_string()),
        auth: None,
    };
    assert_eq!(img.full_ref(), "nginx@sha256:abc");
}

#[test]
fn pull_policy_parses_canonical_values() {
    assert_eq!(ImagePullPolicy::parse("Always"), ImagePullPolicy::Always);
    assert_eq!(
        ImagePullPolicy::parse("IfNotPresent"),
        ImagePullPolicy::IfNotPresent
    );
    assert_eq!(ImagePullPolicy::parse("Never"), ImagePullPolicy::Never);
}

#[test]
fn pull_policy_parses_case_insensitively() {
    assert_eq!(ImagePullPolicy::parse("always"), ImagePullPolicy::Always);
    assert_eq!(
        ImagePullPolicy::parse("ifnotpresent"),
        ImagePullPolicy::IfNotPresent
    );
    assert_eq!(ImagePullPolicy::parse("NEVER"), ImagePullPolicy::Never);
}

#[test]
fn pull_policy_unknown_falls_back_to_always() {
    assert_eq!(ImagePullPolicy::parse("Maybe"), ImagePullPolicy::Always);
    assert_eq!(ImagePullPolicy::parse(""), ImagePullPolicy::Always);
}

// Images

#[test]
fn names_and_references_are_put_together_again() {
    for image in ["nginx:1.25", "registry.example:5000/foo/bar:v1", "nginx@sha256:abc"] {
        let (name, reference) = parse_image_reference(image);
        let joined = DockerImage { name, reference, auth: None }.full_ref();
        assert_eq!(joined, image);
    }
}

#[test]
fn a_missing_image_is_told_from_other_errors() {
    assert!(matches!(daemon_error("404".to_string()), RuntimeError::ImageNotFound(_)));
    assert!(matches!(daemon_error("boom".to_string()), RuntimeError::Other(_)));
    assert_eq!(
        classify_pull_text("404", "ORIGINAL 404", "x"),
        RuntimeError::ImageNotFound("ORIGINAL 404".to_string())
    );
    assert!(matches!(
        classify_pull_error("UNAUTHORIZED", "x"),
        RuntimeError::ImagePullFailed(m) if m.contains("registry authentication failed")
    ));
}

#[test]
fn a_host_says_how_it_is_reached() {
    assert!(matches!(
        host_address("unix:///run/podman/podman.sock"),
        HostAddress::Socket(path) if path.ends_with("/run/podman/podman.sock")
    ));
    assert!(matches!(host_address("tcp://10.0.0.1:8080"), HostAddress::Http(_)));
    assert!(connect_error("unix:///x", "refused").message().contains("refused"));
    assert!(ping_error("unix:///x", "refused").message().contains("refused"));
}

#[test]
fn short_ids_have_eight_digits() {
    assert_eq!(tiny_id_of(0xbeef), "0000beef");
    assert_eq!(tiny_id_of(u32::MAX), "ffffffff");
    let id = tiny_id();
    assert_eq!(id.len(), 8);
    assert!(id.chars().all(|c| c.is_ascii_hexdigit()));
}

fn config(policy: &str) -> DeploymentConfig {
    DeploymentConfig {
        image_pull_policy: policy.to_string(),
        server: None,
        username: None,
        password: None,
        user: None,
    }
}

#[test]
fn credentials_have_to_be_complete() {
    let mut c = config("Always");
    c.server = Some("ghcr.io".to_string());
    c.username = Some("me".to_string());
    let mut d = worker_running();
    d.config = Some(c);
    assert_eq!(registry_credentials(&d.config), None);
    d.config.as_mut().unwrap().password = Some("pw".to_string());
    let image = requested_image(&d);
    assert_eq!(
        image.auth,
        Some(("ghcr.io".to_string(), "me".to_string(), "pw".to_string()))
    );
    assert_eq!(pull_tag(&image.reference), "latest");
    assert_eq!(requested_policy(&None), ImagePullPolicy::Always);
    assert_eq!(requested_policy(&Some(config("never"))), ImagePullPolicy::Never);
}

#[test]
fn image_errors_name_the_image() {
    assert_eq!(
        never_pull_error("nginx:1"),
        RuntimeError::ImageNotFound(
            "image 'nginx:1' not in local cache and image_pull_policy=Never forbids pulling"
                .to_string()
        )
    );
    assert_eq!(
        pulled_image_missing("nginx:1"),
        RuntimeError::ImageNotFound("Image nginx:1 not available after pull".to_string())
    );
}

// Creation

#[test]
fn a_creation_that_fails_removes_its_container() {
    let d = worker_running();
    let plan = plan_creation(&d, 1);
    let mut step = CreateStep::CheckMemory;
    let mut seen = vec![];
    while step != CreateStep::Finished {
        seen.push(step);
        step = next_create_step(plan, step, true);
        assert!(seen.len() < 30);
    }
    assert!(seen.contains(&CreateStep::Mount(0)));
    assert!(seen.contains(&CreateStep::Connect));
    assert_eq!(next_create_step(plan, CreateStep::Connect, false), CreateStep::Undo);
    assert_eq!(next_create_step(plan, CreateStep::Start, false), CreateStep::Undo);
    assert_eq!(next_create_step(plan, CreateStep::Undo, true), CreateStep::Failed);
    assert_eq!(next_create_step(plan, CreateStep::Create, false), CreateStep::Failed);
}

#[test]
fn never_does_not_pull() {
    let mut d = worker_running();
    d.config = Some(config("Never"));
    let plan = plan_creation(&d, 0);
    let mut step = CreateStep::CheckMemory;
    while step != CreateStep::Finished && step != CreateStep::Failed {
        assert_ne!(step, CreateStep::Pull);
        step = next_create_step(plan, step, step != CreateStep::InspectLocal);
    }
    assert_eq!(step, CreateStep::Failed);
}

#[test]
fn a_container_is_described_in_full() {
    let mut d = worker_running();
    d.command = vec!["sleep".to_string(), "1".to_string()];
    d.labels.push(("team".to_string(), "a".to_string()));
    d.environment.push(("A".to_string(), EnvValue::Plain("1".to_string())));
    d.environment.push(("B".to_string(), EnvValue::SecretRef { secret_ref: "s".to_string() }));
    d.ports.push(Port {
        published: 8080,
        target: 80,
        host_ip: None,
        protocol: Protocol::Tcp,
    });
    d.resources = Some(Resource {
        limits: Some(ResourceSpec {
            cpu: Some("500m".to_string()),
            memory: Some("64Mi".to_string()),
        }),
        requests: None,
    });
    let body = container_body(&d, vec![]);
    assert_eq!(body.image, "busybox");
    assert_eq!(body.cmd, vec!["sleep", "1"]);
    assert_eq!(body.env, vec!["A=1"]);
    assert!(body.labels.contains(&("ring_deployment".to_string(), "crash-loop".to_string())));
    assert!(body.labels.contains(&("team".to_string(), "a".to_string())));
    assert_eq!(body.nano_cpus, Some(500_000_000));
    assert_eq!(body.memory, Some(64 * 1024 * 1024));
    assert_eq!(body.exposed_ports, Some(vec!["80/tcp".to_string()]));
    let bindings = body.port_bindings.unwrap();
    assert_eq!(bindings[0].0, "80/tcp");
    assert_eq!(bindings[0].1.host_port, "8080");
    assert_eq!(exposed_ports(&port_bindings(&vec![])), None);
}

#[test]
fn host_networking_publishes_nothing() {
    let mut d = worker_running();
    d.network = Some(DeploymentNetwork { mode: NetworkMode::Host });
    assert!(uses_host_network(&d));
    let body = container_body(&d, vec![]);
    assert_eq!(body.network_mode, Some("host".to_string()));
    let plan = plan_creation(&d, 0);
    assert!(plan.host_network);
    assert_ne!(next_create_step(plan, CreateStep::Create, true), CreateStep::Connect);
}

#[test]
fn names_are_made_of_their_parts() {
    let d = worker_running();
    assert_eq!(network_name("test"), "ring_test");
    assert_eq!(instance_name(&d, "0000beef"), "test_crasher_0000beef");
    assert_eq!(network_aliases(&d, "test_crasher_1"), vec!["crasher", "test_crasher_1"]);
    assert_eq!(scratch_dir("x"), "/tmp/ring_configs/x");
    assert_eq!(scratch_file("x", 0xff), "/tmp/ring_configs/x/ff");
    let content = |text: &str| ResolvedMount::Content {
        content: text.to_string(),
        destination: "/etc/a".to_string(),
    };
    assert_eq!(mount_with_hash(&content("a"), "x", 0xff).source, "/tmp/ring_configs/x/ff");
    let file = |text: &str| create_mount_from_resolved(&content(text), "x").source;
    assert_eq!(file("a"), file("a"));
    assert_ne!(file("a"), file("b"));
    let request = named_volume_request("data", "", "test", "crasher");
    assert_eq!(request.driver, "local");
    assert!(request.labels.contains(&("ring.deployment".to_string(), "crasher".to_string())));
    assert!(named_volume_error("data", "boom").message().contains("data"));
    assert!(network_error("ring_test", "boom").message().contains("ring_test"));
    assert!(connect_network_error("boom").message().contains("boom"));
    assert!(start_error("boom").message().contains("boom"));
}

#[test]
fn a_created_container_is_recorded_and_forgotten() {
    let mut d = worker_running();
    record_created(&mut d, "c1");
    record_created(&mut d, "c2");
    assert_eq!(d.instances, vec!["c1", "c2"]);
    forget_created(&mut d);
    assert_eq!(d.instances, vec!["c1"]);
    record_image(&mut d, &Some(vec!["busybox@sha256:1".to_string()]), "busybox");
    assert_eq!(d.image_digest, Some("sha256:1".to_string()));
}

#[test]
fn create_errors_are_reported_by_kind() {
    let mut d = worker_running();
    handle_create_error(&mut d, RuntimeError::ImageNotFound("gone".to_string()), true);
    assert_eq!(d.status, DeploymentStatus::ImagePullBackOff);
    assert_eq!(d.restart_count, MAX_RESTART_COUNT);
    assert_eq!(d.pending_events[0].message, "Image 'busybox' not found: gone");

    let mut d = worker_running();
    handle_create_error(&mut d, RuntimeError::Other("boom".to_string()), true);
    assert_eq!(d.status, DeploymentStatus::Error);
    assert_eq!(d.restart_count, 1);
    handle_create_error(&mut d, RuntimeError::PortAlreadyInUse(80), false);
    assert_eq!(d.restart_count, 1);
    assert_eq!(d.pending_events[1].reason, Some("port_allocation_failed".to_string()));
}

// Workers and jobs

#[test]
fn intentional_exits_are_no_crashes() {
    let seen = vec![
        ExitedContainer { id: "a".to_string(), intentional: true, exit_code: Some(1) },
        ExitedContainer { id: "b".to_string(), intentional: false, exit_code: Some(1) },
    ];
    assert_eq!(detect_crashes(&seen), vec![("b".to_string(), Some(1))]);
}

#[test]
fn a_worker_round_creates_then_waits_then_runs() {
    let mut d = worker_running();
    d.status = DeploymentStatus::Creating;
    assert!(matches!(worker_begin(&mut d), WorkerAction::ListExited));
    assert!(matches!(worker_exits_seen(&mut d, &vec![]), WorkerAction::Create));
    record_created(&mut d, "c1");
    match worker_created(&mut d, 0) {
        WorkerAction::Inspect(id) => assert_eq!(id, "c1"),
        other => panic!("unexpected action {:?}", other),
    }
    assert_eq!(d.status, DeploymentStatus::Creating);
    worker_inspected(&mut d, &InstanceStatus::Running);
    assert_eq!(d.status, DeploymentStatus::Running);
}

#[test]
fn a_worker_with_too_many_containers_removes_one() {
    let mut d = worker_running();
    d.instances = vec!["c1".to_string(), "c2".to_string()];
    match worker_exits_seen(&mut d, &vec![]) {
        WorkerAction::Remove(id) => assert_eq!(id, "c1"),
        other => panic!("unexpected action {:?}", other),
    }
    assert_eq!(d.instances, vec!["c2"]);
}

#[test]
fn a_worker_in_a_crash_loop_stays_there() {
    let mut d = worker_running();
    d.status = DeploymentStatus::CrashLoopBackOff;
    d.restart_count = MAX_RESTART_COUNT;
    assert!(matches!(worker_begin(&mut d), WorkerAction::Done));
    assert_eq!(d.status, DeploymentStatus::CrashLoopBackOff);
}

#[test]
fn a_deleted_worker_removes_everything() {
    let mut d = worker_running();
    d.status = DeploymentStatus::Deleted;
    d.instances = vec!["c1".to_string()];
    assert_eq!(status_filter(d.status), "all");
    assert!(matches!(worker_begin(&mut d), WorkerAction::RemoveAll));
    assert_eq!(d.pending_events.len(), 1);
    remove_all_instances(&mut d, "job");
    assert!(d.pending_events[1].message.contains("job"));
}

#[test]
fn a_job_follows_its_container() {
    let mut d = worker_running();
    d.kind = "job".to_string();
    d.status = DeploymentStatus::Creating;
    assert!(is_job(&d));
    assert!(matches!(job_begin(&mut d), JobAction::FindInstance));
    job_created(&mut d);
    assert_eq!(d.status, DeploymentStatus::Running);
    let done = ContainerState { running: Some(false), exit_code: Some(0) };
    job_inspected(&mut d, check_container_status(Some(done)));
    assert_eq!(d.status, DeploymentStatus::Completed);
    assert_eq!(check_container_status(None), InstanceStatus::Failed);
    let failed = ContainerState { running: Some(false), exit_code: Some(1) };
    assert_eq!(check_container_status(Some(failed)), InstanceStatus::Failed);
}

// Listing

fn summary(id: &str, owner: Option<&str>, state: SummaryState) -> ContainerSummary {
    ContainerSummary {
        id: Some(id.to_string()),
        names: None,
        labels: owner.map(|o| vec![("ring_deployment".to_string(), o.to_string())]),
        state: Some(state),
    }
}

#[test]
fn only_own_containers_are_listed() {
    let mut named = summary("0123456789abcdef", Some("d1"), SummaryState::Running);
    named.names = Some(vec!["//web".to_string(), "/other".to_string()]);
    let all = vec![
        named,
        summary("0123456789abcdeg", Some("d1"), SummaryState::Exited),
        summary("c3", Some("d2"), SummaryState::Running),
        summary("c4", None, SummaryState::Running),
    ];
    assert_eq!(list_instances(&all, "d1", "all"), vec!["0123456789abcdef", "0123456789abcdeg"]);
    assert_eq!(list_instances(&all, "d1", "active"), vec!["0123456789abcdef"]);
    let names = list_instances_with_names(&all, "d1", "all");
    assert_eq!(names[0].1, "web");
    assert_eq!(names[1].1, "0123456789ab");
    let wanted = vec!["d1".to_string(), "d3".to_string(), "d1".to_string()];
    let groups = list_running_instances_grouped(&all, &wanted);
    assert_eq!(groups, vec![("d1".to_string(), vec!["0123456789abcdef".to_string()])]);
}

#[test]
fn instances_are_filtered_by_id_or_name() {
    let all = vec![
        ("abc".to_string(), "web-1".to_string()),
        ("xabc".to_string(), "db-1".to_string()),
    ];
    assert_eq!(filter_instances(all.clone(), None), all);
    assert_eq!(filter_instances(all.clone(), Some("abc")), vec![all[0].clone()]);
    assert_eq!(filter_instances(all.clone(), Some("db")), vec![all[1].clone()]);
    assert_eq!(filter_instances(all.clone(), Some("-1")), all);
}

// Commands

fn request(command: Vec<String>, tty: bool) -> ExecRequest {
    ExecRequest { command, tty, size: Some(TerminalSize { rows: 24, cols: 80 }) }
}

#[test]
fn exec_refuses_a_container_ring_does_not_manage() {
    let other = Inspection::Found {
        labels: Some(vec![("app".to_string(), "x".to_string())]),
        running: Some(true),
    };
    match admit_exec("c1", &other) {
        Err(ExecError::InstanceUnavailable(_)) => {}
        Err(other) => panic!("expected InstanceUnavailable, got {other:?}"),
        Ok(_) => panic!("exec entered a container Ring does not manage"),
    }
}

#[test]
fn a_running_container_of_ours_is_entered() {
    let own = Inspection::Found {
        labels: Some(vec![("ring_deployment".to_string(), "d1".to_string())]),
        running: Some(true),
    };
    let command = request(vec!["/bin/echo".to_string(), "hello".to_string()], false);
    assert_eq!(check_request(&command), Ok(()));
    assert_eq!(admit_exec("c1", &own), Ok(()));
    let chunks = map_output(vec![Ok(Frame::StdOut(b"hello\n".to_vec()))]);
    let stdout: Vec<u8> = chunks
        .into_iter()
        .filter_map(|c| match c {
            Ok(ExecOutput::Stdout(bytes)) => Some(bytes),
            _ => None,
        })
        .flatten()
        .collect();
    assert_eq!(String::from_utf8_lossy(&stdout).trim(), "hello");
    let exit = poll_exit(Some((Some(false), Some(0))), false);
    assert_eq!(exit, ExitPoll::Ended(Some(0)), "a successful command must report exit 0");
}

#[test]
fn console_frames_map_to_stdout() {
    let out = collect_ok(vec![Ok(Frame::Console(b"hello".to_vec()))]);
    assert_eq!(out, vec![ExecOutput::Stdout(b"hello".to_vec())]);
}

#[test]
fn stdout_and_stderr_stay_distinct_without_tty() {
    let out = collect_ok(vec![
        Ok(Frame::StdOut(b"out".to_vec())),
        Ok(Frame::StdErr(b"err".to_vec())),
    ]);
    assert_eq!(
        out,
        vec![
            ExecOutput::Stdout(b"out".to_vec()),
            ExecOutput::Stderr(b"err".to_vec()),
        ]
    );
}

#[test]
fn stdin_echoes_are_dropped() {
    let out = collect_ok(vec![
        Ok(Frame::StdIn(b"typed".to_vec())),
        Ok(Frame::StdOut(b"real".to_vec())),
    ]);
    assert_eq!(out, vec![ExecOutput::Stdout(b"real".to_vec())]);
}

#[test]
fn stream_error_is_surfaced_and_ends_the_session() {
    let out = map_output(vec![
        Ok(Frame::StdOut(b"before".to_vec())),
        Err("the daemon went away".to_string()),
        Ok(Frame::StdOut(b"after".to_vec())),
    ]);
    assert_eq!(out.len(), 2, "stream must stop at the error: {out:?}");
    assert_eq!(out[0], Ok(ExecOutput::Stdout(b"before".to_vec())));
    assert!(
        matches!(out[1], Err(ExecError::Failed(_))),
        "the error must reach the caller, got {:?}",
        out[1]
    );
}

fn collect_ok(chunks: Vec<Result<Frame, String>>) -> Vec<ExecOutput> {
    map_output(chunks)
        .into_iter()
        .map(|item| item.expect("unexpected stream error"))
        .collect()
}

#[test]
fn commands_are_refused_with_a_reason() {
    assert_eq!(
        check_request(&request(vec![], false)),
        Err(ExecError::Failed("empty command".to_string()))
    );
    assert_eq!(
        admit_exec("c1", &Inspection::Error("No such container: c1".to_string())),
        Err(ExecError::InstanceUnavailable("c1 does not exist".to_string()))
    );
    assert_eq!(
        admit_exec("c1", &Inspection::Error("boom".to_string())),
        Err(ExecError::Failed("could not inspect c1: boom".to_string()))
    );
    let stopped = Inspection::Found {
        labels: Some(vec![("ring_deployment".to_string(), "d1".to_string())]),
        running: None,
    };
    assert_eq!(
        admit_exec("c1", &stopped),
        Err(ExecError::InstanceUnavailable("c1 is not running".to_string()))
    );
    assert_eq!(create_exec_error("x"), ExecError::Failed("could not create exec: x".to_string()));
    assert_eq!(start_exec_error("x"), ExecError::Failed("could not start exec: x".to_string()));
    assert_eq!(detached_error(), ExecError::Failed("docker detached the exec session".to_string()));
}

#[test]
fn only_a_terminal_is_sized() {
    assert_eq!(initial_size(&request(vec![], false)), None);
    assert_eq!(
        initial_size(&request(vec![], true)),
        Some(TerminalSize { rows: 24, cols: 80 })
    );
}

#[test]
fn the_end_of_a_command_is_waited_for() {
    assert_eq!(poll_exit(Some((Some(true), None)), false), ExitPoll::Again);
    assert_eq!(poll_exit(Some((Some(true), None)), true), ExitPoll::Ended(None));
    assert_eq!(poll_exit(Some((None, Some(3))), false), ExitPoll::Ended(Some(3)));
    assert_eq!(poll_exit(None, false), ExitPoll::Ended(None));
}

// Health checks, logs and counters

#[test]
fn the_default_network_comes_first() {
    let network = |name: &str, ip: Option<&str>| NetworkAddress {
        network: name.to_string(),
        ip: ip.map(|s| s.to_string()),
    };
    let list = vec![
        network("ring_test", Some("10.0.0.2")),
        network("empty", Some("")),
        network("none", None),
        network("bridge", Some("172.17.0.2")),
    ];
    assert_eq!(container_addresses(&list), vec!["172.17.0.2", "10.0.0.2", "172.17.0.2"]);
}

#[test]
fn a_command_check_reports_how_it_ran() {
    assert_eq!(
        command_run_result(&CommandRun::Started),
        (HealthCheckStatus::Success, "Command executed successfully".to_string())
    );
    assert_eq!(
        command_run_result(&CommandRun::CreateFailed("x".to_string())),
        (HealthCheckStatus::Failed, "Failed to create exec: x".to_string())
    );
    assert_eq!(
        command_run_result(&CommandRun::StartFailed("x".to_string())),
        (HealthCheckStatus::Failed, "Failed to execute command: x".to_string())
    );
}

#[test]
fn blank_log_lines_are_dropped() {
    assert_eq!(process_log_chunk(&Frame::StdOut(b" \n".to_vec())), None);
    assert_eq!(process_log_chunk(&Frame::StdErr(b"a\nb\n".to_vec())), Some("ab".to_string()));
    assert_eq!(format_log_output(&Frame::Console(b"\xff".to_vec())), "\u{fffd}");
}

#[test]
fn counters_are_summed() {
    let net = |n: u64| RawNetwork {
        rx_bytes: Some(n),
        tx_bytes: None,
        rx_packets: Some(1),
        tx_packets: Some(2),
    };
    let total = compute_network_stats(&vec![net(10), net(5)]);
    assert_eq!((total.rx_bytes, total.tx_bytes), (15, 0));
    assert_eq!((total.rx_packets, total.tx_packets), (2, 4));
    let entry = |op: &str, value: u64| RawDiskEntry {
        op: Some(op.to_string()),
        value: Some(value),
    };
    let disk = compute_disk_io_stats(&vec![
        entry("Read", 1),
        entry("read", 2),
        entry("Write", 4),
        entry("sync", 8),
    ]);
    assert_eq!((disk.read_bytes, disk.write_bytes), (3, 4));
    let memory = compute_memory_stats(Some(RawMemory {
        usage: Some(100),
        limit: Some(400),
        cache: Some(30),
    }));
    assert_eq!((memory.usage_bytes, memory.limit_bytes), (70, 400));
    assert_eq!(compute_memory_stats(None).usage_bytes, 0);
    assert_eq!(compute_pid_stats(Some(3), None).current, 3);
    assert_eq!(restart_count_of(Some(-1)), u64::MAX);
    assert_eq!(restart_count_of(Some(7)), 7);
    assert_eq!(restart_count_of(None), 0);
    assert!(stats_error("c", "x").message().contains("Failed to get stats for c: x"));
    assert!(no_stats_error("c").message().contains("No stats returned for container c"));
}

#[test]
fn the_cpu_share_is_a_part_of_the_machine() {
    let sample = |used: u64, system: u64| RawCpu {
        total_usage: Some(used),
        system_cpu_usage: Some(system),
        online_cpus: Some(4),
    };
    assert_eq!(
        cpu_ratio_of(Some(sample(150, 1100)), Some(sample(100, 1000))),
        Ratio { numerator: 200, denominator: 100 }
    );
    let nothing = Ratio { numerator: 0, denominator: 1 };
    assert_eq!(cpu_ratio_of(Some(sample(50, 1100)), Some(sample(100, 1000))), nothing);
    assert_eq!(cpu_ratio_of(Some(sample(150, 1000)), Some(sample(100, 1000))), nothing);
    assert_eq!(cpu_ratio_of(None, Some(sample(100, 1000))), nothing);
}

#[test]
fn existing_job_container_is_inspected() {
    assert_eq!(job_filter(), "all");
    match job_listed(&vec!["a".to_string(), "b".to_string()]) {
        JobStep::Inspect(id) => assert_eq!(id, "a"),
        other => panic!("unexpected step {:?}", other),
    }
    assert!(matches!(job_listed(&vec![]), JobStep::Create));
}

#[test]
fn full_restart_counter_takes_what_is_not_counted() {
    let mut d = worker_running();
    d.restart_count = u32::MAX;
    handle_create_error(&mut d, RuntimeError::Other("x".to_string()), false);
    assert_eq!(d.restart_count, u32::MAX);
    handle_create_error(&mut d, RuntimeError::ImageNotFound("x".to_string()), true);
    assert_eq!(d.restart_count, MAX_RESTART_COUNT);
}

#[test]
fn exits_past_a_terminal_one_are_not_counted() {
    let exited = vec![
        ("a".to_string(), Some(1)),
        ("b".to_string(), Some(127)),
        ("c".to_string(), Some(1)),
    ];
    assert_eq!(count_exits(&exited), 2);
    assert_eq!(count_exits(&vec![("a".to_string(), Some(1))]), 1);
    let mut d = worker_running();
    d.restart_count = u32::MAX - 2;
    assert!(apply_unexpected_exits(&mut d, &exited));
    assert_eq!(d.restart_count, u32::MAX);
}
