//! Containers under containerd.
use base64::Engine;
use prost::encoding::{encode_key, encode_varint, WireType};
use sha2::Digest;

use ring_runtime::containerd::client::{ContainerdConfig, ContainerdLifecycle, ContainerdRuntimeConfig};
use ring_runtime::containerd::cni::{
    bridge_config, bridge_plugin, candidate_addresses, default_conflist, netns_path,
    plugin_environment, CNI_BRIDGE, CNI_NETWORK_NAME,
};
use ring_runtime::containerd::health_check::{
    address_belongs, check_words, command_check_result, exec_name, next_exec_step, parse_command,
    ExecFinding, ExecStep, ExecStepResult,
};
use ring_runtime::containerd::image::{
    authorization_header, classify_pull_error, classify_transfer_text, compute_chain_id,
    image_default_args, must_pull, normalize_repository, resolve_chain_id_and_args,
    resolve_platform_manifest, select_platform_digest, ContainerdImage, OciImageConfig,
    OciImageConfigInner, OciIndex, OciIndexEntry, OciPlatform,
};
use ring_runtime::containerd::instances::{
    is_active, label_filter, list_error, list_instances, task_status, TaskStatus,
};
use ring_runtime::containerd::lifecycle::{
    config_file, config_files, connect_failed, handle_create_error, instance_error_for, job_begin,
    job_task_seen, log_path, next_instance_step, record_image_digest, record_instance, remove_all,
    stdio_uri, teardown_netns, teardown_steps, undo_after, worker_begin, worker_created, FleetStep,
    InstancePart, InstanceStep, TeardownStep,
};
use ring_runtime::containerd::logs::{followed_line, read_logs, select_log_sources};
use ring_runtime::containerd::oci::{
    build_exec_process_spec, build_spec_value, default_capabilities, default_mounts,
};
use ring_runtime::containerd::stats::{
    counters_of, decode_cgroup_v2, decode_memory, decode_pids, metrics_filter,
};
use ring_runtime::docker::lifecycle::JobAction;
use ring_runtime::docker::ImagePullPolicy;
use ring_runtime::error::RuntimeError;
use ring_runtime::models::{
    Deployment, DeploymentStatus, EnvValue, HealthCheckStatus, ResolvedMount,
};

fn make_deployment() -> Deployment {
    Deployment {
        id: "dep-1".to_string(),
        created_at: "now".to_string(),
        updated_at: None,
        status: DeploymentStatus::Running,
        restart_count: 0,
        namespace: "default".to_string(),
        name: "web".to_string(),
        image: "nginx:latest".to_string(),
        config: None,
        runtime: "containerd".to_string(),
        kind: "worker".to_string(),
        replicas: 1,
        command: vec![
            "nginx".to_string(),
            "-g".to_string(),
            "daemon off;".to_string(),
        ],
        instances: vec![],
        labels: vec![],
        environment: vec![],
        volumes: "[]".to_string(),
        health_checks: vec![],
        resources: None,
        image_digest: None,
        ports: vec![],
        pending_events: vec![],
        parent_id: None,
        network: None,
    }
}

fn entry(digest: &str, os: Option<&str>, arch: Option<&str>) -> OciIndexEntry {
    OciIndexEntry {
        digest: digest.to_string(),
        platform: match (os, arch) {
            (Some(os), Some(arch)) => Some(OciPlatform {
                os: os.to_string(),
                architecture: arch.to_string(),
            }),
            _ => None,
        },
    }
}

fn encode_pids(current: u64, limit: u64) -> Vec<u8> {
    let mut b = Vec::new();
    encode_key(1, WireType::Varint, &mut b);
    encode_varint(current, &mut b);
    encode_key(2, WireType::Varint, &mut b);
    encode_varint(limit, &mut b);
    b
}

#[test]
fn chain_id_single_layer_is_diff_id() {
    let ids = vec!["sha256:aaaa".to_string()];
    assert_eq!(compute_chain_id(&ids), "sha256:aaaa");
}

#[test]
fn chain_id_multi_layer_iterates() {
    let ids = vec!["sha256:aaaa".to_string(), "sha256:bbbb".to_string()];
    let chain = compute_chain_id(&ids);
    assert!(chain.starts_with("sha256:"));
    assert_ne!(chain, "sha256:aaaa");
    assert_eq!(chain, compute_chain_id(&ids));
}

#[test]
fn image_reference_tag_canonicalized() {
    let img = ContainerdImage::from_deployment("nginx", None);
    assert_eq!(img.reference, "docker.io/library/nginx:latest");
}

#[test]
fn image_reference_with_tag_canonicalized() {
    let img = ContainerdImage::from_deployment("nginx:1.25-alpine", None);
    assert_eq!(img.reference, "docker.io/library/nginx:1.25-alpine");
}

#[test]
fn image_reference_digest_canonicalized() {
    let img = ContainerdImage::from_deployment("nginx@sha256:abc", None);
    assert_eq!(img.reference, "docker.io/library/nginx@sha256:abc");
}

#[test]
fn select_platform_picks_matching_arch() {
    let index = OciIndex {
        manifests: vec![
            entry("sha256:arm64", Some("linux"), Some("arm64")),
            entry("sha256:amd64", Some("linux"), Some("amd64")),
        ],
    };
    assert_eq!(
        select_platform_digest(&index, "amd64"),
        Some("sha256:amd64".to_string())
    );
    assert_eq!(
        select_platform_digest(&index, "arm64"),
        Some("sha256:arm64".to_string())
    );
}

#[test]
fn select_platform_falls_back_to_platformless_entry() {
    let index = OciIndex {
        manifests: vec![entry("sha256:plain", None, None)],
    };
    assert_eq!(
        select_platform_digest(&index, "amd64"),
        Some("sha256:plain".to_string())
    );
}

#[test]
fn select_platform_none_when_no_match() {
    let index = OciIndex {
        manifests: vec![entry("sha256:arm64", Some("linux"), Some("arm64"))],
    };
    assert_eq!(select_platform_digest(&index, "amd64"), None);
}

#[test]
fn image_default_args_concatenates_entrypoint_and_cmd() {
    let cfg = OciImageConfigInner {
        entrypoint: Some(vec!["/docker-entrypoint.sh".to_string()]),
        cmd: Some(vec!["nginx".to_string(), "-g".to_string()]),
    };
    assert_eq!(
        image_default_args(&cfg),
        vec!["/docker-entrypoint.sh", "nginx", "-g"]
    );
}

#[test]
fn image_default_args_cmd_only() {
    let cfg = OciImageConfigInner {
        entrypoint: None,
        cmd: Some(vec!["/bin/sh".to_string()]),
    };
    assert_eq!(image_default_args(&cfg), vec!["/bin/sh"]);
}

#[test]
fn image_default_args_empty_when_neither() {
    let cfg = OciImageConfigInner {
        entrypoint: None,
        cmd: None,
    };
    assert!(image_default_args(&cfg).is_empty());
}

#[test]
fn select_platform_ignores_non_linux_os() {
    let index = OciIndex {
        manifests: vec![
            entry("sha256:win", Some("windows"), Some("amd64")),
            entry("sha256:lin", Some("linux"), Some("amd64")),
        ],
    };
    assert_eq!(
        select_platform_digest(&index, "amd64"),
        Some("sha256:lin".to_string())
    );
}

#[test]
fn normalize_official_image_gets_library_namespace() {
    assert_eq!(normalize_repository("nginx"), "docker.io/library/nginx");
}

#[test]
fn normalize_hub_user_image_gets_docker_io() {
    assert_eq!(
        normalize_repository("bitnami/redis"),
        "docker.io/bitnami/redis"
    );
}

#[test]
fn normalize_explicit_registry_is_untouched() {
    assert_eq!(
        normalize_repository("ghcr.io/owner/proj"),
        "ghcr.io/owner/proj"
    );
    assert_eq!(
        normalize_repository("registry.example.com/team/app"),
        "registry.example.com/team/app"
    );
}

#[test]
fn normalize_registry_with_port_is_untouched() {
    assert_eq!(
        normalize_repository("localhost:5000/app"),
        "localhost:5000/app"
    );
    assert_eq!(normalize_repository("localhost/app"), "localhost/app");
}

#[test]
fn decode_pids_roundtrip() {
    let bytes = encode_pids(7, 100);
    assert_eq!(decode_pids(&bytes), (7, 100));
}

#[test]
fn decode_top_level_pids_and_memory() {
    let pids = encode_pids(3, 50);
    let mut mem = Vec::new();
    encode_key(32, WireType::Varint, &mut mem);
    encode_varint(2048, &mut mem);
    encode_key(33, WireType::Varint, &mut mem);
    encode_varint(4096, &mut mem);

    let mut top = Vec::new();
    encode_key(1, WireType::LengthDelimited, &mut top);
    encode_varint(pids.len() as u64, &mut top);
    top.extend_from_slice(&pids);
    encode_key(4, WireType::LengthDelimited, &mut top);
    encode_varint(mem.len() as u64, &mut top);
    top.extend_from_slice(&mem);

    let (mu, ml, pc, pl) = decode_cgroup_v2(&top);
    assert_eq!((mu, ml, pc, pl), (2048, 4096, 3, 50));
}

#[test]
fn decode_empty_is_zeros() {
    assert_eq!(decode_cgroup_v2(&[]), (0, 0, 0, 0));
}

#[test]
fn default_conflist_is_valid_json_with_bridge() {
    let conf: serde_json::Value = serde_json::from_str(&default_conflist()).unwrap();
    assert_eq!(conf["name"], CNI_NETWORK_NAME);
    let plugins = conf["plugins"].as_array().unwrap();
    assert_eq!(plugins[0]["type"], "bridge");
    assert_eq!(plugins[0]["bridge"], CNI_BRIDGE);
}

#[test]
fn spec_includes_command_args() {
    let mut d = make_deployment();
    d.environment.push(("FOO".to_string(), EnvValue::Plain("bar".to_string())));
    let spec = build_spec_value(&d, &vec![], &vec![], &vec![]);
    assert_eq!(spec.process.args.as_ref().unwrap()[0], "nginx");
    let env = &spec.process.env;
    assert!(env.iter().any(|e| e == "FOO=bar"));
}

#[test]
fn spec_falls_back_to_image_default_args_when_command_empty() {
    let mut d = make_deployment();
    d.command.clear();
    let image_args = vec!["/docker-entrypoint.sh".to_string(), "nginx".to_string()];
    let spec = build_spec_value(&d, &vec![], &vec![], &image_args);
    assert_eq!(spec.process.args.as_ref().unwrap()[0], "/docker-entrypoint.sh");
    assert_eq!(spec.process.args.as_ref().unwrap()[1], "nginx");
}

#[test]
fn spec_command_overrides_image_default_args() {
    let d = make_deployment();
    let image_args = vec!["/docker-entrypoint.sh".to_string()];
    let spec = build_spec_value(&d, &vec![], &vec![], &image_args);
    assert_eq!(spec.process.args.as_ref().unwrap()[0], "nginx");
}

#[test]
fn spec_omits_args_when_no_command_and_no_image_default() {
    let mut d = make_deployment();
    d.command.clear();
    let spec = build_spec_value(&d, &vec![], &vec![], &vec![]);
    assert!(spec.process.args.is_none());
}

#[test]
fn spec_has_network_namespace() {
    let d = make_deployment();
    let spec = build_spec_value(&d, &vec![], &vec![], &vec![]);
    let namespaces = &spec.namespaces;
    assert!(namespaces.iter().any(|n| n == "network"));
}

#[test]
fn spec_binds_resolved_mounts() {
    let d = make_deployment();
    let mounts = vec![ResolvedMount::Bind {
        source: "/host/data".to_string(),
        destination: "/data".to_string(),
        read_only: true,
    }];
    let spec = build_spec_value(&d, &mounts, &vec![], &vec![]);
    let m = &spec.mounts;
    assert!(
        m.iter()
            .any(|x| x.destination == "/data" && x.source == "/host/data")
    );
}

// Images

#[test]
fn layers_are_chained_by_their_digests() {
    let ids = vec![
        "sha256:aaaa".to_string(),
        "sha256:bbbb".to_string(),
        "sha256:cccc".to_string(),
    ];
    let two = format!("sha256:{}", hex::encode(sha2::Sha256::digest(b"sha256:aaaa sha256:bbbb")));
    assert_eq!(compute_chain_id(&ids[..2]), two);
    let three = format!(
        "sha256:{}",
        hex::encode(sha2::Sha256::digest(format!("{} sha256:cccc", two).as_bytes()))
    );
    assert_eq!(compute_chain_id(&ids), three);
}

#[test]
fn an_image_without_layers_is_an_error() {
    let mut config = OciImageConfig {
        diff_ids: vec![],
        config: OciImageConfigInner { entrypoint: None, cmd: Some(vec!["sh".to_string()]) },
    };
    assert!(resolve_chain_id_and_args(&config).is_err());
    config.diff_ids.push("sha256:aaaa".to_string());
    assert_eq!(
        resolve_chain_id_and_args(&config).unwrap(),
        ("sha256:aaaa".to_string(), vec!["sh".to_string()])
    );
}

#[test]
fn an_index_has_to_hold_the_platform() {
    assert_eq!(resolve_platform_manifest("sha256:m", &None, "amd64").unwrap(), "sha256:m");
    let index = OciIndex { manifests: vec![entry("sha256:a", Some("linux"), Some("arm64"))] };
    assert!(resolve_platform_manifest("sha256:m", &Some(index), "amd64").is_err());
}

#[test]
fn the_policy_decides_whether_to_pull() {
    let tag = ContainerdImage::from_deployment("nginx:1", None);
    let digest = ContainerdImage::from_deployment("nginx@sha256:abc", None);
    assert!(must_pull(&tag, ImagePullPolicy::Always, true).unwrap());
    assert!(!must_pull(&digest, ImagePullPolicy::Always, true).unwrap());
    assert!(must_pull(&digest, ImagePullPolicy::Always, false).unwrap());
    assert!(!must_pull(&tag, ImagePullPolicy::IfNotPresent, true).unwrap());
    assert!(!must_pull(&tag, ImagePullPolicy::Never, true).unwrap());
    assert!(must_pull(&tag, ImagePullPolicy::Never, false).is_err());
}

#[test]
fn credentials_are_encoded_for_the_registry() {
    let auth = Some(("ghcr.io".to_string(), "me".to_string(), "pw".to_string()));
    let encoded = base64::engine::general_purpose::STANDARD.encode("me:pw");
    assert_eq!(authorization_header(&auth), Some(format!("Basic {}", encoded)));
    assert_eq!(authorization_header(&None), None);
}

#[test]
fn transfer_errors_are_told_apart() {
    assert!(matches!(classify_pull_error("NOT FOUND", "x"), RuntimeError::ImageNotFound(_)));
    assert!(matches!(classify_pull_error("boom", "x"), RuntimeError::ImagePullFailed(_)));
    assert!(matches!(
        classify_transfer_text("not found", "NOT FOUND", "x"),
        RuntimeError::ImageNotFound(_)
    ));
}

// Networks

#[test]
fn networks_are_configured_and_attached() {
    let bridge: serde_json::Value = serde_json::from_str(&bridge_config()).unwrap();
    assert_eq!(bridge.to_string(), bridge_config());
    let list: serde_json::Value = serde_json::from_str(&default_conflist()).unwrap();
    assert_eq!(list.to_string(), default_conflist());
    assert_eq!(bridge["type"], "bridge");
    let env = plugin_environment("ADD", "c1", "/proc/7/ns/net");
    assert!(env.contains(&("CNI_COMMAND".to_string(), "ADD".to_string())));
    assert!(env.contains(&("CNI_CONTAINERID".to_string(), "c1".to_string())));
    assert!(env.contains(&("CNI_NETNS".to_string(), "/proc/7/ns/net".to_string())));
    assert_eq!(netns_path(7), "/proc/7/ns/net");
    assert_eq!(bridge_plugin(), "/opt/cni/bin/bridge");
    assert_eq!(
        candidate_addresses(&vec!["10.43.0.5/16".to_string(), "10.43.0.6".to_string()]),
        vec!["10.43.0.5"]
    );
}

// Instances

#[test]
fn tasks_decide_what_is_active() {
    assert_eq!(task_status(2), Some(TaskStatus::Running));
    assert_eq!(task_status(99), None);
    assert!(is_active(2));
    assert!(!is_active(3));
    assert!(!is_active(1));
    assert!(!is_active(4));
    assert!(!is_active(5));
    let ids = vec!["a".to_string(), "b".to_string(), "c".to_string()];
    let tasks = vec![("a".to_string(), 2), ("b".to_string(), 3)];
    assert_eq!(list_instances(&ids, &tasks, "all"), ids);
    assert_eq!(list_instances(&ids, &tasks, "active"), vec!["a"]);
    assert!(label_filter("dep-1").contains("dep-1"));
    assert!(list_error("boom").message().contains("boom"));
}

#[test]
fn a_creation_is_undone_from_the_end() {
    let mut step = InstanceStep::CheckMemory;
    let mut seen = vec![];
    while step != InstanceStep::Created {
        seen.push(step);
        step = next_instance_step(step, true);
        assert!(seen.len() < 20);
    }
    for step in seen {
        let after = next_instance_step(step, false);
        if step == InstanceStep::AttachNetwork {
            assert_eq!(after, InstanceStep::StartTask);
        } else {
            assert_eq!(after, InstanceStep::Failed);
        }
    }
    assert!(undo_after(InstanceStep::CheckMemory).is_empty());
    let undo = undo_after(InstanceStep::StartTask);
    assert!(undo.contains(&InstancePart::Task));
    assert!(undo.contains(&InstancePart::Container));
    assert_eq!(undo.last(), Some(&InstancePart::Snapshot));
    assert!(instance_error_for(InstanceStep::StartTask, "c1", "boom").message().contains("boom"));
}

#[test]
fn a_teardown_asks_before_it_kills() {
    let steps = teardown_steps();
    let ask = steps.iter().position(|s| *s == TeardownStep::Signal(15)).unwrap();
    let kill = steps.iter().position(|s| *s == TeardownStep::Signal(9)).unwrap();
    let delete = steps.iter().position(|s| *s == TeardownStep::DeleteTask).unwrap();
    assert!(ask < kill && kill < delete);
    assert_eq!(teardown_netns(Some(7)), "/proc/7/ns/net");
}

#[test]
fn a_worker_is_scaled_by_one() {
    let mut d = make_deployment();
    d.status = DeploymentStatus::Creating;
    assert!(matches!(worker_begin(&mut d), FleetStep::Create));
    record_instance(&mut d, "c1".to_string());
    worker_created(&mut d, 0);
    assert_eq!(d.status, DeploymentStatus::Running);
    d.replicas = 0;
    match worker_begin(&mut d) {
        FleetStep::Remove(id) => assert_eq!(id, "c1"),
        other => panic!("unexpected step {:?}", other),
    }
    d.status = DeploymentStatus::Deleted;
    assert!(matches!(worker_begin(&mut d), FleetStep::RemoveAll));
    d.instances = vec!["c1".to_string()];
    let before = d.pending_events.len();
    remove_all(&mut d, "worker");
    assert_eq!(d.pending_events.len(), before + 1);
    assert_eq!(
        d.pending_events[before].message,
        "Deleted 1 instance(s) for worker marked as deleted"
    );
}

#[test]
fn a_job_follows_its_task() {
    let mut d = make_deployment();
    d.kind = "job".to_string();
    d.status = DeploymentStatus::Running;
    assert!(matches!(job_begin(&mut d), JobAction::FindInstance));
    job_task_seen(&mut d, Some(TaskStatus::Stopped), Some(0));
    assert_eq!(d.status, DeploymentStatus::Completed);
    let mut d = make_deployment();
    job_task_seen(&mut d, Some(TaskStatus::Stopped), Some(1));
    assert_eq!(d.status, DeploymentStatus::Failed);
}

#[test]
fn errors_are_reported_by_kind() {
    let mut d = make_deployment();
    handle_create_error(&mut d, RuntimeError::ImageNotFound("x".to_string()), true);
    assert_eq!(d.status, DeploymentStatus::ImagePullBackOff);
    assert_eq!(d.restart_count, 1);
    let mut d = make_deployment();
    connect_failed(&mut d, &RuntimeError::Other("no socket".to_string()));
    assert_eq!(d.status, DeploymentStatus::Error);
    record_image_digest(&mut d, "sha256:1".to_string());
    assert_eq!(d.image_digest, Some("sha256:1".to_string()));
}

#[test]
fn equal_contents_share_a_file() {
    let mount = |content: &str, destination: &str| ResolvedMount::Content {
        content: content.to_string(),
        destination: destination.to_string(),
    };
    let files = config_files("dep-1", &vec![mount("a=1", "/etc/a"), mount("a=2", "/etc/b")]);
    assert_eq!(files.len(), 2);
    assert_eq!(config_file("dep-1", "a=1"), config_file("dep-1", "a=1"));
    assert_ne!(config_file("dep-1", "a=1"), config_file("dep-1", "a=2"));
    assert!(stdio_uri("c1").contains(&log_path("c1")));
}

// Processes and health checks

#[test]
fn a_command_is_split_like_a_shell_does() {
    assert_eq!(parse_command("sh -c 'exit 1'").unwrap(), vec!["sh", "-c", "exit 1"]);
    assert_eq!(parse_command("").unwrap_err(), "Empty command");
    assert!(parse_command("sh 'unclosed").unwrap_err().starts_with("Invalid command syntax"));
    assert_eq!(check_words(Ok(vec![])).unwrap_err(), "Empty command");
    let process = build_exec_process_spec(vec!["true".to_string()]);
    assert_eq!(process.args, Some(vec!["true".to_string()]));
}

#[test]
fn a_check_ends_in_an_answer_and_is_cleaned_up() {
    let mut step = ExecStep::CheckRunning;
    for _ in 0..4 {
        step = next_exec_step(step, ExecStepResult::Success);
    }
    assert_eq!(step, ExecStep::Cleanup);
    assert_eq!(next_exec_step(ExecStep::Wait, ExecStepResult::TimedOut), ExecStep::Kill);
    assert_eq!(next_exec_step(ExecStep::Kill, ExecStepResult::Success), ExecStep::Cleanup);
    assert_eq!(next_exec_step(ExecStep::StartExec, ExecStepResult::Failure), ExecStep::Cleanup);
    assert_eq!(command_check_result(&ExecFinding::Exited(0)).0, HealthCheckStatus::Success);
    assert_eq!(command_check_result(&ExecFinding::Exited(1)).0, HealthCheckStatus::Failed);
    assert_eq!(command_check_result(&ExecFinding::NotRunning).0, HealthCheckStatus::Failed);
    assert_ne!(command_check_result(&ExecFinding::TimedOut).0, HealthCheckStatus::Success);
    assert!(exec_name("0000beef").ends_with("0000beef"));
    assert!(address_belongs("c1\neth0", "c1"));
    assert!(!address_belongs("c12\neth0", "c1"));
}

#[test]
fn a_container_has_the_usual_file_systems() {
    let mounts = default_mounts();
    assert!(mounts.iter().any(|m| m.destination == "/proc" && m.kind == "proc"));
    let spec = build_spec_value(&make_deployment(), &vec![], &vec![], &vec![]);
    assert!(spec.process.no_new_privileges);
    assert!(spec.masked_paths.contains(&"/proc/kcore".to_string()));
}

// Logs and counters

#[test]
fn logs_are_read_from_the_end() {
    assert_eq!(read_logs("a\nb\nc\n", Some("2")), vec!["b", "c"]);
    assert_eq!(followed_line("x\n"), Some("x".to_string()));
    let all = vec![
        ("c1".to_string(), "web".to_string()),
        ("c2".to_string(), "db".to_string()),
    ];
    assert_eq!(select_log_sources(all.clone(), Some("eb")), vec![all[0].clone()]);
    assert_eq!(select_log_sources(all.clone(), Some("2")), vec![all[1].clone()]);
    assert_eq!(select_log_sources(all.clone(), None), all);
}

#[test]
fn unknown_fields_are_skipped() {
    let mut b = Vec::new();
    encode_key(9, WireType::SixtyFourBit, &mut b);
    b.extend_from_slice(&[0; 8]);
    encode_key(10, WireType::LengthDelimited, &mut b);
    encode_varint(3, &mut b);
    b.extend_from_slice(b"abc");
    b.extend_from_slice(&encode_pids(300, 100_000));
    assert_eq!(decode_pids(&b), (300, 100_000));
    assert_eq!(decode_pids(&[0xff]), (0, 0));
    let mut m = Vec::new();
    encode_key(32, WireType::Varint, &mut m);
    encode_varint(u64::MAX, &mut m);
    assert_eq!(decode_memory(&m), (u64::MAX, 0));
    let counters = counters_of(&[]);
    assert_eq!(counters.memory.usage_bytes, 0);
    assert_eq!(counters.network.rx_bytes, 0);
    assert_eq!(metrics_filter("c1"), "id==c1");
}

#[test]
fn a_connection_error_names_the_socket() {
    let user = ContainerdConfig {
        socket: "/run/containerd/containerd.sock".to_string(),
        namespace: "ring".to_string(),
        use_host_registry_auth: true,
        host_registry_config: Some("/root/auth.json".to_string()),
    };
    let config = ContainerdRuntimeConfig::from_user_config(&user);
    assert!(config.host_auth.authorized);
    assert_eq!(config.host_auth.config_path, Some("/root/auth.json".to_string()));
    let lifecycle = ContainerdLifecycle::new(config);
    assert!(lifecycle.connect_error("refused").message().contains("containerd.sock"));
    assert!(lifecycle.version_error("refused").message().contains("refused"));
}

#[test]
fn capabilities_fill_three_sets() {
    let caps = default_capabilities();
    assert_eq!(caps.bounding.len(), 14);
    assert_eq!(caps.bounding[0], "CAP_CHOWN");
    assert_eq!(caps.bounding[13], "CAP_AUDIT_WRITE");
    assert_eq!(caps.effective, caps.bounding);
    assert_eq!(caps.permitted, caps.bounding);
    let process = build_exec_process_spec(vec!["true".to_string()]);
    assert_eq!(process.capabilities.effective, caps.bounding);
}

#[test]
fn failure_that_is_not_counted_leaves_a_full_counter() {
    let mut d = make_deployment();
    d.restart_count = u32::MAX;
    handle_create_error(&mut d, RuntimeError::Other("x".to_string()), false);
    assert_eq!(d.restart_count, u32::MAX);
}
