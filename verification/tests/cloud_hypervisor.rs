//! VMs under Cloud Hypervisor.
use base64::Engine;

use ring_runtime::classifier::{classify_vm_start_error, apply_vm_start_failure};
use ring_runtime::cloud_hypervisor::client::CloudHypervisorClient;
use ring_runtime::cloud_hypervisor::cloud_init::{
    base64_encode, iso_arguments, iso_tool_failed, iso_tool_missing, render_meta_data,
    render_user_data, resolved_environment, shell_quote, GuestMount,
};
use ring_runtime::cloud_hypervisor::image::{
    command_failed, command_not_run, created_container, mount_dir, next_rootfs_step, rootfs_command,
    rootfs_path, safe_name, tar_path, RootfsNames, RootfsStep,
};
use ring_runtime::cloud_hypervisor::lifecycle::{
    accepts_state, instance_of_file, instance_of_socket, orphaned_instances, scan_instances,
    SocketFile, CloudHypervisorConfig,
    CloudHypervisorLifecycle, CloudHypervisorRuntimeConfig,
};
use ring_runtime::cloud_hypervisor::network::{build_net_config, default_net};
use ring_runtime::cloud_hypervisor::reconcile::{
    all_stopped, instance_artifacts, job_begin, job_scanned, job_start_failed, job_started,
    begin_tick, job_state_known, listed_states, probe_command, stale_backups, worker_states, VmTick, probe_failed, probe_outcome, read_job_state,
    worker_found, worker_start_failed, worker_started, AgentReply, JobVmState, VmJobAction,
    VmWorkerAction,
};
use ring_runtime::cloud_hypervisor::runtime_impl::{
    console_logs, http_result, plan_health_check, tcp_result, CloudHypervisorRuntime, TcpOutcome,
    VmProbe,
};
use ring_runtime::cloud_hypervisor::shares::{
    fs_configs, guest_mounts, helper_missing, prepare_virtiofs_mounts, SharePreparation,
};
use ring_runtime::cloud_hypervisor::start::{
    copy_arguments, mib_to_bytes, needs_cidata, needs_vsock, next_start_step, parse_resources,
    plan_start, port_host_ip, start_error_for, vm_config, vmm_arguments, StartStep,
};
use ring_runtime::cloud_hypervisor::stats::{
    cpu_ratio, empty_disk_io, empty_network, empty_pids, parse_proc_stat, parse_vm_rss_bytes,
    stat_path, status_path, ticks_between, CpuSample,
};
use ring_runtime::api_client::Method;
use ring_runtime::error::RuntimeError;
use ring_runtime::models::{
    Deployment, DeploymentStatus, EnvValue, FailureAction, HealthCheck, HealthCheckStatus, Port,
    Protocol, ResolvedMount, Resource, ResourceSpec, MAX_RESTART_COUNT,
};
use ring_runtime::stats::{memory_stats, Ratio};

fn deployment(kind: &str, status: DeploymentStatus) -> Deployment {
    Deployment {
        id: "job1234-5678".to_string(),
        created_at: String::new(),
        updated_at: None,
        status,
        restart_count: 0,
        namespace: "default".to_string(),
        name: "job".to_string(),
        image: "/tmp/does-not-exist.img".to_string(),
        config: None,
        runtime: "cloud-hypervisor".to_string(),
        kind: kind.to_string(),
        replicas: 1,
        command: vec![],
        instances: vec![],
        labels: vec![],
        environment: vec![],
        volumes: "[]".to_string(),
        health_checks: vec![],
        resources: None,
        image_digest: None,
        ports: vec![],
        pending_events: vec![],
        parent_id: None,
        network: None,
    }
}

fn lifecycle() -> CloudHypervisorLifecycle {
    CloudHypervisorLifecycle::new(CloudHypervisorRuntimeConfig {
        binary_path: "cloud-hypervisor".to_string(),
        firmware_path: "/tmp/fake-fw".to_string(),
        socket_dir: "/run/ring".to_string(),
        seccomp: None,
        max_console_log_bytes: 10 * 1024 * 1024,
        max_console_log_backups: 3,
    })
}

fn percent(r: Ratio) -> f64 {
    r.numerator as f64 / r.denominator as f64 * 100.0
}

// Cloud-init

#[test]
fn shell_quote_plain() {
    assert_eq!(shell_quote("simple"), "'simple'");
}

#[test]
fn shell_quote_with_quote() {
    assert_eq!(shell_quote("it's"), "'it'\\''s'");
}

#[test]
fn base64_known_vectors() {
    assert_eq!(base64_encode(""), "");
    assert_eq!(base64_encode("f"), "Zg==");
    assert_eq!(base64_encode("fo"), "Zm8=");
    assert_eq!(base64_encode("foo"), "Zm9v");
    assert_eq!(base64_encode("foob"), "Zm9vYg==");
    assert_eq!(base64_encode("fooba"), "Zm9vYmE=");
    assert_eq!(base64_encode("foobar"), "Zm9vYmFy");
}

#[test]
fn user_data_contains_b64_env_payload() {
    let envs = vec![("FOO".to_string(), "bar".to_string())];
    let yaml = render_user_data(&envs, &vec![]);
    assert!(yaml.starts_with("#cloud-config"));
    assert!(yaml.contains("/etc/ring/env"));
    assert!(!yaml.contains("EnvironmentFile=-/etc/ring/env"));
    let expected = base64_encode("FOO='bar'\n");
    assert!(yaml.contains(&expected), "payload not in yaml: {}", yaml);
}

#[test]
fn user_data_emits_mounts_and_runcmd_for_virtiofs() {
    let mounts = vec![
        GuestMount {
            tag: "bind-0".to_string(),
            destination: "/data".to_string(),
            read_only: false,
        },
        GuestMount {
            tag: "cfg-1".to_string(),
            destination: "/etc/app".to_string(),
            read_only: true,
        },
    ];
    let yaml = render_user_data(&vec![], &mounts);
    assert!(yaml.contains("mounts:"));
    assert!(yaml.contains("\"bind-0\", \"/data\", \"virtiofs\", \"defaults\""));
    assert!(yaml.contains("\"cfg-1\", \"/etc/app\", \"virtiofs\", \"ro\""));
    assert!(yaml.contains("[mkdir, -p, \"/data\"]"));
    assert!(yaml.contains("[mount, -t, virtiofs, -o, \"defaults\", \"bind-0\", \"/data\"]"));
    assert!(yaml.contains("[mount, -t, virtiofs, -o, \"ro\", \"cfg-1\", \"/etc/app\"]"));
}

#[test]
fn user_data_is_written_as_cloud_init_reads_it() {
    let envs = vec![("FOO".to_string(), "it's".to_string())];
    let mounts = vec![GuestMount {
        tag: "bind-0".to_string(),
        destination: "/data".to_string(),
        read_only: true,
    }];
    let b64 = |text: &str| base64::engine::general_purpose::STANDARD.encode(text);
    let expected = format!(
        "#cloud-config
write_files:
  - path: /etc/ring/env
    permissions: '0600'
    encoding: b64
    content: {}
  - path: /etc/profile.d/ring-env.sh
    permissions: '0644'
    encoding: b64
    content: {}
  - path: /etc/systemd/system/service.d/ring-env.conf
    permissions: '0644'
    encoding: b64
    content: {}
mounts:
  - [\"bind-0\", \"/data\", \"virtiofs\", \"ro\", \"0\", \"0\"]
runcmd:
  - [systemctl, daemon-reload]
  - [mkdir, -p, \"/data\"]
  - [mount, -t, virtiofs, -o, \"ro\", \"bind-0\", \"/data\"]
",
        b64("FOO='it'\\''s'\n"),
        b64("# Auto-generated by Ring — do not edit.\nexport FOO='it'\\''s'\n"),
        b64("[Service]\nEnvironmentFile=-/etc/ring/env\n"),
    );
    assert_eq!(render_user_data(&envs, &mounts), expected);
}

#[test]
fn user_data_omits_mounts_block_when_empty() {
    let yaml = render_user_data(&vec![], &vec![]);
    assert!(!yaml.contains("mounts:"));
    assert!(!yaml.contains("virtiofs"));
}

#[test]
fn meta_data_includes_instance_id() {
    let md = render_meta_data("ch-deadbeef");
    assert!(md.contains("instance-id: ch-deadbeef"));
    assert!(md.contains("local-hostname: ch-deadbeef"));
}

#[test]
fn cidata_images_are_labelled_for_cloud_init() {
    let args = iso_arguments("/run/ring/x.cidata.iso", "/run/ring/x.cidata");
    let volid = args.iter().position(|a| a == "-volid").expect("a volume label is given");
    assert_eq!(args[volid + 1].to_uppercase(), "CIDATA");
    assert!(args.contains(&"/run/ring/x.cidata.iso".to_string()));
    assert_eq!(args.last().unwrap(), "/run/ring/x.cidata");
}

#[test]
fn cloud_init_errors_name_the_tool() {
    assert!(iso_tool_missing("no such file").message().contains("no such file"));
    assert!(iso_tool_failed(b"bad option").message().contains("bad option"));
}

#[test]
fn a_secret_that_was_not_resolved_stops_the_environment() {
    let plain = vec![("A".to_string(), EnvValue::Plain("1".to_string()))];
    assert_eq!(
        resolved_environment(&plain).unwrap(),
        vec![("A".to_string(), "1".to_string())]
    );
    let secret =
        vec![("A".to_string(), EnvValue::SecretRef { secret_ref: "vault".to_string() })];
    assert!(resolved_environment(&secret).is_err());
}

// Resources and names

#[test]
fn parse_resources_defaults() {
    let d = deployment("worker", DeploymentStatus::Creating);
    let (vcpus, memory_mb) = parse_resources(&d);
    assert_eq!(vcpus, 1);
    assert_eq!(memory_mb, 256);
}

#[test]
fn parse_resources_with_limits() {
    let mut d = deployment("worker", DeploymentStatus::Creating);
    d.resources = Some(Resource {
        limits: Some(ResourceSpec {
            cpu: Some("2".to_string()),
            memory: Some("512Mi".to_string()),
        }),
        requests: None,
    });
    let (vcpus, memory_mb) = parse_resources(&d);
    assert_eq!(vcpus, 2);
    assert_eq!(memory_mb, 512);
}

#[test]
fn deployment_prefix_format() {
    assert_eq!(
        CloudHypervisorLifecycle::deployment_prefix("abcdef12-3456-7890"),
        "ch-abcdef12-"
    );
}

#[test]
fn instances_are_found_by_their_files() {
    let prefix = CloudHypervisorLifecycle::deployment_prefix("abcdef12-3456-7890");
    assert_eq!(
        instance_of_socket("ch-abcdef12-01.sock", &prefix),
        Some("ch-abcdef12-01".to_string())
    );
    assert_eq!(instance_of_socket("ch-99999999-01.sock", &prefix), None);
    assert_eq!(instance_of_socket("ch-abcdef12-01.raw", &prefix), None);
    assert_eq!(instance_of_file("no-suffix"), None);
}

#[test]
fn leftover_files_name_their_instances_once() {
    let names = vec![
        "ch-abcdef12-a.raw".to_string(),
        "ch-abcdef12-b.raw".to_string(),
        "ch-abcdef12-b.console.log.2".to_string(),
        "ch-abcdef12-c.cidata.iso".to_string(),
        "ch-abcdef12-d.txt".to_string(),
        "ch-99999999-other.raw".to_string(),
    ];
    assert_eq!(
        orphaned_instances(&names, "abcdef12-3456-7890"),
        vec!["ch-abcdef12-a", "ch-abcdef12-b", "ch-abcdef12-c"]
    );
}

#[test]
fn an_empty_list_of_states_accepts_every_state() {
    assert!(accepts_state(&vec![], &Some("Shutdown".to_string())));
    assert!(accepts_state(&vec!["Running".to_string()], &Some("Running".to_string())));
    assert!(!accepts_state(&vec!["Running".to_string()], &Some("Shutdown".to_string())));
}

#[test]
fn paths_are_named_after_the_instance() {
    let lc = lifecycle();
    assert_eq!(lc.socket_path("ch-1"), "/run/ring/ch-1.sock");
    assert_eq!(lc.instance_image_path("ch-1"), "/run/ring/ch-1.raw");
    assert_eq!(lc.console_log_path("ch-1"), "/run/ring/ch-1.console.log");
    assert_eq!(lc.named_volume_dir("team-a", "pgdata"), "/run/ring/volumes/team-a/pgdata");
    assert_eq!(
        CloudHypervisorLifecycle::new_instance_id("abcdef12-3456", "0000beef"),
        "ch-abcdef12-0000beef"
    );
}

#[test]
fn configuration_overrides_only_what_is_given() {
    let defaults = CloudHypervisorRuntimeConfig::defaults("/etc/ring");
    let user = CloudHypervisorConfig {
        binary_path: None,
        firmware_path: Some("/fw".to_string()),
        socket_dir: None,
        seccomp: None,
        max_console_log_bytes: Some(7),
        max_console_log_backups: None,
    };
    let config = CloudHypervisorRuntimeConfig::from_user_config(&user, "/etc/ring");
    assert_eq!(config.binary_path, defaults.binary_path);
    assert_eq!(config.firmware_path, "/fw");
    assert_eq!(config.socket_dir, defaults.socket_dir);
    assert_eq!(config.max_console_log_bytes, 7);
    assert_eq!(config.max_console_log_backups, defaults.max_console_log_backups);
}

// Shares

#[test]
fn prepare_mounts_empty_returns_nothing() {
    let (live, error) =
        prepare_virtiofs_mounts(&lifecycle(), "ch-instance-empty", "default", &vec![]);
    assert!(error.is_none());
    assert!(live.is_empty());
    assert!(fs_configs(&live).is_empty());
}

#[test]
fn prepare_mounts_bind() {
    let mounts = vec![ResolvedMount::Bind {
        source: "/srv/bind-src".to_string(),
        destination: "/data".to_string(),
        read_only: false,
    }];
    let (live, error) =
        prepare_virtiofs_mounts(&lifecycle(), "ch-instance-bind", "default", &mounts);
    assert!(error.is_none());
    let fs = fs_configs(&live);
    assert_eq!(live.len(), 1);
    assert_eq!(fs.len(), 1);
    assert_eq!(fs[0].tag, "bind-0");
    assert_eq!(live[0].tag, "bind-0");
    assert_eq!(live[0].destination, "/data");
    assert!(!live[0].read_only);
}

#[test]
fn prepare_mounts_named_creates_persistent_dir() {
    let mounts = vec![ResolvedMount::Named {
        name: "pgdata".to_string(),
        destination: "/var/lib/postgresql/data".to_string(),
        read_only: false,
        driver: "local".to_string(),
    }];
    let (live, error) =
        prepare_virtiofs_mounts(&lifecycle(), "ch-instance-vol", "team-a", &mounts);
    assert!(error.is_none());
    assert_eq!(fs_configs(&live)[0].tag, "vol-0");
    assert_eq!(live[0].source, "/run/ring/volumes/team-a/pgdata");
    assert!(matches!(live[0].preparation, SharePreparation::CreateDirectory));
}

#[test]
fn prepare_mounts_content_writes_file_in_share_dir() {
    let mounts = vec![ResolvedMount::Content {
        content: "server { listen 80; }".to_string(),
        destination: "/etc/nginx/nginx.conf".to_string(),
    }];
    let lc = lifecycle();
    let instance_id = "ch-instance-content";
    let (live, error) = prepare_virtiofs_mounts(&lc, instance_id, "default", &mounts);
    assert!(error.is_none());
    assert_eq!(fs_configs(&live)[0].tag, "cfg-0");
    assert_eq!(live[0].source, format!("{}/cfg-0", lc.instance_share_dir(instance_id)));
    match &live[0].preparation {
        SharePreparation::WriteFile { name, content } => {
            assert_eq!(name, "nginx.conf");
            assert_eq!(content, "server { listen 80; }");
        }
        other => panic!("unexpected preparation {:?}", other),
    }
    assert_eq!(live[0].destination, "/etc/nginx");
    assert!(live[0].read_only);
}

#[test]
fn prepare_mounts_three_kinds_emit_distinct_tags() {
    let mounts = vec![
        ResolvedMount::Bind {
            source: "/srv/bind-src".to_string(),
            destination: "/host-data".to_string(),
            read_only: false,
        },
        ResolvedMount::Named {
            name: "cache".to_string(),
            destination: "/cache".to_string(),
            read_only: false,
            driver: "local".to_string(),
        },
        ResolvedMount::Content {
            content: "hello=world".to_string(),
            destination: "/etc/conf/app.env".to_string(),
        },
    ];
    let (live, error) = prepare_virtiofs_mounts(&lifecycle(), "ch-instance-mix", "default", &mounts);
    assert!(error.is_none());
    let fs = fs_configs(&live);
    assert_eq!(fs.len(), 3);
    let tags: Vec<&str> = fs.iter().map(|c| c.tag.as_str()).collect();
    assert_eq!(tags, vec!["bind-0", "vol-1", "cfg-2"]);
    let guests = guest_mounts(&live);
    assert_eq!(guests[1].destination, "/cache");
    assert!(guests[2].read_only);
}

#[test]
fn a_content_without_a_file_name_is_refused() {
    let mounts = vec![ResolvedMount::Content {
        content: "x".to_string(),
        destination: "/".to_string(),
    }];
    let (live, error) = prepare_virtiofs_mounts(&lifecycle(), "ch-x", "default", &mounts);
    assert!(live.is_empty());
    assert!(error.is_some());
    assert!(helper_missing().message().contains("virtiofsd"));
}

// Jobs and workers

#[test]
fn lifecycle_job_terminal_status_is_sticky_completed() {
    let d = deployment("job", DeploymentStatus::Completed);
    assert!(matches!(job_begin(&d), VmJobAction::Done));
    assert_eq!(d.status, DeploymentStatus::Completed);
    assert!(d.instances.is_empty());
}

#[test]
fn lifecycle_job_terminal_status_is_sticky_failed() {
    let d = deployment("job", DeploymentStatus::Failed);
    assert!(matches!(job_begin(&d), VmJobAction::Done));
    assert_eq!(d.status, DeploymentStatus::Failed);
}

#[test]
fn job_missing_firmware_classifies_as_failed() {
    let mut d = deployment("job", DeploymentStatus::Creating);
    assert!(matches!(job_begin(&d), VmJobAction::Scan));
    assert!(matches!(job_scanned(&mut d, None), VmJobAction::CleanUp | VmJobAction::Start));
    let first = StartStep::CheckFirmware;
    let error = start_error_for(&lifecycle(), &d, first, "");
    assert!(matches!(error, RuntimeError::FirmwareNotFound(_)));
    job_start_failed(&mut d, &error);
    assert_eq!(d.status, DeploymentStatus::Failed);
}

#[test]
fn classify_vm_start_error_terminal_vs_transient() {
    let (s, r) = classify_vm_start_error(&RuntimeError::FirmwareNotFound("/x".into()));
    assert_eq!(s, Some(DeploymentStatus::Failed));
    assert_eq!(r, "FirmwareNotFound");

    let (s, r) = classify_vm_start_error(&RuntimeError::ImageNotFound("img".into()));
    assert_eq!(s, Some(DeploymentStatus::ImagePullBackOff));
    assert_eq!(r, "ImageNotFound");

    let (s, r) = classify_vm_start_error(&RuntimeError::PortAlreadyInUse(8080));
    assert_eq!(s, None);
    assert_eq!(r, "PortAllocationFailed");

    let (s, r) = classify_vm_start_error(&RuntimeError::Other("boom".into()));
    assert_eq!(s, None);
    assert_eq!(r, "VmStartFailed");
}

#[test]
fn transient_start_failures_use_up_the_budget() {
    let mut d = deployment("worker", DeploymentStatus::Creating);
    for _ in 0..MAX_RESTART_COUNT {
        worker_start_failed(&mut d, &RuntimeError::VmStartFailed("boom".to_string()));
    }
    assert_eq!(d.restart_count, MAX_RESTART_COUNT);
    assert_eq!(d.status, DeploymentStatus::CrashLoopBackOff);
    assert!(matches!(worker_found(&mut d, vec![]), VmWorkerAction::Done));
}

#[test]
fn a_worker_moves_by_one_vm_per_round() {
    let mut d = deployment("worker", DeploymentStatus::Creating);
    d.replicas = 2;
    assert!(matches!(worker_found(&mut d, vec!["ch-a".to_string()]), VmWorkerAction::Start));
    worker_started(&mut d, "ch-b".to_string());
    assert_eq!(d.instances, vec!["ch-a", "ch-b"]);
    d.replicas = 1;
    match worker_found(&mut d, vec!["ch-a".to_string(), "ch-b".to_string()]) {
        VmWorkerAction::Stop(id) => assert!(id == "ch-a" || id == "ch-b"),
        other => panic!("unexpected action {:?}", other),
    }
    d.status = DeploymentStatus::Deleted;
    all_stopped(&mut d);
    assert!(d.instances.is_empty());
}

#[test]
fn a_job_that_shut_down_is_complete() {
    let mut d = deployment("job", DeploymentStatus::Running);
    match job_scanned(&mut d, Some("ch-1".to_string())) {
        VmJobAction::QueryState(id) => assert_eq!(id, "ch-1"),
        other => panic!("unexpected action {:?}", other),
    }
    assert_eq!(read_job_state(&Some("Shutdown".to_string())), JobVmState::Shutdown);
    assert_eq!(read_job_state(&Some("Running".to_string())), JobVmState::Alive);
    assert_eq!(read_job_state(&None), JobVmState::Unreachable);
    match job_state_known(&mut d, "ch-1".to_string(), JobVmState::Shutdown) {
        VmJobAction::Stop(id) => assert_eq!(id, "ch-1"),
        other => panic!("unexpected action {:?}", other),
    }
    assert_eq!(d.status, DeploymentStatus::Completed);
    assert!(matches!(job_begin(&d), VmJobAction::Done));
}

#[test]
fn a_started_job_runs() {
    let mut d = deployment("job", DeploymentStatus::Creating);
    job_started(&mut d, "ch-1".to_string());
    assert_eq!(d.status, DeploymentStatus::Running);
    assert_eq!(d.instances, vec!["ch-1"]);
}

#[test]
fn a_failed_start_is_reported_under_its_component() {
    let mut d = deployment("worker", DeploymentStatus::Creating);
    apply_vm_start_failure(
        &mut d,
        &RuntimeError::ImageNotFound("img".to_string()),
        "cloud-hypervisor",
        DeploymentStatus::CrashLoopBackOff,
    );
    assert_eq!(d.status, DeploymentStatus::ImagePullBackOff);
    assert_eq!(d.pending_events.len(), 1);
    assert_eq!(d.pending_events[0].component, "cloud-hypervisor");
    assert_eq!(d.pending_events[0].reason, Some("ImageNotFound".to_string()));
}

#[test]
fn every_file_of_an_instance_is_cleaned_up() {
    let lc = lifecycle();
    let files = instance_artifacts(&lc, "ch-1");
    for path in [
        lc.instance_image_path("ch-1"),
        lc.cidata_iso_path("ch-1"),
        lc.console_log_path("ch-1"),
    ] {
        assert!(files.contains(&path), "{} is left", path);
    }
    let backups = stale_backups(&lc, "ch-1");
    assert_eq!(backups.len(), 1000);
    assert_eq!(backups[0], "/run/ring/ch-1.console.log.1");
    assert_eq!(backups[1], "/run/ring/ch-1.console.log.2");
    assert_eq!(backups[999], "/run/ring/ch-1.console.log.1000");
}

// Starting

#[test]
fn a_start_goes_through_its_steps() {
    let d = deployment("worker", DeploymentStatus::Creating);
    let plan = plan_start(&d, 0);
    let mut step = StartStep::CheckFirmware;
    let mut seen = vec![];
    while step != StartStep::Started {
        seen.push(step);
        step = next_start_step(plan, step, true);
        assert!(seen.len() < 50);
    }
    assert!(seen.contains(&StartStep::CheckMemory));
    assert!(seen.contains(&StartStep::BootVm));
    assert!(!seen.contains(&StartStep::BuildCidata));
}

#[test]
fn a_start_that_fails_is_undone() {
    let d = deployment("worker", DeploymentStatus::Creating);
    let plan = plan_start(&d, 0);
    assert_eq!(next_start_step(plan, StartStep::CheckFirmware, false), StartStep::Failed);
    assert_eq!(next_start_step(plan, StartStep::BootVm, false), StartStep::Undo);
    assert_eq!(next_start_step(plan, StartStep::Undo, true), StartStep::Failed);
}

#[test]
fn a_port_in_use_stops_a_start() {
    let mut d = deployment("worker", DeploymentStatus::Creating);
    d.ports.push(Port { published: 8080, target: 80, host_ip: None, protocol: Protocol::Tcp });
    let plan = plan_start(&d, 0);
    assert_eq!(next_start_step(plan, StartStep::CheckPort(0), false), StartStep::Failed);
    let error = start_error_for(&lifecycle(), &d, StartStep::CheckPort(0), "");
    assert_eq!(error, RuntimeError::PortAlreadyInUse(8080));
    assert_eq!(port_host_ip(&d.ports[0]), "0.0.0.0");
}

#[test]
fn a_vm_is_described_in_full() {
    let mut d = deployment("worker", DeploymentStatus::Creating);
    d.environment.push(("A".to_string(), EnvValue::Plain("1".to_string())));
    assert!(needs_cidata(&d, 0));
    assert!(!needs_vsock(&d));
    let lc = lifecycle();
    let config = vm_config(&lc, "ch-1", &d, vec![], true);
    assert_eq!(config.payload.firmware, Some("/tmp/fake-fw".to_string()));
    assert_eq!(config.memory.unwrap().size, mib_to_bytes(256));
    assert_eq!(mib_to_bytes(256), 268_435_456);
    let disks = config.disks.unwrap();
    assert_eq!(disks[0].path, lc.instance_image_path("ch-1"));
    assert_eq!(disks[1].path, lc.cidata_iso_path("ch-1"));
    assert_eq!(disks[1].readonly, Some(true));
    let args = vmm_arguments(&lc, "ch-1");
    assert!(args.contains(&lc.socket_path("ch-1")));
    assert!(copy_arguments("a", "b").ends_with(&["a".to_string(), "b".to_string()]));
    assert_eq!(build_net_config().len(), 1);
    assert!(default_net().tap.is_none());
}

#[test]
fn requests_go_to_the_socket() {
    let client = CloudHypervisorClient::new("/run/ring/ch-1.sock");
    let create = client.create_vm("{}".to_string());
    assert_eq!(create.socket, "/run/ring/ch-1.sock");
    assert_eq!(create.method, Method::Put);
    assert!(create.endpoint.ends_with("vm.create"));
    assert_eq!(create.body, Some("{}".to_string()));
    assert_eq!(client.info().method, Method::Get);
    assert!(client.info().endpoint.ends_with("vm.info"));
    assert!(client.boot_vm().endpoint.ends_with("vm.boot"));
    assert!(client.shutdown_vm().endpoint.ends_with("vm.shutdown"));
    assert!(client.delete_vm().endpoint.ends_with("vm.delete"));
    assert!(client.ping().endpoint.ends_with("vmm.ping"));
}

// Root file systems

#[test]
fn a_root_file_system_is_named_after_its_image() {
    let name = safe_name("ghcr.io/acme/web:1.2");
    assert!(!name.contains('/') && !name.contains(':'));
    assert!(rootfs_path("nginx:1", "/var/lib/ring").starts_with("/var/lib/ring/"));
    assert_ne!(
        rootfs_path("nginx:1", "/var/lib/ring"),
        tar_path("nginx:1", "/var/lib/ring")
    );
    assert!(mount_dir("/var/lib/ring/nginx.raw").starts_with("/var/lib/ring/nginx"));
}

#[test]
fn a_failed_build_removes_what_it_made() {
    assert_eq!(
        next_rootfs_step(RootfsStep::ExportContainer, false),
        RootfsStep::RemoveContainer { failed: true }
    );
    assert_eq!(
        next_rootfs_step(RootfsStep::ExtractArchive, false),
        RootfsStep::UnmountDisk { failed: true }
    );
    assert_eq!(
        next_rootfs_step(RootfsStep::UnmountDisk { failed: true }, true),
        RootfsStep::RemoveMountPoint { failed: true }
    );
    let names = RootfsNames {
        image: "nginx:1".to_string(),
        container: "abc".to_string(),
        tar: "/r/nginx.tar".to_string(),
        rootfs: "/r/nginx.raw".to_string(),
        mount_point: "/r/nginx.mnt".to_string(),
    };
    let pull = rootfs_command(RootfsStep::PullImage, &names);
    assert_eq!(pull.last(), Some(&"nginx:1".to_string()));
    assert_eq!(created_container(b"abc\n"), "abc");
    let args = vec!["pull".to_string(), "nginx:1".to_string()];
    assert!(command_not_run("docker", &args, "missing").contains("missing"));
    assert!(command_failed("docker", &args, b"denied").contains("denied"));
}

// Counters

#[test]
fn parse_proc_stat_simple_comm() {
    let line =
        "1234 (cloud-hypervis) S 1 1234 1234 0 -1 4194304 100 0 0 0 250 750 0 0 20 0 4 0 12345";
    let sample = parse_proc_stat(line).expect("should parse");
    assert_eq!(sample.total_ticks, 1000);
}

#[test]
fn parse_proc_stat_comm_with_spaces_and_parens() {
    let line = "42 (foo bar (baz)) R 1 42 42 0 -1 4194304 0 0 0 0 11 22 0 0 20 0 1 0 9";
    let sample = parse_proc_stat(line).expect("should parse despite tricky comm");
    assert_eq!(sample.total_ticks, 33);
}

#[test]
fn parse_proc_stat_truncated_returns_none() {
    let line = "1 (short) S 1 1";
    assert!(parse_proc_stat(line).is_none());
}

#[test]
fn parse_vm_rss_typical() {
    let status = "Name:\tch\nState:\tS (sleeping)\nVmRSS:\t  524288 kB\nThreads:\t8\n";
    assert_eq!(parse_vm_rss_bytes(status), 524288 * 1024);
}

#[test]
fn parse_vm_rss_missing_returns_zero() {
    let status = "Name:\tch\nState:\tS (sleeping)\nThreads:\t8\n";
    assert_eq!(parse_vm_rss_bytes(status), 0);
}

#[test]
fn cpu_percent_one_full_cpu_for_one_second() {
    let prev = CpuSample { total_ticks: 1000 };
    let curr = CpuSample { total_ticks: 1100 };
    let pct = percent(cpu_ratio(prev, curr, 1000, 100));
    assert!((pct - 100.0).abs() < 0.001, "got {}", pct);
}

#[test]
fn cpu_percent_two_cores_saturated() {
    let prev = CpuSample { total_ticks: 0 };
    let curr = CpuSample { total_ticks: 200 };
    let pct = percent(cpu_ratio(prev, curr, 1000, 100));
    assert!((pct - 200.0).abs() < 0.001);
}

#[test]
fn cpu_percent_zero_interval_returns_zero() {
    let prev = CpuSample { total_ticks: 0 };
    let curr = CpuSample { total_ticks: 100 };
    assert_eq!(percent(cpu_ratio(prev, curr, 0, 100)), 0.0);
}

#[test]
fn cpu_percent_clock_decreases_returns_zero() {
    let prev = CpuSample { total_ticks: 1000 };
    let curr = CpuSample { total_ticks: 500 };
    assert_eq!(percent(cpu_ratio(prev, curr, 1000, 100)), 0.0);
    assert_eq!(ticks_between(prev, curr), 0);
}

#[test]
fn memory_stats_computes_percent() {
    let m = memory_stats(50 * 1024 * 1024, 100 * 1024 * 1024);
    assert!((percent(m.usage_ratio()) - 50.0).abs() < 0.001);
}

#[test]
fn memory_stats_zero_limit_yields_zero_percent() {
    let m = memory_stats(50 * 1024 * 1024, 0);
    assert_eq!(percent(m.usage_ratio()), 0.0);
}

#[test]
fn counters_that_are_not_kept_are_zero() {
    assert_eq!(empty_network().rx_bytes, 0);
    assert_eq!(empty_disk_io().write_bytes, 0);
    assert_eq!(empty_pids().current, 0);
    assert_eq!(stat_path(42), "/proc/42/stat");
    assert_eq!(status_path(42), "/proc/42/status");
}

// Probes

fn tcp_check(port: u16) -> HealthCheck {
    HealthCheck::Tcp {
        port,
        interval: "10s".to_string(),
        timeout: "2s".to_string(),
        threshold: 3,
        on_failure: FailureAction::Restart,
        readiness: false,
        min_healthy_time: None,
    }
}

#[test]
fn a_vm_that_does_not_run_fails_its_checks() {
    let stopped = plan_health_check(&Ok("Shutdown".to_string()), &tcp_check(80));
    assert!(matches!(stopped, VmProbe::Answer(HealthCheckStatus::Failed, Some(_))));
    let gone = plan_health_check(&Err("no socket".to_string()), &tcp_check(80));
    assert!(matches!(gone, VmProbe::Answer(HealthCheckStatus::Failed, Some(_))));
    match plan_health_check(&Ok("Running".to_string()), &tcp_check(80)) {
        VmProbe::Tcp { address, timeout_nanos } => {
            assert!(address.ends_with(":80"));
            assert_eq!(timeout_nanos, 2_000_000_000);
        }
        other => panic!("unexpected probe {:?}", other),
    }
}

#[test]
fn probe_results_follow_the_reply() {
    assert_eq!(tcp_result(&TcpOutcome::Connected).0, HealthCheckStatus::Success);
    assert_eq!(tcp_result(&TcpOutcome::Refused("no".to_string())).0, HealthCheckStatus::Failed);
    assert_eq!(tcp_result(&TcpOutcome::TimedOut).0, HealthCheckStatus::Timeout);
    assert_eq!(http_result(&Ok((204, "204 No Content".to_string()))).0, HealthCheckStatus::Success);
    assert_eq!(
        http_result(&Ok((500, "500 Internal Server Error".to_string()))).0,
        HealthCheckStatus::Failed
    );
    assert_eq!(http_result(&Err("refused".to_string())).0, HealthCheckStatus::Failed);
}

#[test]
fn agent_replies_are_judged_by_their_exit_code() {
    let ok = AgentReply { timed_out: false, exit_code: 0, stderr: String::new() };
    assert_eq!(probe_outcome("true", &ok).0, HealthCheckStatus::Success);
    let bad = AgentReply { timed_out: false, exit_code: 3, stderr: "oops".to_string() };
    assert_eq!(probe_outcome("false", &bad).0, HealthCheckStatus::Failed);
    let late = AgentReply { timed_out: true, exit_code: 0, stderr: String::new() };
    assert_ne!(probe_outcome("sleep", &late).0, HealthCheckStatus::Success);
    assert_eq!(probe_failed("no vsock").0, HealthCheckStatus::Failed);
    assert_eq!(probe_command("echo hi"), vec!["/bin/sh", "-c", "echo hi"]);
}

#[test]
fn console_output_is_reported_as_information() {
    let logs = console_logs("ch-1", "a\nb\nc\n", Some("2"));
    assert_eq!(logs.len(), 2);
    assert_eq!(logs[0].message, "b");
    assert_eq!(logs[0].level, "info");
    assert_eq!(logs[0].instance, "ch-1");
    let d = deployment("worker", DeploymentStatus::Running);
    let runtime = CloudHypervisorRuntime::new(&d, "/run/ring".to_string());
    assert_eq!(runtime.log_path("ch-1"), "/run/ring/ch-1.log");
    assert_eq!(runtime.socket_path("ch-1"), "/run/ring/ch-1.sock");
    let names = runtime.list_instances_with_names(&vec!["ch-abcdef12-0000beef".to_string()]);
    assert_eq!(names[0].0, "ch-abcdef12-0000beef");
}

#[test]
fn rendered_file_is_mounted_where_its_parent_is() {
    let cases = [
        ("/app.conf", "/", "app.conf"),
        ("app.conf", "", "app.conf"),
        ("/etc/app/app.conf", "/etc/app", "app.conf"),
        ("/etc//app.conf", "/etc", "app.conf"),
        ("/etc/app.conf/", "/etc", "app.conf"),
    ];
    for (destination, parent, file) in cases {
        let mounts = vec![ResolvedMount::Content {
            content: "x".to_string(),
            destination: destination.to_string(),
        }];
        let (live, error) = prepare_virtiofs_mounts(&lifecycle(), "i", "default", &mounts);
        assert!(error.is_none());
        assert_eq!(live[0].destination, parent);
        match &live[0].preparation {
            SharePreparation::WriteFile { name, .. } => assert_eq!(name, file),
            other => panic!("unexpected preparation {:?}", other),
        }
    }
}

#[test]
fn rendered_file_without_a_name_is_refused() {
    for destination in ["/", "/etc/..", ""] {
        let mounts = vec![ResolvedMount::Content {
            content: "x".to_string(),
            destination: destination.to_string(),
        }];
        let (live, error) = prepare_virtiofs_mounts(&lifecycle(), "i", "default", &mounts);
        assert!(live.is_empty());
        assert_eq!(
            error.unwrap().message(),
            format!("runtime error: config volume destination has no filename: {}", destination)
        );
    }
}

#[test]
fn failed_commands_show_their_arguments() {
    let args = vec!["a b".to_string(), "c\"d".to_string()];
    assert_eq!(
        command_not_run("docker", &args, "missing"),
        "Failed to run docker [\"a b\", \"c\\\"d\"]: missing"
    );
    assert_eq!(
        command_failed("docker", &args, b"no such image"),
        "docker [\"a b\", \"c\\\"d\"] failed: no such image"
    );
}

#[test]
fn socket_of_a_volume_is_no_instance() {
    let id = "ch-abcdef12-00000001";
    let prefix = CloudHypervisorLifecycle::deployment_prefix("abcdef12-3456-7890");
    assert_eq!(lifecycle().virtiofs_socket_path(id, 0), format!("/run/ring/{}.virtiofs-0.sock", id));
    let volume = format!("{}.virtiofs-0.sock", id);
    assert_eq!(instance_of_socket(&volume, &prefix), None);
    assert_eq!(instance_of_file(&volume), Some(id.to_string()));
    let odd = format!("{}.virtiofs-.sock", id);
    assert_eq!(instance_of_socket(&odd, &prefix), Some(format!("{}.virtiofs-", id)));
    assert_eq!(orphaned_instances(&vec![volume], "abcdef12-3456-7890"), vec![id]);
}

fn socket_file(name: &str, state: Option<&str>) -> SocketFile {
    SocketFile { name: name.to_string(), state: state.map(|s| s.to_string()) }
}

#[test]
fn scan_lists_each_instance_of_a_deployment_once() {
    let files = vec![
        socket_file("ch-abcdef12-00000001.sock", Some("Running")),
        socket_file("ch-abcdef12-00000001.virtiofs-0.sock", None),
        socket_file("ch-abcdef12-00000002.sock", None),
        socket_file("ch-abcdef12-00000003.raw", None),
        socket_file("ch-99999999-00000001.sock", Some("Running")),
    ];
    assert_eq!(
        scan_instances(&files, "abcdef12-3456-7890", &vec![]),
        vec!["ch-abcdef12-00000001", "ch-abcdef12-00000002"]
    );
    let running = vec!["Running".to_string()];
    assert_eq!(
        scan_instances(&files, "abcdef12-3456-7890", &running),
        vec!["ch-abcdef12-00000001"]
    );
}

#[test]
fn quoted_and_encoded_values_have_their_lengths() {
    assert_eq!(shell_quote(""), "''");
    assert_eq!(shell_quote("a b'c$\n"), "'a b'\\''c$\n'");
    assert_eq!(shell_quote("it's").len(), 4 + 2 + 3);
    assert_eq!(base64_encode("Man"), "TWFu");
    assert_eq!(base64_encode("Manfoo"), format!("{}{}", base64_encode("Man"), base64_encode("foo")));
    for (text, padding) in [("", 0), ("a", 2), ("ab", 1), ("abc", 0), ("abcd", 2)] {
        let encoded = base64_encode(text);
        assert_eq!(encoded.len(), 4 * ((text.len() + 2) / 3));
        assert_eq!(encoded.chars().filter(|c| *c == '=').count(), padding);
    }
}

#[test]
fn tick_goes_by_status_and_kind() {
    let job = deployment("job", DeploymentStatus::Running);
    assert_eq!(begin_tick(&job), VmTick::Job);
    let worker = deployment("worker", DeploymentStatus::Running);
    assert_eq!(begin_tick(&worker), VmTick::Worker);
    let deleted = deployment("job", DeploymentStatus::Deleted);
    assert_eq!(begin_tick(&deleted), VmTick::RemoveAll);
}

#[test]
fn vms_that_come_up_count_as_replicas() {
    assert_eq!(worker_states(), vec!["Running", "Created", "Booting"]);
    assert_eq!(listed_states(), vec!["Running"]);
    for state in worker_states() {
        assert_eq!(read_job_state(&Some(state)), JobVmState::Alive);
    }
}

#[test]
fn terminal_start_failure_leaves_a_full_counter() {
    let mut d = deployment("worker", DeploymentStatus::Creating);
    d.restart_count = u32::MAX;
    worker_start_failed(&mut d, &RuntimeError::ImageNotFound("x".to_string()));
    assert_eq!(d.restart_count, u32::MAX);
    assert_eq!(d.status, DeploymentStatus::ImagePullBackOff);
}
