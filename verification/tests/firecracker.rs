//! Micro-VMs under Firecracker.
use ring_runtime::api_client::Method;
use ring_runtime::error::RuntimeError;
use ring_runtime::firecracker::boot::{
    boot_error_for, boot_source, cidata_drive, machine_config, network_interface, next_boot_step,
    next_configure_step, parse_resources, plan_configuration, prefix_to_netmask, root_drive,
    undo_after, vmm_arguments, vsock_device, BootStep, BootUndo, ConfigureStep,
};
use ring_runtime::firecracker::client::{Drive, FirecrackerClient};
use ring_runtime::firecracker::lifecycle::{
    all_instances, instances_to_readopt, orphan_instances, scan_instances, BinaryLookup,
    FirecrackerConfig, FirecrackerLifecycle, FirecrackerRuntimeConfig,
};
use ring_runtime::firecracker::processes::{
    cmdline_matches_socket, find_pid_by_socket, instance_id_from_cmdline, is_tap_claimed,
    live_socket_paths, live_vm_uses_tap, parse_pid, reclaims_tap, socket_path_from_cmdline,
    split_arguments, CmdlineRead, ProcessEntry,
};
use ring_runtime::firecracker::reconcile::{
    after_look, fc_liveness_for_status, instance_files, job_found, job_is_open, job_start_failed,
    job_started, list_instances, liveness_confirmed_status, next_stale_backup, worker_boot_failed,
    worker_end,
    worker_found, FcFilter, FleetAction, KillAction, MachineJobAction,
};
use ring_runtime::firecracker::volumes::{
    bind_source_error, cleanup_ephemeral_volumes, plan_volume, prepare_volume_drives,
    sizing_mib_for_bytes, volume_drive, VolumeBuild, VolumeLeftover,
};
use ring_runtime::host_net::InstanceNet;
use ring_runtime::models::{
    Deployment, DeploymentStatus, ResolvedMount, Resource, ResourceSpec, MAX_RESTART_COUNT,
};

fn job_deployment(status: DeploymentStatus) -> Deployment {
    Deployment {
        id: "job1234-5678".to_string(),
        created_at: String::new(),
        updated_at: None,
        status,
        restart_count: 0,
        namespace: "default".to_string(),
        name: "job".to_string(),
        image: "/tmp/does-not-exist.ext4".to_string(),
        config: None,
        runtime: "firecracker".to_string(),
        kind: "job".to_string(),
        replicas: 1,
        command: vec![],
        instances: vec![],
        labels: vec![],
        environment: vec![],
        volumes: "[]".to_string(),
        health_checks: vec![],
        resources: None,
        image_digest: None,
        ports: vec![],
        pending_events: vec![],
        parent_id: None,
        network: None,
    }
}

fn strings(list: &[&str]) -> Vec<String> {
    list.iter().map(|s| s.to_string()).collect()
}

fn lifecycle() -> FirecrackerLifecycle {
    FirecrackerLifecycle::new(FirecrackerRuntimeConfig {
        socket_dir: "/run/fc".to_string(),
        ..FirecrackerRuntimeConfig::defaults("/etc/ring")
    })
}

#[test]
fn prefix_30_is_a_four_host_mask() {
    assert_eq!(prefix_to_netmask(30), "255.255.255.252");
}

#[test]
fn prefix_24_and_32() {
    assert_eq!(prefix_to_netmask(24), "255.255.255.0");
    assert_eq!(prefix_to_netmask(32), "255.255.255.255");
}

#[test]
fn liveness_confirmed_promotes_to_running() {
    assert_eq!(
        liveness_confirmed_status(&DeploymentStatus::Creating, true),
        Some(DeploymentStatus::Running)
    );
}

#[test]
fn no_live_instance_does_not_promote() {
    assert_eq!(
        liveness_confirmed_status(&DeploymentStatus::Creating, false),
        None
    );
}

#[test]
fn create_error_is_preserved() {
    assert_eq!(
        liveness_confirmed_status(&DeploymentStatus::CreateContainerError, true),
        None
    );
}

#[test]
fn terminal_boot_failures_are_preserved() {
    for status in [
        DeploymentStatus::CrashLoopBackOff,
        DeploymentStatus::ImagePullBackOff,
        DeploymentStatus::ConfigError,
        DeploymentStatus::InsufficientResources,
        DeploymentStatus::Failed,
    ] {
        assert_eq!(
            liveness_confirmed_status(&status, true),
            None,
            "{:?} must survive the liveness gate",
            status
        );
    }
}

#[test]
fn cmdline_matches_socket_exact_arg() {
    let sock = "/run/fc/dep-1-aaa.sock";
    let cmd = b"/usr/bin/firecracker\0--api-sock\0/run/fc/dep-1-aaa.sock\0";
    assert!(cmdline_matches_socket(cmd, sock));
}

#[test]
fn status_filter_maps_to_liveness() {
    assert_eq!(fc_liveness_for_status("all"), FcFilter::Any);
    assert_eq!(fc_liveness_for_status("active"), FcFilter::Alive(true));
    assert_eq!(fc_liveness_for_status("running"), FcFilter::Alive(true));
    assert_eq!(fc_liveness_for_status("exited"), FcFilter::Alive(false));
    assert_eq!(fc_liveness_for_status("stopped"), FcFilter::Alive(false));
}

#[test]
fn socket_path_is_captured_whole() {
    let cmd = b"/usr/bin/firecracker\0--api-sock\0/run/fc/dep-1-aaa.sock\0";
    assert_eq!(
        socket_path_from_cmdline(cmd).as_deref(),
        Some("/run/fc/dep-1-aaa.sock"),
        "the directory must be kept, not just the file name"
    );
    let other = b"/usr/bin/firecracker\0--api-sock\0/var/run/other/dep-1-aaa.sock\0";
    assert_ne!(
        socket_path_from_cmdline(cmd),
        socket_path_from_cmdline(other)
    );
}

#[test]
fn socket_path_ignores_non_firecracker_processes() {
    let cmd = b"/usr/bin/socat\0--api-sock\0/run/fc/dep-1-aaa.sock\0";
    assert_eq!(socket_path_from_cmdline(cmd), None);
}

#[test]
fn unknown_status_filter_matches_nothing() {
    assert_eq!(fc_liveness_for_status("paused"), FcFilter::Nothing);
    assert_eq!(fc_liveness_for_status(""), FcFilter::Nothing);
}

#[test]
fn instance_id_is_read_from_the_socket_argument() {
    let cmd = b"/usr/bin/firecracker\0--api-sock\0/run/fc/dep-1-aaa.sock\0";
    assert_eq!(
        instance_id_from_cmdline(cmd).as_deref(),
        Some("dep-1-aaa"),
        "must strip both the directory and the .sock suffix"
    );
}

#[test]
fn instance_id_ignores_non_firecracker_processes() {
    let cmd = b"/usr/bin/socat\0--api-sock\0/run/fc/dep-1-aaa.sock\0";
    assert_eq!(instance_id_from_cmdline(cmd), None);
}

#[test]
fn instance_id_is_none_without_a_socket_argument() {
    let cmd = b"/usr/bin/firecracker\0--version\0";
    assert_eq!(instance_id_from_cmdline(cmd), None);
}

#[test]
fn instance_id_round_trips_to_its_tap_name() {
    let id = "dep-1-aaa";
    let cmd = b"/usr/bin/firecracker\0--api-sock\0/run/fc/dep-1-aaa.sock\0";
    let parsed = instance_id_from_cmdline(cmd).expect("id parses");
    assert_eq!(
        InstanceNet::for_instance(&parsed).tap_name,
        InstanceNet::for_instance(id).tap_name
    );
}

#[test]
fn cmdline_matches_socket_rejects_prefix_collision() {
    let sock = "/run/fc/dep-1-aaa.sock";
    let cmd = b"/usr/bin/firecracker\0--api-sock\0/run/fc/dep-1-aaa.sock.bak\0";
    assert!(!cmdline_matches_socket(cmd, sock));
}

#[test]
fn cmdline_matches_socket_rejects_non_firecracker() {
    let sock = "/run/fc/dep-1-aaa.sock";
    let cmd = b"/usr/bin/socat\0--api-sock\0/run/fc/dep-1-aaa.sock\0";
    assert!(!cmdline_matches_socket(cmd, sock));
}

#[test]
fn default_config_uses_config_dir_paths() {
    let cfg = FirecrackerRuntimeConfig::defaults("/etc/ring");
    assert_eq!(cfg.binary_path, "firecracker");
    assert!(cfg.kernel_path.ends_with("/firecracker/vmlinux"));
    assert!(cfg.socket_dir.ends_with("/firecracker/sockets"));
    assert!(cfg.boot_args.contains("console=ttyS0"));
}

#[test]
fn from_user_config_overrides_only_set_fields() {
    let user = FirecrackerConfig {
        enabled: true,
        binary_path: Some("/opt/fc/firecracker".to_string()),
        kernel_path: None,
        socket_dir: Some("/var/run/fc".to_string()),
        boot_args: None,
        max_console_log_bytes: None,
        max_console_log_backups: None,
    };
    let cfg = FirecrackerRuntimeConfig::from_user_config(&user, "/etc/ring");
    assert_eq!(cfg.binary_path, "/opt/fc/firecracker");
    assert_eq!(cfg.socket_dir, "/var/run/fc");
    let defaults = FirecrackerRuntimeConfig::defaults("/etc/ring");
    assert_eq!(cfg.kernel_path, defaults.kernel_path);
    assert_eq!(cfg.boot_args, defaults.boot_args);
    assert_eq!(cfg.max_console_log_bytes, defaults.max_console_log_bytes);
    assert_eq!(
        cfg.max_console_log_backups,
        defaults.max_console_log_backups
    );
}

#[test]
fn socket_and_rootfs_paths_are_namespaced_by_instance() {
    let cfg = FirecrackerRuntimeConfig {
        socket_dir: "/tmp/fc".to_string(),
        ..FirecrackerRuntimeConfig::defaults("/etc/ring")
    };
    let lc = FirecrackerLifecycle::new(cfg);
    assert_eq!(lc.socket_path("dep-1-abc"), "/tmp/fc/dep-1-abc.sock");
    assert_eq!(lc.rootfs_path("dep-1-abc"), "/tmp/fc/dep-1-abc.ext4");
}

#[test]
fn scan_instances_reads_disk_not_memory() {
    let names = strings(&[
        "dep-1-aaa.sock",
        "dep-1-bbb.sock",
        "dep-2-ccc.sock",
        "dep-1-aaa.ext4",
        "dep-1.txt",
    ]);
    let mut found = scan_instances(&names, "dep-1");
    found.sort();
    assert_eq!(found, vec!["dep-1-aaa".to_string(), "dep-1-bbb".to_string()]);
}

#[test]
fn all_instances_spans_every_deployment() {
    let names = strings(&["dep-1-aaa.sock", "dep-2-bbb.sock", "dep-1-aaa.ext4"]);
    let mut found = all_instances(&names);
    found.sort();
    assert_eq!(
        found,
        vec!["dep-1-aaa".to_string(), "dep-2-bbb".to_string()],
        "must cross deployment boundaries and ignore non-sockets"
    );
}

#[test]
fn a_live_instance_claims_its_tap_name() {
    let live = "dep-1-live";
    let names = vec![format!("{}.sock", live)];
    let live_tap = InstanceNet::for_instance(live).tap_name;
    let ids = all_instances(&names);
    assert!(ids.iter().any(|id| InstanceNet::for_instance(id).tap_name == live_tap));
    assert!(is_tap_claimed(&ids, "dep-1-booting", &live_tap));
    assert!(!is_tap_claimed(&ids, live, &live_tap));
}

#[test]
fn orphan_instances_are_on_disk_but_not_in_pid_map() {
    let names = strings(&["dep-1-aaa.sock", "dep-1-bbb.sock"]);
    let mut orphans = orphan_instances(&names, "dep-1", &vec![]);
    orphans.sort();
    assert_eq!(orphans, vec!["dep-1-aaa".to_string(), "dep-1-bbb".to_string()]);
    assert_eq!(
        orphan_instances(&names, "dep-1", &strings(&["dep-1-aaa"])),
        vec!["dep-1-bbb".to_string()]
    );
}

#[test]
fn is_available_false_for_missing_absolute_path() {
    let cfg = FirecrackerRuntimeConfig {
        binary_path: "/nonexistent/firecracker".to_string(),
        ..FirecrackerRuntimeConfig::defaults("/etc/ring")
    };
    assert_eq!(cfg.binary_lookup(), BinaryLookup::AtPath);
    let at_path = std::path::Path::new(&cfg.binary_path).exists();
    assert!(!cfg.is_available(at_path, &vec![true]));
    let by_name = FirecrackerRuntimeConfig::defaults("/etc/ring");
    assert_eq!(by_name.binary_lookup(), BinaryLookup::OnSearchPath);
    assert!(by_name.is_available(false, &vec![false, true]));
    assert!(!by_name.is_available(true, &vec![false]));
}

#[test]
fn cleanup_reaps_sparse_ephemeral_images_and_stage_dirs() {
    let id = "inst-abcd";
    assert_eq!(
        cleanup_ephemeral_volumes("inst-abcd.vol1.ext4", id),
        VolumeLeftover::RemoveFile,
        "sparse ephemeral image must be reaped"
    );
    assert_eq!(
        cleanup_ephemeral_volumes("inst-abcd.vol2.stage", id),
        VolumeLeftover::RemoveDirectory,
        "orphaned staging dir must be reaped"
    );
    assert_eq!(
        cleanup_ephemeral_volumes("volumes", id),
        VolumeLeftover::Keep,
        "named volume must persist"
    );
    assert_eq!(
        cleanup_ephemeral_volumes("inst-zzzz.vol0.ext4", id),
        VolumeLeftover::Keep,
        "another instance's image must be untouched"
    );
}

#[test]
fn firecracker_job_terminal_status_is_sticky_completed() {
    let d = job_deployment(DeploymentStatus::Completed);
    assert!(!job_is_open(&d));
    assert_eq!(d.status, DeploymentStatus::Completed);
    assert!(d.instances.is_empty());
}

#[test]
fn firecracker_job_terminal_status_is_sticky_failed() {
    let d = job_deployment(DeploymentStatus::Failed);
    assert!(!job_is_open(&d));
    assert_eq!(d.status, DeploymentStatus::Failed);
}

#[test]
fn job_running_with_no_live_vm_completes() {
    let mut d = job_deployment(DeploymentStatus::Running);
    assert!(job_is_open(&d));
    assert!(matches!(job_found(&mut d, None), MachineJobAction::Done));
    assert_eq!(d.status, DeploymentStatus::Completed);
    assert!(d.instances.is_empty());
}

#[test]
fn job_missing_kernel_does_not_complete_silently() {
    let mut d = job_deployment(DeploymentStatus::Creating);
    assert!(matches!(job_found(&mut d, None), MachineJobAction::Start));
    let error = boot_error_for(&lifecycle(), &d, "job1234-1", BootStep::CheckKernel, "");
    assert_eq!(next_boot_step(0, BootStep::CheckKernel, false), BootStep::Failed);
    job_start_failed(&mut d, &error);
    assert_ne!(d.status, DeploymentStatus::Completed);
    assert_ne!(d.status, DeploymentStatus::Running);
}

// Booting

#[test]
fn a_boot_goes_through_its_steps() {
    let mut step = BootStep::CheckKernel;
    let mut seen = vec![];
    while step != BootStep::Started {
        seen.push(step);
        step = next_boot_step(2, step, true);
        assert!(seen.len() < 30);
    }
    assert!(seen.contains(&BootStep::Forward(0)) && seen.contains(&BootStep::Forward(1)));
    assert!(undo_after(BootStep::CheckKernel).is_empty());
    let undo = undo_after(BootStep::Configure);
    assert!(undo.contains(&BootUndo::KillProcess));
    assert!(undo.contains(&BootUndo::DeleteTap));
    assert!(undo.contains(&BootUndo::RemoveRootfs));
}

#[test]
fn a_boot_error_says_what_is_missing() {
    let d = job_deployment(DeploymentStatus::Creating);
    let lc = lifecycle();
    let kernel = boot_error_for(&lc, &d, "i", BootStep::CheckKernel, "");
    assert!(kernel.message().contains("/etc/ring/firecracker/vmlinux"));
    let image = boot_error_for(&lc, &d, "i", BootStep::CheckImage, "");
    assert!(image.message().contains("/tmp/does-not-exist.ext4"));
}

#[test]
fn a_machine_is_configured_before_it_starts() {
    let d = job_deployment(DeploymentStatus::Creating);
    let plan = plan_configuration(&d, 1, true);
    let mut step = ConfigureStep::BootSource;
    let mut seen = vec![];
    while step != ConfigureStep::Booted {
        seen.push(step);
        step = next_configure_step(plan, step, true);
        assert!(seen.len() < 30);
    }
    assert_eq!(seen.last(), Some(&ConfigureStep::Start));
    assert!(seen.contains(&ConfigureStep::Volume(0)));
    assert!(seen.contains(&ConfigureStep::Network));
    for step in seen {
        assert_eq!(next_configure_step(plan, step, false), ConfigureStep::Failed);
    }
}

#[test]
fn a_machine_is_described_in_full() {
    let mut d = job_deployment(DeploymentStatus::Creating);
    let lc = lifecycle();
    let net = InstanceNet::for_instance("dep-1-aaa");
    let plain = boot_source(&lc, "dep-1-aaa", false);
    let networked = boot_source(&lc, "dep-1-aaa", true);
    assert_eq!(plain.kernel_image_path, "/etc/ring/firecracker/vmlinux");
    assert!(networked.boot_args.as_ref().unwrap().contains(&net.guest_ip));
    assert!(networked.boot_args.unwrap().contains("255.255.255.252"));
    let root = root_drive(&lc, "dep-1-aaa");
    assert!(root.is_root_device && !root.is_read_only);
    assert_eq!(root.path_on_host, "/run/fc/dep-1-aaa.ext4");
    assert!(cidata_drive("/run/fc/x.iso").is_read_only);
    assert_eq!(network_interface("dep-1-aaa").host_dev_name, net.tap_name);
    assert_eq!(vsock_device(&lc, "dep-1-aaa").uds_path, lc.vsock_path("dep-1-aaa"));
    d.resources = Some(Resource {
        limits: Some(ResourceSpec {
            cpu: Some("1500m".to_string()),
            memory: Some("512Mi".to_string()),
        }),
        requests: None,
    });
    assert_eq!(parse_resources(&d), (2, 512));
    let machine = machine_config(&d);
    assert_eq!((machine.vcpu_count, machine.mem_size_mib), (2, 512));
    assert!(vmm_arguments(&lc, "dep-1-aaa").contains(&lc.socket_path("dep-1-aaa")));
}

#[test]
fn requests_name_their_resource() {
    let client = FirecrackerClient::new("/run/fc/a.sock");
    let drive = Drive {
        drive_id: "vol0".to_string(),
        path_on_host: "/x".to_string(),
        is_root_device: false,
        is_read_only: true,
    };
    let put = client.put_drive(&drive, "{}".to_string());
    assert_eq!(put.method, Method::Put);
    assert_eq!(put.endpoint, "/drives/vol0");
    assert_eq!(client.put_boot_source("{}".to_string()).endpoint, "/boot-source");
    assert_eq!(client.put_machine_config("{}".to_string()).endpoint, "/machine-config");
    assert_eq!(client.put_vsock("{}".to_string()).endpoint, "/vsock");
    assert_eq!(client.action("{}".to_string()).endpoint, "/actions");
    assert_eq!(
        client.put_network_interface(&network_interface("a"), "{}".to_string()).endpoint,
        "/network-interfaces/eth0"
    );
    assert_eq!(client.info().method, Method::Get);
    assert_eq!(FirecrackerClient::start().action_type, "InstanceStart");
    assert_eq!(FirecrackerClient::send_ctrl_alt_del().action_type, "SendCtrlAltDel");
}

// Processes

fn entry(name: &str, cmdline: &[u8]) -> ProcessEntry {
    ProcessEntry { name: name.to_string(), cmdline: CmdlineRead::Text(cmdline.to_vec()) }
}

#[test]
fn a_process_is_found_by_its_socket() {
    let entries = vec![
        entry("self", b"/usr/bin/firecracker\0--api-sock\0/run/fc/a.sock\0"),
        entry("7", b"/usr/bin/socat\0--api-sock\0/run/fc/a.sock\0"),
        entry("9", b"/usr/bin/firecracker\0--api-sock\0/run/fc/a.sock\0"),
        ProcessEntry { name: "11".to_string(), cmdline: CmdlineRead::Gone },
    ];
    assert_eq!(find_pid_by_socket(&entries, "/run/fc/a.sock"), Some(9));
    assert_eq!(find_pid_by_socket(&entries, "/run/fc/b.sock"), None);
    assert_eq!(live_socket_paths(&entries).last(), Some(&"/run/fc/a.sock".to_string()));
    assert_eq!(parse_pid("12"), Some(12));
    assert_eq!(parse_pid("self"), None);
    assert_eq!(
        split_arguments(b"a\0b\0"),
        vec![b"a".to_vec(), b"b".to_vec(), b"".to_vec()]
    );
}

#[test]
fn a_tap_is_reclaimed_only_when_nothing_can_use_it() {
    assert!(reclaims_tap(true, false, false));
    assert!(!reclaims_tap(false, false, false));
    assert!(!reclaims_tap(true, true, false));
    assert!(!reclaims_tap(true, false, true));
    let tap = InstanceNet::for_instance("a").tap_name;
    let running = vec![entry("9", b"/usr/bin/firecracker\0--api-sock\0/run/fc/a.sock\0")];
    assert!(live_vm_uses_tap(&Some(running), &tap, "b"));
    assert!(!live_vm_uses_tap(&Some(vec![]), &tap, "b"));
    assert!(live_vm_uses_tap(&None, &tap, "b"), "what cannot be read counts as in use");
}

// Reconciling

#[test]
fn instances_are_listed_by_liveness() {
    let lc = lifecycle();
    let ids = strings(&["a", "b"]);
    let on_disk = vec![true, true];
    let live = vec![lc.socket_path("a")];
    assert_eq!(list_instances(&lc, &ids, &on_disk, &live, "all"), ids);
    assert_eq!(list_instances(&lc, &ids, &on_disk, &live, "running"), strings(&["a"]));
    assert_eq!(list_instances(&lc, &ids, &on_disk, &live, "exited"), strings(&["b"]));
    assert!(list_instances(&lc, &ids, &on_disk, &live, "paused").is_empty());
}

#[test]
fn a_worker_moves_to_its_replicas() {
    let mut d = job_deployment(DeploymentStatus::Creating);
    d.kind = "worker".to_string();
    d.replicas = 3;
    assert!(matches!(worker_found(&d, &strings(&["a"])), FleetAction::Start(2)));
    d.replicas = 1;
    match worker_found(&d, &strings(&["a", "b"])) {
        FleetAction::Stop(ids) => assert_eq!(ids.len(), 1),
        other => panic!("unexpected action {:?}", other),
    }
    worker_end(&mut d, strings(&["a"]), true);
    assert_eq!(d.status, DeploymentStatus::Running);
    assert_eq!(d.instances, vec!["a"]);
}

#[test]
fn boot_failures_use_up_the_budget() {
    let mut d = job_deployment(DeploymentStatus::Creating);
    for _ in 0..MAX_RESTART_COUNT {
        worker_boot_failed(&mut d, &RuntimeError::VmStartFailed("boom".to_string()));
    }
    assert_eq!(d.status, DeploymentStatus::CrashLoopBackOff);
    let mut d = job_deployment(DeploymentStatus::Creating);
    worker_boot_failed(&mut d, &RuntimeError::VmStartFailed("boom".to_string()));
    assert_eq!(d.status, DeploymentStatus::CreateContainerError);
    assert!(matches!(worker_found(&d, &strings(&["a"])), FleetAction::Settled));
}

#[test]
fn a_job_that_is_running_is_left_alone() {
    let mut d = job_deployment(DeploymentStatus::Creating);
    job_started(&mut d, "a".to_string());
    assert_eq!(d.status, DeploymentStatus::Running);
    assert!(matches!(job_found(&mut d, Some(("a".to_string(), true))), MachineJobAction::Done));
    assert_eq!(d.instances, vec!["a"]);
    match job_found(&mut d, Some(("a".to_string(), false))) {
        MachineJobAction::Stop(id) => assert_eq!(id, "a"),
        other => panic!("unexpected action {:?}", other),
    }
    assert_eq!(d.status, DeploymentStatus::Completed);
}

#[test]
fn a_process_is_killed_only_after_a_while() {
    assert_eq!(after_look(0, false), KillAction::Stop);
    assert_ne!(after_look(0, true), KillAction::Stop);
    assert_ne!(after_look(0, true), KillAction::KillAndWait);
}

#[test]
fn networking_is_adopted_again_after_a_restart() {
    let mut d = job_deployment(DeploymentStatus::Running);
    d.id = "dep-1".to_string();
    let names = strings(&["dep-1-aaa.sock", "dep-1-bbb.sock"]);
    let found = instances_to_readopt(&d, &names, &vec![], &vec![]);
    for id in &found {
        assert!(id.starts_with("dep-1-"));
    }
    assert!(instances_to_readopt(&d, &names, &strings(&["dep-1-aaa", "dep-1-bbb"]), &vec![])
        .is_empty());
}

#[test]
fn every_file_of_a_machine_is_cleaned_up() {
    let lc = lifecycle();
    let files = instance_files(&lc, "a");
    assert!(files.contains(&lc.socket_path("a")));
    assert!(files.contains(&lc.rootfs_path("a")));
    assert!(files.contains(&lc.cidata_path("a")));
}

// Volumes

#[test]
fn volumes_become_drives() {
    let lc = lifecycle();
    let mounts = vec![
        ResolvedMount::Named {
            name: "data".to_string(),
            destination: "/data".to_string(),
            read_only: false,
            driver: "local".to_string(),
        },
        ResolvedMount::Bind {
            source: "/srv/in".to_string(),
            destination: "/in".to_string(),
            read_only: true,
        },
        ResolvedMount::Content {
            content: "x=1".to_string(),
            destination: "/etc/app/app.env".to_string(),
        },
    ];
    let (plans, error) = prepare_volume_drives(&lc, "a", "ns", &mounts);
    assert_eq!(error, None);
    assert_eq!(plans.len(), 3);
    assert_eq!(plans[0].image, lc.named_volume_path("ns", "data"));
    assert_eq!(plans[1].image, lc.ephemeral_volume_path("a", 1));
    assert!(matches!(&plans[1].build, VolumeBuild::FromDirectory { source } if source == "/srv/in"));
    assert!(matches!(&plans[2].build, VolumeBuild::FromFile { content, .. } if content == "x=1"));
    assert_eq!(plans[2].destination, "/etc/app");
    let devices: Vec<&str> = plans.iter().map(|p| p.device.as_str()).collect();
    assert!(devices[0] < devices[1] && devices[1] < devices[2]);
    assert!(!volume_drive(&plans[1], 1).is_root_device);
    assert!(bind_source_error("/srv/in").contains("/srv/in"));
}

#[test]
fn too_many_volumes_are_refused() {
    let mounts: Vec<ResolvedMount> = (0..30)
        .map(|i| ResolvedMount::Bind {
            source: format!("/srv/{}", i),
            destination: format!("/d/{}", i),
            read_only: true,
        })
        .collect();
    let (_, error) = prepare_volume_drives(&lifecycle(), "a", "ns", &mounts);
    assert!(error.is_some());
    assert!(plan_volume(&lifecycle(), "a", "ns", &mounts[0], 0).is_ok());
}

#[test]
fn an_image_has_room_to_spare() {
    assert_eq!(sizing_mib_for_bytes(0), 16);
    assert_eq!(sizing_mib_for_bytes(3 * 1024 * 1024), 19);
}

#[test]
fn rotated_logs_are_swept_up_to_the_first_gap() {
    assert_eq!(next_stale_backup(0, true), Some(1));
    assert_eq!(next_stale_backup(3, true), Some(4));
    assert_eq!(next_stale_backup(3, false), None);
    assert_eq!(next_stale_backup(1000, true), None);
}

#[test]
fn command_line_names_the_instance_of_its_socket() {
    let lc = lifecycle();
    for id in ["a", "dep-1-\u{e9}", ".sock"] {
        let cmd = format!("/bin/firecracker\0--api-sock\0{}\0", lc.socket_path(id));
        assert_eq!(instance_id_from_cmdline(cmd.as_bytes()), Some(id.to_string()));
        let other = format!("/bin/qemu\0--api-sock\0{}\0", lc.socket_path(id));
        assert_eq!(instance_id_from_cmdline(other.as_bytes()), None);
    }
    assert_eq!(instance_id_from_cmdline(b"/bin/firecracker\0--api-sock\0/run/x\0"), None);
}
