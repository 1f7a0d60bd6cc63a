//! The reconciler that keeps its state as text.
use ring_runtime::docker::container::MountKind;
use ring_runtime::docker::exec::Frame;
use ring_runtime::docker::logs::collect_log;
use ring_runtime::docker_classic::{
    classic_aliases, classic_body, classic_connect_error, classic_create_failed,
    classic_daemon_error, classic_is_job, classic_job_begin, classic_job_created, classic_job_inspected, classic_list_query, classic_name,
    classic_network_error, classic_removed, classic_start_error, classic_unreachable,
    classic_worker_begin, classic_worker_created, classic_worker_removed, create_mount_from_volume,
    first_classic_step, http_result, http_target, image_still_missing, next_classic_step,
    no_address_message, pull_result, read_config, record_classic, should_pull, split_image, tcp_address,
    tcp_result, volumes_error, ClassicAction, ClassicDeployment, ClassicError, ClassicStep,
    ConfigData, DeploymentVolume, TcpOutcome, CLASSIC_RESTART_LIMIT,
};
use ring_runtime::models::{DeploymentConfig, HealthCheckStatus, InstanceStatus};

fn deployment(kind: &str, status: &str) -> ClassicDeployment {
    ClassicDeployment {
        id: "d1".to_string(),
        status: status.to_string(),
        restart_count: 0,
        namespace: "ns".to_string(),
        name: "web".to_string(),
        image: "nginx:1.25".to_string(),
        config: None,
        kind: kind.to_string(),
        replicas: 1,
        command: vec!["nginx".to_string()],
        instances: vec![],
        labels: vec![],
        secrets: vec![("TOKEN".to_string(), "t".to_string())],
        volumes: "[]".to_string(),
        pending_events: vec![],
    }
}

#[test]
fn test_bind_volume_creation() {
    let volume = DeploymentVolume {
        kind: "bind".to_string(),
        source: Some("/host/path".to_string()),
        destination: "/container/path".to_string(),
        driver: "local".to_string(),
        permission: "rw".to_string(),
        key: None,
    };
    let mount = create_mount_from_volume(&volume, &vec![], "test-deployment", "0000beef")
        .unwrap()
        .mount;
    assert_eq!(mount.target, "/container/path");
    assert_eq!(mount.source, "/host/path");
    assert_eq!(mount.kind, MountKind::Bind);
    assert_eq!(mount.read_only, false);
}

#[test]
fn test_config_volume_creation() {
    let config_data = r#"{"nginx.conf":"server { listen 80; server_name localhost; location / { root /usr/share/nginx/html; index index.html index.htm; } }"}"#;
    let configs = vec![read_config("test-config", config_data)];
    let volume = DeploymentVolume {
        kind: "config".to_string(),
        source: Some("test-config".to_string()),
        destination: "/app/nginx.conf".to_string(),
        driver: "local".to_string(),
        permission: "ro".to_string(),
        key: Some("nginx.conf".to_string()),
    };
    let planned =
        create_mount_from_volume(&volume, &configs, "test-deployment", "0000beef").unwrap();
    assert_eq!(planned.mount.target, "/app/nginx.conf");
    assert!(planned.mount.source.contains("/tmp/ring_configs/test-deployment"));
    assert_eq!(planned.mount.read_only, true);
    assert!(planned.content.unwrap().starts_with("server { listen 80;"));
}

#[test]
fn test_config_volume_with_missing_key_should_fail() {
    let config_data = r#"{"existing_key": "value"}"#;
    let configs = vec![read_config("test-config", config_data)];
    let volume = DeploymentVolume {
        kind: "config".to_string(),
        source: Some("test-config".to_string()),
        key: Some("missing_key".to_string()),
        destination: "/tmp/toto".to_string(),
        driver: "local".to_string(),
        permission: "ro".to_string(),
    };
    let result = create_mount_from_volume(&volume, &configs, "test-deployment", "0000beef");
    assert!(matches!(result, Err(ClassicError::ConfigKeyNotFound(_))));
}

#[test]
fn test_docker_volume_creation() {
    let volume = DeploymentVolume {
        kind: "volume".to_string(),
        source: Some("my-docker-volume".to_string()),
        destination: "/app/data".to_string(),
        driver: "local".to_string(),
        permission: "rw".to_string(),
        key: None,
    };
    let mount = create_mount_from_volume(&volume, &vec![], "test-deployment", "0000beef")
        .unwrap()
        .mount;
    assert_eq!(mount.target, "/app/data");
    assert_eq!(mount.source, "my-docker-volume");
    assert_eq!(mount.kind, MountKind::Volume);
    assert_eq!(mount.read_only, false);
}

#[test]
fn volumes_are_refused_with_a_reason() {
    let volume = |kind: &str, source: Option<&str>, key: Option<&str>| DeploymentVolume {
        kind: kind.to_string(),
        source: source.map(|s| s.to_string()),
        destination: "/x".to_string(),
        driver: "local".to_string(),
        permission: "rw".to_string(),
        key: key.map(|s| s.to_string()),
    };
    let configs = vec![
        ConfigData { name: "good".to_string(), entries: Ok(vec![]) },
        ConfigData { name: "bad".to_string(), entries: Err("no JSON".to_string()) },
    ];
    let error = |v: DeploymentVolume| create_mount_from_volume(&v, &configs, "d", "s").unwrap_err();
    for (kind, text) in [
        ("bind", "Bind volume requires a source"),
        ("volume", "Named volume requires a source"),
        ("config", "Config volume requires a source"),
    ] {
        assert_eq!(
            error(volume(kind, None, None)),
            ClassicError::InstanceCreationFailed(text.to_string())
        );
    }
    assert_eq!(
        error(volume("config", Some("none"), None)),
        ClassicError::ConfigNotFound("Config 'none' not found".to_string())
    );
    assert_eq!(
        error(volume("config", Some("bad"), None)),
        ClassicError::Other("no JSON".to_string())
    );
    assert_eq!(
        error(volume("config", Some("good"), None)),
        ClassicError::ConfigKeyNotFound("Missing 'key' field for config volume".to_string())
    );
    assert_eq!(
        error(volume("config", Some("good"), Some("k"))),
        ClassicError::ConfigKeyNotFound("Key 'k' not found in config 'good'".to_string())
    );
    assert_eq!(
        volumes_error("x"),
        ClassicError::InstanceCreationFailed("Failed to parse volumes: x".to_string())
    );
}

#[test]
fn an_image_is_split_at_its_first_colon() {
    let parts = |s: &str| split_image(s);
    assert_eq!(parts("nginx"), ("nginx".to_string(), "latest".to_string()));
    assert_eq!(parts("nginx:1.25"), ("nginx".to_string(), "1.25".to_string()));
    assert_eq!(parts("r:5000/x:v"), ("r".to_string(), "5000/x:v".to_string()));
}

#[test]
fn the_last_error_of_a_pull_counts() {
    let text = |s: &str| Some(s.to_string());
    assert_eq!(pull_result(&vec![None, None]), Ok(()));
    assert_eq!(
        pull_result(&vec![text("a"), None, text("b")]),
        Err(ClassicError::ImagePullFailed("b".to_string()))
    );
    assert_eq!(
        pull_result(&vec![text("a"), text("manifest unknown"), text("b")]),
        Err(ClassicError::ImageNotFound("manifest unknown".to_string()))
    );
    assert_eq!(
        image_still_missing("x:1"),
        ClassicError::ImageNotFound("Image x:1 not available after pull".to_string())
    );
    assert_eq!(
        classic_daemon_error("404".to_string()),
        ClassicError::ImageNotFound("404".to_string())
    );
    assert_eq!(classic_daemon_error("x".to_string()), ClassicError::Other("x".to_string()));
}

#[test]
fn a_container_is_created_step_by_step() {
    let mut config = DeploymentConfig {
        image_pull_policy: "Always".to_string(),
        server: None,
        username: None,
        password: None,
        user: None,
    };
    assert!(should_pull(&None));
    config.image_pull_policy = "Never".to_string();
    assert_eq!(first_classic_step(&Some(config)), ClassicStep::LookForNetwork);
    let mut step = first_classic_step(&None);
    let mut seen = vec![];
    while step != ClassicStep::Done {
        seen.push(step);
        let missing = step == ClassicStep::LookForImage || step == ClassicStep::LookForNetwork;
        step = next_classic_step(step, !missing);
    }
    assert_eq!(seen.len(), 9);
    assert_eq!(next_classic_step(ClassicStep::Connect, false), ClassicStep::Failed);
    let d = deployment("worker", "running");
    let body = classic_body(&d, vec![]);
    assert_eq!(classic_name(&d, "0000beef"), "ns_web_0000beef");
    assert_eq!(classic_aliases(&d, "c"), vec!["web", "c"]);
    assert_eq!(
        classic_network_error("ring_ns", "x"),
        ClassicError::NetworkCreationFailed("Failed to create network ring_ns: x".to_string())
    );
    assert_eq!(
        classic_connect_error("x"),
        ClassicError::InstanceCreationFailed("Docker failed to connect to network: x".to_string())
    );
    assert_eq!(
        classic_start_error("x"),
        ClassicError::InstanceCreationFailed("Docker failed to start container: x".to_string())
    );
    assert_eq!(body.env, vec!["TOKEN=t"]);
    assert_eq!(body.cmd, vec!["nginx"]);
    assert_eq!(body.labels, vec![("ring_deployment".to_string(), "d1".to_string())]);
}

#[test]
fn a_worker_is_given_up_after_too_many_starts() {
    let mut d = deployment("worker", "creating");
    d.replicas = 10;
    for n in 0..CLASSIC_RESTART_LIMIT {
        assert_eq!(classic_worker_begin(&mut d), ClassicAction::Create);
        record_classic(&mut d, "c");
        classic_worker_created(&mut d, n as usize);
        assert_eq!(d.status, "running");
    }
    assert_eq!(classic_worker_begin(&mut d), ClassicAction::Stop);
    assert_eq!(d.status, "CrashLoopBackOff");
    assert_eq!(d.pending_events[0].message, "Scaled up from 0 to 1 replicas");
    d.status = "deleted".to_string();
    assert_eq!(classic_worker_begin(&mut d), ClassicAction::RemoveAll);
    classic_removed(&mut d, "worker");
    assert_eq!(
        d.pending_events.last().unwrap().message,
        "Deleted 5 container(s) for worker marked as deleted"
    );
}

#[test]
fn a_worker_is_scaled_down_from_the_front() {
    let mut d = deployment("worker", "running");
    d.instances = vec!["a".to_string(), "b".to_string()];
    assert_eq!(classic_worker_begin(&mut d), ClassicAction::RemoveFirst);
    classic_worker_removed(&mut d);
    assert_eq!(d.instances, vec!["b"]);
    assert_eq!(
        d.pending_events[0].message,
        "Scaled down from 2 to 1 replicas (removed container a)"
    );
    assert_eq!(classic_worker_begin(&mut d), ClassicAction::Stop);
}

#[test]
fn failures_have_their_status_and_reason() {
    let text = || "m".to_string();
    for (error, status, message, reason) in [
        (ClassicError::ImageNotFound(text()), "ImagePullBackOff", "Image 'nginx:1.25' not found", "ImagePullBackOff"),
        (ClassicError::ImagePullFailed(text()), "ImagePullBackOff", "Failed to pull image 'nginx:1.25'", "ImagePullBackOff"),
        (ClassicError::InstanceCreationFailed(text()), "CreateContainerError", "Container creation failed: m", "InstanceCreationFailed"),
        (ClassicError::NetworkCreationFailed(text()), "NetworkError", "Failed to create network for namespace 'ns'", "NetworkCreationFailed"),
        (ClassicError::ConfigNotFound(text()), "ConfigError", "Config not found in namespace 'ns'", "ConfigError"),
        (ClassicError::ConfigKeyNotFound(text()), "ConfigError", "Config key not found in namespace 'ns'", "ConfigError"),
        (ClassicError::FileSystemError(text()), "FileSystemError", "Failed to access file system for config mount", "FileSystemError"),
        (ClassicError::ConnectionFailed(text()), "Error", "Connection failed: m", "ConnectionFailed"),
        (ClassicError::Other(text()), "Error", "Docker error: m", "RuntimeError"),
    ] {
        let mut d = deployment("worker", "creating");
        classic_create_failed(&mut d, &error, true);
        assert_eq!(d.status, status);
        assert_eq!(d.restart_count, 1);
        assert_eq!(d.pending_events[0].message, message);
        assert_eq!(d.pending_events[0].reason, Some(reason.to_string()));
        classic_create_failed(&mut d, &error, false);
        assert_eq!(d.restart_count, 1);
    }
}

#[test]
fn a_job_is_created_once() {
    let mut d = deployment("job", "creating");
    assert_eq!(classic_job_begin(&d, 0), ClassicAction::Create);
    assert_eq!(classic_job_begin(&d, 1), ClassicAction::Inspect);
    classic_job_created(&mut d);
    assert_eq!(d.status, "running");
    assert_eq!(classic_job_begin(&d, 0), ClassicAction::Stop);
    classic_job_inspected(&mut d, InstanceStatus::Completed);
    assert_eq!(d.status, "completed");
    classic_job_inspected(&mut d, InstanceStatus::Failed);
    assert_eq!(d.status, "failed");
}

#[test]
fn listings_ask_for_states() {
    let q = classic_list_query("all");
    assert!(q.all && q.statuses.is_empty());
    let q = classic_list_query("active");
    assert!(q.all);
    assert_eq!(q.statuses, vec!["running", "created", "restarting"]);
    let q = classic_list_query("exited");
    assert!(!q.all);
    assert_eq!(q.statuses, vec!["exited"]);
}

#[test]
fn a_log_ends_at_an_error() {
    let line = |s: &str| Some(Frame::StdOut(s.as_bytes().to_vec()));
    assert_eq!(
        collect_log(&vec![line("a\n"), line("  \n"), line("b\n"), None, line("c\n")]),
        vec!["a", "b"]
    );
}

#[test]
fn checks_go_to_the_container() {
    assert_eq!(http_target("http://localhost:80/localhost", "10.0.0.2"), "http://10.0.0.2:80/10.0.0.2");
    assert_eq!(http_target("http://example.org/", "10.0.0.2"), "http://example.org/");
    assert_eq!(tcp_address("10.0.0.2", 80), "10.0.0.2:80");
    assert_eq!(no_address_message("c1"), "Could not get IP for container c1");
    assert_eq!(
        tcp_result("a:1", &TcpOutcome::Connected),
        (HealthCheckStatus::Success, "TCP connection to a:1 successful".to_string())
    );
    assert_eq!(
        tcp_result("a:1", &TcpOutcome::Refused("no".to_string())).1,
        "TCP connection failed: no"
    );
    assert_eq!(tcp_result("a:1", &TcpOutcome::TimedOut).1, "TCP connection timed out for a:1");
    assert_eq!(
        http_result("u", &Ok(299)),
        (HealthCheckStatus::Success, "HTTP check successful (299) for u".to_string())
    );
    assert_eq!(
        http_result("u", &Ok(300)),
        (HealthCheckStatus::Failed, "HTTP check failed with status 300 for u".to_string())
    );
    assert_eq!(
        http_result("u", &Err("no".to_string())).1,
        "HTTP request failed for u: no"
    );
}

#[test]
fn job_that_fails_leaves_a_full_counter() {
    let mut d = deployment("job", "pending");
    assert!(classic_is_job(&d));
    assert!(!classic_is_job(&deployment("worker", "pending")));
    d.restart_count = u32::MAX;
    classic_create_failed(&mut d, &ClassicError::Other("x".to_string()), false);
    assert_eq!(d.restart_count, u32::MAX);
    classic_unreachable(&mut d);
    assert_eq!(d.status, "Error");
}

#[test]
fn config_is_read_from_its_text() {
    let config = read_config("c", r#"{"a": "1", "b": "2", "a": "3"}"#);
    assert_eq!(config.name, "c");
    let mut entries = config.entries.unwrap();
    entries.sort();
    assert_eq!(
        entries,
        vec![("a".to_string(), "3".to_string()), ("b".to_string(), "2".to_string())]
    );
    assert!(read_config("c", "{}").entries.unwrap().is_empty());
    assert!(read_config("c", "").entries.unwrap_err().starts_with("EOF while parsing"));
    assert!(read_config("c", r#"{"a": 1}"#).entries.is_err());
    let volume = DeploymentVolume {
        kind: "config".to_string(),
        source: Some("c".to_string()),
        destination: "/x".to_string(),
        driver: "local".to_string(),
        permission: "ro".to_string(),
        key: Some("b".to_string()),
    };
    let good = vec![read_config("c", r#"{"b": "two"}"#)];
    let planned = create_mount_from_volume(&volume, &good, "d", "s").unwrap();
    assert_eq!(planned.content, Some("two".to_string()));
    let bad = vec![read_config("c", "no JSON")];
    let error = create_mount_from_volume(&volume, &bad, "d", "s").unwrap_err();
    assert!(matches!(error, ClassicError::Other(_)));
}
