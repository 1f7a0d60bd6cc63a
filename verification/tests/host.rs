//! What the runtimes share: networks, resources, logs, registries and texts.
use ring_runtime::api_client::{interpret_response, make_request, ClientError, Method};
use ring_runtime::classifier::{classify_create_error, classify_exit_code, Disposition};
use ring_runtime::entries::{contains_text, instance_labels, plain_env, upsert};
use ring_runtime::error::RuntimeError;
use ring_runtime::host_net::{cid_for_instance, stable_hash, InstanceNet};
use ring_runtime::lifecycle_trait::{
    append_logs, classify_log, extract_date, gather_logs, health_checks_not_supported,
    select_instances, with_own_names,
};
use ring_runtime::mock::MockRuntime;
use ring_runtime::models::{
    Deployment, DeploymentStatus, EnvValue, HealthCheckStatus, Resource, ResourceSpec,
};
use ring_runtime::paths::{instance_path, join_path};
use ring_runtime::podman::{resolve_socket_host, PodmanEnv};
use ring_runtime::port_forwarder::{forwarder_args, forwarder_error, listen_ip};
use ring_runtime::quantities::{parse_cpu_string, parse_duration, parse_memory_string};
use ring_runtime::registry_auth::{
    decide_host_auth, lookup_keys, map_retrieval_error, registry_host_for, resolve_host_auth,
    settles, CredentialReply, HostAuthError,
};
use ring_runtime::resources::{
    check_against, check_host_memory, check_memory, reported_bytes, required_memory_bytes,
};
use ring_runtime::runtime::Runtime;
use ring_runtime::text::{
    ascii_lowercase, begins, decimal_i64, decimal_u64, ends, first_bytes, has,
    hexadecimal_u64, lines_of, parse_unsigned, short_id, space, strip_end, strip_end_all,
    strip_front, trim, trim_end, words_of, zero_pad,
};

fn bare_deployment() -> Deployment {
    Deployment {
        id: "dep-0001".to_string(),
        created_at: String::new(),
        updated_at: None,
        status: DeploymentStatus::Pending,
        restart_count: 0,
        namespace: "default".to_string(),
        name: "web".to_string(),
        image: "alpine:3".to_string(),
        config: None,
        runtime: "docker".to_string(),
        kind: "worker".to_string(),
        replicas: 1,
        command: vec![],
        instances: vec![],
        labels: vec![],
        environment: vec![],
        volumes: "[]".to_string(),
        health_checks: vec![],
        resources: None,
        image_digest: None,
        ports: vec![],
        pending_events: vec![],
        parent_id: None,
        network: None,
    }
}

fn deployment_with(requests: Option<&str>, limits: Option<&str>) -> Deployment {
    let mut d = bare_deployment();
    d.resources = Some(Resource {
        requests: requests.map(|m| ResourceSpec {
            cpu: None,
            memory: Some(m.to_string()),
        }),
        limits: limits.map(|m| ResourceSpec {
            cpu: None,
            memory: Some(m.to_string()),
        }),
    });
    d
}

#[test]
fn allocation_is_deterministic() {
    let a = InstanceNet::for_instance("ch-deadbeef-12345678");
    let b = InstanceNet::for_instance("ch-deadbeef-12345678");
    assert_eq!(a.tap_name, b.tap_name);
    assert_eq!(a.host_ip, b.host_ip);
    assert_eq!(a.guest_ip, b.guest_ip);
    assert_eq!(a.mac, b.mac);
}

#[test]
fn distinct_instances_get_distinct_subnets() {
    let ids = [
        "ch-aaaaaaaa-11111111",
        "ch-bbbbbbbb-22222222",
        "ch-cccccccc-33333333",
        "ch-dddddddd-44444444",
        "ch-eeeeeeee-55555555",
    ];
    let nets: Vec<_> = ids.iter().map(|i| InstanceNet::for_instance(i)).collect();
    for i in 0..nets.len() {
        for j in (i + 1)..nets.len() {
            assert_ne!(
                nets[i].host_ip, nets[j].host_ip,
                "{} and {} collided on the host IP",
                ids[i], ids[j]
            );
        }
    }
}

#[test]
fn ips_belong_to_the_same_slash_30() {
    let n = InstanceNet::for_instance("test");
    let host_last: u8 = n.host_ip.split('.').nth(3).unwrap().parse().unwrap();
    let guest_last: u8 = n.guest_ip.split('.').nth(3).unwrap().parse().unwrap();
    assert_eq!(guest_last, host_last + 1);
    assert_eq!(host_last % 4, 1);
}

#[test]
fn tap_name_fits_in_ifnamsiz() {
    let n = InstanceNet::for_instance("ch-anything-anything-anything");
    assert!(
        n.tap_name.len() <= 15,
        "tap_name '{}' exceeds 15 chars",
        n.tap_name
    );
}

#[test]
fn mac_is_locally_administered_unicast() {
    let n = InstanceNet::for_instance("test");
    let first: u8 = u8::from_str_radix(n.mac.split(':').next().unwrap(), 16).unwrap();
    assert_eq!(first & 0x03, 0x02);
}

#[test]
fn prefix_len_matches_netmask() {
    let n = InstanceNet::for_instance("test");
    assert_eq!(n.prefix_len, 30);
    assert_eq!(n.netmask, "255.255.255.252");
}

#[test]
fn lifecycle_trait_test_classify_log() {
    assert_eq!(classify_log("[info] This is an info log"), "info");
    assert_eq!(classify_log("[error] This is an error log"), "error");
    assert_eq!(classify_log("[warning] This is a warning log"), "warning");
    assert_eq!(classify_log("[notice] This is a notice log"), "info");
    assert_eq!(classify_log("info: This is a notice log"), "info");
    assert_eq!(classify_log("Coucou"), "unknown");
}

#[test]
fn lifecycle_trait_test_extract_date() {
    assert_eq!(
        extract_date("2021/08/10 12:00:00 [info] This is an info log"),
        Some("2021/08/10 12:00:00".to_string())
    );
    assert_eq!(extract_date("[info] This is an info log"), None);
}

#[test]
fn runtime_test_classify_log() {
    assert_eq!(ring_runtime::runtime::classify_log("[info] This is an info log"), "info");
    assert_eq!(ring_runtime::runtime::classify_log("[error] This is an error log"), "error");
    assert_eq!(ring_runtime::runtime::classify_log("[warning] This is a warning log"), "warning");
    assert_eq!(ring_runtime::runtime::classify_log("[notice] This is a notice log"), "info");
    assert_eq!(ring_runtime::runtime::classify_log("info: This is a notice log"), "info");
    assert_eq!(ring_runtime::runtime::classify_log("Coucou"), "info");
}

#[test]
fn runtime_test_extract_date() {
    assert_eq!(
        ring_runtime::runtime::extract_date("2021/08/10 12:00:00 [info] This is an info log"),
        Some("2021/08/10 12:00:00".to_string())
    );
    assert_eq!(ring_runtime::runtime::extract_date("[info] This is an info log"), None);
}

#[test]
fn required_prefers_requests_over_limits() {
    let d = deployment_with(Some("256Mi"), Some("512Mi"));
    assert_eq!(required_memory_bytes(&d), Some(256 * 1024 * 1024));
}

#[test]
fn required_falls_back_to_limits_when_no_request() {
    let d = deployment_with(None, Some("512Mi"));
    assert_eq!(required_memory_bytes(&d), Some(512 * 1024 * 1024));
}

#[test]
fn required_is_none_when_nothing_declared() {
    let d = deployment_with(None, None);
    assert_eq!(required_memory_bytes(&d), None);

    let bare = bare_deployment();
    assert_eq!(required_memory_bytes(&bare), None);
}

#[test]
fn check_passes_when_within_headroom() {
    assert!(check_against("web", 200 * 1024 * 1024, 1024 * 1024 * 1024).is_ok());
    assert!(check_against("web", 512 * 1024 * 1024, 512 * 1024 * 1024).is_ok());
}

#[test]
fn check_fails_and_names_both_figures() {
    let err = check_against("web", 8 * 1024 * 1024 * 1024, 2 * 1024 * 1024 * 1024)
        .expect_err("8 GiB on 2 GiB available must be refused");
    match err {
        RuntimeError::InsufficientResources(msg) => {
            assert!(msg.contains("'web'"), "names the deployment: {msg}");
            assert!(msg.contains("8192 MiB"), "names the requirement: {msg}");
            assert!(msg.contains("2048 MiB"), "names what's available: {msg}");
        }
        other => panic!("expected InsufficientResources, got {other:?}"),
    }
}

#[test]
fn registry_host_official_image_defaults_to_hub() {
    assert_eq!(registry_host_for("nginx"), "docker.io");
}

#[test]
fn registry_host_hub_org_image_defaults_to_hub() {
    assert_eq!(registry_host_for("bitnami/redis"), "docker.io");
}

#[test]
fn registry_host_explicit_domain_kept() {
    assert_eq!(registry_host_for("ghcr.io/o/p:v1"), "ghcr.io");
}

#[test]
fn registry_host_with_port_kept() {
    assert_eq!(
        registry_host_for("registry.example:5000/foo/bar"),
        "registry.example:5000"
    );
}

#[test]
fn registry_host_localhost_kept() {
    assert_eq!(registry_host_for("localhost:5000/x"), "localhost:5000");
}

#[test]
fn decide_not_activated_keeps_inline() {
    assert!(matches!(decide_host_auth(false, false), Ok(false)));
    assert!(matches!(decide_host_auth(true, false), Ok(false)));
}

#[test]
fn decide_authorized_and_activated_uses_host() {
    assert!(matches!(decide_host_auth(true, true), Ok(true)));
}

#[test]
fn decide_activated_but_unauthorized_errors() {
    assert!(matches!(
        decide_host_auth(false, true),
        Err(HostAuthError::NotAuthorized)
    ));
}

// Networks

#[test]
fn addresses_come_from_a_stable_hash() {
    let mut h: u64 = 0xcbf2_9ce4_8422_2325;
    for b in "test".bytes() {
        h ^= b as u64;
        h = h.wrapping_mul(0x0000_0100_0000_01b3);
    }
    assert_eq!(stable_hash("test"), h);
    assert_eq!(stable_hash(""), 0xcbf2_9ce4_8422_2325);
    assert!(cid_for_instance("test") >= 3);
    assert_ne!(cid_for_instance("test"), u32::MAX);
    assert_eq!(cid_for_instance("test"), cid_for_instance("test"));
    let n = InstanceNet::for_instance("test");
    assert_eq!(n.tap_name, "ring-2b25");
    assert_eq!(n.host_ip, "10.42.172.149");
    assert_eq!(n.guest_ip, "10.42.172.150");
    assert_eq!(n.mac, "02:ef:19:7c:2b:25");
}

// Resources

#[test]
fn quantities_are_read_with_their_units() {
    assert_eq!(parse_cpu_string("500m"), Ok(500_000_000));
    assert_eq!(parse_cpu_string("2"), Ok(2_000_000_000));
    assert!(parse_cpu_string("many").is_err());
    assert_eq!(parse_memory_string("1Gi"), Ok(1 << 30));
    assert_eq!(parse_memory_string("512Mi"), Ok(512 << 20));
    assert!(parse_memory_string("").is_err());
    assert_eq!(parse_duration("10s"), Some(10_000_000_000));
    assert_eq!(parse_duration("250ms"), Some(250_000_000));
    assert_eq!(parse_duration("soon"), None);
}

#[test]
fn memory_is_checked_only_where_it_is_declared() {
    assert!(check_memory(&bare_deployment(), 0).is_ok());
    let d = deployment_with(Some("64Mi"), None);
    assert!(check_memory(&d, 64 << 20).is_ok());
    assert!(check_memory(&d, (64 << 20) - 1).is_err());
    assert!(check_host_memory(&bare_deployment()).is_ok());
    assert!(check_host_memory(&deployment_with(Some("1Ki"), None)).is_ok());
    match check_host_memory(&deployment_with(Some("8000000Ti"), None)) {
        Err(RuntimeError::InsufficientResources(msg)) => {
            assert!(msg.contains("needs 8388608000000 MiB"), "{}", msg);
        }
        other => panic!("expected InsufficientResources, got {:?}", other),
    }
}

#[test]
fn exit_codes_of_a_missing_command_are_final() {
    for code in [126, 127] {
        assert!(classify_exit_code(Some(code)).is_terminal());
    }
    for code in [None, Some(0), Some(1), Some(137)] {
        assert_eq!(classify_exit_code(code), Disposition::Retryable);
    }
    assert!(classify_create_error(&RuntimeError::ImageNotFound("x".to_string())).is_terminal());
    assert!(!classify_create_error(&RuntimeError::ImagePullFailed("x".to_string())).is_terminal());
}

// Logs

#[test]
fn logs_of_several_instances_follow_each_other() {
    let logs = gather_logs(&vec![
        ("a".to_string(), vec!["[error] x".to_string(), "y".to_string()]),
        ("b".to_string(), vec!["2021/08/10 12:00:00 z".to_string()]),
    ]);
    let seen: Vec<(&str, &str)> =
        logs.iter().map(|l| (l.instance.as_str(), l.level.as_str())).collect();
    assert_eq!(seen, vec![("a", "error"), ("a", "unknown"), ("b", "unknown")]);
    assert_eq!(logs[2].timestamp, Some("2021/08/10 12:00:00".to_string()));
    let mut out = logs;
    append_logs(&mut out, "c", &vec!["[info] w".to_string()]);
    assert_eq!(out[3].message, "[info] w");
    assert_eq!(ring_runtime::runtime::to_log("i", "plain").level, "info");
    assert_eq!(ring_runtime::lifecycle_trait::to_log("i", "plain").level, "unknown");
    println!("{:?}", Runtime {});
}

#[test]
fn a_date_is_found_inside_a_line() {
    assert_eq!(
        extract_date("x2021/08/10 12:00:0 2022/01/02 03:04:05y"),
        Some("2022/01/02 03:04:05".to_string())
    );
    assert_eq!(extract_date("2021-08-10 12:00:00"), None);
    assert_eq!(extract_date("é 2021/08/10 12:00:00"), Some("2021/08/10 12:00:00".to_string()));
}

#[test]
fn a_named_instance_is_selected_whole() {
    let ids = vec!["a".to_string(), "ab".to_string()];
    assert_eq!(select_instances(&ids, None), ids);
    assert_eq!(select_instances(&ids, Some("a")), vec!["a"]);
    assert!(select_instances(&ids, Some("b")).is_empty());
    assert_eq!(with_own_names(&ids)[1], ("ab".to_string(), "ab".to_string()));
    assert_eq!(health_checks_not_supported().0, HealthCheckStatus::Failed);
}

// Podman

fn env() -> PodmanEnv {
    PodmanEnv { ring_podman_host: None, docker_host: None, xdg_runtime_dir: None, uid: None }
}

#[test]
fn explicit_override_wins() {
    let mut e = env();
    e.ring_podman_host = Some("tcp://10.0.0.1:8080".to_string());
    e.docker_host = Some("unix:///should/be/ignored.sock".to_string());
    assert_eq!(resolve_socket_host(&e), "tcp://10.0.0.1:8080");
}

#[test]
fn docker_host_used_when_no_explicit() {
    let mut e = env();
    e.docker_host = Some("unix:///run/user/1000/podman/podman.sock".to_string());
    assert_eq!(resolve_socket_host(&e), "unix:///run/user/1000/podman/podman.sock");
}

#[test]
fn rootless_default_from_xdg_runtime_dir() {
    let mut e = env();
    e.xdg_runtime_dir = Some("/run/user/1000".to_string());
    assert_eq!(resolve_socket_host(&e), "unix:///run/user/1000/podman/podman.sock");
}

#[test]
fn rootless_default_from_uid_fallback() {
    let mut e = env();
    e.uid = Some("1234".to_string());
    assert_eq!(resolve_socket_host(&e), "unix:///run/user/1234/podman/podman.sock");
}

#[test]
fn root_default_as_last_resort() {
    assert_eq!(resolve_socket_host(&env()), "unix:///run/podman/podman.sock");
}

#[test]
fn empty_override_is_ignored() {
    let mut e = env();
    e.ring_podman_host = Some("   ".to_string());
    e.xdg_runtime_dir = Some("/run/user/1000".to_string());
    assert_eq!(resolve_socket_host(&e), "unix:///run/user/1000/podman/podman.sock");
}

// Port forwarding

#[test]
fn spawn_forwarder_rejects_a_port_already_in_use() {
    let err = forwarder_args("10.0.0.1", 8080, 5432, &None, false)
        .expect_err("spawn_forwarder should refuse a bound port");
    match err {
        RuntimeError::PortAlreadyInUse(p) => assert_eq!(p, 8080),
        other => panic!("expected PortAlreadyInUse, got {:?}", other),
    }
}

#[test]
fn a_forwarder_listens_on_its_interface_only() {
    let ip = Some("127.0.0.1".to_string());
    assert_eq!(listen_ip(&ip), "127.0.0.1");
    assert_eq!(
        forwarder_args("127.0.0.99", 8080, 9999, &ip, true).unwrap(),
        vec![
            "-d",
            "-d",
            "TCP4-LISTEN:8080,reuseaddr,fork,bind=127.0.0.1",
            "TCP4:127.0.0.99:9999"
        ]
    );
    assert_eq!(
        forwarder_args("127.0.0.99", 8080, 9999, &None, true).unwrap()[2],
        "TCP4-LISTEN:8080,reuseaddr,fork"
    );
    assert_eq!(
        forwarder_error("10.0.0.1", 80, 8080, "gone"),
        RuntimeError::Other(
            "failed to spawn socat for 80->10.0.0.1:8080: gone (install socat?)".to_string()
        )
    );
}

// Registries

#[test]
fn lookups_stop_at_the_first_answer() {
    let pair = || CredentialReply::UsernamePassword("me".to_string(), "pw".to_string());
    let ok = Ok(("me".to_string(), "pw".to_string()));
    assert_eq!(
        lookup_keys("docker.io"),
        vec!["https://index.docker.io/v1/", "docker.io"]
    );
    assert_eq!(lookup_keys("ghcr.io"), vec!["ghcr.io"]);
    let replies = vec![CredentialReply::NoCredentialConfigured, pair()];
    assert_eq!(resolve_host_auth("docker.io", &replies), ok);
    let replies = vec![pair(), CredentialReply::IdentityToken];
    assert_eq!(resolve_host_auth("docker.io", &replies), ok);
    assert!(settles(&replies[0]) && settles(&replies[1]));
    assert!(!settles(&CredentialReply::NoCredentialConfigured));
    assert!(matches!(
        resolve_host_auth("x", &vec![CredentialReply::IdentityToken]),
        Err(HostAuthError::HelperFailed(m)) if m.contains("identity token")
    ));
    assert_eq!(
        resolve_host_auth("x", &vec![]),
        Err(HostAuthError::NoEntryForRegistry("x".to_string()))
    );
    assert_eq!(
        resolve_host_auth("x", &vec![CredentialReply::ConfigNotFound("none".to_string())]),
        Err(HostAuthError::ConfigUnavailable("none".to_string()))
    );
    assert_eq!(
        map_retrieval_error(&CredentialReply::OtherError("boom".to_string()), "x"),
        HostAuthError::HelperFailed("boom".to_string())
    );
}

#[test]
fn registry_errors_tell_what_to_do() {
    assert!(HostAuthError::NotAuthorized.message().contains("use_host_registry_auth = true"));
    assert!(HostAuthError::ConfigUnavailable("gone".to_string()).message().contains("(gone)"));
    assert_eq!(
        HostAuthError::NoEntryForRegistry("ghcr.io".to_string()).message(),
        "no host credential found for registry 'ghcr.io' — run `docker login ghcr.io` as the Ring daemon's user, or set host_registry_config"
    );
    assert_eq!(
        HostAuthError::HelperFailed("x".to_string()).message(),
        "host credential helper failed: x"
    );
}

// Requests

#[test]
fn replies_are_judged_by_their_status() {
    assert!(matches!(interpret_response(200, "200 OK", b"{}"), Ok(body) if body == "{}"));
    match interpret_response(404, "404 Not Found", b"gone") {
        Err(ClientError::Api { status, body }) => {
            assert_eq!(status, "404 Not Found");
            assert_eq!(body, "gone");
        }
        other => panic!("unexpected reply {:?}", other),
    }
    assert!(ClientError::Http("refused".to_string()).message().contains("refused"));
    assert!(ClientError::Json("bad".to_string()).message().contains("bad"));
    let request = make_request("/s", Method::Get, "/x", None);
    assert_eq!((request.socket.as_str(), request.endpoint.as_str()), ("/s", "/x"));
}

#[test]
fn every_error_has_a_text() {
    assert!(RuntimeError::PortAlreadyInUse(80).message().contains("80"));
    for e in [
        RuntimeError::ImageNotFound("d".to_string()),
        RuntimeError::ImagePullFailed("d".to_string()),
        RuntimeError::InstanceCreationFailed("d".to_string()),
        RuntimeError::ConfigNotFound("d".to_string()),
        RuntimeError::ConfigKeyNotFound("d".to_string()),
        RuntimeError::NetworkCreationFailed("d".to_string()),
        RuntimeError::StatsFetchFailed("d".to_string()),
        RuntimeError::FirmwareNotFound("d".to_string()),
        RuntimeError::VmStartFailed("d".to_string()),
        RuntimeError::InsufficientResources("d".to_string()),
        RuntimeError::Other("d".to_string()),
        RuntimeError::Io("d".to_string()),
        RuntimeError::Json("d".to_string()),
    ] {
        assert!(e.message().ends_with('d'), "{:?}", e);
    }
}

// Lists of entries

#[test]
fn a_deployments_own_labels_win() {
    let own = vec![
        ("team".to_string(), "a".to_string()),
        ("ring_deployment".to_string(), "spoofed".to_string()),
    ];
    let labels = instance_labels("ring_deployment", "d1", &own);
    assert_eq!(labels.len(), 2);
    assert!(labels.contains(&("ring_deployment".to_string(), "spoofed".to_string())));
    let mut list = vec![("a".to_string(), "1".to_string())];
    upsert(&mut list, "a", "2".to_string());
    upsert(&mut list, "b", "3".to_string());
    assert_eq!(list, vec![("a".to_string(), "2".to_string()), ("b".to_string(), "3".to_string())]);
    assert!(contains_text(&vec!["x".to_string()], "x"));
    let env = vec![
        ("A".to_string(), EnvValue::Plain("1".to_string())),
        ("B".to_string(), EnvValue::SecretRef { secret_ref: "s".to_string() }),
    ];
    assert_eq!(plain_env(&env), vec!["A=1"]);
}

#[test]
fn paths_are_joined_with_one_slash() {
    assert_eq!(join_path("/run", "x"), "/run/x");
    assert_eq!(join_path("/run/", "x"), "/run/x");
    assert_eq!(instance_path("/run", "vm", ".sock"), "/run/vm.sock");
}

#[test]
fn a_mock_answers_as_it_was_told() {
    assert_eq!(
        MockRuntime::healthy().execute_health_check(),
        (HealthCheckStatus::Success, None)
    );
    assert_eq!(
        MockRuntime::unhealthy("down").execute_health_check(),
        (HealthCheckStatus::Failed, Some("down".to_string()))
    );
}

// Texts

#[test]
fn white_space_is_that_of_the_standard_library() {
    for c in (0..=0x10ffffu32).filter_map(char::from_u32) {
        assert_eq!(space(c), c.is_whitespace(), "{:?}", c);
    }
}

#[test]
fn texts_are_cut_as_the_standard_library_does() {
    for s in ["", "a", "a\nb", "a\r\nb\n", "\n", "x\r", " a b ", "\u{a0}é\t", "a//", "//", "aXbX"] {
        assert_eq!(lines_of(s), s.lines().collect::<Vec<_>>(), "{:?}", s);
        assert_eq!(words_of(s), s.split_whitespace().collect::<Vec<_>>(), "{:?}", s);
        assert_eq!(trim(s), s.trim());
        assert_eq!(trim_end(s), s.trim_end());
        assert_eq!(strip_end_all(s, "/"), s.trim_end_matches('/'));
        assert_eq!(strip_end(s, "b").as_deref(), s.strip_suffix("b"));
        assert_eq!(strip_front(s, "a").as_deref(), s.strip_prefix("a"));
        assert_eq!(ascii_lowercase(s), s.to_ascii_lowercase());
        assert_eq!(has(s, "b"), s.contains("b"));
        assert_eq!(has(s, ""), s.contains(""));
        assert_eq!(begins(s, "a"), s.starts_with("a"));
        assert_eq!(ends(s, "b"), s.ends_with("b"));
    }
}

#[test]
fn numbers_are_written_and_read() {
    for n in [0u64, 7, 10, 255, 4096, u64::MAX] {
        assert_eq!(decimal_u64(n), n.to_string());
        assert_eq!(hexadecimal_u64(n), format!("{:x}", n));
        assert_eq!(parse_unsigned(&n.to_string(), u64::MAX), Some(n));
    }
    for n in [i64::MIN, -1, 0, i64::MAX] {
        assert_eq!(decimal_i64(n), n.to_string());
    }
    for s in ["", "+", "+5", "-1", "5a", " 5", "007", "18446744073709551616"] {
        assert_eq!(parse_unsigned(s, u64::MAX), s.parse::<u64>().ok(), "{:?}", s);
    }
    assert_eq!(parse_unsigned("256", 255), None);
    assert_eq!(zero_pad("ff", 8), "000000ff");
    assert_eq!(zero_pad("123456789", 8), "123456789");
    assert_eq!(first_bytes("abcdef", 3), "abc");
    assert_eq!(first_bytes("ab", 3), "ab");
    assert_eq!(short_id("0123456789abcdef"), "0123456789ab");
}

#[test]
fn host_that_cannot_be_looked_at_has_no_memory() {
    assert_eq!(reported_bytes(None), 0);
    assert_eq!(reported_bytes(Some(4096)), 4096);
    assert_eq!(reported_bytes(Some(u64::MAX)), -1);
}
