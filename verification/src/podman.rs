//! Where Podman listens.
use vstd::prelude::*;
use crate::text::{cat3, opt_str, strip_end_all, trim, trimmed, without_trailing};

verus! {

/// The variables that say where Podman listens; those that are not set are
/// `None`.
#[derive(Debug)]
pub struct PodmanEnv {
    /// `RING_PODMAN_HOST`.
    pub ring_podman_host: Option<String>,
    /// `DOCKER_HOST`.
    pub docker_host: Option<String>,
    /// `XDG_RUNTIME_DIR`.
    pub xdg_runtime_dir: Option<String>,
    /// `UID`.
    pub uid: Option<String>,
}

/// The value of a variable without the white space around it, where anything is
/// left.
pub open spec fn meaningful(value: Option<String>) -> Option<Seq<char>> {
    match value {
        Some(s) => if trimmed(s@).len() > 0 {
            Some(trimmed(s@))
        } else {
            None
        },
        None => None,
    }
}

/// The value of a variable, where it says anything.
fn trimmed_value(value: &Option<String>) -> (r: Option<String>)
    ensures
        opt_str(r) == meaningful(*value),
{
    match value {
        Some(s) => {
            let t = trim(s.as_str());
            if t.as_str().is_empty() {
                None
            } else {
                Some(t)
            }
        },
        None => None,
    }
}

/// The socket of a user's own Podman.
pub open spec fn rootless_socket(env: PodmanEnv) -> Option<Seq<char>> {
    let dir = match env.xdg_runtime_dir {
        Some(d) => without_trailing(d@, "/"@),
        None => seq![],
    };
    if dir.len() > 0 {
        Some("unix://"@ + dir + "/podman/podman.sock"@)
    } else {
        match meaningful(env.uid) {
            Some(uid) => Some("unix:///run/user/"@ + uid + "/podman/podman.sock"@),
            None => None,
        }
    }
}

/// The socket of a user's own Podman, where the user can be told.
pub fn rootless_socket_path(env: &PodmanEnv) -> (r: Option<String>)
    ensures
        opt_str(r) == rootless_socket(*env),
{
    proof {
        reveal_strlit("/");
    }
    if let Some(dir) = &env.xdg_runtime_dir {
        let trimmed_dir = strip_end_all(dir.as_str(), "/");
        if !trimmed_dir.as_str().is_empty() {
            return Some(cat3("unix://", trimmed_dir.as_str(), "/podman/podman.sock"));
        }
    }
    match trimmed_value(&env.uid) {
        Some(uid) => Some(cat3("unix:///run/user/", uid.as_str(), "/podman/podman.sock")),
        None => None,
    }
}

/// Where Podman listens: what the operator says, then what other tools are
/// told, then the user's own socket, then that of the machine.
pub open spec fn socket_host(env: PodmanEnv) -> Seq<char> {
    match meaningful(env.ring_podman_host) {
        Some(host) => host,
        None => match meaningful(env.docker_host) {
            Some(host) => host,
            None => match rootless_socket(env) {
                Some(socket) => socket,
                None => "unix:///run/podman/podman.sock"@,
            },
        },
    }
}

/// Where Podman listens.
pub fn resolve_socket_host(env: &PodmanEnv) -> (r: String)
    ensures
        r@ == socket_host(*env),
{
    if let Some(host) = trimmed_value(&env.ring_podman_host) {
        return host;
    }
    if let Some(host) = trimmed_value(&env.docker_host) {
        return host;
    }
    match rootless_socket_path(env) {
        Some(socket) => socket,
        None => "unix:///run/podman/podman.sock".to_owned(),
    }
}

/// What the operator says counts first, then what other tools are told, both
/// without the white space around them; then the directory of the user, then the
/// user's number, and the machine's own socket where nothing says anything. A
/// variable of white space says nothing.
pub proof fn law_first_variable_counts(
    env: &PodmanEnv,
    ring: &str,
    docker: &str,
    ring_said: String,
    docker_said: String,
    rootless: Option<String>,
    r: String,
)
    requires
        env.ring_podman_host matches Some(s) ==> s@ == ring@,
        env.docker_host matches Some(s) ==> s@ == docker@,
        call_ensures(trim, (ring,), ring_said),
        call_ensures(trim, (docker,), docker_said),
        call_ensures(rootless_socket_path, (env,), rootless),
        call_ensures(resolve_socket_host, (env,), r),
    ensures
        ({
            let by_ring = env.ring_podman_host is Some && ring_said@.len() > 0;
            let by_docker = env.docker_host is Some && docker_said@.len() > 0;
            &&& by_ring ==> r@ == ring_said@
            &&& !by_ring && by_docker ==> r@ == docker_said@
            &&& !by_ring && !by_docker && rootless is Some ==> r@ == rootless->0@
            &&& !by_ring && !by_docker && rootless is None ==> r@
                == "unix:///run/podman/podman.sock"@
        }),
{
}

/// The socket of a user is below the user's directory, whose slashes at the end do
/// not count; where that is not given, or is nothing but slashes, it is below the
/// directory that bears the user's number; without either there is none.
pub proof fn law_user_has_a_socket(
    env: &PodmanEnv,
    dir: &str,
    uid: &str,
    base: String,
    number: String,
    r: Option<String>,
)
    requires
        env.xdg_runtime_dir matches Some(s) ==> s@ == dir@,
        env.uid matches Some(s) ==> s@ == uid@,
        call_ensures(strip_end_all, (dir, "/"), base),
        call_ensures(trim, (uid,), number),
        call_ensures(rootless_socket_path, (env,), r),
    ensures
        ({
            let by_dir = env.xdg_runtime_dir is Some && base@.len() > 0;
            let by_uid = env.uid is Some && number@.len() > 0;
            &&& r is Some <==> by_dir || by_uid
            &&& by_dir ==> (r matches Some(s) && s@ == "unix://"@ + base@ + "/podman/podman.sock"@)
            &&& !by_dir && by_uid ==> (r matches Some(s) && s@ == "unix:///run/user/"@ + number@
                + "/podman/podman.sock"@)
        }),
{
    reveal_strlit("/");
}

} // verus!
