# ring_runtime

The runtimes of Ring, a workload orchestrator: what they decide when they
reconcile a deployment with the containers or virtual machines behind it. The
library is written in Verus. The functions in `src/` have contracts that say
what they return or change, and Verus proves them. What is believed without
proof is what `src/foreign.rs` says of the functions of other crates, and one
method of `String` in `src/text.rs`.

## Layout

- `src/docker/`: containers under a Docker daemon (and Podman): images and their
  references, what a container is created with, the steps that create it, crash
  counting, listing, interactive commands, logs, counters.
- `src/docker_classic.rs`: a reconciler of containers that keeps its state as
  text and moves by one container per round.
- `src/containerd/`: containers under containerd: images, OCI specifications,
  networks, the steps that create and take down an instance, metrics.
- `src/cloud_hypervisor/`, `src/firecracker/`: virtual machines: what they are
  started with, the steps of a start and what a failed one undoes, console logs,
  volumes, the processes behind them.
- `src/host_net.rs`, `src/port_forwarder.rs`, `src/resources.rs`,
  `src/registry_auth.rs`, `src/podman.rs`, `src/quantities.rs`, `src/classifier.rs`,
  `src/stats.rs`: what the runtimes share.
- `src/text.rs`, `src/entries.rs`, `src/paths.rs`, `src/wire.rs`: the vocabulary of
  the contracts.
- `src/foreign.rs`: the functions of other crates that the library calls, each
  behind a function whose contract says what is relied upon; of the random
  numbers and of the host's free memory nothing is.
- `app/`: the runtimes at work. It talks to daemons, sockets, files and
  processes, and runs the step machines of the library.
- `tests/`: what the library does on concrete values.

## How work that alternates with the outside is written

Creating a container, booting a machine or running a health check alternates
calls with decisions. Each is a step machine: a function from a step and its
outcome to the next step. Its laws say that it ends and, where a failure undoes
what was done, what the undoing covers. Not everything is undone: the container
that `docker_classic` has created stays, for instance, and so do the images of
the volumes of a Firecracker machine whose ports could not be forwarded. `app/`
performs each step and reports how it went.

Public proof functions whose names begin with `law_` state what holds of several
functions together.
