//! Turning a container image into a disk image: the commands that are run, and
//! in which order.
use vstd::prelude::*;
use crate::foreign::{debug_list, lossy_text, show_list, utf8_lossy};
use crate::paths::{instance_path, joined_path};
use crate::steps::{Run, advanced, fresh, lemma_run_ends, lemma_run_keeps, run_on};
use crate::text::{cat2, cat5, cat6, chars_of, strs, trim, trimmed};

verus! {

/// `c`, or an underscore where it cannot stand in a file name.
pub open spec fn file_safe(c: char) -> char {
    if c == '/' || c == ':' {
        '_'
    } else {
        c
    }
}

/// An image's name as a file name.
pub open spec fn safe_name_of(image: Seq<char>) -> Seq<char> {
    image.map_values(|c: char| file_safe(c))
}

/// An image's name as a file name: slashes and colons become underscores.
pub fn safe_name(image: &str) -> (r: String)
    ensures
        r@ == safe_name_of(image@),
{
    let text = chars_of(image);
    let mut out = String::new();
    let mut i: usize = 0;
    while i < text.len()
        invariant
            text@ == image@,
            i <= text.len(),
            out@ =~= safe_name_of(image@).take(i as int),
        decreases text.len() - i,
    {
        let c: char = text[i];
        if c == '/' || c == ':' {
            out.push('_');
        } else {
            out.push(c);
        }
        i += 1;
    }
    assert(out@ =~= safe_name_of(image@));
    out
}

/// The disk image that is kept for a container image.
pub fn rootfs_path(image: &str, rootfs_dir: &str) -> (r: String)
    ensures
        r@ == joined_path(rootfs_dir@, safe_name_of(image@) + ".img"@),
{
    let name = safe_name(image);
    instance_path(rootfs_dir, name.as_str(), ".img")
}

/// The archive that a container's files are exported to.
pub fn tar_path(image: &str, rootfs_dir: &str) -> (r: String)
    ensures
        r@ == joined_path(rootfs_dir@, safe_name_of(image@) + ".tar"@),
{
    let name = safe_name(image);
    instance_path(rootfs_dir, name.as_str(), ".tar")
}

/// Where a disk image is mounted while it is filled.
pub fn mount_dir(rootfs: &str) -> (r: String)
    ensures
        r@ == rootfs@ + ".mnt"@,
{
    cat2(rootfs, ".mnt")
}

/// A step of the conversion. The steps that clean up remember whether what came
/// before them failed.
#[derive(Clone, Copy, Debug, PartialEq, Eq, Structural)]
pub enum RootfsStep {
    /// See whether the disk image is there. It counts as a success that it is
    /// not.
    MissCache,
    MakeDirectory,
    PullImage,
    CreateContainer,
    ExportContainer,
    RemoveContainer { failed: bool },
    AllocateDisk,
    FormatDisk,
    MakeMountPoint,
    MountDisk,
    ExtractArchive,
    UnmountDisk { failed: bool },
    RemoveMountPoint { failed: bool },
    RemoveArchive,
    /// The disk image is there.
    Ready,
    Failed,
}

/// The step that follows, given whether the last one succeeded. What the steps
/// that clean up come to does not matter.
pub open spec fn rootfs_next(step: RootfsStep, ok: bool) -> RootfsStep {
    match step {
        RootfsStep::MissCache => if ok {
            RootfsStep::MakeDirectory
        } else {
            RootfsStep::Ready
        },
        RootfsStep::ExportContainer => RootfsStep::RemoveContainer { failed: !ok },
        RootfsStep::RemoveContainer { failed } => if failed {
            RootfsStep::Failed
        } else {
            RootfsStep::AllocateDisk
        },
        RootfsStep::ExtractArchive => RootfsStep::UnmountDisk { failed: !ok },
        RootfsStep::UnmountDisk { failed } => RootfsStep::RemoveMountPoint { failed },
        RootfsStep::RemoveMountPoint { failed } => if failed {
            RootfsStep::Failed
        } else {
            RootfsStep::RemoveArchive
        },
        RootfsStep::RemoveArchive => RootfsStep::Ready,
        RootfsStep::Ready => RootfsStep::Ready,
        RootfsStep::Failed => RootfsStep::Failed,
        RootfsStep::MakeDirectory => if ok {
            RootfsStep::PullImage
        } else {
            RootfsStep::Failed
        },
        RootfsStep::PullImage => if ok {
            RootfsStep::CreateContainer
        } else {
            RootfsStep::Failed
        },
        RootfsStep::CreateContainer => if ok {
            RootfsStep::ExportContainer
        } else {
            RootfsStep::Failed
        },
        RootfsStep::AllocateDisk => if ok {
            RootfsStep::FormatDisk
        } else {
            RootfsStep::Failed
        },
        RootfsStep::FormatDisk => if ok {
            RootfsStep::MakeMountPoint
        } else {
            RootfsStep::Failed
        },
        RootfsStep::MakeMountPoint => if ok {
            RootfsStep::MountDisk
        } else {
            RootfsStep::Failed
        },
        RootfsStep::MountDisk => if ok {
            RootfsStep::ExtractArchive
        } else {
            RootfsStep::Failed
        },
    }
}

/// The step that follows, given whether the last one succeeded.
pub fn next_rootfs_step(step: RootfsStep, ok: bool) -> (r: RootfsStep)
    ensures
        r == rootfs_next(step, ok),
{
    match step {
        RootfsStep::MissCache => {
            if ok {
                RootfsStep::MakeDirectory
            } else {
                RootfsStep::Ready
            }
        },
        RootfsStep::ExportContainer => RootfsStep::RemoveContainer { failed: !ok },
        RootfsStep::ExtractArchive => RootfsStep::UnmountDisk { failed: !ok },
        RootfsStep::UnmountDisk { failed } => RootfsStep::RemoveMountPoint { failed },
        RootfsStep::RemoveContainer { failed } => {
            if failed {
                RootfsStep::Failed
            } else {
                RootfsStep::AllocateDisk
            }
        },
        RootfsStep::RemoveMountPoint { failed } => {
            if failed {
                RootfsStep::Failed
            } else {
                RootfsStep::RemoveArchive
            }
        },
        RootfsStep::RemoveArchive => RootfsStep::Ready,
        RootfsStep::Ready => RootfsStep::Ready,
        _ => {
            if !ok {
                return RootfsStep::Failed;
            }
            match step {
                RootfsStep::MakeDirectory => RootfsStep::PullImage,
                RootfsStep::PullImage => RootfsStep::CreateContainer,
                RootfsStep::CreateContainer => RootfsStep::ExportContainer,
                RootfsStep::AllocateDisk => RootfsStep::FormatDisk,
                RootfsStep::FormatDisk => RootfsStep::MakeMountPoint,
                RootfsStep::MakeMountPoint => RootfsStep::MountDisk,
                RootfsStep::MountDisk => RootfsStep::ExtractArchive,
                _ => RootfsStep::Failed,
            }
        },
    }
}

/// The names that the commands of a conversion are given.
#[derive(Debug)]
pub struct RootfsNames {
    pub image: String,
    pub container: String,
    pub tar: String,
    pub rootfs: String,
    pub mount_point: String,
}

/// The program of a step and its arguments; nothing for the steps that are no
/// commands. A disk has two gibibytes, which are not filled.
pub open spec fn step_command(step: RootfsStep, n: RootfsNames) -> Seq<Seq<char>> {
    match step {
        RootfsStep::PullImage => seq!["docker"@, "pull"@, n.image@],
        RootfsStep::CreateContainer => seq!["docker"@, "create"@, n.image@],
        RootfsStep::ExportContainer => seq!["docker"@, "export"@, "-o"@, n.tar@, n.container@],
        RootfsStep::RemoveContainer { failed } => seq!["docker"@, "rm"@, n.container@],
        RootfsStep::AllocateDisk => seq![
            "dd"@,
            "if=/dev/zero"@,
            "of="@ + n.rootfs@,
            "bs=1M"@,
            "count=0"@,
            "seek=2048"@,
        ],
        RootfsStep::FormatDisk => seq!["mkfs.ext4"@, "-F"@, n.rootfs@],
        RootfsStep::MountDisk => seq!["mount"@, "-o"@, "loop"@, n.rootfs@, n.mount_point@],
        RootfsStep::ExtractArchive => seq!["tar"@, "-xf"@, n.tar@, "-C"@, n.mount_point@],
        RootfsStep::UnmountDisk { failed } => seq!["umount"@, n.mount_point@],
        _ => seq![],
    }
}

/// The program of a step and its arguments; nothing for the steps that are no
/// commands.
pub fn rootfs_command(step: RootfsStep, names: &RootfsNames) -> (r: Vec<String>)
    ensures
        strs(r@) == step_command(step, *names),
{
    let mut out: Vec<String> = Vec::new();
    match step {
        RootfsStep::PullImage => {
            out.push("docker".to_owned());
            out.push("pull".to_owned());
            out.push(names.image.clone());
        },
        RootfsStep::CreateContainer => {
            out.push("docker".to_owned());
            out.push("create".to_owned());
            out.push(names.image.clone());
        },
        RootfsStep::ExportContainer => {
            out.push("docker".to_owned());
            out.push("export".to_owned());
            out.push("-o".to_owned());
            out.push(names.tar.clone());
            out.push(names.container.clone());
        },
        RootfsStep::RemoveContainer { failed: _ } => {
            out.push("docker".to_owned());
            out.push("rm".to_owned());
            out.push(names.container.clone());
        },
        RootfsStep::AllocateDisk => {
            out.push("dd".to_owned());
            out.push("if=/dev/zero".to_owned());
            out.push(cat2("of=", names.rootfs.as_str()));
            out.push("bs=1M".to_owned());
            out.push("count=0".to_owned());
            out.push("seek=2048".to_owned());
        },
        RootfsStep::FormatDisk => {
            out.push("mkfs.ext4".to_owned());
            out.push("-F".to_owned());
            out.push(names.rootfs.clone());
        },
        RootfsStep::MountDisk => {
            out.push("mount".to_owned());
            out.push("-o".to_owned());
            out.push("loop".to_owned());
            out.push(names.rootfs.clone());
            out.push(names.mount_point.clone());
        },
        RootfsStep::ExtractArchive => {
            out.push("tar".to_owned());
            out.push("-xf".to_owned());
            out.push(names.tar.clone());
            out.push("-C".to_owned());
            out.push(names.mount_point.clone());
        },
        RootfsStep::UnmountDisk { failed: _ } => {
            out.push("umount".to_owned());
            out.push(names.mount_point.clone());
        },
        _ => {},
    }
    assert(strs(out@) =~= step_command(step, *names));
    out
}

/// The error of a command that could not be run.
pub fn command_not_run(program: &str, args: &Vec<String>, text: &str) -> (r: String)
    ensures
        r@ == "Failed to run "@ + program@ + " "@ + debug_list(strs(args@)) + ": "@ + text@,
{
    let shown = show_list(args);
    cat6("Failed to run ", program, " ", shown.as_str(), ": ", text)
}

/// The error of a command that failed, given what it wrote.
pub fn command_failed(program: &str, args: &Vec<String>, stderr: &[u8]) -> (r: String)
    ensures
        r@ == program@ + " "@ + debug_list(strs(args@)) + " failed: "@ + lossy_text(stderr@),
{
    let shown = show_list(args);
    let text = utf8_lossy(stderr);
    cat5(program, " ", shown.as_str(), " failed: ", text.as_str())
}

/// The id that creating a container writes.
pub fn created_container(stdout: &[u8]) -> (r: String)
    ensures
        r@ == trimmed(lossy_text(stdout@)),
{
    let text = utf8_lossy(stdout);
    trim(text.as_str())
}

/// Whether the container exists while this step is taken.
pub open spec fn has_container(step: RootfsStep) -> bool {
    step is ExportContainer || step is RemoveContainer
}

/// Whether the disk is mounted while this step is taken.
pub open spec fn is_mounted(step: RootfsStep) -> bool {
    step is ExtractArchive || step is UnmountDisk
}

/// However a conversion goes, the container that was created is removed and the
/// disk that was mounted is unmounted.
pub proof fn law_conversion_cleans_up(step: RootfsStep, ok: bool)
    ensures
        has_container(step) ==> has_container(rootfs_next(step, ok)) || step is RemoveContainer,
        is_mounted(step) ==> is_mounted(rootfs_next(step, ok)) || step is UnmountDisk,
        has_container(rootfs_next(step, ok)) && !has_container(step) ==> step is CreateContainer
            && ok,
        is_mounted(rootfs_next(step, ok)) && !is_mounted(step) ==> step is MountDisk && ok,
{
}

/// How many steps a conversion can still take.
pub open spec fn rootfs_rank(step: RootfsStep) -> int {
    match step {
        RootfsStep::MissCache => 14,
        RootfsStep::MakeDirectory => 13,
        RootfsStep::PullImage => 12,
        RootfsStep::CreateContainer => 11,
        RootfsStep::ExportContainer => 10,
        RootfsStep::RemoveContainer { failed: _ } => 9,
        RootfsStep::AllocateDisk => 8,
        RootfsStep::FormatDisk => 7,
        RootfsStep::MakeMountPoint => 6,
        RootfsStep::MountDisk => 5,
        RootfsStep::ExtractArchive => 4,
        RootfsStep::UnmountDisk { failed: _ } => 3,
        RootfsStep::RemoveMountPoint { failed: _ } => 2,
        RootfsStep::RemoveArchive => 1,
        RootfsStep::Ready => 0,
        RootfsStep::Failed => 0,
    }
}

/// A conversion comes to an end.
pub proof fn law_conversion_ends(step: RootfsStep, ok: bool)
    ensures
        !(step is Ready) && !(step is Failed) ==> 0 <= rootfs_rank(rootfs_next(step, ok))
            < rootfs_rank(step),
{
}

/// Whether what a step comes to does not matter: the steps that clean up, and
/// the look for the disk image, which ends the conversion where it is there.
pub open spec fn is_tolerated(step: RootfsStep) -> bool {
    step is MissCache || step is RemoveContainer || step is UnmountDisk || step is RemoveMountPoint
        || step is RemoveArchive
}

/// Whether a conversion is over.
pub open spec fn rootfs_is_over(step: RootfsStep) -> bool {
    step is Ready || step is Failed
}

/// A conversion from its beginning, after steps with these outcomes.
pub open spec fn rootfs_run(outcomes: Seq<bool>) -> Run<RootfsStep, bool> {
    run_on(
        |step: RootfsStep, o: bool| rootfs_next(step, o),
        |step: RootfsStep| rootfs_is_over(step),
        fresh(RootfsStep::MissCache),
        outcomes,
    )
}

/// What was done where a conversion stands.
spec fn rootfs_history(run: Run<RootfsStep, bool>) -> bool {
    let rank = rootfs_rank(run.step);
    let cached = run.failed(RootfsStep::MissCache);
    &&& run.step is MissCache ==> forall|s: RootfsStep| !#[trigger] run.tried(s)
    &&& cached ==> run.step is Ready && forall|s: RootfsStep| #[trigger]
        run.tried(s) ==> s is MissCache
    &&& rank < 14 && !(run.step is Failed) && !cached ==> run.done(RootfsStep::MissCache)
    &&& rank < 13 && !(run.step is Failed) && !cached ==> run.done(RootfsStep::MakeDirectory)
    &&& rank < 12 && !(run.step is Failed) && !cached ==> run.done(RootfsStep::PullImage)
    &&& rank < 11 && !(run.step is Failed) && !cached ==> run.done(RootfsStep::CreateContainer)
    &&& rank < 10 && !(run.step is Failed) && !cached ==> run.tried(RootfsStep::ExportContainer)
    &&& run.step matches RootfsStep::RemoveContainer { failed } ==> (if failed {
        run.failed(RootfsStep::ExportContainer)
    } else {
        run.done(RootfsStep::ExportContainer)
    })
    &&& rank < 9 && !(run.step is Failed) && !cached ==> run.done(RootfsStep::ExportContainer)
        && run.tried(RootfsStep::RemoveContainer { failed: false })
    &&& rank < 8 && !(run.step is Failed) && !cached ==> run.done(RootfsStep::AllocateDisk)
    &&& rank < 7 && !(run.step is Failed) && !cached ==> run.done(RootfsStep::FormatDisk)
    &&& rank < 6 && !(run.step is Failed) && !cached ==> run.done(RootfsStep::MakeMountPoint)
    &&& rank < 5 && !(run.step is Failed) && !cached ==> run.done(RootfsStep::MountDisk)
    &&& rank < 4 && !(run.step is Failed) && !cached ==> run.tried(RootfsStep::ExtractArchive)
    &&& run.step matches RootfsStep::UnmountDisk { failed } ==> (if failed {
        run.failed(RootfsStep::ExtractArchive)
    } else {
        run.done(RootfsStep::ExtractArchive)
    })
    &&& run.step matches RootfsStep::RemoveMountPoint { failed } ==> run.tried(
        RootfsStep::UnmountDisk { failed },
    ) && (if failed {
        run.failed(RootfsStep::ExtractArchive)
    } else {
        run.done(RootfsStep::ExtractArchive)
    })
    &&& rank < 2 && !(run.step is Failed) && !cached ==> run.done(RootfsStep::ExtractArchive)
        && run.tried(RootfsStep::UnmountDisk { failed: false }) && run.tried(
        RootfsStep::RemoveMountPoint { failed: false },
    )
    &&& run.step is Ready && !cached ==> run.tried(RootfsStep::RemoveArchive)
    &&& run.step is Failed || (run.step matches RootfsStep::RemoveContainer { failed: true }) || (
    run.step matches RootfsStep::UnmountDisk { failed: true }) || (run.step matches
        RootfsStep::RemoveMountPoint { failed: true }) ==> exists|s: RootfsStep| #[trigger]
        run.failed(s) && !is_tolerated(s)
    &&& !(run.step is Failed) && !(run.step matches RootfsStep::RemoveContainer { failed: true })
        && !(run.step matches RootfsStep::UnmountDisk { failed: true }) && !(run.step matches
        RootfsStep::RemoveMountPoint { failed: true }) ==> forall|s: RootfsStep| #[trigger]
        run.failed(s) ==> is_tolerated(s)
    &&& rank > 10 && !(run.step is Failed) ==> !run.tried(RootfsStep::CreateContainer)
    &&& run.step is Failed && run.done(RootfsStep::CreateContainer) ==> run.tried(
        RootfsStep::RemoveContainer { failed: true },
    ) || run.tried(RootfsStep::RemoveContainer { failed: false })
    &&& rank > 4 ==> !run.tried(RootfsStep::MountDisk)
    &&& run.step is Failed && run.done(RootfsStep::MountDisk) ==> run.tried(
        RootfsStep::UnmountDisk { failed: true },
    )
}

/// A step keeps the history.
proof fn lemma_rootfs_history(r: Run<RootfsStep, bool>, o: bool, after: Run<RootfsStep, bool>)
    requires
        rootfs_history(r),
        !rootfs_is_over(r.step),
        after.step == rootfs_next(r.step, o),
        after.seen == r.seen.insert((r.step, o)),
    ensures
        rootfs_history(after),
{
    assert(forall|s: RootfsStep| #[trigger] after.done(s) <==> r.done(s) || (s == r.step && o));
    assert(forall|s: RootfsStep| #[trigger] after.failed(s) <==> r.failed(s) || (s == r.step && !o));
    assert(forall|s: RootfsStep| #[trigger] after.tried(s) <==> r.tried(s) || s == r.step);
    if exists|s: RootfsStep| #[trigger] r.failed(s) && !is_tolerated(s) {
        let s = choose|s: RootfsStep| #[trigger] r.failed(s) && !is_tolerated(s);
        assert(after.failed(s));
    }
    assert(!o ==> after.failed(r.step));
}

/// However its steps turn out, a disk image that is ready was there before, and
/// then nothing else was done, or the image was pulled and exported and its files
/// were put into a formatted disk, in this order. What was created or mounted on
/// the way was removed or unmounted, where the conversion failed too. Only a step
/// that matters makes it fail, and where those succeed the disk image is ready.
pub proof fn law_ready_means_converted(outcomes: Seq<bool>)
    ensures
        ({
            let run = rootfs_run(outcomes);
            let cached = run.failed(RootfsStep::MissCache);
            &&& cached ==> run.step is Ready && forall|s: RootfsStep| #[trigger]
                run.tried(s) ==> s is MissCache
            &&& run.step is Ready && !cached ==> {
                &&& run.done(RootfsStep::MakeDirectory)
                &&& run.done(RootfsStep::PullImage)
                &&& run.done(RootfsStep::CreateContainer)
                &&& run.done(RootfsStep::ExportContainer)
                &&& run.tried(RootfsStep::RemoveContainer { failed: false })
                &&& run.done(RootfsStep::AllocateDisk)
                &&& run.done(RootfsStep::FormatDisk)
                &&& run.done(RootfsStep::MakeMountPoint)
                &&& run.done(RootfsStep::MountDisk)
                &&& run.done(RootfsStep::ExtractArchive)
                &&& run.tried(RootfsStep::UnmountDisk { failed: false })
                &&& run.tried(RootfsStep::RemoveMountPoint { failed: false })
                &&& run.tried(RootfsStep::RemoveArchive)
            }
            &&& run.step is ExtractArchive ==> run.done(RootfsStep::MountDisk) && run.done(
                RootfsStep::FormatDisk,
            ) && run.done(RootfsStep::ExportContainer)
            &&& run.step is Ready ==> forall|s: RootfsStep| #[trigger]
                run.failed(s) ==> is_tolerated(s)
            &&& run.step is Failed ==> exists|s: RootfsStep| #[trigger]
                run.failed(s) && !is_tolerated(s)
            &&& run.step is Failed && run.done(RootfsStep::CreateContainer) ==> run.tried(
                RootfsStep::RemoveContainer { failed: true },
            ) || run.tried(RootfsStep::RemoveContainer { failed: false })
            &&& run.step is Failed && run.done(RootfsStep::MountDisk) ==> run.tried(
                RootfsStep::UnmountDisk { failed: true },
            )
            &&& outcomes.len() >= 14 && (forall|s: RootfsStep| #[trigger]
                run.failed(s) ==> is_tolerated(s)) ==> run.step is Ready
        }),
{
    let next = |step: RootfsStep, o: bool| rootfs_next(step, o);
    let over = |step: RootfsStep| rootfs_is_over(step);
    let inv = |run: Run<RootfsStep, bool>| rootfs_history(run);
    let first = fresh::<RootfsStep, bool>(RootfsStep::MissCache);
    assert forall|r: Run<RootfsStep, bool>, o: bool| inv(r) && !over(r.step) implies inv(
        #[trigger] advanced(next, r, o),
    ) by {
        lemma_rootfs_history(r, o, advanced(next, r, o));
    }
    lemma_run_keeps(next, over, inv, first, outcomes);
    if outcomes.len() >= 14 {
        let rank = |step: RootfsStep| rootfs_rank(step);
        assert forall|s: RootfsStep, o: bool| !over(s) implies 0 <= rank(#[trigger] next(s, o))
            < rank(s) by {
            law_conversion_ends(s, o);
        }
        lemma_run_ends(next, over, rank, first, outcomes);
    }
}

/// An image's name as a file name has a character for each of the image's, holds
/// neither a slash nor a colon, and keeps every other character in its place.
pub proof fn law_file_name_keeps_its_place(image: &str, r: String)
    requires
        call_ensures(safe_name, (image,), r),
    ensures
        r@.len() == image@.len(),
        !r@.contains('/') && !r@.contains(':'),
        forall|i: int|
            0 <= i < image@.len() && image@[i] != '/' && image@[i] != ':' ==> #[trigger] r@[i]
                == image@[i],
        forall|i: int|
            0 <= i < image@.len() && (image@[i] == '/' || image@[i] == ':') ==> #[trigger] r@[i]
                == '_',
{
    assert forall|i: int| 0 <= i < r@.len() implies r@[i] != '/' && r@[i] != ':' by {
        assert(r@[i] == file_safe(image@[i]));
    }
}

/// The commands of a conversion fit together: what is exported is what is
/// extracted, the disk that is made is the one that is formatted and mounted,
/// what is mounted is unmounted again, and the container that is exported is
/// removed.
pub proof fn law_commands_fit_together(
    names: &RootfsNames,
    failed: bool,
    export: Vec<String>,
    remove: Vec<String>,
    extract: Vec<String>,
    format: Vec<String>,
    mount: Vec<String>,
    unmount: Vec<String>,
    pull: Vec<String>,
    create: Vec<String>,
)
    requires
        call_ensures(rootfs_command, (RootfsStep::ExportContainer, names), export),
        call_ensures(rootfs_command, (RootfsStep::RemoveContainer { failed }, names), remove),
        call_ensures(rootfs_command, (RootfsStep::ExtractArchive, names), extract),
        call_ensures(rootfs_command, (RootfsStep::FormatDisk, names), format),
        call_ensures(rootfs_command, (RootfsStep::MountDisk, names), mount),
        call_ensures(rootfs_command, (RootfsStep::UnmountDisk { failed }, names), unmount),
        call_ensures(rootfs_command, (RootfsStep::PullImage, names), pull),
        call_ensures(rootfs_command, (RootfsStep::CreateContainer, names), create),
    ensures
        export@.len() == 5 && remove@.len() == 3 && extract@.len() == 5 && format@.len() == 3
            && mount@.len() == 5 && unmount@.len() == 2 && pull@.len() == 3 && create@.len() == 3,
        export@[3]@ == names.tar@ && extract@[2]@ == names.tar@,
        export@[4]@ == names.container@ && remove@[2]@ == names.container@,
        format@[2]@ == names.rootfs@ && mount@[3]@ == names.rootfs@,
        mount@[4]@ == names.mount_point@ && extract@[4]@ == names.mount_point@ && unmount@[1]@
            == names.mount_point@,
        pull@[2]@ == names.image@ && create@[2]@ == names.image@,
{
    assert(strs(export@).len() == export@.len());
    assert(strs(remove@).len() == remove@.len());
    assert(strs(extract@).len() == extract@.len());
    assert(strs(format@).len() == format@.len());
    assert(strs(mount@).len() == mount@.len());
    assert(strs(unmount@).len() == unmount@.len());
    assert(strs(pull@).len() == pull@.len());
    assert(strs(create@).len() == create@.len());
    assert(strs(export@)[3] == export@[3]@ && strs(export@)[4] == export@[4]@);
    assert(strs(remove@)[2] == remove@[2]@);
    assert(strs(extract@)[2] == extract@[2]@ && strs(extract@)[4] == extract@[4]@);
    assert(strs(format@)[2] == format@[2]@);
    assert(strs(mount@)[3] == mount@[3]@ && strs(mount@)[4] == mount@[4]@);
    assert(strs(unmount@)[1] == unmount@[1]@);
    assert(strs(pull@)[2] == pull@[2]@);
    assert(strs(create@)[2] == create@[2]@);
}

/// An image that is ready stays ready, and a conversion that failed stays failed,
/// whatever is reported then.
pub proof fn law_end_of_a_conversion_is_final(step: RootfsStep, ok: bool, r: RootfsStep)
    requires
        call_ensures(next_rootfs_step, (step, ok), r),
    ensures
        step is Ready ==> r is Ready,
        step is Failed ==> r is Failed,
{
}

/// Each step of a conversion runs the program that does it: the container is made,
/// exported and removed by `docker`, the disk of two gibibytes is laid out by `dd`
/// without being filled, formatted, mounted as a loop and unmounted, and the archive
/// is extracted by `tar`. The other steps run no program.
pub proof fn law_steps_run_their_programs(
    names: &RootfsNames,
    failed: bool,
    pull: Vec<String>,
    create: Vec<String>,
    export: Vec<String>,
    remove: Vec<String>,
    allocate: Vec<String>,
    format: Vec<String>,
    mount: Vec<String>,
    extract: Vec<String>,
    unmount: Vec<String>,
    clear: Vec<String>,
)
    requires
        call_ensures(rootfs_command, (RootfsStep::PullImage, names), pull),
        call_ensures(rootfs_command, (RootfsStep::CreateContainer, names), create),
        call_ensures(rootfs_command, (RootfsStep::ExportContainer, names), export),
        call_ensures(rootfs_command, (RootfsStep::RemoveContainer { failed }, names), remove),
        call_ensures(rootfs_command, (RootfsStep::AllocateDisk, names), allocate),
        call_ensures(rootfs_command, (RootfsStep::FormatDisk, names), format),
        call_ensures(rootfs_command, (RootfsStep::MountDisk, names), mount),
        call_ensures(rootfs_command, (RootfsStep::ExtractArchive, names), extract),
        call_ensures(rootfs_command, (RootfsStep::UnmountDisk { failed }, names), unmount),
        call_ensures(rootfs_command, (RootfsStep::RemoveArchive, names), clear),
    ensures
        strs(pull@).take(2) == seq!["docker"@, "pull"@],
        strs(create@).take(2) == seq!["docker"@, "create"@],
        strs(export@).take(3) == seq!["docker"@, "export"@, "-o"@],
        strs(remove@).take(2) == seq!["docker"@, "rm"@],
        strs(allocate@) == seq![
            "dd"@,
            "if=/dev/zero"@,
            "of="@ + names.rootfs@,
            "bs=1M"@,
            "count=0"@,
            "seek=2048"@,
        ],
        strs(format@).take(2) == seq!["mkfs.ext4"@, "-F"@],
        strs(mount@).take(3) == seq!["mount"@, "-o"@, "loop"@],
        strs(extract@).take(2) == seq!["tar"@, "-xf"@] && strs(extract@)[3] == "-C"@,
        strs(unmount@).take(1) == seq!["umount"@],
        clear@.len() == 0,
{
    assert(strs(clear@).len() == clear@.len());
    assert(strs(pull@).take(2) =~= seq!["docker"@, "pull"@]);
    assert(strs(create@).take(2) =~= seq!["docker"@, "create"@]);
    assert(strs(export@).take(3) =~= seq!["docker"@, "export"@, "-o"@]);
    assert(strs(remove@).take(2) =~= seq!["docker"@, "rm"@]);
    assert(strs(format@).take(2) =~= seq!["mkfs.ext4"@, "-F"@]);
    assert(strs(mount@).take(3) =~= seq!["mount"@, "-o"@, "loop"@]);
    assert(strs(extract@).take(2) =~= seq!["tar"@, "-xf"@]);
    assert(strs(unmount@).take(1) =~= seq!["umount"@]);
}

} // verus!
