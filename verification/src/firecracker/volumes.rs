//! Volumes of a machine: block devices that are attached behind its root disk,
//! in the order in which they are declared.
use vstd::prelude::*;
use crate::cloud_hypervisor::shares::{is_shareable, lemma_shareable_count, shareable_count};
use crate::firecracker::client::Drive;
use crate::firecracker::lifecycle::{FirecrackerLifecycle, named_volume_file, volume_file};
use crate::foreign::{file_name_of, parent_of, path_file_name, path_parent};
use crate::models::ResolvedMount;
use crate::paths::{join_path, joined_path};
use crate::text::{begins, cat2, cat3, cat4, decimal, decimal_u64, ends, opt_str};

verus! {

/// How many volumes a machine can have: the device letters from `b` to `y`. The
/// letter behind the last volume is that of the image for the first boot.
pub const MAX_VOLUMES: usize = 24;

/// The size of a volume that is kept by name, in mebibytes.
pub const NAMED_VOLUME_MIB: u64 = 256;

/// How the image of a volume comes to be.
#[derive(Debug)]
pub enum VolumeBuild {
    /// A new image with the files of a directory of the host.
    FromDirectory { source: String },
    /// A new image with one file, by way of a staging directory.
    FromFile { stage: String, name: String, content: String },
    /// The image as it is, or an empty one of this size where there is none.
    KeepOrCreate { size_mib: u64 },
}

/// A [`VolumeBuild`] by its contents.
pub enum BuildView {
    FromDirectory { source: Seq<char> },
    FromFile { stage: Seq<char>, name: Seq<char>, content: Seq<char> },
    KeepOrCreate { size_mib: u64 },
}

impl View for VolumeBuild {
    type V = BuildView;

    open spec fn view(&self) -> BuildView {
        match *self {
            VolumeBuild::FromDirectory { source } => BuildView::FromDirectory { source: source@ },
            VolumeBuild::FromFile { stage, name, content } => BuildView::FromFile {
                stage: stage@,
                name: name@,
                content: content@,
            },
            VolumeBuild::KeepOrCreate { size_mib } => BuildView::KeepOrCreate { size_mib },
        }
    }
}

/// A volume of a machine.
#[derive(Debug)]
pub struct VolumePlan {
    /// The device in the guest.
    pub device: String,
    /// The label of the file system.
    pub label: String,
    /// The image on the host.
    pub image: String,
    /// Where the guest mounts it.
    pub destination: String,
    pub read_only: bool,
    pub build: VolumeBuild,
}

/// A [`VolumePlan`] by its contents.
pub struct VolumeView {
    pub device: Seq<char>,
    pub label: Seq<char>,
    pub image: Seq<char>,
    pub destination: Seq<char>,
    pub read_only: bool,
    pub build: BuildView,
}

impl View for VolumePlan {
    type V = VolumeView;

    open spec fn view(&self) -> VolumeView {
        VolumeView {
            device: self.device@,
            label: self.label@,
            image: self.image@,
            destination: self.destination@,
            read_only: self.read_only,
            build: self.build@,
        }
    }
}

/// The device of volume `idx`: the root disk is the first one.
pub open spec fn device_of(idx: nat) -> Seq<char> {
    "/dev/vd"@.push((98 + idx) as char)
}

/// The directory that a file is mounted in: its parent, or the root directory.
pub open spec fn mount_dir_of(destination: Seq<char>) -> Seq<char> {
    match parent_of(destination) {
        Some(parent) => if parent.len() == 0 {
            "/"@
        } else {
            parent
        },
        None => "/"@,
    }
}

/// The staging directory of volume `idx`.
pub open spec fn stage_dir(dir: Seq<char>, id: Seq<char>, idx: nat) -> Seq<char> {
    joined_path(dir, id + ".vol"@ + decimal(idx) + ".stage"@)
}

/// Volume `idx` of an instance. A rendered file is mounted read-only at its
/// parent directory.
pub open spec fn volume_for(
    dir: Seq<char>,
    id: Seq<char>,
    namespace: Seq<char>,
    m: ResolvedMount,
    idx: nat,
) -> VolumeView {
    let device = device_of(idx);
    let label = "ringvol"@ + decimal(idx);
    match m {
        ResolvedMount::Bind { source, destination, read_only } => VolumeView {
            device,
            label,
            image: volume_file(dir, id, idx),
            destination: destination@,
            read_only,
            build: BuildView::FromDirectory { source: source@ },
        },
        ResolvedMount::Content { content, destination } => VolumeView {
            device,
            label,
            image: volume_file(dir, id, idx),
            destination: mount_dir_of(destination@),
            read_only: true,
            build: BuildView::FromFile {
                stage: stage_dir(dir, id, idx),
                name: file_name_of(destination@)->0,
                content: content@,
            },
        },
        ResolvedMount::Named { name, destination, read_only, driver } => VolumeView {
            device,
            label,
            image: named_volume_file(dir, namespace, name@),
            destination: destination@,
            read_only,
            build: BuildView::KeepOrCreate { size_mib: NAMED_VOLUME_MIB },
        },
    }
}

/// The directory that a file is mounted in.
fn mount_dir(destination: &str) -> (r: String)
    ensures
        r@ == mount_dir_of(destination@),
{
    match path_parent(destination) {
        Some(parent) => if parent.as_str().is_empty() {
            "/".to_owned()
        } else {
            parent
        },
        None => "/".to_owned(),
    }
}

/// Volume `idx` of an instance, or the error where a rendered file has no file
/// name.
pub fn plan_volume(
    lifecycle: &FirecrackerLifecycle,
    instance_id: &str,
    namespace: &str,
    m: &ResolvedMount,
    idx: usize,
) -> (r: Result<VolumePlan, String>)
    requires
        idx < MAX_VOLUMES,
    ensures
        r is Ok <==> is_shareable(*m),
        r matches Ok(plan) ==> plan@ == volume_for(
            lifecycle.config.socket_dir@,
            instance_id@,
            namespace@,
            *m,
            idx as nat,
        ),
        r matches Err(e) ==> *m matches ResolvedMount::Content { content, destination } && e@
            == "content volume destination has no filename: "@ + destination@,
{
    let number = decimal_u64(idx as u64);
    let letter: char = (98 + idx as u8) as char;
    let mut device = "/dev/vd".to_owned();
    device.push(letter);
    let label = cat2("ringvol", number.as_str());
    match m {
        ResolvedMount::Bind { source, destination, read_only } => Ok(
            VolumePlan {
                device,
                label,
                image: lifecycle.ephemeral_volume_path(instance_id, idx),
                destination: destination.clone(),
                read_only: *read_only,
                build: VolumeBuild::FromDirectory { source: source.clone() },
            },
        ),
        ResolvedMount::Content { content, destination } => {
            match path_file_name(destination.as_str()) {
                Some(name) => {
                    let stage_name = cat4(instance_id, ".vol", number.as_str(), ".stage");
                    let stage = join_path(
                        lifecycle.config.socket_dir.as_str(),
                        stage_name.as_str(),
                    );
                    Ok(
                        VolumePlan {
                            device,
                            label,
                            image: lifecycle.ephemeral_volume_path(instance_id, idx),
                            destination: mount_dir(destination.as_str()),
                            read_only: true,
                            build: VolumeBuild::FromFile { stage, name, content: content.clone() },
                        },
                    )
                },
                None => Err(
                    cat2("content volume destination has no filename: ", destination.as_str()),
                ),
            }
        },
        ResolvedMount::Named { name, destination, read_only, driver: _ } => Ok(
            VolumePlan {
                device,
                label,
                image: lifecycle.named_volume_path(namespace, name.as_str()),
                destination: destination.clone(),
                read_only: *read_only,
                build: VolumeBuild::KeepOrCreate { size_mib: NAMED_VOLUME_MIB },
            },
        ),
    }
}

/// The volumes of an instance, in the order in which they are attached, up to
/// the first one that cannot be; and the error where there is one: too many
/// volumes, or a rendered file without a file name. What comes before such a
/// file is still attached.
pub fn prepare_volume_drives(
    lifecycle: &FirecrackerLifecycle,
    instance_id: &str,
    namespace: &str,
    resolved: &Vec<ResolvedMount>,
) -> (r: (Vec<VolumePlan>, Option<String>))
    ensures
        resolved.len() > MAX_VOLUMES ==> {
            &&& r.0.len() == 0
            &&& opt_str(r.1) == Some(
                "firecracker supports at most "@ + decimal(24) + " volumes, got "@ + decimal(
                    resolved.len() as nat,
                ),
            )
        },
        resolved.len() <= MAX_VOLUMES ==> {
            &&& r.0.len() == shareable_count(resolved@)
            &&& forall|i: int|
                0 <= i < r.0.len() ==> (#[trigger] r.0@[i])@ == volume_for(
                    lifecycle.config.socket_dir@,
                    instance_id@,
                    namespace@,
                    resolved@[i],
                    i as nat,
                )
            &&& r.1 is None <==> shareable_count(resolved@) == resolved.len()
            &&& r.1 matches Some(e) ==> resolved@[shareable_count(resolved@)] matches
                ResolvedMount::Content { content, destination } && e@
                == "content volume destination has no filename: "@ + destination@
        },
{
    let mut out: Vec<VolumePlan> = Vec::new();
    if resolved.len() > MAX_VOLUMES {
        let most = decimal_u64(MAX_VOLUMES as u64);
        let got = decimal_u64(resolved.len() as u64);
        return (
            out,
            Some(
                cat4("firecracker supports at most ", most.as_str(), " volumes, got ", got.as_str()),
            ),
        );
    }
    let mut i: usize = 0;
    while i < resolved.len()
        invariant
            i <= resolved.len() <= MAX_VOLUMES,
            out.len() == i,
            forall|j: int| 0 <= j < i ==> is_shareable(#[trigger] resolved@[j]),
            forall|j: int|
                0 <= j < i ==> (#[trigger] out@[j])@ == volume_for(
                    lifecycle.config.socket_dir@,
                    instance_id@,
                    namespace@,
                    resolved@[j],
                    j as nat,
                ),
        decreases resolved.len() - i,
    {
        match plan_volume(lifecycle, instance_id, namespace, &resolved[i], i) {
            Ok(plan) => {
                out.push(plan);
            },
            Err(e) => {
                proof {
                    lemma_shareable_count(resolved@, i as int);
                }
                return (out, Some(e));
            },
        }
        i += 1;
    }
    proof {
        lemma_shareable_count(resolved@, resolved.len() as int);
    }
    (out, None)
}

/// The error for a directory of the host that is not there.
pub fn bind_source_error(source: &str) -> (r: String)
    ensures
        r@ == "firecracker bind volume source '"@ + source@ + "' is not a directory on the host"@,
{
    cat3("firecracker bind volume source '", source, "' is not a directory on the host")
}

/// The block device of volume `idx`.
pub fn volume_drive(plan: &VolumePlan, idx: usize) -> (r: Drive)
    ensures
        r.drive_id@ == "vol"@ + decimal(idx as nat),
        r.path_on_host@ == plan.image@,
        !r.is_root_device,
        r.is_read_only == plan.read_only,
{
    let number = decimal_u64(idx as u64);
    Drive {
        drive_id: cat2("vol", number.as_str()),
        path_on_host: plan.image.clone(),
        is_root_device: false,
        is_read_only: plan.read_only,
    }
}

/// The size of a new image in mebibytes for this many bytes of files: room for
/// them and for the file system itself.
pub fn sizing_mib_for_bytes(bytes: u64) -> (r: u64)
    ensures
        r == bytes / 1_048_576 + 16,
{
    bytes / 1_048_576 + 16
}

/// What happens to a file of the socket directory when an instance is taken
/// down.
#[derive(Clone, Copy, Debug, PartialEq, Eq, Structural)]
pub enum VolumeLeftover {
    Keep,
    RemoveFile,
    RemoveDirectory,
}

/// What happens to a file of the socket directory when an instance is taken
/// down: the images of its own volumes and their staging directories go.
pub open spec fn leftover_of(name: Seq<char>, id: Seq<char>) -> VolumeLeftover {
    if !(id + ".vol"@).is_prefix_of(name) {
        VolumeLeftover::Keep
    } else if ".ext4"@.is_suffix_of(name) {
        VolumeLeftover::RemoveFile
    } else if ".stage"@.is_suffix_of(name) {
        VolumeLeftover::RemoveDirectory
    } else {
        VolumeLeftover::Keep
    }
}

/// What happens to a file of the socket directory when an instance is taken
/// down. Volumes that are kept by name lie elsewhere.
pub fn cleanup_ephemeral_volumes(name: &str, instance_id: &str) -> (r: VolumeLeftover)
    ensures
        r == leftover_of(name@, instance_id@),
{
    let prefix = cat2(instance_id, ".vol");
    if !begins(name, prefix.as_str()) {
        VolumeLeftover::Keep
    } else if ends(name, ".ext4") {
        VolumeLeftover::RemoveFile
    } else if ends(name, ".stage") {
        VolumeLeftover::RemoveDirectory
    } else {
        VolumeLeftover::Keep
    }
}

/// Every image of an instance's own volumes is removed with the instance,
/// whatever the numbers of its volumes.
pub proof fn law_own_volumes_are_removed(id: Seq<char>, idx: nat)
    ensures
        leftover_of(id + ".vol"@ + decimal(idx) + ".ext4"@, id) == VolumeLeftover::RemoveFile,
        leftover_of(id + ".vol"@ + decimal(idx) + ".stage"@, id)
            == VolumeLeftover::RemoveDirectory,
{
    reveal_strlit(".vol");
    reveal_strlit(".ext4");
    reveal_strlit(".stage");
    let head = id + ".vol"@;
    let a = head + decimal(idx) + ".ext4"@;
    let b = head + decimal(idx) + ".stage"@;
    assert(a.subrange(0, head.len() as int) =~= head);
    assert(b.subrange(0, head.len() as int) =~= head);
    assert(a.subrange(a.len() - 5, a.len() as int) =~= ".ext4"@);
    assert(b.subrange(b.len() - 6, b.len() as int) =~= ".stage"@);
    assert(b[b.len() - 1] == 'e');
    if ".ext4"@.is_suffix_of(b) {
        assert(b.subrange(b.len() - 5, b.len() as int)[4] == '4');
    }
}

/// No two volumes of a machine have the same device, and none has that of the
/// root disk.
pub proof fn law_devices_are_distinct(i: nat, j: nat)
    requires
        i < MAX_VOLUMES,
        j < MAX_VOLUMES,
    ensures
        device_of(i) == device_of(j) ==> i == j,
        device_of(i) != "/dev/vda"@,
        'b' <= device_of(i).last() <= 'y',
{
    reveal_strlit("/dev/vd");
    reveal_strlit("/dev/vda");
    assert(device_of(i).last() == (98 + i) as char);
    assert(device_of(j).last() == (98 + j) as char);
    assert("/dev/vda"@.last() == 'a');
}

/// A volume is attached as it is declared: at its destination, read-only exactly
/// where that is declared, from the operator's directory or from the image that
/// is kept by name. A rendered file is read-only, with its content, and is
/// refused exactly where its destination has no file name.
pub proof fn law_volume_is_attached_as_declared(
    lifecycle: &FirecrackerLifecycle,
    instance_id: &str,
    namespace: &str,
    m: &ResolvedMount,
    idx: usize,
    r: Result<VolumePlan, String>,
    own: String,
)
    requires
        call_ensures(plan_volume, (lifecycle, instance_id, namespace, m, idx), r),
        call_ensures(
            FirecrackerLifecycle::ephemeral_volume_path,
            (lifecycle, instance_id, idx),
            own,
        ),
    ensures
        *m matches ResolvedMount::Bind { source, destination, read_only } ==> (r matches Ok(plan)
            && plan.destination@ == destination@ && plan.read_only == read_only && plan.image@
            == own@ && (plan.build matches VolumeBuild::FromDirectory { source: from } && from@
            == source@)),
        *m matches ResolvedMount::Named { name, destination, read_only, driver } ==> (
        r matches Ok(plan) && plan.destination@ == destination@ && plan.read_only == read_only
            && plan.build is KeepOrCreate),
        *m matches ResolvedMount::Content { content, destination } ==> {
            &&& r is Ok <==> file_name_of(destination@) is Some
            &&& r matches Ok(plan) ==> plan.read_only && plan.image@ == own@ && (
            plan.build matches VolumeBuild::FromFile { stage, name, content: written } && written@
                == content@ && Some(name@) == file_name_of(destination@))
            &&& r matches Ok(plan) ==> (parent_of(destination@) matches Some(p) ==> (p.len() > 0
                ==> plan.destination@ == p))
            &&& r matches Ok(plan) ==> (parent_of(destination@) is None ==> plan.destination@
                == "/"@)
        },
        r matches Ok(plan) ==> decimal(idx as nat).is_suffix_of(plan.label@),
{
    if let Ok(plan) = r {
        let number = decimal(idx as nat);
        assert(plan.label@.subrange(plan.label@.len() - number.len(), plan.label@.len() as int)
            =~= number);
    }
}

/// More volumes than there are device letters are refused as a whole. Otherwise
/// they are attached in their order, each as it would be alone, up to the first
/// one that cannot be, at place `first`; an error is reported exactly where there
/// is such a one.
pub proof fn law_volumes_are_attached_in_order(
    lifecycle: &FirecrackerLifecycle,
    instance_id: &str,
    namespace: &str,
    resolved: &Vec<ResolvedMount>,
    first: int,
    r: (Vec<VolumePlan>, Option<String>),
    i: usize,
    alone: Result<VolumePlan, String>,
)
    requires
        call_ensures(prepare_volume_drives, (lifecycle, instance_id, namespace, resolved), r),
        0 <= first <= resolved@.len(),
        forall|j: int|
            0 <= j < first ==> (#[trigger] resolved@[j] is Content ==> file_name_of(
                resolved@[j]->Content_destination@,
            ) is Some),
        first < resolved@.len() ==> resolved@[first] is Content && file_name_of(
            resolved@[first]->Content_destination@,
        ) is None,
        i < first,
        call_ensures(
            plan_volume,
            (lifecycle, instance_id, namespace, &resolved@[i as int], i),
            alone,
        ),
    ensures
        resolved@.len() > 24 ==> r.0@.len() == 0 && r.1 is Some,
        resolved@.len() <= 24 ==> r.0@.len() == first,
        resolved@.len() <= 24 ==> (r.1 is Some <==> first < resolved@.len()),
        resolved@.len() <= 24 ==> (alone matches Ok(plan) && plan@ == r.0@[i as int]@),
{
    assert forall|j: int| 0 <= j < first implies is_shareable(#[trigger] resolved@[j]) by {
        assert(resolved@[j] is Content ==> file_name_of(resolved@[j]->Content_destination@)
            is Some);
    }
    lemma_shareable_count(resolved@, first);
    assert(is_shareable(resolved@[i as int]));
}

/// A volume's device holds the volume's image, is never the root device, and can
/// be written to exactly where the volume can. A new image has room for its
/// files and at least 15 mebibytes more, and less than 17 more.
pub proof fn law_volume_device_holds_its_image(
    plan: &VolumePlan,
    idx: usize,
    drive: Drive,
    bytes: u64,
    mib: u64,
)
    requires
        call_ensures(volume_drive, (plan, idx), drive),
        call_ensures(sizing_mib_for_bytes, (bytes,), mib),
    ensures
        drive.path_on_host@ == plan.image@,
        drive.is_read_only == plan.read_only,
        !drive.is_root_device,
        (mib - 16) * 1_048_576 <= bytes < (mib - 15) * 1_048_576,
{
}

/// When an instance is taken down exactly the images and the staging directories
/// of its own volumes go; a file without its id in front always stays.
pub proof fn law_only_own_volumes_go(name: &str, instance_id: &str, r: VolumeLeftover)
    requires
        call_ensures(cleanup_ephemeral_volumes, (name, instance_id), r),
    ensures
        r == VolumeLeftover::RemoveFile <==> (instance_id@ + ".vol"@).is_prefix_of(name@)
            && ".ext4"@.is_suffix_of(name@),
        r == VolumeLeftover::RemoveDirectory <==> (instance_id@ + ".vol"@).is_prefix_of(name@)
            && ".stage"@.is_suffix_of(name@) && !".ext4"@.is_suffix_of(name@),
        !(instance_id@ + ".vol"@).is_prefix_of(name@) ==> r == VolumeLeftover::Keep,
{
}

} // verus!
