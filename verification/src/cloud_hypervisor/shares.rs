//! Volumes of a VM: directories of the host that a helper process shares with
//! the guest.
use vstd::prelude::*;
use crate::cloud_hypervisor::client::FsConfig;
use crate::cloud_hypervisor::cloud_init::GuestMount;
use crate::cloud_hypervisor::lifecycle::{CloudHypervisorLifecycle, share_socket, volume_dir};
use crate::error::{RuntimeError, RuntimeErrorView};
use crate::foreign::{file_name_of, parent_of, path_file_name, path_parent};
use crate::models::ResolvedMount;
use crate::paths::{instance_file, join_path, joined_path};
use crate::text::{cat2, decimal, decimal_u64, is_digit, last_pos, lemma_last_pos, lemma_numeral_chars, lemma_numeral_injective, numeral};

verus! {

/// What is to be done on the host before a directory is shared.
#[derive(Debug)]
pub enum SharePreparation {
    /// The directory is the operator's, and is left as it is.
    Nothing,
    /// Create the directory where it is not there.
    CreateDirectory,
    /// Create the directory and write this file into it.
    WriteFile { name: String, content: String },
}

/// A [`SharePreparation`] by its contents.
pub enum PreparationView {
    Nothing,
    CreateDirectory,
    WriteFile { name: Seq<char>, content: Seq<char> },
}

impl View for SharePreparation {
    type V = PreparationView;

    open spec fn view(&self) -> PreparationView {
        match *self {
            SharePreparation::Nothing => PreparationView::Nothing,
            SharePreparation::CreateDirectory => PreparationView::CreateDirectory,
            SharePreparation::WriteFile { name, content } => PreparationView::WriteFile {
                name: name@,
                content: content@,
            },
        }
    }
}

/// A directory that is shared with a guest.
#[derive(Debug)]
pub struct Share {
    /// The name by which the guest mounts it.
    pub tag: String,
    /// The directory on the host.
    pub source: String,
    /// Where the guest mounts it.
    pub destination: String,
    pub read_only: bool,
    /// The socket of the helper process.
    pub socket: String,
    pub preparation: SharePreparation,
}

/// A [`Share`] by its contents.
pub struct ShareView {
    pub tag: Seq<char>,
    pub source: Seq<char>,
    pub destination: Seq<char>,
    pub read_only: bool,
    pub socket: Seq<char>,
    pub preparation: PreparationView,
}

impl View for Share {
    type V = ShareView;

    open spec fn view(&self) -> ShareView {
        ShareView {
            tag: self.tag@,
            source: self.source@,
            destination: self.destination@,
            read_only: self.read_only,
            socket: self.socket@,
            preparation: self.preparation@,
        }
    }
}

/// The name by which the guest mounts volume `idx`.
pub open spec fn share_tag(m: ResolvedMount, idx: nat) -> Seq<char> {
    match m {
        ResolvedMount::Bind { .. } => "bind-"@ + decimal(idx),
        ResolvedMount::Named { .. } => "vol-"@ + decimal(idx),
        ResolvedMount::Content { .. } => "cfg-"@ + decimal(idx),
    }
}

/// Whether a volume can be shared: a rendered file needs a file name.
pub open spec fn is_shareable(m: ResolvedMount) -> bool {
    match m {
        ResolvedMount::Content { content, destination } => file_name_of(destination@) is Some,
        _ => true,
    }
}

/// The directory that is shared for volume `idx`. A rendered file lies alone in
/// a directory that the guest mounts, read-only, where the file's parent is.
pub open spec fn share_for(
    dir: Seq<char>,
    instance_id: Seq<char>,
    namespace: Seq<char>,
    m: ResolvedMount,
    idx: nat,
) -> ShareView {
    let tag = share_tag(m, idx);
    let socket = share_socket(dir, instance_id, idx);
    match m {
        ResolvedMount::Bind { source, destination, read_only } => ShareView {
            tag,
            source: source@,
            destination: destination@,
            read_only,
            socket,
            preparation: PreparationView::Nothing,
        },
        ResolvedMount::Named { name, destination, read_only, driver } => ShareView {
            tag,
            source: volume_dir(dir, namespace, name@),
            destination: destination@,
            read_only,
            socket,
            preparation: PreparationView::CreateDirectory,
        },
        ResolvedMount::Content { content, destination } => ShareView {
            tag,
            source: joined_path(instance_file(dir, instance_id, ".shares"@), tag),
            destination: match parent_of(destination@) {
                Some(parent) => parent,
                None => "/"@,
            },
            read_only: true,
            socket,
            preparation: PreparationView::WriteFile {
                name: file_name_of(destination@)->0,
                content: content@,
            },
        },
    }
}

/// The directory that is shared for volume `idx`, or an error where a rendered
/// file has no file name.
pub fn plan_share(
    lifecycle: &CloudHypervisorLifecycle,
    instance_id: &str,
    namespace: &str,
    m: &ResolvedMount,
    idx: usize,
) -> (r: Result<Share, RuntimeError>)
    ensures
        r is Ok <==> is_shareable(*m),
        r matches Ok(share) ==> share@ == share_for(
            lifecycle.config.socket_dir@,
            instance_id@,
            namespace@,
            *m,
            idx as nat,
        ),
        r matches Err(e) ==> *m matches ResolvedMount::Content { content, destination } && e@
            == RuntimeErrorView::Other(
            "config volume destination has no filename: "@ + destination@,
        ),
{
    let number = decimal_u64(idx as u64);
    let socket = lifecycle.virtiofs_socket_path(instance_id, idx);
    match m {
        ResolvedMount::Bind { source, destination, read_only } => Ok(
            Share {
                tag: cat2("bind-", number.as_str()),
                source: source.clone(),
                destination: destination.clone(),
                read_only: *read_only,
                socket,
                preparation: SharePreparation::Nothing,
            },
        ),
        ResolvedMount::Named { name, destination, read_only, driver: _ } => Ok(
            Share {
                tag: cat2("vol-", number.as_str()),
                source: lifecycle.named_volume_dir(namespace, name.as_str()),
                destination: destination.clone(),
                read_only: *read_only,
                socket,
                preparation: SharePreparation::CreateDirectory,
            },
        ),
        ResolvedMount::Content { content, destination } => {
            let parent = match path_parent(destination.as_str()) {
                Some(p) => p,
                None => "/".to_owned(),
            };
            match path_file_name(destination.as_str()) {
                Some(name) => {
                    let tag = cat2("cfg-", number.as_str());
                    let root = lifecycle.instance_share_dir(instance_id);
                    let source = join_path(root.as_str(), tag.as_str());
                    Ok(
                        Share {
                            tag,
                            source,
                            destination: parent,
                            read_only: true,
                            socket,
                            preparation: SharePreparation::WriteFile {
                                name,
                                content: content.clone(),
                            },
                        },
                    )
                },
                None => Err(
                    RuntimeError::Other(
                        cat2("config volume destination has no filename: ", destination.as_str()),
                    ),
                ),
            }
        },
    }
}

/// The volumes before the first one that cannot be shared.
pub open spec fn shareable_count(mounts: Seq<ResolvedMount>) -> int
    decreases mounts.len(),
{
    if mounts.len() == 0 || !is_shareable(mounts[0]) {
        0
    } else {
        1 + shareable_count(mounts.skip(1))
    }
}

/// The first `n` volumes can be shared, so at least as many count.
pub proof fn lemma_shareable_count(mounts: Seq<ResolvedMount>, n: int)
    requires
        0 <= n <= mounts.len(),
        forall|j: int| 0 <= j < n ==> is_shareable(#[trigger] mounts[j]),
    ensures
        n <= shareable_count(mounts) <= mounts.len(),
        n < mounts.len() && !is_shareable(mounts[n]) ==> shareable_count(mounts) == n,
    decreases mounts.len(),
{
    if mounts.len() > 0 {
        let rest = mounts.skip(1);
        let m = if n == 0 {
            0
        } else {
            n - 1
        };
        assert forall|j: int| 0 <= j < m implies is_shareable(#[trigger] rest[j]) by {
            assert(rest[j] == mounts[j + 1]);
        }
        lemma_shareable_count(rest, m);
        if n > 0 {
            assert(is_shareable(mounts[0]));
        }
    }
}

/// The directories that are shared with an instance, in the order of the
/// volumes, up to the first volume that cannot be shared; and the error for
/// that one, where there is one. What comes before it is still set up.
pub fn prepare_virtiofs_mounts(
    lifecycle: &CloudHypervisorLifecycle,
    instance_id: &str,
    namespace: &str,
    resolved: &Vec<ResolvedMount>,
) -> (r: (Vec<Share>, Option<RuntimeError>))
    ensures
        r.0.len() == shareable_count(resolved@),
        forall|i: int|
            0 <= i < r.0.len() ==> (#[trigger] r.0@[i])@ == share_for(
                lifecycle.config.socket_dir@,
                instance_id@,
                namespace@,
                resolved@[i],
                i as nat,
            ),
        r.1 is None <==> shareable_count(resolved@) == resolved.len(),
        r.1 matches Some(e) ==> resolved@[shareable_count(resolved@)] matches
            ResolvedMount::Content { content, destination } && e@ == RuntimeErrorView::Other(
            "config volume destination has no filename: "@ + destination@,
        ),
{
    let mut out: Vec<Share> = Vec::new();
    let mut i: usize = 0;
    while i < resolved.len()
        invariant
            i <= resolved.len(),
            out.len() == i,
            forall|j: int| 0 <= j < i ==> is_shareable(#[trigger] resolved@[j]),
            forall|j: int|
                0 <= j < i ==> (#[trigger] out@[j])@ == share_for(
                    lifecycle.config.socket_dir@,
                    instance_id@,
                    namespace@,
                    resolved@[j],
                    j as nat,
                ),
        decreases resolved.len() - i,
    {
        match plan_share(lifecycle, instance_id, namespace, &resolved[i], i) {
            Ok(share) => {
                out.push(share);
            },
            Err(e) => {
                proof {
                    lemma_shareable_count(resolved@, i as int);
                }
                return (out, Some(e));
            },
        }
        i += 1;
    }
    proof {
        lemma_shareable_count(resolved@, resolved.len() as int);
    }
    (out, None)
}

/// What the VMM is told about a shared directory.
pub fn fs_config(share: &Share) -> (r: FsConfig)
    ensures
        r.tag@ == share.tag@,
        r.socket@ == share.socket@,
        r.num_queues == 1,
        r.queue_size == 1024,
{
    FsConfig { tag: share.tag.clone(), socket: share.socket.clone(), num_queues: 1, queue_size: 1024 }
}

/// What the VMM is told about the shared directories.
pub fn fs_configs(shares: &Vec<Share>) -> (r: Vec<FsConfig>)
    ensures
        r.len() == shares.len(),
        forall|i: int|
            0 <= i < r.len() ==> (#[trigger] r@[i]).tag@ == shares@[i].tag@ && r@[i].socket@
                == shares@[i].socket@ && r@[i].num_queues == 1 && r@[i].queue_size == 1024,
{
    let mut out: Vec<FsConfig> = Vec::new();
    let mut i: usize = 0;
    while i < shares.len()
        invariant
            i <= shares.len(),
            out.len() == i,
            forall|j: int|
                0 <= j < i ==> (#[trigger] out@[j]).tag@ == shares@[j].tag@ && out@[j].socket@
                    == shares@[j].socket@ && out@[j].num_queues == 1 && out@[j].queue_size == 1024,
        decreases shares.len() - i,
    {
        out.push(fs_config(&shares[i]));
        i += 1;
    }
    out
}

/// What the guest is told about the shared directories.
pub fn guest_mounts(shares: &Vec<Share>) -> (r: Vec<GuestMount>)
    ensures
        r.len() == shares.len(),
        forall|i: int|
            0 <= i < r.len() ==> (#[trigger] r@[i]).tag@ == shares@[i].tag@ && r@[i].destination@
                == shares@[i].destination@ && r@[i].read_only == shares@[i].read_only,
{
    let mut out: Vec<GuestMount> = Vec::new();
    let mut i: usize = 0;
    while i < shares.len()
        invariant
            i <= shares.len(),
            out.len() == i,
            forall|j: int|
                0 <= j < i ==> (#[trigger] out@[j]).tag@ == shares@[j].tag@ && out@[j].destination@
                    == shares@[j].destination@ && out@[j].read_only == shares@[j].read_only,
        decreases shares.len() - i,
    {
        let s = &shares[i];
        out.push(
            GuestMount {
                tag: s.tag.clone(),
                destination: s.destination.clone(),
                read_only: s.read_only,
            },
        );
        i += 1;
    }
    out
}

/// The error for a host without the helper program.
pub fn helper_missing() -> (r: RuntimeError)
    ensures
        r@ == RuntimeErrorView::Other(
            "virtiofsd binary not found (install virtiofsd or set RING_VIRTIOFSD)"@,
        ),
{
    RuntimeError::Other(
        "virtiofsd binary not found (install virtiofsd or set RING_VIRTIOFSD)".to_owned(),
    )
}

/// The position of the dash in a tag is that of its last dash.
proof fn lemma_tag_parts(m: ResolvedMount, idx: nat)
    ensures
        ({
            let tag = share_tag(m, idx);
            let dash = last_pos(tag, '-');
            &&& 0 <= dash < tag.len()
            &&& tag.skip(dash + 1) == decimal(idx)
        }),
{
    reveal_strlit("bind-");
    reveal_strlit("vol-");
    reveal_strlit("cfg-");
    let tag = share_tag(m, idx);
    let head: int = if m is Bind {
        4
    } else {
        3
    };
    lemma_numeral_chars(idx, 10);
    lemma_last_pos(tag, '-');
    assert(tag[head] == '-');
    assert forall|j: int| head < j < tag.len() implies tag[j] != '-' by {
        assert(tag[j] == numeral(idx, 10)[j - head - 1]);
        assert(is_digit(numeral(idx, 10)[j - head - 1]));
    }
    assert(last_pos(tag, '-') == head);
    assert(tag.skip(head + 1) =~= decimal(idx));
}

/// No two volumes of an instance have the same tag, whatever their kinds.
pub proof fn law_tags_are_distinct(a: ResolvedMount, i: nat, b: ResolvedMount, j: nat)
    requires
        i != j,
    ensures
        share_tag(a, i) != share_tag(b, j),
{
    lemma_tag_parts(a, i);
    lemma_tag_parts(b, j);
    if share_tag(a, i) == share_tag(b, j) {
        lemma_numeral_injective(i, j, 10);
    }
}

/// A directory of the host and a volume by name are shared as they are declared,
/// read-only exactly where that is declared; the operator's directory is left as
/// it is and one by name is made. A rendered file is shared read-only, with its
/// content, and is refused exactly where its destination has no file name.
pub proof fn law_volume_is_shared_as_declared(
    lifecycle: &CloudHypervisorLifecycle,
    instance_id: &str,
    namespace: &str,
    m: &ResolvedMount,
    idx: usize,
    r: Result<Share, RuntimeError>,
)
    requires
        call_ensures(plan_share, (lifecycle, instance_id, namespace, m, idx), r),
    ensures
        *m matches ResolvedMount::Bind { source, destination, read_only } ==> (r matches Ok(share)
            && share.source@ == source@ && share.destination@ == destination@ && share.read_only
            == read_only && share.preparation is Nothing),
        *m matches ResolvedMount::Named { name, destination, read_only, driver } ==> (
        r matches Ok(share) && share.destination@ == destination@ && share.read_only == read_only
            && share.preparation is CreateDirectory),
        *m matches ResolvedMount::Content { content, destination } ==> {
            &&& r is Ok <==> file_name_of(destination@) is Some
            &&& r matches Ok(share) ==> share.read_only && (
            share.preparation matches SharePreparation::WriteFile { name, content: written }
                && written@ == content@ && Some(name@) == file_name_of(destination@))
            &&& r matches Ok(share) ==> (parent_of(destination@) matches Some(p)
                ==> share.destination@ == p)
            &&& r matches Ok(share) ==> (parent_of(destination@) is None ==> share.destination@
                == "/"@)
        },
        r matches Ok(share) ==> decimal(idx as nat).is_suffix_of(share.tag@),
{
    if let Ok(share) = r {
        let number = decimal(idx as nat);
        assert(share.tag@.subrange(share.tag@.len() - number.len(), share.tag@.len() as int)
            =~= number);
    }
}

/// The volumes of an instance are shared in their order, each as it would be
/// alone, up to the first one that cannot be; `first` is the place of that one,
/// or their number. An error is reported exactly where there is such a one.
pub proof fn law_volumes_are_shared_in_order(
    lifecycle: &CloudHypervisorLifecycle,
    instance_id: &str,
    namespace: &str,
    resolved: &Vec<ResolvedMount>,
    first: int,
    r: (Vec<Share>, Option<RuntimeError>),
    i: usize,
    alone: Result<Share, RuntimeError>,
)
    requires
        call_ensures(
            prepare_virtiofs_mounts,
            (lifecycle, instance_id, namespace, resolved),
            r,
        ),
        0 <= first <= resolved@.len(),
        forall|j: int|
            0 <= j < first ==> (#[trigger] resolved@[j] is Content ==> file_name_of(
                resolved@[j]->Content_destination@,
            ) is Some),
        first < resolved@.len() ==> resolved@[first] is Content && file_name_of(
            resolved@[first]->Content_destination@,
        ) is None,
        i < first,
        call_ensures(
            plan_share,
            (lifecycle, instance_id, namespace, &resolved@[i as int], i),
            alone,
        ),
    ensures
        r.0@.len() == first,
        r.1 is Some <==> first < resolved@.len(),
        alone matches Ok(share) && share@ == r.0@[i as int]@,
{
    assert forall|j: int| 0 <= j < first implies is_shareable(#[trigger] resolved@[j]) by {
        assert(resolved@[j] is Content ==> file_name_of(resolved@[j]->Content_destination@)
            is Some);
    }
    lemma_shareable_count(resolved@, first);
    assert(is_shareable(resolved@[i as int]));
}

/// The VMM and the guest are told of the same shares, one by one: the same tag,
/// the helper's socket to the one, the destination and whether it can be written
/// to the other.
pub proof fn law_vmm_and_guest_are_told_alike(
    shares: &Vec<Share>,
    for_vmm: Vec<FsConfig>,
    for_guest: Vec<GuestMount>,
)
    requires
        call_ensures(fs_configs, (shares,), for_vmm),
        call_ensures(guest_mounts, (shares,), for_guest),
    ensures
        for_vmm@.len() == shares@.len() && for_guest@.len() == shares@.len(),
        forall|i: int|
            0 <= i < shares@.len() ==> (#[trigger] for_vmm@[i]).tag@ == for_guest@[i].tag@
                && for_vmm@[i].tag@ == shares@[i].tag@ && for_vmm@[i].socket@ == shares@[i].socket@
                && for_guest@[i].destination@ == shares@[i].destination@ && for_guest@[i].read_only
                == shares@[i].read_only,
{
}

} // verus!
