//! Images of containers: what they are called, when they are pulled, and which
//! snapshot their layers make.
use vstd::prelude::*;
use vstd::utf8::encode_utf8;
use crate::cloud_hypervisor::cloud_init::base64_text;
use crate::docker::{ImagePullPolicy, ImageReference, ReferenceView, image_parts, join_ref, joined_ref, parse_image_reference};
use crate::entries::copy_strings;
use crate::error::{RuntimeError, RuntimeErrorView};
use crate::foreign::{base64_standard, hex_encode, hex_text, lower_case, sha256, sha256_digest, unicode_lowercase};
use crate::text::{cat2, cat3, cat4, cat5, chars_of, contains, find_from, first_pos, has, lemma_first_pos_unique, opt_str, same, string_of, strs};

verus! {

/// An image and the credentials for its registry.
#[derive(Debug)]
pub struct ContainerdImage {
    /// The name under which containerd keeps the image, registry and all.
    pub reference: String,
    pub parsed_ref: ImageReference,
    /// Server, user name and password.
    pub auth: Option<(String, String, String)>,
}

/// What stands before the first slash of a repository.
pub open spec fn first_segment(repo: Seq<char>) -> Seq<char> {
    repo.take(first_pos(repo, '/'))
}

/// Whether the first segment of a repository names a registry: it has a dot or
/// a colon, or is the local host.
pub open spec fn names_registry(repo: Seq<char>) -> bool {
    let segment = first_segment(repo);
    segment.contains('.') || segment.contains(':') || segment == "localhost"@
}

/// A repository with its registry: the public one and its default namespace
/// where none is named.
pub open spec fn full_repository(repo: Seq<char>) -> Seq<char> {
    if names_registry(repo) {
        repo
    } else if repo.contains('/') {
        "docker.io/"@ + repo
    } else {
        "docker.io/library/"@ + repo
    }
}

/// Whether `c` is in `s`.
pub fn has_char(s: &Vec<char>, c: char) -> (r: bool)
    ensures
        r == s@.contains(c),
{
    let p: usize = find_from(s, c, 0);
    if p < s.len() {
        assert(s@[p as int] == c);
        true
    } else {
        false
    }
}

/// A repository with its registry. containerd, unlike a Docker daemon, does not
/// add the defaults itself.
pub fn normalize_repository(repo: &str) -> (r: String)
    ensures
        r@ == full_repository(repo@),
{
    let text = chars_of(repo);
    assert(text@.skip(0) =~= text@);
    let slash: usize = find_from(&text, '/', 0);
    let segment = string_of(&text, 0, slash);
    assert(segment@ =~= first_segment(repo@));
    let head = chars_of(segment.as_str());
    if has_char(&head, '.') || has_char(&head, ':') || same(segment.as_str(), "localhost") {
        repo.to_owned()
    } else if slash < text.len() {
        assert(repo@[slash as int] == '/');
        cat2("docker.io/", repo)
    } else {
        assert(!repo@.contains('/'));
        cat2("docker.io/library/", repo)
    }
}

/// The name under which containerd keeps an image.
pub open spec fn canonical_reference(image: Seq<char>) -> Seq<char> {
    let (name, reference) = image_parts(image);
    joined_ref(full_repository(name), reference)
}

impl ContainerdImage {
    /// The image that a deployment asks for.
    pub fn from_deployment(image: &str, auth: Option<(String, String, String)>) -> (r: Self)
        ensures
            r.reference@ == canonical_reference(image@),
            r.parsed_ref@ == image_parts(image@).1,
            r.auth == auth,
    {
        let (repo, parsed_ref) = parse_image_reference(image);
        let full = normalize_repository(repo.as_str());
        let reference = join_ref(full.as_str(), &parsed_ref);
        ContainerdImage { reference, parsed_ref, auth }
    }
}

// ---------------------------------------------------------------------------
// Pulling
// ---------------------------------------------------------------------------

/// Whether an image is pulled, given whether it is in the local store; `None`
/// where it is needed and pulling is forbidden.
pub open spec fn pull_decision(
    policy: ImagePullPolicy,
    reference: ReferenceView,
    present: bool,
) -> Option<bool> {
    match policy {
        ImagePullPolicy::Never => if present {
            Some(false)
        } else {
            None
        },
        ImagePullPolicy::IfNotPresent => Some(!present),
        ImagePullPolicy::Always => Some(!(reference is Digest) || !present),
    }
}

/// Whether an image is pulled. A digest names one image for good, so pulling it
/// again gives nothing.
pub fn must_pull(image: &ContainerdImage, policy: ImagePullPolicy, present: bool) -> (r: Result<
    bool,
    RuntimeError,
>)
    ensures
        match pull_decision(policy, image.parsed_ref@, present) {
            Some(pull) => r matches Ok(b) && b == pull,
            None => r matches Err(e) && e@ == RuntimeErrorView::ImageNotFound(
                "image '"@ + image.reference@
                    + "' not in containerd image store and image_pull_policy=Never forbids pulling"@,
            ),
        },
{
    match policy {
        ImagePullPolicy::Never => {
            if present {
                Ok(false)
            } else {
                Err(
                    RuntimeError::ImageNotFound(
                        cat3(
                            "image '",
                            image.reference.as_str(),
                            "' not in containerd image store and image_pull_policy=Never forbids pulling",
                        ),
                    ),
                )
            }
        },
        ImagePullPolicy::IfNotPresent => Ok(!present),
        ImagePullPolicy::Always => {
            let pinned = match &image.parsed_ref {
                ImageReference::Digest(_) => true,
                ImageReference::Tag(_) => false,
            };
            Ok(!pinned || !present)
        },
    }
}

/// The header that carries the credentials to a registry, where there are any:
/// user name and password, in base64.
pub fn authorization_header(auth: &Option<(String, String, String)>) -> (r: Option<String>)
    ensures
        opt_str(r) == match *auth {
            Some(t) => Some("Basic "@ + base64_text(encode_utf8(t.1@ + ":"@ + t.2@))),
            None => None,
        },
{
    match auth {
        Some(t) => {
            let raw = cat3(t.1.as_str(), ":", t.2.as_str());
            let encoded = base64_standard(raw.as_str().as_bytes());
            Some(cat2("Basic ", encoded.as_str()))
        },
        None => None,
    }
}

/// What a failed pull is reported as, given the error's text in lower case.
pub open spec fn transfer_error(lower: Seq<char>, msg: Seq<char>, image: Seq<char>) -> RuntimeErrorView {
    if contains(lower, "not found"@) || contains(lower, "manifest unknown"@) || contains(
        lower,
        "404"@,
    ) {
        RuntimeErrorView::ImageNotFound("image '"@ + image + "' not found: "@ + msg)
    } else if contains(lower, "unauthorized"@) || contains(lower, "authentication"@) || contains(
        lower,
        "denied"@,
    ) || contains(lower, "forbidden"@) {
        RuntimeErrorView::ImagePullFailed(
            "registry authentication failed for '"@ + image
                + "' — check config.server, config.username and config.password (original error: "@
                + msg + ")"@,
        )
    } else if contains(lower, "connection refused"@) || contains(lower, "no such host"@)
        || contains(lower, "timeout"@) || contains(lower, "dial"@) {
        RuntimeErrorView::ImagePullFailed(
            "cannot reach the registry for '"@ + image + "' (original error: "@ + msg + ")"@,
        )
    } else {
        RuntimeErrorView::ImagePullFailed(msg)
    }
}

/// What a failed pull is reported as, given the error's text in lower case.
pub fn classify_transfer_text(lower: &str, msg: &str, image: &str) -> (r: RuntimeError)
    ensures
        r@ == transfer_error(lower@, msg@, image@),
{
    if has(lower, "not found") || has(lower, "manifest unknown") || has(lower, "404") {
        return RuntimeError::ImageNotFound(cat4("image '", image, "' not found: ", msg));
    }
    if has(lower, "unauthorized") || has(lower, "authentication") || has(lower, "denied") || has(
        lower,
        "forbidden",
    ) {
        return RuntimeError::ImagePullFailed(
            cat5(
                "registry authentication failed for '",
                image,
                "' — check config.server, config.username and config.password (original error: ",
                msg,
                ")",
            ),
        );
    }
    if has(lower, "connection refused") || has(lower, "no such host") || has(lower, "timeout")
        || has(lower, "dial") {
        return RuntimeError::ImagePullFailed(
            cat5(
                "cannot reach the registry for '",
                image,
                "' (original error: ",
                msg,
                ")",
            ),
        );
    }
    RuntimeError::ImagePullFailed(msg.to_owned())
}

/// Classify the text of a failed pull, whatever the case of its letters.
pub fn classify_pull_error(msg: &str, image: &str) -> (r: RuntimeError)
    ensures
        r@ == transfer_error(lower_case(msg@), msg@, image@),
{
    let lower = unicode_lowercase(msg);
    classify_transfer_text(lower.as_str(), msg, image)
}

// ---------------------------------------------------------------------------
// Manifests
// ---------------------------------------------------------------------------

/// The platform of an image.
#[derive(Debug)]
pub struct OciPlatform {
    pub architecture: String,
    pub os: String,
}

/// An entry of an index: the manifest for one platform.
#[derive(Debug)]
pub struct OciIndexEntry {
    pub digest: String,
    pub platform: Option<OciPlatform>,
}

/// An index: the manifests of an image for several platforms.
#[derive(Debug)]
pub struct OciIndex {
    pub manifests: Vec<OciIndexEntry>,
}

/// The process that an image declares.
#[derive(Debug)]
pub struct OciImageConfigInner {
    pub entrypoint: Option<Vec<String>>,
    pub cmd: Option<Vec<String>>,
}

/// The settings of an image: the hashes of its layers and its process.
#[derive(Debug)]
pub struct OciImageConfig {
    pub diff_ids: Vec<String>,
    pub config: OciImageConfigInner,
}

/// Whether an entry is for Linux on this architecture.
pub open spec fn is_for(e: OciIndexEntry, arch: Seq<char>) -> bool {
    e.platform matches Some(p) && p.os@ == "linux"@ && p.architecture@ == arch
}

/// The first entry for Linux on this architecture.
pub open spec fn first_for(entries: Seq<OciIndexEntry>, arch: Seq<char>) -> Option<Seq<char>>
    decreases entries.len(),
{
    if entries.len() == 0 {
        None
    } else if is_for(entries[0], arch) {
        Some(entries[0].digest@)
    } else {
        first_for(entries.skip(1), arch)
    }
}

/// The first entry without a platform.
pub open spec fn first_plain(entries: Seq<OciIndexEntry>) -> Option<Seq<char>>
    decreases entries.len(),
{
    if entries.len() == 0 {
        None
    } else if entries[0].platform is None {
        Some(entries[0].digest@)
    } else {
        first_plain(entries.skip(1))
    }
}

/// The manifest for this architecture, or one without a platform.
pub open spec fn platform_digest(entries: Seq<OciIndexEntry>, arch: Seq<char>) -> Option<Seq<char>> {
    match first_for(entries, arch) {
        Some(d) => Some(d),
        None => first_plain(entries),
    }
}

/// The manifest of an index for Linux on this architecture, or else the first
/// one without a platform.
pub fn select_platform_digest(index: &OciIndex, arch: &str) -> (r: Option<String>)
    ensures
        opt_str(r) == platform_digest(index.manifests@, arch@),
{
    let entries = &index.manifests;
    let mut fallback: Option<String> = None;
    let mut i: usize = 0;
    assert(entries@.skip(0) =~= entries@);
    while i < entries.len()
        invariant
            i <= entries.len(),
            *entries == index.manifests,
            first_for(entries@, arch@) == first_for(entries@.skip(i as int), arch@),
            match fallback {
                Some(d) => first_plain(entries@) == Some(d@),
                None => first_plain(entries@) == first_plain(entries@.skip(i as int)),
            },
        decreases entries.len() - i,
    {
        let ghost rest = entries@.skip(i as int);
        assert(rest[0] == entries@[i as int]);
        assert(rest.skip(1) =~= entries@.skip(i + 1));
        match &entries[i].platform {
            Some(p) => {
                if same(p.os.as_str(), "linux") && same(p.architecture.as_str(), arch) {
                    return Some(entries[i].digest.clone());
                }
            },
            None => {
                if fallback.is_none() {
                    fallback = Some(entries[i].digest.clone());
                }
            },
        }
        i += 1;
    }
    fallback
}

/// The manifest that a digest leads to, given the index that it names where it
/// names one. What is no index is a manifest already, as is an empty one.
pub fn resolve_platform_manifest(digest: &str, index: &Option<OciIndex>, arch: &str) -> (r: Result<
    String,
    RuntimeError,
>)
    ensures
        match *index {
            Some(ix) => if ix.manifests.len() == 0 {
                r matches Ok(d) && d@ == digest@
            } else {
                match platform_digest(ix.manifests@, arch@) {
                    Some(d) => r matches Ok(found) && found@ == d,
                    None => r matches Err(e) && e@ == RuntimeErrorView::Other(
                        "image index "@ + digest@ + " has no manifest for platform linux/"@ + arch@,
                    ),
                }
            },
            None => r matches Ok(d) && d@ == digest@,
        },
{
    match index {
        Some(ix) => {
            if ix.manifests.len() == 0 {
                return Ok(digest.to_owned());
            }
            match select_platform_digest(ix, arch) {
                Some(d) => Ok(d),
                None => Err(
                    RuntimeError::Other(
                        cat4(
                            "image index ",
                            digest,
                            " has no manifest for platform linux/",
                            arch,
                        ),
                    ),
                ),
            }
        },
        None => Ok(digest.to_owned()),
    }
}

/// The strings of an optional list.
pub open spec fn opt_list(o: Option<Vec<String>>) -> Seq<Seq<char>> {
    match o {
        Some(v) => strs(v@),
        None => Seq::empty(),
    }
}

/// Append copies of the strings of an optional list.
fn append_copies(out: &mut Vec<String>, list: &Option<Vec<String>>)
    ensures
        strs(final(out)@) == strs(old(out)@) + opt_list(*list),
{
    let ghost before = out@;
    match list {
        Some(v) => {
            let mut copies = copy_strings(v);
            out.append(&mut copies);
            assert(strs(out@) =~= strs(before) + strs(v@));
        },
        None => {
            assert(strs(out@) =~= strs(before) + Seq::empty());
        },
    }
}

/// The process that an image declares: its entry point and then its arguments.
pub fn image_default_args(config: &OciImageConfigInner) -> (r: Vec<String>)
    ensures
        strs(r@) == opt_list(config.entrypoint) + opt_list(config.cmd),
{
    let mut args: Vec<String> = Vec::new();
    assert(strs(args@) =~= Seq::empty());
    append_copies(&mut args, &config.entrypoint);
    append_copies(&mut args, &config.cmd);
    assert(strs(args@) =~= opt_list(config.entrypoint) + opt_list(config.cmd));
    args
}

/// The snapshot that the layers of an image make: that of the first layer is
/// its own hash, and each further layer hashes the snapshot below it and its
/// own hash.
pub open spec fn chain_id(layers: Seq<Seq<char>>) -> Seq<char>
    decreases layers.len(),
{
    if layers.len() <= 1 {
        layers[0]
    } else {
        "sha256:"@ + hex_text(
            sha256(encode_utf8(chain_id(layers.drop_last()) + " "@ + layers.last())),
        )
    }
}

/// The snapshot that one more layer makes, given the hash of the snapshot below
/// it and of the layer.
pub fn chained(hash: &Vec<u8>) -> (r: String)
    ensures
        r@ == "sha256:"@ + hex_text(hash@),
{
    let text = hex_encode(hash.as_slice());
    cat2("sha256:", text.as_str())
}

/// The snapshot that the layers of an image make.
pub fn compute_chain_id(diff_ids: &[String]) -> (r: String)
    requires
        diff_ids@.len() > 0,
    ensures
        r@ == chain_id(strs(diff_ids@)),
{
    let ghost all = strs(diff_ids@);
    let mut chain = diff_ids[0].clone();
    let mut i: usize = 1;
    assert(all.take(1).len() == 1);
    assert(all.take(1)[0] == all[0]);
    while i < diff_ids.len()
        invariant
            1 <= i <= diff_ids@.len(),
            all == strs(diff_ids@),
            chain@ == chain_id(all.take(i as int)),
        decreases diff_ids@.len() - i,
    {
        assert(all.take(i + 1).drop_last() =~= all.take(i as int));
        assert(all.take(i + 1).last() == diff_ids@[i as int]@);
        let text = cat3(chain.as_str(), " ", diff_ids[i].as_str());
        let hash = sha256_digest(text.as_str().as_bytes());
        chain = chained(&hash);
        i += 1;
    }
    assert(all.take(all.len() as int) =~= all);
    chain
}

/// The snapshot and the process of an image, from its settings. An image
/// without layers cannot be run.
pub fn resolve_chain_id_and_args(config: &OciImageConfig) -> (r: Result<
    (String, Vec<String>),
    RuntimeError,
>)
    ensures
        if config.diff_ids.len() == 0 {
            r matches Err(e) && e@ == RuntimeErrorView::Other(
                "image config has no rootfs diff_ids"@,
            )
        } else {
            r matches Ok(p) && p.0@ == chain_id(strs(config.diff_ids@)) && strs(p.1@) == opt_list(
                config.config.entrypoint,
            ) + opt_list(config.config.cmd)
        },
{
    if config.diff_ids.len() == 0 {
        return Err(RuntimeError::Other("image config has no rootfs diff_ids".to_owned()));
    }
    let args = image_default_args(&config.config);
    Ok((compute_chain_id(config.diff_ids.as_slice()), args))
}

// ---------------------------------------------------------------------------
// Errors
// ---------------------------------------------------------------------------

/// The error for an image that the store does not hand out.
pub fn get_image_error(reference: &str, text: &str) -> (r: RuntimeError)
    ensures
        r@ == RuntimeErrorView::Other("GetImage failed for "@ + reference@ + ": "@ + text@),
{
    RuntimeError::Other(cat4("GetImage failed for ", reference, ": ", text))
}

/// The error for an image without content.
pub fn no_target_error(reference: &str) -> (r: RuntimeError)
    ensures
        r@ == RuntimeErrorView::ImageNotFound(
            "image '"@ + reference@ + "' has no target descriptor"@,
        ),
{
    RuntimeError::ImageNotFound(cat3("image '", reference, "' has no target descriptor"))
}

/// The error for a manifest that cannot be read.
pub fn manifest_error(digest: &str, text: &str) -> (r: RuntimeError)
    ensures
        r@ == RuntimeErrorView::Other(
            "failed to parse image manifest "@ + digest@ + ": "@ + text@,
        ),
{
    RuntimeError::Other(cat4("failed to parse image manifest ", digest, ": ", text))
}

/// The error for settings that cannot be read.
pub fn config_error(digest: &str, text: &str) -> (r: RuntimeError)
    ensures
        r@ == RuntimeErrorView::Other("failed to parse image config "@ + digest@ + ": "@ + text@),
{
    RuntimeError::Other(cat4("failed to parse image config ", digest, ": ", text))
}

/// The error for content that cannot be read.
pub fn content_error(digest: &str, text: &str) -> (r: RuntimeError)
    ensures
        r@ == RuntimeErrorView::Other("ReadContent failed for "@ + digest@ + ": "@ + text@),
{
    RuntimeError::Other(cat4("ReadContent failed for ", digest, ": ", text))
}

// ---------------------------------------------------------------------------
// Laws
// ---------------------------------------------------------------------------

/// A repository that was given its registry names one, so giving it its
/// registry again changes nothing.
pub proof fn law_normalizing_is_idempotent(repo: Seq<char>)
    ensures
        names_registry(full_repository(repo)),
        full_repository(full_repository(repo)) == full_repository(repo),
{
    reveal_strlit("docker.io/");
    reveal_strlit("docker.io/library/");
    let full = full_repository(repo);
    if !names_registry(repo) {
        let host = seq!['d', 'o', 'c', 'k', 'e', 'r', '.', 'i', 'o'];
        assert forall|j: int| 0 <= j < 9 implies full[j] == host[j] by {}
        assert(full[9] == '/');
        assert forall|j: int| 0 <= j < 9 implies full[j] != '/' by {}
        lemma_first_pos_unique(full, '/', 9);
        assert(first_segment(full)[6] == '.');
        assert(first_segment(full).contains('.'));
    }
}

/// Where pulling is forbidden nothing is pulled, and an image that is there is
/// only pulled again under the policy that says so, and only by tag.
pub proof fn law_present_image_is_kept(policy: ImagePullPolicy, reference: ReferenceView)
    ensures
        pull_decision(ImagePullPolicy::Never, reference, true) == Some(false),
        pull_decision(ImagePullPolicy::Never, reference, false) is None,
        pull_decision(policy, reference, true) == Some(true) ==> policy == ImagePullPolicy::Always
            && reference is Tag,
{
}

/// The snapshot of an image with more than one layer is the hash over that of
/// its lower layers and its last one.
pub proof fn law_chain_id_extends(layers: Seq<Seq<char>>, last: Seq<char>)
    requires
        layers.len() > 0,
    ensures
        chain_id(layers.push(last)) == "sha256:"@ + hex_text(
            sha256(encode_utf8(chain_id(layers) + " "@ + last)),
        ),
        chain_id(seq![last]) == last,
{
    assert(layers.push(last).drop_last() =~= layers);
}

/// A repository keeps its own name at the end, and is taken as it is exactly
/// where what stands before its first slash names a registry; `host` is that
/// part. Otherwise the public registry is put in front, with its default
/// namespace exactly where the name has no slash.
pub proof fn law_repository_is_completed(repo: &str, host: Seq<char>, r: String)
    requires
        !host.contains('/'),
        host == repo@ || (host.push('/')).is_prefix_of(repo@),
        call_ensures(normalize_repository, (repo,), r),
    ensures
        repo@.is_suffix_of(r@),
        host.contains('.') || host.contains(':') || host == "localhost"@ ==> r@ == repo@,
        !(host.contains('.') || host.contains(':') || host == "localhost"@) ==> (r@ == if repo@.contains(
            '/',
        ) {
            "docker.io/"@ + repo@
        } else {
            "docker.io/library/"@ + repo@
        }),
{
    assert forall|j: int| 0 <= j < host.len() implies repo@[j] != '/' by {
        assert(host.contains(host[j]));
        if host != repo@ {
            assert(repo@.subrange(0, host.len() as int + 1)[j] == host.push('/')[j]);
        }
    }
    if host != repo@ {
        assert(repo@.subrange(0, host.len() as int + 1)[host.len() as int] == '/');
    }
    lemma_first_pos_unique(repo@, '/', host.len() as int);
    if host != repo@ {
        assert forall|j: int| 0 <= j < host.len() implies repo@[j] == host[j] by {
            assert(repo@.subrange(0, host.len() as int + 1)[j] == host.push('/')[j]);
        }
    }
    assert(first_segment(repo@) =~= host);
    assert(r@.subrange(r@.len() - repo@.len(), r@.len() as int) =~= repo@);
}

/// The name under which containerd keeps an image is that of the completed
/// repository with the reference that the deployment writes.
pub proof fn law_image_is_kept_under_its_full_name(
    image: &str,
    auth: Option<(String, String, String)>,
    r: ContainerdImage,
    parsed: (String, ImageReference),
    repo: &str,
    full: String,
)
    requires
        call_ensures(parse_image_reference, (image,), parsed),
        repo@ == parsed.0@,
        call_ensures(normalize_repository, (repo,), full),
        call_ensures(ContainerdImage::from_deployment, (image, auth), r),
    ensures
        r.auth == auth,
        parsed.1 matches ImageReference::Tag(t) ==> r.reference@ == full@ + ":"@ + t@ && r.parsed_ref
            is Tag,
        parsed.1 matches ImageReference::Digest(d) ==> r.reference@ == full@ + "@"@ + d@
            && r.parsed_ref is Digest,
{
}

/// An image that is missing is pulled unless that is forbidden, and then it is
/// an error; one that is there is pulled again exactly where the policy asks for
/// it and the image is named by a tag.
pub proof fn law_missing_image_is_pulled(
    image: &ContainerdImage,
    policy: ImagePullPolicy,
    present: bool,
    r: Result<bool, RuntimeError>,
)
    requires
        call_ensures(must_pull, (image, policy, present), r),
    ensures
        r is Err <==> !present && policy == ImagePullPolicy::Never,
        r matches Err(e) ==> e is ImageNotFound,
        !present && policy != ImagePullPolicy::Never ==> (r matches Ok(b) && b),
        present ==> (r matches Ok(b) && (b <==> policy == ImagePullPolicy::Always && image.parsed_ref
            is Tag)),
{
}

/// Credentials are sent exactly where there are any: the user name and the
/// password, and not the server.
pub proof fn law_credentials_are_sent(
    a: (String, String, String),
    b: (String, String, String),
    for_a: Option<String>,
    for_b: Option<String>,
    without: Option<String>,
)
    requires
        a.1@ == b.1@ && a.2@ == b.2@,
        call_ensures(authorization_header, (&Some(a),), for_a),
        call_ensures(authorization_header, (&Some(b),), for_b),
        call_ensures(authorization_header, (&None,), without),
    ensures
        without is None,
        opt_str(for_a) == opt_str(for_b),
        opt_str(for_a) == Some("Basic "@ + base64_text(encode_utf8(a.1@ + ":"@ + a.2@))),
{
}

/// The error of a failed pull always carries the daemon's text. It is that of a
/// missing image exactly where the text says so, even where it says other things
/// too; a refusal and an unreachable registry name the image.
pub proof fn law_pull_error_is_explained(lower: &str, msg: &str, image: &str, r: RuntimeError)
    requires
        call_ensures(classify_transfer_text, (lower, msg, image), r),
    ensures
        ({
            let missing = contains(lower@, "404"@) || contains(lower@, "not found"@) || contains(
                lower@,
                "manifest unknown"@,
            );
            let refused = contains(lower@, "unauthorized"@) || contains(
                lower@,
                "authentication"@,
            ) || contains(lower@, "denied"@) || contains(lower@, "forbidden"@);
            let unreachable = contains(lower@, "connection refused"@) || contains(
                lower@,
                "no such host"@,
            ) || contains(lower@, "timeout"@) || contains(lower@, "dial"@);
            &&& r is ImageNotFound <==> missing
            &&& r is ImagePullFailed <==> !missing
            &&& missing ==> msg@.is_suffix_of(r@->ImageNotFound_0)
            &&& !missing && refused ==> ("registry authentication failed for '"@
                + image@).is_prefix_of(r@->ImagePullFailed_0)
            &&& !missing && !refused && unreachable ==> ("cannot reach the registry for '"@
                + image@).is_prefix_of(r@->ImagePullFailed_0)
            &&& !missing && (refused || unreachable) ==> (msg@ + ")"@).is_suffix_of(
                r@->ImagePullFailed_0,
            )
            &&& !missing && !refused && !unreachable ==> r@ == RuntimeErrorView::ImagePullFailed(
                msg@,
            )
        }),
{
    let lost = "image '"@ + image@ + "' not found: "@ + msg@;
    let a = "registry authentication failed for '"@ + image@;
    let b = "cannot reach the registry for '"@ + image@;
    let tail = msg@ + ")"@;
    let full_a = a
        + "' — check config.server, config.username and config.password (original error: "@ + msg@
        + ")"@;
    let full_b = b + "' (original error: "@ + msg@ + ")"@;
    assert(lost.subrange(lost.len() - msg@.len(), lost.len() as int) =~= msg@);
    assert(full_a.subrange(0, a.len() as int) =~= a);
    assert(full_b.subrange(0, b.len() as int) =~= b);
    assert(full_a.subrange(full_a.len() - tail.len(), full_a.len() as int) =~= tail);
    assert(full_b.subrange(full_b.len() - tail.len(), full_b.len() as int) =~= tail);
}

/// The manifest that is picked from an index: an entry in front is taken where
/// it is for Linux on the architecture, and is passed over where it is for
/// another platform; one without a platform is only taken where no other entry
/// fits.
pub proof fn law_fitting_manifest_is_picked(
    rest: &OciIndex,
    all: &OciIndex,
    front: OciIndexEntry,
    arch: &str,
    of_rest: Option<String>,
    r: Option<String>,
    fits_later: bool,
)
    requires
        all.manifests@ == seq![front] + rest.manifests@,
        fits_later <==> exists|i: int|
            0 <= i < rest.manifests@.len() && ((#[trigger] rest.manifests@[i]).platform matches Some(
                p,
            ) && p.os@ == "linux"@ && p.architecture@ == arch@),
        call_ensures(select_platform_digest, (rest, arch), of_rest),
        call_ensures(select_platform_digest, (all, arch), r),
    ensures
        rest.manifests@.len() == 0 ==> of_rest is None,
        front.platform matches Some(p) ==> (p.os@ == "linux"@ && p.architecture@ == arch@
            ==> opt_str(r) == Some(front.digest@)),
        front.platform matches Some(p) ==> (!(p.os@ == "linux"@ && p.architecture@ == arch@)
            ==> opt_str(r) == opt_str(of_rest)),
        front.platform is None && fits_later ==> opt_str(r) == opt_str(of_rest),
        front.platform is None && !fits_later ==> opt_str(r) == Some(front.digest@),
{
    assert(all.manifests@[0] == front);
    assert(all.manifests@.skip(1) =~= rest.manifests@);
    lemma_first_for(rest.manifests@, arch@);
}

/// An entry for the architecture is found exactly where there is one.
proof fn lemma_first_for(entries: Seq<OciIndexEntry>, arch: Seq<char>)
    ensures
        first_for(entries, arch) is Some <==> exists|i: int|
            0 <= i < entries.len() && is_for(#[trigger] entries[i], arch),
    decreases entries.len(),
{
    if entries.len() > 0 {
        let rest = entries.skip(1);
        lemma_first_for(rest, arch);
        if first_for(rest, arch) is Some {
            let i = choose|i: int| 0 <= i < rest.len() && is_for(#[trigger] rest[i], arch);
            assert(entries[i + 1] == rest[i]);
        }
        if exists|i: int| 0 <= i < entries.len() && is_for(#[trigger] entries[i], arch) {
            let i = choose|i: int| 0 <= i < entries.len() && is_for(#[trigger] entries[i], arch);
            if i > 0 {
                assert(rest[i - 1] == entries[i]);
            }
        }
    }
}

/// A digest that names no index, or an empty one, is the manifest itself; one
/// that names an index leads to the entry that is picked, or to an error where
/// none is.
pub proof fn law_digest_leads_to_a_manifest(
    digest: &str,
    index: OciIndex,
    arch: &str,
    picked: Option<String>,
    plain: Result<String, RuntimeError>,
    r: Result<String, RuntimeError>,
)
    requires
        call_ensures(select_platform_digest, (&index, arch), picked),
        call_ensures(resolve_platform_manifest, (digest, &None, arch), plain),
        call_ensures(resolve_platform_manifest, (digest, &Some(index), arch), r),
    ensures
        plain matches Ok(d) && d@ == digest@,
        index.manifests@.len() == 0 ==> (r matches Ok(d) && d@ == digest@),
        index.manifests@.len() > 0 ==> (r is Ok <==> picked is Some),
        index.manifests@.len() > 0 ==> (picked matches Some(p) ==> r matches Ok(d) && d@ == p@),
{
}

/// The process of an image is its entry point followed by its arguments; an
/// image without layers cannot be run, and any other has the snapshot of its
/// layers.
pub proof fn law_image_process_is_entry_point_first(
    config: &OciImageConfig,
    args: Vec<String>,
    r: Result<(String, Vec<String>), RuntimeError>,
)
    requires
        call_ensures(image_default_args, (&config.config,), args),
        call_ensures(resolve_chain_id_and_args, (config,), r),
    ensures
        r is Err <==> config.diff_ids@.len() == 0,
        r matches Ok(p) ==> strs(p.1@) == strs(args@),
        r matches Ok(p) ==> config.diff_ids@.len() == 1 ==> p.0@ == config.diff_ids@[0]@,
        ({
            let entry = if config.config.entrypoint is Some {
                config.config.entrypoint->0@.len()
            } else {
                0
            };
            let rest = if config.config.cmd is Some {
                config.config.cmd->0@.len()
            } else {
                0
            };
            &&& args@.len() == entry + rest
            &&& forall|i: int|
                0 <= i < entry ==> (#[trigger] args@[i])@ == config.config.entrypoint->0@[i]@
            &&& forall|i: int|
                entry <= i < args@.len() ==> (#[trigger] args@[i])@ == config.config.cmd->0@[i
                    - entry]@
        }),
{
    assert(strs(args@).len() == args@.len());
    let entry = opt_list(config.config.entrypoint);
    let cmd = opt_list(config.config.cmd);
    assert forall|i: int| 0 <= i < entry.len() implies (#[trigger] args@[i])@
        == config.config.entrypoint->0@[i]@ by {
        assert(strs(args@)[i] == args@[i]@);
        assert((entry + cmd)[i] == entry[i]);
    }
    assert forall|i: int| entry.len() <= i < args@.len() implies (#[trigger] args@[i])@
        == config.config.cmd->0@[i - entry.len()]@ by {
        assert(strs(args@)[i] == args@[i]@);
        assert((entry + cmd)[i] == cmd[i - entry.len()]);
    }
}

/// The chain of a single layer is that layer; one more layer makes a hash over the
/// chain so far, a space and that layer. A hash is shown with its name in front.
pub proof fn law_chain_takes_layer_after_layer(
    layers: &[String],
    more: &[String],
    last: String,
    r: String,
    after: String,
    hash: &Vec<u8>,
    shown: String,
)
    requires
        layers@.len() > 0,
        more@ == layers@.push(last),
        call_ensures(compute_chain_id, (layers,), r),
        call_ensures(compute_chain_id, (more,), after),
        hash@ == sha256(encode_utf8(r@ + " "@ + last@)),
        call_ensures(chained, (hash,), shown),
    ensures
        after@ == shown@,
        "sha256:"@.is_prefix_of(shown@),
        layers@.len() == 1 ==> r@ == layers@[0]@,
{
    let a = strs(layers@);
    let b = strs(more@);
    assert(b =~= a.push(last@));
    assert(b.drop_last() =~= a);
    assert(a[0] == layers@[0]@);
    assert(shown@.subrange(0, "sha256:"@.len() as int) =~= "sha256:"@);
}

} // verus!
