//! Containers under a Docker daemon.
pub mod container;
pub mod docker_lifecycle;
pub mod exec;
pub mod health_check;
pub mod instances;
pub mod lifecycle;
pub mod logs;
pub mod stats;

use vstd::prelude::*;
use crate::error::{RuntimeError, RuntimeErrorView};
use crate::foreign::random_u32;
use crate::text::{ascii_lowercase, ascii_lowered, begins, cat2, cat3, cat4, chars_of, contains, find_from, find_last, first_pos, has, hexadecimal, hexadecimal_u64, last_pos, lemma_first_pos, lemma_first_pos_unique, lemma_last_pos, lemma_numeral_len, occurs_at, power, same, string_of, strip_front, zero_pad, zero_padded};

verus! {

/// Which version of an image is meant.
#[derive(Debug, PartialEq, Eq)]
pub enum ImageReference {
    /// A name that may move from one image to another.
    Tag(String),
    /// The hash of one image.
    Digest(String),
}

/// An [`ImageReference`] by its contents.
pub enum ReferenceView {
    Tag(Seq<char>),
    Digest(Seq<char>),
}

impl View for ImageReference {
    type V = ReferenceView;

    open spec fn view(&self) -> ReferenceView {
        match *self {
            ImageReference::Tag(t) => ReferenceView::Tag(t@),
            ImageReference::Digest(d) => ReferenceView::Digest(d@),
        }
    }
}

/// An image and the credentials for its registry.
#[derive(Debug)]
pub struct DockerImage {
    pub name: String,
    pub reference: ImageReference,
    /// Server, user name and password.
    pub auth: Option<(String, String, String)>,
}

/// A name and a reference written as one.
pub open spec fn joined_ref(name: Seq<char>, reference: ReferenceView) -> Seq<char> {
    match reference {
        ReferenceView::Tag(t) => name + ":"@ + t,
        ReferenceView::Digest(d) => name + "@"@ + d,
    }
}

/// A name and a reference written as one.
pub fn join_ref(name: &str, reference: &ImageReference) -> (r: String)
    ensures
        r@ == joined_ref(name@, reference@),
{
    match reference {
        ImageReference::Tag(t) => cat3(name, ":", t.as_str()),
        ImageReference::Digest(d) => cat3(name, "@", d.as_str()),
    }
}

impl DockerImage {
    /// The image's name with its tag or digest.
    pub fn full_ref(&self) -> (r: String)
        ensures
            r@ == joined_ref(self.name@, self.reference@),
    {
        join_ref(self.name.as_str(), &self.reference)
    }
}

/// The name and the reference that an image string writes: a digest behind the
/// first at sign; else a tag behind a colon of the last path component; else
/// the tag `latest`. A colon before the last slash is a registry's port.
pub open spec fn image_parts(image: Seq<char>) -> (Seq<char>, ReferenceView) {
    let at = first_pos(image, '@');
    let colon = last_pos(image, ':');
    if at < image.len() {
        (image.take(at), ReferenceView::Digest(image.skip(at + 1)))
    } else if colon > last_pos(image, '/') {
        (image.take(colon), ReferenceView::Tag(image.skip(colon + 1)))
    } else {
        (image, ReferenceView::Tag("latest"@))
    }
}

/// Split an image string into its name and its tag or digest.
pub fn parse_image_reference(image: &str) -> (r: (String, ImageReference))
    ensures
        (r.0@, r.1@) == image_parts(image@),
{
    let text = chars_of(image);
    let n: usize = text.len();
    assert(image@.skip(0) =~= image@);
    let at: usize = find_from(&text, '@', 0);
    if at < n {
        let name = string_of(&text, 0, at);
        let digest = string_of(&text, at + 1, n);
        assert(name@ =~= image@.take(at as int));
        assert(digest@ =~= image@.skip(at + 1));
        return (name, ImageReference::Digest(digest));
    }
    if let Some(colon) = find_last(&text, ':') {
        let tagged = match find_last(&text, '/') {
            Some(slash) => colon > slash,
            None => true,
        };
        if tagged {
            let name = string_of(&text, 0, colon);
            let tag = string_of(&text, colon + 1, n);
            assert(name@ =~= image@.take(colon as int));
            assert(tag@ =~= image@.skip(colon + 1));
            return (name, ImageReference::Tag(tag));
        }
    }
    proof {
        lemma_last_pos(image@, '/');
    }
    (image.to_owned(), ImageReference::Tag("latest".to_owned()))
}

/// When an image is fetched from its registry.
#[derive(Clone, Copy, Debug, PartialEq, Eq, Structural)]
pub enum ImagePullPolicy {
    Always,
    IfNotPresent,
    Never,
}

/// The policy that a string names, whatever the case of its letters.
pub open spec fn pull_policy(s: Seq<char>) -> ImagePullPolicy {
    let lower = ascii_lowered(s);
    if lower == "never"@ {
        ImagePullPolicy::Never
    } else if lower == "ifnotpresent"@ {
        ImagePullPolicy::IfNotPresent
    } else {
        ImagePullPolicy::Always
    }
}

impl ImagePullPolicy {
    /// Read a policy. An unknown one stands for `Always`.
    pub fn parse(s: &str) -> (r: Self)
        ensures
            r == pull_policy(s@),
    {
        let lower = ascii_lowercase(s);
        if same(lower.as_str(), "never") {
            ImagePullPolicy::Never
        } else if same(lower.as_str(), "ifnotpresent") {
            ImagePullPolicy::IfNotPresent
        } else {
            ImagePullPolicy::Always
        }
    }
}

/// Whether the daemon's error text says that an image does not exist.
pub open spec fn names_missing_image(text: Seq<char>) -> bool {
    contains(text, "404"@) || contains(text, "not found"@) || contains(text, "manifest unknown"@)
}

/// The runtime's error for an error of the daemon, by its text.
pub fn daemon_error(text: String) -> (r: RuntimeError)
    ensures
        r@ == if names_missing_image(text@) {
            RuntimeErrorView::ImageNotFound(text@)
        } else {
            RuntimeErrorView::Other(text@)
        },
{
    if has(text.as_str(), "404") || has(text.as_str(), "not found") || has(
        text.as_str(),
        "manifest unknown",
    ) {
        RuntimeError::ImageNotFound(text)
    } else {
        RuntimeError::Other(text)
    }
}

/// How the daemon is reached.
#[derive(Debug)]
pub enum HostAddress {
    /// A Unix socket at this path.
    Socket(String),
    /// HTTP at this address.
    Http(String),
    /// Wherever the local defaults point.
    LocalDefaults,
}

/// `s` without the copies of `pat` at its front.
pub open spec fn without_leading(s: Seq<char>, pat: Seq<char>) -> Seq<char>
    decreases s.len(),
{
    if pat.len() > 0 && pat.is_prefix_of(s) {
        without_leading(s.skip(pat.len() as int), pat)
    } else {
        s
    }
}

/// How a host string says that the daemon is reached.
pub fn host_address(host: &str) -> (r: HostAddress)
    ensures
        match r {
            HostAddress::Socket(path) => "unix://"@.is_prefix_of(host@) && path@
                == without_leading(host@, "unix://"@),
            HostAddress::Http(address) => !"unix://"@.is_prefix_of(host@) && "tcp://"@.is_prefix_of(
                host@,
            ) && address@ == host@,
            HostAddress::LocalDefaults => !"unix://"@.is_prefix_of(host@)
                && !"tcp://"@.is_prefix_of(host@),
        },
{
    proof {
        reveal_strlit("unix://");
    }
    if begins(host, "unix://") {
        let mut path = host.to_owned();
        loop
            invariant_except_break
                without_leading(host@, "unix://"@) == without_leading(path@, "unix://"@),
            invariant
                "unix://"@.len() == 7,
            ensures
                path@ == without_leading(host@, "unix://"@),
            decreases path@.len(),
        {
            let next = strip_front(path.as_str(), "unix://");
            match next {
                Some(rest) => {
                    path = rest;
                },
                None => {
                    break ;
                },
            }
        }
        HostAddress::Socket(path)
    } else if begins(host, "tcp://") {
        HostAddress::Http(host.to_owned())
    } else {
        HostAddress::LocalDefaults
    }
}

/// The error for a daemon that could not be reached, by the host string and the
/// error's text.
pub fn connect_error(host: &str, text: &str) -> (r: RuntimeError)
    ensures
        r@ == RuntimeErrorView::Other(
            if "unix://"@.is_prefix_of(host@) {
                "Failed to connect to Docker socket "@ + host@ + ": "@ + text@
            } else if "tcp://"@.is_prefix_of(host@) {
                "Failed to connect to Docker at "@ + host@ + ": "@ + text@
            } else {
                "Failed to connect to Docker: "@ + text@
            },
        ),
{
    RuntimeError::Other(
        if begins(host, "unix://") {
            cat4("Failed to connect to Docker socket ", host, ": ", text)
        } else if begins(host, "tcp://") {
            cat4("Failed to connect to Docker at ", host, ": ", text)
        } else {
            cat2("Failed to connect to Docker: ", text)
        },
    )
}

/// The error for a daemon that does not answer.
pub fn ping_error(host: &str, text: &str) -> (r: RuntimeError)
    ensures
        r@ == RuntimeErrorView::Other(
            "Docker daemon at "@ + host@ + " did not respond to ping: "@ + text@,
        ),
{
    RuntimeError::Other(cat4("Docker daemon at ", host, " did not respond to ping: ", text))
}

/// A number as eight hexadecimal digits.
pub open spec fn eight_digits(n: u32) -> Seq<char> {
    zero_padded(hexadecimal(n as nat), 8)
}

/// A number as eight hexadecimal digits.
pub fn tiny_id_of(n: u32) -> (r: String)
    ensures
        r@ == eight_digits(n),
{
    zero_pad(hexadecimal_u64(n as u64).as_str(), 8)
}

/// A short random suffix for the names of instances.
pub fn tiny_id() -> (r: String)
    ensures
        exists|n: u32| r@ == #[trigger] eight_digits(n),
{
    let n: u32 = random_u32();
    let r = tiny_id_of(n);
    assert(r@ == eight_digits(n));
    r
}

// ---------------------------------------------------------------------------
// Laws
// ---------------------------------------------------------------------------

/// Splitting an image string and joining the parts gives the string back;
/// where it has neither digest nor tag, `:latest` is added.
pub proof fn law_split_then_join(image: Seq<char>)
    ensures
        ({
            let (name, reference) = image_parts(image);
            joined_ref(name, reference) == if first_pos(image, '@') < image.len() || last_pos(
                image,
                ':',
            ) > last_pos(image, '/') {
                image
            } else {
                image + ":latest"@
            }
        }),
{
    reveal_strlit(":");
    reveal_strlit("@");
    reveal_strlit("latest");
    reveal_strlit(":latest");
    lemma_first_pos(image, '@');
    lemma_last_pos(image, ':');
    lemma_last_pos(image, '/');
    let (name, reference) = image_parts(image);
    let at = first_pos(image, '@');
    let colon = last_pos(image, ':');
    if at < image.len() {
        assert(image.take(at) + "@"@ + image.skip(at + 1) =~= image);
    } else if colon > last_pos(image, '/') {
        assert(image.take(colon) + ":"@ + image.skip(colon + 1) =~= image);
    } else {
        assert(image + ":"@ + "latest"@ =~= image + ":latest"@);
    }
}

/// Joining a name and a digest and splitting the result gives both back, for
/// every name without an at sign.
pub proof fn law_join_then_split_digest(name: Seq<char>, digest: Seq<char>)
    requires
        !name.contains('@'),
    ensures
        image_parts(joined_ref(name, ReferenceView::Digest(digest))) == (
            name,
            ReferenceView::Digest(digest),
        ),
{
    reveal_strlit("@");
    let image = joined_ref(name, ReferenceView::Digest(digest));
    assert forall|j: int| 0 <= j < name.len() implies image[j] != '@' by {
        assert(name.contains(name[j]));
    }
    lemma_first_pos_unique(image, '@', name.len() as int);
    assert(image.take(name.len() as int) =~= name);
    assert(image.skip(name.len() as int + 1) =~= digest);
}

/// Joining a name and a tag and splitting the result gives both back, for every
/// name and tag without an at sign and every tag without a slash or a colon.
pub proof fn law_join_then_split_tag(name: Seq<char>, tag: Seq<char>)
    requires
        !name.contains('@'),
        !tag.contains('@'),
        !tag.contains('/'),
        !tag.contains(':'),
    ensures
        image_parts(joined_ref(name, ReferenceView::Tag(tag))) == (name, ReferenceView::Tag(tag)),
{
    reveal_strlit(":");
    let image = joined_ref(name, ReferenceView::Tag(tag));
    let k = name.len() as int;
    assert(image[k] == ':');
    assert forall|j: int| 0 <= j < image.len() implies image[j] != '@' by {
        if j < k {
            assert(name.contains(name[j]));
        } else if j > k {
            assert(tag[j - k - 1] == image[j]);
            assert(tag.contains(tag[j - k - 1]));
        }
    }
    lemma_first_pos_unique(image, '@', image.len() as int);
    lemma_last_pos(image, ':');
    lemma_last_pos(image, '/');
    assert forall|j: int| k < j < image.len() implies image[j] != ':' && image[j] != '/' by {
        assert(tag[j - k - 1] == image[j]);
        assert(tag.contains(tag[j - k - 1]));
    }
    assert(last_pos(image, ':') == k);
    assert(image.take(k) =~= name);
    assert(image.skip(k + 1) =~= tag);
}

/// What an image string is split into. A digest is meant exactly where there is
/// an at sign, and a tag other than the implied one exactly where a colon
/// stands in the last component of the path; the name is what stands before.
pub proof fn law_image_string_is_cut_once(image: &str, r: (String, ImageReference))
    requires
        call_ensures(parse_image_reference, (image,), r),
    ensures
        r.1 is Digest <==> image@.contains('@'),
        r.1 matches ImageReference::Digest(d) ==> !r.0@.contains('@') && r.0@ + seq!['@'] + d@
            == image@,
        r.1 matches ImageReference::Tag(t) ==> {
            ||| r.0@ == image@ && t@ == "latest"@ && forall|i: int|
                0 <= i < image@.len() && #[trigger] image@[i] == ':' ==> exists|j: int|
                    i < j < image@.len() && image@[j] == '/'
            ||| r.0@ + seq![':'] + t@ == image@ && !t@.contains('/') && !t@.contains(':')
        },
{
    lemma_first_pos(image@, '@');
    lemma_last_pos(image@, ':');
    lemma_last_pos(image@, '/');
    let at = first_pos(image@, '@');
    let colon = last_pos(image@, ':');
    let slash = last_pos(image@, '/');
    if at < image@.len() {
        assert(image@[at] == '@');
        assert(r.0@ =~= image@.take(at));
        assert(r.0@ + seq!['@'] + image@.skip(at + 1) =~= image@);
        if r.0@.contains('@') {
            let j = choose|j: int| 0 <= j < r.0@.len() && r.0@[j] == '@';
            assert(image@[j] == '@');
        }
    } else {
        if image@.contains('@') {
            let j = choose|j: int| 0 <= j < image@.len() && image@[j] == '@';
            assert(image@[j] == '@');
        }
        if colon > slash {
            let t = image@.skip(colon + 1);
            assert(r.0@ + seq![':'] + t =~= image@);
            assert forall|k: int| 0 <= k < t.len() implies t[k] != '/' && t[k] != ':' by {
                assert(t[k] == image@[colon + 1 + k]);
            }
        } else {
            assert forall|i: int| 0 <= i < image@.len() && #[trigger] image@[i] == ':' implies exists|
                j: int,
            | i < j < image@.len() && image@[j] == '/' by {
                assert(i <= colon);
                assert(image@[slash] == '/');
            }
        }
    }
}

/// An image's full name is its name, the sign of its kind of reference, and the
/// reference.
pub proof fn law_full_name_holds_both_parts(name: &str, reference: &ImageReference, r: String)
    requires
        call_ensures(join_ref, (name, reference), r),
    ensures
        *reference matches ImageReference::Tag(t) ==> r@ == name@ + seq![':'] + t@,
        *reference matches ImageReference::Digest(d) ==> r@ == name@ + seq!['@'] + d@,
{
    reveal_strlit(":");
    reveal_strlit("@");
    assert(":"@ =~= seq![':']);
    assert("@"@ =~= seq!['@']);
}

/// Pulling is forbidden, or done only where the image is missing, exactly where
/// the policy says so, whatever the case of its letters; every other text asks
/// for a pull.
pub proof fn law_pull_policy_is_read(s: &str, r: ImagePullPolicy)
    requires
        call_ensures(ImagePullPolicy::parse, (s,), r),
    ensures
        r == ImagePullPolicy::Never <==> ascii_lowered(s@) == "never"@,
        r == ImagePullPolicy::IfNotPresent <==> ascii_lowered(s@) == "ifnotpresent"@,
        r == ImagePullPolicy::Always <==> ascii_lowered(s@) != "never"@ && ascii_lowered(s@)
            != "ifnotpresent"@,
{
    reveal_strlit("never");
    reveal_strlit("ifnotpresent");
    assert("never"@.len() != "ifnotpresent"@.len());
}

/// An error of the daemon keeps its text, and is that of a missing image exactly
/// where the text says so.
pub proof fn law_daemon_error_keeps_its_text(text: String, r: RuntimeError)
    requires
        call_ensures(daemon_error, (text,), r),
    ensures
        r@ == RuntimeErrorView::ImageNotFound(text@) || r@ == RuntimeErrorView::Other(text@),
        r is ImageNotFound <==> contains(text@, "404"@) || contains(text@, "not found"@)
            || contains(text@, "manifest unknown"@),
{
}

/// A suffix for the names of instances is the number in hexadecimal digits, with
/// zeros in front up to eight characters.
pub proof fn law_suffix_has_eight_digits(n: u32, r: String)
    requires
        call_ensures(tiny_id_of, (n,), r),
    ensures
        r@.len() == 8,
        hexadecimal(n as nat).is_suffix_of(r@),
        forall|i: int|
            0 <= i < 8 - hexadecimal(n as nat).len() ==> #[trigger] r@[i] == '0',
{
    reveal_with_fuel(power, 9);
    assert(n < power(16, 8));
    lemma_numeral_len(n as nat, 16, 8);
    let text = hexadecimal(n as nat);
    assert(r@.subrange(r@.len() - text.len(), r@.len() as int) =~= text);
}

/// A daemon is reached over a socket exactly where its address begins with `unix:`
/// and two slashes: the path is what stands behind that. Otherwise it is reached
/// over HTTP exactly where the address begins with `tcp:` and two slashes.
pub proof fn law_address_says_how_to_connect(host: &str, path: Seq<char>, r: HostAddress)
    requires
        call_ensures(host_address, (host,), r),
    ensures
        host@ == "unix://"@ + path && !"unix://"@.is_prefix_of(path) ==> (
        r matches HostAddress::Socket(p) && p@ == path),
        host@ == "tcp://"@ + path ==> (r matches HostAddress::Http(a) && a@ == host@),
        !"unix://"@.is_prefix_of(host@) && !"tcp://"@.is_prefix_of(host@) ==> r is LocalDefaults,
{
    reveal_strlit("unix://");
    reveal_strlit("tcp://");
    if host@ == "unix://"@ + path && !"unix://"@.is_prefix_of(path) {
        assert(host@.subrange(0, 7) =~= "unix://"@);
        assert(host@.skip(7) =~= path);
        assert(without_leading(path, "unix://"@) == path);
    }
    if host@ == "tcp://"@ + path {
        assert(host@.subrange(0, 6) =~= "tcp://"@);
        assert(host@[0] == 't');
        if "unix://"@.is_prefix_of(host@) {
            assert(host@.subrange(0, 7)[0] == "unix://"@[0]);
        }
    }
}

/// A daemon that cannot be reached is named by its address, unless it is wherever
/// the defaults point, and the cause is told at the end.
pub proof fn law_unreachable_daemon_is_named(host: &str, text: &str, r: RuntimeError)
    requires
        call_ensures(connect_error, (host, text), r),
    ensures
        r@ matches RuntimeErrorView::Other(t) && text@.is_suffix_of(t) && (
        "unix://"@.is_prefix_of(host@) || "tcp://"@.is_prefix_of(host@) ==> contains(t, host@)),
{
    let t = r@->Other_0;
    assert(t.subrange(t.len() - text@.len(), t.len() as int) =~= text@);
    if "unix://"@.is_prefix_of(host@) {
        let k = "Failed to connect to Docker socket "@.len() as int;
        assert(t.subrange(k, k + host@.len()) =~= host@);
        assert(occurs_at(t, host@, k));
    } else if "tcp://"@.is_prefix_of(host@) {
        let k = "Failed to connect to Docker at "@.len() as int;
        assert(t.subrange(k, k + host@.len()) =~= host@);
        assert(occurs_at(t, host@, k));
    }
}

} // verus!
