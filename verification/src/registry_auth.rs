//! Registry credentials that are kept on the host: whether a deployment may use
//! them, under which names they are looked up, and what the replies mean.
use vstd::prelude::*;
use crate::containerd::image::{first_segment, full_repository, has_char, names_registry};
use crate::text::{cat2, cat3, cat5, chars_of, contains, find_from, lemma_first_pos_unique, occurs_at, same, string_of, strs};

verus! {

/// Whether the host's credentials may be used, and where they are kept.
#[derive(Debug)]
pub struct HostAuthSettings {
    pub authorized: bool,
    pub config_path: Option<String>,
}

/// Why the host's credentials could not be used.
#[derive(Debug, PartialEq, Eq)]
pub enum HostAuthError {
    /// The deployment asked for them and the server does not allow it.
    NotAuthorized,
    /// The file that holds them is missing or cannot be read.
    ConfigUnavailable(String),
    /// There are none for this registry.
    NoEntryForRegistry(String),
    /// A helper failed, or gave something that cannot be used.
    HelperFailed(String),
}

/// A [`HostAuthError`] by its contents.
pub enum HostAuthErrorView {
    NotAuthorized,
    ConfigUnavailable(Seq<char>),
    NoEntryForRegistry(Seq<char>),
    HelperFailed(Seq<char>),
}

impl View for HostAuthError {
    type V = HostAuthErrorView;

    open spec fn view(&self) -> HostAuthErrorView {
        match *self {
            HostAuthError::NotAuthorized => HostAuthErrorView::NotAuthorized,
            HostAuthError::ConfigUnavailable(s) => HostAuthErrorView::ConfigUnavailable(s@),
            HostAuthError::NoEntryForRegistry(s) => HostAuthErrorView::NoEntryForRegistry(s@),
            HostAuthError::HelperFailed(s) => HostAuthErrorView::HelperFailed(s@),
        }
    }
}

/// What an operator is told.
pub open spec fn host_auth_text(e: HostAuthErrorView) -> Seq<char> {
    match e {
        HostAuthErrorView::NotAuthorized =>
            "deployment requested use_host_auth but the runtime is not authorized to use host registry credentials — set use_host_registry_auth = true under the runtime's [server.runtime.*] config"@,
        HostAuthErrorView::ConfigUnavailable(detail) => "host registry config is unavailable ("@
            + detail
            + ") — check the file exists and is readable by the Ring daemon's user, or set host_registry_config to its path"@,
        HostAuthErrorView::NoEntryForRegistry(host) => "no host credential found for registry '"@
            + host + "' — run `docker login "@ + host
            + "` as the Ring daemon's user, or set host_registry_config"@,
        HostAuthErrorView::HelperFailed(detail) => "host credential helper failed: "@ + detail,
    }
}

impl HostAuthError {
    /// What an operator is told.
    pub fn message(&self) -> (r: String)
        ensures
            r@ == host_auth_text(self@),
    {
        match self {
            HostAuthError::NotAuthorized =>
                "deployment requested use_host_auth but the runtime is not authorized to use host registry credentials — set use_host_registry_auth = true under the runtime's [server.runtime.*] config".to_owned(),
            HostAuthError::ConfigUnavailable(detail) => cat3(
                "host registry config is unavailable (",
                detail.as_str(),
                ") — check the file exists and is readable by the Ring daemon's user, or set host_registry_config to its path",
            ),
            HostAuthError::NoEntryForRegistry(host) => cat5(
                "no host credential found for registry '",
                host.as_str(),
                "' — run `docker login ",
                host.as_str(),
                "` as the Ring daemon's user, or set host_registry_config",
            ),
            HostAuthError::HelperFailed(detail) => cat2(
                "host credential helper failed: ",
                detail.as_str(),
            ),
        }
    }
}

/// Whether the host's credentials are used. The server has to allow it and the
/// deployment has to ask for it; to ask without being allowed is an error.
pub fn decide_host_auth(authorized: bool, activated: bool) -> (r: Result<bool, HostAuthError>)
    ensures
        !activated ==> r == Ok::<bool, HostAuthError>(false),
        authorized && activated ==> r == Ok::<bool, HostAuthError>(true),
        !authorized && activated ==> r == Err::<bool, HostAuthError>(HostAuthError::NotAuthorized),
{
    if !activated {
        Ok(false)
    } else if authorized {
        Ok(true)
    } else {
        Err(HostAuthError::NotAuthorized)
    }
}

/// The registry that an image comes from.
pub open spec fn registry_of(image: Seq<char>) -> Seq<char> {
    if names_registry(image) {
        first_segment(image)
    } else {
        "docker.io"@
    }
}

/// The registry that an image comes from: its first segment where that is a
/// host, and otherwise the one that is used where none is named.
pub fn registry_host_for(image: &str) -> (r: String)
    ensures
        r@ == registry_of(image@),
{
    let text = chars_of(image);
    assert(text@.skip(0) =~= text@);
    let slash: usize = find_from(&text, '/', 0);
    let segment = string_of(&text, 0, slash);
    assert(segment@ =~= first_segment(image@));
    let head = chars_of(segment.as_str());
    if has_char(&head, '.') || has_char(&head, ':') || same(segment.as_str(), "localhost") {
        segment
    } else {
        "docker.io".to_owned()
    }
}

/// The names under which the credentials of a registry are looked up, in turn.
pub open spec fn lookup_names(registry_host: Seq<char>) -> Seq<Seq<char>> {
    if registry_host == "docker.io"@ {
        seq!["https://index.docker.io/v1/"@, registry_host]
    } else {
        seq![registry_host]
    }
}

/// The names under which the credentials of a registry are looked up, in turn.
/// Those of the Docker Hub are mostly kept under an older name.
pub fn lookup_keys(registry_host: &str) -> (r: Vec<String>)
    ensures
        strs(r@) == lookup_names(registry_host@),
{
    let mut keys: Vec<String> = Vec::new();
    if same(registry_host, "docker.io") {
        keys.push("https://index.docker.io/v1/".to_owned());
    }
    keys.push(registry_host.to_owned());
    assert(strs(keys@) =~= lookup_names(registry_host@));
    keys
}

/// What a lookup gives. The texts are those of the errors.
#[derive(Debug)]
pub enum CredentialReply {
    UsernamePassword(String, String),
    IdentityToken,
    /// There is no file.
    ConfigNotFound(String),
    /// The file cannot be read.
    ConfigReadError(String),
    NoCredentialConfigured,
    OtherError(String),
}

/// What the error of a lookup means.
pub open spec fn retrieval_error(reply: CredentialReply, host: Seq<char>) -> HostAuthErrorView {
    match reply {
        CredentialReply::ConfigNotFound(text) => HostAuthErrorView::ConfigUnavailable(text@),
        CredentialReply::ConfigReadError(text) => HostAuthErrorView::ConfigUnavailable(text@),
        CredentialReply::OtherError(text) => HostAuthErrorView::HelperFailed(text@),
        CredentialReply::IdentityToken => HostAuthErrorView::HelperFailed(
            "registry returned an identity token; only username/password credentials are supported"@,
        ),
        _ => HostAuthErrorView::NoEntryForRegistry(host),
    }
}

/// What the error of a lookup means.
pub fn map_retrieval_error(reply: &CredentialReply, registry_host: &str) -> (r: HostAuthError)
    requires
        !(reply is UsernamePassword),
    ensures
        r@ == retrieval_error(*reply, registry_host@),
{
    match reply {
        CredentialReply::ConfigNotFound(text) => HostAuthError::ConfigUnavailable(text.clone()),
        CredentialReply::ConfigReadError(text) => HostAuthError::ConfigUnavailable(text.clone()),
        CredentialReply::OtherError(text) => HostAuthError::HelperFailed(text.clone()),
        CredentialReply::IdentityToken => HostAuthError::HelperFailed(
            "registry returned an identity token; only username/password credentials are supported".to_owned(),
        ),
        _ => HostAuthError::NoEntryForRegistry(registry_host.to_owned()),
    }
}

/// Whether a reply ends the lookups.
pub open spec fn is_settling(reply: CredentialReply) -> bool {
    reply is UsernamePassword || reply is IdentityToken
}

/// Whether a reply ends the lookups: credentials, or a token, which is of no
/// use. After an error the next name is tried.
pub fn settles(reply: &CredentialReply) -> (r: bool)
    ensures
        r == is_settling(*reply),
{
    match reply {
        CredentialReply::UsernamePassword(_, _) => true,
        CredentialReply::IdentityToken => true,
        _ => false,
    }
}

/// What the replies to the lookups amount to: what the first that settles them
/// says, or else the last error.
pub open spec fn resolution(
    replies: Seq<CredentialReply>,
    host: Seq<char>,
    last: HostAuthErrorView,
) -> Result<(Seq<char>, Seq<char>), HostAuthErrorView>
    decreases replies.len(),
{
    if replies.len() == 0 {
        Err(last)
    } else {
        match replies[0] {
            CredentialReply::UsernamePassword(user, pass) => Ok((user@, pass@)),
            CredentialReply::IdentityToken => Err(retrieval_error(replies[0], host)),
            _ => resolution(replies.skip(1), host, retrieval_error(replies[0], host)),
        }
    }
}

/// What the replies to the lookups amount to. Where there is none, there are no
/// credentials.
pub fn resolve_host_auth(registry_host: &str, replies: &Vec<CredentialReply>) -> (r: Result<
    (String, String),
    HostAuthError,
>)
    ensures
        match resolution(
            replies@,
            registry_host@,
            HostAuthErrorView::NoEntryForRegistry(registry_host@),
        ) {
            Ok(pair) => r matches Ok(found) && (found.0@, found.1@) == pair,
            Err(error) => r matches Err(e) && e@ == error,
        },
{
    let ghost host = registry_host@;
    let ghost start = HostAuthErrorView::NoEntryForRegistry(host);
    let mut last = HostAuthError::NoEntryForRegistry(registry_host.to_owned());
    let mut i: usize = 0;
    assert(replies@.skip(0) =~= replies@);
    while i < replies.len()
        invariant
            i <= replies.len(),
            host == registry_host@,
            start == HostAuthErrorView::NoEntryForRegistry(host),
            resolution(replies@, host, start) == resolution(replies@.skip(i as int), host, last@),
        decreases replies.len() - i,
    {
        assert(replies@.skip(i as int)[0] == replies@[i as int]);
        assert(replies@.skip(i as int).skip(1) =~= replies@.skip(i + 1));
        match &replies[i] {
            CredentialReply::UsernamePassword(user, pass) => {
                return Ok((user.clone(), pass.clone()));
            },
            CredentialReply::IdentityToken => {
                return Err(map_retrieval_error(&replies[i], registry_host));
            },
            _ => {
                last = map_retrieval_error(&replies[i], registry_host);
            },
        }
        i += 1;
    }
    Err(last)
}

// ---------------------------------------------------------------------------
// Laws
// ---------------------------------------------------------------------------

/// The registry that credentials are looked up for is the one that an image is
/// pulled from.
pub proof fn law_credentials_match_pull_host(repo: Seq<char>)
    ensures
        registry_of(repo) == first_segment(full_repository(repo)),
{
    reveal_strlit("docker.io");
    reveal_strlit("docker.io/");
    reveal_strlit("docker.io/library/");
    let full = full_repository(repo);
    if !names_registry(repo) {
        let host = seq!['d', 'o', 'c', 'k', 'e', 'r', '.', 'i', 'o'];
        assert("docker.io"@ =~= host);
        assert forall|j: int| 0 <= j < 9 implies full[j] == host[j] by {}
        assert(full[9] == '/');
        assert forall|j: int| 0 <= j < 9 implies full[j] != '/' by {}
        lemma_first_pos_unique(full, '/', 9);
        assert(first_segment(full) =~= host);
    }
}

/// Replies after one that settles the lookups change nothing, so no further
/// name is looked up.
pub proof fn law_settled_lookups_stop(
    replies: Seq<CredentialReply>,
    n: int,
    host: Seq<char>,
    last: HostAuthErrorView,
)
    requires
        0 <= n < replies.len(),
        is_settling(replies[n]),
    ensures
        resolution(replies, host, last) == resolution(replies.take(n + 1), host, last),
    decreases replies.len(),
{
    let cut = replies.take(n + 1);
    assert(cut[0] == replies[0]);
    if n > 0 && !is_settling(replies[0]) {
        assert(cut.skip(1) =~= replies.skip(1).take(n));
        law_settled_lookups_stop(
            replies.skip(1),
            n - 1,
            host,
            retrieval_error(replies[0], host),
        );
    }
}

/// The host's credentials are used exactly where the server allows them and the
/// deployment asks for them; asking without being allowed is the only error.
pub proof fn law_credentials_need_both_sides(
    authorized: bool,
    activated: bool,
    r: Result<bool, HostAuthError>,
)
    requires
        call_ensures(decide_host_auth, (authorized, activated), r),
    ensures
        r is Err <==> activated && !authorized,
        r matches Err(e) ==> e == HostAuthError::NotAuthorized,
        r matches Ok(used) ==> (used <==> activated && authorized),
{
}

/// An image comes from the host that its first segment names; a segment without a
/// dot or a colon names none, unless it is the local host, and the image then comes
/// from the public registry.
pub proof fn law_image_names_its_registry(image: &str, segment: Seq<char>, rest: Seq<char>, r: String)
    requires
        call_ensures(registry_host_for, (image,), r),
        !segment.contains('/'),
        image@ == segment || image@ == segment + seq!['/'] + rest,
    ensures
        segment.contains('.') || segment.contains(':') || segment == "localhost"@ ==> r@ == segment,
        !(segment.contains('.') || segment.contains(':') || segment == "localhost"@) ==> r@
            == "docker.io"@,
{
    let p = segment.len() as int;
    assert forall|j: int| 0 <= j < p implies image@[j] != '/' by {
        assert(image@[j] == segment[j]);
        if segment[j] == '/' {
            assert(segment.contains('/'));
        }
    }
    lemma_first_pos_unique(image@, '/', p);
    assert(first_segment(image@) =~= segment);
}

/// A registry is looked up under its own name, last; the public one first under the
/// name that it had before, and no other registry under any other name.
pub proof fn law_registry_is_looked_up_under_its_name(host: &str, r: Vec<String>)
    requires
        call_ensures(lookup_keys, (host,), r),
    ensures
        r@.len() > 0 && r@.last()@ == host@,
        host@ == "docker.io"@ ==> r@.len() == 2 && r@[0]@ == "https://index.docker.io/v1/"@,
        host@ != "docker.io"@ ==> r@.len() == 1,
{
    let k = strs(r@);
    assert(k.len() == r@.len());
    assert(k.last() == r@.last()@);
    assert(k[0] == r@[0]@);
}

/// Credentials that come first are used as they are, and a token that comes first
/// is refused, whatever follows; an error that comes first counts only where
/// nothing follows. Without any reply there is no entry.
pub proof fn law_first_usable_reply_counts(
    host: &str,
    replies: &Vec<CredentialReply>,
    more: &Vec<CredentialReply>,
    front: CredentialReply,
    r: Result<(String, String), HostAuthError>,
    after: Result<(String, String), HostAuthError>,
)
    requires
        more@ == seq![front] + replies@,
        call_ensures(resolve_host_auth, (host, replies), r),
        call_ensures(resolve_host_auth, (host, more), after),
    ensures
        replies@.len() == 0 ==> (r matches Err(e) && e@ == HostAuthErrorView::NoEntryForRegistry(
            host@,
        )),
        front matches CredentialReply::UsernamePassword(user, pass) ==> (after matches Ok(found)
            && found.0@ == user@ && found.1@ == pass@),
        front is IdentityToken ==> (after matches Err(e) && e is HelperFailed),
        !(front is UsernamePassword) && !(front is IdentityToken) ==> {
            &&& r matches Ok(found) ==> (after matches Ok(again) && again.0@ == found.0@ && again.1@
                == found.1@)
            &&& replies@.len() > 0 && r is Err ==> (after matches Err(e) && e@ == r->Err_0@)
            &&& replies@.len() == 0 ==> after is Err
        },
        replies@.len() == 0 ==> {
            &&& front matches CredentialReply::ConfigNotFound(text) ==> after->Err_0@
                == HostAuthErrorView::ConfigUnavailable(text@)
            &&& front matches CredentialReply::ConfigReadError(text) ==> after->Err_0@
                == HostAuthErrorView::ConfigUnavailable(text@)
            &&& front matches CredentialReply::OtherError(text) ==> after->Err_0@
                == HostAuthErrorView::HelperFailed(text@)
            &&& front is NoCredentialConfigured ==> after->Err_0@
                == HostAuthErrorView::NoEntryForRegistry(host@)
        },
{
    assert(more@[0] == front);
    assert(more@.skip(1) =~= replies@);
    let a = HostAuthErrorView::NoEntryForRegistry(host@);
    let b = retrieval_error(front, host@);
    lemma_earlier_error(replies@, host@, a, b);
}

/// What the last error was before matters only where no reply follows.
proof fn lemma_earlier_error(
    replies: Seq<CredentialReply>,
    host: Seq<char>,
    a: HostAuthErrorView,
    b: HostAuthErrorView,
)
    ensures
        replies.len() > 0 ==> resolution(replies, host, a) == resolution(replies, host, b),
        replies.len() == 0 ==> resolution(replies, host, a) is Err && resolution(
            replies,
            host,
            b,
        ) == Err::<(Seq<char>, Seq<char>), HostAuthErrorView>(b),
{
}

/// The look-ups end with a reply exactly where it is credentials or a token, and
/// the reply to a look-up that failed says why in its own words.
pub proof fn law_error_is_no_end_of_the_lookups(
    reply: &CredentialReply,
    host: &str,
    ends: bool,
    r: HostAuthError,
)
    requires
        call_ensures(settles, (reply,), ends),
        !(reply is UsernamePassword) ==> call_ensures(map_retrieval_error, (reply, host), r),
    ensures
        ends <==> *reply is UsernamePassword || *reply is IdentityToken,
        *reply matches CredentialReply::ConfigNotFound(text) ==> r@
            == HostAuthErrorView::ConfigUnavailable(text@),
        *reply matches CredentialReply::ConfigReadError(text) ==> r@
            == HostAuthErrorView::ConfigUnavailable(text@),
        *reply matches CredentialReply::OtherError(text) ==> r@ == HostAuthErrorView::HelperFailed(
            text@,
        ),
        *reply is NoCredentialConfigured ==> r@ == HostAuthErrorView::NoEntryForRegistry(host@),
        *reply is IdentityToken ==> r is HelperFailed,
{
}

/// What an operator is told names the registry, or ends with the detail that is
/// known.
pub proof fn law_operator_is_told_the_detail(e: &HostAuthError, r: String)
    requires
        call_ensures(HostAuthError::message, (e,), r),
    ensures
        *e matches HostAuthError::NoEntryForRegistry(host) ==> contains(
            r@,
            "docker login "@ + host@,
        ),
        *e matches HostAuthError::ConfigUnavailable(detail) ==> contains(r@, detail@),
        *e matches HostAuthError::HelperFailed(detail) ==> detail@.is_suffix_of(r@),
{
    match e {
        HostAuthError::NoEntryForRegistry(host) => {
            reveal_strlit("' — run `docker login ");
            reveal_strlit("docker login ");
            let a = "no host credential found for registry '"@;
            let m = "' — run `docker login "@;
            let part = "docker login "@ + host@;
            let n = m.len() - "docker login "@.len();
            assert(m.skip(n) =~= "docker login "@);
            let k = a.len() + host@.len() + n;
            assert(r@.subrange(k, k + part.len()) =~= part) by {
                assert forall|i: int| 0 <= i < part.len() implies r@.subrange(k, k + part.len())[i]
                    == part[i] by {
                    if i < 13 {
                        assert(m.skip(n)[i] == m[n + i]);
                        assert(r@[k + i] == m[n + i]);
                    } else {
                        assert(r@[k + i] == host@[i - 13]);
                    }
                }
            }
            assert(occurs_at(r@, part, k));
        },
        HostAuthError::ConfigUnavailable(detail) => {
            let k = "host registry config is unavailable ("@.len() as int;
            assert(r@.subrange(k, k + detail@.len()) =~= detail@);
            assert(occurs_at(r@, detail@, k));
        },
        HostAuthError::HelperFailed(detail) => {
            assert(r@.subrange(r@.len() - detail@.len(), r@.len() as int) =~= detail@);
        },
        _ => {},
    }
}

} // verus!
