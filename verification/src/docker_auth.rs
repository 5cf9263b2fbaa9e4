//! Registry credentials for `docker push`-like operations, resolved from a
//! Docker configuration (`auths`, `credHelpers`, `credsStore`).
//!
//! Reading the configuration file and running a credential helper are the
//! caller's part: [`resolve_from_config`] says which credentials apply or
//! which helper to run, and [`credential_from_helper`] checks what the
//! helper answered.
use vstd::prelude::*;
use vstd::utf8::{decode_utf8, valid_utf8};
use base64::Engine;
use crate::runtime::opt_str_view;
use crate::store::{join, join_path};
use crate::text::{
    after_first, before_first, chars_of, clone_string, concat, find_first, find_last, is_ascii_upper,
    last_index_of, lower_char, lower_seq, owned, prefix_before, slice_vec, str_eq, string_of,
    string_of_range, to_lower_char, trim, trim_vec, vec_contains_char, lower_vec,
};

verus! {

// ---------------------------------------------------------------------------
// Types
// ---------------------------------------------------------------------------

#[derive(Debug, Clone, PartialEq, Eq)]
pub struct RegistryAuth {
    pub server_address: String,
    pub username: Option<String>,
    pub password: Option<String>,
    pub identity_token: Option<String>,
}

pub open spec fn opt_str(o: Option<String>) -> Option<Seq<char>> {
    match o {
        Some(s) => Some(s@),
        None => None,
    }
}

/// An entry of the `auths` section of a Docker configuration.
#[derive(Debug, Clone, Default)]
pub struct DockerAuthEntry {
    pub auth: Option<String>,
    pub username: Option<String>,
    pub password: Option<String>,
    pub identity_token: Option<String>,
}

/// A Docker configuration. The maps of the file are given as lists of
/// `(key, value)` pairs, searched in list order.
#[derive(Debug, Clone, Default)]
pub struct DockerConfigFile {
    pub auths: Option<Vec<(String, DockerAuthEntry)>>,
    pub creds_store: Option<String>,
    pub cred_helpers: Option<Vec<(String, String)>>,
}

/// Credentials, or the credential helper that has to be asked for them.
#[derive(Debug, Clone)]
pub enum AuthResolution {
    /// Credentials found in the configuration.
    Found(RegistryAuth),
    /// Run `docker-credential-<helper> get` with `server` on its input.
    RunHelper { helper: String, server: String },
    /// The configuration has nothing for this registry.
    NotConfigured,
}

// ---------------------------------------------------------------------------
// Registry keys and hosts
// ---------------------------------------------------------------------------

/// `s` without a leading `https://` or, failing that, `http://`.
pub open spec fn strip_scheme(s: Seq<char>) -> Seq<char> {
    if s.len() >= 8 && s.take(8) == "https://"@ {
        s.skip(8)
    } else if s.len() >= 7 && s.take(7) == "http://"@ {
        s.skip(7)
    } else {
        s
    }
}

/// The registry host that a key of the configuration names: trimmed,
/// lowercased, without scheme and without path.
pub open spec fn normalize_key_spec(key: Seq<char>) -> Seq<char> {
    before_first(strip_scheme(lower_seq(trim(key))), '/')
}

fn has_prefix(v: &Vec<char>, p: &str) -> (r: bool)
    ensures
        r == (p@.len() <= v@.len() && v@.take(p@.len() as int) == p@),
{
    let pv = chars_of(p);
    crate::text::starts_with(v, &pv)
}

fn strip_scheme_vec(v: &Vec<char>) -> (r: Vec<char>)
    ensures
        r@ == strip_scheme(v@),
{
    proof {
        reveal_strlit("https://");
        reveal_strlit("http://");
    }
    if has_prefix(v, "https://") {
        slice_vec(v, 8, v.len())
    } else if has_prefix(v, "http://") {
        slice_vec(v, 7, v.len())
    } else {
        slice_vec(v, 0, v.len())
    }
}

/// Reduces a configuration key such as `https://index.docker.io/v1/` to its
/// registry host, `index.docker.io`.
pub fn normalize_registry_key(key: &str) -> (r: String)
    ensures
        r@ == normalize_key_spec(key@),
{
    let v = chars_of(key);
    let t = trim_vec(&v);
    let l = lower_vec(&t);
    let s = strip_scheme_vec(&l);
    let h = prefix_before(&s, '/');
    string_of(&h)
}

/// The hosts under which Docker Hub credentials are stored.
pub open spec fn dockerhub_hosts() -> Seq<Seq<char>> {
    seq!["index.docker.io"@, "registry-1.docker.io"@, "docker.io"@]
}

/// The hosts under which Docker Hub credentials are stored.
pub fn dockerhub_registry_hosts() -> (r: Vec<&'static str>)
    ensures
        r@.len() == 3,
        r@[0]@ == dockerhub_hosts()[0],
        r@[1]@ == dockerhub_hosts()[1],
        r@[2]@ == dockerhub_hosts()[2],
{
    let mut r: Vec<&'static str> = Vec::new();
    r.push("index.docker.io");
    r.push("registry-1.docker.io");
    r.push("docker.io");
    r
}

/// The repository part of an image reference: without digest, and without
/// a tag (a non-empty suffix after the last `:` that has no `/`).
pub open spec fn repository_part(reference: Seq<char>) -> Seq<char> {
    let repo = before_first(reference, '@');
    match last_index_of(repo, ':') {
        Some(i) => {
            let tag = repo.skip(i + 1);
            if tag.len() > 0 && !tag.contains('/') {
                repo.take(i)
            } else {
                repo
            }
        },
        None => repo,
    }
}

/// The registry host named by an image reference: its first path
/// component, when that is `localhost` or holds a `.` or a `:`.
pub open spec fn registry_host_spec(reference: Seq<char>) -> Option<Seq<char>> {
    let first = before_first(repository_part(reference), '/');
    if first.len() == 0 {
        None
    } else if first == "localhost"@ || first.contains('.') || first.contains(':') {
        Some(first)
    } else {
        None
    }
}

fn repository_part_vec(v: &Vec<char>) -> (r: Vec<char>)
    ensures
        r@ == repository_part(v@),
{
    let repo = prefix_before(v, '@');
    match find_last(&repo, ':') {
        Some(i) => {
            let tag = slice_vec(&repo, i + 1, repo.len());
            proof {
                assert(tag@ =~= repo@.skip(i + 1));
            }
            if tag.len() > 0 && !vec_contains_char(&tag, '/') {
                let r = slice_vec(&repo, 0, i);
                proof {
                    assert(r@ =~= repo@.take(i as int));
                }
                r
            } else {
                repo
            }
        },
        None => repo,
    }
}

/// The registry host of an image reference, `None` for Docker Hub.
pub fn registry_host_from_image_reference(reference: &str) -> (r: Option<String>)
    ensures
        opt_str(r) == registry_host_spec(reference@),
{
    let v = chars_of(reference);
    let repo = repository_part_vec(&v);
    let first = prefix_before(&repo, '/');
    if first.len() == 0 {
        return None;
    }
    let s = string_of(&first);
    if str_eq(s.as_str(), "localhost") || vec_contains_char(&first, '.') || vec_contains_char(
        &first,
        ':',
    ) {
        Some(s)
    } else {
        None
    }
}

/// Whether `normalized` is one of the Docker Hub hosts.
pub open spec fn is_dockerhub_host(normalized: Seq<char>) -> bool {
    normalized == dockerhub_hosts()[0] || normalized == dockerhub_hosts()[1] || normalized
        == dockerhub_hosts()[2]
}

/// Whether the configuration key `key` is the one for `host` (`None`:
/// Docker Hub).
pub open spec fn key_matches(key: Seq<char>, host: Option<Seq<char>>) -> bool {
    match host {
        None => is_dockerhub_host(normalize_key_spec(key)),
        Some(h) => normalize_key_spec(key) == lower_seq(h),
    }
}

/// Index of the first key in `keys` that matches `host`.
pub open spec fn first_matching_key(keys: Seq<Seq<char>>, host: Option<Seq<char>>) -> Option<int> {
    if exists|i: int| 0 <= i < keys.len() && key_matches(#[trigger] keys[i], host) {
        Some(
            choose|i: int|
                0 <= i < keys.len() && key_matches(#[trigger] keys[i], host) && forall|j: int|
                    0 <= j < i ==> !key_matches(#[trigger] keys[j], host),
        )
    } else {
        None
    }
}

proof fn lemma_first_matching(keys: Seq<Seq<char>>, host: Option<Seq<char>>, i: int)
    requires
        0 <= i < keys.len(),
        key_matches(keys[i], host),
        forall|j: int| 0 <= j < i ==> !key_matches(#[trigger] keys[j], host),
    ensures
        first_matching_key(keys, host) == Some(i),
{
    let k = choose|k: int|
        0 <= k < keys.len() && key_matches(#[trigger] keys[k], host) && forall|j: int|
            0 <= j < k ==> !key_matches(#[trigger] keys[j], host);
    assert(0 <= k < keys.len() && key_matches(keys[k], host));
    if k < i {
        assert(!key_matches(keys[k], host));
    }
    if i < k {
        assert(!key_matches(keys[i], host));
    }
}

fn key_matches_exec(key: &str, host: Option<&str>) -> (r: bool)
    ensures
        r == key_matches(key@, match host {
            Some(h) => Some(h@),
            None => None,
        }),
{
    let n = normalize_registry_key(key);
    match host {
        None => {
            let hosts = dockerhub_registry_hosts();
            str_eq(n.as_str(), hosts[0]) || str_eq(n.as_str(), hosts[1]) || str_eq(
                n.as_str(),
                hosts[2],
            )
        },
        Some(h) => {
            let hv = chars_of(h);
            let lh = lower_vec(&hv);
            let ls = string_of(&lh);
            str_eq(n.as_str(), ls.as_str())
        },
    }
}

/// Keys of a list of pairs.
pub open spec fn keys_of<V>(pairs: Seq<(String, V)>) -> Seq<Seq<char>> {
    pairs.map_values(|p: (String, V)| p.0@)
}

/// Index of the first key in `pairs` for `registry_host` (`None`: Docker
/// Hub, matched under any of its hosts).
pub fn find_registry_key<V>(pairs: &Vec<(String, V)>, registry_host: Option<&str>) -> (r: Option<
    usize,
>)
    ensures
        match r {
            Some(i) => i < pairs@.len() && first_matching_key(
                keys_of(pairs@),
                match registry_host {
                    Some(h) => Some(h@),
                    None => None,
                },
            ) == Some(i as int),
            None => first_matching_key(
                keys_of(pairs@),
                match registry_host {
                    Some(h) => Some(h@),
                    None => None,
                },
            ) is None,
        },
{
    let ghost host = match registry_host {
        Some(h) => Some(h@),
        None => None,
    };
    let ghost keys = keys_of(pairs@);
    let mut i: usize = 0;
    while i < pairs.len()
        invariant
            i <= pairs.len(),
            keys == keys_of(pairs@),
            host == match registry_host {
                Some(h) => Some(h@),
                None => None,
            },
            forall|j: int| 0 <= j < i ==> !key_matches(#[trigger] keys[j], host),
        decreases pairs.len() - i,
    {
        if key_matches_exec(pairs[i].0.as_str(), registry_host) {
            proof {
                assert(keys[i as int] == pairs@[i as int].0@);
                lemma_first_matching(keys, host, i as int);
            }
            return Some(i);
        }
        proof {
            assert(keys[i as int] == pairs@[i as int].0@);
        }
        i = i + 1;
    }
    None
}

// ---------------------------------------------------------------------------
// Decoding `auth` entries
// ---------------------------------------------------------------------------

/// What base64 decoding with the standard alphabet and padding gives for
/// the input, `None` when the input is not valid base64.
pub uninterp spec fn base64_standard_decode(input: Seq<char>) -> Option<Seq<u8>>;

/// Decodes `input` with `base64`'s `STANDARD` engine
/// (`Engine::decode`). The result is the engine's, named by
/// `base64_standard_decode`; the text of a decoding error is the crate's
/// own and is not stated.
#[verifier::external_body]
fn decode_base64_standard(input: &str) -> (r: Result<Vec<u8>, String>)
    ensures
        match r {
            Ok(bytes) => base64_standard_decode(input@) == Some(bytes@),
            Err(_) => base64_standard_decode(input@) is None,
        },
{
    match base64::engine::general_purpose::STANDARD.decode(input) {
        Ok(bytes) => Ok(bytes),
        Err(e) => Err(e.to_string()),
    }
}

/// Turns bytes into a string when they are valid UTF-8
/// (`String::from_utf8`). The text of the error is std's and is not
/// stated.
#[verifier::external_body]
fn utf8_string(bytes: Vec<u8>) -> (r: Result<String, String>)
    ensures
        match r {
            Ok(s) => valid_utf8(bytes@) && s@ == decode_utf8(bytes@),
            Err(_) => !valid_utf8(bytes@),
        },
{
    match String::from_utf8(bytes) {
        Ok(s) => Ok(s),
        Err(e) => Err(e.to_string()),
    }
}

/// The step at which decoding an `auth` entry fails.
pub enum AuthDecodeFailure {
    /// Not base64; the message is `Invalid base64 auth: ` and the decoder's text.
    Base64,
    /// Not UTF-8; the message is `Invalid auth encoding: ` and std's text.
    Encoding,
    /// No `:` in the decoded text.
    Payload,
}

/// The outcome of decoding an `auth` entry: user and password, or the step
/// that failed.
pub open spec fn decode_auth_spec(auth_b64: Seq<char>) -> Result<(Seq<char>, Seq<char>), AuthDecodeFailure> {
    match base64_standard_decode(trim(auth_b64)) {
        None => Err(AuthDecodeFailure::Base64),
        Some(bytes) => auth_payload_spec(bytes),
    }
}

/// What decoded `auth` bytes hold: UTF-8 text `user:password`, split at
/// the first `:`.
pub open spec fn auth_payload_spec(bytes: Seq<u8>) -> Result<(Seq<char>, Seq<char>), AuthDecodeFailure> {
    if !valid_utf8(bytes) {
        Err(AuthDecodeFailure::Encoding)
    } else {
        let text = decode_utf8(bytes);
        if text.contains(':') {
            Ok((before_first(text, ':'), after_first(text, ':')))
        } else {
            Err(AuthDecodeFailure::Payload)
        }
    }
}

/// `m` is the message for a decoding failure `f`.
pub open spec fn auth_failure_message(m: Seq<char>, f: AuthDecodeFailure) -> bool {
    match f {
        AuthDecodeFailure::Base64 => m.len() >= "Invalid base64 auth: "@.len() && m.take(
            "Invalid base64 auth: "@.len() as int,
        ) == "Invalid base64 auth: "@,
        AuthDecodeFailure::Encoding => m.len() >= "Invalid auth encoding: "@.len() && m.take(
            "Invalid auth encoding: "@.len() as int,
        ) == "Invalid auth encoding: "@,
        AuthDecodeFailure::Payload => m == "Invalid auth payload (expected username:password)"@,
    }
}

/// Decodes an `auth` entry (base64 of `user:password`).
///
/// On success the pair is the text before and after the first `:`. On
/// failure the message starts with the one that `decode_auth_spec` names
/// (for the two decoding failures it goes on with the decoder's own text).
pub fn decode_docker_auth(auth_b64: &str) -> (r: Result<(String, String), String>)
    ensures
        match (r, decode_auth_spec(auth_b64@)) {
            (Ok((u, p)), Ok((su, sp))) => u@ == su && p@ == sp,
            (Err(m), Err(f)) => auth_failure_message(m@, f),
            _ => false,
        },
{
    let v = chars_of(auth_b64);
    let t = trim_vec(&v);
    let ts = string_of(&t);
    let decoded = match decode_base64_standard(ts.as_str()) {
        Ok(b) => b,
        Err(e) => {
            let m = concat("Invalid base64 auth: ", e.as_str());
            proof {
                assert(m@.take("Invalid base64 auth: "@.len() as int) =~= "Invalid base64 auth: "@);
            }
            return Err(m);
        },
    };
    decode_auth_payload(decoded)
}

/// Reads decoded `auth` bytes as `user:password`: the text before and
/// after the first `:`. Bytes that are not UTF-8 give a message starting
/// `Invalid auth encoding: `; text without `:` gives the payload message.
pub fn decode_auth_payload(bytes: Vec<u8>) -> (r: Result<(String, String), String>)
    ensures
        match (r, auth_payload_spec(bytes@)) {
            (Ok((u, p)), Ok((su, sp))) => u@ == su && p@ == sp,
            (Err(m), Err(f)) => auth_failure_message(m@, f),
            _ => false,
        },
{
    let text = match utf8_string(bytes) {
        Ok(s) => s,
        Err(e) => {
            let m = concat("Invalid auth encoding: ", e.as_str());
            proof {
                assert(m@.take("Invalid auth encoding: "@.len() as int) =~= "Invalid auth encoding: "@);
            }
            return Err(m);
        },
    };
    let tv = chars_of(text.as_str());
    match find_first(&tv, ':') {
        None => {
            proof {
                assert(!tv@.contains(':'));
            }
            Err(owned("Invalid auth payload (expected username:password)"))
        },
        Some(i) => {
            proof {
                assert(tv@.contains(':')) by {
                    assert(tv@[i as int] == ':');
                }
            }
            let user = string_of_range(&tv, 0, i);
            let pass = string_of_range(&tv, i + 1, tv.len());
            proof {
                assert(user@ =~= tv@.take(i as int));
                assert(pass@ =~= tv@.skip(i + 1));
            }
            Ok((user, pass))
        },
    }
}

// ---------------------------------------------------------------------------
// Resolving credentials
// ---------------------------------------------------------------------------

/// `o` holds text that is not blank.
pub open spec fn filled(o: Option<String>) -> bool {
    o is Some && trim(o->0@).len() > 0
}

/// What the direct `auths` entry for the reference gives: credentials, an
/// error text prefix from decoding, or nothing (`None`).
pub open spec fn from_auths_spec(config: DockerConfigFile, host: Option<Seq<char>>) -> Option<
    Result<(Seq<char>, RegistryAuthView), AuthDecodeFailure>,
> {
    match config.auths {
        None => None,
        Some(auths) => match first_matching_key(keys_of(auths@), host) {
            None => None,
            Some(k) => {
                let key = auths@[k].0@;
                let e = auths@[k].1;
                if filled(e.identity_token) {
                    Some(
                        Ok(
                            (
                                key,
                                RegistryAuthView {
                                    server_address: key,
                                    username: None,
                                    password: None,
                                    identity_token: opt_str(e.identity_token),
                                },
                            ),
                        ),
                    )
                } else if filled(e.username) && filled(e.password) {
                    Some(
                        Ok(
                            (
                                key,
                                RegistryAuthView {
                                    server_address: key,
                                    username: opt_str(e.username),
                                    password: opt_str(e.password),
                                    identity_token: None,
                                },
                            ),
                        ),
                    )
                } else if filled(e.auth) {
                    match decode_auth_spec(e.auth->0@) {
                        Ok((u, p)) => Some(
                            Ok(
                                (
                                    key,
                                    RegistryAuthView {
                                        server_address: key,
                                        username: Some(u),
                                        password: Some(p),
                                        identity_token: None,
                                    },
                                ),
                            ),
                        ),
                        Err(m) => Some(Err(m)),
                    }
                } else {
                    None
                }
            },
        },
    }
}

/// The view of a `RegistryAuth`.
pub struct RegistryAuthView {
    pub server_address: Seq<char>,
    pub username: Option<Seq<char>>,
    pub password: Option<Seq<char>>,
    pub identity_token: Option<Seq<char>>,
}

impl View for RegistryAuth {
    type V = RegistryAuthView;

    open spec fn view(&self) -> RegistryAuthView {
        RegistryAuthView {
            server_address: self.server_address@,
            username: opt_str(self.username),
            password: opt_str(self.password),
            identity_token: opt_str(self.identity_token),
        }
    }
}

/// The credential helper and server to ask when no direct entry applies:
/// `(helper, server)`, or `None` when no helper is configured.
pub open spec fn helper_spec(config: DockerConfigFile, host: Option<Seq<char>>) -> Option<
    (Seq<char>, Seq<char>),
> {
    let from_helpers: Option<(Seq<char>, Seq<char>)> = match config.cred_helpers {
        None => None,
        Some(h) => match first_matching_key(keys_of(h@), host) {
            None => None,
            Some(k) => Some((h@[k].1@, h@[k].0@)),
        },
    };
    let server = match from_helpers {
        Some((_, s)) => s,
        None => match host {
            None => "https://index.docker.io/v1/"@,
            Some(h) => h,
        },
    };
    let helper = match from_helpers {
        Some((hp, _)) => Some(hp),
        None => opt_str(config.creds_store),
    };
    match helper {
        Some(hp) => Some((hp, server)),
        None => None,
    }
}

/// No `credHelpers` key names the registry `host`.
pub open spec fn no_helper_for(config: DockerConfigFile, host: Option<Seq<char>>) -> bool {
    match config.cred_helpers {
        None => true,
        Some(h) => first_matching_key(keys_of(h@), host) is None,
    }
}

/// When no `credHelpers` entry names the registry, the credentials store
/// (if any) is asked for the registry the image names: its host, and Docker
/// Hub's index address only for an image on Docker Hub (no host). Without
/// a store there is no helper.
pub proof fn law_store_is_asked_for_the_image_registry(config: DockerConfigFile, host: Option<Seq<char>>)
    requires
        no_helper_for(config, host),
    ensures
        config.creds_store is None ==> helper_spec(config, host) is None,
        config.creds_store matches Some(st) ==> (helper_spec(config, host) matches Some((hp, server))
            && hp == st@),
        host matches Some(h) ==> (config.creds_store is Some ==> (helper_spec(config, host) matches Some((_, server))
            && server == h)),
        (config.creds_store is Some && host is None) ==> (helper_spec(config, host) matches Some((_, server))
            && server == "https://index.docker.io/v1/"@),
{
}

/// A `credHelpers` entry that names the registry decides the helper, and
/// the helper is asked for that entry's key.
pub proof fn law_registry_helper_is_asked_for_its_key(config: DockerConfigFile, host: Option<Seq<char>>)
    requires
        !no_helper_for(config, host),
    ensures
        ({
            let h = config.cred_helpers->0;
            let k = first_matching_key(keys_of(h@), host)->0;
            helper_spec(config, host) == Some((h@[k].1@, h@[k].0@))
        }),
{
}

fn is_filled(o: &Option<String>) -> (r: bool)
    ensures
        r == filled(*o),
{
    match o {
        None => false,
        Some(s) => {
            let v = chars_of(s.as_str());
            let t = trim_vec(&v);
            t.len() > 0
        },
    }
}

fn clone_opt(o: &Option<String>) -> (r: Option<String>)
    ensures
        opt_str(r) == opt_str(*o),
{
    match o {
        Some(s) => Some(clone_string(s)),
        None => None,
    }
}

/// Decides which credentials apply to the image `reference`.
///
/// 1) The first `auths` entry for the reference's registry: its identity
///    token, else its username and password, else its decoded `auth`
///    (whose decoding error is returned), each when not blank.
/// 2) Otherwise the credential helper for that registry from
///    `credHelpers`, else `credsStore`, to be asked for the registry key
///    (or the registry host, or Docker Hub's index address).
pub fn resolve_from_config(config: &DockerConfigFile, reference: &str) -> (r: Result<
    AuthResolution,
    String,
>)
    ensures
        ({
            let host = registry_host_spec(reference@);
            match from_auths_spec(*config, host) {
                Some(Ok((_, auth))) => r matches Ok(AuthResolution::Found(a)) && a@ == auth,
                Some(Err(f)) => r matches Err(m) && auth_failure_message(m@, f),
                None => match helper_spec(*config, host) {
                    Some((helper, server)) => r matches Ok(
                        AuthResolution::RunHelper { helper: h, server: s },
                    ) && h@ == helper && s@ == server,
                    None => r matches Ok(AuthResolution::NotConfigured),
                },
            }
        }),
        ({
            let host = registry_host_spec(reference@);
            (from_auths_spec(*config, host) is None && no_helper_for(*config, host) && config.creds_store is Some)
                ==> (r matches Ok(AuthResolution::RunHelper { helper: h, server: s }) && h@
                == config.creds_store->0@ && s@ == match host {
                Some(x) => x,
                None => "https://index.docker.io/v1/"@,
            })
        }),
{
    proof {
        if no_helper_for(*config, registry_host_spec(reference@)) {
            law_store_is_asked_for_the_image_registry(*config, registry_host_spec(reference@));
        }
    }
    let host = registry_host_from_image_reference(reference);
    let host_ref: Option<&str> = match &host {
        Some(h) => Some(h.as_str()),
        None => None,
    };
    let ghost hv = registry_host_spec(reference@);
    proof {
        assert(match host_ref {
            Some(h) => Some(h@),
            None => None,
        } == hv);
    }
    if let Some(auths) = &config.auths {
        if let Some(k) = find_registry_key(auths, host_ref) {
            let key = &auths[k].0;
            let entry = &auths[k].1;
            proof {
                assert(keys_of(auths@)[k as int] == key@);
            }
            if is_filled(&entry.identity_token) {
                return Ok(
                    AuthResolution::Found(
                        RegistryAuth {
                            server_address: clone_string(key),
                            username: None,
                            password: None,
                            identity_token: clone_opt(&entry.identity_token),
                        },
                    ),
                );
            }
            if is_filled(&entry.username) && is_filled(&entry.password) {
                return Ok(
                    AuthResolution::Found(
                        RegistryAuth {
                            server_address: clone_string(key),
                            username: clone_opt(&entry.username),
                            password: clone_opt(&entry.password),
                            identity_token: None,
                        },
                    ),
                );
            }
            if is_filled(&entry.auth) {
                let a = match &entry.auth {
                    Some(a) => a,
                    None => {
                        return Err(owned(""));
                    },
                };
                match decode_docker_auth(a.as_str()) {
                    Ok((u, p)) => {
                        return Ok(
                            AuthResolution::Found(
                                RegistryAuth {
                                    server_address: clone_string(key),
                                    username: Some(u),
                                    password: Some(p),
                                    identity_token: None,
                                },
                            ),
                        );
                    },
                    Err(m) => {
                        return Err(m);
                    },
                }
            }
        }
    }
    let mut helper: Option<String> = None;
    let mut server: Option<String> = None;
    if let Some(helpers) = &config.cred_helpers {
        if let Some(k) = find_registry_key(helpers, host_ref) {
            helper = Some(clone_string(&helpers[k].1));
            server = Some(clone_string(&helpers[k].0));
            proof {
                assert(keys_of(helpers@)[k as int] == helpers@[k as int].0@);
            }
        }
    }
    if helper.is_none() {
        helper = clone_opt(&config.creds_store);
    }
    if server.is_none() {
        server = Some(
            match &host {
                None => owned("https://index.docker.io/v1/"),
                Some(h) => clone_string(h),
            },
        );
    }
    match helper {
        Some(h) => {
            let s = match server {
                Some(s) => s,
                None => owned("https://index.docker.io/v1/"),
            };
            Ok(AuthResolution::RunHelper { helper: h, server: s })
        },
        None => Ok(AuthResolution::NotConfigured),
    }
}

/// The program that serves a credential helper: `docker-credential-<helper>`.
pub fn credential_helper_program(helper: &str) -> (r: String)
    ensures
        r@ == "docker-credential-"@ + helper@,
{
    concat("docker-credential-", helper)
}

/// Checks what a credential helper answered for `server`: the username and
/// secret are trimmed, and both must be non-empty.
pub fn credential_from_helper(helper: &str, server: &str, username: &str, secret: &str) -> (r:
    Result<RegistryAuth, String>)
    ensures
        match r {
            Ok(a) => {
                &&& trim(username@).len() > 0
                &&& trim(secret@).len() > 0
                &&& a.server_address@ == server@
                &&& opt_str(a.username) == Some(trim(username@))
                &&& opt_str(a.password) == Some(trim(secret@))
                &&& a.identity_token is None
            },
            Err(m) => {
                &&& (trim(username@).len() == 0 || trim(secret@).len() == 0)
                &&& m@ == "docker-credential-"@ + helper@ + " returned empty credentials"@
            },
        },
{
    let u = trim_vec(&chars_of(username));
    let s = trim_vec(&chars_of(secret));
    if u.len() == 0 || s.len() == 0 {
        let p = credential_helper_program(helper);
        return Err(concat(p.as_str(), " returned empty credentials"));
    }
    Ok(
        RegistryAuth {
            server_address: owned(server),
            username: Some(string_of(&u)),
            password: Some(string_of(&s)),
            identity_token: None,
        },
    )
}

// ---------------------------------------------------------------------------
// Where the configuration is
// ---------------------------------------------------------------------------

/// Docker's client configuration file: `config.json` in `DOCKER_CONFIG`
/// when it is set, else `.docker/config.json` under `HOME`, else under
/// `USERPROFILE`, else under `HOMEDRIVE` followed by `HOMEPATH`; none when
/// none of these is set.
pub open spec fn docker_config_path_spec(
    docker_config: Option<Seq<char>>,
    home: Option<Seq<char>>,
    user_profile: Option<Seq<char>>,
    home_drive: Option<Seq<char>>,
    home_path: Option<Seq<char>>,
) -> Option<Seq<char>> {
    match docker_config {
        Some(d) => Some(join(d, "config.json"@)),
        None => match home {
            Some(h) => Some(join(join(h, ".docker"@), "config.json"@)),
            None => match user_profile {
                Some(u) => Some(join(join(u, ".docker"@), "config.json"@)),
                None => match (home_drive, home_path) {
                    (Some(d), Some(p)) => Some(join(join(d + p, ".docker"@), "config.json"@)),
                    _ => None,
                },
            },
        },
    }
}

pub fn docker_config_path(
    docker_config: Option<&str>,
    home: Option<&str>,
    user_profile: Option<&str>,
    home_drive: Option<&str>,
    home_path: Option<&str>,
) -> (r: Option<String>)
    ensures
        match r {
            Some(p) => docker_config_path_spec(
                opt_str_view(docker_config),
                opt_str_view(home),
                opt_str_view(user_profile),
                opt_str_view(home_drive),
                opt_str_view(home_path),
            ) == Some(p@),
            None => docker_config_path_spec(
                opt_str_view(docker_config),
                opt_str_view(home),
                opt_str_view(user_profile),
                opt_str_view(home_drive),
                opt_str_view(home_path),
            ) is None,
        },
{
    if let Some(d) = docker_config {
        return Some(join_path(d, "config.json"));
    }
    if let Some(h) = home {
        let a = join_path(h, ".docker");
        return Some(join_path(a.as_str(), "config.json"));
    }
    if let Some(u) = user_profile {
        let a = join_path(u, ".docker");
        return Some(join_path(a.as_str(), "config.json"));
    }
    match (home_drive, home_path) {
        (Some(d), Some(p)) => {
            let dp = concat(d, p);
            let a = join_path(dp.as_str(), ".docker");
            Some(join_path(a.as_str(), "config.json"))
        },
        _ => None,
    }
}

/// Whether `DOCKER_AUTH_CONFIG` is to be consulted before the
/// configuration file: when it is set and not blank.
pub fn use_auth_config_env(value: Option<&str>) -> (b: bool)
    ensures
        b == (value matches Some(v) && trim(v@).len() > 0),
{
    match value {
        Some(v) => trim_vec(&chars_of(v)).len() > 0,
        None => false,
    }
}

} // verus!
