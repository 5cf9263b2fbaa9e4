//! Input validation for names, image references, ports and paths.
//!
//! Every validator returns `Ok(())` on success or `Err(String)` with a
//! human-readable description of the first rule that the input breaks.
//! The contracts name that first rule exactly.
use vstd::prelude::*;
use crate::text::{
    ascii_alnum, ascii_alpha, ascii_digit, ascii_lower, before_first, chars_of, concat,
    control_char, decimal, decimal_string, is_ascii_alnum, is_ascii_alpha, is_ascii_digit,
    is_ascii_lower, is_control_char, is_unicode_whitespace, owned, prefix_before, push_char,
    unicode_whitespace, utf8_len, utf8_len_of, vec_contains_char,
};

verus! {

// ---------------------------------------------------------------------------
// VM names
// ---------------------------------------------------------------------------

pub open spec fn vm_name_char_ok(c: char) -> bool {
    is_ascii_lower(c) || is_ascii_digit(c) || c == '-'
}

/// The error that `validate_vm_name` gives for `s`, or `None` when `s` is a
/// valid VM name: 1 to 63 bytes, lowercase ASCII letters, digits and
/// hyphens, starting with a letter and not ending with a hyphen.
pub open spec fn vm_name_error(s: Seq<char>) -> Option<Seq<char>> {
    if s.len() == 0 {
        Some("VM name must not be empty"@)
    } else if utf8_len(s) > 63 {
        Some("VM name must be at most 63 characters, got "@ + decimal(utf8_len(s)))
    } else if s[0] == '-' || s.last() == '-' {
        Some("VM name must not start or end with a hyphen"@)
    } else if !is_ascii_lower(s[0]) {
        Some("VM name must start with a lowercase letter"@)
    } else if !(forall|i: int| 0 <= i < s.len() ==> vm_name_char_ok(#[trigger] s[i])) {
        Some("VM name must contain only lowercase alphanumeric characters and hyphens"@)
    } else {
        None
    }
}

/// Maps a spec-level error to the `Result` that a validator returns.
pub open spec fn matches_error(r: Result<(), String>, e: Option<Seq<char>>) -> bool {
    match r {
        Ok(()) => e is None,
        Err(msg) => e == Some(msg@),
    }
}

/// Byte length of `v`, which fits a `usize` as the length of any `str` does.
fn byte_len(v: &Vec<char>) -> (n: u64)
    requires
        utf8_len(v@) <= usize::MAX,
    ensures
        n as nat == utf8_len(v@),
{
    utf8_len_of(v)
}

/// Whether every character of `v` satisfies the VM-name alphabet.
fn all_vm_name_chars(v: &Vec<char>) -> (r: bool)
    ensures
        r == (forall|i: int| 0 <= i < v@.len() ==> vm_name_char_ok(#[trigger] v@[i])),
{
    let mut i: usize = 0;
    while i < v.len()
        invariant
            i <= v.len(),
            forall|j: int| 0 <= j < i ==> vm_name_char_ok(#[trigger] v@[j]),
        decreases v.len() - i,
    {
        let c = v[i];
        if !(ascii_lower(c) || ascii_digit(c) || c == '-') {
            proof {
                assert(!vm_name_char_ok(v@[i as int]));
            }
            return false;
        }
        i = i + 1;
    }
    true
}

/// Validate a VM name.
///
/// Rules:
/// - 1 to 63 characters
/// - Only lowercase alphanumeric characters and hyphens
/// - Must not start or end with a hyphen
/// - Must start with a letter
pub fn validate_vm_name(name: &str) -> (r: Result<(), String>)
    requires
        utf8_len(name@) <= usize::MAX,
    ensures
        matches_error(r, vm_name_error(name@)),
{
    let v = chars_of(name);
    if v.len() == 0 {
        return Err(owned("VM name must not be empty"));
    }
    let n = byte_len(&v);
    if n > 63 {
        let digits = decimal_string(n);
        return Err(concat("VM name must be at most 63 characters, got ", digits.as_str()));
    }
    if v[0] == '-' || v[v.len() - 1] == '-' {
        return Err(owned("VM name must not start or end with a hyphen"));
    }
    if !ascii_lower(v[0]) {
        return Err(owned("VM name must start with a lowercase letter"));
    }
    if !all_vm_name_chars(&v) {
        return Err(owned("VM name must contain only lowercase alphanumeric characters and hyphens"));
    }
    Ok(())
}

// ---------------------------------------------------------------------------
// Container names
// ---------------------------------------------------------------------------

pub open spec fn container_name_char_ok(c: char) -> bool {
    is_ascii_alnum(c) || c == '_' || c == '.' || c == '-'
}

/// The error that `validate_container_name` gives for `s`, or `None` when
/// `s` matches `[a-zA-Z0-9][a-zA-Z0-9_.-]*` and has 1 to 128 bytes.
pub open spec fn container_name_error(s: Seq<char>) -> Option<Seq<char>> {
    if s.len() == 0 {
        Some("Container name must not be empty"@)
    } else if utf8_len(s) > 128 {
        Some("Container name must be at most 128 characters, got "@ + decimal(utf8_len(s)))
    } else if !is_ascii_alnum(s[0]) {
        Some("Container name must start with an alphanumeric character"@)
    } else if !(forall|i: int| 0 <= i < s.len() ==> container_name_char_ok(#[trigger] s[i])) {
        Some(
            "Container name must contain only alphanumeric characters, underscores, dots, and hyphens"@,
        )
    } else {
        None
    }
}

fn all_container_name_chars(v: &Vec<char>) -> (r: bool)
    ensures
        r == (forall|i: int| 0 <= i < v@.len() ==> container_name_char_ok(#[trigger] v@[i])),
{
    let mut i: usize = 0;
    while i < v.len()
        invariant
            i <= v.len(),
            forall|j: int| 0 <= j < i ==> container_name_char_ok(#[trigger] v@[j]),
        decreases v.len() - i,
    {
        let c = v[i];
        if !(ascii_alnum(c) || c == '_' || c == '.' || c == '-') {
            proof {
                assert(!container_name_char_ok(v@[i as int]));
            }
            return false;
        }
        i = i + 1;
    }
    true
}

/// Validate a Docker container name.
///
/// Rules (matching Docker naming conventions):
/// - 1 to 128 characters
/// - Must match `[a-zA-Z0-9][a-zA-Z0-9_.-]*`
pub fn validate_container_name(name: &str) -> (r: Result<(), String>)
    requires
        utf8_len(name@) <= usize::MAX,
    ensures
        matches_error(r, container_name_error(name@)),
{
    let v = chars_of(name);
    if v.len() == 0 {
        return Err(owned("Container name must not be empty"));
    }
    let n = byte_len(&v);
    if n > 128 {
        let digits = decimal_string(n);
        return Err(concat("Container name must be at most 128 characters, got ", digits.as_str()));
    }
    if !ascii_alnum(v[0]) {
        return Err(owned("Container name must start with an alphanumeric character"));
    }
    if !all_container_name_chars(&v) {
        return Err(
            owned(
                "Container name must contain only alphanumeric characters, underscores, dots, and hyphens",
            ),
        );
    }
    Ok(())
}

// ---------------------------------------------------------------------------
// Image references
// ---------------------------------------------------------------------------

/// Shell meta-characters rejected in image references, in the order in
/// which they are checked.
pub open spec fn shell_meta() -> Seq<char> {
    seq![';', '&', '|', '$', '`', '(', ')', '{', '}', '<', '>', '!', '\\', '\'', '"']
}

/// The first meta-character, in `shell_meta()` order, that occurs in `s`.
pub open spec fn first_meta_in(s: Seq<char>) -> Option<char> {
    if exists|k: int| 0 <= k < shell_meta().len() && s.contains(#[trigger] shell_meta()[k]) {
        let k = choose|k: int|
            0 <= k < shell_meta().len() && s.contains(#[trigger] shell_meta()[k]) && forall|j: int|
                0 <= j < k ==> !s.contains(#[trigger] shell_meta()[j]);
        Some(shell_meta()[k])
    } else {
        None
    }
}

/// The error that `validate_image_reference` gives for `s`, or `None` when
/// the reference is accepted.
pub open spec fn image_reference_error(s: Seq<char>) -> Option<Seq<char>> {
    if s.len() == 0 {
        Some("Image reference must not be empty"@)
    } else if utf8_len(s) > 512 {
        Some("Image reference must be at most 512 characters, got "@ + decimal(utf8_len(s)))
    } else if exists|i: int| 0 <= i < s.len() && is_unicode_whitespace(#[trigger] s[i]) {
        Some("Image reference must not contain whitespace"@)
    } else if first_meta_in(s) is Some {
        Some("Image reference contains invalid character '"@ + seq![first_meta_in(s)->0] + "'"@)
    } else if before_first(before_first(s, ':'), '@').len() == 0 {
        Some("Image reference has an empty name component"@)
    } else {
        None
    }
}

fn has_whitespace(v: &Vec<char>) -> (r: bool)
    ensures
        r == exists|i: int| 0 <= i < v@.len() && is_unicode_whitespace(#[trigger] v@[i]),
{
    let mut i: usize = 0;
    while i < v.len()
        invariant
            i <= v.len(),
            forall|j: int| 0 <= j < i ==> !is_unicode_whitespace(#[trigger] v@[j]),
        decreases v.len() - i,
    {
        if unicode_whitespace(v[i]) {
            proof {
                assert(is_unicode_whitespace(v@[i as int]));
            }
            return true;
        }
        i = i + 1;
    }
    false
}

fn shell_meta_vec() -> (v: Vec<char>)
    ensures
        v@ == shell_meta(),
{
    let v = vec![';', '&', '|', '$', '`', '(', ')', '{', '}', '<', '>', '!', '\\', '\'', '"'];
    proof {
        assert(v@ =~= shell_meta());
    }
    v
}

fn find_meta(v: &Vec<char>) -> (r: Option<char>)
    ensures
        r == first_meta_in(v@),
{
    let meta = shell_meta_vec();
    let mut k: usize = 0;
    while k < meta.len()
        invariant
            meta@ == shell_meta(),
            k <= meta.len(),
            forall|j: int| 0 <= j < k ==> !v@.contains(#[trigger] shell_meta()[j]),
        decreases meta.len() - k,
    {
        let ch = meta[k];
        if vec_contains_char(v, ch) {
            proof {
                let s = v@;
                assert(s.contains(shell_meta()[k as int]));
                let kk = choose|kk: int|
                    0 <= kk < shell_meta().len() && s.contains(#[trigger] shell_meta()[kk])
                        && forall|j: int| 0 <= j < kk ==> !s.contains(#[trigger] shell_meta()[j]);
                if kk < k {
                    assert(!s.contains(shell_meta()[kk]));
                }
                if kk > k {
                    assert(!s.contains(shell_meta()[k as int]));
                }
            }
            return Some(ch);
        }
        k = k + 1;
    }
    None
}

/// Validate a Docker image reference.
///
/// Accepts references in the forms:
/// - `image`
/// - `image:tag`
/// - `registry/image`
/// - `registry/image:tag`
/// - `registry:port/image:tag`
/// - `registry/namespace/image:tag@sha256:...`
///
/// Rejects empty strings and strings containing whitespace or shell meta-characters.
pub fn validate_image_reference(reference: &str) -> (r: Result<(), String>)
    requires
        utf8_len(reference@) <= usize::MAX,
    ensures
        matches_error(r, image_reference_error(reference@)),
{
    let v = chars_of(reference);
    if v.len() == 0 {
        return Err(owned("Image reference must not be empty"));
    }
    let n = byte_len(&v);
    if n > 512 {
        let digits = decimal_string(n);
        return Err(concat("Image reference must be at most 512 characters, got ", digits.as_str()));
    }
    if has_whitespace(&v) {
        return Err(owned("Image reference must not contain whitespace"));
    }
    match find_meta(&v) {
        Some(ch) => {
            let mut msg = owned("Image reference contains invalid character '");
            push_char(&mut msg, ch);
            msg.append("'");
            proof {
                assert(msg@ =~= "Image reference contains invalid character '"@ + seq![ch] + "'"@);
            }
            return Err(msg);
        },
        None => {},
    }
    let name_part = prefix_before(&v, ':');
    let name_part = prefix_before(&name_part, '@');
    if name_part.len() == 0 {
        return Err(owned("Image reference has an empty name component"));
    }
    Ok(())
}

// ---------------------------------------------------------------------------
// Ports
// ---------------------------------------------------------------------------

/// Validate a port number.
///
/// Ports 0 are not valid for binding. Ports 1-65535 are accepted.
pub fn validate_port(port: u16) -> (r: Result<(), String>)
    ensures
        matches_error(
            r,
            if port == 0 {
                Some("Port must be between 1 and 65535"@)
            } else {
                None
            },
        ),
{
    if port == 0 {
        return Err(owned("Port must be between 1 and 65535"));
    }
    Ok(())
}

// ---------------------------------------------------------------------------
// Mount paths
// ---------------------------------------------------------------------------

/// `s` has a component equal to `..` when split at `sep`.
pub open spec fn has_dotdot_component(s: Seq<char>, sep: char) -> bool {
    exists|i: int|
        0 <= i && i + 2 <= s.len() && #[trigger] s[i] == '.' && s[i + 1] == '.' && (i == 0 || s[i
            - 1] == sep) && (i + 2 == s.len() || s[i + 2] == sep)
}

/// `s` is absolute: starts with `/`, or with a drive letter, `:` and a
/// separator.
pub open spec fn is_absolute_path(s: Seq<char>) -> bool {
    (s.len() > 0 && s[0] == '/') || (s.len() >= 3 && is_ascii_alpha(s[0]) && s[1] == ':' && (s[2]
        == '\\' || s[2] == '/'))
}

/// The error that `validate_mount_path` gives for `s`, or `None`.
pub open spec fn mount_path_error(s: Seq<char>) -> Option<Seq<char>> {
    if s.len() == 0 {
        Some("Mount path must not be empty"@)
    } else if s.contains('\0') {
        Some("Mount path must not contain null bytes"@)
    } else if has_dotdot_component(s, '/') || has_dotdot_component(s, '\\') {
        Some("Mount path must not contain '..' path traversal"@)
    } else if !is_absolute_path(s) {
        Some("Mount path must be absolute (e.g. /home/user/data or C:\\Users\\data)"@)
    } else {
        None
    }
}

fn find_dotdot(v: &Vec<char>, sep: char) -> (r: bool)
    ensures
        r == has_dotdot_component(v@, sep),
{
    let mut i: usize = 0;
    while v.len() >= 2 && i <= v.len() - 2
        invariant
            forall|j: int|
                0 <= j < i ==> !(j + 2 <= v@.len() && #[trigger] v@[j] == '.' && v@[j + 1] == '.'
                    && (j == 0 || v@[j - 1] == sep) && (j + 2 == v@.len() || v@[j + 2] == sep)),
        decreases v.len() - i,
    {
        if v[i] == '.' && v[i + 1] == '.' && (i == 0 || v[i - 1] == sep) && (i + 2 == v.len()
            || v[i + 2] == sep) {
            return true;
        }
        i = i + 1;
    }
    proof {
        assert forall|j: int|
            0 <= j && j + 2 <= v@.len() && #[trigger] v@[j] == '.' && v@[j + 1] == '.' && (j == 0
                || v@[j - 1] == sep) implies !(j + 2 == v@.len() || v@[j + 2] == sep) by {
            assert(j < i);
        }
    }
    false
}

/// Validate a mount path for safety.
///
/// Rules:
/// - Must be an absolute path (starts with `/` on Unix or a drive letter on Windows)
/// - Must not contain `..` path traversal components
/// - Must not be empty
/// - Must not contain null bytes
pub fn validate_mount_path(path: &str) -> (r: Result<(), String>)
    ensures
        matches_error(r, mount_path_error(path@)),
{
    let v = chars_of(path);
    if v.len() == 0 {
        return Err(owned("Mount path must not be empty"));
    }
    if vec_contains_char(&v, '\0') {
        return Err(owned("Mount path must not contain null bytes"));
    }
    if find_dotdot(&v, '/') || find_dotdot(&v, '\\') {
        return Err(owned("Mount path must not contain '..' path traversal"));
    }
    let is_absolute = (v.len() > 0 && v[0] == '/') || (v.len() >= 3 && ascii_alpha(v[0]) && v[1]
        == ':' && (v[2] == '\\' || v[2] == '/'));
    if !is_absolute {
        return Err(owned("Mount path must be absolute (e.g. /home/user/data or C:\\Users\\data)"));
    }
    Ok(())
}

// ---------------------------------------------------------------------------
// Log sanitising
// ---------------------------------------------------------------------------

/// The character that replaces `c` in a log line.
pub open spec fn sanitized_char(c: char) -> char {
    if is_control_char(c) && c != '\n' && c != '\t' {
        '\u{FFFD}'
    } else {
        c
    }
}

/// Sanitize a string for safe inclusion in log messages.
///
/// Strips control characters (except newline and tab) to prevent log injection
/// and terminal escape sequence attacks.
pub fn sanitize_log_string(s: &str) -> (r: String)
    ensures
        r@ == s@.map_values(|c: char| sanitized_char(c)),
{
    let v = chars_of(s);
    let mut out = String::new();
    let mut i: usize = 0;
    while i < v.len()
        invariant
            i <= v.len(),
            out@ == v@.take(i as int).map_values(|c: char| sanitized_char(c)),
        decreases v.len() - i,
    {
        let c = v[i];
        let d = if control_char(c) && c != '\n' && c != '\t' {
            '\u{FFFD}'
        } else {
            c
        };
        proof {
            assert(v@.take(i as int + 1).map_values(|c: char| sanitized_char(c)) =~= out@.push(d));
        }
        push_char(&mut out, d);
        i = i + 1;
    }
    proof {
        assert(v@.take(i as int) =~= v@);
    }
    out
}

/// A sanitised line holds no control character but newline and tab.
pub proof fn law_sanitized_has_no_controls(s: Seq<char>, i: int)
    requires
        0 <= i < s.len(),
    ensures
        ({
            let c = s.map_values(|c: char| sanitized_char(c))[i];
            !is_control_char(c) || c == '\n' || c == '\t'
        }),
{
}

/// Sanitising a sanitised line changes nothing.
pub proof fn law_sanitize_idempotent(s: Seq<char>)
    ensures
        s.map_values(|c: char| sanitized_char(c)).map_values(|c: char| sanitized_char(c))
            == s.map_values(|c: char| sanitized_char(c)),
{
    assert(s.map_values(|c: char| sanitized_char(c)).map_values(|c: char| sanitized_char(c))
        =~= s.map_values(|c: char| sanitized_char(c)));
}

} // verus!
