//! Signed WebView releases: what a release manifest must look like, which
//! releases this application may install, and the check of downloaded files
//! against the manifest.
//!
//! A release is an immutable set of files.  The signature covers the exact
//! manifest bytes received over the network; they are checked before they
//! are parsed.  Downloading and installing files is left to the platform.

use vstd::prelude::*;
use p256::ecdsa::signature::Verifier;
use p256::ecdsa::{Signature, VerifyingKey};
use sha2::{Digest, Sha256};
use crate::text::{
    chars_eq, chars_lt, chars_of, extend_from, find_first, first_index, lemma_first_index,
    lemma_seq_lt_transitive, lower_seq, seq_lt, string_from_chars, sub_vec, to_ascii_lowercase,
    upper_seq, to_ascii_uppercase, utf8_byte_len, utf8_len,
};

verus! {

pub const SIGNATURE_LEN: usize = 64;
/// 512 KiB.
pub const MAX_MANIFEST_BYTES: usize = 524288;
/// 25 MiB.
pub const MAX_FILE_BYTES: u64 = 26214400;

#[verifier::external_type_specification]
#[verifier::external_body]
pub struct ExJsonError(serde_json::Error);

#[derive(Debug)]
pub enum UpdateError {
    ManifestTooLarge,
    InvalidSignatureLength,
    InvalidSignature,
    InvalidManifest(serde_json::Error),
    InvalidEntry(String),
    IncompatibleRelease(&'static str),
    HashMismatch { path: String },
    SizeMismatch { path: String, expected: u64, actual: u64 },
}

#[derive(Debug, Clone, PartialEq, Eq)]
pub struct ReleaseFile {
    pub path: String,
    pub size: u64,
    /// Lowercase hexadecimal SHA-256 of the complete file.
    pub sha256: String,
}

#[derive(Debug, Clone, PartialEq, Eq)]
pub struct ReleaseManifest {
    pub release_id: String,
    pub revision: u64,
    pub distribution: String,
    pub target: String,
    pub min_api_version: u16,
    pub files: Vec<ReleaseFile>,
}

// ---------------------------------------------------------------------------
// Path components.
// ---------------------------------------------------------------------------

/// Characters allowed in a path component: ASCII letters and digits, `.`,
/// `_` and `-`.
pub open spec fn is_component_char(c: char) -> bool {
    ||| ('a' <= c && c <= 'z')
    ||| ('A' <= c && c <= 'Z')
    ||| ('0' <= c && c <= '9')
    ||| c == '.'
    ||| c == '_'
    ||| c == '-'
}

/// A component up to its first dot.
pub open spec fn component_stem(c: Seq<char>) -> Seq<char> {
    if first_index(c, '.') < 0 {
        c
    } else {
        c.subrange(0, first_index(c, '.'))
    }
}

/// A Windows device name, given in upper case.
pub open spec fn is_device_name(s: Seq<char>) -> bool {
    ||| s == seq!['C', 'O', 'N']
    ||| s == seq!['P', 'R', 'N']
    ||| s == seq!['A', 'U', 'X']
    ||| s == seq!['N', 'U', 'L']
    ||| (s.len() == 4 && (s.subrange(0, 3) == seq!['C', 'O', 'M'] || s.subrange(0, 3) == seq![
        'L',
        'P',
        'T',
    ]) && '1' <= s[3] && s[3] <= '9')
}

/// A component that means the same thing as a URL path segment and as a
/// file name on every OS: not empty, not ending in a dot (so neither `.`
/// nor `..`), of allowed characters only, and not a device name whatever
/// its extension or case.
pub open spec fn safe_component(c: Seq<char>) -> bool {
    &&& c.len() > 0
    &&& c.last() != '.'
    &&& forall|i: int| 0 <= i < c.len() ==> is_component_char(#[trigger] c[i])
    &&& !is_device_name(upper_seq(component_stem(c)))
}

/// Every `/`-separated part of `p` is a safe component.
pub open spec fn parts_safe(p: Seq<char>) -> bool
    decreases p.len(),
{
    if first_index(p, '/') < 0 {
        safe_component(p)
    } else {
        proof {
            lemma_first_index(p, '/');
        }
        safe_component(p.subrange(0, first_index(p, '/'))) && parts_safe(
            p.subrange(first_index(p, '/') + 1, p.len() as int),
        )
    }
}

/// A relative path made of safe components.
pub open spec fn safe_path(p: Seq<char>) -> bool {
    p.len() > 0 && p[0] != '/' && parts_safe(p)
}

fn is_component_char_exec(c: char) -> (b: bool)
    ensures
        b == is_component_char(c),
{
    ('a' <= c && c <= 'z') || ('A' <= c && c <= 'Z') || ('0' <= c && c <= '9') || c == '.' || c
        == '_' || c == '-'
}

fn is_device_name_exec(s: &[char]) -> (b: bool)
    ensures
        b == is_device_name(s@),
{
    let con = ['C', 'O', 'N'];
    let prn = ['P', 'R', 'N'];
    let aux = ['A', 'U', 'X'];
    let nul = ['N', 'U', 'L'];
    if chars_eq(s, &con) || chars_eq(s, &prn) || chars_eq(s, &aux) || chars_eq(s, &nul) {
        assert(con@ =~= seq!['C', 'O', 'N']);
        assert(prn@ =~= seq!['P', 'R', 'N']);
        assert(aux@ =~= seq!['A', 'U', 'X']);
        assert(nul@ =~= seq!['N', 'U', 'L']);
        return true;
    }
    assert(con@ =~= seq!['C', 'O', 'N']);
    assert(prn@ =~= seq!['P', 'R', 'N']);
    assert(aux@ =~= seq!['A', 'U', 'X']);
    assert(nul@ =~= seq!['N', 'U', 'L']);
    if s.len() != 4 {
        return false;
    }
    let com = (s[0] == 'C' && s[1] == 'O' && s[2] == 'M');
    let lpt = (s[0] == 'L' && s[1] == 'P' && s[2] == 'T');
    assert(com == (s@.subrange(0, 3) == seq!['C', 'O', 'M'])) by {
        if com {
            assert(s@.subrange(0, 3) =~= seq!['C', 'O', 'M']);
        }
        if s@.subrange(0, 3) == seq!['C', 'O', 'M'] {
            assert(s@.subrange(0, 3)[0] == 'C');
            assert(s@.subrange(0, 3)[1] == 'O');
            assert(s@.subrange(0, 3)[2] == 'M');
        }
    }
    assert(lpt == (s@.subrange(0, 3) == seq!['L', 'P', 'T'])) by {
        if lpt {
            assert(s@.subrange(0, 3) =~= seq!['L', 'P', 'T']);
        }
        if s@.subrange(0, 3) == seq!['L', 'P', 'T'] {
            assert(s@.subrange(0, 3)[0] == 'L');
            assert(s@.subrange(0, 3)[1] == 'P');
            assert(s@.subrange(0, 3)[2] == 'T');
        }
    }
    (com || lpt) && '1' <= s[3] && s[3] <= '9'
}

/// Whether one path component is safe.
fn safe_path_component(component: &[char]) -> (b: bool)
    ensures
        b == safe_component(component@),
{
    let n = component.len();
    if n == 0 || component[n - 1] == '.' {
        return false;
    }
    let mut i: usize = 0;
    while i < n
        invariant
            i <= n == component@.len(),
            forall|k: int| 0 <= k < i ==> is_component_char(#[trigger] component@[k]),
        decreases n - i,
    {
        if !is_component_char_exec(component[i]) {
            return false;
        }
        i += 1;
    }
    proof {
        lemma_first_index(component@, '.');
    }
    let stem = match find_first(component, '.') {
        Some(k) => sub_vec(component, 0, k),
        None => sub_vec(component, 0, n),
    };
    assert(stem@ == component_stem(component@)) by {
        if first_index(component@, '.') < 0 {
            assert(component@.subrange(0, n as int) =~= component@);
        }
    }
    let upper = to_ascii_uppercase(&stem);
    !is_device_name_exec(&upper)
}

fn parts_all_safe(p: &[char]) -> (b: bool)
    ensures
        b == parts_safe(p@),
    decreases p@.len(),
{
    let n = p.len();
    proof {
        lemma_first_index(p@, '/');
    }
    match find_first(p, '/') {
        None => safe_path_component(p),
        Some(k) => {
            let head = sub_vec(p, 0, k);
            if !safe_path_component(&head) {
                return false;
            }
            let tail = sub_vec(p, k + 1, n);
            parts_all_safe(&tail)
        },
    }
}

fn safe_path_exec(p: &[char]) -> (b: bool)
    ensures
        b == safe_path(p@),
{
    p.len() > 0 && p[0] != '/' && parts_all_safe(p)
}

// ---------------------------------------------------------------------------
// Manifest validation.
// ---------------------------------------------------------------------------

pub open spec fn is_hex_char(c: char) -> bool {
    ('0' <= c && c <= '9') || ('a' <= c && c <= 'f') || ('A' <= c && c <= 'F')
}

/// 64 hexadecimal digits.
pub open spec fn is_hex_sha256(s: Seq<char>) -> bool {
    s.len() == 64 && forall|i: int| 0 <= i < s.len() ==> is_hex_char(#[trigger] s[i])
}

/// The lower-cased paths of a manifest's files.
pub open spec fn lowered_paths(files: Seq<ReleaseFile>) -> Seq<Seq<char>> {
    Seq::new(files.len(), |i: int| lower_seq(files[i].path@))
}

/// The message for the `i`-th file when an earlier file already failed
/// nothing: bad or repeated (ignoring ASCII case) path, too large, or a
/// malformed hash.
pub open spec fn file_fault(files: Seq<ReleaseFile>, i: int) -> Option<Seq<char>> {
    let p = files[i].path@;
    if !safe_path(p) || lowered_paths(files).take(i).contains(lower_seq(p)) {
        Some("file path: "@ + p)
    } else if files[i].size > MAX_FILE_BYTES {
        Some("file too large: "@ + p)
    } else if !is_hex_sha256(files[i].sha256@) {
        Some("file hash: "@ + p)
    } else {
        None
    }
}

/// The message for the first of the first `n` files that fails.
pub open spec fn files_fault(files: Seq<ReleaseFile>, n: int) -> Option<Seq<char>>
    decreases n,
{
    if n <= 0 {
        None
    } else if files_fault(files, n - 1) is Some {
        files_fault(files, n - 1)
    } else {
        file_fault(files, n - 1)
    }
}

proof fn lemma_files_fault_stable(files: Seq<ReleaseFile>, i: int, n: int)
    requires
        0 <= i <= n,
        files_fault(files, i) is Some,
    ensures
        files_fault(files, n) == files_fault(files, i),
    decreases n - i,
{
    if n > i {
        lemma_files_fault_stable(files, i, n - 1);
    }
}

/// The message of the first check that fails before the file/directory
/// check, if any.
pub open spec fn manifest_fault(m: ReleaseManifest) -> Option<Seq<char>> {
    if utf8_len(m.release_id@) > 128 || !safe_component(m.release_id@) {
        Some("release_id"@)
    } else if m.distribution@.len() == 0 || m.target@.len() == 0 {
        Some("distribution/target"@)
    } else if m.files@.len() == 0 {
        Some("files must not be empty"@)
    } else {
        files_fault(m.files@, m.files@.len() as int)
    }
}

/// A path that some listed path also uses as a directory.
pub open spec fn is_conflicting(paths: Seq<Seq<char>>, q: Seq<char>) -> bool {
    exists|k: int| 0 <= k < q.len() && q[k] == '/' && paths.contains(#[trigger] q.subrange(0, k))
}

/// What `validate` answers: `None` for a valid manifest, else the message of
/// its `InvalidEntry` error.  A file/directory conflict is reported for the
/// least conflicting lower-cased path.
pub open spec fn validation_message(m: ReleaseManifest, msg: Option<Seq<char>>) -> bool {
    let paths = lowered_paths(m.files@);
    if manifest_fault(m) is Some {
        msg == manifest_fault(m)
    } else if exists|i: int| 0 <= i < paths.len() && is_conflicting(paths, #[trigger] paths[i]) {
        exists|i: int|
            0 <= i < paths.len() && is_conflicting(paths, #[trigger] paths[i]) && msg == Some(
                "file/directory conflict: "@ + paths[i],
            ) && forall|j: int|
                0 <= j < paths.len() && is_conflicting(paths, #[trigger] paths[j]) ==> !seq_lt(
                    paths[j],
                    paths[i],
                )
    } else {
        msg is None
    }
}

/// A manifest that `validate` accepts.
pub open spec fn is_valid(m: ReleaseManifest) -> bool {
    let paths = lowered_paths(m.files@);
    manifest_fault(m) is None && !exists|i: int|
        0 <= i < paths.len() && is_conflicting(paths, #[trigger] paths[i])
}

/// The message carried by an `InvalidEntry` result.
pub open spec fn entry_message(r: Result<(), UpdateError>) -> Option<Seq<char>> {
    match r {
        Err(UpdateError::InvalidEntry(s)) => Some(s@),
        _ => None,
    }
}

fn message(prefix: &str, detail: &[char]) -> (s: String)
    ensures
        s@ == prefix@ + detail@,
{
    let mut v = chars_of(prefix);
    extend_from(&mut v, detail);
    string_from_chars(&v)
}

fn is_hex_sha256_exec(s: &str) -> (b: bool)
    ensures
        b == is_hex_sha256(s@),
{
    let v = chars_of(s);
    if v.len() != 64 {
        return false;
    }
    let mut i: usize = 0;
    while i < v.len()
        invariant
            i <= v@.len(),
            v@ == s@,
            forall|k: int| 0 <= k < i ==> is_hex_char(#[trigger] v@[k]),
        decreases v.len() - i,
    {
        let c = v[i];
        if !(('0' <= c && c <= '9') || ('a' <= c && c <= 'f') || ('A' <= c && c <= 'F')) {
            return false;
        }
        i += 1;
    }
    true
}

/// Whether `paths` holds `q`.
fn holds_path(paths: &Vec<Vec<char>>, q: &[char]) -> (b: bool)
    ensures
        b == paths@.map_values(|v: Vec<char>| v@).contains(q@),
{
    let ghost views = paths@.map_values(|v: Vec<char>| v@);
    let mut j: usize = 0;
    while j < paths.len()
        invariant
            j <= paths@.len(),
            views == paths@.map_values(|v: Vec<char>| v@),
            forall|k: int| 0 <= k < j ==> views[k] != q@,
        decreases paths.len() - j,
    {
        if chars_eq(&paths[j], q) {
            assert(views[j as int] == q@);
            return true;
        }
        j += 1;
    }
    false
}

/// Whether some prefix of `q` that ends before a `/` is among `paths`.
fn conflicts(paths: &Vec<Vec<char>>, q: &[char]) -> (b: bool)
    ensures
        b == is_conflicting(paths@.map_values(|v: Vec<char>| v@), q@),
{
    let ghost views = paths@.map_values(|v: Vec<char>| v@);
    let mut k: usize = 0;
    while k < q.len()
        invariant
            k <= q@.len(),
            views == paths@.map_values(|v: Vec<char>| v@),
            forall|m: int|
                0 <= m < k && q@[m] == '/' ==> !views.contains(#[trigger] q@.subrange(0, m)),
        decreases q.len() - k,
    {
        if q[k] == '/' {
            let prefix = sub_vec(q, 0, k);
            if holds_path(paths, &prefix) {
                return true;
            }
        }
        k += 1;
    }
    false
}

impl ReleaseManifest {
    /// Checks the manifest's entries: the release id, the distribution and
    /// target, and each file's path, size and hash; no two paths may differ
    /// only in ASCII case, and no path may also serve as a directory.
    pub fn validate(&self) -> (r: Result<(), UpdateError>)
        ensures
            r is Ok <==> is_valid(*self),
            r is Ok || r matches Err(UpdateError::InvalidEntry(_)),
            validation_message(*self, entry_message(r)),
    {
        let id = chars_of(self.release_id.as_str());
        if !safe_path_component(&id) || utf8_byte_len(&id) > 128 {
            return Err(UpdateError::InvalidEntry(message("release_id", &[])));
        }
        let dist = chars_of(self.distribution.as_str());
        let target = chars_of(self.target.as_str());
        if dist.len() == 0 || target.len() == 0 {
            return Err(UpdateError::InvalidEntry(message("distribution/target", &[])));
        }
        if self.files.len() == 0 {
            return Err(UpdateError::InvalidEntry(message("files must not be empty", &[])));
        }
        let ghost files = self.files@;
        let mut seen: Vec<Vec<char>> = Vec::new();
        let mut i: usize = 0;
        while i < self.files.len()
            invariant
                i <= files.len(),
                files == self.files@,
                manifest_fault(*self) == files_fault(files, files.len() as int),
                files_fault(files, i as int) is None,
                seen@.map_values(|v: Vec<char>| v@) == lowered_paths(files).take(i as int),
            decreases files.len() - i,
        {
            let file = &self.files[i];
            let path = chars_of(file.path.as_str());
            let low = to_ascii_lowercase(&path);
            assert(files_fault(files, i + 1) == file_fault(files, i as int));
            if !safe_path_exec(&path) || holds_path(&seen, &low) {
                proof {
                    lemma_files_fault_stable(files, i + 1, files.len() as int);
                }
                return Err(UpdateError::InvalidEntry(message("file path: ", &path)));
            }
            if file.size > MAX_FILE_BYTES {
                proof {
                    lemma_files_fault_stable(files, i + 1, files.len() as int);
                }
                return Err(UpdateError::InvalidEntry(message("file too large: ", &path)));
            }
            if !is_hex_sha256_exec(file.sha256.as_str()) {
                proof {
                    lemma_files_fault_stable(files, i + 1, files.len() as int);
                }
                return Err(UpdateError::InvalidEntry(message("file hash: ", &path)));
            }
            let ghost before = seen@;
            seen.push(low);
            assert(path@ == files[i as int].path@);
            assert(lowered_paths(files).take(i + 1) =~= lowered_paths(files).take(i as int).push(
                lower_seq(files[i as int].path@),
            ));
            assert(seen@.map_values(|v: Vec<char>| v@) =~= before.map_values(|v: Vec<char>| v@).push(
                low@,
            ));
            i += 1;
        }
        let ghost paths = lowered_paths(files);
        assert(seen@.map_values(|v: Vec<char>| v@) =~= paths);
        let mut best: Option<usize> = None;
        let mut k: usize = 0;
        while k < seen.len()
            invariant
                k <= seen@.len() == paths.len(),
                seen@.map_values(|v: Vec<char>| v@) == paths,
                best matches Some(b) ==> b < k && is_conflicting(paths, paths[b as int]),
                best matches Some(b) ==> forall|j: int|
                    0 <= j < k && is_conflicting(paths, #[trigger] paths[j]) ==> !seq_lt(
                        paths[j],
                        paths[b as int],
                    ),
                best is None ==> forall|j: int|
                    0 <= j < k ==> !is_conflicting(paths, #[trigger] paths[j]),
            decreases seen.len() - k,
        {
            assert(seen@[k as int]@ == paths[k as int]);
            if conflicts(&seen, &seen[k]) {
                let replace = match best {
                    None => true,
                    Some(b) => chars_lt(&seen[k], &seen[b]),
                };
                if replace {
                    proof {
                        if let Some(b) = best {
                            assert forall|j: int|
                                0 <= j < k && is_conflicting(paths, #[trigger] paths[j]) implies !seq_lt(
                                paths[j],
                                paths[k as int],
                            ) by {
                                if seq_lt(paths[j], paths[k as int]) {
                                    lemma_seq_lt_transitive(paths[j], paths[k as int], paths[b as int]);
                                }
                            }
                        }
                        crate::text::lemma_seq_lt_irreflexive(paths[k as int]);
                    }
                    best = Some(k);
                } else {
                    assert(seen@[best->0 as int]@ == paths[best->0 as int]);
                }
            }
            k += 1;
        }
        match best {
            Some(b) => {
                assert(seen@[b as int]@ == paths[b as int]);
                Err(UpdateError::InvalidEntry(message("file/directory conflict: ", &seen[b])))
            },
            None => Ok(()),
        }
    }

    /// Checks that this release may replace the installed one: valid, for
    /// this distribution and target, within this API version, and newer.
    /// A valid signature alone does not make a release usable here.
    pub fn check_compatibility(
        &self,
        distribution: &str,
        target: &str,
        api_version: u16,
        current_revision: u64,
    ) -> (r: Result<(), UpdateError>)
        ensures
            !is_valid(*self) ==> (r matches Err(UpdateError::InvalidEntry(_)) && validation_message(
                *self,
                entry_message(r),
            )),
            is_valid(*self) ==> match incompatibility(
                *self,
                distribution@,
                target@,
                api_version,
                current_revision,
            ) {
                Some(why) => r matches Err(UpdateError::IncompatibleRelease(s)) && s@ == why,
                None => r is Ok,
            },
            is_valid(*self) && self.distribution@ == distribution@ && self.target@ == target@
                && self.revision > current_revision ==> (r is Ok <==> self.min_api_version
                <= api_version),
    {
        match self.validate() {
            Ok(()) => {},
            Err(e) => return Err(e),
        }
        if !crate::text::str_eq(self.distribution.as_str(), distribution) {
            return Err(UpdateError::IncompatibleRelease("distribution"));
        }
        if !crate::text::str_eq(self.target.as_str(), target) {
            return Err(UpdateError::IncompatibleRelease("target"));
        }
        if self.min_api_version > api_version {
            return Err(UpdateError::IncompatibleRelease("API version"));
        }
        if self.revision <= current_revision {
            return Err(UpdateError::IncompatibleRelease("revision is not newer"));
        }
        Ok(())
    }
}

/// Why a valid release may not be installed here, if it may not.
pub open spec fn incompatibility(
    m: ReleaseManifest,
    distribution: Seq<char>,
    target: Seq<char>,
    api_version: u16,
    current_revision: u64,
) -> Option<Seq<char>> {
    if m.distribution@ != distribution {
        Some("distribution"@)
    } else if m.target@ != target {
        Some("target"@)
    } else if m.min_api_version > api_version {
        Some("API version"@)
    } else if m.revision <= current_revision {
        Some("revision is not newer"@)
    } else {
        None
    }
}

/// A valid release may be installed exactly when it is for this
/// distribution and target, asks for no newer API version than the app
/// has, and is newer than the installed revision.  So an app with a newer
/// API version accepts every release an older one accepts.
pub proof fn compatible_releases(
    m: ReleaseManifest,
    distribution: Seq<char>,
    target: Seq<char>,
    api_version: u16,
    newer_api_version: u16,
    current_revision: u64,
)
    requires
        api_version <= newer_api_version,
    ensures
        incompatibility(m, distribution, target, api_version, current_revision) is None <==> (
        m.distribution@ == distribution && m.target@ == target && m.min_api_version <= api_version
            && m.revision > current_revision),
        incompatibility(m, distribution, target, api_version, current_revision) is None
            ==> incompatibility(m, distribution, target, newer_api_version, current_revision) is None,
{
}

// ---------------------------------------------------------------------------
// Signature, digests and downloaded files.
// ---------------------------------------------------------------------------

/// A SHA-256 digest.
pub type Digest32 = [u8; 32];

/// The SHA-256 digest of `bytes`.
pub uninterp spec fn sha256(bytes: Seq<u8>) -> Digest32;

/// Whether `signature` (64 bytes, r then s) is a valid ECDSA P-256 / SHA-256
/// signature of `message` under the SEC1-encoded public key.  One name for
/// the whole check, which takes three calls of the `p256` crate: parsing the
/// key, parsing the signature, and verifying; it is false when either does
/// not parse.
pub uninterp spec fn p256_signature_valid(
    public_key_sec1: Seq<u8>,
    message: Seq<u8>,
    signature: Seq<u8>,
) -> bool;

/// `sha2::Sha256::digest`.  Claimed: the digest is `sha256(bytes)`.
#[verifier::external_body]
fn sha256_digest(bytes: &[u8]) -> (d: Digest32)
    ensures
        d == sha256(bytes@),
{
    Sha256::digest(bytes).into()
}

/// ECDSA verification through the `p256` crate: the key is parsed with
/// `VerifyingKey::from_sec1_bytes`, the signature with
/// `Signature::from_slice`, and `Verifier::verify` checks it.  Claimed: the
/// answer is `p256_signature_valid(key, message, signature)`, false when
/// either does not parse.
#[verifier::external_body]
fn p256_verify(public_key_sec1: &[u8], message: &[u8], signature_rs: &[u8]) -> (ok: bool)
    ensures
        ok == p256_signature_valid(public_key_sec1@, message@, signature_rs@),
{
    let key = match VerifyingKey::from_sec1_bytes(public_key_sec1) {
        Ok(k) => k,
        Err(_) => return false,
    };
    let signature = match Signature::from_slice(signature_rs) {
        Ok(s) => s,
        Err(_) => return false,
    };
    key.verify(message, &signature).is_ok()
}

/// The lowercase hexadecimal digit for `n < 16`.
pub open spec fn hex_digit(n: nat) -> char {
    if n < 10 {
        ((48 + n) as u32) as char
    } else {
        ((87 + n) as u32) as char
    }
}

/// Lowercase hexadecimal spelling of a byte string, two digits a byte.
pub open spec fn hex_lower(bytes: Seq<u8>) -> Seq<char>
    decreases bytes.len(),
{
    if bytes.len() == 0 {
        Seq::empty()
    } else {
        hex_lower(bytes.drop_last()) + seq![
            hex_digit((bytes.last() / 16) as nat),
            hex_digit((bytes.last() % 16) as nat),
        ]
    }
}

fn hex_digit_exec(n: u8) -> (c: char)
    requires
        n < 16,
    ensures
        c == hex_digit(n as nat),
{
    if n < 10 {
        (48 + n) as char
    } else {
        (87 + n) as char
    }
}

/// Lowercase hexadecimal SHA-256 of `bytes`.
pub fn hex_digest(bytes: &[u8]) -> (s: String)
    ensures
        s@ == hex_lower(sha256(bytes@)@),
{
    let d = sha256_digest(bytes);
    let mut out: Vec<char> = Vec::new();
    let mut i: usize = 0;
    while i < 32
        invariant
            i <= 32,
            d@.len() == 32,
            out@ == hex_lower(d@.take(i as int)),
        decreases 32 - i,
    {
        let b = d[i];
        out.push(hex_digit_exec(b / 16));
        out.push(hex_digit_exec(b % 16));
        assert(d@.take(i + 1).drop_last() =~= d@.take(i as int));
        assert(out@ =~= hex_lower(d@.take(i + 1)));
        i += 1;
    }
    assert(d@.take(32) =~= d@);
    string_from_chars(&out)
}

/// `str::eq_ignore_ascii_case`.
pub open spec fn eq_ignore_ascii_case(a: Seq<char>, b: Seq<char>) -> bool {
    lower_seq(a) == lower_seq(b)
}

/// Checks the exact manifest bytes against their signature, before they are
/// parsed: size, signature length, then the signature itself.
pub fn verify_manifest_signature(
    public_key_sec1: &[u8],
    manifest_bytes: &[u8],
    signature_rs: &[u8],
) -> (r: Result<(), UpdateError>)
    ensures
        manifest_bytes@.len() > MAX_MANIFEST_BYTES ==> r matches Err(UpdateError::ManifestTooLarge),
        manifest_bytes@.len() <= MAX_MANIFEST_BYTES && signature_rs@.len() != SIGNATURE_LEN ==> r matches Err(
            UpdateError::InvalidSignatureLength,
        ),
        manifest_bytes@.len() <= MAX_MANIFEST_BYTES && signature_rs@.len() == SIGNATURE_LEN ==> (r is Ok
            <==> p256_signature_valid(public_key_sec1@, manifest_bytes@, signature_rs@)),
        r is Err ==> r matches Err(UpdateError::ManifestTooLarge) || r matches Err(
            UpdateError::InvalidSignatureLength,
        ) || r matches Err(UpdateError::InvalidSignature),
{
    if manifest_bytes.len() > MAX_MANIFEST_BYTES {
        return Err(UpdateError::ManifestTooLarge);
    }
    if signature_rs.len() != SIGNATURE_LEN {
        return Err(UpdateError::InvalidSignatureLength);
    }
    if !p256_verify(public_key_sec1, manifest_bytes, signature_rs) {
        return Err(UpdateError::InvalidSignature);
    }
    Ok(())
}

/// What the check of one downloaded file finds.
pub enum FileCheck {
    Unlisted,
    SizeMismatch { expected: u64, actual: u64 },
    HashMismatch,
    Duplicate,
    Fine,
}

/// Whether `p` is the path of a listed file.
pub open spec fn is_listed(files: Seq<ReleaseFile>, p: Seq<char>) -> bool {
    exists|i: int| 0 <= i < files.len() && #[trigger] files[i].path@ == p
}

/// The listed file with path `p`.
pub open spec fn listed_file(files: Seq<ReleaseFile>, p: Seq<char>) -> ReleaseFile {
    files[choose|i: int| 0 <= i < files.len() && #[trigger] files[i].path@ == p]
}

/// The check of the `k`-th downloaded file: listed, of the listed size,
/// with the listed hash (ignoring ASCII case), and not given before.
pub open spec fn given_check(
    files: Seq<ReleaseFile>,
    given: Seq<(&str, &[u8])>,
    k: int,
) -> FileCheck {
    let p = given[k].0@;
    let b = given[k].1@;
    if !is_listed(files, p) {
        FileCheck::Unlisted
    } else if b.len() != listed_file(files, p).size {
        FileCheck::SizeMismatch { expected: listed_file(files, p).size, actual: b.len() as u64 }
    } else if !eq_ignore_ascii_case(hex_lower(sha256(b)@), listed_file(files, p).sha256@) {
        FileCheck::HashMismatch
    } else if exists|j: int| 0 <= j < k && #[trigger] given[j].0@ == p {
        FileCheck::Duplicate
    } else {
        FileCheck::Fine
    }
}

/// The error a check reports for a file at `path`.
pub open spec fn reports(r: Result<(), UpdateError>, c: FileCheck, path: Seq<char>) -> bool {
    match c {
        FileCheck::Unlisted => r matches Err(UpdateError::InvalidEntry(s)) && s@ == "unlisted file: "@
            + path,
        FileCheck::SizeMismatch { expected, actual } => r matches Err(
            UpdateError::SizeMismatch { path: p, expected: e, actual: a },
        ) && p@ == path && e == expected && a == actual,
        FileCheck::HashMismatch => r matches Err(UpdateError::HashMismatch { path: p }) && p@ == path,
        FileCheck::Duplicate => r matches Err(UpdateError::InvalidEntry(s)) && s@ == "duplicate file: "@
            + path,
        FileCheck::Fine => r is Ok,
    }
}

/// Listed paths are distinct in a valid manifest.
proof fn lemma_valid_paths_distinct(m: ReleaseManifest, i: int, j: int)
    requires
        is_valid(m),
        0 <= i < j < m.files@.len(),
    ensures
        m.files@[i].path@ != m.files@[j].path@,
{
    let files = m.files@;
    lemma_files_fault_prefix(files, j + 1, files.len() as int);
    assert(files_fault(files, j + 1) is None);
    assert(file_fault(files, j) is None);
    assert(lowered_paths(files).take(j)[i] == lower_seq(files[i].path@));
}

proof fn lemma_files_fault_prefix(files: Seq<ReleaseFile>, i: int, n: int)
    requires
        0 <= i <= n,
        files_fault(files, n) is None,
    ensures
        files_fault(files, i) is None,
    decreases n - i,
{
    if n > i {
        lemma_files_fault_prefix(files, i, n - 1);
    }
}

/// Index of the listed file with path `p`, if there is one.
fn find_listed(files: &Vec<ReleaseFile>, p: &str) -> (r: Option<usize>)
    ensures
        r is None <==> !is_listed(files@, p@),
        r matches Some(i) ==> i < files@.len() && files@[i as int].path@ == p@,
{
    let mut i: usize = 0;
    while i < files.len()
        invariant
            i <= files@.len(),
            forall|k: int| 0 <= k < i ==> files@[k].path@ != p@,
        decreases files.len() - i,
    {
        if crate::text::str_eq(files[i].path.as_str(), p) {
            return Some(i);
        }
        i += 1;
    }
    None
}

/// Whether `p` is among the paths of the first `k` given files.
fn given_before(given: &[(&str, &[u8])], k: usize, p: &str) -> (b: bool)
    requires
        k <= given@.len(),
    ensures
        b == exists|j: int| 0 <= j < k && #[trigger] given@[j].0@ == p@,
{
    let mut j: usize = 0;
    while j < k
        invariant
            j <= k <= given@.len(),
            forall|m: int| 0 <= m < j ==> given@[m].0@ != p@,
        decreases k - j,
    {
        if crate::text::str_eq(given[j].0, p) {
            return true;
        }
        j += 1;
    }
    false
}

/// Checks downloaded files against a manifest: each given file must be
/// listed, of the listed size and hash, and given once; and every listed
/// file must be given.
pub fn verify_files(manifest: &ReleaseManifest, files: &[(&str, &[u8])]) -> (r: Result<
    (),
    UpdateError,
>)
    ensures
        !is_valid(*manifest) ==> (r matches Err(UpdateError::InvalidEntry(_)) && validation_message(
            *manifest,
            entry_message(r),
        )),
        is_valid(*manifest) ==> match first_failed_check(manifest.files@, files@, files@.len() as int) {
            Some(k) => reports(r, given_check(manifest.files@, files@, k), files@[k].0@),
            None => if files@.len() != manifest.files@.len() {
                r matches Err(UpdateError::InvalidEntry(s)) && s@ == "manifest file is missing"@
            } else {
                r is Ok
            },
        },
        r is Ok ==> all_files_given(manifest.files@, files@),
{
    match manifest.validate() {
        Ok(()) => {},
        Err(e) => return Err(e),
    }
    let ghost listed = manifest.files@;
    let mut k: usize = 0;
    while k < files.len()
        invariant
            k <= files@.len(),
            listed == manifest.files@,
            is_valid(*manifest),
            first_failed_check(listed, files@, k as int) is None,
        decreases files.len() - k,
    {
        let (path, bytes) = files[k];
        assert(first_failed_check(listed, files@, k + 1) == if given_check(listed, files@, k as int) is Fine {
            None::<int>
        } else {
            Some(k as int)
        });
        let i = match find_listed(&manifest.files, path) {
            Some(i) => i,
            None => {
                proof {
                    lemma_first_failed_stable(listed, files@, k + 1, files@.len() as int);
                }
                return Err(UpdateError::InvalidEntry(message("unlisted file: ", &chars_of(path))));
            },
        };
        let file = &manifest.files[i];
        assert(listed_file(listed, path@) == listed[i as int]) by {
            let c = choose|c: int| 0 <= c < listed.len() && #[trigger] listed[c].path@ == path@;
            if c != i as int {
                if c < i {
                    lemma_valid_paths_distinct(*manifest, c, i as int);
                } else {
                    lemma_valid_paths_distinct(*manifest, i as int, c);
                }
            }
        }
        let actual_size = bytes.len() as u64;
        if actual_size != file.size {
            proof {
                lemma_first_failed_stable(listed, files@, k + 1, files@.len() as int);
            }
            return Err(
                UpdateError::SizeMismatch {
                    path: string_from_chars(&chars_of(path)),
                    expected: file.size,
                    actual: actual_size,
                },
            );
        }
        let digest = chars_of(hex_digest(bytes).as_str());
        let expected = chars_of(file.sha256.as_str());
        if !chars_eq(&to_ascii_lowercase(&digest), &to_ascii_lowercase(&expected)) {
            proof {
                lemma_first_failed_stable(listed, files@, k + 1, files@.len() as int);
            }
            return Err(UpdateError::HashMismatch { path: string_from_chars(&chars_of(path)) });
        }
        if given_before(files, k, path) {
            proof {
                lemma_first_failed_stable(listed, files@, k + 1, files@.len() as int);
            }
            return Err(UpdateError::InvalidEntry(message("duplicate file: ", &chars_of(path))));
        }
        k += 1;
    }
    if files.len() != manifest.files.len() {
        return Err(UpdateError::InvalidEntry(message("manifest file is missing", &[])));
    }
    proof {
        lemma_all_files_given(*manifest, files@);
    }
    Ok(())
}

/// Every listed file is among the given ones, with its listed size and hash.
pub open spec fn all_files_given(files: Seq<ReleaseFile>, given: Seq<(&str, &[u8])>) -> bool {
    forall|i: int|
        0 <= i < files.len() ==> exists|k: int|
            0 <= k < given.len() && #[trigger] given[k].0@ == #[trigger] files[i].path@
                && given[k].1@.len() == files[i].size && eq_ignore_ascii_case(
                hex_lower(sha256(given[k].1@)@),
                files[i].sha256@,
            )
}

proof fn lemma_checks_fine(files: Seq<ReleaseFile>, given: Seq<(&str, &[u8])>, n: int, k: int)
    requires
        0 <= k < n,
        first_failed_check(files, given, n) is None,
    ensures
        given_check(files, given, k) is Fine,
    decreases n,
{
    if k < n - 1 {
        lemma_checks_fine(files, given, n - 1, k);
    }
}

/// Once every given file passed and as many were given as are listed, each
/// listed file was given: the given paths are distinct listed paths, so
/// they cover all of them.
proof fn lemma_all_files_given(m: ReleaseManifest, given: Seq<(&str, &[u8])>)
    requires
        is_valid(m),
        first_failed_check(m.files@, given, given.len() as int) is None,
        given.len() == m.files@.len(),
    ensures
        all_files_given(m.files@, given),
{
    let files = m.files@;
    let n = files.len() as int;
    let idx = |k: int| choose|i: int| 0 <= i < files.len() && #[trigger] files[i].path@ == given[k].0@;
    let range = vstd::set_lib::set_int_range(0, n);
    vstd::set_lib::lemma_int_range(0, n);
    assert forall|k: int| 0 <= k < n implies 0 <= #[trigger] idx(k) < n && files[idx(k)].path@
        == given[k].0@ by {
        lemma_checks_fine(files, given, n, k);
    }
    assert(vstd::relations::injective_on(idx, range)) by {
        assert forall|a: int, b: int|
            range.contains(a) && range.contains(b) && #[trigger] idx(a) == #[trigger] idx(b) implies a
            == b by {
            lemma_checks_fine(files, given, n, a);
            lemma_checks_fine(files, given, n, b);
            if a < b {
                assert(given[a].0@ == given[b].0@);
            } else if b < a {
                assert(given[b].0@ == given[a].0@);
            }
        }
    }
    let image = range.map(idx);
    vstd::set_lib::lemma_map_size(range, image, idx);
    assert(image.subset_of(range)) by {
        assert forall|i: int| image.contains(i) implies range.contains(i) by {
            let k = choose|k: int| range.contains(k) && idx(k) == i;
        }
    }
    vstd::set_lib::lemma_subset_equality(image, range);
    assert forall|i: int| 0 <= i < files.len() implies exists|k: int|
        0 <= k < given.len() && #[trigger] given[k].0@ == #[trigger] files[i].path@
            && given[k].1@.len() == files[i].size && eq_ignore_ascii_case(
            hex_lower(sha256(given[k].1@)@),
            files[i].sha256@,
        ) by {
        assert(range.contains(i));
        assert(image.contains(i));
        let k = choose|k: int| range.contains(k) && idx(k) == i;
        lemma_checks_fine(files, given, n, k);
        assert(listed_file(files, given[k].0@) == files[i]) by {
            let c = choose|c: int| 0 <= c < files.len() && #[trigger] files[c].path@ == given[k].0@;
            if c < i {
                lemma_valid_paths_distinct(m, c, i);
            } else if i < c {
                lemma_valid_paths_distinct(m, i, c);
            }
        }
    }
}

/// Index of the first of the first `n` given files whose check fails.
pub open spec fn first_failed_check(
    files: Seq<ReleaseFile>,
    given: Seq<(&str, &[u8])>,
    n: int,
) -> Option<int>
    decreases n,
{
    if n <= 0 {
        None
    } else if first_failed_check(files, given, n - 1) is Some {
        first_failed_check(files, given, n - 1)
    } else if given_check(files, given, n - 1) is Fine {
        None
    } else {
        Some(n - 1)
    }
}

proof fn lemma_first_failed_stable(
    files: Seq<ReleaseFile>,
    given: Seq<(&str, &[u8])>,
    i: int,
    n: int,
)
    requires
        0 <= i <= n,
        first_failed_check(files, given, i) is Some,
    ensures
        first_failed_check(files, given, n) == first_failed_check(files, given, i),
    decreases n - i,
{
    if n > i {
        lemma_first_failed_stable(files, given, i, n - 1);
    }
}

} // verus!
