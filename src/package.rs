//! The signed manifest, sealed blobs, and the steps of opening, changing,
//! creating, exporting and importing a brain.

use vstd::prelude::*;
use vstd::utf8::encode_utf8;
use crate::crypto::{
    aead_open, aead_seal, argon2_derive, argon2id_key, new_uuid, now_rfc3339, random_bytes,
    xchacha_opened, xchacha_sealed, sealable, base64_decode, base64_decoded, base64_encode, base64_of, ed25519_check, ed25519_public,
    ed25519_public_key, ed25519_sign, ed25519_verifies, hex_of, json_quote, json_quoted,
    sha256_hex, sha256_of,
};
use crate::brain::{StoreError, strs};
use crate::store::{BrainStore, BrainSummary};
use crate::text::{chars_of, string_of};
use crate::text::push_char;

verus! {

/// The signed, plaintext metadata of one brain.
#[derive(Debug, Clone)]
pub struct BrainManifest {
    pub format_version: String,
    pub brain_id: String,
    pub name: String,
    pub tenant_id: String,
    pub created_at: String,
    pub updated_at: String,
    pub rmvm_proto_version: String,
    pub schema_migrations: Vec<String>,
    pub active_branch: String,
    pub kdf_salt_b64: String,
    pub signing_public_key_b64: String,
    pub state_sha256: String,
    pub secret_env_var: String,
    pub signature_b64: String,
}

/// A sealed payload: its nonce and ciphertext in base64.
#[derive(Debug, Clone)]
pub struct EncryptedBlob {
    pub nonce_b64: String,
    pub ciphertext_b64: String,
}

/// `"key":value` of a JSON object.
pub open spec fn member_text(key: Seq<char>, value: Seq<char>) -> Seq<char> {
    json_quoted(key) + seq![':'] + value
}

/// The JSON array of the strings `v`.
pub open spec fn quoted_items(v: Seq<Seq<char>>) -> Seq<char>
    decreases v.len(),
{
    if v.len() == 0 {
        seq![]
    } else if v.len() == 1 {
        json_quoted(v[0])
    } else {
        quoted_items(v.drop_last()) + seq![','] + json_quoted(v.last())
    }
}

/// The compact JSON text of a manifest whose signature field holds `sig`.
pub open spec fn manifest_text(m: BrainManifest, sig: Seq<char>) -> Seq<char> {
    seq!['{'] + member_text("format_version"@, json_quoted(m.format_version@)) + seq![',']
        + member_text("brain_id"@, json_quoted(m.brain_id@)) + seq![','] + member_text(
        "name"@,
        json_quoted(m.name@),
    ) + seq![','] + member_text("tenant_id"@, json_quoted(m.tenant_id@)) + seq![',']
        + member_text("created_at"@, json_quoted(m.created_at@)) + seq![','] + member_text(
        "updated_at"@,
        json_quoted(m.updated_at@),
    ) + seq![','] + member_text("rmvm_proto_version"@, json_quoted(m.rmvm_proto_version@))
        + seq![','] + member_text(
        "schema_migrations"@,
        seq!['['] + quoted_items(strs(m.schema_migrations@)) + seq![']'],
    ) + seq![','] + member_text("active_branch"@, json_quoted(m.active_branch@)) + seq![',']
        + member_text("kdf_salt_b64"@, json_quoted(m.kdf_salt_b64@)) + seq![','] + member_text(
        "signing_public_key_b64"@,
        json_quoted(m.signing_public_key_b64@),
    ) + seq![','] + member_text("state_sha256"@, json_quoted(m.state_sha256@)) + seq![',']
        + member_text("secret_env_var"@, json_quoted(m.secret_env_var@)) + seq![','] + member_text(
        "signature_b64"@,
        json_quoted(sig),
    ) + seq!['}']
}

/// The bytes that are signed: the manifest with its signature cleared.
pub open spec fn signing_payload(m: BrainManifest) -> Seq<u8> {
    encode_utf8(manifest_text(m, seq![]))
}

/// The manifest's signature verifies against its embedded public key.
pub open spec fn signature_ok(m: BrainManifest) -> bool {
    match (base64_decoded(m.signing_public_key_b64@), base64_decoded(m.signature_b64@)) {
        (Some(pk), Some(sig)) => pk.len() == 32 && sig.len() == 64 && ed25519_verifies(
            pk,
            signing_payload(m),
            sig,
        ),
        _ => false,
    }
}

/// The compact JSON text of a blob.
pub open spec fn blob_text(b: EncryptedBlob) -> Seq<char> {
    seq!['{'] + member_text("nonce_b64"@, json_quoted(b.nonce_b64@)) + seq![','] + member_text(
        "ciphertext_b64"@,
        json_quoted(b.ciphertext_b64@),
    ) + seq!['}']
}

/// The hex SHA-256 of a blob's text, as the manifest records it.
pub open spec fn blob_digest_of(b: EncryptedBlob) -> Seq<char> {
    hex_of(sha256_of(encode_utf8(blob_text(b))))
}

fn append_member(out: &mut String, key: &str, value: &str)
    ensures
        final(out)@ == old(out)@ + member_text(key@, value@),
{
    out.append(json_quote(key).as_str());
    push_char(out, ':');
    out.append(value);
    assert(final(out)@ =~= old(out)@ + member_text(key@, value@));
}

fn append_quoted_member(out: &mut String, key: &str, value: &str)
    ensures
        final(out)@ == old(out)@ + member_text(key@, json_quoted(value@)),
{
    append_member(out, key, json_quote(value).as_str());
}

fn quoted_array(v: &Vec<String>) -> (r: String)
    ensures
        r@ == seq!['['] + quoted_items(strs(v@)) + seq![']'],
{
    let mut out = String::new();
    push_char(&mut out, '[');
    let mut i: usize = 0;
    while i < v.len()
        invariant
            i <= v@.len(),
            out@ == seq!['['] + quoted_items(strs(v@.subrange(0, i as int))),
        decreases v.len() - i,
    {
        if i > 0 {
            push_char(&mut out, ',');
        }
        out.append(json_quote(v[i].as_str()).as_str());
        proof {
            let pre = strs(v@.subrange(0, i as int));
            let post = strs(v@.subrange(0, i + 1));
            assert(post.drop_last() =~= pre);
            assert(post.last() == v@[i as int]@);
            if i == 0 {
                assert(post.len() == 1);
            }
        }
        assert(out@ =~= seq!['['] + quoted_items(strs(v@.subrange(0, i + 1))));
        i += 1;
    }
    push_char(&mut out, ']');
    assert(v@.subrange(0, i as int) =~= v@);
    out
}

/// The text of `m` with `sig` in its signature field.
pub fn manifest_json(m: &BrainManifest, sig: &str) -> (r: String)
    ensures
        r@ == manifest_text(*m, sig@),
{
    let mut out = String::new();
    push_char(&mut out, '{');
    append_quoted_member(&mut out, "format_version", m.format_version.as_str());
    push_char(&mut out, ',');
    append_quoted_member(&mut out, "brain_id", m.brain_id.as_str());
    push_char(&mut out, ',');
    append_quoted_member(&mut out, "name", m.name.as_str());
    push_char(&mut out, ',');
    append_quoted_member(&mut out, "tenant_id", m.tenant_id.as_str());
    push_char(&mut out, ',');
    append_quoted_member(&mut out, "created_at", m.created_at.as_str());
    push_char(&mut out, ',');
    append_quoted_member(&mut out, "updated_at", m.updated_at.as_str());
    push_char(&mut out, ',');
    append_quoted_member(&mut out, "rmvm_proto_version", m.rmvm_proto_version.as_str());
    push_char(&mut out, ',');
    append_member(&mut out, "schema_migrations", quoted_array(&m.schema_migrations).as_str());
    push_char(&mut out, ',');
    append_quoted_member(&mut out, "active_branch", m.active_branch.as_str());
    push_char(&mut out, ',');
    append_quoted_member(&mut out, "kdf_salt_b64", m.kdf_salt_b64.as_str());
    push_char(&mut out, ',');
    append_quoted_member(&mut out, "signing_public_key_b64", m.signing_public_key_b64.as_str());
    push_char(&mut out, ',');
    append_quoted_member(&mut out, "state_sha256", m.state_sha256.as_str());
    push_char(&mut out, ',');
    append_quoted_member(&mut out, "secret_env_var", m.secret_env_var.as_str());
    push_char(&mut out, ',');
    append_quoted_member(&mut out, "signature_b64", sig);
    push_char(&mut out, '}');
    assert(out@ =~= manifest_text(*m, sig@));
    out
}

/// The bytes that the manifest's signature covers.
pub fn manifest_signing_payload(m: &BrainManifest) -> (r: Vec<u8>)
    ensures
        r@ == signing_payload(*m),
{
    let text = manifest_json(m, "");
    proof {
        reveal_strlit("");
    }
    assert(""@ =~= Seq::<char>::empty());
    text.as_str().as_bytes_vec()
}

/// Checks the manifest's signature against its embedded public key.
pub fn verify_manifest_signature(m: &BrainManifest) -> (r: Result<(), StoreError>)
    ensures
        r.is_ok() <==> signature_ok(*m),
        r matches Err(e) ==> e == StoreError::SignatureInvalid,
{
    let pk = match base64_decode(m.signing_public_key_b64.as_str()) {
        Some(k) => k,
        None => {
            return Err(StoreError::SignatureInvalid);
        },
    };
    let sig = match base64_decode(m.signature_b64.as_str()) {
        Some(s) => s,
        None => {
            return Err(StoreError::SignatureInvalid);
        },
    };
    if pk.len() != 32 || sig.len() != 64 {
        return Err(StoreError::SignatureInvalid);
    }
    let payload = manifest_signing_payload(m);
    if ed25519_check(pk.as_slice(), payload.as_slice(), sig.as_slice()) {
        Ok(())
    } else {
        Err(StoreError::SignatureInvalid)
    }
}

/// Signs the manifest with a 32-byte secret seed. When the manifest embeds
/// the seed's public key, the signature verifies against it.
pub fn sign_manifest(m: &BrainManifest, seed: &[u8]) -> (r: String)
    requires
        seed@.len() == 32,
    ensures
        r@ == base64_of(crate::crypto::ed25519_signature(seed@, signing_payload(*m))),
        base64_decoded(m.signing_public_key_b64@) == Some(ed25519_public(seed@)) && ed25519_public(
            seed@,
        ).len() == 32 ==> signature_ok(
            BrainManifest { signature_b64: r, ..*m },
        ),
{
    let payload = manifest_signing_payload(m);
    let sig = ed25519_sign(seed, payload.as_slice());
    let r = base64_encode(sig.as_slice());
    proof {
        let signed = BrainManifest { signature_b64: r, ..*m };
        assert(manifest_text(signed, seq![]) == manifest_text(*m, seq![]));
    }
    r
}

/// The hex SHA-256 of a blob's canonical text.
pub fn blob_digest(b: &EncryptedBlob) -> (r: String)
    ensures
        r@ == blob_digest_of(*b),
{
    let mut text = String::new();
    push_char(&mut text, '{');
    append_quoted_member(&mut text, "nonce_b64", b.nonce_b64.as_str());
    push_char(&mut text, ',');
    append_quoted_member(&mut text, "ciphertext_b64", b.ciphertext_b64.as_str());
    push_char(&mut text, '}');
    assert(text@ =~= blob_text(*b));
    sha256_hex(text.as_str().as_bytes())
}

/// What a blob opens to under `key`, bound to `aad`: `None` when its text
/// does not decode, its nonce is not 24 bytes, or authentication fails.
pub open spec fn blob_opened(key: Seq<u8>, aad: Seq<u8>, b: EncryptedBlob) -> Option<Seq<u8>> {
    match (base64_decoded(b.nonce_b64@), base64_decoded(b.ciphertext_b64@)) {
        (Some(n), Some(c)) => if n.len() == 24 {
            xchacha_opened(key, n, aad, c)
        } else {
            None
        },
        _ => None,
    }
}

/// Seals `plain` under `key` with a fresh random nonce, bound to `aad`.
pub fn seal_bytes(key: &[u8], aad: &[u8], plain: &[u8]) -> (r: Result<EncryptedBlob, StoreError>)
    requires
        key@.len() == 32,
    ensures
        sealable(plain@.len()) ==> r.is_ok(),
        r matches Ok(b) ==> blob_opened(key@, aad@, b) == Some(plain@),
        r matches Err(e) ==> e == StoreError::EncryptionFailed && exists|n: Seq<u8>|
            n.len() == 24 && xchacha_sealed(key@, n, aad@, plain@).is_none(),
{
    let nonce = random_bytes(24);
    let sealed = match aead_seal(key, nonce.as_slice(), aad, plain) {
        Some(c) => c,
        None => {
            return Err(StoreError::EncryptionFailed);
        },
    };
    Ok(EncryptedBlob {
        nonce_b64: base64_encode(nonce.as_slice()),
        ciphertext_b64: base64_encode(sealed.as_slice()),
    })
}

/// Opens a blob under `key`, bound to `aad`.
pub fn open_bytes(key: &[u8], aad: &[u8], b: &EncryptedBlob) -> (r: Result<Vec<u8>, StoreError>)
    requires
        key@.len() == 32,
    ensures
        match r {
            Ok(p) => blob_opened(key@, aad@, *b) == Some(p@),
            Err(e) => blob_opened(key@, aad@, *b).is_none() && e == StoreError::DecryptionFailed,
        },
{
    let nonce = match base64_decode(b.nonce_b64.as_str()) {
        Some(n) => n,
        None => {
            return Err(StoreError::DecryptionFailed);
        },
    };
    let sealed = match base64_decode(b.ciphertext_b64.as_str()) {
        Some(c) => c,
        None => {
            return Err(StoreError::DecryptionFailed);
        },
    };
    if nonce.len() != 24 {
        return Err(StoreError::DecryptionFailed);
    }
    match aead_open(key, nonce.as_slice(), aad, sealed.as_slice()) {
        Some(p) => Ok(p),
        None => Err(StoreError::DecryptionFailed),
    }
}

/// The key that a passphrase and the manifest's salt give.
pub open spec fn brain_key(secret: Seq<char>, m: BrainManifest) -> Option<Seq<u8>> {
    match base64_decoded(m.kdf_salt_b64@) {
        Some(salt) => argon2id_key(encode_utf8(secret), salt),
        None => None,
    }
}

/// Derives the brain's key from the passphrase and the manifest's salt.
pub fn derive_brain_key(secret: &str, m: &BrainManifest) -> (r: Result<Vec<u8>, StoreError>)
    ensures
        match r {
            Ok(k) => brain_key(secret@, *m) == Some(k@) && k@.len() == 32,
            Err(e) => brain_key(secret@, *m).is_none() && e == StoreError::KeyDerivationFailed,
        },
{
    let salt = match base64_decode(m.kdf_salt_b64.as_str()) {
        Some(s) => s,
        None => {
            return Err(StoreError::KeyDerivationFailed);
        },
    };
    match argon2_derive(secret.as_bytes(), salt.as_slice()) {
        Some(k) => Ok(k),
        None => Err(StoreError::KeyDerivationFailed),
    }
}

/// A brain opened for a change: its key, its decrypted state and its signing
/// seed.
pub struct OpenedBrain {
    pub key: Vec<u8>,
    pub state_bytes: Vec<u8>,
    pub seed: Vec<u8>,
}

/// Every check of opening holds: signature, key, digest, both blobs, and a
/// seed whose public key the manifest embeds.
pub open spec fn opens_to(
    m: BrainManifest,
    state: EncryptedBlob,
    signing_key: EncryptedBlob,
    secret: Seq<char>,
    o: OpenedBrain,
) -> bool {
    &&& signature_ok(m)
    &&& brain_key(secret, m) == Some(o.key@)
    &&& o.key@.len() == 32
    &&& blob_digest_of(state) == m.state_sha256@
    &&& blob_opened(o.key@, encode_utf8(m.brain_id@), state) == Some(o.state_bytes@)
    &&& blob_opened(o.key@, encode_utf8(m.brain_id@), signing_key) == Some(o.seed@)
    &&& o.seed@.len() == 32
    &&& base64_decoded(m.signing_public_key_b64@) == Some(ed25519_public(o.seed@))
}

/// Every check of opening passes for these inputs.
pub open spec fn openable(
    m: BrainManifest,
    state: EncryptedBlob,
    signing_key: EncryptedBlob,
    secret: Seq<char>,
) -> bool {
    &&& signature_ok(m)
    &&& brain_key(secret, m) matches Some(k)
    &&& blob_digest_of(state) == m.state_sha256@
    &&& blob_opened(k, encode_utf8(m.brain_id@), state).is_some()
    &&& blob_opened(k, encode_utf8(m.brain_id@), signing_key) matches Some(seed)
    &&& seed.len() == 32
    &&& base64_decoded(m.signing_public_key_b64@) == Some(ed25519_public(seed))
}

/// Opens a brain: verifies the signature, derives the key, checks the state
/// digest, and decrypts the state and the signing seed bound to the brain id.
pub fn open_brain(
    m: &BrainManifest,
    state: &EncryptedBlob,
    signing_key: &EncryptedBlob,
    secret: &str,
) -> (r: Result<OpenedBrain, StoreError>)
    ensures
        r.is_ok() <==> openable(*m, *state, *signing_key, secret@),
        r matches Ok(o) ==> opens_to(*m, *state, *signing_key, secret@, o),
        r matches Err(e) ==> (e == StoreError::SignatureInvalid <==> !signature_ok(*m)),
{
    if verify_manifest_signature(m).is_err() {
        return Err(StoreError::SignatureInvalid);
    }
    let key = match derive_brain_key(secret, m) {
        Ok(k) => k,
        Err(e) => {
            return Err(e);
        },
    };
    if blob_digest(state) != m.state_sha256 {
        return Err(StoreError::StateChecksumMismatch);
    }
    let aad = m.brain_id.as_str().as_bytes();
    let state_bytes = match open_bytes(key.as_slice(), aad, state) {
        Ok(p) => p,
        Err(e) => {
            return Err(e);
        },
    };
    let seed = match open_bytes(key.as_slice(), aad, signing_key) {
        Ok(p) => p,
        Err(e) => {
            return Err(e);
        },
    };
    if seed.len() != 32 {
        return Err(StoreError::InvalidSigningKey);
    }
    let public = ed25519_public_key(seed.as_slice());
    let embedded = match base64_decode(m.signing_public_key_b64.as_str()) {
        Some(p) => p,
        None => {
            return Err(StoreError::InvalidSigningKey);
        },
    };
    if !bytes_eq(&public, &embedded) {
        return Err(StoreError::InvalidSigningKey);
    }
    Ok(OpenedBrain { key, state_bytes, seed })
}

fn bytes_eq(a: &Vec<u8>, b: &Vec<u8>) -> (r: bool)
    ensures
        r == (a@ == b@),
{
    if a.len() != b.len() {
        return false;
    }
    let mut i: usize = 0;
    while i < a.len()
        invariant
            a@.len() == b@.len(),
            i <= a@.len(),
            forall|k: int| 0 <= k < i ==> a@[k] == b@[k],
        decreases a.len() - i,
    {
        if a[i] != b[i] {
            return false;
        }
        i += 1;
    }
    assert(a@ =~= b@);
    true
}

/// The manifest and state are consistent: the signature verifies, and the
/// recorded digest is the state blob's.
pub open spec fn sealed_consistently(m: BrainManifest, state: EncryptedBlob) -> bool {
    signature_ok(m) && m.state_sha256@ == blob_digest_of(state)
}

/// Seals changed state bytes into a new blob, records its digest, bumps the
/// update time and re-signs the manifest.
pub fn commit_brain(m: &mut BrainManifest, opened: &OpenedBrain, state_bytes: &[u8]) -> (r: Result<
    EncryptedBlob,
    StoreError,
>)
    requires
        opened.key@.len() == 32,
        opened.seed@.len() == 32,
        base64_decoded(old(m).signing_public_key_b64@) == Some(ed25519_public(opened.seed@)),
        ed25519_public(opened.seed@).len() == 32,
    ensures
        r matches Ok(b) ==> {
            &&& sealed_consistently(*final(m), b)
            &&& blob_opened(opened.key@, encode_utf8(final(m).brain_id@), b) == Some(state_bytes@)
            &&& final(m).brain_id == old(m).brain_id
            &&& final(m).name == old(m).name
            &&& final(m).tenant_id == old(m).tenant_id
            &&& final(m).active_branch == old(m).active_branch
            &&& final(m).signing_public_key_b64 == old(m).signing_public_key_b64
            &&& final(m).kdf_salt_b64 == old(m).kdf_salt_b64
        },
        r.is_err() ==> *final(m) == *old(m),
        sealable(state_bytes@.len()) ==> r.is_ok(),
        r.is_err() ==> exists|n: Seq<u8>|
            n.len() == 24 && xchacha_sealed(opened.key@, n, encode_utf8(old(m).brain_id@), state_bytes@).is_none(),
{
    let blob = match seal_bytes(opened.key.as_slice(), m.brain_id.as_str().as_bytes(), state_bytes) {
        Ok(b) => b,
        Err(e) => {
            return Err(e);
        },
    };
    m.updated_at = now_rfc3339();
    m.state_sha256 = blob_digest(&blob);
    m.signature_b64 = sign_manifest(m, opened.seed.as_slice());
    Ok(blob)
}

pub open spec fn is_ascii_alnum(c: char) -> bool {
    ('0' <= c && c <= '9') || ('a' <= c && c <= 'z') || ('A' <= c && c <= 'Z')
}

pub open spec fn ascii_lower(c: char) -> char {
    if 'A' <= c && c <= 'Z' {
        (((c as u8) + 32) as u8) as char
    } else {
        c
    }
}

/// Each ASCII letter or digit lowered, every other run of characters one `-`.
pub open spec fn slug_raw(s: Seq<char>) -> Seq<char>
    decreases s.len(),
{
    if s.len() == 0 {
        seq![]
    } else {
        let r = slug_raw(s.drop_last());
        if is_ascii_alnum(s.last()) {
            r.push(ascii_lower(s.last()))
        } else if r.len() > 0 && r.last() == '-' {
            r
        } else {
            r.push('-')
        }
    }
}

/// `s` without a leading and a trailing `-`.
pub open spec fn strip_dash(s: Seq<char>) -> Seq<char> {
    let a = if s.len() > 0 && s[0] == '-' {
        s.drop_first()
    } else {
        s
    };
    if a.len() > 0 && a.last() == '-' {
        a.drop_last()
    } else {
        a
    }
}

/// The name made safe for a directory: lowercase ASCII letters and digits
/// joined by single dashes.
pub open spec fn slug_of(s: Seq<char>) -> Seq<char> {
    strip_dash(slug_raw(s))
}

pub fn slugify(input: &str) -> (r: String)
    ensures
        r@ == slug_of(input@),
{
    let cs = chars_of(input);
    let mut out: Vec<char> = Vec::new();
    let mut i: usize = 0;
    while i < cs.len()
        invariant
            cs@ == input@,
            i <= cs@.len(),
            out@ == slug_raw(cs@.subrange(0, i as int)),
        decreases cs.len() - i,
    {
        let c = cs[i];
        assert(cs@.subrange(0, i + 1).drop_last() =~= cs@.subrange(0, i as int));
        if ('0' <= c && c <= '9') || ('a' <= c && c <= 'z') || ('A' <= c && c <= 'Z') {
            let lower = if 'A' <= c && c <= 'Z' {
                ((c as u8) + 32) as char
            } else {
                c
            };
            out.push(lower);
        } else if out.len() > 0 && out[out.len() - 1] == '-' {
        } else {
            out.push('-');
        }
        i += 1;
    }
    assert(cs@.subrange(0, i as int) =~= input@);
    let mut a: usize = 0;
    let mut b: usize = out.len();
    if b > 0 && out[0] == '-' {
        a = 1;
    }
    if b > a && out[b - 1] == '-' {
        b = b - 1;
    }
    let r = string_of(out.as_slice(), a, b);
    proof {
        let raw = out@;
        let first = if raw.len() > 0 && raw[0] == '-' {
            raw.drop_first()
        } else {
            raw
        };
        assert(first =~= raw.subrange(a as int, raw.len() as int));
        assert(r@ =~= strip_dash(raw));
    }
    r
}

pub const FORMAT_VERSION: &'static str = "brain/v1";
pub const RMVM_PROTO_VERSION: &'static str = "cortex_rmvm_v3_1";
pub const DEFAULT_SECRET_ENV: &'static str = "CORTEX_BRAIN_SECRET";

#[derive(Debug, Clone)]
pub struct CreateBrainRequest {
    pub name: String,
    pub tenant_id: String,
    pub passphrase_env: Option<String>,
}

/// A new brain: its summary, manifest, sealed state and sealed signing seed.
pub struct CreatedBrain {
    pub summary: BrainSummary,
    pub manifest: BrainManifest,
    pub state: EncryptedBlob,
    pub signing_key: EncryptedBlob,
}

/// The export format: a versioned manifest with both sealed blobs.
pub struct BrainPackage {
    pub package_version: String,
    pub manifest: BrainManifest,
    pub state: EncryptedBlob,
    pub signing_key: EncryptedBlob,
}

fn prefix_of(s: &String, n: usize) -> (r: String)
    requires
        n <= s@.len(),
    ensures
        r@ == s@.subrange(0, n as int),
{
    let cs = chars_of(s.as_str());
    string_of(cs.as_slice(), 0, n)
}

pub fn summary_of(m: &BrainManifest) -> (r: BrainSummary)
    ensures
        r.brain_id == m.brain_id,
        r.name == m.name,
        r.tenant_id == m.tenant_id,
        r.updated_at == m.updated_at,
        r.active_branch == m.active_branch,
{
    BrainSummary {
        brain_id: m.brain_id.clone(),
        name: m.name.clone(),
        tenant_id: m.tenant_id.clone(),
        updated_at: m.updated_at.clone(),
        active_branch: m.active_branch.clone(),
    }
}

impl BrainStore {
    /// A fresh id for a brain named `name`: its slug, a dash, and eight
    /// random characters.
    pub fn new_brain_id(&self, name: &str) -> (r: String)
        ensures
            r@.len() == slug_of(name@).len() + 9,
            r@.subrange(0, slug_of(name@).len() + 1int) == slug_of(name@).push('-'),
    {
        let uuid = new_uuid();
        let mut id = slugify(name);
        push_char(&mut id, '-');
        let ghost head = id@;
        id.append(prefix_of(&uuid, 8).as_str());
        assert(id@.subrange(0, head.len() as int) =~= head);
        id
    }

    /// Seals a new brain: a fresh salt and signing seed, the key from the
    /// passphrase, the state bytes and the seed sealed under it and bound to
    /// the brain id, and a signed manifest that records the state's digest.
    pub fn create_brain(
        &self,
        req: &CreateBrainRequest,
        brain_id: &str,
        secret: &str,
        state_bytes: &[u8],
    ) -> (r: Result<CreatedBrain, StoreError>)
        ensures
            r matches Ok(c) ==> {
                &&& sealed_consistently(c.manifest, c.state)
                &&& c.manifest.brain_id@ == brain_id@
                &&& c.manifest.name@ == req.name@
                &&& c.manifest.tenant_id@ == req.tenant_id@
                &&& c.manifest.active_branch@ == "main"@
                &&& c.manifest.format_version@ == FORMAT_VERSION@
                &&& c.manifest.secret_env_var@ == match req.passphrase_env {
                    Some(e) => e@,
                    None => DEFAULT_SECRET_ENV@,
                }
                &&& brain_key(secret@, c.manifest) matches Some(k) && blob_opened(
                    k,
                    encode_utf8(brain_id@),
                    c.state,
                ) == Some(state_bytes@)
                &&& c.summary.brain_id == c.manifest.brain_id
                &&& c.summary.name == c.manifest.name
                &&& c.summary.tenant_id == c.manifest.tenant_id
                &&& c.summary.updated_at == c.manifest.updated_at
                &&& c.summary.active_branch == c.manifest.active_branch
                &&& openable(c.manifest, c.state, c.signing_key, secret@)
            },
            encode_utf8(secret@).len() <= u32::MAX && sealable(state_bytes@.len()) ==> r.is_ok(),
            r == Err::<CreatedBrain, StoreError>(StoreError::KeyDerivationFailed) ==> encode_utf8(
                secret@,
            ).len() > u32::MAX,
            r == Err::<CreatedBrain, StoreError>(StoreError::EncryptionFailed) ==> !sealable(
                state_bytes@.len(),
            ),
            r matches Err(e) ==> e == StoreError::KeyDerivationFailed || e
                == StoreError::EncryptionFailed,
    {
        let salt = random_bytes(16);
        let key = match argon2_derive(secret.as_bytes(), salt.as_slice()) {
            Some(k) => k,
            None => {
                return Err(StoreError::KeyDerivationFailed);
            },
        };
        let seed = random_bytes(32);
        let aad = brain_id.as_bytes();
        let signing_key = match seal_bytes(key.as_slice(), aad, seed.as_slice()) {
            Ok(b) => b,
            Err(e) => {
                return Err(e);
            },
        };
        let state = match seal_bytes(key.as_slice(), aad, state_bytes) {
            Ok(b) => b,
            Err(e) => {
                return Err(e);
            },
        };
        let now = now_rfc3339();
        let public = ed25519_public_key(seed.as_slice());
        let mut manifest = BrainManifest {
            format_version: String::from_str(FORMAT_VERSION),
            brain_id: String::from_str(brain_id),
            name: req.name.clone(),
            tenant_id: req.tenant_id.clone(),
            created_at: now.clone(),
            updated_at: now,
            rmvm_proto_version: String::from_str(RMVM_PROTO_VERSION),
            schema_migrations: vec![String::from_str("brain/v1:init")],
            active_branch: String::from_str("main"),
            kdf_salt_b64: base64_encode(salt.as_slice()),
            signing_public_key_b64: base64_encode(public.as_slice()),
            state_sha256: blob_digest(&state),
            secret_env_var: match &req.passphrase_env {
                Some(e) => e.clone(),
                None => String::from_str(DEFAULT_SECRET_ENV),
            },
            signature_b64: String::new(),
        };
        manifest.signature_b64 = sign_manifest(&manifest, seed.as_slice());
        let summary = summary_of(&manifest);
        Ok(CreatedBrain { summary, manifest, state, signing_key })
    }

    /// Packs a brain for export after checking its signature and its state
    /// digest.
    pub fn export_brain(
        &self,
        manifest: BrainManifest,
        state: EncryptedBlob,
        signing_key: EncryptedBlob,
    ) -> (r: Result<BrainPackage, StoreError>)
        ensures
            r.is_ok() <==> sealed_consistently(manifest, state),
            r matches Ok(p) ==> p.package_version@ == FORMAT_VERSION@ && p.manifest == manifest
                && p.state == state && p.signing_key == signing_key,
            r matches Err(e) ==> e == if !signature_ok(manifest) {
                StoreError::SignatureInvalid
            } else {
                StoreError::StateChecksumMismatch
            },
    {
        if verify_manifest_signature(&manifest).is_err() {
            return Err(StoreError::SignatureInvalid);
        }
        if blob_digest(&state) != manifest.state_sha256 {
            return Err(StoreError::StateChecksumMismatch);
        }
        Ok(BrainPackage {
            package_version: String::from_str(FORMAT_VERSION),
            manifest,
            state,
            signing_key,
        })
    }
}

/// An imported brain, ready to be written under its (possibly new) id.
pub struct ImportedBrain {
    pub summary: BrainSummary,
    pub manifest: BrainManifest,
    pub state: EncryptedBlob,
    pub signing_key: EncryptedBlob,
}

/// A package can be trusted: known version, valid signature, and a state
/// digest that matches.
pub open spec fn package_ok(p: BrainPackage) -> bool {
    p.package_version@ == FORMAT_VERSION@ && sealed_consistently(p.manifest, p.state)
}

impl BrainStore {
    /// Checks a package and, unless `verify_only`, makes the brain to write.
    ///
    /// When `id_taken` (a brain with the package's id exists) the id gets a
    /// random suffix; `name_override` renames. Either change opens the brain
    /// with `secret`, seals state and seed again bound to the new id, and
    /// re-signs the manifest.
    pub fn import_brain(
        &self,
        package: BrainPackage,
        name_override: Option<String>,
        verify_only: bool,
        id_taken: bool,
        secret: Option<&str>,
    ) -> (r: Result<Option<ImportedBrain>, StoreError>)
        ensures
            !package_ok(package) ==> r.is_err(),
            package_ok(package) && verify_only ==> r matches Ok(None),
            package_ok(package) && !verify_only && name_override.is_none() && !id_taken ==> r.is_ok(),
            package_ok(package) && !verify_only && (name_override.is_some() || id_taken)
                && secret.is_none() ==> r == Err::<Option<ImportedBrain>, StoreError>(
                StoreError::SecretMissing,
            ),
            match secret {
                Some(s) => package_ok(package) && !verify_only && openable(
                    package.manifest,
                    package.state,
                    package.signing_key,
                    s@,
                ) && sealable(
                    blob_opened(
                        brain_key(s@, package.manifest).unwrap(),
                        encode_utf8(package.manifest.brain_id@),
                        package.state,
                    ).unwrap().len(),
                ) ==> r.is_ok(),
                None => true,
            },
            !verify_only && r.is_ok() ==> r matches Ok(Some(_)),
            r matches Ok(Some(x)) ==> {
                &&& sealed_consistently(x.manifest, x.state)
                &&& x.summary.brain_id == x.manifest.brain_id
                &&& x.summary.name == x.manifest.name
                &&& x.manifest.tenant_id == package.manifest.tenant_id
                &&& x.manifest.active_branch == package.manifest.active_branch
                &&& x.manifest.kdf_salt_b64 == package.manifest.kdf_salt_b64
                &&& match name_override {
                    Some(n) => x.manifest.name == n,
                    None => x.manifest.name == package.manifest.name,
                }
                &&& (id_taken ==> x.manifest.brain_id@.len() == package.manifest.brain_id@.len() + 7
                    && x.manifest.brain_id@.subrange(0, package.manifest.brain_id@.len() as int)
                    == package.manifest.brain_id@)
                &&& (!id_taken ==> x.manifest.brain_id == package.manifest.brain_id)
                &&& (name_override.is_none() && !id_taken ==> x.manifest == package.manifest
                    && x.state == package.state)
                &&& (forall|s: &str|
                    secret == Some(s) ==> (brain_key(s@, package.manifest) matches Some(k)
                        ==> blob_opened(k, encode_utf8(x.manifest.brain_id@), x.state) == blob_opened(
                        k,
                        encode_utf8(package.manifest.brain_id@),
                        package.state,
                    )))
            },
    {
        if !crate::text::str_eq(package.package_version.as_str(), FORMAT_VERSION) {
            return Err(StoreError::InvalidPackageVersion);
        }
        if verify_manifest_signature(&package.manifest).is_err() {
            return Err(StoreError::SignatureInvalid);
        }
        if blob_digest(&package.state) != package.manifest.state_sha256 {
            return Err(StoreError::StateChecksumMismatch);
        }
        if verify_only {
            return Ok(None);
        }
        if name_override.is_none() && !id_taken {
            let summary = summary_of(&package.manifest);
            return Ok(
                Some(
                    ImportedBrain {
                        summary,
                        manifest: package.manifest,
                        state: package.state,
                        signing_key: package.signing_key,
                    },
                ),
            );
        }
        let secret = match secret {
            Some(s) => s,
            None => {
                return Err(StoreError::SecretMissing);
            },
        };
        let opened = match open_brain(&package.manifest, &package.state, &package.signing_key, secret) {
            Ok(o) => o,
            Err(e) => {
                return Err(e);
            },
        };
        let mut manifest = package.manifest;
        if id_taken {
            let suffix = prefix_of(&new_uuid(), 6);
            let mut id = manifest.brain_id.clone();
            push_char(&mut id, '-');
            let ghost head = id@;
            id.append(suffix.as_str());
            assert(id@.subrange(0, manifest.brain_id@.len() as int) =~= manifest.brain_id@);
            manifest.brain_id = id;
        }
        if let Some(n) = name_override {
            manifest.name = n;
        }
        let signing_key = match seal_bytes(
            opened.key.as_slice(),
            manifest.brain_id.as_str().as_bytes(),
            opened.seed.as_slice(),
        ) {
            Ok(b) => b,
            Err(e) => {
                return Err(e);
            },
        };
        let state = match commit_brain(&mut manifest, &opened, opened.state_bytes.as_slice()) {
            Ok(b) => b,
            Err(e) => {
                return Err(e);
            },
        };
        let summary = summary_of(&manifest);
        Ok(Some(ImportedBrain { summary, manifest, state, signing_key }))
    }
}

} // verus!
