//! SnapText Cloud device identity: device-id rules and request signing.
use vstd::prelude::*;
use vstd::utf8::encode_utf8;

use ed25519_dalek::{Signer, SigningKey};

use crate::codec::{
    base64_decoded, base64_encoded, base64_url_encoded, decode_base64, encode_base64,
    encode_base64_url, hex_encode, hex_lower, sha256, sha256_digest,
};
use crate::config::SnapTextCloudConfig;
use crate::error::{Error, ErrorKind};
use crate::history::system_time_millis;
use crate::ocr::{join_path, path_joined};
use crate::text::{
    chars_of, decimal, is_ascii_alnum, lemma_trim_no_ws, owned, push_char, push_decimal,
    push_str, to_upper, trim, trim_str, upper,
};
use crate::urls::{join_url, joined_url, parsed_url_path, parsed_url_query, url_path, url_query};

verus! {

/// The prefix of generated device ids.
pub open spec fn device_id_prefix() -> Seq<char> {
    "snaptext-desktop-"@
}

/// A device id the cloud accepts: 8 to 128 ASCII letters, digits, `-` or `_`.
pub open spec fn valid_device_id(s: Seq<char>) -> bool {
    &&& 8 <= s.len() <= 128
    &&& forall|i: int|
        0 <= i < s.len() ==> is_ascii_alnum(#[trigger] s[i]) || s[i] == '-' || s[i] == '_'
}

/// A lower-case hexadecimal digit.
pub open spec fn is_lower_hex(c: char) -> bool {
    ('0' <= c && c <= '9') || ('a' <= c && c <= 'f')
}

/// The text of a random (version 4) UUID in hyphenated lower-case form: groups of 8, 4,
/// 4, 4 and 12 lower-case hex digits joined by `-`, the version digit `4` leading the
/// third group, and the variant digit `8`, `9`, `a` or `b` leading the fourth.
pub open spec fn uuid_shaped(s: Seq<char>) -> bool {
    &&& s.len() == 36
    &&& forall|i: int|
        0 <= i < s.len() ==> if i == 8 || i == 13 || i == 18 || i == 23 {
            #[trigger] s[i] == '-'
        } else {
            is_lower_hex(s[i])
        }
    &&& s[14] == '4'
    &&& (s[19] == '8' || s[19] == '9' || s[19] == 'a' || s[19] == 'b')
}

/// A device id as the desktop generates one: the prefix and a random UUID.
pub open spec fn generated_device_id(s: Seq<char>) -> bool {
    &&& s.len() == device_id_prefix().len() + 36
    &&& s.take(device_id_prefix().len() as int) == device_id_prefix()
    &&& uuid_shaped(s.skip(device_id_prefix().len() as int))
}

/// The device id kept for the configured `raw` one: the trimmed value when it is valid,
/// otherwise a freshly generated id.
pub open spec fn device_id_for(raw: Seq<char>, out: Seq<char>) -> bool {
    if valid_device_id(trim(raw)) {
        out == trim(raw)
    } else {
        generated_device_id(out)
    }
}

/// The hyphenated lower-case text of the version-4 UUID that
/// `uuid::Builder::from_random_bytes` builds from `bytes`.
pub uninterp spec fn uuid_v4_text(bytes: Seq<u8>) -> Seq<char>;

/// The version-4 UUID built from 16 random bytes, in hyphenated lower-case text;
/// `uuid::Builder::from_random_bytes`, `Builder::into_uuid` and the UUID's `Display`.
/// The contract names the text; the builder sets the version and variant bits and the
/// formatter writes the hyphenated lower-case layout, which the contract states too.
#[verifier::external_body]
fn uuid_text_from_random(bytes: &Vec<u8>) -> (r: String)
    requires
        bytes@.len() == 16,
    ensures
        r@ == uuid_v4_text(bytes@),
        uuid_shaped(r@),
{
    let array: [u8; 16] = bytes.as_slice().try_into().unwrap();
    uuid::Builder::from_random_bytes(array).into_uuid().to_string()
}

/// Whether `value` is a device id the cloud accepts.
pub fn is_valid_cloud_device_id(value: &str) -> (b: bool)
    ensures
        b == valid_device_id(value@),
{
    let v = chars_of(value);
    if v.len() < 8 || v.len() > 128 {
        return false;
    }
    let mut k: usize = 0;
    while k < v.len()
        invariant
            k <= v.len(),
            v@ == value@,
            forall|i: int|
                0 <= i < k ==> is_ascii_alnum(#[trigger] v@[i]) || v@[i] == '-' || v@[i] == '_',
        decreases v.len() - k,
    {
        let c = v[k];
        if !(('0' <= c && c <= '9') || ('a' <= c && c <= 'z') || ('A' <= c && c <= 'Z') || c == '-'
            || c == '_') {
            return false;
        }
        k += 1;
    }
    true
}

/// The trimmed id when it is valid; otherwise `snaptext-desktop-` and a random UUID. Only
/// the random source can fail, and only when an id has to be generated.
pub fn normalize_cloud_device_id(value: String) -> (r: Result<String, Error>)
    ensures
        match r {
            Ok(s) => device_id_for(value@, s@) && valid_device_id(s@),
            Err(e) => !valid_device_id(trim(value@)) && e@.0 == ErrorKind::Config,
        },
        valid_device_id(trim(value@)) ==> (r matches Ok(s) && s@ == trim(value@)),
        r matches Ok(s) ==> (valid_device_id(trim(value@)) || exists|b: Seq<u8>|
            b.len() == 16 && s@ == device_id_prefix() + #[trigger] uuid_v4_text(b)),
{
    let trimmed = trim_str(value.as_str());
    if is_valid_cloud_device_id(trimmed.as_str()) {
        return Ok(trimmed);
    }
    let bytes = match random_bytes(16) {
        Ok(b) => b,
        Err(text) => {
            let mut m = owned("failed to generate cloud device id: ");
            push_str(&mut m, text.as_str());
            return Err(Error::new(ErrorKind::Config, m));
        },
    };
    Ok(device_id_from_random(&bytes))
}

/// The device id generated from 16 random bytes: `snaptext-desktop-` and the UUID text
/// of the bytes.
pub fn device_id_from_random(bytes: &Vec<u8>) -> (r: String)
    requires
        bytes@.len() == 16,
    ensures
        r@ == device_id_prefix() + uuid_v4_text(bytes@),
        generated_device_id(r@),
        valid_device_id(r@),
{
    let mut r = owned("snaptext-desktop-");
    let u = uuid_text_from_random(bytes);
    push_str(&mut r, u.as_str());
    proof {
        reveal_strlit("snaptext-desktop-");
        assert(r@.take(17) == device_id_prefix());
        assert(r@.skip(17) == u@);
        assert forall|i: int| 0 <= i < r@.len() implies is_ascii_alnum(#[trigger] r@[i]) || r@[i]
            == '-' || r@[i] == '_' by {
            if i >= 17 {
                assert(r@[i] == u@[i - 17]);
            }
        }
    }
    r
}

/// The id a new configuration starts with: always a generated one; only the random
/// source can fail.
pub fn default_snaptext_cloud_device_id() -> (r: Result<String, Error>)
    ensures
        match r {
            Ok(s) => generated_device_id(s@),
            Err(e) => e@.0 == ErrorKind::Config,
        },
{
    proof {
        assert(trim(Seq::<char>::empty()) == Seq::<char>::empty());
    }
    normalize_cloud_device_id(String::new())
}


/// The context string every signed request starts with.
pub const AUTH_CONTEXT: &'static str = "SNAPTEXT-AUTH-V1";

/// The file the device identity is stored in, inside the data directory.
pub const IDENTITY_FILE: &'static str = "cloud-device.yaml";

/// The ed25519 public key of the 32-byte secret key `secret`.
pub uninterp spec fn ed25519_public_key(secret: Seq<u8>) -> Seq<u8>;

/// The ed25519 signature of `message` under the 32-byte secret key `secret`.
pub uninterp spec fn ed25519_signature(secret: Seq<u8>, message: Seq<u8>) -> Seq<u8>;

/// The public key of a secret key; `ed25519_dalek::SigningKey::from_bytes`, then
/// `verifying_key` and `to_bytes`. The contract names the key and states its 32-byte
/// length.
#[verifier::external_body]
fn public_key_of(secret: &Vec<u8>) -> (r: Vec<u8>)
    requires
        secret@.len() == 32,
    ensures
        r@ == ed25519_public_key(secret@),
        r@.len() == 32,
{
    let key: [u8; 32] = secret.as_slice().try_into().unwrap();
    SigningKey::from_bytes(&key).verifying_key().to_bytes().to_vec()
}

/// The signature of `message`; `ed25519_dalek::SigningKey::from_bytes`, then `Signer::sign`
/// and `Signature::to_bytes`. Ed25519 signing is deterministic, so the contract names the
/// signature; it states its 64-byte length.
#[verifier::external_body]
fn sign_message(secret: &Vec<u8>, message: &[u8]) -> (r: Vec<u8>)
    requires
        secret@.len() == 32,
    ensures
        r@ == ed25519_signature(secret@, message@),
        r@.len() == 64,
{
    let key: [u8; 32] = secret.as_slice().try_into().unwrap();
    SigningKey::from_bytes(&key).sign(message).to_bytes().to_vec()
}

/// `n` random bytes from the system source; `getrandom::fill`. The contract states only
/// the length: the bytes are random.
#[verifier::external_body]
fn random_bytes(n: usize) -> (r: Result<Vec<u8>, String>)
    ensures
        r matches Ok(v) ==> v@.len() == n,
{
    let mut bytes = vec![0_u8; n];
    getrandom::fill(&mut bytes).map(|_| bytes).map_err(|err| format!("{err}"))
}

/// The clock reading as an `i64`: 0 before the epoch, saturated at `i64::MAX`.
pub open spec fn timestamp_of(reading: Option<u128>) -> i64 {
    match reading {
        None => 0,
        Some(ms) => if ms > i64::MAX as u128 {
            i64::MAX
        } else {
            ms as i64
        },
    }
}

/// Converts a clock reading to the timestamp a signed request carries.
pub fn timestamp_from_reading(reading: Option<u128>) -> (t: i64)
    ensures
        t == timestamp_of(reading),
        t >= 0,
{
    match reading {
        None => 0,
        Some(ms) => if ms > i64::MAX as u128 {
            i64::MAX
        } else {
            ms as i64
        },
    }
}

/// Milliseconds since the Unix epoch, never negative.
pub fn unix_timestamp_millis() -> (t: i64)
    ensures
        t >= 0,
{
    let reading = match system_time_millis() {
        Ok(ms) => Some(ms),
        Err(_) => None,
    };
    timestamp_from_reading(reading)
}

/// A fresh request nonce: 16 random bytes in URL-safe unpadded base64.
pub fn random_nonce() -> (r: Result<String, Error>)
    ensures
        r matches Ok(n) ==> exists|b: Seq<u8>| b.len() == 16 && n@ == base64_url_encoded(b),
        r matches Err(e) ==> e@.0 == ErrorKind::Translate,
{
    match random_bytes(16) {
        Ok(b) => Ok(encode_base64_url(b.as_slice())),
        Err(text) => {
            let mut m = owned("failed to generate request nonce: ");
            push_str(&mut m, text.as_str());
            Err(Error::new(ErrorKind::Translate, m))
        },
    }
}

/// What `path_and_query` gives for the URL `url`: its path, then `?` and the query when
/// it has one; `None` when `url` does not parse.
pub open spec fn path_and_query_of(url: Seq<char>) -> Option<Seq<char>> {
    match (parsed_url_path(url), parsed_url_query(url)) {
        (Some(p), Some(Some(q))) => Some(p + "?"@ + q),
        (Some(p), Some(None)) => Some(p),
        _ => None,
    }
}

/// The path and query of a URL, as the signed canonical text holds them.
pub fn path_and_query(url: &str) -> (r: Result<String, Error>)
    ensures
        match path_and_query_of(url@) {
            Some(t) => r matches Ok(s) && s@ == t,
            None => r matches Err(e) && e@ == (ErrorKind::Config, "invalid URL: "@ + url@),
        },
{
    let path = url_path(url);
    let query = url_query(url);
    match (path, query) {
        (Some(p), Some(Some(q))) => {
            proof {
                reveal_strlit("?");
            }
            let mut r = p;
            push_char(&mut r, '?');
            push_str(&mut r, q.as_str());
            Ok(r)
        },
        (Some(p), Some(None)) => Ok(p),
        _ => {
            let mut m = owned("invalid URL: ");
            push_str(&mut m, url);
            Err(Error::new(ErrorKind::Config, m))
        },
    }
}

/// The text a request signature covers: the context, the upper-cased method, the path
/// and query, the device id, the timestamp, the nonce and the body digest, one per line.
pub open spec fn canonical_request(
    method: Seq<char>,
    path_query: Seq<char>,
    device_id: Seq<char>,
    timestamp_ms: Seq<char>,
    nonce: Seq<char>,
    body_sha256: Seq<char>,
) -> Seq<char> {
    AUTH_CONTEXT@ + "\n"@ + upper(method) + "\n"@ + path_query + "\n"@ + device_id + "\n"@
        + timestamp_ms + "\n"@ + nonce + "\n"@ + body_sha256
}

/// The headers of a signed cloud request.
#[derive(Debug)]
pub struct SignedCloudRequest {
    pub timestamp_ms: String,
    pub nonce: String,
    pub body_sha256: String,
    pub signature: String,
}

/// A desktop device's cloud identity: its device id and ed25519 secret key.
#[derive(Debug)]
pub struct CloudDeviceIdentity {
    device_id: String,
    secret_key: Vec<u8>,
}

/// An identity as it is stored on disk: the device id and the base64 secret key.
#[derive(Debug)]
pub struct StoredCloudDeviceIdentity {
    pub device_id: String,
    pub private_key: String,
}

/// The secret key a stored key text decodes to, or the message it is refused with.
pub open spec fn decoded_private_key(text: Seq<char>) -> Result<Seq<u8>, Seq<char>> {
    match base64_decoded(trim(text)) {
        Err(m) => Err("cloud device private key is invalid: "@ + m),
        Ok(b) => if b.len() == 32 {
            Ok(b)
        } else {
            Err("cloud device private key must decode to 32 bytes"@)
        },
    }
}

/// Decodes a stored private key, which must be base64 of exactly 32 bytes.
pub fn decode_private_key(value: &str) -> (r: Result<Vec<u8>, Error>)
    ensures
        match decoded_private_key(value@) {
            Ok(b) => r matches Ok(v) && v@ == b,
            Err(m) => r matches Err(e) && e@ == (ErrorKind::Config, m),
        },
        forall|k: Seq<u8>|
            trim(value@) == #[trigger] base64_encoded(k) ==> if k.len() == 32 {
                r matches Ok(v) && v@ == k
            } else {
                r is Err
            },
{
    let trimmed = trim_str(value);
    match decode_base64(trimmed.as_str()) {
        Err(text) => {
            let mut m = owned("cloud device private key is invalid: ");
            push_str(&mut m, text.as_str());
            Err(Error::new(ErrorKind::Config, m))
        },
        Ok(b) => if b.len() == 32 {
            Ok(b)
        } else {
            Err(Error::from_str(ErrorKind::Config, "cloud device private key must decode to 32 bytes"))
        },
    }
}

impl CloudDeviceIdentity {
    #[verifier::type_invariant]
    spec fn well_formed(self) -> bool {
        &&& self.secret_key@.len() == 32
        &&& valid_device_id(self.device_id@)
    }

    /// The identity's device id.
    pub closed spec fn id(self) -> Seq<char> {
        self.device_id@
    }

    /// The identity's 32-byte secret key.
    pub closed spec fn secret(self) -> Seq<u8> {
        self.secret_key@
    }

    /// An identity from a device id and a 32-byte secret key, with the id normalized.
    /// Generating an id can fail only when the given one is not valid.
    pub fn from_parts(device_id: String, secret_key: Vec<u8>) -> (r: Result<CloudDeviceIdentity, Error>)
        requires
            secret_key@.len() == 32,
        ensures
            match r {
                Ok(id) => device_id_for(device_id@, id.id()) && id.secret() == secret_key@,
                Err(e) => !valid_device_id(trim(device_id@)) && e@.0 == ErrorKind::Config,
            },
            valid_device_id(trim(device_id@)) ==> r is Ok,
    {
        let id = match normalize_cloud_device_id(device_id) {
            Ok(id) => id,
            Err(e) => {
                return Err(e);
            },
        };
        Ok(CloudDeviceIdentity { device_id: id, secret_key })
    }

    /// A new identity with a random key; the configured device id is kept when valid.
    pub fn generate(config_device_id: String) -> (r: Result<CloudDeviceIdentity, Error>)
        ensures
            r matches Ok(id) ==> device_id_for(config_device_id@, id.id()) && id.secret().len()
                == 32,
            r matches Err(e) ==> e@.0 == ErrorKind::Config,
    {
        match random_bytes(32) {
            Ok(key) => CloudDeviceIdentity::from_parts(config_device_id, key),
            Err(text) => {
                let mut m = owned("failed to generate cloud device key: ");
                push_str(&mut m, text.as_str());
                Err(Error::new(ErrorKind::Config, m))
            },
        }
    }

    /// The identity a stored record describes. A record whose key text is the base64 of
    /// 32 bytes and whose id is valid loads as exactly that key and id.
    pub fn from_stored(stored: StoredCloudDeviceIdentity) -> (r: Result<CloudDeviceIdentity, Error>)
        ensures
            match decoded_private_key(stored.private_key@) {
                Ok(b) => (match r {
                    Ok(id) => id.secret() == b && device_id_for(stored.device_id@, id.id()),
                    Err(e) => !valid_device_id(trim(stored.device_id@)) && e@.0 == ErrorKind::Config,
                }) && (valid_device_id(trim(stored.device_id@)) ==> r is Ok),
                Err(m) => r matches Err(e) && e@ == (ErrorKind::Config, m),
            },
            forall|k: Seq<u8>|
                trim(stored.private_key@) == #[trigger] base64_encoded(k) && k.len() == 32
                    && valid_device_id(trim(stored.device_id@)) ==> (r matches Ok(id)
                    && id.secret() == k && id.id() == trim(stored.device_id@)),
    {
        let key = match decode_private_key(stored.private_key.as_str()) {
            Ok(k) => k,
            Err(e) => {
                return Err(e);
            },
        };
        CloudDeviceIdentity::from_parts(stored.device_id, key)
    }

    /// The record this identity is stored as: its device id and base64 secret key. The
    /// record loads back as the same identity: its key text is the base64 of this 32-byte
    /// secret with nothing to trim, and its id is a valid one that trims to itself, which
    /// is what `from_stored` needs to give both back.
    pub fn to_stored(&self) -> (r: StoredCloudDeviceIdentity)
        ensures
            r.device_id@ == self.id(),
            r.private_key@ == base64_encoded(self.secret()),
            trim(r.private_key@) == r.private_key@,
            self.secret().len() == 32,
            valid_device_id(trim(r.device_id@)) && trim(r.device_id@) == self.id(),
    {
        proof {
            use_type_invariant(self);
        }
        let key = encode_base64(self.secret_key.as_slice());
        proof {
            lemma_trim_no_ws(key@);
            lemma_trim_no_ws(self.device_id@);
        }
        StoredCloudDeviceIdentity { device_id: self.device_id.clone(), private_key: key }
    }

    /// The device id.
    pub fn device_id(&self) -> (r: &str)
        ensures
            r@ == self.id(),
    {
        self.device_id.as_str()
    }

    /// The public key in standard base64.
    pub fn public_key_base64(&self) -> (r: String)
        ensures
            r@ == base64_encoded(ed25519_public_key(self.secret())),
    {
        proof {
            use_type_invariant(self);
        }
        let key = public_key_of(&self.secret_key);
        encode_base64(key.as_slice())
    }

    /// Signs a JSON request with the given timestamp and nonce: the body's SHA-256 in hex,
    /// and the base64 ed25519 signature of the canonical request text.
    pub fn sign_json_request_with_parts(
        &self,
        method: &str,
        url: &str,
        body: &[u8],
        timestamp_ms: String,
        nonce: String,
    ) -> (r: Result<SignedCloudRequest, Error>)
        ensures
            match path_and_query_of(url@) {
                None => r matches Err(e) && e@ == (ErrorKind::Config, "invalid URL: "@ + url@),
                Some(pq) => r matches Ok(s) && {
                    let digest = hex_lower(sha256_digest(body@));
                    &&& s.timestamp_ms@ == timestamp_ms@
                    &&& s.nonce@ == nonce@
                    &&& s.body_sha256@ == digest
                    &&& s.signature@ == base64_encoded(
                        ed25519_signature(
                            self.secret(),
                            encode_utf8(
                                canonical_request(
                                    method@,
                                    pq,
                                    self.id(),
                                    timestamp_ms@,
                                    nonce@,
                                    digest,
                                ),
                            ),
                        ),
                    )
                },
            },
    {
        proof {
            use_type_invariant(self);
        }
        let pq = match path_and_query(url) {
            Ok(p) => p,
            Err(e) => {
                return Err(e);
            },
        };
        let digest = sha256(body);
        let body_sha256 = hex_encode(digest.as_slice());
        let mut canonical = owned(AUTH_CONTEXT);
        push_char(&mut canonical, '\n');
        let upper_method = to_upper(method);
        push_str(&mut canonical, upper_method.as_str());
        push_char(&mut canonical, '\n');
        push_str(&mut canonical, pq.as_str());
        push_char(&mut canonical, '\n');
        push_str(&mut canonical, self.device_id.as_str());
        push_char(&mut canonical, '\n');
        push_str(&mut canonical, timestamp_ms.as_str());
        push_char(&mut canonical, '\n');
        push_str(&mut canonical, nonce.as_str());
        push_char(&mut canonical, '\n');
        push_str(&mut canonical, body_sha256.as_str());
        proof {
            reveal_strlit("\n");
        }
        assert(canonical@ =~= canonical_request(
            method@,
            pq@,
            self.id(),
            timestamp_ms@,
            nonce@,
            body_sha256@,
        ));
        let signature = sign_message(&self.secret_key, canonical.as_str().as_bytes());
        Ok(SignedCloudRequest {
            timestamp_ms,
            nonce,
            body_sha256,
            signature: encode_base64(signature.as_slice()),
        })
    }

    /// Signs a JSON request with the current time and a fresh nonce.
    pub fn sign_json_request(&self, method: &str, url: &str, body: &[u8]) -> (r: Result<
        SignedCloudRequest,
        Error,
    >)
        ensures
            r matches Ok(s) ==> path_and_query_of(url@) is Some && s.body_sha256@ == hex_lower(
                sha256_digest(body@),
            ),
            r matches Ok(s) ==> (path_and_query_of(url@) matches Some(pq) && (exists|t: nat|
                s.timestamp_ms@ == decimal(t)) && (exists|b: Seq<u8>| b.len() == 16 && s.nonce@
                == base64_url_encoded(b)) && s.signature@ == base64_encoded(
                ed25519_signature(
                    self.secret(),
                    encode_utf8(
                        canonical_request(
                            method@,
                            pq,
                            self.id(),
                            s.timestamp_ms@,
                            s.nonce@,
                            hex_lower(sha256_digest(body@)),
                        ),
                    ),
                ),
            )),
            r matches Err(e) ==> e@.0 == ErrorKind::Translate || (path_and_query_of(url@) is None
                && e@ == (ErrorKind::Config, "invalid URL: "@ + url@)),
    {
        let timestamp = unix_timestamp_millis();
        let nonce = match random_nonce() {
            Ok(n) => n,
            Err(e) => {
                return Err(e);
            },
        };
        let mut ts = String::new();
        push_timestamp(&mut ts, timestamp);
        self.sign_json_request_with_parts(method, url, body, ts, nonce)
    }
}

/// Appends the decimal rendering of a non-negative timestamp.
fn push_timestamp(s: &mut String, t: i64)
    requires
        t >= 0,
    ensures
        final(s)@ == old(s)@ + decimal(t as nat),
{
    push_decimal(s, t as u64);
}

/// The file a device's registration with `endpoint` is remembered in: named by the device
/// id and the first 8 bytes of the SHA-256 of the endpoint's origin, in hex.
pub open spec fn registered_marker_name(origin: Seq<char>, device_id: Seq<char>) -> Seq<char> {
    "cloud-device-registered-"@ + device_id + "-"@ + hex_lower(
        sha256_digest(encode_utf8(origin)).take(8),
    ) + ".marker"@
}

/// What `url::Url::parse(s)` followed by `origin().ascii_serialization()` gives: `None`
/// when `s` does not parse.
pub uninterp spec fn url_origin(s: Seq<char>) -> Option<Seq<char>>;

/// The ASCII serialization of a URL's origin; `url::Url::origin` and
/// `Origin::ascii_serialization` on `url::Url::parse(s)`. The contract names the result.
#[verifier::external_body]
fn url_origin_text(s: &str) -> (r: Option<String>)
    ensures
        r matches Some(x) ==> url_origin(s@) == Some(x@),
        r is None ==> url_origin(s@) is None,
{
    url::Url::parse(s).ok().map(|u| u.origin().ascii_serialization())
}

/// The marker file name for a device registered with `endpoint`.
pub fn registered_marker_file_name(endpoint: &str, device_id: &str) -> (r: Result<String, Error>)
    ensures
        match url_origin(endpoint@) {
            Some(o) => r matches Ok(s) && s@ == registered_marker_name(o, device_id@),
            None => r matches Err(e) && e@ == (ErrorKind::Config, "invalid URL: "@ + endpoint@),
        },
{
    let origin = match url_origin_text(endpoint) {
        Some(o) => o,
        None => {
            let mut m = owned("invalid URL: ");
            push_str(&mut m, endpoint);
            return Err(Error::new(ErrorKind::Config, m));
        },
    };
    proof {
        reveal_strlit("-");
    }
    let digest = sha256(origin.as_str().as_bytes());
    let head = first_bytes(&digest, 8);
    let mut name = owned("cloud-device-registered-");
    push_str(&mut name, device_id);
    push_char(&mut name, '-');
    let h = hex_encode(head.as_slice());
    push_str(&mut name, h.as_str());
    push_str(&mut name, ".marker");
    Ok(name)
}

/// The first `n` bytes of `v`.
fn first_bytes(v: &Vec<u8>, n: usize) -> (r: Vec<u8>)
    requires
        n <= v@.len(),
    ensures
        r@ == v@.take(n as int),
{
    let mut r: Vec<u8> = Vec::new();
    let mut k: usize = 0;
    while k < n
        invariant
            k <= n <= v@.len(),
            r@ == v@.take(k as int),
        decreases n - k,
    {
        r.push(v[k]);
        k += 1;
    }
    r
}

/// The device-registration endpoint below the configured cloud endpoint.
pub fn cloud_register_endpoint(config: &SnapTextCloudConfig) -> (r: Result<String, Error>)
    ensures
        match joined_url(config.endpoint@, "v1/auth/devices"@) {
            Some(u) => r matches Ok(s) && s@ == u,
            None => r matches Err(e) && e@ == (ErrorKind::Config, "invalid URL: "@ + config.endpoint@),
        },
{
    join_url(config.endpoint.as_str(), "v1/auth/devices")
}

/// The translation endpoint below the configured cloud endpoint.
pub fn cloud_translate_endpoint(config: &SnapTextCloudConfig) -> (r: Result<String, Error>)
    ensures
        match joined_url(config.endpoint@, "v1/translate"@) {
            Some(u) => r matches Ok(s) && s@ == u,
            None => r matches Err(e) && e@ == (ErrorKind::Config, "invalid URL: "@ + config.endpoint@),
        },
{
    join_url(config.endpoint.as_str(), "v1/translate")
}


/// The identity file: `cloud-device.yaml` in the data directory.
pub fn default_identity_path() -> (r: String)
    ensures
        exists|dir: Seq<char>| dir.len() > 0 && r@ == path_joined(dir, IDENTITY_FILE@),
{
    let dir = crate::config::app_data_dir();
    join_path(dir.as_str(), IDENTITY_FILE)
}

} // verus!
