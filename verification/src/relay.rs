//! The relay's decisions: who may register and act, what an uploaded change
//! must look like, how an upload meets the stored version of a record, how a
//! download is paged, and how cursors, pairing codes and tokens are made and
//! checked. The relay stores ciphertext only.
use vstd::prelude::*;

use crate::clock::{is_clock_reading, utc_now_micros};
use crate::channel::{is_valid_operation, valid_key_version, valid_operation};
use crate::codec::{
    b64_decode, b64_encode, base64_encode, decode_base64, is_v4_uuid, random_uuid,
    to_uppercase, uppercase, utc_millis_representable, uuid_hyphenated,
    uuid_simple, uuid_to_simple, uuid_to_string, min_utc_millis, max_utc_millis,
};
use crate::crypto::{constant_time_eq, sha256, sha256_digest};
use crate::model::{RemoteSyncConflict, RemoteSyncCursor};
use crate::text::{
    all_hex_digits, blank_text, byte_len, chars_of, concat_str, decimal, decimal_i64, hex_lower,
    hex_lower_text, is_blank, is_hex_digit, lemma_hex_lower, parse_i64, parse_i64_spec, same_text,
    string_from_chars, trim, trim_chars, trim_text, utf8_len,
};
use vstd::utf8::encode_utf8;

verus! {

/// An error answer of the relay: HTTP status and message.
pub struct ApiError {
    pub status: u16,
    pub message: String,
}

/// The model of an [`ApiError`].
pub open spec fn api_error(status: u16, message: Seq<char>) -> (u16, Seq<char>) {
    (status, message)
}

pub open spec fn err_view<T>(r: Result<T, ApiError>) -> Option<(u16, Seq<char>)> {
    match r {
        Ok(_) => None,
        Err(e) => Some((e.status, e.message@)),
    }
}

pub const BAD_REQUEST: u16 = 400;

pub const UNAUTHORIZED: u16 = 401;

pub const FORBIDDEN: u16 = 403;

pub const NOT_FOUND: u16 = 404;

pub const GONE: u16 = 410;

pub const PAYLOAD_TOO_LARGE: u16 = 413;

pub const INTERNAL_SERVER_ERROR: u16 = 500;

impl ApiError {
    pub fn new(status: u16, message: &str) -> (e: ApiError)
        ensures
            e.status == status,
            e.message@ == message@,
    {
        ApiError { status, message: message.to_owned() }
    }

    /// The answer to a request without a valid device token.
    pub fn unauthorized() -> (e: ApiError)
        ensures
            e.status == UNAUTHORIZED,
            e.message@ == "需要有效的设备令牌"@,
    {
        ApiError::new(UNAUTHORIZED, "需要有效的设备令牌")
    }

    /// The answer to a failed database request.
    pub fn database_failure() -> (e: ApiError)
        ensures
            e.status == INTERNAL_SERVER_ERROR,
            e.message@ == "服务器数据库操作失败"@,
    {
        ApiError::new(INTERNAL_SERVER_ERROR, "服务器数据库操作失败")
    }
}

// ---------------------------------------------------------------------------
// Secrets, tokens, registration
// ---------------------------------------------------------------------------

/// How the relay stores a token or a pairing code: the lower-case hex
/// SHA-256 of its UTF-8 bytes.
pub open spec fn secret_hash(secret: Seq<char>) -> Seq<char> {
    hex_lower(sha256_digest(encode_utf8(secret)))
}

pub fn hash_secret(secret: &str) -> (h: String)
    ensures
        h@ == secret_hash(secret@),
{
    let d = sha256(secret.as_bytes());
    hex_lower_text(&d)
}

/// A registration must present the configured registration token.
pub fn require_registration_token(provided: Option<String>, expected: &str) -> (r: Result<(), ApiError>)
    ensures
        err_view(r) == if (match provided {
            Some(p) => p@,
            None => Seq::<char>::empty(),
        }) == expected@ {
            None
        } else {
            Some((UNAUTHORIZED, "需要有效的设备令牌"@))
        },
{
    let p: String = match provided {
        Some(p) => p,
        None => "".to_owned(),
    };
    proof {
        reveal_strlit("");
        vstd::utf8::encode_utf8_decode_utf8(p@);
        vstd::utf8::encode_utf8_decode_utf8(expected@);
    }
    if !constant_time_eq(p.as_str().as_bytes(), expected.as_bytes()) {
        return Err(ApiError::unauthorized());
    }
    Ok(())
}

/// The registration token must be at least 24 bytes long.
pub fn check_registration_token(token: &str) -> (r: Result<(), String>)
    ensures
        match r {
            Ok(()) => utf8_len(token@) >= 24,
            Err(e) => utf8_len(token@) < 24 && e@ == "REGISTRATION_TOKEN 至少需要 24 个字符"@,
        },
{
    if byte_len(token) < 24 {
        return Err("REGISTRATION_TOKEN 至少需要 24 个字符".to_owned());
    }
    Ok(())
}

/// Whether a registration token is shorter than the recommended 32 bytes
/// (worth a warning).
pub fn _warn_if_insecure_registration_token(token: &str) -> (r: bool)
    ensures
        r == (utf8_len(token@) < 32),
{
    byte_len(token) < 32
}

/// What a device presents when it registers.
pub struct RegisterDeviceRequest {
    pub device_id: String,
    pub public_key: String,
    pub label: Option<String>,
}

pub open spec fn device_request_error(device_id: Seq<char>, public_key: Seq<char>, label: Option<Seq<char>>) -> Option<(u16, Seq<char>)> {
    if is_blank(device_id) || utf8_len(device_id) > 128 {
        Some((BAD_REQUEST, "设备标识无效"@))
    } else if is_blank(public_key) || utf8_len(public_key) > 4096 {
        Some((BAD_REQUEST, "设备公钥无效"@))
    } else if label matches Some(l) && utf8_len(l) > 128 {
        Some((BAD_REQUEST, "设备名称过长"@))
    } else {
        None
    }
}

/// Device identity at most 128 bytes, public key at most 4096 bytes (neither
/// blank), label at most 128 bytes.
pub fn validate_device_request(request: &RegisterDeviceRequest) -> (r: Result<(), ApiError>)
    ensures
        err_view(r) == device_request_error(
            request.device_id@,
            request.public_key@,
            crate::codec::opt_text(request.label),
        ),
{
    if blank_text(request.device_id.as_str()) || byte_len(request.device_id.as_str()) > 128 {
        return Err(ApiError::new(BAD_REQUEST, "设备标识无效"));
    }
    if blank_text(request.public_key.as_str()) || byte_len(request.public_key.as_str()) > 4096 {
        return Err(ApiError::new(BAD_REQUEST, "设备公钥无效"));
    }
    match &request.label {
        Some(l) => {
            if byte_len(l.as_str()) > 128 {
                return Err(ApiError::new(BAD_REQUEST, "设备名称过长"));
            }
        },
        None => {},
    }
    Ok(())
}

/// A device token: the simple forms of two UUIDs, 64 hexadecimal digits.
pub fn device_token_from(a: &[u8; 16], b: &[u8; 16]) -> (t: String)
    ensures
        t@ == uuid_simple(a@) + uuid_simple(b@),
{
    let x = uuid_to_simple(a);
    let y = uuid_to_simple(b);
    concat_str(x.as_str(), y.as_str())
}

/// The answer when the relay's random source fails.
pub open spec fn random_failure() -> (u16, Seq<char>) {
    (INTERNAL_SERVER_ERROR, "服务器生成随机数失败"@)
}

/// The answer when the relay's clock reads before the Unix epoch (or past
/// the calendar range).
pub open spec fn clock_failure() -> (u16, Seq<char>) {
    (INTERNAL_SERVER_ERROR, "服务器时间无效"@)
}

/// A fresh device token from two random UUIDs.
pub fn new_device_token() -> (r: Result<String, ApiError>)
    ensures
        match r {
            Ok(t) => exists|a: Seq<u8>, b: Seq<u8>|
                is_v4_uuid(a) && is_v4_uuid(b) && t@ == uuid_simple(a) + uuid_simple(b),
            Err(e) => (e.status, e.message@) == random_failure(),
        },
{
    let a = match random_uuid() {
        Some(u) => u,
        None => return Err(ApiError::new(INTERNAL_SERVER_ERROR, "服务器生成随机数失败")),
    };
    let b = match random_uuid() {
        Some(u) => u,
        None => return Err(ApiError::new(INTERNAL_SERVER_ERROR, "服务器生成随机数失败")),
    };
    let t = device_token_from(&a, &b);
    assert(is_v4_uuid(a@) && is_v4_uuid(b@) && t@ == uuid_simple(a@) + uuid_simple(b@));
    Ok(t)
}

/// What `bearer_token` reads from an `Authorization` header value: the text
/// after `Bearer `, trimmed, when not empty.
pub open spec fn bearer_spec(header: Seq<char>) -> Option<Seq<char>> {
    if header.len() >= 7 && header.take(7) == "Bearer "@ {
        let t = trim(header.skip(7));
        if t.len() == 0 {
            None
        } else {
            Some(t)
        }
    } else {
        None
    }
}

/// The device token of an `Authorization` header value (`None` when the
/// header is absent or not text).
pub fn bearer_token(header: Option<String>) -> (r: Option<String>)
    ensures
        crate::codec::opt_text(r) == match header {
            Some(h) => bearer_spec(h@),
            None => None,
        },
{
    let h = match header {
        Some(h) => h,
        None => return None,
    };
    let v = chars_of(h.as_str());
    let prefix = chars_of("Bearer ");
    proof {
        reveal_strlit("Bearer ");
    }
    if v.len() < 7 {
        return None;
    }
    let mut i: usize = 0;
    while i < 7
        invariant
            i <= 7,
            v@.len() >= 7,
            v@ == h@,
            header is Some && header->0@ == h@,
            prefix@ == "Bearer "@,
            prefix@.len() == 7,
            forall|j: int| 0 <= j < i ==> v@[j] == prefix@[j],
        decreases 7 - i,
    {
        if v[i] != prefix[i] {
            assert(v@.take(7)[i as int] != prefix@[i as int]);
            assert(v@.take(7) != prefix@);
            return None;
        }
        i = i + 1;
    }
    assert(v@.take(7) == prefix@);
    let mut rest: Vec<char> = Vec::new();
    let n = v.len();
    let mut k: usize = 7;
    while k < n
        invariant
            7 <= k <= n,
            n == v@.len(),
            rest@ == v@.subrange(7, k as int),
        decreases n - k,
    {
        rest.push(v[k]);
        k = k + 1;
    }
    assert(rest@ == v@.skip(7));
    let t = trim_chars(rest.as_slice());
    if t.len() == 0 {
        return None;
    }
    Some(string_from_chars(t.as_slice()))
}

/// A device acts on a pairing only when it is one of the two paired devices.
pub fn require_pairing_member(is_member: bool) -> (r: Result<(), ApiError>)
    ensures
        err_view(r) == if is_member {
            None
        } else {
            Some((FORBIDDEN, "设备无权访问此配对"@))
        },
{
    if !is_member {
        return Err(ApiError::new(FORBIDDEN, "设备无权访问此配对"));
    }
    Ok(())
}

// ---------------------------------------------------------------------------
// Pairing codes
// ---------------------------------------------------------------------------

/// A pairing is valid for fifteen minutes, in microseconds.
pub open spec fn pairing_lifetime_micros() -> int {
    900_000_000int
}

/// The pairing code of a UUID: the first ten digits of its simple form, in
/// upper case.
pub open spec fn pairing_code_of(b: Seq<u8>) -> Seq<char> {
    uppercase(uuid_simple(b).take(10))
}

/// Whether a code is ten upper-case hexadecimal digits.
pub open spec fn is_pairing_code(code: Seq<char>) -> bool {
    &&& code.len() == 10
    &&& forall|i: int| 0 <= i < 10 ==> ('0' <= #[trigger] code[i] <= '9' || 'A' <= code[i] <= 'F')
}

pub fn pairing_code_from(b: &[u8; 16]) -> (code: String)
    ensures
        code@ == pairing_code_of(b@),
        is_pairing_code(code@),
{
    let simple = uuid_to_simple(b);
    let v = chars_of(simple.as_str());
    proof {
        lemma_hex_lower(b@);
    }
    let mut first: Vec<char> = Vec::new();
    let mut i: usize = 0;
    while i < 10
        invariant
            i <= 10,
            v@ == uuid_simple(b@),
            v@.len() == 32,
            first@ == v@.take(i as int),
        decreases 10 - i,
    {
        first.push(v[i]);
        i = i + 1;
    }
    let s = string_from_chars(first.as_slice());
    proof {
        assert forall|j: int| 0 <= j < s@.len() implies '\0' <= #[trigger] s@[j] <= '\u{7f}' by {
            assert(s@[j] == v@[j]);
        }
    }
    let code = to_uppercase(s.as_str());
    proof {
        assert forall|j: int| 0 <= j < 10 implies ('0' <= #[trigger] code@[j] <= '9' || 'A'
            <= code@[j] <= 'F') by {
            assert(code@[j] == crate::codec::ascii_upper(s@[j]));
            assert(s@[j] == v@[j]);
            assert('0' <= v@[j] <= '9' || 'a' <= v@[j] <= 'f');
        }
    }
    code
}

/// A fresh pairing code.
pub fn new_pairing_code() -> (r: Result<String, ApiError>)
    ensures
        match r {
            Ok(code) => is_pairing_code(code@) && exists|b: Seq<u8>|
                is_v4_uuid(b) && code@ == pairing_code_of(b),
            Err(e) => (e.status, e.message@) == random_failure(),
        },
{
    match random_uuid() {
        Some(b) => Ok(pairing_code_from(&b)),
        None => Err(ApiError::new(INTERNAL_SERVER_ERROR, "服务器生成随机数失败")),
    }
}

/// When a pairing created at `now` expires.
pub fn pairing_expiry(now_micros: i64) -> (t: i64)
    requires
        now_micros + pairing_lifetime_micros() <= i64::MAX,
    ensures
        t == now_micros + pairing_lifetime_micros(),
{
    now_micros + 900_000_000
}

/// What `claim_pairing` makes of a submitted code: trimmed and upper-cased,
/// ten bytes long.
pub open spec fn claim_code_spec(code: Seq<char>) -> Result<Seq<char>, (u16, Seq<char>)> {
    let c = uppercase(trim(code));
    if utf8_len(c) != 10 {
        Err((BAD_REQUEST, "配对码格式无效"@))
    } else {
        Ok(c)
    }
}

pub open spec fn api_text_result(r: Result<String, ApiError>) -> Result<Seq<char>, (u16, Seq<char>)> {
    match r {
        Ok(v) => Ok(v@),
        Err(e) => Err((e.status, e.message@)),
    }
}

pub fn normalize_claim_code(code: &str) -> (r: Result<String, ApiError>)
    ensures
        api_text_result(r) == claim_code_spec(code@),
{
    let t = trim_text(code);
    let c = to_uppercase(t.as_str());
    if byte_len(c.as_str()) != 10 {
        return Err(ApiError::new(BAD_REQUEST, "配对码格式无效"));
    }
    Ok(c)
}

/// What the relay holds of a pairing when it is claimed.
pub struct PairingRecord {
    pub id: [u8; 16],
    pub initiator_device_id: [u8; 16],
    pub claimant_device_id: Option<[u8; 16]>,
    pub status: String,
    pub expires_at_micros: i64,
    pub created_at_micros: i64,
    pub accepted_at_micros: Option<i64>,
}

pub open spec fn claim_check_spec(
    initiator: Seq<u8>,
    claimant: Seq<u8>,
    status: Seq<char>,
    expires_at: int,
    now: int,
) -> Option<(u16, Seq<char>)> {
    if initiator == claimant {
        Some((BAD_REQUEST, "不能用同一设备完成双方配对"@))
    } else if status != "pending"@ || expires_at <= now {
        Some((GONE, "配对码已过期或已使用"@))
    } else {
        None
    }
}

/// A pairing can be claimed by another device while it is pending and
/// before it expires.
pub fn claim_allowed_at(pairing: &PairingRecord, claimant: &[u8; 16], now_micros: i64) -> (r: Result<(), ApiError>)
    ensures
        err_view(r) == claim_check_spec(
            pairing.initiator_device_id@,
            claimant@,
            pairing.status@,
            pairing.expires_at_micros as int,
            now_micros as int,
        ),
{
    if constant_time_eq(&pairing.initiator_device_id, claimant) {
        return Err(ApiError::new(BAD_REQUEST, "不能用同一设备完成双方配对"));
    }
    if !same_text(pairing.status.as_str(), "pending") || pairing.expires_at_micros <= now_micros {
        return Err(ApiError::new(GONE, "配对码已过期或已使用"));
    }
    Ok(())
}

/// Checks a claim against the current time; the clock is read only for a
/// pending pairing claimed by another device. The claim succeeds only at a
/// clock reading before the pairing expires.
pub fn check_claim(pairing: &PairingRecord, claimant: &[u8; 16]) -> (r: Result<(), ApiError>)
    ensures
        ({
            &&& pairing.initiator_device_id@ != claimant@
            &&& pairing.status@ == "pending"@
            &&& err_view(r) == Some(clock_failure())
        }) || exists|now: i64| is_clock_reading(now as int) && err_view(r) == #[trigger] claim_check_spec(
            pairing.initiator_device_id@,
            claimant@,
            pairing.status@,
            pairing.expires_at_micros as int,
            now as int,
        ),
        r is Ok ==> exists|now: i64|
            is_clock_reading(now as int) && now < pairing.expires_at_micros && #[trigger] claim_check_spec(
                pairing.initiator_device_id@,
                claimant@,
                pairing.status@,
                pairing.expires_at_micros as int,
                now as int,
            ) is None,
{
    if constant_time_eq(&pairing.initiator_device_id, claimant) {
        let r = Err(ApiError::new(BAD_REQUEST, "不能用同一设备完成双方配对"));
        assert(err_view(r) == claim_check_spec(
            pairing.initiator_device_id@,
            claimant@,
            pairing.status@,
            pairing.expires_at_micros as int,
            0,
        ));
        return r;
    }
    if !same_text(pairing.status.as_str(), "pending") {
        let r = Err(ApiError::new(GONE, "配对码已过期或已使用"));
        assert(err_view(r) == claim_check_spec(
            pairing.initiator_device_id@,
            claimant@,
            pairing.status@,
            pairing.expires_at_micros as int,
            0,
        ));
        return r;
    }
    match utc_now_micros() {
        Some(now) => claim_allowed_at(pairing, claimant, now),
        None => Err(ApiError::new(INTERNAL_SERVER_ERROR, "服务器时间无效")),
    }
}

// ---------------------------------------------------------------------------
// Uploaded changes
// ---------------------------------------------------------------------------

/// An encrypted change as a device uploads it.
pub struct EncryptedChangeInput {
    pub record_id: String,
    pub operation: String,
    pub revision: i64,
    pub key_version: i32,
    pub ciphertext_b64: String,
    pub nonce_b64: String,
    pub aad_b64: Option<String>,
    pub payload_digest: String,
    pub deleted_at: Option<i64>,
}

/// An uploaded change in the form the relay stores it; `deleted_at` in
/// milliseconds since the Unix epoch, within the calendar range.
pub struct DecodedChange {
    pub ciphertext: Vec<u8>,
    pub nonce: Vec<u8>,
    pub aad: Option<Vec<u8>>,
    pub deleted_at: Option<i64>,
}

/// The largest Base64 ciphertext the relay takes, in bytes.
pub open spec fn max_ciphertext_b64_len() -> int {
    8388608int
}

/// Whether a payload digest is 64 hexadecimal digits.
pub open spec fn is_digest_text(d: Seq<char>) -> bool {
    utf8_len(d) == 64 && forall|i: int| 0 <= i < d.len() ==> is_hex_digit(#[trigger] d[i])
}

/// The checks on an uploaded change, in the order they are made; `Ok` holds
/// the decoded ciphertext, nonce, associated data and deletion time.
pub open spec fn decode_spec(c: EncryptedChangeInput) -> Result<(Seq<u8>, Seq<u8>, Option<Seq<u8>>, Option<i64>), (u16, Seq<char>)> {
    if is_blank(c.record_id@) || utf8_len(c.record_id@) > 512 {
        Err((BAD_REQUEST, "记录标识无效"@))
    } else if !valid_operation(c.operation@) {
        Err((BAD_REQUEST, "同步操作类型无效"@))
    } else if c.revision < 0 || c.revision > i32::MAX {
        Err((BAD_REQUEST, "记录版本无效"@))
    } else if !valid_key_version(c.key_version as int) {
        Err((BAD_REQUEST, "加密密钥版本无效"@))
    } else if !is_digest_text(c.payload_digest@) {
        Err((BAD_REQUEST, "密文摘要格式无效"@))
    } else if utf8_len(c.ciphertext_b64@) > max_ciphertext_b64_len() {
        Err((PAYLOAD_TOO_LARGE, "单条密文过大"@))
    } else {
        match b64_decode(c.ciphertext_b64@) {
            None => Err((BAD_REQUEST, "密文不是有效 Base64"@)),
            Some(ct) => match b64_decode(c.nonce_b64@) {
                None => Err((BAD_REQUEST, "随机数不是有效 Base64"@)),
                Some(nonce) => if nonce.len() < 8 || nonce.len() > 64 {
                    Err((BAD_REQUEST, "随机数长度无效"@))
                } else {
                    let aad: Option<Option<Seq<u8>>> = match c.aad_b64 {
                        None => Some(None),
                        Some(t) => match b64_decode(t@) {
                            None => None,
                            Some(a) => Some(Some(a)),
                        },
                    };
                    match aad {
                        None => Err((BAD_REQUEST, "AAD 不是有效 Base64"@)),
                        Some(aad) => if aad matches Some(a) && a.len() > 4096 {
                            Err((BAD_REQUEST, "AAD 过大"@))
                        } else if c.deleted_at matches Some(ms) && !(min_utc_millis() <= ms
                            <= max_utc_millis()) {
                            Err((BAD_REQUEST, "删除时间无效"@))
                        } else {
                            Ok((ct, nonce, aad, c.deleted_at))
                        },
                    }
                },
            },
        }
    }
}

pub open spec fn decoded_view(r: Result<DecodedChange, ApiError>) -> Result<(Seq<u8>, Seq<u8>, Option<Seq<u8>>, Option<i64>), (u16, Seq<char>)> {
    match r {
        Ok(d) => Ok(
            (
                d.ciphertext@,
                d.nonce@,
                match d.aad {
                    Some(a) => Some(a@),
                    None => None,
                },
                d.deleted_at,
            ),
        ),
        Err(e) => Err((e.status, e.message@)),
    }
}

/// Validates an uploaded change and decodes what the relay stores of it.
pub fn decode_change(change: &EncryptedChangeInput) -> (r: Result<DecodedChange, ApiError>)
    ensures
        decoded_view(r) == decode_spec(*change),
{
    if blank_text(change.record_id.as_str()) || byte_len(change.record_id.as_str()) > 512 {
        return Err(ApiError::new(BAD_REQUEST, "记录标识无效"));
    }
    if !is_valid_operation(change.operation.as_str()) {
        return Err(ApiError::new(BAD_REQUEST, "同步操作类型无效"));
    }
    if change.revision < 0 || change.revision > 2147483647 {
        return Err(ApiError::new(BAD_REQUEST, "记录版本无效"));
    }
    if !(1 <= change.key_version && change.key_version <= 100) {
        return Err(ApiError::new(BAD_REQUEST, "加密密钥版本无效"));
    }
    if byte_len(change.payload_digest.as_str()) != 64 || !all_hex_digits(
        change.payload_digest.as_str(),
    ) {
        return Err(ApiError::new(BAD_REQUEST, "密文摘要格式无效"));
    }
    if byte_len(change.ciphertext_b64.as_str()) > 8 * 1024 * 1024 {
        return Err(ApiError::new(PAYLOAD_TOO_LARGE, "单条密文过大"));
    }
    let ciphertext = match decode_base64(change.ciphertext_b64.as_str()) {
        Some(v) => v,
        None => return Err(ApiError::new(BAD_REQUEST, "密文不是有效 Base64")),
    };
    let nonce = match decode_base64(change.nonce_b64.as_str()) {
        Some(v) => v,
        None => return Err(ApiError::new(BAD_REQUEST, "随机数不是有效 Base64")),
    };
    if nonce.len() < 8 || nonce.len() > 64 {
        return Err(ApiError::new(BAD_REQUEST, "随机数长度无效"));
    }
    let aad: Option<Vec<u8>> = match &change.aad_b64 {
        None => None,
        Some(t) => match decode_base64(t.as_str()) {
            Some(a) => Some(a),
            None => return Err(ApiError::new(BAD_REQUEST, "AAD 不是有效 Base64")),
        },
    };
    match &aad {
        Some(a) => {
            if a.len() > 4096 {
                return Err(ApiError::new(BAD_REQUEST, "AAD 过大"));
            }
        },
        None => {},
    }
    match change.deleted_at {
        Some(ms) => {
            if !utc_millis_representable(ms) {
                return Err(ApiError::new(BAD_REQUEST, "删除时间无效"));
            }
        },
        None => {},
    }
    Ok(DecodedChange { ciphertext, nonce, aad, deleted_at: change.deleted_at })
}

/// Between one and one hundred changes per upload.
pub fn check_push_size(n: usize) -> (r: Result<(), ApiError>)
    ensures
        err_view(r) == if n == 0 || n > 100 {
            Some((BAD_REQUEST, "每次上传需要包含 1 到 100 条变更"@))
        } else {
            None
        },
{
    if n == 0 || n > 100 {
        return Err(ApiError::new(BAD_REQUEST, "每次上传需要包含 1 到 100 条变更"));
    }
    Ok(())
}

// ---------------------------------------------------------------------------
// Meeting the stored version of a record
// ---------------------------------------------------------------------------

/// The version of a record that the relay already holds.
pub struct ExistingSyncItem {
    pub revision: i64,
    pub content_digest: String,
}

/// What an upload does to one record.
pub enum ChangePlan {
    /// The relay already holds this exact version: accepted, nothing written.
    Unchanged,
    /// The relay holds a newer version, or another one of the same revision:
    /// rejected.
    Conflict(RemoteSyncConflict),
    /// Written at a new stream position; a tombstone is recorded or cleared.
    Store { tombstone: bool },
}

/// The three outcomes, without their data.
pub enum PlanKind {
    Unchanged,
    Conflict,
    Store,
}

/// How a change of `revision` and `digest` meets the stored version.
pub open spec fn plan_kind(existing: Option<(i64, Seq<char>)>, revision: i64, digest: Seq<char>) -> PlanKind {
    match existing {
        None => PlanKind::Store,
        Some((stored_revision, stored_digest)) => if revision < stored_revision {
            PlanKind::Conflict
        } else if revision == stored_revision {
            if digest == stored_digest {
                PlanKind::Unchanged
            } else {
                PlanKind::Conflict
            }
        } else {
            PlanKind::Store
        },
    }
}

pub open spec fn existing_view(e: Option<&ExistingSyncItem>) -> Option<(i64, Seq<char>)> {
    match e {
        Some(x) => Some((x.revision, x.content_digest@)),
        None => None,
    }
}

pub open spec fn kind_of(p: ChangePlan) -> PlanKind {
    match p {
        ChangePlan::Unchanged => PlanKind::Unchanged,
        ChangePlan::Conflict(_) => PlanKind::Conflict,
        ChangePlan::Store { .. } => PlanKind::Store,
    }
}

/// Decides what an uploaded change does to the stored version of its record.
/// A conflict reports the stored version as local and the upload as remote.
pub fn plan_change(existing: Option<&ExistingSyncItem>, change: &EncryptedChangeInput) -> (p: ChangePlan)
    ensures
        kind_of(p) == plan_kind(existing_view(existing), change.revision, change.payload_digest@),
        p matches ChangePlan::Conflict(c) ==> {
            &&& existing matches Some(e)
            &&& c.record_id@ == change.record_id@
            &&& c.local_revision == e.revision
            &&& c.remote_revision == change.revision
            &&& c.local_digest@ == e.content_digest@
            &&& c.remote_digest@ == change.payload_digest@
        },
        p matches ChangePlan::Store { tombstone } ==> tombstone == (change.operation@ == "tombstone"@),
{
    match existing {
        Some(e) => {
            let conflict = change.revision < e.revision || (change.revision == e.revision
                && change.payload_digest != e.content_digest);
            if conflict {
                return ChangePlan::Conflict(
                    RemoteSyncConflict {
                        record_id: change.record_id.clone(),
                        local_revision: e.revision,
                        remote_revision: change.revision,
                        local_digest: e.content_digest.clone(),
                        remote_digest: change.payload_digest.clone(),
                    },
                );
            }
            if change.revision == e.revision {
                return ChangePlan::Unchanged;
            }
        },
        None => {},
    }
    ChangePlan::Store { tombstone: same_text(change.operation.as_str(), "tombstone") }
}

/// The stored version of a record after an upload has been planned against
/// it: a stored change replaces it, otherwise it stays.
pub open spec fn stored_after(existing: Option<(i64, Seq<char>)>, revision: i64, digest: Seq<char>) -> Option<(i64, Seq<char>)> {
    match plan_kind(existing, revision, digest) {
        PlanKind::Store => Some((revision, digest)),
        _ => existing,
    }
}

/// The running totals of an upload.
pub struct PushTally {
    pub accepted: usize,
    pub rejected: usize,
    pub conflicts: Vec<RemoteSyncConflict>,
}

impl PushTally {
    pub fn new() -> (t: PushTally)
        ensures
            t.accepted == 0,
            t.rejected == 0,
            t.conflicts@.len() == 0,
    {
        PushTally { accepted: 0, rejected: 0, conflicts: Vec::new() }
    }

    /// Counts one planned change: a conflict is rejected and listed, anything
    /// else is accepted.
    pub fn record(&mut self, plan: ChangePlan)
        requires
            old(self).accepted < usize::MAX,
            old(self).rejected < usize::MAX,
        ensures
            match plan {
                ChangePlan::Conflict(c) => {
                    &&& final(self).accepted == old(self).accepted
                    &&& final(self).rejected == old(self).rejected + 1
                    &&& final(self).conflicts@ == old(self).conflicts@.push(c)
                },
                _ => {
                    &&& final(self).accepted == old(self).accepted + 1
                    &&& final(self).rejected == old(self).rejected
                    &&& final(self).conflicts@ == old(self).conflicts@
                },
            },
            final(self).accepted + final(self).rejected == old(self).accepted + old(self).rejected + 1,
            old(self).conflicts@.len() == old(self).rejected ==> final(self).conflicts@.len()
                == final(self).rejected,
    {
        match plan {
            ChangePlan::Conflict(c) => {
                self.rejected = self.rejected + 1;
                self.conflicts.push(c);
            },
            _ => {
                self.accepted = self.accepted + 1;
            },
        }
    }
}

// ---------------------------------------------------------------------------
// Cursors and downloads
// ---------------------------------------------------------------------------

/// What `parse_cursor` makes of an optional cursor text: a stream position,
/// zero when absent.
pub open spec fn cursor_spec(value: Option<Seq<char>>) -> Result<i64, (u16, Seq<char>)> {
    let raw = trim(
        match value {
            Some(v) => v,
            None => "0"@,
        },
    );
    match parse_i64_spec(raw) {
        None => Err((BAD_REQUEST, "同步游标格式无效"@)),
        Some(p) => if p < 0 {
            Err((BAD_REQUEST, "同步游标不能为负数"@))
        } else {
            Ok(p)
        },
    }
}

pub open spec fn position_result(r: Result<i64, ApiError>) -> Result<i64, (u16, Seq<char>)> {
    match r {
        Ok(p) => Ok(p),
        Err(e) => Err((e.status, e.message@)),
    }
}

pub fn parse_cursor(value: Option<&str>) -> (r: Result<i64, ApiError>)
    ensures
        position_result(r) == cursor_spec(
            match value {
                Some(v) => Some(v@),
                None => None,
            },
        ),
{
    let raw = match value {
        Some(v) => trim_text(v),
        None => trim_text("0"),
    };
    let position = match parse_i64(raw.as_str()) {
        Some(p) => p,
        None => return Err(ApiError::new(BAD_REQUEST, "同步游标格式无效")),
    };
    if position < 0 {
        return Err(ApiError::new(BAD_REQUEST, "同步游标不能为负数"));
    }
    Ok(position)
}

/// The page size of a download: 100 by default, between 1 and 500.
pub open spec fn page_limit_spec(limit: Option<u16>) -> int {
    let l = match limit {
        Some(l) => l as int,
        None => 100,
    };
    if l < 1 {
        1
    } else if l > 500 {
        500
    } else {
        l
    }
}

pub fn page_limit(limit: Option<u16>) -> (l: i64)
    ensures
        l == page_limit_spec(limit),
        1 <= l <= 500,
{
    let l: u16 = match limit {
        Some(l) => l,
        None => 100,
    };
    if l < 1 {
        1
    } else if l > 500 {
        500
    } else {
        l as i64
    }
}

/// A positioned cursor in a pairing's stream, issued now (in milliseconds
/// since the Unix epoch); an error when the clock cannot be read.
pub fn sync_cursor(pairing_id: &[u8; 16], position: i64) -> (r: Result<RemoteSyncCursor, ApiError>)
    ensures
        match r {
            Ok(c) => {
                &&& c.stream_id@ == uuid_hyphenated(pairing_id@)
                &&& c.position@ == decimal(position as int)
                &&& c.issued_at >= 0
            },
            Err(e) => (e.status, e.message@) == clock_failure(),
        },
{
    let now = match utc_now_micros() {
        Some(us) => us,
        None => return Err(ApiError::new(INTERNAL_SERVER_ERROR, "服务器时间无效")),
    };
    Ok(
        RemoteSyncCursor {
            stream_id: uuid_to_string(pairing_id),
            position: decimal_i64(position),
            issued_at: now / 1000,
        },
    )
}

/// A stored change as the download query returns it; times in milliseconds
/// since the Unix epoch.
pub struct SyncItemRow {
    pub event_key: String,
    pub operation: String,
    pub revision: i64,
    pub key_version: i32,
    pub payload: Vec<u8>,
    pub payload_nonce: Vec<u8>,
    pub aad: Option<Vec<u8>>,
    pub content_digest: String,
    pub created_at_millis: i64,
    pub deleted_at_millis: Option<i64>,
    pub stream_position: i64,
}

/// A stored change as a download delivers it.
pub struct EncryptedChangeResponse {
    pub record_id: String,
    pub operation: String,
    pub revision: i64,
    pub key_version: i32,
    pub ciphertext_b64: String,
    pub nonce_b64: String,
    pub aad_b64: Option<String>,
    pub payload_digest: String,
    pub changed_at: i64,
    pub deleted_at: Option<i64>,
}

/// Whether a delivered change is the Base64 form of a stored row.
pub open spec fn delivers(c: EncryptedChangeResponse, row: SyncItemRow) -> bool {
    &&& c.record_id@ == row.event_key@
    &&& c.operation@ == row.operation@
    &&& c.revision == row.revision
    &&& c.key_version == row.key_version
    &&& c.ciphertext_b64@ == b64_encode(row.payload@)
    &&& c.nonce_b64@ == b64_encode(row.payload_nonce@)
    &&& crate::codec::opt_text(c.aad_b64) == match row.aad {
        Some(a) => Some(b64_encode(a@)),
        None => None,
    }
    &&& c.payload_digest@ == row.content_digest@
    &&& c.changed_at == row.created_at_millis
    &&& c.deleted_at == row.deleted_at_millis
}

pub fn encrypted_change_response(row: SyncItemRow) -> (r: (EncryptedChangeResponse, i64))
    ensures
        delivers(r.0, row),
        r.1 == row.stream_position,
{
    let ghost old_row = row;
    let aad_b64 = match &row.aad {
        Some(a) => Some(base64_encode(a.as_slice())),
        None => None,
    };
    let c = EncryptedChangeResponse {
        record_id: row.event_key,
        operation: row.operation,
        revision: row.revision,
        key_version: row.key_version,
        ciphertext_b64: base64_encode(row.payload.as_slice()),
        nonce_b64: base64_encode(row.payload_nonce.as_slice()),
        aad_b64,
        payload_digest: row.content_digest,
        changed_at: row.created_at_millis,
        deleted_at: row.deleted_at_millis,
    };
    (c, row.stream_position)
}

/// One page of a download.
pub struct PullPage {
    pub changes: Vec<EncryptedChangeResponse>,
    pub next_position: i64,
    pub has_more: bool,
}

/// How many rows a page delivers.
pub open spec fn page_len(rows: Seq<SyncItemRow>, limit: int) -> int {
    if rows.len() > limit {
        limit
    } else {
        rows.len() as int
    }
}

/// The stream position a page ends at.
pub open spec fn page_next_position(rows: Seq<SyncItemRow>, limit: int, cursor: i64) -> int {
    if page_len(rows, limit) == 0 {
        cursor as int
    } else {
        rows[page_len(rows, limit) - 1].stream_position as int
    }
}

/// Pages the rows that the query returned (at most `limit + 1` rows after
/// `cursor`): the first `limit` rows are delivered, the next position is that
/// of the last delivered row (the cursor when none is), and `has_more` tells
/// whether more rows came back than delivered.
pub fn page_rows(rows: Vec<SyncItemRow>, limit: i64, cursor: i64) -> (p: PullPage)
    requires
        1 <= limit <= 500,
    ensures
        p.has_more == (rows@.len() > limit),
        p.changes@.len() == page_len(rows@, limit as int),
        forall|i: int| 0 <= i < p.changes@.len() ==> delivers(#[trigger] p.changes@[i], rows@[i]),
        p.next_position == page_next_position(rows@, limit as int, cursor),
{
    let ghost all = rows@;
    let has_more = rows.len() > limit as usize;
    let take: usize = if has_more {
        limit as usize
    } else {
        rows.len()
    };
    let mut changes: Vec<EncryptedChangeResponse> = Vec::new();
    let mut next_position = cursor;
    let mut rest = rows;
    let mut i: usize = 0;
    while i < take
        invariant
            take <= all.len(),
            i <= take,
            rest@ == all.skip(i as int),
            changes@.len() == i,
            forall|j: int| 0 <= j < i ==> delivers(#[trigger] changes@[j], all[j]),
            next_position == if i == 0 {
                cursor as int
            } else {
                all[i - 1].stream_position as int
            },
        decreases take - i,
    {
        let row = rest.remove(0);
        assert(row == all[i as int]);
        assert(rest@ == all.skip(i + 1));
        let (c, position) = encrypted_change_response(row);
        changes.push(c);
        next_position = position;
        i = i + 1;
    }
    PullPage { changes, next_position, has_more }
}

/// An acknowledged cursor may not run past the end of the stream.
pub fn check_ack_position(position: i64, max_position: i64) -> (r: Result<(), ApiError>)
    ensures
        err_view(r) == if position > max_position {
            Some((BAD_REQUEST, "同步游标超出当前流位置"@))
        } else {
            None
        },
{
    if position > max_position {
        return Err(ApiError::new(BAD_REQUEST, "同步游标超出当前流位置"));
    }
    Ok(())
}

} // verus!
