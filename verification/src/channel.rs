//! End-to-end encryption of sync records between two accounts.
//!
//! A record for a peer account is sealed with XChaCha20-Poly1305 under a key
//! that both sides derive with HKDF-SHA256 from their X25519 agreement and a
//! context naming the target account and its key version. The associated
//! data binds the protocol version, both accounts, both key versions, the
//! record, its revision and the operation; the relay only ever sees the
//! ciphertext and its SHA-256 digest.
use vstd::prelude::*;

use crate::codec::{b64_decode, b64_encode, base64_encode, decode_base64, json_is_document, json_parses};
use crate::credentials::{
    current_key_version, current_key_version_spec, int_result, require_account_uin,
    require_account_uin_spec, stored, text_result,
};
use crate::crypto::{
    aead_len_ok, aead_open, aead_seal, hkdf_sha256, hkdf_sha256_32, random_nonce, sha256, to_array24,
    to_array32,
    sha256_digest, x25519_agree, x25519_diffie_hellman, x25519_public, x25519_shared, xchacha_decrypt,
    xchacha_encrypt,
};
use crate::model::{
    ChangeView, DecryptRemotePayloadRequest, EncryptRemotePayloadRequest, EncryptRequestView,
    RemoteAccountPublicKey, RemoteEncryptedChange,
};
use crate::text::{
    blank_text, byte_len, concat_str, decimal, decimal_i64, hex_lower, hex_lower_text, is_blank,
    same_text, trim, trim_text, utf8_len,
};
use vstd::utf8::encode_utf8;
use crate::clock::{since_epoch, system_now};

verus! {

/// The wall clock in whole milliseconds since the Unix epoch, `None` when it
/// reads before the epoch.
fn clock_millis() -> (r: Option<u128>) {
    match since_epoch(system_now()) {
        None => None,
        Some((secs, nanos)) => Some(secs as u128 * 1000 + (nanos / 1_000_000) as u128),
    }
}

/// The version of the sync protocol that the associated data names.
pub const PROTOCOL_VERSION: i32 = 2;

/// Key versions are numbered from 1 to 100.
pub open spec fn valid_key_version(v: int) -> bool {
    1 <= v <= 100
}

/// A record is either written or deleted.
pub open spec fn valid_operation(op: Seq<char>) -> bool {
    op == "upsert"@ || op == "tombstone"@
}

pub fn is_valid_operation(op: &str) -> (r: bool)
    ensures
        r == valid_operation(op@),
{
    same_text(op, "upsert") || same_text(op, "tombstone")
}

/// The HKDF context of the key for records to `target_uin` under key
/// version `kv`.
pub open spec fn key_context(target_uin: Seq<char>, kv: int) -> Seq<char> {
    "qzonearchive/recovery-sync/v2:target="@ + target_uin + ":keyVersion="@ + decimal(kv)
}

/// The associated data of a record, as text.
pub open spec fn aad_text(
    source_uin: Seq<char>,
    source_kv: int,
    target_uin: Seq<char>,
    target_kv: int,
    record_id: Seq<char>,
    revision: int,
    operation: Seq<char>,
) -> Seq<char> {
    "protocolVersion="@ + decimal(PROTOCOL_VERSION as int) + ";sourceUin="@ + source_uin
        + ";sourceKeyVersion="@ + decimal(source_kv) + ";targetUin="@ + target_uin
        + ";targetKeyVersion="@ + decimal(target_kv) + ";recordId="@ + record_id + ";revision="@
        + decimal(revision) + ";operation="@ + operation
}

/// The X25519 secret that a holder of `secret` computes with `peer`; when the
/// peer key is a public key, it is the shared secret of the two key pairs.
pub open spec fn dh_secret(secret: Seq<u8>, peer: Seq<u8>) -> Seq<u8> {
    if exists|b: Seq<u8>| b.len() == 32 && peer == #[trigger] x25519_public(b) {
        x25519_shared(set![x25519_public(secret), peer])
    } else {
        x25519_agree(secret, peer)
    }
}

/// The account key derivation: the peer's Base64 public key (trimmed), the
/// device's stored Base64 secret key, both 32 bytes.
pub open spec fn account_key_spec(
    target_uin: Seq<char>,
    peer_public_key: Seq<char>,
    kv: int,
    private_key: Result<Option<Seq<char>>, Seq<char>>,
) -> Result<Seq<u8>, Seq<char>> {
    match b64_decode(trim(peer_public_key)) {
        None => Err("对端公钥不是有效 Base64"@),
        Some(peer) => if peer.len() != 32 {
            Err("对端公钥长度无效"@)
        } else {
            match private_key {
                Err(e) => Err(e),
                Ok(None) => Err("当前设备尚未生成同步密钥"@),
                Ok(Some(pk)) => match b64_decode(pk) {
                    None => Err("本机同步私钥损坏"@),
                    Some(sk) => if sk.len() != 32 {
                        Err("本机同步私钥长度无效"@)
                    } else {
                        Ok(hkdf_sha256(dh_secret(sk, peer), encode_utf8(key_context(target_uin, kv))))
                    },
                },
            }
        },
    }
}

pub open spec fn key_result(r: Result<[u8; 32], String>) -> Result<Seq<u8>, Seq<char>> {
    match r {
        Ok(k) => Ok(k@),
        Err(e) => Err(e@),
    }
}

fn key_context_text(target_uin: &str, kv: i32) -> (s: String)
    ensures
        s@ == key_context(target_uin@, kv as int),
{
    let t = concat_str("qzonearchive/recovery-sync/v2:target=", target_uin);
    let t = concat_str(t.as_str(), ":keyVersion=");
    let d = decimal_i64(kv as i64);
    concat_str(t.as_str(), d.as_str())
}

/// Derives the key for records exchanged with the holder of
/// `peer_public_key`, addressed to `target_uin` under key version
/// `peer_key_version`, from this device's stored secret key.
pub fn derive_account_key(
    target_uin: &str,
    peer_public_key: &str,
    peer_key_version: i32,
    private_key: Result<Option<String>, String>,
) -> (r: Result<[u8; 32], String>)
    ensures
        key_result(r) == account_key_spec(
            target_uin@,
            peer_public_key@,
            peer_key_version as int,
            stored(private_key),
        ),
{
    let peer_text = trim_text(peer_public_key);
    let peer_bytes = match decode_base64(peer_text.as_str()) {
        Some(v) => v,
        None => return Err("对端公钥不是有效 Base64".to_owned()),
    };
    let peer = match to_array32(peer_bytes.as_slice()) {
        Some(a) => a,
        None => return Err("对端公钥长度无效".to_owned()),
    };
    let private_text = match private_key {
        Err(e) => return Err(e),
        Ok(None) => return Err("当前设备尚未生成同步密钥".to_owned()),
        Ok(Some(k)) => k,
    };
    let private_bytes = match decode_base64(private_text.as_str()) {
        Some(v) => v,
        None => return Err("本机同步私钥损坏".to_owned()),
    };
    let secret = match to_array32(private_bytes.as_slice()) {
        Some(a) => a,
        None => return Err("本机同步私钥长度无效".to_owned()),
    };
    let shared = x25519_diffie_hellman(secret, peer);
    proof {
        if exists|b: Seq<u8>| b.len() == 32 && peer@ == #[trigger] x25519_public(b) {
            let b = choose|b: Seq<u8>| b.len() == 32 && peer@ == #[trigger] x25519_public(b);
            assert(shared@ == x25519_shared(set![x25519_public(secret@), peer@]));
        }
        assert(shared@ == dh_secret(secret@, peer@));
    }
    let context = key_context_text(target_uin, peer_key_version);
    match hkdf_sha256_32(&shared, context.as_str().as_bytes()) {
        Some(k) => Ok(k),
        None => Err("派生同步密钥失败".to_owned()),
    }
}

fn aad_text_exec(
    source_uin: &str,
    source_kv: i32,
    target_uin: &str,
    target_kv: i32,
    record_id: &str,
    revision: i64,
    operation: &str,
) -> (s: String)
    ensures
        s@ == aad_text(
            source_uin@,
            source_kv as int,
            target_uin@,
            target_kv as int,
            record_id@,
            revision as int,
            operation@,
        ),
{
    let p = decimal_i64(PROTOCOL_VERSION as i64);
    let t = concat_str("protocolVersion=", p.as_str());
    let t = concat_str(t.as_str(), ";sourceUin=");
    let t = concat_str(t.as_str(), source_uin);
    let t = concat_str(t.as_str(), ";sourceKeyVersion=");
    let d = decimal_i64(source_kv as i64);
    let t = concat_str(t.as_str(), d.as_str());
    let t = concat_str(t.as_str(), ";targetUin=");
    let t = concat_str(t.as_str(), target_uin);
    let t = concat_str(t.as_str(), ";targetKeyVersion=");
    let d = decimal_i64(target_kv as i64);
    let t = concat_str(t.as_str(), d.as_str());
    let t = concat_str(t.as_str(), ";recordId=");
    let t = concat_str(t.as_str(), record_id);
    let t = concat_str(t.as_str(), ";revision=");
    let d = decimal_i64(revision);
    let t = concat_str(t.as_str(), d.as_str());
    let t = concat_str(t.as_str(), ";operation=");
    concat_str(t.as_str(), operation)
}

#[verifier::opaque]
/// The change that sealing `req` gives, from the device's account, its
/// secret key, the nonce (`None` when the random source failed) and the clock
/// (milliseconds since the Unix epoch, `None` when the clock is before it).
pub open spec fn seal_spec(
    req: EncryptRequestView,
    account_uin: Result<Option<Seq<char>>, Seq<char>>,
    private_key: Result<Option<Seq<char>>, Seq<char>>,
    nonce: Option<Seq<u8>>,
    clock: Option<u128>,
) -> Result<ChangeView, Seq<char>> {
    if is_blank(req.record_id) || utf8_len(req.record_id) > 512 {
        Err("记录标识无效"@)
    } else if !valid_operation(req.operation) {
        Err("同步操作类型无效"@)
    } else if req.revision < 0 || !valid_key_version(req.target_key_version as int)
        || !valid_key_version(req.sender_key_version as int) {
        Err("记录版本或密钥版本无效"@)
    } else {
        match require_account_uin_spec(account_uin) {
            Err(e) => Err(e),
            Ok(source_uin) => match account_key_spec(
                req.target_uin,
                req.peer_public_key,
                req.target_key_version as int,
                private_key,
            ) {
                Err(e) => Err(e),
                Ok(key) => {
                    let aad = encode_utf8(
                        aad_text(
                            source_uin,
                            req.sender_key_version as int,
                            req.target_uin,
                            req.target_key_version as int,
                            req.record_id,
                            req.revision as int,
                            req.operation,
                        ),
                    );
                    if nonce is None {
                        Err("生成随机数失败"@)
                    } else if !aead_len_ok(req.payload.len()) {
                        Err("加密同步记录失败"@)
                    } else {
                        let nonce = nonce->0;
                        let ct = aead_seal(key, nonce, req.payload, aad);
                        match clock {
                            None => Err("本机时间无效"@),
                            Some(ms) => Ok(
                                ChangeView {
                                    record_id: req.record_id,
                                    operation: req.operation,
                                    revision: req.revision,
                                    key_version: req.target_key_version,
                                    sender_key_version: req.sender_key_version,
                                    target_uin: req.target_uin,
                                    source_uin: Some(source_uin),
                                    ciphertext_b64: b64_encode(ct),
                                    nonce_b64: b64_encode(nonce),
                                    aad_b64: Some(b64_encode(aad)),
                                    payload_digest: hex_lower(sha256_digest(ct)),
                                    changed_at: ms as i64,
                                    deleted_at: req.deleted_at,
                                },
                            ),
                        }
                    }
                },
            },
        }
    }
}

pub open spec fn change_result(r: Result<RemoteEncryptedChange, String>) -> Result<ChangeView, Seq<char>> {
    match r {
        Ok(c) => Ok(c@),
        Err(e) => Err(e@),
    }
}

/// A nonce as the random source gives it: 24 bytes, or nothing.
pub open spec fn nonce_ok(nonce: Option<Seq<u8>>) -> bool {
    nonce matches Some(n) ==> n.len() == 24
}

/// The bytes of an optional nonce.
pub open spec fn nonce_view(nonce: Option<[u8; 24]>) -> Option<Seq<u8>> {
    match nonce {
        Some(n) => Some(n@),
        None => None,
    }
}

/// Seals a record for a peer account with the given nonce and clock reading.
pub fn seal_remote_payload(
    request: EncryptRemotePayloadRequest,
    account_uin: Result<Option<String>, String>,
    private_key: Result<Option<String>, String>,
    nonce: Option<[u8; 24]>,
    clock_millis: Option<u128>,
) -> (r: Result<RemoteEncryptedChange, String>)
    ensures
        change_result(r) == seal_spec(
            request@,
            stored(account_uin),
            stored(private_key),
            nonce_view(nonce),
            clock_millis,
        ),
{
    reveal(seal_spec);
    if blank_text(request.record_id.as_str()) || byte_len(request.record_id.as_str()) > 512 {
        return Err("记录标识无效".to_owned());
    }
    if !is_valid_operation(request.operation.as_str()) {
        return Err("同步操作类型无效".to_owned());
    }
    if request.revision < 0 || !(1 <= request.target_key_version && request.target_key_version
        <= 100) || !(1 <= request.sender_key_version && request.sender_key_version <= 100) {
        return Err("记录版本或密钥版本无效".to_owned());
    }
    let source_uin = match require_account_uin(account_uin) {
        Ok(u) => u,
        Err(e) => return Err(e),
    };
    let key = match derive_account_key(
        request.target_uin.as_str(),
        request.peer_public_key.as_str(),
        request.target_key_version,
        private_key,
    ) {
        Ok(k) => k,
        Err(e) => return Err(e),
    };
    let aad_string = aad_text_exec(
        source_uin.as_str(),
        request.sender_key_version,
        request.target_uin.as_str(),
        request.target_key_version,
        request.record_id.as_str(),
        request.revision,
        request.operation.as_str(),
    );
    let aad = aad_string.as_str().as_bytes();
    let nonce = match nonce {
        Some(n) => n,
        None => return Err("生成随机数失败".to_owned()),
    };
    let ciphertext = match xchacha_encrypt(&key, &nonce, request.payload.as_slice(), aad) {
        Some(c) => c,
        None => return Err("加密同步记录失败".to_owned()),
    };
    let digest = sha256(ciphertext.as_slice());
    let payload_digest = hex_lower_text(&digest);
    let ciphertext_b64 = base64_encode(ciphertext.as_slice());
    let nonce_b64 = base64_encode(&nonce);
    let aad_b64 = base64_encode(aad);
    let changed_at = match clock_millis {
        Some(ms) => ms as i64,
        None => return Err("本机时间无效".to_owned()),
    };
    Ok(
        RemoteEncryptedChange {
            record_id: request.record_id,
            operation: request.operation,
            revision: request.revision,
            key_version: request.target_key_version,
            sender_key_version: request.sender_key_version,
            target_uin: request.target_uin,
            source_uin: Some(source_uin),
            ciphertext_b64,
            nonce_b64,
            aad_b64: Some(aad_b64),
            payload_digest,
            changed_at,
            deleted_at: request.deleted_at,
        },
    )
}

/// Encrypts a record for a peer account under a fresh random nonce, stamped
/// with the wall clock: the result is the sealing of the record under some
/// 24-byte nonce (or a failed random source) and some clock reading.
pub fn encrypt_remote_payload(
    request: EncryptRemotePayloadRequest,
    account_uin: Result<Option<String>, String>,
    private_key: Result<Option<String>, String>,
) -> (r: Result<RemoteEncryptedChange, String>)
    ensures
        exists|nonce: Option<Seq<u8>>, clock: Option<u128>|
            nonce_ok(nonce) && change_result(r) == #[trigger] seal_spec(
                request@,
                stored(account_uin),
                stored(private_key),
                nonce,
                clock,
            ),
{
    let ghost req = request@;
    let ghost a = stored(account_uin);
    let ghost k = stored(private_key);
    let nonce = random_nonce();
    let clock = clock_millis();
    let r = seal_remote_payload(request, account_uin, private_key, nonce, clock);
    assert(change_result(r) == seal_spec(req, a, k, nonce_view(nonce), clock));
    r
}

// ---------------------------------------------------------------------------
// Opening a received record
// ---------------------------------------------------------------------------

/// A received change that passed every local check and waits for the
/// sender's public key.
pub struct PendingDecryption {
    pub local_uin: String,
    pub sender_uin: String,
    pub sender_key_version: i32,
    /// The key version the change was sealed for: this device's.
    pub key_version: i32,
    pub aad: Vec<u8>,
    pub nonce: [u8; 24],
    pub ciphertext: Vec<u8>,
}

/// The model of [`PendingDecryption`].
pub struct PendingView {
    pub local_uin: Seq<char>,
    pub sender_uin: Seq<char>,
    pub sender_key_version: i32,
    pub key_version: i32,
    pub aad: Seq<u8>,
    pub nonce: Seq<u8>,
    pub ciphertext: Seq<u8>,
}

impl View for PendingDecryption {
    type V = PendingView;

    open spec fn view(&self) -> PendingView {
        PendingView {
            local_uin: self.local_uin@,
            sender_uin: self.sender_uin@,
            sender_key_version: self.sender_key_version,
            key_version: self.key_version,
            aad: self.aad@,
            nonce: self.nonce@,
            ciphertext: self.ciphertext@,
        }
    }
}

/// The sending account of a received change: the one the request names
/// when that is not blank, else the one the change carries.
pub open spec fn sender_of(request_source: Seq<char>, change: ChangeView) -> Seq<char> {
    if is_blank(request_source) {
        match change.source_uin {
            Some(s) => s,
            None => Seq::empty(),
        }
    } else {
        request_source
    }
}

/// The local checks on a received change, in the order they are made.
pub open spec fn prepare_spec(
    request_source: Seq<char>,
    change: ChangeView,
    account_uin: Result<Option<Seq<char>>, Seq<char>>,
    key_version: Result<Option<Seq<char>>, Seq<char>>,
) -> Result<PendingView, Seq<char>> {
    if !valid_operation(change.operation) {
        Err("同步操作类型无效"@)
    } else if change.revision < 0 || !valid_key_version(change.key_version as int)
        || !valid_key_version(change.sender_key_version as int) {
        Err("记录版本或密钥版本无效"@)
    } else {
        match require_account_uin_spec(account_uin) {
            Err(e) => Err(e),
            Ok(local_uin) => match current_key_version_spec(key_version) {
                Err(e) => Err(e),
                Ok(local_kv) => if change.key_version != local_kv {
                    Err("该记录加密目标不是本设备密钥版本"@)
                } else {
                    let sender = sender_of(request_source, change);
                    if sender.len() == 0 {
                        Err("同步记录缺少发送方账号"@)
                    } else {
                        match change.aad_b64 {
                            None => Err("同步记录缺少 AAD"@),
                            Some(t) => match b64_decode(t) {
                                None => Err("同步记录的 AAD 不是有效 Base64"@),
                                Some(aad) => if aad != encode_utf8(
                                    aad_text(
                                        sender,
                                        change.sender_key_version as int,
                                        local_uin,
                                        change.key_version as int,
                                        change.record_id,
                                        change.revision as int,
                                        change.operation,
                                    ),
                                ) {
                                    Err("同步记录 AAD 校验失败"@)
                                } else {
                                    match b64_decode(change.nonce_b64) {
                                        None => Err("同步记录随机数不是有效 Base64"@),
                                        Some(nonce) => if nonce.len() != 24 {
                                            Err("同步记录随机数长度无效"@)
                                        } else {
                                            match b64_decode(change.ciphertext_b64) {
                                                None => Err("同步密文不是有效 Base64"@),
                                                Some(ct) => if hex_lower(sha256_digest(ct))
                                                    != change.payload_digest {
                                                    Err("同步密文摘要校验失败"@)
                                                } else {
                                                    Ok(
                                                        PendingView {
                                                            local_uin,
                                                            sender_uin: sender,
                                                            sender_key_version: change.sender_key_version,
                                                            key_version: change.key_version,
                                                            aad,
                                                            nonce,
                                                            ciphertext: ct,
                                                        },
                                                    )
                                                },
                                            }
                                        },
                                    }
                                },
                            },
                        }
                    }
                },
            },
        }
    }
}

pub open spec fn pending_result(r: Result<PendingDecryption, String>) -> Result<PendingView, Seq<char>> {
    match r {
        Ok(p) => Ok(p@),
        Err(e) => Err(e@),
    }
}

fn bytes_equal(a: &[u8], b: &[u8]) -> (r: bool)
    ensures
        r == (a@ == b@),
{
    if a.len() != b.len() {
        return false;
    }
    let n = a.len();
    for i in 0..n
        invariant
            n == a@.len(),
            n == b@.len(),
            forall|j: int| 0 <= j < i ==> a@[j] == b@[j],
    {
        if a[i] != b[i] {
            return false;
        }
    }
    assert(a@ == b@);
    true
}

/// The checks on a received change that need nothing of this device.
pub open spec fn received_change_error(change: ChangeView) -> Option<Seq<char>> {
    if !valid_operation(change.operation) {
        Some("同步操作类型无效"@)
    } else if change.revision < 0 || !valid_key_version(change.key_version as int)
        || !valid_key_version(change.sender_key_version as int) {
        Some("记录版本或密钥版本无效"@)
    } else {
        None
    }
}

/// Checks the operation and the versions of a received change.
pub fn check_received_change(change: &RemoteEncryptedChange) -> (r: Result<(), String>)
    ensures
        match r {
            Ok(()) => received_change_error(change@) is None,
            Err(e) => received_change_error(change@) == Some(e@),
        },
{
    if !is_valid_operation(change.operation.as_str()) {
        return Err("同步操作类型无效".to_owned());
    }
    if change.revision < 0 || !(1 <= change.key_version && change.key_version <= 100) || !(1
        <= change.sender_key_version && change.sender_key_version <= 100) {
        return Err("记录版本或密钥版本无效".to_owned());
    }
    Ok(())
}

/// Checks a received change against this device: operation, versions,
/// addressed key version, sender, associated data, nonce and digest.
pub fn prepare_remote_decryption(
    request: DecryptRemotePayloadRequest,
    account_uin: Result<Option<String>, String>,
    key_version: Result<Option<String>, String>,
) -> (r: Result<PendingDecryption, String>)
    ensures
        pending_result(r) == prepare_spec(
            request.source_uin@,
            request.change@,
            stored(account_uin),
            stored(key_version),
        ),
{
    let change = request.change;
    match check_received_change(&change) {
        Ok(()) => {},
        Err(e) => return Err(e),
    }
    let local_uin = match require_account_uin(account_uin) {
        Ok(u) => u,
        Err(e) => return Err(e),
    };
    let local_kv = match current_key_version(key_version) {
        Ok(v) => v,
        Err(e) => return Err(e),
    };
    if change.key_version != local_kv {
        return Err("该记录加密目标不是本设备密钥版本".to_owned());
    }
    let sender_uin: String = if blank_text(request.source_uin.as_str()) {
        match change.source_uin {
            Some(s) => s,
            None => "".to_owned(),
        }
    } else {
        request.source_uin
    };
    proof {
        reveal_strlit("");
    }
    if sender_uin.as_str().is_empty() {
        return Err("同步记录缺少发送方账号".to_owned());
    }
    let aad_text_b64 = match change.aad_b64 {
        Some(t) => t,
        None => return Err("同步记录缺少 AAD".to_owned()),
    };
    let aad = match decode_base64(aad_text_b64.as_str()) {
        Some(v) => v,
        None => return Err("同步记录的 AAD 不是有效 Base64".to_owned()),
    };
    let expected = aad_text_exec(
        sender_uin.as_str(),
        change.sender_key_version,
        local_uin.as_str(),
        change.key_version,
        change.record_id.as_str(),
        change.revision,
        change.operation.as_str(),
    );
    if !bytes_equal(aad.as_slice(), expected.as_str().as_bytes()) {
        return Err("同步记录 AAD 校验失败".to_owned());
    }
    let nonce_bytes = match decode_base64(change.nonce_b64.as_str()) {
        Some(v) => v,
        None => return Err("同步记录随机数不是有效 Base64".to_owned()),
    };
    let nonce = match to_array24(nonce_bytes.as_slice()) {
        Some(a) => a,
        None => return Err("同步记录随机数长度无效".to_owned()),
    };
    let ciphertext = match decode_base64(change.ciphertext_b64.as_str()) {
        Some(v) => v,
        None => return Err("同步密文不是有效 Base64".to_owned()),
    };
    let digest = hex_lower_text(&sha256(ciphertext.as_slice()));
    if digest != change.payload_digest {
        return Err("同步密文摘要校验失败".to_owned());
    }
    Ok(
        PendingDecryption {
            local_uin,
            sender_uin,
            sender_key_version: change.sender_key_version,
            key_version: change.key_version,
            aad,
            nonce,
            ciphertext,
        },
    )
}

/// The public key of the first published key with the given version.
pub open spec fn first_key_with_version(keys: Seq<RemoteAccountPublicKey>, v: i32) -> Option<Seq<char>>
    decreases keys.len(),
{
    if keys.len() == 0 {
        None
    } else if keys[0].key_version == v {
        Some(keys[0].public_key@)
    } else {
        first_key_with_version(keys.drop_first(), v)
    }
}

/// Opening a checked change with the sender's published keys: the key is
/// derived for this account under the key version the change was sealed for.
pub open spec fn finish_spec(
    p: PendingView,
    keys: Seq<RemoteAccountPublicKey>,
    private_key: Result<Option<Seq<char>>, Seq<char>>,
) -> Result<Seq<u8>, Seq<char>> {
    match first_key_with_version(keys, p.sender_key_version) {
        None => Err("找不到发送方对应密钥版本，可能已重装或换钥"@),
        Some(public_key) => match account_key_spec(
            p.local_uin,
            public_key,
            p.key_version as int,
            private_key,
        ) {
            Err(e) => Err(e),
            Ok(key) => match aead_open(key, p.nonce, p.ciphertext, p.aad) {
                None => Err("同步记录解密失败，可能来自其他发送方或已被篡改"@),
                Some(plain) => if json_parses(plain) {
                    Ok(plain)
                } else {
                    Err("同步记录内容不是有效 JSON"@)
                },
            },
        },
    }
}

pub open spec fn bytes_result(r: Result<Vec<u8>, String>) -> Result<Seq<u8>, Seq<char>> {
    match r {
        Ok(v) => Ok(v@),
        Err(e) => Err(e@),
    }
}

/// Opens a checked change with the sender's published keys; the result is
/// the record's JSON text.
pub fn finish_remote_decryption(
    pending: PendingDecryption,
    sender_keys: &Vec<RemoteAccountPublicKey>,
    private_key: Result<Option<String>, String>,
) -> (r: Result<Vec<u8>, String>)
    ensures
        bytes_result(r) == finish_spec(pending@, sender_keys@, stored(private_key)),
{
    let n = sender_keys.len();
    let mut i: usize = 0;
    let mut found: Option<usize> = None;
    assert(sender_keys@.subrange(0, n as int) == sender_keys@);
    while i < n
        invariant_except_break
            i <= n,
            n == sender_keys@.len(),
            found is None,
            first_key_with_version(sender_keys@, pending.sender_key_version)
                == first_key_with_version(sender_keys@.subrange(i as int, n as int), pending.sender_key_version),
        ensures
            found matches Some(j) ==> j < n && first_key_with_version(sender_keys@, pending.sender_key_version) == Some(sender_keys@[j as int].public_key@),
            found is None ==> first_key_with_version(sender_keys@, pending.sender_key_version) is None,
        decreases n - i,
    {
        let ghost rest = sender_keys@.subrange(i as int, n as int);
        assert(rest[0] == sender_keys@[i as int]);
        if sender_keys[i].key_version == pending.sender_key_version {
            found = Some(i);
            break;
        }
        assert(rest.drop_first() == sender_keys@.subrange(i + 1, n as int));
        i = i + 1;
    }
    let j = match found {
        Some(j) => j,
        None => return Err("找不到发送方对应密钥版本，可能已重装或换钥".to_owned()),
    };
    let key = match derive_account_key(
        pending.local_uin.as_str(),
        sender_keys[j].public_key.as_str(),
        pending.key_version,
        private_key,
    ) {
        Ok(k) => k,
        Err(e) => return Err(e),
    };
    let plain = match xchacha_decrypt(&key, &pending.nonce, pending.ciphertext.as_slice(), pending.aad.as_slice()) {
        Some(p) => p,
        None => return Err("同步记录解密失败，可能来自其他发送方或已被篡改".to_owned()),
    };
    if json_is_document(plain.as_slice()) {
        Ok(plain)
    } else {
        Err("同步记录内容不是有效 JSON".to_owned())
    }
}

} // verus!
