//! The desktop client's sync decisions: which relay endpoints are
//! acceptable, what the stored registration amounts to, how a registration
//! proceeds, and what the client checks before it talks to the relay.
use vstd::prelude::*;

use crate::codec::{
    b64_encode, base64_encode, opt_text, parse_url, random_uuid, to_uppercase, uppercase,
    url_parse, uuid_hyphenated, uuid_to_string, is_v4_uuid,
};
use crate::credentials::{require_endpoint, require_spec, stored, text_result};
use crate::crypto::{random_secret_key, x25519_public, x25519_public_key};
use crate::model::{
    RemoteDeviceRegistration, RemoteEncryptedChange, RemotePairing, RemotePairingInvitation,
    RemoteSyncConfig,
};
use crate::text::{
    all_ascii_digits, all_digits, blank_text, byte_len, chars_of, concat_str, decimal, decimal_i64,
    is_blank, parse_i32, parse_i32_spec, same_text, string_from_chars, trim, trim_chars,
    trim_text, trim_trailing_slashes, trim_trailing_slashes_text, utf8_len,
};

verus! {

// ---------------------------------------------------------------------------
// Accounts and endpoints
// ---------------------------------------------------------------------------

/// A QQ account number: one to 32 bytes, all ASCII digits.
pub open spec fn is_valid_account_uin(uin: Seq<char>) -> bool {
    uin.len() > 0 && utf8_len(uin) <= 32 && all_digits(uin)
}

pub fn valid_account_uin(value: &str) -> (r: bool)
    ensures
        r == is_valid_account_uin(value@),
{
    !value.is_empty() && byte_len(value) <= 32 && all_ascii_digits(value)
}

/// What a relay endpoint must be: an HTTP(S) URL with a host and no
/// credentials, query or fragment.
pub open spec fn acceptable_url(u: crate::codec::UrlPartsView) -> bool {
    &&& (u.scheme == "http"@ || u.scheme == "https"@)
    &&& u.host is Some
    &&& u.username.len() == 0
    &&& u.password is None
    &&& u.query is None
    &&& u.fragment is None
}

/// The endpoint as stored: trimmed, without trailing slashes, and acceptable.
pub open spec fn endpoint_spec(endpoint: Seq<char>) -> Result<Seq<char>, Seq<char>> {
    let trimmed = trim_trailing_slashes(trim(endpoint));
    match url_parse(trimmed) {
        None => Err("服务器地址格式无效"@),
        Some(u) => if acceptable_url(u) {
            Ok(trimmed)
        } else {
            Err("服务器地址必须是没有账号、密码、查询参数的 HTTP(S) 地址"@)
        },
    }
}

/// Normalises a relay endpoint entered by the user.
pub fn normalize_endpoint(endpoint: &str) -> (r: Result<String, String>)
    ensures
        text_result(r) == endpoint_spec(endpoint@),
        r matches Ok(e) ==> e@.len() == 0 || e@.last() != '/',
{
    let v = chars_of(endpoint);
    let t = trim_chars(v.as_slice());
    let u = trim_trailing_slashes_text(t.as_slice());
    let trimmed = string_from_chars(u.as_slice());
    let parts = match parse_url(trimmed.as_str()) {
        Some(p) => p,
        None => return Err("服务器地址格式无效".to_owned()),
    };
    if !(same_text(parts.scheme.as_str(), "http") || same_text(parts.scheme.as_str(), "https"))
        || parts.host.is_none() || !parts.username.as_str().is_empty() || parts.password.is_some()
        || parts.query.is_some() || parts.fragment.is_some() {
        return Err("服务器地址必须是没有账号、密码、查询参数的 HTTP(S) 地址".to_owned());
    }
    proof {
        lemma_no_trailing_slash(trim(endpoint@));
    }
    Ok(trimmed)
}

proof fn lemma_no_trailing_slash(s: Seq<char>)
    ensures
        trim_trailing_slashes(s).len() == 0 || trim_trailing_slashes(s).last() != '/',
    decreases s.len(),
{
    if s.len() > 0 && s.last() == '/' {
        lemma_no_trailing_slash(s.drop_last());
    }
}

/// The address of a resource of the relay.
pub fn endpoint_url(endpoint: &str, path: &str) -> (u: String)
    ensures
        u@ == endpoint@ + path@,
{
    concat_str(endpoint, path)
}

/// The account whose published keys are asked for must be a valid account
/// number.
pub fn check_key_account(account_uin: &str) -> (r: Result<(), String>)
    ensures
        text_unit(r) == if is_valid_account_uin(account_uin@) {
            Ok(())
        } else {
            Err("QQ 号无效"@)
        },
{
    if !valid_account_uin(account_uin) {
        return Err("QQ 号无效".to_owned());
    }
    Ok(())
}

/// The address of an account's published keys; the account must be valid
/// and an endpoint set.
pub fn public_keys_url(endpoint: Result<Option<String>, String>, account_uin: &str) -> (r: Result<String, String>)
    ensures
        text_result(r) == if is_valid_account_uin(account_uin@) {
            match require_spec(stored(endpoint), "请先设置远程同步服务器地址"@) {
                Ok(e) => Ok::<Seq<char>, Seq<char>>(e + "/v1/accounts/"@ + account_uin@ + "/public-keys"@),
                Err(m) => Err(m),
            }
        } else {
            Err("QQ 号无效"@)
        },
{
    match check_key_account(account_uin) {
        Ok(()) => {},
        Err(e) => return Err(e),
    }
    let endpoint = match require_endpoint(endpoint) {
        Ok(e) => e,
        Err(m) => return Err(m),
    };
    let u = concat_str(endpoint.as_str(), "/v1/accounts/");
    let u = concat_str(u.as_str(), account_uin);
    Ok(concat_str(u.as_str(), "/public-keys"))
}

// ---------------------------------------------------------------------------
// Stored registration
// ---------------------------------------------------------------------------

/// The client's view of its registration, from the stored secrets (each read
/// in turn; the key pair is looked at only when a device token is present).
pub open spec fn config_spec(
    endpoint: Result<Option<Seq<char>>, Seq<char>>,
    device_id: Result<Option<Seq<char>>, Seq<char>>,
    server_device_id: Result<Option<Seq<char>>, Seq<char>>,
    label: Result<Option<Seq<char>>, Seq<char>>,
    account_uin: Result<Option<Seq<char>>, Seq<char>>,
    key_version: Result<Option<Seq<char>>, Seq<char>>,
    device_token: Result<Option<Seq<char>>, Seq<char>>,
    private_key: Result<Option<Seq<char>>, Seq<char>>,
    public_key: Result<Option<Seq<char>>, Seq<char>>,
) -> Result<(Option<Seq<char>>, Option<Seq<char>>, Option<Seq<char>>, Option<Seq<char>>, Option<Seq<char>>, Option<i32>, bool), Seq<char>> {
    if endpoint is Err {
        Err(endpoint->Err_0)
    } else if device_id is Err {
        Err(device_id->Err_0)
    } else if server_device_id is Err {
        Err(server_device_id->Err_0)
    } else if label is Err {
        Err(label->Err_0)
    } else if account_uin is Err {
        Err(account_uin->Err_0)
    } else if key_version is Err {
        Err(key_version->Err_0)
    } else if device_token is Err {
        Err(device_token->Err_0)
    } else if device_token->Ok_0 is Some && private_key is Err {
        Err(private_key->Err_0)
    } else if device_token->Ok_0 is Some && private_key->Ok_0 is Some && public_key is Err {
        Err(public_key->Err_0)
    } else {
        Ok(
            (
                endpoint->Ok_0,
                device_id->Ok_0,
                server_device_id->Ok_0,
                label->Ok_0,
                account_uin->Ok_0,
                match key_version->Ok_0 {
                    Some(t) => parse_i32_spec(t),
                    None => None,
                },
                device_token->Ok_0 is Some && private_key->Ok_0 is Some && public_key->Ok_0 is Some,
            ),
        )
    }
}

pub open spec fn config_result(r: Result<RemoteSyncConfig, String>) -> Result<(Option<Seq<char>>, Option<Seq<char>>, Option<Seq<char>>, Option<Seq<char>>, Option<Seq<char>>, Option<i32>, bool), Seq<char>> {
    match r {
        Ok(c) => Ok(
            (
                opt_text(c.endpoint),
                opt_text(c.device_id),
                opt_text(c.server_device_id),
                opt_text(c.label),
                opt_text(c.account_uin),
                c.key_version,
                c.registered,
            ),
        ),
        Err(e) => Err(e@),
    }
}

/// The client's registration as the stored secrets describe it; it counts as
/// registered when token, secret key and public key are all present.
pub fn get_remote_sync_config(
    endpoint: Result<Option<String>, String>,
    device_id: Result<Option<String>, String>,
    server_device_id: Result<Option<String>, String>,
    label: Result<Option<String>, String>,
    account_uin: Result<Option<String>, String>,
    key_version: Result<Option<String>, String>,
    device_token: Result<Option<String>, String>,
    private_key: Result<Option<String>, String>,
    public_key: Result<Option<String>, String>,
) -> (r: Result<RemoteSyncConfig, String>)
    ensures
        config_result(r) == config_spec(
            stored(endpoint),
            stored(device_id),
            stored(server_device_id),
            stored(label),
            stored(account_uin),
            stored(key_version),
            stored(device_token),
            stored(private_key),
            stored(public_key),
        ),
{
    let endpoint = match endpoint {
        Ok(v) => v,
        Err(e) => return Err(e),
    };
    let device_id = match device_id {
        Ok(v) => v,
        Err(e) => return Err(e),
    };
    let server_device_id = match server_device_id {
        Ok(v) => v,
        Err(e) => return Err(e),
    };
    let label = match label {
        Ok(v) => v,
        Err(e) => return Err(e),
    };
    let account_uin = match account_uin {
        Ok(v) => v,
        Err(e) => return Err(e),
    };
    let key_version = match key_version {
        Ok(Some(t)) => parse_i32(t.as_str()),
        Ok(None) => None,
        Err(e) => return Err(e),
    };
    let has_token = match device_token {
        Ok(v) => v.is_some(),
        Err(e) => return Err(e),
    };
    let mut registered = false;
    if has_token {
        let has_private = match private_key {
            Ok(v) => v.is_some(),
            Err(e) => return Err(e),
        };
        if has_private {
            let has_public = match public_key {
                Ok(v) => v.is_some(),
                Err(e) => return Err(e),
            };
            registered = has_public;
        }
    }
    Ok(
        RemoteSyncConfig {
            endpoint,
            device_id,
            server_device_id,
            label,
            account_uin,
            key_version,
            registered,
        },
    )
}

/// The stored endpoint, when one is set (not blank).
pub fn usable_endpoint(stored_endpoint: Option<String>) -> (r: Option<String>)
    ensures
        opt_text(r) == match stored_endpoint {
            Some(e) => if is_blank(e@) {
                None
            } else {
                Some(e@)
            },
            None => None,
        },
{
    match stored_endpoint {
        Some(e) => {
            if blank_text(e.as_str()) {
                None
            } else {
                Some(e)
            }
        },
        None => None,
    }
}

/// Whether the device must register again for the logged-in account: it is
/// not bound to that account yet.
pub fn must_register(registered_uin: &Option<String>, login_uin: &str) -> (r: bool)
    ensures
        r == (opt_text(*registered_uin) != Some(login_uin@)),
{
    match registered_uin {
        Some(u) => !same_text(u.as_str(), login_uin),
        None => true,
    }
}

// ---------------------------------------------------------------------------
// Registration
// ---------------------------------------------------------------------------

/// The checked inputs of a registration.
pub struct RegistrationInput {
    pub endpoint: String,
    pub account_uin: String,
    pub label: Option<String>,
}

pub open spec fn registration_input_spec(endpoint: Seq<char>, account_uin: Seq<char>, label: Option<Seq<char>>) -> Result<(Seq<char>, Seq<char>, Option<Seq<char>>), Seq<char>> {
    match endpoint_spec(endpoint) {
        Err(e) => Err(e),
        Ok(ep) => {
            let uin = trim(account_uin);
            if !is_valid_account_uin(uin) {
                Err("QQ 号只能包含数字，且不能超过 32 位"@)
            } else {
                Ok(
                    (
                        ep,
                        uin,
                        match label {
                            Some(l) => if trim(l).len() == 0 {
                                None
                            } else {
                                Some(trim(l))
                            },
                            None => None,
                        },
                    ),
                )
            }
        },
    }
}

/// Checks the endpoint, the account and the label of a registration; the
/// account and label are trimmed and a blank label is dropped.
pub fn prepare_registration(endpoint: &str, account_uin: &str, label: Option<String>) -> (r: Result<RegistrationInput, String>)
    ensures
        match r {
            Ok(i) => registration_input_spec(endpoint@, account_uin@, opt_text(label)) == Ok::<
                (Seq<char>, Seq<char>, Option<Seq<char>>),
                Seq<char>,
            >((i.endpoint@, i.account_uin@, opt_text(i.label))),
            Err(e) => registration_input_spec(endpoint@, account_uin@, opt_text(label)) == Err::<
                (Seq<char>, Seq<char>, Option<Seq<char>>),
                Seq<char>,
            >(e@),
        },
{
    let endpoint = match normalize_endpoint(endpoint) {
        Ok(e) => e,
        Err(e) => return Err(e),
    };
    let uin = trim_text(account_uin);
    if !valid_account_uin(uin.as_str()) {
        return Err("QQ 号只能包含数字，且不能超过 32 位".to_owned());
    }
    let label = match label {
        Some(l) => {
            let t = trim_text(l.as_str());
            if t.as_str().is_empty() {
                None
            } else {
                Some(t)
            }
        },
        None => None,
    };
    Ok(RegistrationInput { endpoint, account_uin: uin, label })
}

/// A freshly made device identity: the hyphenated form of a version-4 UUID,
/// or the error for a failed random source.
pub open spec fn fresh_device_id(r: Result<String, String>) -> bool {
    match r {
        Ok(id) => exists|u: Seq<u8>| is_v4_uuid(u) && #[trigger] uuid_hyphenated(u) == id@,
        Err(e) => e@ == "生成设备标识失败"@,
    }
}

/// The device identity to register: the stored one when it is not blank,
/// else a fresh random UUID (an error when the random source fails).
pub fn registration_device_id(stored_id: Result<Option<String>, String>) -> (r: Result<String, String>)
    ensures
        match stored(stored_id) {
            Err(e) => text_result(r) == Err::<Seq<char>, Seq<char>>(e),
            Ok(Some(s)) => if is_blank(s) {
                fresh_device_id(r)
            } else {
                text_result(r) == Ok::<Seq<char>, Seq<char>>(s)
            },
            Ok(None) => fresh_device_id(r),
        },
{
    let s = match stored_id {
        Ok(v) => v,
        Err(e) => return Err(e),
    };
    match s {
        Some(v) => {
            if !blank_text(v.as_str()) {
                return Ok(v);
            }
        },
        None => {},
    }
    match random_uuid() {
        Some(fresh) => {
            let id = uuid_to_string(&fresh);
            assert(is_v4_uuid(fresh@) && uuid_hyphenated(fresh@) == id@);
            Ok(id)
        },
        None => Err("生成设备标识失败".to_owned()),
    }
}

/// The outcome of a registration that the relay accepted.
pub fn registration_result(
    input: RegistrationInput,
    device_id: String,
    server_device_id: &[u8; 16],
    key_version: i32,
    created_at: String,
) -> (r: RemoteDeviceRegistration)
    ensures
        r.endpoint@ == input.endpoint@,
        r.device_id@ == device_id@,
        r.server_device_id@ == uuid_hyphenated(server_device_id@),
        r.account_uin@ == input.account_uin@,
        r.key_version == key_version,
        r.created_at@ == created_at@,
{
    RemoteDeviceRegistration {
        endpoint: input.endpoint,
        device_id,
        server_device_id: uuid_to_string(server_device_id),
        account_uin: input.account_uin,
        key_version,
        created_at,
    }
}

/// What the client does when the relay answers a registration with a
/// conflict: try again, up to three attempts in all.
pub fn registration_conflict(attempts: u32) -> (r: Result<(), String>)
    ensures
        text_unit(r) == if attempts >= 3 {
            Err("设备标识与其他账号冲突，请清除远程同步凭据后重试"@)
        } else {
            Ok(())
        },
{
    if attempts >= 3 {
        return Err("设备标识与其他账号冲突，请清除远程同步凭据后重试".to_owned());
    }
    Ok(())
}

pub open spec fn text_unit(r: Result<(), String>) -> Result<(), Seq<char>> {
    match r {
        Ok(()) => Ok(()),
        Err(e) => Err(e@),
    }
}

/// The key pair of a secret key: both halves in Base64.
pub open spec fn keypair_of(secret: Seq<u8>) -> (Seq<char>, Seq<char>) {
    (b64_encode(secret), b64_encode(x25519_public(secret)))
}

pub fn keypair_from_secret(secret: [u8; 32]) -> (r: (String, String))
    ensures
        (r.0@, r.1@) == keypair_of(secret@),
{
    let public = x25519_public_key(secret);
    (base64_encode(&secret), base64_encode(&public))
}

/// The device key pair: the stored one when both halves are stored, else a
/// fresh one (not stored here).
pub fn load_or_create_keypair(
    private_key: Result<Option<String>, String>,
    public_key: Result<Option<String>, String>,
) -> (r: Result<(String, String), String>)
    ensures
        match (stored(private_key), stored(public_key)) {
            (Err(e), _) => r matches Err(x) && x@ == e,
            (Ok(_), Err(e)) => r matches Err(x) && x@ == e,
            (Ok(Some(p)), Ok(Some(q))) => r matches Ok(kp) && kp.0@ == p && kp.1@ == q,
            _ => match r {
                Ok(kp) => exists|s: Seq<u8>| s.len() == 32 && (kp.0@, kp.1@) == #[trigger] keypair_of(s),
                Err(e) => e@ == "生成同步密钥失败"@,
            },
        },
{
    let p = match private_key {
        Ok(v) => v,
        Err(e) => return Err(e),
    };
    let q = match public_key {
        Ok(v) => v,
        Err(e) => return Err(e),
    };
    match (p, q) {
        (Some(p), Some(q)) => Ok((p, q)),
        _ => {
            let secret = match random_secret_key() {
                Some(k) => k,
                None => return Err("生成同步密钥失败".to_owned()),
            };
            let kp = keypair_from_secret(secret);
            assert(secret@.len() == 32 && (kp.0@, kp.1@) == keypair_of(secret@));
            Ok(kp)
        },
    }
}

// ---------------------------------------------------------------------------
// Pairing
// ---------------------------------------------------------------------------

/// What the client makes of a pairing code typed by the user: trimmed and
/// upper-cased, ten bytes long.
pub open spec fn client_code_spec(code: Seq<char>) -> Result<Seq<char>, Seq<char>> {
    let c = uppercase(trim(code));
    if utf8_len(c) != 10 {
        Err("配对码应为 10 位字符"@)
    } else {
        Ok(c)
    }
}

pub fn normalize_pairing_code(code: &str) -> (r: Result<String, String>)
    ensures
        text_result(r) == client_code_spec(code@),
{
    let t = trim_text(code);
    let c = to_uppercase(t.as_str());
    if byte_len(c.as_str()) != 10 {
        return Err("配对码应为 10 位字符".to_owned());
    }
    Ok(c)
}

/// A pairing invitation as the relay returns it; identities as UUID bytes.
pub struct CreatePairingResponse {
    pub pairing_id: [u8; 16],
    pub code: String,
    pub expires_at: String,
    pub initiator_device_id: [u8; 16],
    pub initiator_public_key: String,
}

/// A pairing as the relay lists it; identities as UUID bytes.
pub struct PairingResponse {
    pub id: [u8; 16],
    pub initiator_device_id: [u8; 16],
    pub initiator_public_key: Option<String>,
    pub claimant_device_id: Option<[u8; 16]>,
    pub claimant_public_key: Option<String>,
    pub status: String,
    pub expires_at: String,
    pub created_at: String,
    pub accepted_at: Option<String>,
}

impl RemotePairingInvitation {
    /// The invitation with its identities in hyphenated form.
    pub fn from_response(value: CreatePairingResponse) -> (r: RemotePairingInvitation)
        ensures
            r.pairing_id@ == uuid_hyphenated(value.pairing_id@),
            r.code@ == value.code@,
            r.expires_at@ == value.expires_at@,
            r.initiator_device_id@ == uuid_hyphenated(value.initiator_device_id@),
            r.initiator_public_key@ == value.initiator_public_key@,
    {
        RemotePairingInvitation {
            pairing_id: uuid_to_string(&value.pairing_id),
            code: value.code,
            expires_at: value.expires_at,
            initiator_device_id: uuid_to_string(&value.initiator_device_id),
            initiator_public_key: value.initiator_public_key,
        }
    }
}

impl RemotePairing {
    /// The pairing with its identities in hyphenated form.
    pub fn from(value: PairingResponse) -> (r: RemotePairing)
        ensures
            r.pairing_id@ == uuid_hyphenated(value.id@),
            r.initiator_device_id@ == uuid_hyphenated(value.initiator_device_id@),
            opt_text(r.initiator_public_key) == opt_text(value.initiator_public_key),
            opt_text(r.claimant_device_id) == match value.claimant_device_id {
                Some(id) => Some(uuid_hyphenated(id@)),
                None => None,
            },
            opt_text(r.claimant_public_key) == opt_text(value.claimant_public_key),
            r.status@ == value.status@,
            r.expires_at@ == value.expires_at@,
            r.created_at@ == value.created_at@,
            opt_text(r.accepted_at) == opt_text(value.accepted_at),
    {
        let claimant = match &value.claimant_device_id {
            Some(id) => Some(uuid_to_string(id)),
            None => None,
        };
        RemotePairing {
            pairing_id: uuid_to_string(&value.id),
            initiator_device_id: uuid_to_string(&value.initiator_device_id),
            initiator_public_key: value.initiator_public_key,
            claimant_device_id: claimant,
            claimant_public_key: value.claimant_public_key,
            status: value.status,
            expires_at: value.expires_at,
            created_at: value.created_at,
            accepted_at: value.accepted_at,
        }
    }
}

// ---------------------------------------------------------------------------
// Talking to the relay
// ---------------------------------------------------------------------------

/// An upload carries one to one hundred changes, all for the same account.
pub fn check_push_batch(target_uin: &str, changes: &Vec<RemoteEncryptedChange>) -> (r: Result<(), String>)
    ensures
        text_unit(r) == if changes@.len() == 0 || changes@.len() > 100 {
            Err("每次同步需要包含 1 到 100 条变更"@)
        } else if exists|i: int| 0 <= i < changes@.len() && (#[trigger] changes@[i]).target_uin@ != target_uin@ {
            Err("一批变更必须发给同一目标账号"@)
        } else {
            Ok(())
        },
{
    let n = changes.len();
    if n == 0 || n > 100 {
        return Err("每次同步需要包含 1 到 100 条变更".to_owned());
    }
    for i in 0..n
        invariant
            n == changes@.len(),
            0 < n <= 100,
            forall|j: int| 0 <= j < i ==> (#[trigger] changes@[j]).target_uin@ == target_uin@,
    {
        if !same_text(changes[i].target_uin.as_str(), target_uin) {
            assert(changes@[i as int].target_uin@ != target_uin@);
            return Err("一批变更必须发给同一目标账号".to_owned());
        }
    }
    Ok(())
}

/// The query of a download: the cursor when it is not blank, and the page
/// size clamped to 1..=500 when given.
pub open spec fn pull_query_spec(cursor: Option<Seq<char>>, limit: Option<u16>) -> Seq<(Seq<char>, Seq<char>)> {
    let c: Seq<(Seq<char>, Seq<char>)> = match cursor {
        Some(v) => if is_blank(v) {
            Seq::empty()
        } else {
            seq![("cursor"@, v)]
        },
        None => Seq::empty(),
    };
    match limit {
        Some(l) => c.push(
            (
                "limit"@,
                decimal(
                    if l < 1 {
                        1
                    } else if l > 500 {
                        500
                    } else {
                        l as int
                    },
                ),
            ),
        ),
        None => c,
    }
}

pub fn pull_query(cursor: Option<String>, limit: Option<u16>) -> (q: Vec<(String, String)>)
    ensures
        q@.map_values(|p: (String, String)| (p.0@, p.1@)) == pull_query_spec(opt_text(cursor), limit),
{
    let mut q: Vec<(String, String)> = Vec::new();
    match cursor {
        Some(c) => {
            if !blank_text(c.as_str()) {
                q.push(("cursor".to_owned(), c));
            }
        },
        None => {},
    }
    let ghost before = q@;
    match limit {
        Some(l) => {
            let v: u16 = if l < 1 {
                1
            } else if l > 500 {
                500
            } else {
                l
            };
            q.push(("limit".to_owned(), decimal_i64(v as i64)));
            assert(q@.map_values(|p: (String, String)| (p.0@, p.1@)) == before.map_values(
                |p: (String, String)| (p.0@, p.1@),
            ).push((q@.last().0@, q@.last().1@)));
        },
        None => {},
    }
    q
}

/// Whether an HTTP status is a success (200 to 299).
pub fn status_is_success(status: u16) -> (r: bool)
    ensures
        r == (200 <= status <= 299),
{
    200 <= status && status <= 299
}

/// The message for a relay error answer: the `error` text of its JSON body
/// when there is a non-empty one.
pub open spec fn server_error_spec(status: u16, error: Option<Seq<char>>) -> Seq<char> {
    let message = match error {
        Some(e) => if e.len() > 0 {
            e
        } else {
            "服务器返回了未预期的错误"@
        },
        None => "服务器返回了未预期的错误"@,
    };
    "远程同步服务器返回 "@ + decimal(status as int) + "："@ + message
}

pub fn server_error_message(status: u16, error: Option<String>) -> (m: String)
    ensures
        m@ == server_error_spec(status, opt_text(error)),
{
    let message = match error {
        Some(e) => {
            if e.as_str().is_empty() {
                "服务器返回了未预期的错误".to_owned()
            } else {
                e
            }
        },
        None => "服务器返回了未预期的错误".to_owned(),
    };
    let d = decimal_i64(status as i64);
    let t = concat_str("远程同步服务器返回 ", d.as_str());
    let t = concat_str(t.as_str(), "：");
    concat_str(t.as_str(), message.as_str())
}

/// Whether a failed request may be retried: too many requests, or a server
/// error.
pub fn _status_is_retryable(status: u16) -> (r: bool)
    ensures
        r == (status == 429 || 500 <= status <= 599),
{
    status == 429 || (500 <= status && status <= 599)
}

} // verus!
