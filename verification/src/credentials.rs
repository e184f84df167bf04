//! The client's secrets (relay endpoint, device identity, token, key pair,
//! account) live in the operating system credential store. The store itself
//! is reached by the application; these functions turn its answers into the
//! results and messages that the sync commands work with.
use vstd::prelude::*;

use crate::text::{concat_str, parse_i32, parse_i32_spec};

verus! {

/// What the credential store answered to a read.
pub enum SecretRead {
    Found(String),
    NoEntry,
    /// The store's entry could not be opened; its error text.
    EntryFailed(String),
    /// The read failed; its error text.
    ReadFailed(String),
    /// This platform has no credential store.
    Unsupported,
}

/// What the credential store answered to a write.
pub enum SecretWrite {
    Done,
    EntryFailed(String),
    WriteFailed(String),
    Unsupported,
}

/// What the credential store answered to a deletion.
pub enum SecretDelete {
    Done,
    NoEntry,
    EntryFailed(String),
    DeleteFailed(String),
    Unsupported,
}

/// A stored secret as the sync commands see it: absent, present, or the
/// store's error message.
pub open spec fn stored(r: Result<Option<String>, String>) -> Result<Option<Seq<char>>, Seq<char>> {
    match r {
        Ok(Some(v)) => Ok(Some(v@)),
        Ok(None) => Ok(None),
        Err(e) => Err(e@),
    }
}

pub open spec fn unit_result(r: Result<(), String>) -> Result<(), Seq<char>> {
    match r {
        Ok(()) => Ok(()),
        Err(e) => Err(e@),
    }
}

pub open spec fn text_result(r: Result<String, String>) -> Result<Seq<char>, Seq<char>> {
    match r {
        Ok(v) => Ok(v@),
        Err(e) => Err(e@),
    }
}

pub open spec fn entry_error(e: Seq<char>) -> Seq<char> {
    "打开系统安全凭据库失败："@ + e
}

pub open spec fn unsupported_message() -> Seq<char> {
    "当前平台不支持系统安全凭据库"@
}

/// The secret that a read found, `None` when there is none.
pub open spec fn read_secret_spec(a: SecretRead) -> Result<Option<Seq<char>>, Seq<char>> {
    match a {
        SecretRead::Found(v) => Ok(Some(v@)),
        SecretRead::NoEntry => Ok(None),
        SecretRead::EntryFailed(e) => Err(entry_error(e@)),
        SecretRead::ReadFailed(e) => Err("读取系统安全凭据失败："@ + e@),
        SecretRead::Unsupported => Err(unsupported_message()),
    }
}

/// Reading one secret from the credential store.
pub fn read_secret(answer: SecretRead) -> (r: Result<Option<String>, String>)
    ensures
        stored(r) == read_secret_spec(answer),
{
    match answer {
        SecretRead::Found(v) => Ok(Some(v)),
        SecretRead::NoEntry => Ok(None),
        SecretRead::EntryFailed(e) => Err(concat_str("打开系统安全凭据库失败：", e.as_str())),
        SecretRead::ReadFailed(e) => Err(concat_str("读取系统安全凭据失败：", e.as_str())),
        SecretRead::Unsupported => Err("当前平台不支持系统安全凭据库".to_owned()),
    }
}

/// Saving one secret in the credential store.
pub fn write_secret(answer: SecretWrite) -> (r: Result<(), String>)
    ensures
        unit_result(r) == match answer {
            SecretWrite::Done => Ok(()),
            SecretWrite::EntryFailed(e) => Err(entry_error(e@)),
            SecretWrite::WriteFailed(e) => Err("保存系统安全凭据失败："@ + e@),
            SecretWrite::Unsupported => Err(unsupported_message()),
        },
{
    match answer {
        SecretWrite::Done => Ok(()),
        SecretWrite::EntryFailed(e) => Err(concat_str("打开系统安全凭据库失败：", e.as_str())),
        SecretWrite::WriteFailed(e) => Err(concat_str("保存系统安全凭据失败：", e.as_str())),
        SecretWrite::Unsupported => Err("当前平台不支持系统安全凭据库".to_owned()),
    }
}

/// Removing one secret from the credential store; a secret that is not
/// there counts as removed.
pub fn delete_secret(answer: SecretDelete) -> (r: Result<(), String>)
    ensures
        unit_result(r) == match answer {
            SecretDelete::Done => Ok(()),
            SecretDelete::NoEntry => Ok(()),
            SecretDelete::EntryFailed(e) => Err(entry_error(e@)),
            SecretDelete::DeleteFailed(e) => Err("删除系统安全凭据失败："@ + e@),
            SecretDelete::Unsupported => Err(unsupported_message()),
        },
{
    match answer {
        SecretDelete::Done => Ok(()),
        SecretDelete::NoEntry => Ok(()),
        SecretDelete::EntryFailed(e) => Err(concat_str("打开系统安全凭据库失败：", e.as_str())),
        SecretDelete::DeleteFailed(e) => Err(concat_str("删除系统安全凭据失败：", e.as_str())),
        SecretDelete::Unsupported => Err("当前平台不支持系统安全凭据库".to_owned()),
    }
}

/// A stored secret that must be present, with the message for its absence.
pub open spec fn require_spec(s: Result<Option<Seq<char>>, Seq<char>>, missing: Seq<char>) -> Result<Seq<char>, Seq<char>> {
    match s {
        Ok(Some(v)) => Ok(v),
        Ok(None) => Err(missing),
        Err(e) => Err(e),
    }
}

fn require_stored(s: Result<Option<String>, String>, missing: &str) -> (r: Result<String, String>)
    ensures
        text_result(r) == require_spec(stored(s), missing@),
{
    match s {
        Ok(Some(v)) => Ok(v),
        Ok(None) => Err(missing.to_owned()),
        Err(e) => Err(e),
    }
}

pub open spec fn require_account_uin_spec(s: Result<Option<Seq<char>>, Seq<char>>) -> Result<Seq<char>, Seq<char>> {
    require_spec(s, "当前设备尚未绑定 QQ 账号"@)
}

/// The QQ account this device is bound to.
pub fn require_account_uin(s: Result<Option<String>, String>) -> (r: Result<String, String>)
    ensures
        text_result(r) == require_account_uin_spec(stored(s)),
{
    require_stored(s, "当前设备尚未绑定 QQ 账号")
}

/// The relay endpoint this device uses.
pub fn require_endpoint(s: Result<Option<String>, String>) -> (r: Result<String, String>)
    ensures
        text_result(r) == require_spec(stored(s), "请先设置远程同步服务器地址"@),
{
    require_stored(s, "请先设置远程同步服务器地址")
}

/// The device token that the relay issued to this device.
pub fn require_device_token(s: Result<Option<String>, String>) -> (r: Result<String, String>)
    ensures
        text_result(r) == require_spec(stored(s), "请先在此设备完成服务器注册"@),
{
    require_stored(s, "请先在此设备完成服务器注册")
}

pub open spec fn current_key_version_spec(s: Result<Option<Seq<char>>, Seq<char>>) -> Result<i32, Seq<char>> {
    match s {
        Ok(Some(v)) => match parse_i32_spec(v) {
            Some(k) => Ok(k),
            None => Err("本机同步密钥版本损坏"@),
        },
        Ok(None) => Err("当前设备缺少同步密钥版本"@),
        Err(e) => Err(e),
    }
}

pub open spec fn int_result(r: Result<i32, String>) -> Result<i32, Seq<char>> {
    match r {
        Ok(v) => Ok(v),
        Err(e) => Err(e@),
    }
}

/// The key version that the relay assigned to this device's key.
pub fn current_key_version(s: Result<Option<String>, String>) -> (r: Result<i32, String>)
    ensures
        int_result(r) == current_key_version_spec(stored(s)),
{
    match s {
        Ok(Some(v)) => match parse_i32(v.as_str()) {
            Some(k) => Ok(k),
            None => Err("本机同步密钥版本损坏".to_owned()),
        },
        Ok(None) => Err("当前设备缺少同步密钥版本".to_owned()),
        Err(e) => Err(e),
    }
}

} // verus!
