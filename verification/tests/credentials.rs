use qzone_sync::credentials::{
    current_key_version, delete_secret, read_secret, require_account_uin, require_device_token,
    require_endpoint, write_secret, SecretDelete, SecretRead, SecretWrite,
};

#[test]
fn secret_reads() {
    assert_eq!(read_secret(SecretRead::Found("v".into())), Ok(Some("v".to_string())));
    assert_eq!(read_secret(SecretRead::NoEntry), Ok(None));
    assert_eq!(
        read_secret(SecretRead::EntryFailed("locked".into())),
        Err("打开系统安全凭据库失败：locked".to_string())
    );
    assert_eq!(
        read_secret(SecretRead::ReadFailed("denied".into())),
        Err("读取系统安全凭据失败：denied".to_string())
    );
    assert_eq!(read_secret(SecretRead::Unsupported), Err("当前平台不支持系统安全凭据库".to_string()));
}

#[test]
fn secret_writes() {
    assert_eq!(write_secret(SecretWrite::Done), Ok(()));
    assert_eq!(
        write_secret(SecretWrite::EntryFailed("x".into())),
        Err("打开系统安全凭据库失败：x".to_string())
    );
    assert_eq!(
        write_secret(SecretWrite::WriteFailed("full".into())),
        Err("保存系统安全凭据失败：full".to_string())
    );
    assert_eq!(write_secret(SecretWrite::Unsupported), Err("当前平台不支持系统安全凭据库".to_string()));
}

#[test]
fn secret_deletions() {
    assert_eq!(delete_secret(SecretDelete::Done), Ok(()));
    assert_eq!(delete_secret(SecretDelete::NoEntry), Ok(()));
    assert_eq!(
        delete_secret(SecretDelete::EntryFailed("x".into())),
        Err("打开系统安全凭据库失败：x".to_string())
    );
    assert_eq!(
        delete_secret(SecretDelete::DeleteFailed("busy".into())),
        Err("删除系统安全凭据失败：busy".to_string())
    );
    assert_eq!(delete_secret(SecretDelete::Unsupported), Err("当前平台不支持系统安全凭据库".to_string()));
}

#[test]
fn required_secrets() {
    assert_eq!(require_account_uin(Ok(Some("10001".into()))), Ok("10001".to_string()));
    assert_eq!(require_account_uin(Ok(None)), Err("当前设备尚未绑定 QQ 账号".to_string()));
    assert_eq!(require_account_uin(Err("e".into())), Err("e".to_string()));
    assert_eq!(require_endpoint(Ok(None)), Err("请先设置远程同步服务器地址".to_string()));
    assert_eq!(require_endpoint(Ok(Some("https://r".into()))), Ok("https://r".to_string()));
    assert_eq!(require_device_token(Ok(None)), Err("请先在此设备完成服务器注册".to_string()));
    assert_eq!(require_device_token(Ok(Some("t".into()))), Ok("t".to_string()));
}

#[test]
fn stored_key_version() {
    assert_eq!(current_key_version(Ok(Some("7".into()))), Ok(7));
    assert_eq!(current_key_version(Ok(Some("-3".into()))), Ok(-3));
    assert_eq!(current_key_version(Ok(Some("2147483648".into()))), Err("本机同步密钥版本损坏".to_string()));
    assert_eq!(current_key_version(Ok(Some(" 7".into()))), Err("本机同步密钥版本损坏".to_string()));
    assert_eq!(current_key_version(Ok(None)), Err("当前设备缺少同步密钥版本".to_string()));
    assert_eq!(current_key_version(Err("e".into())), Err("e".to_string()));
}
