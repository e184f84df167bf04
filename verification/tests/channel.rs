use base64::{engine::general_purpose::STANDARD, Engine as _};
use sha2::{Digest, Sha256};

use qzone_sync::channel::{
    check_received_change, derive_account_key, encrypt_remote_payload, finish_remote_decryption, is_valid_operation,
    prepare_remote_decryption, seal_remote_payload, PROTOCOL_VERSION,
};
use qzone_sync::model::{
    DecryptRemotePayloadRequest, EncryptRemotePayloadRequest, RemoteAccountPublicKey,
    RemoteEncryptedChange,
};

const ALICE_SECRET: &str = "dwdtCnMYpX08FsFyUbJmRd9ML4frwJkqsXf7pR25LCo=";
const ALICE_PUBLIC: &str = "hSDwCYkwp1R0i33ctD73Wg2/Og0mOBr066SpjqqbTmo=";
const BOB_SECRET: &str = "XasIfmJKikt54X+Lg4AO5m87sSkmGLb9HC+LJ/+I4Os=";
const BOB_PUBLIC: &str = "3p7bfXt9wbTTW2HC7OQ1Nz+DQ8hbeGdNrfx+FG+IK08=";
const ALICE_UIN: &str = "10001";
const BOB_UIN: &str = "20002";
const PAYLOAD: &str = r#"{"feed":"hello","likes":3}"#;

fn s(v: &str) -> Result<Option<String>, String> {
    Ok(Some(v.to_string()))
}

fn request_to_bob(record_id: &str) -> EncryptRemotePayloadRequest {
    EncryptRemotePayloadRequest {
        target_uin: BOB_UIN.to_string(),
        peer_public_key: BOB_PUBLIC.to_string(),
        target_key_version: 2,
        sender_key_version: 2,
        record_id: record_id.to_string(),
        operation: "upsert".to_string(),
        revision: 7,
        payload: PAYLOAD.as_bytes().to_vec(),
        deleted_at: Some(1_700_000_000_000),
    }
}

fn alice_keys() -> Vec<RemoteAccountPublicKey> {
    vec![
        RemoteAccountPublicKey {
            key_version: 1,
            public_key: BOB_PUBLIC.to_string(),
            device_id: "old".to_string(),
            label: None,
            registered_at: "2023".to_string(),
        },
        RemoteAccountPublicKey {
            key_version: 2,
            public_key: ALICE_PUBLIC.to_string(),
            device_id: "desk".to_string(),
            label: Some("desk".to_string()),
            registered_at: "2024".to_string(),
        },
    ]
}

fn seal_from_alice(record_id: &str) -> RemoteEncryptedChange {
    encrypt_remote_payload(request_to_bob(record_id), s(ALICE_UIN), s(ALICE_SECRET)).ok().unwrap()
}

fn open_at_bob(change: RemoteEncryptedChange, source: &str) -> Result<Vec<u8>, String> {
    let pending = prepare_remote_decryption(
        DecryptRemotePayloadRequest { source_uin: source.to_string(), change },
        s(BOB_UIN),
        s("2"),
    )?;
    finish_remote_decryption(pending, &alice_keys(), s(BOB_SECRET))
}

fn err<T>(r: Result<T, String>) -> String {
    match r {
        Ok(_) => panic!("expected an error"),
        Err(e) => e,
    }
}

#[test]
fn operations() {
    assert!(is_valid_operation("upsert"));
    assert!(is_valid_operation("tombstone"));
    assert!(!is_valid_operation("Upsert"));
    assert_eq!(PROTOCOL_VERSION, 2);
}

#[test]
fn account_keys_agree_between_peers() {
    let at_alice = derive_account_key(BOB_UIN, BOB_PUBLIC, 1, s(ALICE_SECRET)).ok().unwrap();
    let at_bob =
        derive_account_key(BOB_UIN, &format!(" {ALICE_PUBLIC}\n"), 1, s(BOB_SECRET)).ok().unwrap();
    assert_eq!(at_alice, at_bob);
    let other_version = derive_account_key(BOB_UIN, BOB_PUBLIC, 2, s(ALICE_SECRET)).ok().unwrap();
    assert_ne!(at_alice, other_version);
}

#[test]
fn account_key_is_hkdf_of_the_shared_secret() {
    let key = derive_account_key("10001", BOB_PUBLIC, 1, s(ALICE_SECRET)).ok().unwrap();
    let hex: String = key.iter().map(|b| format!("{b:02x}")).collect();
    assert_eq!(hex, "ed7000f433ee9afa00b2688d3f8e8c774295d13ecbb70a4041d50ea1b153a6f5");
}

#[test]
fn account_key_errors() {
    assert_eq!(err(derive_account_key(BOB_UIN, "***", 1, s(ALICE_SECRET))), "对端公钥不是有效 Base64");
    assert_eq!(err(derive_account_key(BOB_UIN, "AAAA", 1, s(ALICE_SECRET))), "对端公钥长度无效");
    assert_eq!(err(derive_account_key(BOB_UIN, BOB_PUBLIC, 1, Ok(None))), "当前设备尚未生成同步密钥");
    assert_eq!(err(derive_account_key(BOB_UIN, BOB_PUBLIC, 1, Err("store".into()))), "store");
    assert_eq!(err(derive_account_key(BOB_UIN, BOB_PUBLIC, 1, s("%%"))), "本机同步私钥损坏");
    assert_eq!(err(derive_account_key(BOB_UIN, BOB_PUBLIC, 1, s("AAAA"))), "本机同步私钥长度无效");
}

#[test]
fn sealed_records_carry_their_binding() {
    let nonce = [9u8; 24];
    let c = seal_remote_payload(request_to_bob("feed-1"), s(ALICE_UIN), s(ALICE_SECRET), Some(nonce), Some(1234))
        .ok()
        .unwrap();
    assert_eq!(c.record_id, "feed-1");
    assert_eq!(c.operation, "upsert");
    assert_eq!((c.revision, c.key_version, c.sender_key_version), (7, 2, 2));
    assert_eq!(c.target_uin, BOB_UIN);
    assert_eq!(c.source_uin.as_deref(), Some(ALICE_UIN));
    assert_eq!(c.nonce_b64, STANDARD.encode(nonce));
    let aad = "protocolVersion=2;sourceUin=10001;sourceKeyVersion=2;targetUin=20002;targetKeyVersion=2;recordId=feed-1;revision=7;operation=upsert";
    assert_eq!(c.aad_b64, Some(STANDARD.encode(aad)));
    let ct = STANDARD.decode(&c.ciphertext_b64).unwrap();
    assert_eq!(ct.len(), PAYLOAD.len() + 16);
    assert_ne!(&ct[..PAYLOAD.len()], PAYLOAD.as_bytes());
    let digest: String = Sha256::digest(&ct).iter().map(|b| format!("{b:02x}")).collect();
    assert_eq!(c.payload_digest, digest);
    assert_eq!((c.changed_at, c.deleted_at), (1234, Some(1_700_000_000_000)));
    let again = seal_remote_payload(request_to_bob("feed-1"), s(ALICE_UIN), s(ALICE_SECRET), Some(nonce), Some(1234))
        .ok()
        .unwrap();
    assert_eq!(again.ciphertext_b64, c.ciphertext_b64);
    assert_eq!(
        err(seal_remote_payload(request_to_bob("feed-1"), s(ALICE_UIN), s(ALICE_SECRET), Some(nonce), None)),
        "本机时间无效"
    );
    assert_eq!(
        err(seal_remote_payload(request_to_bob("feed-1"), s(ALICE_UIN), s(ALICE_SECRET), None, Some(1234))),
        "生成随机数失败"
    );
}

#[test]
fn sealed_record_opens_for_peer() {
    let c = seal_from_alice("feed-1");
    assert_eq!(open_at_bob(c, ""), Ok(PAYLOAD.as_bytes().to_vec()));
    let c = seal_from_alice("feed-2");
    assert_eq!(open_at_bob(c, ALICE_UIN), Ok(PAYLOAD.as_bytes().to_vec()));
}

#[test]
fn records_open_whatever_the_key_versions() {
    let mut r = request_to_bob("feed-3");
    r.sender_key_version = 1;
    let c = encrypt_remote_payload(r, s(ALICE_UIN), s(ALICE_SECRET)).ok().unwrap();
    let pending = prepare_remote_decryption(
        DecryptRemotePayloadRequest { source_uin: String::new(), change: c },
        s(BOB_UIN),
        s("2"),
    )
    .ok()
    .unwrap();
    let keys = vec![RemoteAccountPublicKey {
        key_version: 1,
        public_key: ALICE_PUBLIC.to_string(),
        device_id: "desk".to_string(),
        label: None,
        registered_at: "2024".to_string(),
    }];
    assert_eq!(
        finish_remote_decryption(pending, &keys, s(BOB_SECRET)),
        Ok(PAYLOAD.as_bytes().to_vec())
    );
}

#[test]
fn received_change_checks_need_no_store() {
    let mut c = seal_from_alice("feed-1");
    assert_eq!(check_received_change(&c), Ok(()));
    c.revision = -1;
    assert_eq!(check_received_change(&c), Err("记录版本或密钥版本无效".to_string()));
    c.operation = "x".into();
    assert_eq!(check_received_change(&c), Err("同步操作类型无效".to_string()));
}

#[test]
fn fresh_nonces_differ() {
    let a = seal_from_alice("feed-1");
    let b = seal_from_alice("feed-1");
    assert_ne!(a.nonce_b64, b.nonce_b64);
    assert_ne!(a.ciphertext_b64, b.ciphertext_b64);
    assert!(a.changed_at > 1_600_000_000_000);
}

#[test]
fn encryption_requests_are_checked() {
    let bad = |f: &dyn Fn(&mut EncryptRemotePayloadRequest)| {
        let mut r = request_to_bob("feed-1");
        f(&mut r);
        err(encrypt_remote_payload(r, s(ALICE_UIN), s(ALICE_SECRET)))
    };
    assert_eq!(bad(&|r| r.record_id = " ".into()), "记录标识无效");
    assert_eq!(bad(&|r| r.record_id = "x".repeat(513)), "记录标识无效");
    assert_eq!(bad(&|r| r.operation = "drop".into()), "同步操作类型无效");
    assert_eq!(bad(&|r| r.revision = -1), "记录版本或密钥版本无效");
    assert_eq!(bad(&|r| r.target_key_version = 0), "记录版本或密钥版本无效");
    assert_eq!(bad(&|r| r.sender_key_version = 101), "记录版本或密钥版本无效");
    assert_eq!(bad(&|r| r.peer_public_key = "AAAA".into()), "对端公钥长度无效");
    assert_eq!(
        err(encrypt_remote_payload(request_to_bob("f"), Ok(None), s(ALICE_SECRET))),
        "当前设备尚未绑定 QQ 账号"
    );
}

#[test]
fn altered_change_is_refused() {
    let mut c = seal_from_alice("feed-1");
    c.revision = 8;
    assert_eq!(open_at_bob(c, ""), Err("同步记录 AAD 校验失败".to_string()));
    let mut c = seal_from_alice("feed-1");
    c.record_id = "feed-9".to_string();
    assert_eq!(open_at_bob(c, ""), Err("同步记录 AAD 校验失败".to_string()));
    let mut c = seal_from_alice("feed-1");
    c.operation = "tombstone".to_string();
    assert_eq!(open_at_bob(c, ""), Err("同步记录 AAD 校验失败".to_string()));
}

#[test]
fn received_changes_are_checked() {
    let base = || seal_from_alice("feed-1");
    let mut c = base();
    c.operation = "x".into();
    assert_eq!(open_at_bob(c, ""), Err("同步操作类型无效".to_string()));
    let mut c = base();
    c.sender_key_version = 0;
    assert_eq!(open_at_bob(c, ""), Err("记录版本或密钥版本无效".to_string()));
    let mut c = base();
    c.key_version = 3;
    assert_eq!(open_at_bob(c, ""), Err("该记录加密目标不是本设备密钥版本".to_string()));
    let mut c = base();
    c.source_uin = None;
    assert_eq!(open_at_bob(c, " "), Err("同步记录缺少发送方账号".to_string()));
    let mut c = base();
    c.aad_b64 = None;
    assert_eq!(open_at_bob(c, ""), Err("同步记录缺少 AAD".to_string()));
    let mut c = base();
    c.aad_b64 = Some("@@".into());
    assert_eq!(open_at_bob(c, ""), Err("同步记录的 AAD 不是有效 Base64".to_string()));
    let mut c = base();
    c.nonce_b64 = "AAAA".into();
    assert_eq!(open_at_bob(c, ""), Err("同步记录随机数长度无效".to_string()));
    let mut c = base();
    c.nonce_b64 = "A".into();
    assert_eq!(open_at_bob(c, ""), Err("同步记录随机数不是有效 Base64".to_string()));
    let mut c = base();
    c.ciphertext_b64 = "A".into();
    assert_eq!(open_at_bob(c, ""), Err("同步密文不是有效 Base64".to_string()));
    let mut c = base();
    c.payload_digest = "0".repeat(64);
    assert_eq!(open_at_bob(c, ""), Err("同步密文摘要校验失败".to_string()));
    let c = base();
    let e = prepare_remote_decryption(
        DecryptRemotePayloadRequest { source_uin: String::new(), change: c },
        s(BOB_UIN),
        s("two"),
    );
    assert_eq!(e.err(), Some("本机同步密钥版本损坏".to_string()));
    let c = base();
    let e = prepare_remote_decryption(
        DecryptRemotePayloadRequest { source_uin: String::new(), change: c },
        Ok(None),
        s("2"),
    );
    assert_eq!(e.err(), Some("当前设备尚未绑定 QQ 账号".to_string()));
    let c = base();
    let e = prepare_remote_decryption(
        DecryptRemotePayloadRequest { source_uin: String::new(), change: c },
        s(BOB_UIN),
        Ok(None),
    );
    assert_eq!(e.err(), Some("当前设备缺少同步密钥版本".to_string()));
}

#[test]
fn opening_needs_the_senders_key() {
    let c = seal_from_alice("feed-1");
    let pending = prepare_remote_decryption(
        DecryptRemotePayloadRequest { source_uin: String::new(), change: c },
        s(BOB_UIN),
        s("2"),
    )
    .ok()
    .unwrap();
    assert_eq!(pending.sender_uin, ALICE_UIN);
    assert_eq!(pending.local_uin, BOB_UIN);
    let only_old = vec![alice_keys().remove(0)];
    assert_eq!(
        finish_remote_decryption(pending, &only_old, s(BOB_SECRET)),
        Err("找不到发送方对应密钥版本，可能已重装或换钥".to_string())
    );
}

#[test]
fn opening_with_the_wrong_key_fails() {
    let c = seal_from_alice("feed-1");
    let pending = prepare_remote_decryption(
        DecryptRemotePayloadRequest { source_uin: String::new(), change: c },
        s(BOB_UIN),
        s("2"),
    )
    .ok()
    .unwrap();
    assert_eq!(
        finish_remote_decryption(pending, &alice_keys(), s(ALICE_SECRET)),
        Err("同步记录解密失败，可能来自其他发送方或已被篡改".to_string())
    );
}

#[test]
fn opened_records_must_be_json() {
    let mut r = request_to_bob("feed-1");
    r.payload = b"not json".to_vec();
    let c = encrypt_remote_payload(r, s(ALICE_UIN), s(ALICE_SECRET)).ok().unwrap();
    assert_eq!(open_at_bob(c, ""), Err("同步记录内容不是有效 JSON".to_string()));
}
