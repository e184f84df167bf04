use qzone_sync::channel::{finish_remote_decryption, prepare_remote_decryption};
use qzone_sync::evidence::encrypt_recovery_sync_batch;
use qzone_sync::model::{
    DecryptRemotePayloadRequest, EncryptRemoteBatchRequest, RecoveryObservation,
    RecoveryPackageFields, RemoteAccountPublicKey, RemoteEncryptedChange,
};

const ALICE_SECRET: &str = "dwdtCnMYpX08FsFyUbJmRd9ML4frwJkqsXf7pR25LCo=";
const ALICE_PUBLIC: &str = "hSDwCYkwp1R0i33ctD73Wg2/Og0mOBr066SpjqqbTmo=";
const BOB_SECRET: &str = "XasIfmJKikt54X+Lg4AO5m87sSkmGLb9HC+LJ/+I4Os=";
const BOB_PUBLIC: &str = "3p7bfXt9wbTTW2HC7OQ1Nz+DQ8hbeGdNrfx+FG+IK08=";

fn s(v: &str) -> Result<Option<String>, String> {
    Ok(Some(v.to_string()))
}

fn observation(key: Option<&str>, json: &str) -> RecoveryObservation {
    RecoveryObservation { event_key: key.map(str::to_string), json: json.as_bytes().to_vec() }
}

fn batch(package_id: Option<&str>, observations: Vec<RecoveryObservation>) -> EncryptRemoteBatchRequest {
    EncryptRemoteBatchRequest {
        target_uin: "20002".to_string(),
        peer_public_key: BOB_PUBLIC.to_string(),
        target_key_version: 1,
        sender_key_version: 1,
        package: RecoveryPackageFields {
            package_id: package_id.map(str::to_string),
            schema_version: None,
            exporter_uin: Some(br#""10001""#.to_vec()),
            target_uin: None,
            created_at: Some(br#""2024-01-01""#.to_vec()),
        },
        observations,
    }
}

fn open_at_bob(change: RemoteEncryptedChange) -> Result<Vec<u8>, String> {
    let pending = prepare_remote_decryption(
        DecryptRemotePayloadRequest { source_uin: String::new(), change },
        s("20002"),
        s("1"),
    )?;
    let keys = vec![RemoteAccountPublicKey {
        key_version: 1,
        public_key: ALICE_PUBLIC.to_string(),
        device_id: "desk".to_string(),
        label: None,
        registered_at: "2024".to_string(),
    }];
    finish_remote_decryption(pending, &keys, s(BOB_SECRET))
}

#[test]
fn every_observation_becomes_one_record() {
    let req = batch(
        Some("pkg-1"),
        vec![
            observation(Some("e1"), r#"{"eventKey":"e1","x":1}"#),
            observation(Some("e2"), r#"{"eventKey":"e2","y":[true]}"#),
        ],
    );
    let changes = encrypt_recovery_sync_batch(req, s("10001"), s(ALICE_SECRET)).ok().unwrap();
    assert_eq!(changes.len(), 2);
    assert_eq!(changes[0].record_id, "e1");
    assert_eq!(changes[1].record_id, "e2");
    for c in &changes {
        assert_eq!((c.operation.as_str(), c.revision, c.deleted_at), ("upsert", 1, None));
        assert_eq!(c.source_uin.as_deref(), Some("10001"));
        assert_eq!(c.target_uin, "20002");
    }
    let mut changes = changes;
    let second = changes.pop().unwrap();
    let first = changes.pop().unwrap();
    assert_eq!(
        String::from_utf8(open_at_bob(first).unwrap()).unwrap(),
        r#"{"createdAt":"2024-01-01","exporterUin":"10001","observation":{"eventKey":"e1","x":1},"packageId":"pkg-1","schemaVersion":2,"targetUin":null}"#
    );
    assert_eq!(
        String::from_utf8(open_at_bob(second).unwrap()).unwrap(),
        r#"{"createdAt":"2024-01-01","exporterUin":"10001","observation":{"eventKey":"e2","y":[true]},"packageId":"pkg-1","schemaVersion":2,"targetUin":null}"#
    );
}

#[test]
fn package_id_is_escaped_as_json() {
    let mut req = batch(Some("p\"1\\\n\u{1}\u{7f}é"), vec![observation(Some("e1"), "{}")]);
    req.package.schema_version = Some(b"3".to_vec());
    req.package.target_uin = Some(br#""20002""#.to_vec());
    let mut changes = encrypt_recovery_sync_batch(req, s("10001"), s(ALICE_SECRET)).ok().unwrap();
    let body = String::from_utf8(open_at_bob(changes.pop().unwrap()).unwrap()).unwrap();
    assert_eq!(
        body,
        format!(
            "{}{}{}",
            r#"{"createdAt":"2024-01-01","exporterUin":"10001","observation":{},"packageId":"p\"1\\\n\u0001"#,
            "\u{7f}é",
            r#"","schemaVersion":3,"targetUin":"20002"}"#
        )
    );
}

#[test]
fn batches_are_checked() {
    let e = |r: Result<Vec<RemoteEncryptedChange>, String>| r.err();
    assert_eq!(
        e(encrypt_recovery_sync_batch(batch(Some("p"), Vec::new()), s("10001"), s(ALICE_SECRET))),
        Some("每批加密记录需要包含 1 到 100 条".to_string())
    );
    let many = (0..101).map(|i| observation(Some(&format!("e{i}")), "{}")).collect();
    assert_eq!(
        e(encrypt_recovery_sync_batch(batch(Some("p"), many), s("10001"), s(ALICE_SECRET))),
        Some("每批加密记录需要包含 1 到 100 条".to_string())
    );
    let one = || vec![observation(Some("e1"), "{}")];
    assert_eq!(
        e(encrypt_recovery_sync_batch(batch(None, one()), s("10001"), s(ALICE_SECRET))),
        Some("同步证据包缺少编号".to_string())
    );
    assert_eq!(
        e(encrypt_recovery_sync_batch(batch(Some("  "), one()), s("10001"), s(ALICE_SECRET))),
        Some("同步证据包缺少编号".to_string())
    );
    let missing_key = vec![observation(Some("e1"), "{}"), observation(None, "{}")];
    assert_eq!(
        e(encrypt_recovery_sync_batch(batch(Some("p"), missing_key), s("10001"), s(ALICE_SECRET))),
        Some("同步证据记录缺少稳定编号".to_string())
    );
    let blank_key = vec![observation(Some(" "), "{}")];
    assert_eq!(
        e(encrypt_recovery_sync_batch(batch(Some("p"), blank_key), s("10001"), s(ALICE_SECRET))),
        Some("同步证据记录缺少稳定编号".to_string())
    );
    assert_eq!(
        e(encrypt_recovery_sync_batch(batch(Some("p"), one()), Ok(None), s(ALICE_SECRET))),
        Some("当前设备尚未绑定 QQ 账号".to_string())
    );
}
