use std::collections::HashMap;
use qzone_sync::model::RemoteSyncConflict;
use qzone_sync::relay::{
    self, bearer_token, check_ack_position, check_claim, check_push_size,
    check_registration_token, claim_allowed_at, decode_change, device_token_from,
    encrypted_change_response, hash_secret, new_device_token, new_pairing_code,
    normalize_claim_code, page_limit, page_rows, pairing_code_from, pairing_expiry, parse_cursor,
    plan_change, require_pairing_member, require_registration_token, sync_cursor,
    validate_device_request, ApiError, ChangePlan, EncryptedChangeInput, ExistingSyncItem,
    PairingRecord, PushTally, RegisterDeviceRequest, SyncItemRow,
};

fn err_of<T>(r: Result<T, ApiError>) -> (u16, String) {
    match r {
        Ok(_) => panic!("expected an error"),
        Err(e) => (e.status, e.message),
    }
}

const DIGEST: &str = "ba7816bf8f01cfea414140de5dae2223b00361a396177a9cb410ff61f20015ad";

fn upload(record_id: &str, revision: i64, digest: &str) -> EncryptedChangeInput {
    EncryptedChangeInput {
        record_id: record_id.to_string(),
        operation: "upsert".to_string(),
        revision,
        key_version: 1,
        ciphertext_b64: "aGVsbG8=".to_string(),
        nonce_b64: "AAECAwQFBgcICQoLDA0ODxAREhMUFRYX".to_string(),
        aad_b64: Some("YWFk".to_string()),
        payload_digest: digest.to_string(),
        deleted_at: None,
    }
}

fn row(position: i64) -> SyncItemRow {
    SyncItemRow {
        event_key: format!("event-{position}"),
        operation: "upsert".to_string(),
        revision: 1,
        key_version: 1,
        payload: b"hello".to_vec(),
        payload_nonce: vec![0, 1, 2],
        aad: None,
        content_digest: DIGEST.to_string(),
        created_at_millis: 1_700_000_000_000,
        deleted_at_millis: None,
        stream_position: position,
    }
}

#[test]
fn hash_secret_is_lower_hex_sha256() {
    assert_eq!(hash_secret("abc"), DIGEST);
    assert_eq!(
        hash_secret(""),
        "e3b0c44298fc1c149afbf4c8996fb92427ae41e4649b934ca495991b7852b855"
    );
}

#[test]
fn api_error_constructors() {
    let e = ApiError::unauthorized();
    assert_eq!((e.status, e.message.as_str()), (401, "需要有效的设备令牌"));
    let e = ApiError::database_failure();
    assert_eq!((e.status, e.message.as_str()), (500, "服务器数据库操作失败"));
    let e = ApiError::new(relay::GONE, "x");
    assert_eq!((e.status, e.message.as_str()), (410, "x"));
}

#[test]
fn registration_token_must_match() {
    let expected = "0123456789abcdef01234567";
    assert!(require_registration_token(Some(expected.to_string()), expected).is_ok());
    assert_eq!(
        err_of(require_registration_token(Some("wrong".to_string()), expected)),
        (401, "需要有效的设备令牌".to_string())
    );
    assert_eq!(
        err_of(require_registration_token(None, expected)),
        (401, "需要有效的设备令牌".to_string())
    );
}

#[test]
fn registration_token_length_rules() {
    assert_eq!(
        check_registration_token(&"a".repeat(23)),
        Err("REGISTRATION_TOKEN 至少需要 24 个字符".to_string())
    );
    assert_eq!(check_registration_token(&"a".repeat(24)), Ok(()));
    assert!(relay::_warn_if_insecure_registration_token(&"a".repeat(31)));
    assert!(!relay::_warn_if_insecure_registration_token(&"a".repeat(32)));
}

#[test]
fn device_request_validation() {
    let ok = RegisterDeviceRequest {
        device_id: "desk-1".to_string(),
        public_key: "key".to_string(),
        label: Some("laptop".to_string()),
    };
    assert!(validate_device_request(&ok).is_ok());
    let blank_id = RegisterDeviceRequest { device_id: "  ".to_string(), ..clone_request(&ok) };
    assert_eq!(err_of(validate_device_request(&blank_id)), (400, "设备标识无效".to_string()));
    let long_id = RegisterDeviceRequest { device_id: "x".repeat(129), ..clone_request(&ok) };
    assert_eq!(err_of(validate_device_request(&long_id)), (400, "设备标识无效".to_string()));
    let long_key = RegisterDeviceRequest { public_key: "k".repeat(4097), ..clone_request(&ok) };
    assert_eq!(err_of(validate_device_request(&long_key)), (400, "设备公钥无效".to_string()));
    let long_label = RegisterDeviceRequest { label: Some("l".repeat(129)), ..clone_request(&ok) };
    assert_eq!(err_of(validate_device_request(&long_label)), (400, "设备名称过长".to_string()));
    let no_label = RegisterDeviceRequest { label: None, ..clone_request(&ok) };
    assert!(validate_device_request(&no_label).is_ok());
}

fn clone_request(r: &RegisterDeviceRequest) -> RegisterDeviceRequest {
    RegisterDeviceRequest {
        device_id: r.device_id.clone(),
        public_key: r.public_key.clone(),
        label: r.label.clone(),
    }
}

#[test]
fn device_tokens_are_two_simple_uuids() {
    let a = [0x01u8, 0x23, 0x45, 0x67, 0x89, 0xab, 0xcd, 0xef, 0, 0x11, 0x22, 0x33, 0x44, 0x55, 0x66, 0x77];
    let b = [0xffu8; 16];
    assert_eq!(
        device_token_from(&a, &b),
        "0123456789abcdef0011223344556677ffffffffffffffffffffffffffffffff"
    );
    let t = new_device_token().ok().unwrap();
    assert_eq!(t.len(), 64);
    assert!(t.chars().all(|c| c.is_ascii_hexdigit() && !c.is_ascii_uppercase()));
    assert_eq!(&t[12..13], "4");
    assert_eq!(&t[44..45], "4");
    assert_ne!(t, new_device_token().ok().unwrap());
}

#[test]
fn bearer_tokens_are_read_from_the_header() {
    assert_eq!(bearer_token(Some("Bearer abc ".to_string())), Some("abc".to_string()));
    assert_eq!(bearer_token(Some("Bearer    ".to_string())), None);
    assert_eq!(bearer_token(Some("Basic abc".to_string())), None);
    assert_eq!(bearer_token(Some("bearer abc".to_string())), None);
    assert_eq!(bearer_token(Some("Bearer".to_string())), None);
    assert_eq!(bearer_token(None), None);
}

#[test]
fn bearer_roundtrip_on_an_issued_token() {
    let token = new_device_token().ok().unwrap();
    assert_eq!(bearer_token(Some(format!("Bearer {token}"))), Some(token));
}

#[test]
fn pairing_membership_is_required() {
    assert!(require_pairing_member(true).is_ok());
    assert_eq!(err_of(require_pairing_member(false)), (403, "设备无权访问此配对".to_string()));
}

#[test]
fn pairing_codes_are_ten_upper_hex_digits() {
    let b = [0xabu8, 0xcd, 0xef, 0x01, 0x23, 0x45, 0x67, 0x89, 0, 0, 0, 0, 0, 0, 0, 0];
    assert_eq!(pairing_code_from(&b), "ABCDEF0123");
    let code = new_pairing_code().ok().unwrap();
    assert_eq!(code.len(), 10);
    assert!(code.chars().all(|c| c.is_ascii_digit() || ('A'..='F').contains(&c)));
}

#[test]
fn issued_code_claims_as_itself() {
    let code = new_pairing_code().ok().unwrap();
    assert_eq!(normalize_claim_code(&code).ok().map(|c| c == code), Some(true));
    let lower = format!("  {}\n", code.to_lowercase());
    assert_eq!(normalize_claim_code(&lower).ok(), Some(code));
}

#[test]
fn pairing_expires_after_fifteen_minutes() {
    assert_eq!(pairing_expiry(0), 900_000_000);
    assert_eq!(pairing_expiry(1_700_000_000_000_000), 1_700_000_900_000_000);
}

#[test]
fn claim_codes_are_normalised() {
    assert_eq!(normalize_claim_code(" abcdef1234 ").ok(), Some("ABCDEF1234".to_string()));
    assert_eq!(err_of(normalize_claim_code("abc")), (400, "配对码格式无效".to_string()));
    assert_eq!(err_of(normalize_claim_code("abcdef12345")), (400, "配对码格式无效".to_string()));
}

fn pairing(status: &str, expires_at_micros: i64) -> PairingRecord {
    PairingRecord {
        id: [7u8; 16],
        initiator_device_id: [1u8; 16],
        claimant_device_id: None,
        status: status.to_string(),
        expires_at_micros,
        created_at_micros: 0,
        accepted_at_micros: None,
    }
}

#[test]
fn claims_are_checked() {
    let p = pairing("pending", 2_000);
    assert!(claim_allowed_at(&p, &[2u8; 16], 1_999).is_ok());
    assert_eq!(
        err_of(claim_allowed_at(&p, &[1u8; 16], 1_000)),
        (400, "不能用同一设备完成双方配对".to_string())
    );
    assert_eq!(err_of(claim_allowed_at(&p, &[2u8; 16], 2_000)), (410, "配对码已过期或已使用".to_string()));
    let used = pairing("accepted", 2_000);
    assert_eq!(err_of(claim_allowed_at(&used, &[2u8; 16], 0)), (410, "配对码已过期或已使用".to_string()));
    assert!(check_claim(&pairing("pending", i64::MAX), &[2u8; 16]).is_ok());
    assert_eq!(err_of(check_claim(&pairing("pending", 0), &[2u8; 16])).0, 410);
}

#[test]
fn uploaded_changes_are_decoded() {
    let d = decode_change(&upload("r1", 3, DIGEST)).ok().unwrap();
    assert_eq!(d.ciphertext, b"hello".to_vec());
    assert_eq!(d.nonce, (0u8..24).collect::<Vec<u8>>());
    assert_eq!(d.aad, Some(b"aad".to_vec()));
    assert_eq!(d.deleted_at, None);
    let mut c = upload("r1", 3, DIGEST);
    c.aad_b64 = None;
    c.deleted_at = Some(1_700_000_000_000);
    let d = decode_change(&c).ok().unwrap();
    assert_eq!((d.aad, d.deleted_at), (None, Some(1_700_000_000_000)));
}

#[test]
fn uploaded_changes_are_refused_in_order() {
    let bad = |f: &dyn Fn(&mut EncryptedChangeInput)| {
        let mut c = upload("r1", 3, DIGEST);
        f(&mut c);
        err_of(decode_change(&c))
    };
    assert_eq!(bad(&|c| c.record_id = " ".into()), (400, "记录标识无效".into()));
    assert_eq!(bad(&|c| c.record_id = "r".repeat(513)), (400, "记录标识无效".into()));
    assert_eq!(bad(&|c| c.operation = "delete".into()), (400, "同步操作类型无效".into()));
    assert_eq!(bad(&|c| c.revision = -1), (400, "记录版本无效".into()));
    assert_eq!(bad(&|c| c.revision = 2_147_483_648), (400, "记录版本无效".into()));
    assert_eq!(bad(&|c| c.key_version = 0), (400, "加密密钥版本无效".into()));
    assert_eq!(bad(&|c| c.key_version = 101), (400, "加密密钥版本无效".into()));
    assert_eq!(bad(&|c| c.payload_digest = "abc".into()), (400, "密文摘要格式无效".into()));
    assert_eq!(bad(&|c| c.payload_digest = "g".repeat(64)), (400, "密文摘要格式无效".into()));
    assert_eq!(
        bad(&|c| c.ciphertext_b64 = "A".repeat(8 * 1024 * 1024 + 4)),
        (413, "单条密文过大".into())
    );
    assert_eq!(bad(&|c| c.ciphertext_b64 = "aGVsbG8".into()), (400, "密文不是有效 Base64".into()));
    assert_eq!(bad(&|c| c.nonce_b64 = "!!".into()), (400, "随机数不是有效 Base64".into()));
    assert_eq!(bad(&|c| c.nonce_b64 = "AAECAwQFBg==".into()), (400, "随机数长度无效".into()));
    assert_eq!(bad(&|c| c.aad_b64 = Some("Y".into())), (400, "AAD 不是有效 Base64".into()));
    let big = base64_of_len(4097);
    assert_eq!(bad(&|c| c.aad_b64 = Some(big.clone())), (400, "AAD 过大".into()));
    assert_eq!(bad(&|c| c.deleted_at = Some(i64::MAX)), (400, "删除时间无效".into()));
    assert_eq!(bad(&|c| c.deleted_at = Some(8_210_266_876_800_000)), (400, "删除时间无效".into()));
}

#[test]
fn deletion_times_cover_the_calendar_range() {
    let mut c = upload("r1", 3, DIGEST);
    c.deleted_at = Some(8_210_266_876_799_999);
    assert!(decode_change(&c).is_ok());
    c.deleted_at = Some(-8_334_601_228_800_000);
    assert!(decode_change(&c).is_ok());
    c.deleted_at = Some(-8_334_601_228_800_001);
    assert_eq!(err_of(decode_change(&c)), (400, "删除时间无效".to_string()));
}

fn base64_of_len(n: usize) -> String {
    let table = b"ABCDEFGHIJKLMNOPQRSTUVWXYZabcdefghijklmnopqrstuvwxyz0123456789+/";
    let bytes = vec![0u8; n];
    let mut out = String::new();
    for chunk in bytes.chunks(3) {
        let b = [chunk[0], *chunk.get(1).unwrap_or(&0), *chunk.get(2).unwrap_or(&0)];
        let v = ((b[0] as u32) << 16) | ((b[1] as u32) << 8) | b[2] as u32;
        out.push(table[(v >> 18) as usize & 63] as char);
        out.push(table[(v >> 12) as usize & 63] as char);
        out.push(if chunk.len() > 1 { table[(v >> 6) as usize & 63] as char } else { '=' });
        out.push(if chunk.len() > 2 { table[v as usize & 63] as char } else { '=' });
    }
    out
}

#[test]
fn push_size_is_one_to_one_hundred() {
    assert_eq!(err_of(check_push_size(0)), (400, "每次上传需要包含 1 到 100 条变更".to_string()));
    assert!(check_push_size(1).is_ok());
    assert!(check_push_size(100).is_ok());
    assert_eq!(err_of(check_push_size(101)).0, 400);
}

#[test]
fn new_records_are_stored() {
    let c = upload("r1", 1, DIGEST);
    assert!(matches!(plan_change(None, &c), ChangePlan::Store { tombstone: false }));
    let mut t = upload("r1", 1, DIGEST);
    t.operation = "tombstone".to_string();
    assert!(matches!(plan_change(None, &t), ChangePlan::Store { tombstone: true }));
}

#[test]
fn reupload_is_unchanged() {
    let existing = ExistingSyncItem { revision: 4, content_digest: DIGEST.to_string() };
    let c = upload("r1", 4, DIGEST);
    assert!(matches!(plan_change(Some(&existing), &c), ChangePlan::Unchanged));
}

#[test]
fn newer_revisions_replace_older_ones() {
    let existing = ExistingSyncItem { revision: 4, content_digest: DIGEST.to_string() };
    let c = upload("r1", 5, &"0".repeat(64));
    assert!(matches!(plan_change(Some(&existing), &c), ChangePlan::Store { tombstone: false }));
}

#[test]
fn stale_or_divergent_uploads_conflict() {
    let existing = ExistingSyncItem { revision: 4, content_digest: DIGEST.to_string() };
    let other = "0".repeat(64);
    for revision in [3, 4] {
        let c = upload("r1", revision, &other);
        match plan_change(Some(&existing), &c) {
            ChangePlan::Conflict(conflict) => {
                assert_eq!(conflict.record_id, "r1");
                assert_eq!(conflict.local_revision, 4);
                assert_eq!(conflict.remote_revision, revision);
                assert_eq!(conflict.local_digest, DIGEST);
                assert_eq!(conflict.remote_digest, other);
            }
            _ => panic!("expected a conflict"),
        }
    }
    let same_digest_older = upload("r1", 3, DIGEST);
    assert!(matches!(plan_change(Some(&existing), &same_digest_older), ChangePlan::Conflict(_)));
}

#[test]
fn push_tally_counts() {
    let mut t = PushTally::new();
    t.record(ChangePlan::Unchanged);
    t.record(ChangePlan::Store { tombstone: false });
    t.record(ChangePlan::Conflict(RemoteSyncConflict {
        record_id: "r".into(),
        local_revision: 2,
        remote_revision: 1,
        local_digest: "a".into(),
        remote_digest: "b".into(),
    }));
    assert_eq!((t.accepted, t.rejected, t.conflicts.len()), (2, 1, 1));
    assert_eq!(t.conflicts[0].record_id, "r");
}

#[test]
fn cursors_are_parsed() {
    assert_eq!(parse_cursor(None).ok(), Some(0));
    assert_eq!(parse_cursor(Some(" 42 ")).ok(), Some(42));
    assert_eq!(parse_cursor(Some("+7")).ok(), Some(7));
    assert_eq!(err_of(parse_cursor(Some("-1"))), (400, "同步游标不能为负数".to_string()));
    assert_eq!(err_of(parse_cursor(Some("x"))), (400, "同步游标格式无效".to_string()));
    assert_eq!(err_of(parse_cursor(Some(""))), (400, "同步游标格式无效".to_string()));
    assert_eq!(
        err_of(parse_cursor(Some("9223372036854775808"))),
        (400, "同步游标格式无效".to_string())
    );
    assert_eq!(parse_cursor(Some("9223372036854775807")).ok(), Some(i64::MAX));
}

#[test]
fn cursor_roundtrip() {
    for position in [0i64, 1, 42, i64::MAX] {
        let c = sync_cursor(&[0u8; 16], position).ok().unwrap();
        assert_eq!(parse_cursor(Some(&c.position)).ok(), Some(position));
    }
}

#[test]
fn sync_cursor_names_the_stream() {
    let id = [0x12u8, 0x34, 0x56, 0x78, 0x9a, 0xbc, 0xde, 0xf0, 0x12, 0x34, 0x56, 0x78, 0x9a, 0xbc, 0xde, 0xf0];
    let c = sync_cursor(&id, 17).ok().unwrap();
    assert_eq!(c.stream_id, "12345678-9abc-def0-1234-56789abcdef0");
    assert_eq!(c.position, "17");
    assert!(c.issued_at > 1_600_000_000_000);
}

#[test]
fn page_limits_are_clamped() {
    assert_eq!(page_limit(None), 100);
    assert_eq!(page_limit(Some(0)), 1);
    assert_eq!(page_limit(Some(250)), 250);
    assert_eq!(page_limit(Some(1000)), 500);
}

#[test]
fn stored_rows_are_delivered_in_base64() {
    let mut r = row(9);
    r.aad = Some(b"ab".to_vec());
    r.deleted_at_millis = Some(5);
    let (c, position) = encrypted_change_response(r);
    assert_eq!(position, 9);
    assert_eq!(c.record_id, "event-9");
    assert_eq!(c.ciphertext_b64, "aGVsbG8=");
    assert_eq!(c.nonce_b64, "AAEC");
    assert_eq!(c.aad_b64, Some("YWI=".to_string()));
    assert_eq!(c.payload_digest, DIGEST);
    assert_eq!((c.changed_at, c.deleted_at), (1_700_000_000_000, Some(5)));
}

#[test]
fn pages_stop_at_the_limit() {
    let p = page_rows(vec![row(3), row(5), row(8)], 2, 1);
    assert!(p.has_more);
    assert_eq!(p.changes.len(), 2);
    assert_eq!(p.next_position, 5);
    assert_eq!(p.changes[1].record_id, "event-5");
    let p = page_rows(vec![row(3), row(5)], 2, 1);
    assert!(!p.has_more);
    assert_eq!(p.next_position, 5);
}

#[test]
fn pull_cursor_advances() {
    let p = page_rows(Vec::new(), 100, 12);
    assert_eq!((p.changes.len(), p.next_position, p.has_more), (0, 12, false));
    let p = page_rows(vec![row(13)], 100, 12);
    assert!(p.next_position >= 12);
}

#[test]
fn ack_positions_stay_within_the_stream() {
    assert!(check_ack_position(5, 5).is_ok());
    assert_eq!(err_of(check_ack_position(6, 5)), (400, "同步游标超出当前流位置".to_string()));
}

#[test]
fn pull_returns_pushed_change() {
    let mut upload = upload("feed-7", 12, DIGEST);
    upload.deleted_at = Some(1_700_000_000_123);
    let decoded = decode_change(&upload).ok().unwrap();
    let stored = SyncItemRow {
        event_key: upload.record_id.clone(),
        operation: upload.operation.clone(),
        revision: upload.revision,
        key_version: upload.key_version,
        payload: decoded.ciphertext,
        payload_nonce: decoded.nonce,
        aad: decoded.aad,
        content_digest: upload.payload_digest.clone(),
        created_at_millis: 1,
        deleted_at_millis: decoded.deleted_at,
        stream_position: 4,
    };
    let (delivered, _) = encrypted_change_response(stored);
    assert_eq!(delivered.record_id, upload.record_id);
    assert_eq!(delivered.operation, upload.operation);
    assert_eq!((delivered.revision, delivered.key_version), (12, 1));
    assert_eq!(delivered.ciphertext_b64, upload.ciphertext_b64);
    assert_eq!(delivered.nonce_b64, upload.nonce_b64);
    assert_eq!(delivered.aad_b64, upload.aad_b64);
    assert_eq!(delivered.payload_digest, upload.payload_digest);
    assert_eq!(delivered.deleted_at, upload.deleted_at);
}

#[test]
fn pairing_claimable_once_for_fifteen_minutes() {
    let created = 1_700_000_000_000_000i64;
    let expires = pairing_expiry(created);
    let p = pairing("pending", expires);
    assert!(claim_allowed_at(&p, &[2u8; 16], created).is_ok());
    assert!(claim_allowed_at(&p, &[2u8; 16], created + 899_999_999).is_ok());
    assert_eq!(err_of(claim_allowed_at(&p, &[2u8; 16], created + 900_000_000)).0, 410);
    let taken = pairing("accepted", expires);
    assert_eq!(err_of(claim_allowed_at(&taken, &[2u8; 16], created)).0, 410);
}

#[test]
fn pull_lists_every_row_once() {
    let stream: Vec<i64> = vec![1, 2, 3, 5, 8, 13, 21];
    for limit in [1u16, 2, 3, 7, 100] {
        let l = page_limit(Some(limit));
        let mut cursor = parse_cursor(Some("0")).ok().unwrap();
        let mut seen = Vec::new();
        loop {
            let rows: Vec<SyncItemRow> = stream
                .iter()
                .filter(|p| **p > cursor)
                .take((l + 1) as usize)
                .map(|p| row(*p))
                .collect();
            let page = page_rows(rows, l, cursor);
            seen.extend(page.changes.iter().map(|c| c.record_id.clone()));
            let next = sync_cursor(&[0u8; 16], page.next_position).ok().unwrap();
            cursor = parse_cursor(Some(&next.position)).ok().unwrap();
            if !page.has_more {
                break;
            }
        }
        let expected: Vec<String> = stream.iter().map(|p| format!("event-{p}")).collect();
        assert_eq!(seen, expected, "limit {limit}");
    }
}

#[test]
fn batch_reupload_is_unchanged() {
    let batch = vec![upload("a", 1, DIGEST), upload("b", 3, &"0".repeat(64)), upload("c", 2, DIGEST)];
    let mut store: HashMap<String, ExistingSyncItem> = HashMap::new();
    store.insert("b".into(), ExistingSyncItem { revision: 2, content_digest: DIGEST.into() });
    for round in 0..2 {
        let mut tally = PushTally::new();
        for change in &batch {
            let plan = plan_change(store.get(&change.record_id), change);
            if round == 1 {
                assert!(matches!(plan, ChangePlan::Unchanged));
            }
            if let ChangePlan::Store { .. } = plan {
                store.insert(
                    change.record_id.clone(),
                    ExistingSyncItem { revision: change.revision, content_digest: change.payload_digest.clone() },
                );
            }
            tally.record(plan);
        }
        assert_eq!((tally.accepted, tally.rejected), (3, 0));
    }
}

#[test]
fn claim_accepts_code_in_any_case() {
    let code = new_pairing_code().ok().unwrap();
    let mixed: String = code
        .chars()
        .enumerate()
        .map(|(i, c)| if i % 2 == 0 { c.to_ascii_lowercase() } else { c })
        .collect();
    assert_eq!(normalize_claim_code(&format!("\u{3000} {mixed}\t")).ok(), Some(code));
}
