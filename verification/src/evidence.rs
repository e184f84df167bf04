//! Encrypting a batch of recovery evidence for a peer account: every
//! observation becomes one record, keyed by its event key, whose JSON body
//! repeats the package fields next to the observation.
use vstd::prelude::*;

use crate::channel::{change_result, encrypt_remote_payload, nonce_ok, seal_spec, PROTOCOL_VERSION};
use crate::codec::{json_string, json_string_text};
use crate::credentials::stored;
use crate::model::{
    ChangeView, EncryptRemoteBatchRequest, EncryptRemotePayloadRequest, EncryptRequestView,
    RecoveryObservation, RecoveryPackageFields, RemoteEncryptedChange,
};
use crate::text::{blank_text, decimal, decimal_i64, is_blank};
use vstd::utf8::encode_utf8;

verus! {

/// The JSON text of an optional package field: `null` when absent.
pub open spec fn json_or_null(v: Option<Vec<u8>>) -> Seq<u8> {
    match v {
        Some(b) => b@,
        None => encode_utf8("null"@),
    }
}

/// The JSON text of the schema version: the package's, else the protocol
/// version.
pub open spec fn schema_version_json(v: Option<Vec<u8>>) -> Seq<u8> {
    match v {
        Some(b) => b@,
        None => encode_utf8(decimal(PROTOCOL_VERSION as int)),
    }
}

/// The JSON body of one evidence record: an object whose members, in key
/// order, are the package's creation time, exporter, the observation, the
/// package number, the schema version and the target account.
pub open spec fn evidence_payload(pkg: RecoveryPackageFields, package_id: Seq<char>, observation: Seq<u8>) -> Seq<u8> {
    encode_utf8("{\"createdAt\":"@) + json_or_null(pkg.created_at) + encode_utf8(
        ",\"exporterUin\":"@,
    ) + json_or_null(pkg.exporter_uin) + encode_utf8(",\"observation\":"@) + observation
        + encode_utf8(",\"packageId\":"@) + json_string_text(package_id) + encode_utf8(
        ",\"schemaVersion\":"@,
    ) + schema_version_json(pkg.schema_version) + encode_utf8(",\"targetUin\":"@) + json_or_null(
        pkg.target_uin,
    ) + encode_utf8("}"@)
}

/// The record request for one observation with the given event key.
pub open spec fn evidence_request(
    req: EncryptRemoteBatchRequest,
    package_id: Seq<char>,
    event_key: Seq<char>,
    observation: Seq<u8>,
) -> EncryptRequestView {
    EncryptRequestView {
        target_uin: req.target_uin@,
        peer_public_key: req.peer_public_key@,
        target_key_version: req.target_key_version,
        sender_key_version: req.sender_key_version,
        record_id: event_key,
        operation: "upsert"@,
        revision: 1,
        payload: evidence_payload(req.package, package_id, observation),
        deleted_at: None,
    }
}

/// One observation sealed with the given nonce and clock reading.
#[verifier::opaque]
pub open spec fn evidence_record(
    req: EncryptRemoteBatchRequest,
    package_id: Seq<char>,
    ob: RecoveryObservation,
    account_uin: Result<Option<Seq<char>>, Seq<char>>,
    private_key: Result<Option<Seq<char>>, Seq<char>>,
    nonce: Option<Seq<u8>>,
    clock: Option<u128>,
) -> Result<ChangeView, Seq<char>> {
    match ob.event_key {
        Some(k) => if is_blank(k@) {
            Err("同步证据记录缺少稳定编号"@)
        } else {
            seal_spec(
                evidence_request(req, package_id, k@, ob.json@),
                account_uin,
                private_key,
                nonce,
                clock,
            )
        },
        None => Err("同步证据记录缺少稳定编号"@),
    }
}

/// The observations sealed in order; the first failure is the result.
pub open spec fn evidence_records(
    req: EncryptRemoteBatchRequest,
    package_id: Seq<char>,
    obs: Seq<RecoveryObservation>,
    account_uin: Result<Option<Seq<char>>, Seq<char>>,
    private_key: Result<Option<Seq<char>>, Seq<char>>,
    nonces: Seq<Option<Seq<u8>>>,
    clocks: Seq<Option<u128>>,
) -> Result<Seq<ChangeView>, Seq<char>>
    decreases obs.len(),
{
    if obs.len() == 0 {
        Ok(Seq::empty())
    } else {
        match evidence_records(
            req,
            package_id,
            obs.drop_last(),
            account_uin,
            private_key,
            nonces.drop_last(),
            clocks.drop_last(),
        ) {
            Err(e) => Err(e),
            Ok(cs) => match evidence_record(
                req,
                package_id,
                obs.last(),
                account_uin,
                private_key,
                nonces.last(),
                clocks.last(),
            ) {
                Err(e) => Err(e),
                Ok(c) => Ok(cs.push(c)),
            },
        }
    }
}

/// The whole batch: one to one hundred observations and a package number.
pub open spec fn batch_spec(
    req: EncryptRemoteBatchRequest,
    account_uin: Result<Option<Seq<char>>, Seq<char>>,
    private_key: Result<Option<Seq<char>>, Seq<char>>,
    nonces: Seq<Option<Seq<u8>>>,
    clocks: Seq<Option<u128>>,
) -> Result<Seq<ChangeView>, Seq<char>> {
    if req.observations@.len() == 0 || req.observations@.len() > 100 {
        Err("每批加密记录需要包含 1 到 100 条"@)
    } else {
        match req.package.package_id {
            Some(p) => if is_blank(p@) {
                Err("同步证据包缺少编号"@)
            } else {
                evidence_records(
                    req,
                    p@,
                    req.observations@,
                    account_uin,
                    private_key,
                    nonces,
                    clocks,
                )
            },
            None => Err("同步证据包缺少编号"@),
        }
    }
}

pub open spec fn changes_result(r: Result<Vec<RemoteEncryptedChange>, String>) -> Result<Seq<ChangeView>, Seq<char>> {
    match r {
        Ok(v) => Ok(v@.map_values(|c: RemoteEncryptedChange| c@)),
        Err(e) => Err(e@),
    }
}

fn append_bytes(v: &mut Vec<u8>, s: &[u8])
    ensures
        final(v)@ == old(v)@ + s@,
{
    let n = s.len();
    let ghost start = v@;
    for i in 0..n
        invariant
            n == s@.len(),
            v@ == start + s@.take(i as int),
    {
        v.push(s[i]);
        assert(s@.take(i + 1) == s@.take(i as int).push(s@[i as int]));
    }
    assert(s@.take(n as int) == s@);
}

fn append_json_or_null(v: &mut Vec<u8>, field: &Option<Vec<u8>>)
    ensures
        final(v)@ == old(v)@ + json_or_null(*field),
{
    match field {
        Some(b) => append_bytes(v, b.as_slice()),
        None => append_bytes(v, "null".as_bytes()),
    }
}

fn payload_for(pkg: &RecoveryPackageFields, package_id_json: &[u8], observation: &[u8]) -> (v: Vec<u8>)
    ensures
        forall|p: Seq<char>|
            json_string_text(p) == package_id_json@ ==> v@ == #[trigger] evidence_payload(
                *pkg,
                p,
                observation@,
            ),
{
    let mut v: Vec<u8> = Vec::new();
    append_bytes(&mut v, "{\"createdAt\":".as_bytes());
    append_json_or_null(&mut v, &pkg.created_at);
    append_bytes(&mut v, ",\"exporterUin\":".as_bytes());
    append_json_or_null(&mut v, &pkg.exporter_uin);
    append_bytes(&mut v, ",\"observation\":".as_bytes());
    append_bytes(&mut v, observation);
    append_bytes(&mut v, ",\"packageId\":".as_bytes());
    append_bytes(&mut v, package_id_json);
    append_bytes(&mut v, ",\"schemaVersion\":".as_bytes());
    match &pkg.schema_version {
        Some(b) => append_bytes(&mut v, b.as_slice()),
        None => {
            let d = decimal_i64(PROTOCOL_VERSION as i64);
            append_bytes(&mut v, d.as_str().as_bytes());
        },
    }
    append_bytes(&mut v, ",\"targetUin\":".as_bytes());
    append_json_or_null(&mut v, &pkg.target_uin);
    append_bytes(&mut v, "}".as_bytes());
    v
}

fn clone_stored(s: &Result<Option<String>, String>) -> (r: Result<Option<String>, String>)
    ensures
        stored(r) == stored(*s),
{
    match s {
        Ok(Some(v)) => Ok(Some(v.clone())),
        Ok(None) => Ok(None),
        Err(e) => Err(e.clone()),
    }
}

proof fn lemma_records_error_persists(
    req: EncryptRemoteBatchRequest,
    package_id: Seq<char>,
    obs: Seq<RecoveryObservation>,
    account_uin: Result<Option<Seq<char>>, Seq<char>>,
    private_key: Result<Option<Seq<char>>, Seq<char>>,
    nonces: Seq<Option<Seq<u8>>>,
    clocks: Seq<Option<u128>>,
    k: int,
)
    requires
        0 <= k <= obs.len(),
        nonces.len() == obs.len(),
        clocks.len() == obs.len(),
        evidence_records(
            req,
            package_id,
            obs.take(k),
            account_uin,
            private_key,
            nonces.take(k),
            clocks.take(k),
        ) is Err,
    ensures
        evidence_records(req, package_id, obs, account_uin, private_key, nonces, clocks)
            == evidence_records(
            req,
            package_id,
            obs.take(k),
            account_uin,
            private_key,
            nonces.take(k),
            clocks.take(k),
        ),
    decreases obs.len() - k,
{
    if k < obs.len() {
        let n = obs.len() as int;
        assert(obs.drop_last().take(k) == obs.take(k));
        assert(nonces.drop_last().take(k) == nonces.take(k));
        assert(clocks.drop_last().take(k) == clocks.take(k));
        lemma_records_error_persists(
            req,
            package_id,
            obs.drop_last(),
            account_uin,
            private_key,
            nonces.drop_last(),
            clocks.drop_last(),
            k,
        );
        assert(obs.drop_last().take(k) == obs.take(k));
        assert(nonces.drop_last().take(k) == nonces.take(k));
        assert(clocks.drop_last().take(k) == clocks.take(k));
    } else {
        assert(obs.take(k) == obs);
        assert(nonces.take(k) == nonces);
        assert(clocks.take(k) == clocks);
    }
}

/// Encrypts every observation of an evidence batch as one record; each record
/// gets its own fresh nonce and clock reading.
pub fn encrypt_recovery_sync_batch(
    request: EncryptRemoteBatchRequest,
    account_uin: Result<Option<String>, String>,
    private_key: Result<Option<String>, String>,
) -> (r: Result<Vec<RemoteEncryptedChange>, String>)
    ensures
        exists|nonces: Seq<Option<Seq<u8>>>, clocks: Seq<Option<u128>>|
            nonces.len() == request.observations@.len() && clocks.len()
                == request.observations@.len() && (forall|i: int|
                0 <= i < nonces.len() ==> nonce_ok(#[trigger] nonces[i])) && changes_result(r)
                == #[trigger] batch_spec(
                request,
                stored(account_uin),
                stored(private_key),
                nonces,
                clocks,
            ),
{
    let ghost a = stored(account_uin);
    let ghost k = stored(private_key);
    let ghost obs = request.observations@;
    let n = request.observations.len();
    let ghost filler_nonces: Seq<Option<Seq<u8>>> = Seq::new(n as nat, |i: int| None);
    let ghost filler_clocks: Seq<Option<u128>> = Seq::new(n as nat, |i: int| None);
    if n == 0 || n > 100 {
        let r = Err("每批加密记录需要包含 1 到 100 条".to_owned());
        assert(changes_result(r) == batch_spec(request, a, k, filler_nonces, filler_clocks));
        return r;
    }
    let package_id: &String = match &request.package.package_id {
        Some(p) => {
            if blank_text(p.as_str()) {
                let r = Err("同步证据包缺少编号".to_owned());
                assert(changes_result(r) == batch_spec(request, a, k, filler_nonces, filler_clocks));
                return r;
            }
            p
        },
        None => {
            let r = Err("同步证据包缺少编号".to_owned());
            assert(changes_result(r) == batch_spec(request, a, k, filler_nonces, filler_clocks));
            return r;
        },
    };
    let package_id_json = match json_string(package_id.as_str()) {
        Some(j) => j,
        None => {
            assert(false);
            return Err("同步证据包缺少编号".to_owned());
        },
    };
    let mut changes: Vec<RemoteEncryptedChange> = Vec::new();
    let ghost mut nonces: Seq<Option<Seq<u8>>> = Seq::empty();
    let ghost mut clocks: Seq<Option<u128>> = Seq::empty();
    let mut i: usize = 0;
    assert(obs.take(0) == Seq::<RecoveryObservation>::empty());
    assert(changes@.map_values(|c: RemoteEncryptedChange| c@) == Seq::<ChangeView>::empty());
    while i < n
        invariant
            n == request.observations@.len(),
            filler_nonces.len() == n,
            filler_clocks.len() == n,
            forall|j: int| 0 <= j < n ==> nonce_ok(#[trigger] filler_nonces[j]),
            obs == request.observations@,
            0 < n <= 100,
            i <= n,
            request.package.package_id matches Some(p) && p@ == package_id@ && !is_blank(p@),
            package_id_json@ == json_string_text(package_id@),
            a == stored(account_uin),
            k == stored(private_key),
            nonces.len() == i,
            clocks.len() == i,
            forall|j: int| 0 <= j < i ==> nonce_ok(#[trigger] nonces[j]),
            evidence_records(request, package_id@, obs.take(i as int), a, k, nonces, clocks) == Ok::<
                Seq<ChangeView>,
                Seq<char>,
            >(changes@.map_values(|c: RemoteEncryptedChange| c@)),
        decreases n - i,
    {
        let ob = &request.observations[i];
        proof {
            reveal(evidence_record);
        }
        assert(obs.take(i + 1).drop_last() == obs.take(i as int));
        assert(obs.take(i + 1).last() == obs[i as int]);
        let event_key: &String = match &ob.event_key {
            Some(e) => {
                if blank_text(e.as_str()) {
                    let r = Err("同步证据记录缺少稳定编号".to_owned());
                    proof {
                        let ns = nonces.push(None);
                        let cs = clocks.push(None);
                        assert(ns.drop_last() == nonces);
                        assert(cs.drop_last() == clocks);
                        let fn_ = ns + filler_nonces.skip(i + 1);
                        let fc = cs + filler_clocks.skip(i + 1);
                        assert(fn_.take(i + 1) == ns);
                        assert(fc.take(i + 1) == cs);
                        lemma_records_error_persists(request, package_id@, obs, a, k, fn_, fc, i + 1);
                        assert(changes_result(r) == batch_spec(request, a, k, fn_, fc));
                    }
                    return r;
                }
                e
            },
            None => {
                let r = Err("同步证据记录缺少稳定编号".to_owned());
                proof {
                    let ns = nonces.push(None);
                    let cs = clocks.push(None);
                    assert(ns.drop_last() == nonces);
                    assert(cs.drop_last() == clocks);
                    let fn_ = ns + filler_nonces.skip(i + 1);
                    let fc = cs + filler_clocks.skip(i + 1);
                    assert(fn_.take(i + 1) == ns);
                    assert(fc.take(i + 1) == cs);
                    lemma_records_error_persists(request, package_id@, obs, a, k, fn_, fc, i + 1);
                    assert(changes_result(r) == batch_spec(request, a, k, fn_, fc));
                }
                return r;
            },
        };
        let payload = payload_for(&request.package, package_id_json.as_slice(), ob.json.as_slice());
        let record = EncryptRemotePayloadRequest {
            target_uin: request.target_uin.clone(),
            peer_public_key: request.peer_public_key.clone(),
            target_key_version: request.target_key_version,
            sender_key_version: request.sender_key_version,
            record_id: event_key.clone(),
            operation: "upsert".to_owned(),
            revision: 1,
            payload,
            deleted_at: None,
        };
        assert(record@ == evidence_request(request, package_id@, event_key@, ob.json@));
        let res = encrypt_remote_payload(record, clone_stored(&account_uin), clone_stored(&private_key));
        let ghost nonce = choose|nonce: Option<Seq<u8>>, clock: Option<u128>|
            nonce_ok(nonce) && change_result(res) == #[trigger] seal_spec(
                evidence_request(request, package_id@, event_key@, ob.json@),
                a,
                k,
                nonce,
                clock,
            );
        let ghost ns = nonces.push(nonce.0);
        let ghost cs = clocks.push(nonce.1);
        proof {
            assert(ns.drop_last() == nonces);
            assert(cs.drop_last() == clocks);
        }
        match res {
            Ok(c) => {
                let ghost before = changes@;
                let ghost cv = c@;
                changes.push(c);
                proof {
                    nonces = ns;
                    clocks = cs;
                    assert(changes@.map_values(|c: RemoteEncryptedChange| c@) == before.map_values(
                        |c: RemoteEncryptedChange| c@,
                    ).push(cv));
                }
            },
            Err(e) => {
                let r = Err(e);
                proof {
                    let fn_ = ns + filler_nonces.skip(i + 1);
                    let fc = cs + filler_clocks.skip(i + 1);
                    assert(fn_.take(i + 1) == ns);
                    assert(fc.take(i + 1) == cs);
                    lemma_records_error_persists(request, package_id@, obs, a, k, fn_, fc, i + 1);
                    assert(forall|j: int| 0 <= j < fn_.len() ==> nonce_ok(#[trigger] fn_[j]));
                    assert(changes_result(r) == batch_spec(request, a, k, fn_, fc));
                }
                return r;
            },
        }
        i = i + 1;
    }
    assert(obs.take(n as int) == obs);
    let r = Ok(changes);
    assert(changes_result(r) == batch_spec(request, a, k, nonces, clocks));
    r
}

} // verus!
