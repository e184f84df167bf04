//! Properties of the sync protocol that span several functions.
use vstd::prelude::*;

use crate::channel::{
    aad_text, account_key_spec, dh_secret, finish_spec, first_key_with_version, key_context,
    prepare_spec, seal_spec, sender_of, valid_operation,
};
use crate::model::ChangeView;
use crate::client::config_spec;
use crate::codec::{b64_decode, b64_encode, json_parses, opt_text, lemma_b64_roundtrip, lemma_b64_trimmed};
use crate::crypto::{aead_len_ok, aead_seal, lemma_aead_roundtrip, x25519_public, x25519_shared};
use crate::model::{EncryptRequestView, RemoteAccountPublicKey};
use crate::codec::{ascii_upper, uuid_simple};
use crate::relay::{
    claim_check_spec, pairing_lifetime_micros, GONE, decode_spec, delivers, EncryptedChangeInput, EncryptedChangeResponse, bearer_spec, claim_code_spec, cursor_spec, is_pairing_code, page_len, page_next_position, pairing_code_of,
    plan_kind, stored_after, PlanKind, SyncItemRow,
};
use crate::text::{
    all_digits, decimal, decimal_nat, digits_value, hex_lower, is_blank, is_digit, lemma_decimal_nat,
    lemma_hex_lower, lemma_parse_decimal, lemma_trim_unchanged, parse_i32_spec, trim, utf8_len,
    is_hex_digit, is_space, trim_end, trim_start,
};

verus! {

/// A record that one device seals for a peer device opens there to the same
/// JSON text, whatever key versions the two devices use. The sender
/// addresses the peer's public key and key version; the peer is bound to the
/// target account, holds the addressed key version, finds the sender's public
/// key first among the sender's published keys of the sender's key version,
/// and either names the sending account or leaves it to the change.
pub proof fn law_sealed_record_opens_for_peer(
    req: EncryptRequestView,
    sender_uin: Seq<char>,
    sender_secret: Seq<u8>,
    sender_public: Seq<u8>,
    peer_secret: Seq<u8>,
    peer_public: Seq<u8>,
    nonce: Seq<u8>,
    clock: u128,
    request_source: Seq<char>,
    peer_key_version_text: Seq<char>,
    sender_keys: Seq<RemoteAccountPublicKey>,
)
    requires
        sender_secret.len() == 32,
        sender_public.len() == 32,
        sender_public == x25519_public(sender_secret),
        peer_secret.len() == 32,
        peer_public.len() == 32,
        peer_public == x25519_public(peer_secret),
        nonce.len() == 24,
        req.peer_public_key == b64_encode(peer_public),
        sender_uin.len() > 0,
        seal_spec(req, Ok(Some(sender_uin)), Ok(Some(b64_encode(sender_secret))), Some(nonce), Some(clock)) is Ok,
        json_parses(req.payload),
        parse_i32_spec(peer_key_version_text) == Some(req.target_key_version),
        is_blank(request_source) || request_source == sender_uin,
        first_key_with_version(sender_keys, req.sender_key_version) == Some(b64_encode(sender_public)),
    ensures
        ({
            let change = seal_spec(
                req,
                Ok(Some(sender_uin)),
                Ok(Some(b64_encode(sender_secret))),
                Some(nonce),
                Some(clock),
            )->Ok_0;
            let pending = prepare_spec(
                request_source,
                change,
                Ok(Some(req.target_uin)),
                Ok(Some(peer_key_version_text)),
            );
            &&& pending is Ok
            &&& finish_spec(pending->Ok_0, sender_keys, Ok(Some(b64_encode(peer_secret)))) == Ok::<
                Seq<u8>,
                Seq<char>,
            >(req.payload)
        }),
{
    reveal(seal_spec);
    lemma_b64_trimmed(peer_public);
    lemma_b64_trimmed(sender_public);
    lemma_b64_roundtrip(peer_public);
    lemma_b64_roundtrip(sender_public);
    lemma_b64_roundtrip(sender_secret);
    lemma_b64_roundtrip(peer_secret);
    lemma_b64_roundtrip(nonce);
    let kv = req.target_key_version as int;
    // both ends agree on the shared secret and on the context
    assert(dh_secret(sender_secret, peer_public) == x25519_shared(set![sender_public, peer_public]));
    assert(dh_secret(peer_secret, sender_public) == x25519_shared(set![peer_public, sender_public]));
    assert(set![sender_public, peer_public] == set![peer_public, sender_public]);
    let key = account_key_spec(req.target_uin, req.peer_public_key, kv, Ok(Some(b64_encode(sender_secret))));
    assert(key is Ok);
    assert(account_key_spec(req.target_uin, b64_encode(sender_public), kv, Ok(Some(b64_encode(peer_secret)))) == key);
    let change = seal_spec(req, Ok(Some(sender_uin)), Ok(Some(b64_encode(sender_secret))), Some(nonce), Some(clock))->Ok_0;
    let ct = aead_seal(key->Ok_0, nonce, req.payload, vstd::utf8::encode_utf8(
        crate::channel::aad_text(
            sender_uin,
            req.sender_key_version as int,
            req.target_uin,
            kv,
            req.record_id,
            req.revision as int,
            req.operation,
        ),
    ));
    assert(change.ciphertext_b64 == b64_encode(ct));
    lemma_b64_roundtrip(ct);
    lemma_b64_roundtrip(vstd::utf8::encode_utf8(
        crate::channel::aad_text(
            sender_uin,
            req.sender_key_version as int,
            req.target_uin,
            kv,
            req.record_id,
            req.revision as int,
            req.operation,
        ),
    ));
    lemma_aead_roundtrip(key->Ok_0, nonce, req.payload, vstd::utf8::encode_utf8(
        crate::channel::aad_text(
            sender_uin,
            req.sender_key_version as int,
            req.target_uin,
            kv,
            req.record_id,
            req.revision as int,
            req.operation,
        ),
    ));
}

/// Uploading a change again once the relay has taken it is accepted without
/// writing anything: the upload is idempotent.
pub proof fn law_reupload_is_unchanged(existing: Option<(i64, Seq<char>)>, revision: i64, digest: Seq<char>)
    requires
        !(plan_kind(existing, revision, digest) is Conflict),
    ensures
        plan_kind(stored_after(existing, revision, digest), revision, digest) is Unchanged,
{
}

/// The relay's version of a record never goes back to a lower revision, a
/// refused change leaves it as it was, and a taken change is what it holds.
pub proof fn law_stored_revision_never_decreases(existing: Option<(i64, Seq<char>)>, revision: i64, digest: Seq<char>)
    ensures
        stored_after(existing, revision, digest) is Some,
        existing matches Some((r0, _)) ==> (stored_after(existing, revision, digest)->0).0 >= r0,
        plan_kind(existing, revision, digest) is Conflict ==> stored_after(existing, revision, digest) == existing,
        !(plan_kind(existing, revision, digest) is Conflict) ==> stored_after(existing, revision, digest) == Some((revision, digest)),
{
}

/// A stream position that the relay puts in a cursor is read back as itself.
pub proof fn law_cursor_roundtrip(position: i64)
    requires
        position >= 0,
    ensures
        cursor_spec(Some(decimal(position as int))) == Ok::<i64, (u16, Seq<char>)>(position),
{
    lemma_parse_decimal(position);
}

/// A download never moves the cursor back: when every row the query returns
/// lies after the cursor, the page ends at or after it.
pub proof fn law_pull_cursor_advances(rows: Seq<SyncItemRow>, limit: int, cursor: i64)
    requires
        1 <= limit,
        forall|i: int| 0 <= i < rows.len() ==> #[trigger] rows[i].stream_position > cursor,
    ensures
        page_next_position(rows, limit, cursor) >= cursor,
{
}

/// A pairing code that the relay issues is accepted as itself when a device
/// claims it.
pub proof fn law_issued_code_claims_as_itself(b: Seq<u8>)
    requires
        b.len() == 16,
    ensures
        is_pairing_code(pairing_code_of(b)),
        claim_code_spec(pairing_code_of(b)) == Ok::<Seq<char>, (u16, Seq<char>)>(pairing_code_of(b)),
{
    lemma_hex_lower(b);
    let h = uuid_simple(b).take(10);
    assert(vstd::utf8::is_ascii_chars(h));
    let code = pairing_code_of(b);
    assert(code == h.map_values(|c: char| ascii_upper(c)));
    assert forall|i: int| 0 <= i < 10 implies ('0' <= #[trigger] code[i] <= '9' || 'A' <= code[i]
        <= 'F') by {
        assert(code[i] == ascii_upper(h[i]));
    }
    assert(vstd::utf8::is_ascii_chars(code));
    lemma_trim_unchanged(code);
    assert(code.map_values(|c: char| ascii_upper(c)) == code);
    vstd::utf8::is_ascii_chars_encode_utf8(code);
}

/// A pairing code is good for fifteen minutes from its creation and for one
/// claim: another device may claim a pending pairing before it expires, and
/// no claim succeeds once it has expired or has been taken.
pub proof fn law_pairing_claimable_once_for_fifteen_minutes(
    initiator: Seq<u8>,
    claimant: Seq<u8>,
    status: Seq<char>,
    created: int,
    now: int,
)
    requires
        initiator != claimant,
    ensures
        status == "pending"@ && created <= now < created + pairing_lifetime_micros() ==> claim_check_spec(
            initiator,
            claimant,
            status,
            created + pairing_lifetime_micros(),
            now,
        ) is None,
        now >= created + pairing_lifetime_micros() ==> claim_check_spec(
            initiator,
            claimant,
            status,
            created + pairing_lifetime_micros(),
            now,
        ) == Some((GONE, "配对码已过期或已使用"@)),
        status != "pending"@ ==> claim_check_spec(
            initiator,
            claimant,
            status,
            created + pairing_lifetime_micros(),
            now,
        ) == Some((GONE, "配对码已过期或已使用"@)),
{
}

/// A device token presented as `Bearer <token>` is read back as the token,
/// for tokens that are not empty and carry no surrounding whitespace.
pub proof fn law_bearer_roundtrip(token: Seq<char>)
    requires
        token.len() > 0,
        trim(token) == token,
    ensures
        bearer_spec("Bearer "@ + token) == Some(token),
{
    reveal_strlit("Bearer ");
    let h = "Bearer "@ + token;
    assert(h.take(7) == "Bearer "@);
    assert(h.skip(7) == token);
}

/// Two texts that end in `=` followed by a run of digits have the same run.
proof fn lemma_digit_tail(a: Seq<char>, d1: Seq<char>, b: Seq<char>, d2: Seq<char>)
    requires
        a.len() > 0,
        a.last() == '=',
        b.len() > 0,
        b.last() == '=',
        all_digits(d1),
        all_digits(d2),
        a + d1 == b + d2,
    ensures
        d1 == d2,
        a == b,
{
    let t = a + d1;
    if d1.len() < d2.len() {
        let k = t.len() - d1.len() - 1;
        assert(t[k] == a.last());
        assert((b + d2)[k] == d2[k - b.len()]);
        assert(is_digit(d2[k - b.len()]));
    } else if d2.len() < d1.len() {
        let k = t.len() - d2.len() - 1;
        assert((b + d2)[k] == b.last());
        assert(t[k] == d1[k - a.len()]);
        assert(is_digit(d1[k - a.len()]));
    }
    assert(d1 == t.subrange(a.len() as int, t.len() as int));
    assert(d2 == (b + d2).subrange(b.len() as int, t.len() as int));
    assert(a == t.subrange(0, a.len() as int));
    assert(b == (b + d2).subrange(0, b.len() as int));
}

/// The associated data pins down the record, its revision and the operation.
proof fn lemma_aad_text_tail(
    s: Seq<char>,
    skv: int,
    t: Seq<char>,
    tkv: int,
    r1: Seq<char>,
    v1: int,
    o1: Seq<char>,
    r2: Seq<char>,
    v2: int,
    o2: Seq<char>,
)
    requires
        valid_operation(o1),
        valid_operation(o2),
        v1 >= 0,
        v2 >= 0,
        aad_text(s, skv, t, tkv, r1, v1, o1) == aad_text(s, skv, t, tkv, r2, v2, o2),
    ensures
        r1 == r2 && v1 == v2 && o1 == o2,
{
    reveal_strlit("upsert");
    reveal_strlit("tombstone");
    reveal_strlit(";revision=");
    reveal_strlit(";operation=");
    let x1 = aad_text(s, skv, t, tkv, r1, v1, o1);
    let x2 = aad_text(s, skv, t, tkv, r2, v2, o2);
    let h = "protocolVersion="@ + decimal(2) + ";sourceUin="@ + s + ";sourceKeyVersion="@ + decimal(skv)
        + ";targetUin="@ + t + ";targetKeyVersion="@ + decimal(tkv) + ";recordId="@;
    let a1 = h + r1 + ";revision="@;
    let a2 = h + r2 + ";revision="@;
    let p1 = a1 + decimal(v1) + ";operation="@;
    let p2 = a2 + decimal(v2) + ";operation="@;
    assert(x1 == p1 + o1);
    assert(x2 == p2 + o2);
    if o1 != o2 {
        assert(x1.last() == o1.last());
        assert(x2.last() == o2.last());
        assert(false);
    }
    assert(p1 == x1.subrange(0, p1.len() as int));
    assert(p2 == x2.subrange(0, p2.len() as int));
    assert(p1 == p2);
    assert(a1 + decimal(v1) == p1.subrange(0, p1.len() - 11));
    assert(a2 + decimal(v2) == p2.subrange(0, p2.len() - 11));
    lemma_decimal_nat(v1 as nat);
    lemma_decimal_nat(v2 as nat);
    lemma_digit_tail(a1, decimal(v1), a2, decimal(v2));
    assert(r1 == a1.subrange(h.len() as int, a1.len() - 10));
    assert(r2 == a2.subrange(h.len() as int, a2.len() - 10));
}

/// A receiver refuses a sealed change whose record identity, revision or
/// operation was altered on the way: the associated data that the sender
/// sealed binds all three, and the receiver checks it against the change it
/// was given.
pub proof fn law_altered_change_is_refused(
    request_source: Seq<char>,
    change: ChangeView,
    account_uin: Result<Option<Seq<char>>, Seq<char>>,
    key_version: Result<Option<Seq<char>>, Seq<char>>,
    record_id: Seq<char>,
    revision: i64,
    operation: Seq<char>,
)
    requires
        valid_operation(operation),
        revision >= 0,
        change.record_id != record_id || change.revision != revision || change.operation != operation,
        account_uin matches Ok(Some(local)) && change.aad_b64 == Some(
            b64_encode(
                vstd::utf8::encode_utf8(
                    aad_text(
                        sender_of(request_source, change),
                        change.sender_key_version as int,
                        local,
                        change.key_version as int,
                        record_id,
                        revision as int,
                        operation,
                    ),
                ),
            ),
        ),
    ensures
        prepare_spec(request_source, change, account_uin, key_version) is Err,
{
    let local = account_uin->Ok_0->0;
    let sender = sender_of(request_source, change);
    let sealed = aad_text(
        sender,
        change.sender_key_version as int,
        local,
        change.key_version as int,
        record_id,
        revision as int,
        operation,
    );
    let expected = aad_text(
        sender,
        change.sender_key_version as int,
        local,
        change.key_version as int,
        change.record_id,
        change.revision as int,
        change.operation,
    );
    lemma_b64_roundtrip(vstd::utf8::encode_utf8(sealed));
    if prepare_spec(request_source, change, account_uin, key_version) is Ok {
        assert(vstd::utf8::encode_utf8(sealed) == vstd::utf8::encode_utf8(expected));
        vstd::utf8::encode_utf8_decode_utf8(sealed);
        vstd::utf8::encode_utf8_decode_utf8(expected);
        lemma_aad_text_tail(
            sender,
            change.sender_key_version as int,
            local,
            change.key_version as int,
            record_id,
            revision as int,
            operation,
            change.record_id,
            change.revision as int,
            change.operation,
        );
    }
}

/// What a device pulls is what its peer pushed: a change that the relay took
/// is stored decoded, and delivering the stored row gives back the same
/// record, revision, key version, Base64 ciphertext, nonce and associated
/// data, digest and deletion time that were uploaded.
pub proof fn law_pull_returns_pushed_change(
    upload: EncryptedChangeInput,
    row: SyncItemRow,
    delivered: EncryptedChangeResponse,
)
    requires
        decode_spec(upload) is Ok,
        decoded_row(decode_spec(upload)->Ok_0, upload, row),
        delivers(delivered, row),
    ensures
        delivered.record_id@ == upload.record_id@,
        delivered.operation@ == upload.operation@,
        delivered.revision == upload.revision,
        delivered.key_version == upload.key_version,
        delivered.ciphertext_b64@ == upload.ciphertext_b64@,
        delivered.nonce_b64@ == upload.nonce_b64@,
        opt_text(delivered.aad_b64) == opt_text(upload.aad_b64),
        delivered.payload_digest@ == upload.payload_digest@,
        delivered.deleted_at == upload.deleted_at,
{
    let d = decode_spec(upload)->Ok_0;
    assert(b64_encode(d.0) == upload.ciphertext_b64@);
    assert(b64_encode(d.1) == upload.nonce_b64@);
    match upload.aad_b64 {
        Some(t) => {
            assert(b64_decode(t@) is Some);
            assert(b64_encode(d.2->0) == t@);
        },
        None => {},
    }
}

/// The row that the relay writes for an uploaded change: the decoded bytes
/// and the change's own fields.
pub open spec fn decoded_row(
    d: (Seq<u8>, Seq<u8>, Option<Seq<u8>>, Option<i64>),
    upload: EncryptedChangeInput,
    row: SyncItemRow,
) -> bool {
    &&& row.event_key@ == upload.record_id@
    &&& row.operation@ == upload.operation@
    &&& row.revision == upload.revision
    &&& row.key_version == upload.key_version
    &&& row.payload@ == d.0
    &&& row.payload_nonce@ == d.1
    &&& match row.aad {
        Some(a) => d.2 == Some(a@),
        None => d.2 is None,
    }
    &&& row.content_digest@ == upload.payload_digest@
    &&& row.deleted_at_millis == d.3
}

/// The relay's stored versions of a pairing's records: record identity to
/// revision and payload digest.
pub type RecordVersions = Map<Seq<char>, (i64, Seq<char>)>;

/// The stored version of one record, if any.
pub open spec fn version_of(m: RecordVersions, record_id: Seq<char>) -> Option<(i64, Seq<char>)> {
    if m.contains_key(record_id) {
        Some(m[record_id])
    } else {
        None
    }
}

/// The stored versions after an upload of `batch` (record identity,
/// revision, digest), planned change by change in order.
pub open spec fn push_versions(m: RecordVersions, batch: Seq<(Seq<char>, i64, Seq<char>)>) -> RecordVersions
    decreases batch.len(),
{
    if batch.len() == 0 {
        m
    } else {
        let before = push_versions(m, batch.drop_last());
        let (id, revision, digest) = batch.last();
        match stored_after(version_of(before, id), revision, digest) {
            Some(v) => before.insert(id, v),
            None => before,
        }
    }
}

/// Whether no change of an upload of `batch` was refused.
pub open spec fn batch_taken(m: RecordVersions, batch: Seq<(Seq<char>, i64, Seq<char>)>) -> bool {
    forall|i: int|
        0 <= i < batch.len() ==> !(plan_kind(
            version_of(push_versions(m, batch.take(i)), batch[i].0),
            batch[i].1,
            batch[i].2,
        ) is Conflict)
}

/// Whether the records of a batch are all different.
pub open spec fn distinct_records(batch: Seq<(Seq<char>, i64, Seq<char>)>) -> bool {
    forall|i: int, j: int| 0 <= i < j < batch.len() ==> batch[i].0 != batch[j].0
}

#[verifier::rlimit(40)]
proof fn lemma_push_holds_taken(m: RecordVersions, batch: Seq<(Seq<char>, i64, Seq<char>)>)
    requires
        distinct_records(batch),
        batch_taken(m, batch),
    ensures
        forall|i: int|
            0 <= i < batch.len() ==> version_of(push_versions(m, batch), (#[trigger] batch[i]).0)
                == Some((batch[i].1, batch[i].2)),
    decreases batch.len(),
{
    if batch.len() > 0 {
        let init = batch.drop_last();
        let n = batch.len() - 1;
        assert forall|i: int| 0 <= i < init.len() implies !(plan_kind(
            version_of(push_versions(m, init.take(i)), init[i].0),
            init[i].1,
            init[i].2,
        ) is Conflict) by {
            assert(init.take(i) == batch.take(i));
            assert(init[i] == batch[i]);
        }
        lemma_push_holds_taken(m, init);
        assert(batch.take(n) == init);
        let before = push_versions(m, init);
        let (id, revision, digest) = batch.last();
        assert(batch[n] == batch.last());
        assert(!(plan_kind(version_of(before, id), revision, digest) is Conflict));
        let after = before.insert(id, (revision, digest));
        assert(stored_after(version_of(before, id), revision, digest) == Some((revision, digest)));
        assert(push_versions(m, batch) == after);
        assert forall|i: int| 0 <= i < batch.len() implies version_of(
            after,
            (#[trigger] batch[i]).0,
        ) == Some((batch[i].1, batch[i].2)) by {
            if i < n {
                assert(batch[i] == init[i]);
                assert(batch[i].0 != id);
                assert(version_of(before, init[i].0) == Some((init[i].1, init[i].2)));
            }
        }
    }
}

proof fn lemma_push_keeps_held(m: RecordVersions, batch: Seq<(Seq<char>, i64, Seq<char>)>)
    requires
        forall|i: int|
            0 <= i < batch.len() ==> version_of(m, (#[trigger] batch[i]).0) == Some(
                (batch[i].1, batch[i].2),
            ),
    ensures
        push_versions(m, batch) == m,
        forall|i: int|
            0 <= i < batch.len() ==> plan_kind(
                version_of(push_versions(m, batch.take(i)), (#[trigger] batch[i]).0),
                batch[i].1,
                batch[i].2,
            ) is Unchanged,
    decreases batch.len(),
{
    if batch.len() > 0 {
        let init = batch.drop_last();
        assert forall|i: int| 0 <= i < init.len() implies version_of(m, (#[trigger] init[i]).0)
            == Some((init[i].1, init[i].2)) by {
            assert(init[i] == batch[i]);
        }
        lemma_push_keeps_held(m, init);
        let last = batch.last();
        assert(version_of(m, last.0) == Some((last.1, last.2)));
        assert(m.insert(last.0, (last.1, last.2)) == m);
        assert forall|i: int| 0 <= i < batch.len() implies plan_kind(
            version_of(push_versions(m, batch.take(i)), (#[trigger] batch[i]).0),
            batch[i].1,
            batch[i].2,
        ) is Unchanged by {
            if i < init.len() {
                assert(batch.take(i) == init.take(i));
                assert(init[i] == batch[i]);
            } else {
                assert(batch.take(i) == init);
            }
        }
    }
}

/// Uploading the same batch of different records again, after the relay took
/// every change of it, is accepted change by change without writing anything:
/// every change is planned as unchanged and the stored versions stay as they
/// are.
pub proof fn law_batch_reupload_is_unchanged(m: RecordVersions, batch: Seq<(Seq<char>, i64, Seq<char>)>)
    requires
        distinct_records(batch),
        batch_taken(m, batch),
    ensures
        forall|i: int|
            0 <= i < batch.len() ==> plan_kind(
                version_of(
                    push_versions(push_versions(m, batch), batch.take(i)),
                    (#[trigger] batch[i]).0,
                ),
                batch[i].1,
                batch[i].2,
            ) is Unchanged,
        push_versions(push_versions(m, batch), batch) == push_versions(m, batch),
{
    lemma_push_holds_taken(m, batch);
    lemma_push_keeps_held(push_versions(m, batch), batch);
}

/// Whether stream positions strictly increase along the rows.
pub open spec fn in_stream_order(items: Seq<SyncItemRow>) -> bool {
    forall|i: int, j: int|
        0 <= i < j < items.len() ==> (#[trigger] items[i]).stream_position
            < (#[trigger] items[j]).stream_position
}

/// The rows of a stream (in stream order) that lie after a cursor.
pub open spec fn rows_after(items: Seq<SyncItemRow>, cursor: i64) -> Seq<SyncItemRow>
    decreases items.len(),
{
    if items.len() == 0 || items[0].stream_position > cursor {
        items
    } else {
        rows_after(items.drop_first(), cursor)
    }
}

/// What the download query returns: the rows after the cursor in stream
/// order, at most `limit + 1` of them.
pub open spec fn query_rows(items: Seq<SyncItemRow>, cursor: i64, limit: int) -> Seq<SyncItemRow> {
    let all = rows_after(items, cursor);
    if all.len() > limit + 1 {
        all.take(limit + 1)
    } else {
        all
    }
}

proof fn lemma_rows_after_is_suffix(items: Seq<SyncItemRow>, cursor: i64)
    requires
        in_stream_order(items),
    ensures
        in_stream_order(rows_after(items, cursor)),
        forall|i: int|
            0 <= i < rows_after(items, cursor).len() ==> (#[trigger] rows_after(
                items,
                cursor,
            )[i]).stream_position > cursor,
        rows_after(items, cursor).len() <= items.len(),
        rows_after(items, cursor) == items.skip(items.len() - rows_after(items, cursor).len()),
    decreases items.len(),
{
    if items.len() == 0 {
    } else if items[0].stream_position > cursor {
        assert forall|i: int| 0 <= i < items.len() implies (#[trigger] items[i]).stream_position
            > cursor by {
            if i > 0 {
                assert(items[0].stream_position < items[i].stream_position);
            }
        }
        assert(items.skip(0) == items);
    } else {
        let rest = items.drop_first();
        assert forall|i: int, j: int| 0 <= i < j < rest.len() implies (#[trigger] rest[i]).stream_position
            < (#[trigger] rest[j]).stream_position by {
            assert(rest[i] == items[i + 1]);
            assert(rest[j] == items[j + 1]);
        }
        lemma_rows_after_is_suffix(rest, cursor);
        let r = rows_after(rest, cursor);
        assert(rest.skip(rest.len() - r.len()) == items.skip(items.len() - r.len()));
    }
}

proof fn lemma_rows_after_at(items: Seq<SyncItemRow>, k: int)
    requires
        in_stream_order(items),
        0 <= k < items.len(),
    ensures
        rows_after(items, items[k].stream_position) == items.skip(k + 1),
    decreases k,
{
    let rest = items.drop_first();
    assert forall|i: int, j: int| 0 <= i < j < rest.len() implies (#[trigger] rest[i]).stream_position
        < (#[trigger] rest[j]).stream_position by {
        assert(rest[i] == items[i + 1]);
        assert(rest[j] == items[j + 1]);
    }
    let p = items[k].stream_position;
    if k == 0 {
        assert(rows_after(items, p) == rows_after(rest, p));
        if rest.len() > 0 {
            assert(rest[0] == items[1]);
            assert(items[0].stream_position < items[1].stream_position);
        }
        assert(rows_after(rest, p) == rest);
        assert(rest == items.skip(1));
    } else {
        assert(items[0].stream_position < items[k].stream_position);
        assert(rows_after(items, p) == rows_after(rest, p));
        assert(rest[k - 1] == items[k]);
        lemma_rows_after_at(rest, k - 1);
        assert(rest.skip(k) == items.skip(k + 1));
    }
}

proof fn lemma_rows_after_continue(items: Seq<SyncItemRow>, cursor: i64, k: int)
    requires
        in_stream_order(items),
        0 <= k < rows_after(items, cursor).len(),
    ensures
        rows_after(items, rows_after(items, cursor)[k].stream_position) == rows_after(
            items,
            cursor,
        ).skip(k + 1),
{
    lemma_rows_after_is_suffix(items, cursor);
    let all = rows_after(items, cursor);
    let start = items.len() - all.len();
    assert(all[k] == items[start + k]);
    lemma_rows_after_at(items, start + k);
    assert(items.skip(start + k + 1) == all.skip(k + 1));
}

/// One page of a download, in terms of the stream: it delivers the first
/// rows after the cursor (at most `limit`), tells whether more follow, and the
/// cursor it hands back selects exactly the rows it did not deliver.
pub proof fn law_pull_page_continues(items: Seq<SyncItemRow>, cursor: i64, limit: int)
    requires
        in_stream_order(items),
        1 <= limit,
    ensures
        ({
            let all = rows_after(items, cursor);
            let got = query_rows(items, cursor, limit);
            let n = page_len(got, limit);
            &&& n == if all.len() > limit {
                limit
            } else {
                all.len() as int
            }
            &&& got.take(n) == all.take(n)
            &&& (got.len() > limit) == (all.len() > limit)
            &&& rows_after(items, page_next_position(got, limit, cursor) as i64) == all.skip(n)
        }),
{
    let all = rows_after(items, cursor);
    let got = query_rows(items, cursor, limit);
    let n = page_len(got, limit);
    if n == 0 {
        assert(all.skip(0) == all);
    } else {
        assert(got[n - 1] == all[n - 1]);
        lemma_rows_after_continue(items, cursor, n - 1);
    }
}

/// Everything that repeated downloads deliver, starting at `cursor` and each
/// time passing on the cursor the last page handed back, until a page says
/// that no more rows follow.
pub open spec fn pull_all(items: Seq<SyncItemRow>, cursor: i64, limit: int) -> Seq<SyncItemRow>
    decreases rows_after(items, cursor).len(),
{
    let got = query_rows(items, cursor, limit);
    let page = got.take(page_len(got, limit));
    if 1 <= limit && in_stream_order(items) && got.len() > limit {
        proof {
            law_pull_page_continues(items, cursor, limit);
        }
        page + pull_all(items, page_next_position(got, limit, cursor) as i64, limit)
    } else {
        page
    }
}

/// Repeated downloads list every row after the starting cursor exactly once,
/// in stream order; from the cursor 0, when positions start at 1, that is the
/// whole stream.
pub proof fn law_pull_lists_every_row_once(items: Seq<SyncItemRow>, cursor: i64, limit: int)
    requires
        in_stream_order(items),
        1 <= limit,
    ensures
        pull_all(items, cursor, limit) == rows_after(items, cursor),
        (forall|i: int| 0 <= i < items.len() ==> (#[trigger] items[i]).stream_position > cursor)
            ==> pull_all(items, cursor, limit) == items,
    decreases rows_after(items, cursor).len(),
{
    law_pull_page_continues(items, cursor, limit);
    let all = rows_after(items, cursor);
    let got = query_rows(items, cursor, limit);
    let n = page_len(got, limit);
    if got.len() > limit {
        let next = page_next_position(got, limit, cursor) as i64;
        law_pull_lists_every_row_once(items, next, limit);
        assert(all.take(n) + all.skip(n) == all);
    } else {
        assert(all.take(n) == all);
    }
    if items.len() > 0 && items[0].stream_position > cursor {
        assert(all == items);
    }
}

/// The ASCII lower case of a character.
pub open spec fn ascii_lower(c: char) -> char {
    if 'A' <= c <= 'Z' {
        ((c as u32) + 32) as char
    } else {
        c
    }
}

proof fn lemma_trim_start_spaces(lead: Seq<char>, x: Seq<char>)
    requires
        forall|i: int| 0 <= i < lead.len() ==> is_space(#[trigger] lead[i]),
        x.len() > 0,
        !is_space(x[0]),
    ensures
        trim_start(lead + x) == x,
    decreases lead.len(),
{
    if lead.len() > 0 {
        assert((lead + x)[0] == lead[0]);
        assert((lead + x).drop_first() == lead.drop_first() + x);
        lemma_trim_start_spaces(lead.drop_first(), x);
    } else {
        assert(lead + x == x);
    }
}

proof fn lemma_trim_end_spaces(x: Seq<char>, trail: Seq<char>)
    requires
        forall|i: int| 0 <= i < trail.len() ==> is_space(#[trigger] trail[i]),
        x.len() > 0,
        !is_space(x.last()),
    ensures
        trim_end(x + trail) == x,
    decreases trail.len(),
{
    if trail.len() > 0 {
        assert((x + trail).last() == trail.last());
        assert((x + trail).drop_last() == x + trail.drop_last());
        lemma_trim_end_spaces(x, trail.drop_last());
    } else {
        assert(x + trail == x);
    }
}

/// A pairing code that the relay issued is found when a device types it in
/// any mix of upper and lower case, with whitespace around it.
pub proof fn law_claim_accepts_code_in_any_case(
    b: Seq<u8>,
    lead: Seq<char>,
    typed: Seq<char>,
    trail: Seq<char>,
)
    requires
        b.len() == 16,
        typed.len() == 10,
        forall|i: int|
            0 <= i < 10 ==> #[trigger] typed[i] == pairing_code_of(b)[i] || typed[i] == ascii_lower(
                pairing_code_of(b)[i],
            ),
        forall|i: int| 0 <= i < lead.len() ==> is_space(#[trigger] lead[i]),
        forall|i: int| 0 <= i < trail.len() ==> is_space(#[trigger] trail[i]),
    ensures
        claim_code_spec(lead + typed + trail) == Ok::<Seq<char>, (u16, Seq<char>)>(pairing_code_of(b)),
{
    law_issued_code_claims_as_itself(b);
    let code = pairing_code_of(b);
    assert forall|i: int| 0 <= i < 10 implies ('0' <= #[trigger] typed[i] <= '9' || 'A' <= typed[i]
        <= 'F' || 'a' <= typed[i] <= 'f') && ascii_upper(typed[i]) == code[i] by {
        assert('0' <= code[i] <= '9' || 'A' <= code[i] <= 'F');
    }
    assert(!is_space(typed[0]));
    assert(!is_space(typed.last())) by {
        assert(typed.last() == typed[9]);
    }
    assert(lead + typed + trail == lead + (typed + trail));
    assert((typed + trail)[0] == typed[0]);
    lemma_trim_start_spaces(lead, typed + trail);
    lemma_trim_end_spaces(typed, trail);
    assert(trim(lead + typed + trail) == typed);
    assert(vstd::utf8::is_ascii_chars(typed));
    assert(typed.map_values(|c: char| ascii_upper(c)) == code);
    vstd::utf8::is_ascii_chars_encode_utf8(code);
}

/// A request that differs from `req` only in its operation.
pub open spec fn with_operation(req: EncryptRequestView, operation: Seq<char>) -> EncryptRequestView {
    EncryptRequestView { operation, ..req }
}

/// A deletion is sealed just as a write is: a request sealed as a tombstone
/// succeeds exactly when the same request sealed as an upsert does, and the
/// sealed change carries the request's record, operation, revision, key
/// versions, target account and deletion time, from the device's account.
pub proof fn law_deletions_seal_like_writes(
    req: EncryptRequestView,
    account_uin: Result<Option<Seq<char>>, Seq<char>>,
    private_key: Result<Option<Seq<char>>, Seq<char>>,
    nonce: Option<Seq<u8>>,
    clock: Option<u128>,
)
    ensures
        seal_spec(with_operation(req, "tombstone"@), account_uin, private_key, nonce, clock) is Ok
            == seal_spec(with_operation(req, "upsert"@), account_uin, private_key, nonce, clock) is Ok,
        seal_spec(req, account_uin, private_key, nonce, clock) matches Ok(c) ==> {
            &&& c.record_id == req.record_id
            &&& c.operation == req.operation
            &&& c.revision == req.revision
            &&& c.key_version == req.target_key_version
            &&& c.sender_key_version == req.sender_key_version
            &&& c.target_uin == req.target_uin
            &&& c.deleted_at == req.deleted_at
            &&& account_uin matches Ok(Some(u)) && c.source_uin == Some(u)
        },
{
    reveal(seal_spec);
    reveal_strlit("tombstone");
    reveal_strlit("upsert");
}

/// A change that differs from `change` only in the sending account it carries.
pub open spec fn with_source(change: ChangeView, source_uin: Option<Seq<char>>) -> ChangeView {
    ChangeView { source_uin, ..change }
}

/// When the request names the sending account, that account is the sender:
/// what the change itself carries as its sending account (or its absence)
/// makes no difference to the checks, and a change that passes them is
/// attributed to the named account.
pub proof fn law_named_sender_is_used(
    request_source: Seq<char>,
    change: ChangeView,
    other_source: Option<Seq<char>>,
    account_uin: Result<Option<Seq<char>>, Seq<char>>,
    key_version: Result<Option<Seq<char>>, Seq<char>>,
)
    requires
        !is_blank(request_source),
    ensures
        prepare_spec(request_source, change, account_uin, key_version) == prepare_spec(
            request_source,
            with_source(change, other_source),
            account_uin,
            key_version,
        ),
        prepare_spec(request_source, change, account_uin, key_version) matches Ok(p)
            ==> p.sender_uin == request_source,
{
}

/// Whether two uploaded changes agree in everything but their operation.
pub open spec fn same_but_operation(a: EncryptedChangeInput, b: EncryptedChangeInput) -> bool {
    &&& a.record_id@ == b.record_id@
    &&& a.revision == b.revision
    &&& a.key_version == b.key_version
    &&& a.ciphertext_b64@ == b.ciphertext_b64@
    &&& a.nonce_b64@ == b.nonce_b64@
    &&& opt_text(a.aad_b64) == opt_text(b.aad_b64)
    &&& a.payload_digest@ == b.payload_digest@
    &&& a.deleted_at == b.deleted_at
}

/// The relay takes a deletion (tombstone) upload just as it takes a write: it
/// decodes to the same stored form as the same change sent as an upsert.
pub proof fn law_relay_takes_deletions_like_writes(tombstone: EncryptedChangeInput, upsert: EncryptedChangeInput)
    requires
        tombstone.operation@ == "tombstone"@,
        upsert.operation@ == "upsert"@,
        same_but_operation(tombstone, upsert),
    ensures
        decode_spec(tombstone) == decode_spec(upsert),
{
    reveal_strlit("tombstone");
    reveal_strlit("upsert");
}

/// When every stored secret can be read, the reported configuration is what
/// is stored: endpoint, device identity, server device identity, label and
/// account as stored, the key version when it is a number, and registered
/// exactly when a device token, a secret key and a public key are all stored.
pub proof fn law_config_reports_what_is_stored(
    endpoint: Option<Seq<char>>,
    device_id: Option<Seq<char>>,
    server_device_id: Option<Seq<char>>,
    label: Option<Seq<char>>,
    account_uin: Option<Seq<char>>,
    key_version: Option<Seq<char>>,
    device_token: Option<Seq<char>>,
    private_key: Option<Seq<char>>,
    public_key: Option<Seq<char>>,
)
    ensures
        ({
            let c = config_spec(
                Ok(endpoint),
                Ok(device_id),
                Ok(server_device_id),
                Ok(label),
                Ok(account_uin),
                Ok(key_version),
                Ok(device_token),
                Ok(private_key),
                Ok(public_key),
            );
            &&& c is Ok
            &&& c->Ok_0.0 == endpoint
            &&& c->Ok_0.1 == device_id
            &&& c->Ok_0.2 == server_device_id
            &&& c->Ok_0.3 == label
            &&& c->Ok_0.4 == account_uin
            &&& (key_version matches Some(t) ==> c->Ok_0.5 == parse_i32_spec(t))
            &&& (key_version is None ==> c->Ok_0.5 is None)
            &&& c->Ok_0.6 == (device_token is Some && private_key is Some && public_key is Some)
        }),
{
}

/// Every well-formed record seals: a record identity that is not blank and at
/// most 512 bytes, either operation (upsert or tombstone), a revision from 0,
/// key versions from 1 to 100, a bound account, a 32-byte peer public key and
/// a 32-byte secret key in Base64, a 24-byte nonce, a clock reading and a
/// payload the cipher takes.
pub proof fn law_well_formed_records_seal(
    req: EncryptRequestView,
    account: Seq<char>,
    peer_public: Seq<u8>,
    secret: Seq<u8>,
    nonce: Seq<u8>,
    clock: u128,
)
    requires
        !is_blank(req.record_id),
        utf8_len(req.record_id) <= 512,
        req.operation == "upsert"@ || req.operation == "tombstone"@,
        req.revision >= 0,
        1 <= req.target_key_version <= 100,
        1 <= req.sender_key_version <= 100,
        peer_public.len() == 32,
        req.peer_public_key == b64_encode(peer_public),
        secret.len() == 32,
        nonce.len() == 24,
        aead_len_ok(req.payload.len()),
    ensures
        seal_spec(req, Ok(Some(account)), Ok(Some(b64_encode(secret))), Some(nonce), Some(clock)) is Ok,
{
    reveal(seal_spec);
    reveal_strlit("tombstone");
    reveal_strlit("upsert");
    lemma_b64_trimmed(peer_public);
    lemma_b64_roundtrip(peer_public);
    lemma_b64_roundtrip(secret);
}

/// Every well-formed upload is taken, and stored as the bytes it encodes: a
/// record identity that is not blank and at most 512 bytes, either operation,
/// a revision from 0 to `i32::MAX`, a key version from 1 to 100, a digest of
/// 64 hexadecimal digits, the Base64 of a ciphertext (at most 8 MiB of text),
/// of a nonce of 8 to 64 bytes and, if present, of associated data of at most
/// 4096 bytes, and a deletion time in the calendar range.
pub proof fn law_well_formed_uploads_are_taken(
    upload: EncryptedChangeInput,
    ct: Seq<u8>,
    nonce: Seq<u8>,
    aad: Option<Seq<u8>>,
)
    requires
        !is_blank(upload.record_id@),
        utf8_len(upload.record_id@) <= 512,
        upload.operation@ == "upsert"@ || upload.operation@ == "tombstone"@,
        0 <= upload.revision <= i32::MAX,
        1 <= upload.key_version <= 100,
        upload.payload_digest@.len() == 64,
        forall|i: int| 0 <= i < 64 ==> is_hex_digit(#[trigger] upload.payload_digest@[i]),
        upload.ciphertext_b64@ == b64_encode(ct),
        utf8_len(upload.ciphertext_b64@) <= 8388608,
        upload.nonce_b64@ == b64_encode(nonce),
        8 <= nonce.len() <= 64,
        match aad {
            Some(a) => a.len() <= 4096 && opt_text(upload.aad_b64) == Some(b64_encode(a)),
            None => upload.aad_b64 is None,
        },
        upload.deleted_at matches Some(ms) ==> -8334601228800000 <= ms <= 8210266876799999,
    ensures
        decode_spec(upload) == Ok::<_, (u16, Seq<char>)>((ct, nonce, aad, upload.deleted_at)),
{
    reveal_strlit("tombstone");
    reveal_strlit("upsert");
    lemma_b64_roundtrip(ct);
    lemma_b64_roundtrip(nonce);
    if let Some(a) = aad {
        lemma_b64_roundtrip(a);
    }
    let d = upload.payload_digest@;
    assert(vstd::utf8::is_ascii_chars(d)) by {
        assert forall|i: int| 0 <= i < d.len() implies '\0' <= #[trigger] d[i] <= '\u{7f}' by {
            assert(is_hex_digit(d[i]));
        }
    }
    vstd::utf8::is_ascii_chars_encode_utf8(d);
}

} // verus!
