//! Interpretation of the DNS provider's response envelopes and the
//! planning of record upserts.
//!
//! The network layer outside the library turns each JSON response into the
//! plain field-by-field shapes below (`RawRecord`, `ResponseStatus`, the
//! `*Response` structs); every decision taken on those values is verified
//! here.

use vstd::prelude::*;

use crate::errors::DynDnsError;
use crate::text::str_eq;

verus! {

/// Record type name of an IPv4 address record.
pub fn dns_record_type_a() -> (r: &'static str)
    ensures
        r@ == "A"@,
{
    "A"
}

/// Record type name of an IPv6 address record.
pub fn dns_record_type_aaaa() -> (r: &'static str)
    ensures
        r@ == "AAAA"@,
{
    "AAAA"
}

/// A DNS record as the provider reports it, rebuilt fresh from each
/// response and never cached beyond one reconciliation call.
#[derive(Debug, Clone)]
pub struct DnsRecord {
    pub id: String,
    pub name: String,
    pub record_type: String,
    pub content: String,
    pub proxiable: bool,
    pub proxied: bool,
    pub ttl: u64,
}

/// A record as it stands in a provider response: every field may be
/// missing or of an unexpected shape, and then counts as absent.
#[derive(Debug, Clone)]
pub struct RawRecord {
    pub id: Option<String>,
    pub name: Option<String>,
    pub record_type: Option<String>,
    pub content: Option<String>,
    pub proxiable: Option<bool>,
    pub proxied: Option<bool>,
    pub ttl: Option<u64>,
}

/// One entry of a provider error list; its message may be missing or not
/// a string.
#[derive(Debug, Clone)]
pub struct ErrorDetail {
    pub message: Option<String>,
}

/// The outcome part of a provider response envelope: the success flag and
/// the error list, each possibly missing.
#[derive(Debug, Clone)]
pub struct ResponseStatus {
    pub success: Option<bool>,
    pub errors: Option<Vec<ErrorDetail>>,
}

pub open spec fn str_or_empty(o: Option<String>) -> Seq<char> {
    match o {
        Some(s) => s@,
        None => Seq::<char>::empty(),
    }
}

pub open spec fn bool_or_false(o: Option<bool>) -> bool {
    match o {
        Some(b) => b,
        None => false,
    }
}

pub open spec fn u64_or_zero(o: Option<u64>) -> u64 {
    match o {
        Some(n) => n,
        None => 0,
    }
}

/// `rec` is `raw` with every absent field replaced by its default.
pub open spec fn record_matches_raw(rec: DnsRecord, raw: RawRecord) -> bool {
    &&& rec.id@ == str_or_empty(raw.id)
    &&& rec.name@ == str_or_empty(raw.name)
    &&& rec.record_type@ == str_or_empty(raw.record_type)
    &&& rec.content@ == str_or_empty(raw.content)
    &&& rec.proxiable == bool_or_false(raw.proxiable)
    &&& rec.proxied == bool_or_false(raw.proxied)
    &&& rec.ttl == u64_or_zero(raw.ttl)
}

fn string_or_empty(o: Option<String>) -> (r: String)
    ensures
        r@ == str_or_empty(o),
{
    match o {
        Some(s) => s,
        None => String::new(),
    }
}

/// Builds a record from a raw response record, defaulting each absent
/// field: empty string, `false`, or zero.
pub fn parse_record_data(raw: RawRecord) -> (rec: DnsRecord)
    ensures
        record_matches_raw(rec, raw),
{
    DnsRecord {
        id: string_or_empty(raw.id),
        name: string_or_empty(raw.name),
        record_type: string_or_empty(raw.record_type),
        content: string_or_empty(raw.content),
        proxiable: match raw.proxiable {
            Some(b) => b,
            None => false,
        },
        proxied: match raw.proxied {
            Some(b) => b,
            None => false,
        },
        ttl: match raw.ttl {
            Some(n) => n,
            None => 0,
        },
    }
}

/// The messages present in a provider error list, in order.
pub open spec fn present_messages(errors: Seq<ErrorDetail>) -> Seq<Seq<char>>
    decreases errors.len(),
{
    if errors.len() == 0 {
        Seq::<Seq<char>>::empty()
    } else {
        let rest = present_messages(errors.drop_last());
        match errors.last().message {
            Some(m) => rest.push(m@),
            None => rest,
        }
    }
}

/// The parts joined by a comma-space separator.
pub open spec fn join_comma(parts: Seq<Seq<char>>) -> Seq<char>
    decreases parts.len(),
{
    if parts.len() == 0 {
        Seq::<char>::empty()
    } else if parts.len() == 1 {
        parts[0]
    } else {
        join_comma(parts.drop_last()) + ", "@ + parts.last()
    }
}

/// The message of a failed response: the present error messages joined
/// with a comma-space separator, or a fixed text when the envelope holds
/// no error list at all.
pub open spec fn response_error_message(status: ResponseStatus) -> Seq<char> {
    match status.errors {
        Some(list) => join_comma(present_messages(list@)),
        None => "Unknown error"@,
    }
}

fn join_messages(list: &Vec<ErrorDetail>) -> (r: String)
    ensures
        r@ == join_comma(present_messages(list@)),
{
    let mut out = String::new();
    let mut count: usize = 0;
    let mut idx: usize = 0;
    while idx < list.len()
        invariant
            0 <= idx <= list@.len(),
            count <= idx,
            out@ == join_comma(present_messages(list@.take(idx as int))),
            count == present_messages(list@.take(idx as int)).len(),
        decreases list@.len() - idx,
    {
        proof {
            assert(list@.take(idx + 1).drop_last() =~= list@.take(idx as int));
            assert(list@.take(idx + 1).last() == list@[idx as int]);
        }
        match &list[idx].message {
            Some(m) => {
                proof {
                    let prev = present_messages(list@.take(idx as int));
                    assert(present_messages(list@.take(idx + 1)) == prev.push(m@));
                    assert(prev.push(m@).drop_last() =~= prev);
                }
                if count > 0 {
                    out.append(", ");
                }
                out.append(m.as_str());
                count = count + 1;
            },
            None => {
                proof {
                    assert(present_messages(list@.take(idx + 1)) == present_messages(
                        list@.take(idx as int),
                    ));
                }
            },
        }
        idx = idx + 1;
    }
    proof {
        assert(list@.take(list@.len() as int) =~= list@);
    }
    out
}

/// Checks the outcome part of a provider response. Success is owed exactly
/// when the envelope carries an explicit `true` success flag; any other
/// envelope yields a provider error whose message aggregates the error
/// list.
pub fn parse_response_errors(status: &ResponseStatus) -> (r: Result<(), DynDnsError>)
    ensures
        (r is Ok) <==> (status.success matches Some(true)),
        r matches Err(e) ==> (e matches DynDnsError::Provider { message } && message@
            == response_error_message(*status)),
{
    let ok = match status.success {
        Some(true) => true,
        _ => false,
    };
    if ok {
        return Ok(());
    }
    let message = match &status.errors {
        Some(list) => join_messages(list),
        None => "Unknown error".to_owned(),
    };
    Err(DynDnsError::Provider { message })
}

/// One zone as the zone listing reports it.
#[derive(Debug, Clone)]
pub struct ZoneInfo {
    pub id: Option<String>,
}

/// The envelope of a zone listing; `result` is absent when the response
/// does not hold a list there.
#[derive(Debug, Clone)]
pub struct ZoneListResponse {
    pub result: Option<Vec<ZoneInfo>>,
}

/// Extracts the zone id from a zone listing: the id of the first listed
/// zone. An envelope without a result list, or a first zone without an
/// id, is a protocol error; an empty list means no zone exists for the
/// queried domain.
pub fn zone_id_from_response(resp: ZoneListResponse) -> (r: Result<String, DynDnsError>)
    ensures
        (resp.result is None) ==> (r matches Err(e) && e == DynDnsError::Protocol),
        (match resp.result {
            Some(zones) => zones@.len() == 0,
            None => false,
        }) ==> (r matches Err(e) && e == DynDnsError::NotFound),
        (match resp.result {
            Some(zones) => zones@.len() > 0 && zones@[0].id is Some,
            None => false,
        }) ==> (r matches Ok(z) && z@ == resp.result->0@[0].id->0@),
        (match resp.result {
            Some(zones) => zones@.len() > 0 && zones@[0].id is None,
            None => false,
        }) ==> (r matches Err(e) && e == DynDnsError::Protocol),
{
    match resp.result {
        None => Err(DynDnsError::Protocol),
        Some(mut zones) => {
            if zones.len() == 0 {
                Err(DynDnsError::NotFound)
            } else {
                let first = zones.remove(0);
                match first.id {
                    Some(id) => Ok(id),
                    None => Err(DynDnsError::Protocol),
                }
            }
        },
    }
}

/// The envelope of a record listing; `result` is absent when the response
/// does not hold a list there.
#[derive(Debug, Clone)]
pub struct RecordListResponse {
    pub result: Option<Vec<RawRecord>>,
}

/// Extracts the looked-up record from a record listing: the first listed
/// record, or the explicit "absent" outcome when the list is empty. An
/// envelope without a result list is a protocol error.
pub fn record_from_response(resp: RecordListResponse) -> (r: Result<
    Option<DnsRecord>,
    DynDnsError,
>)
    ensures
        (resp.result is None) ==> (r matches Err(e) && e == DynDnsError::Protocol),
        (match resp.result {
            Some(records) => records@.len() == 0,
            None => false,
        }) ==> (r matches Ok(o) && o is None),
        (match resp.result {
            Some(records) => records@.len() > 0,
            None => false,
        }) ==> (r matches Ok(o) && o matches Some(rec) && record_matches_raw(
            rec,
            resp.result->0@[0],
        )),
{
    match resp.result {
        None => Err(DynDnsError::Protocol),
        Some(mut records) => {
            if records.len() == 0 {
                Ok(None)
            } else {
                let first = records.remove(0);
                Ok(Some(parse_record_data(first)))
            }
        },
    }
}

/// What a record upsert does after looking up the existing record.
#[derive(Debug, Clone)]
pub enum UpsertAction {
    /// The record exists and already carries the target content: no
    /// network write happens and the record is reported unchanged.
    Keep { record: DnsRecord },
    /// The record exists with other content: a partial update is issued
    /// against its id.
    Update { record_id: String },
    /// No record exists: a creation is issued.
    Create,
}

/// An upsert must issue a network write exactly when no record exists or
/// the existing record's content differs from the target.
pub open spec fn upsert_writes(existing: Option<DnsRecord>, content: Seq<char>) -> bool {
    match existing {
        Some(rec) => rec.content@ != content,
        None => true,
    }
}

/// Decides the reconciliation step from the looked-up record and the
/// target content.
pub fn plan_upsert(existing: Option<DnsRecord>, content: &str) -> (a: UpsertAction)
    ensures
        (a is Keep) <==> !upsert_writes(existing, content@),
        match existing {
            Some(rec) => {
                &&& rec.content@ == content@ ==> (a matches UpsertAction::Keep { record }
                    && record == rec)
                &&& rec.content@ != content@ ==> (a matches UpsertAction::Update { record_id }
                    && record_id@ == rec.id@)
            },
            None => a is Create,
        },
{
    match existing {
        Some(rec) => {
            if str_eq(rec.content.as_str(), content) {
                UpsertAction::Keep { record: rec }
            } else {
                UpsertAction::Update { record_id: rec.id }
            }
        },
        None => UpsertAction::Create,
    }
}

/// Upsert idempotence: a successful write stores the requested content,
/// so a second upsert with the same arguments finds that content in
/// place and plans no further write.
pub proof fn lemma_upsert_idempotent(written: DnsRecord, content: Seq<char>)
    requires
        written.content@ == content,
    ensures
        !upsert_writes(Some(written), content),
{
}

/// The body of every record write, creation and update alike.
#[derive(Debug, Clone)]
pub struct RecordParams {
    pub name: String,
    pub record_type: String,
    pub content: String,
    pub proxied: bool,
}

/// Builds the write body `{name, type, content, proxied}` for a record
/// write.
pub fn write_request_params(domain: &str, record_type: &str, content: &str, proxied: bool) -> (p:
    RecordParams)
    ensures
        p.name@ == domain@,
        p.record_type@ == record_type@,
        p.content@ == content@,
        p.proxied == proxied,
{
    RecordParams {
        name: domain.to_owned(),
        record_type: record_type.to_owned(),
        content: content.to_owned(),
        proxied,
    }
}

/// The envelope of a record write response: the outcome part, and the
/// written record when the response carries one.
#[derive(Debug, Clone)]
pub struct WriteResponse {
    pub status: ResponseStatus,
    pub result: Option<RawRecord>,
}

/// Interprets a write response: on an explicit success flag the written
/// record is returned (a success without a record is a protocol error);
/// on anything else, the aggregated provider error.
pub fn interpret_write_response(resp: WriteResponse) -> (r: Result<DnsRecord, DynDnsError>)
    ensures
        (resp.status.success matches Some(true)) ==> match resp.result {
            Some(raw) => r matches Ok(rec) && record_matches_raw(rec, raw),
            None => r matches Err(e) && e == DynDnsError::Protocol,
        },
        !(resp.status.success matches Some(true)) ==> (r matches Err(e) && e
            matches DynDnsError::Provider { message } && message@ == response_error_message(
            resp.status,
        )),
{
    match parse_response_errors(&resp.status) {
        Err(e) => Err(e),
        Ok(()) => match resp.result {
            Some(raw) => Ok(parse_record_data(raw)),
            None => Err(DynDnsError::Protocol),
        },
    }
}

} // verus!
