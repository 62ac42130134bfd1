//! The per-cycle reconciliation decisions: which addresses a cycle works
//! with, whether the domain phase runs at all, which record writes each
//! domain plans, how each (domain, family) pair's outcome is classified,
//! and how long the cycle sleeps afterwards.
//!
//! The driver outside the library performs the network calls and the
//! sleeping; every choice between them is taken here.

use vstd::prelude::*;

use crate::errors::DynDnsError;
use crate::provider::{
    dns_record_type_a, dns_record_type_aaaa, write_request_params, DnsRecord, RecordParams,
    UpsertAction,
};

verus! {

/// The two address families the updater reconciles independently.
#[derive(Debug, Clone, Copy, PartialEq, Eq, Structural)]
pub enum AddressFamily {
    V4,
    V6,
}

/// The DNS record type name that a family's records carry.
pub fn record_type_for(family: AddressFamily) -> (r: &'static str)
    ensures
        (family is V4) ==> r@ == "A"@,
        (family is V6) ==> r@ == "AAAA"@,
{
    match family {
        AddressFamily::V4 => dns_record_type_a(),
        AddressFamily::V6 => dns_record_type_aaaa(),
    }
}

/// The address a family contributes to a cycle: the resolved address
/// when the family is enabled and its resolution succeeded; nothing when
/// it is disabled or its resolution failed. A family's failure is
/// absorbed here and never aborts the cycle.
pub fn family_address(enabled: bool, outcome: Option<Result<String, DynDnsError>>) -> (r: Option<
    String,
>)
    ensures
        !enabled ==> r is None,
        enabled ==> match outcome {
            Some(res) => match res {
                Ok(ip) => r matches Some(a) && a@ == ip@,
                Err(_) => r is None,
            },
            None => r is None,
        },
{
    if !enabled {
        return None;
    }
    match outcome {
        Some(res) => match res {
            Ok(ip) => Some(ip),
            Err(_) => None,
        },
        None => None,
    }
}

/// The skip check: the domain phase runs exactly when some family
/// yielded an address this cycle.
pub fn should_update_domains(ipv4: &Option<String>, ipv6: &Option<String>) -> (b: bool)
    ensures
        b == (ipv4 is Some || ipv6 is Some),
{
    ipv4.is_some() || ipv6.is_some()
}

/// The record writes one domain plans this cycle: one per family that
/// yielded an address, IPv4 first, each with the domain as record name,
/// the family's record type, the family's address as content, and the
/// configured proxy flag.
pub fn plan_record_updates(
    domain: &str,
    ipv4: &Option<String>,
    ipv6: &Option<String>,
    proxied: bool,
) -> (v: Vec<RecordParams>)
    ensures
        v@.len() == (if ipv4 is Some {
            1int
        } else {
            0int
        }) + (if ipv6 is Some {
            1int
        } else {
            0int
        }),
        ipv4 matches Some(a) ==> v@[0].name@ == domain@ && v@[0].record_type@ == "A"@
            && v@[0].content@ == a@ && v@[0].proxied == proxied,
        ipv6 matches Some(a) ==> v@[v@.len() - 1].name@ == domain@ && v@[v@.len()
            - 1].record_type@ == "AAAA"@ && v@[v@.len() - 1].content@ == a@ && v@[v@.len()
            - 1].proxied == proxied,
{
    let mut v: Vec<RecordParams> = Vec::new();
    match ipv4 {
        Some(a) => v.push(write_request_params(domain, dns_record_type_a(), a.as_str(), proxied)),
        None => {},
    }
    match ipv6 {
        Some(a) => v.push(
            write_request_params(domain, dns_record_type_aaaa(), a.as_str(), proxied),
        ),
        None => {},
    }
    v
}

/// What one (domain, family) reconciliation came to, as the cycle
/// reports it.
#[derive(Debug, Clone)]
pub enum ReconcileOutcome {
    /// The record already carried the address; nothing was written.
    NoOp,
    /// The record existed with other content and was updated.
    Updated,
    /// No record existed and one was created.
    Created,
    /// The reconciliation failed; later cycles retry it unchanged.
    Failed { error: DynDnsError },
}

/// Classifies one reconciliation from its planned action and, when a
/// write was issued, the write's result.
pub fn reconcile_outcome(
    action: &UpsertAction,
    write_result: Option<Result<DnsRecord, DynDnsError>>,
) -> (o: ReconcileOutcome)
    requires
        (write_result is Some) <==> !(action is Keep),
    ensures
        (action is Keep) ==> o is NoOp,
        (action is Update) ==> match write_result {
            Some(res) => match res {
                Ok(_) => o is Updated,
                Err(e) => o matches ReconcileOutcome::Failed { error } && error == e,
            },
            None => false,
        },
        (action is Create) ==> match write_result {
            Some(res) => match res {
                Ok(_) => o is Created,
                Err(e) => o matches ReconcileOutcome::Failed { error } && error == e,
            },
            None => false,
        },
{
    match action {
        UpsertAction::Keep { .. } => ReconcileOutcome::NoOp,
        UpsertAction::Update { .. } => match write_result {
            Some(Ok(_)) => ReconcileOutcome::Updated,
            Some(Err(e)) => ReconcileOutcome::Failed { error: e },
            None => unreached(),
        },
        UpsertAction::Create => match write_result {
            Some(Ok(_)) => ReconcileOutcome::Created,
            Some(Err(e)) => ReconcileOutcome::Failed { error: e },
            None => unreached(),
        },
    }
}

/// Classifies every reconciliation of a cycle's domain phase, in order.
/// Each outcome is a function of that entry's action and write result
/// alone, so one domain's failure leaves every other domain's outcome
/// unchanged.
pub fn classify_cycle(steps: Vec<(UpsertAction, Option<Result<DnsRecord, DynDnsError>>)>) -> (outcomes: Vec<ReconcileOutcome>)
    requires
        forall|i: int| #![trigger steps@[i]]
            0 <= i < steps@.len() ==> ((steps@[i].1 is Some) <==> !(steps@[i].0 is Keep)),
    ensures
        outcomes@.len() == steps@.len(),
        forall|i: int| #![trigger outcomes@[i]]
            0 <= i < steps@.len() ==> {
                &&& (steps@[i].0 is Keep ==> outcomes@[i] is NoOp)
                &&& (steps@[i].0 is Update ==> (steps@[i].1 matches Some(Ok(_))
                    ==> outcomes@[i] is Updated))
                &&& (steps@[i].0 is Create ==> (steps@[i].1 matches Some(Ok(_))
                    ==> outcomes@[i] is Created))
                &&& (steps@[i].1 matches Some(Err(e)) ==> (outcomes@[i]
                    matches ReconcileOutcome::Failed { error } && error == e))
            },
{
    let ghost all = steps@;
    let mut rest = steps;
    let mut outcomes: Vec<ReconcileOutcome> = Vec::new();
    while rest.len() > 0
        invariant
            all.len() == outcomes@.len() + rest@.len(),
            rest@ == all.subrange(outcomes@.len() as int, all.len() as int),
            forall|i: int| #![trigger all[i]]
                0 <= i < all.len() ==> ((all[i].1 is Some) <==> !(all[i].0 is Keep)),
            forall|i: int| #![trigger outcomes@[i]]
                0 <= i < outcomes@.len() ==> {
                    &&& (all[i].0 is Keep ==> outcomes@[i] is NoOp)
                    &&& (all[i].0 is Update ==> (all[i].1 matches Some(Ok(_))
                        ==> outcomes@[i] is Updated))
                    &&& (all[i].0 is Create ==> (all[i].1 matches Some(Ok(_))
                        ==> outcomes@[i] is Created))
                    &&& (all[i].1 matches Some(Err(e)) ==> (outcomes@[i]
                        matches ReconcileOutcome::Failed { error } && error == e))
                },
        decreases rest@.len(),
    {
        let ghost k = outcomes@.len() as int;
        proof {
            assert(rest@[0] == all[k]);
        }
        let (action, write_result) = rest.remove(0);
        let o = reconcile_outcome(&action, write_result);
        outcomes.push(o);
        proof {
            assert(rest@ =~= all.subrange(outcomes@.len() as int, all.len() as int));
        }
    }
    outcomes
}

/// The sleep phase: the interval is the configured one, whatever the
/// cycle's outcomes were. A failed domain neither shortens nor lengthens
/// the pause before the next cycle.
pub fn sleep_after_cycle(interval_secs: u64, outcomes: &Vec<ReconcileOutcome>) -> (s: u64)
    ensures
        s == interval_secs,
{
    interval_secs
}

} // verus!
