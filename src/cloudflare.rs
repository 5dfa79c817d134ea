use vstd::prelude::*;
use vstd::string::*;

use crate::errors::{ApiError, FlareSyncError};
use crate::ipv4::{dotted, Ipv4};

verus! {

/// A DNS "A" record as the provider stores it.
#[derive(Clone, Debug)]
pub struct DnsRecord {
    pub id: String,
    pub name: String,
    /// The IPv4 address that the record points at, as text.
    pub content: String,
    pub record_type: String,
    pub proxied: bool,
    pub ttl: u32,
}

/// The envelope of every provider response.
#[derive(Clone, Debug)]
pub struct CloudflareResponse<T> {
    pub success: bool,
    pub errors: Vec<ApiError>,
    pub messages: Vec<ApiError>,
    pub result: T,
}

/// The body of the call that points record `record_id` at a new address.
#[derive(Clone, Debug)]
pub struct UpdateRequest {
    pub record_id: String,
    pub record_type: String,
    pub name: String,
    pub content: String,
    pub ttl: u32,
    pub proxied: bool,
}

impl DnsRecord {
    /// A copy of the record.
    pub fn duplicate(&self) -> (r: DnsRecord)
        ensures
            r == *self,
    {
        DnsRecord {
            id: self.id.clone(),
            name: self.name.clone(),
            content: self.content.clone(),
            record_type: self.record_type.clone(),
            proxied: self.proxied,
            ttl: self.ttl,
        }
    }
}

/// The payload of a response, or the provider's errors when it reports failure.
pub open spec fn response_result<T>(resp: CloudflareResponse<T>) -> Result<T, FlareSyncError> {
    if resp.success {
        Ok(resp.result)
    } else {
        Err(FlareSyncError::Cloudflare(resp.errors))
    }
}

impl<T> CloudflareResponse<T> {
    /// The payload, which is to be trusted only when the provider reports success; otherwise
    /// the provider's errors, for the classifier to inspect.
    pub fn into_result(self) -> (r: Result<T, FlareSyncError>)
        ensures
            r == response_result(self),
    {
        if self.success {
            Ok(self.result)
        } else {
            Err(FlareSyncError::Cloudflare(self.errors))
        }
    }
}

/// `req` points `record` at `ip`: an "A" record with the record's name, TTL and proxied flag.
pub open spec fn is_update_for(req: UpdateRequest, record: DnsRecord, ip: Ipv4) -> bool {
    &&& req.record_id == record.id
    &&& req.record_type@ == "A"@
    &&& req.name == record.name
    &&& req.content@ == dotted(ip)
    &&& req.ttl == record.ttl
    &&& req.proxied == record.proxied
}

/// The record as the provider holds it once `req` has been applied.
pub open spec fn applied(record: DnsRecord, req: UpdateRequest) -> DnsRecord {
    DnsRecord { content: req.content, ..record }
}

/// Where the reconciliation of one domain stands.
#[derive(Clone, Debug)]
pub enum Phase {
    /// Nothing has been done yet.
    Start,
    /// The records of the domain have been asked for.
    AwaitRecords,
    /// A backup of `record`, which is about to be overwritten, has been asked for.
    AwaitBackup { record: DnsRecord },
    /// The update has been sent.
    AwaitUpdate,
    /// The outcome has been handed out.
    Finished,
}

/// What the caller reports back to a reconciler.
#[derive(Debug)]
pub enum ReconcileEvent {
    /// Start the reconciliation.
    Begin,
    /// The "A" records of the domain, or why they could not be had.
    Listed(Result<Vec<DnsRecord>, FlareSyncError>),
    /// Whether the backup was written.
    BackedUp(Result<(), FlareSyncError>),
    /// The updated record, or why the update failed.
    Updated(Result<DnsRecord, FlareSyncError>),
}

/// What a reconciler asks the caller to do next.
#[derive(Debug)]
pub enum ReconcileAction {
    /// List the "A" records named `domain`.
    FetchRecords { domain: String },
    /// Write a backup of `record`.
    WriteBackup { record: DnsRecord },
    /// Send `request` to the provider.
    PushUpdate { request: UpdateRequest },
    /// The reconciliation is over: whether the record was updated, or why it failed.
    Finish { outcome: Result<bool, FlareSyncError> },
}

/// Reconciles the "A" record of one domain with the address discovered for this machine.
#[derive(Debug)]
pub struct Reconciler {
    pub domain: String,
    pub ip: Ipv4,
    pub phase: Phase,
}

/// The transition of a reconciler `s` on event `e` leads to `t` and asks for `a`.
pub open spec fn reconcile_step(s: Reconciler, e: ReconcileEvent, t: Reconciler, a: ReconcileAction) -> bool {
    &&& t.domain == s.domain
    &&& t.ip == s.ip
    &&& match (s.phase, e) {
        (Phase::Start, ReconcileEvent::Begin) => {
            t.phase is AwaitRecords && a == (ReconcileAction::FetchRecords { domain: s.domain })
        },
        (Phase::AwaitRecords, ReconcileEvent::Listed(Err(err))) => {
            t.phase is Finished && a == (ReconcileAction::Finish { outcome: Err(err) })
        },
        (Phase::AwaitRecords, ReconcileEvent::Listed(Ok(records))) => {
            if records@.len() == 0 || records@[0].content@ == dotted(s.ip) {
                t.phase is Finished && a == (ReconcileAction::Finish { outcome: Ok(false) })
            } else {
                t.phase == (Phase::AwaitBackup { record: records@[0] }) && a
                    == (ReconcileAction::WriteBackup { record: records@[0] })
            }
        },
        (Phase::AwaitBackup { record }, ReconcileEvent::BackedUp(Ok(()))) => {
            t.phase is AwaitUpdate && match a {
                ReconcileAction::PushUpdate { request } => is_update_for(request, record, s.ip),
                _ => false,
            }
        },
        (Phase::AwaitBackup { .. }, ReconcileEvent::BackedUp(Err(err))) => {
            t.phase is Finished && a == (ReconcileAction::Finish { outcome: Err(err) })
        },
        (Phase::AwaitUpdate, ReconcileEvent::Updated(Ok(_))) => {
            t.phase is Finished && a == (ReconcileAction::Finish { outcome: Ok(true) })
        },
        (Phase::AwaitUpdate, ReconcileEvent::Updated(Err(err))) => {
            t.phase is Finished && a == (ReconcileAction::Finish { outcome: Err(err) })
        },
        _ => {
            t.phase is Finished && a == (ReconcileAction::Finish {
                outcome: Err(FlareSyncError::OutOfOrder),
            })
        },
    }
}

impl Reconciler {
    /// A reconciler for `domain` that has done nothing yet.
    pub fn new(domain: String, ip: Ipv4) -> (r: Reconciler)
        ensures
            r.domain == domain,
            r.ip == ip,
            r.phase is Start,
    {
        Reconciler { domain, ip, phase: Phase::Start }
    }

    /// Takes in what the caller reports and says what to do next. The record is looked up
    /// first; a missing record, or one that already holds the address, ends the work with
    /// `false`; otherwise the record is backed up, and only after a successful backup is the
    /// update sent, whose success ends the work with `true`. Any failure ends the work with
    /// that failure.
    pub fn step(&mut self, event: ReconcileEvent) -> (a: ReconcileAction)
        ensures
            reconcile_step(*old(self), event, *final(self), a),
    {
        let mut phase = Phase::Finished;
        core::mem::swap(&mut phase, &mut self.phase);
        match (phase, event) {
            (Phase::Start, ReconcileEvent::Begin) => {
                self.phase = Phase::AwaitRecords;
                ReconcileAction::FetchRecords { domain: self.domain.clone() }
            },
            (Phase::AwaitRecords, ReconcileEvent::Listed(Err(err))) => {
                ReconcileAction::Finish { outcome: Err(err) }
            },
            (Phase::AwaitRecords, ReconcileEvent::Listed(Ok(records))) => {
                if records.len() == 0 {
                    return ReconcileAction::Finish { outcome: Ok(false) };
                }
                let current = self.ip.to_string();
                if records[0].content == current {
                    return ReconcileAction::Finish { outcome: Ok(false) };
                }
                self.phase = Phase::AwaitBackup { record: records[0].duplicate() };
                ReconcileAction::WriteBackup { record: records[0].duplicate() }
            },
            (Phase::AwaitBackup { record }, ReconcileEvent::BackedUp(Ok(()))) => {
                self.phase = Phase::AwaitUpdate;
                let request = UpdateRequest {
                    record_id: record.id,
                    record_type: String::from_str("A"),
                    name: record.name,
                    content: self.ip.to_string(),
                    ttl: record.ttl,
                    proxied: record.proxied,
                };
                ReconcileAction::PushUpdate { request }
            },
            (Phase::AwaitBackup { .. }, ReconcileEvent::BackedUp(Err(err))) => {
                ReconcileAction::Finish { outcome: Err(err) }
            },
            (Phase::AwaitUpdate, ReconcileEvent::Updated(Ok(_))) => {
                ReconcileAction::Finish { outcome: Ok(true) }
            },
            (Phase::AwaitUpdate, ReconcileEvent::Updated(Err(err))) => {
                ReconcileAction::Finish { outcome: Err(err) }
            },
            _ => ReconcileAction::Finish { outcome: Err(FlareSyncError::OutOfOrder) },
        }
    }
}

/// Reconciling twice with an unchanged address does the work once. In the first run a record
/// that differs from the address is backed up, then updated with the address, and the run ends
/// with `true`; when the provider then lists the updated record, a second run ends with `false`
/// at once, without a backup or an update.
pub proof fn lemma_reconcile_twice(
    s0: Reconciler,
    s1: Reconciler,
    a1: ReconcileAction,
    records: Vec<DnsRecord>,
    s2: Reconciler,
    a2: ReconcileAction,
    s3: Reconciler,
    a3: ReconcileAction,
    written: DnsRecord,
    s4: Reconciler,
    a4: ReconcileAction,
    t0: Reconciler,
    t1: Reconciler,
    b1: ReconcileAction,
    relisted: Vec<DnsRecord>,
    t2: Reconciler,
    b2: ReconcileAction,
)
    requires
        s0.phase is Start,
        records@.len() > 0,
        records@[0].content@ != dotted(s0.ip),
        reconcile_step(s0, ReconcileEvent::Begin, s1, a1),
        reconcile_step(s1, ReconcileEvent::Listed(Ok(records)), s2, a2),
        reconcile_step(s2, ReconcileEvent::BackedUp(Ok(())), s3, a3),
        reconcile_step(s3, ReconcileEvent::Updated(Ok(written)), s4, a4),
        t0.phase is Start,
        t0.domain == s0.domain,
        t0.ip == s0.ip,
        relisted@.len() > 0,
        relisted@[0] == applied(records@[0], a3->request),
        reconcile_step(t0, ReconcileEvent::Begin, t1, b1),
        reconcile_step(t1, ReconcileEvent::Listed(Ok(relisted)), t2, b2),
    ensures
        a1 == (ReconcileAction::FetchRecords { domain: s0.domain }),
        a2 == (ReconcileAction::WriteBackup { record: records@[0] }),
        is_update_for(a3->request, records@[0], s0.ip),
        a4 == (ReconcileAction::Finish { outcome: Ok(true) }),
        s4.phase is Finished,
        b1 == (ReconcileAction::FetchRecords { domain: s0.domain }),
        b2 == (ReconcileAction::Finish { outcome: Ok(false) }),
        t2.phase is Finished,
{
}

} // verus!
