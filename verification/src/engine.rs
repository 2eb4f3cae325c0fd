//! The update engine: for each domain of the configuration it compares the
//! freshly resolved address with the last one known to be published, decides
//! whether a provider call is due, and folds every attempt's outcome into the
//! domain's record. The I/O itself (resolving, the provider call) happens
//! outside; its results are handed in as plain values.

use vstd::prelude::*;
use crate::backoff::{backoff_delay, lemma_backoff_bounded, spec_backoff_cap, spec_backoff_delay};
use crate::config::Options;
use crate::ip::IpAddress;
use crate::record::{
    has_domain, mark_disabled, mark_failure, mark_success, spec_enabled, DomainRecord, RecordStore,
};

verus! {

/// How the provider refused an update call.
#[derive(Clone, Copy, Debug, PartialEq, Eq, Structural)]
pub enum ProviderError {
    /// Bad credentials: fatal, the domain is disabled for the run.
    Auth,
    /// Too many calls: retry after the given hint, if any.
    RateLimited { retry_after: Option<u64> },
    /// Network trouble or a server error: retry with backoff.
    Transient,
    /// The domain or record is misconfigured: fatal for that domain alone.
    NotFound,
}

/// What a tick decides for one domain once its address is resolved.
#[derive(Clone, Copy, Debug, PartialEq, Eq, Structural)]
pub enum Decision {
    NoChangeNeeded,
    Publish,
}

/// What follows a refused publish call.
#[derive(Clone, Copy, Debug, PartialEq, Eq, Structural)]
pub enum ErrorAction {
    /// The domain is out of the run for good.
    Disabled,
    /// Try the domain again after this many seconds.
    Retry { delay: u64 },
}

/// A publish is due when the resolved address differs from the last
/// published one, or when earlier attempts failed and the published record
/// may have diverged, so reconciliation is owed.
pub open spec fn needs_publish(
    published: Option<IpAddress>,
    failures: u32,
    resolved: IpAddress,
) -> bool {
    published != Some(resolved) || failures > 0
}

/// The provider errors that end a domain's run.
pub open spec fn spec_fatal(e: ProviderError) -> bool {
    e is Auth || e is NotFound
}

/// The backoff hint a provider error carries, if any.
pub open spec fn spec_hint(e: ProviderError) -> Option<u64> {
    match e {
        ProviderError::RateLimited { retry_after } => retry_after,
        _ => None,
    }
}

/// The domains of a store that are still eligible, as a predicate on names.
pub open spec fn enabled_pred(store: Seq<DomainRecord>) -> spec_fn(String) -> bool {
    |d: String| spec_enabled(store, d@)
}

/// The per-domain decision core of the updater.
pub struct UpdateEngine {
    pub config: Options,
    pub store: RecordStore,
}

impl UpdateEngine {
    pub open spec fn wf(&self) -> bool {
        self.store.wf()
    }

    /// An engine over a validated configuration, with an empty store.
    pub fn new(config: Options) -> (r: UpdateEngine)
        requires
            config.spec_valid(),
        ensures
            r.config == config,
            r.store@.len() == 0,
            r.wf(),
    {
        UpdateEngine { config, store: RecordStore::new() }
    }

    /// Says whether a domain is still part of the run: domains are skipped
    /// only once a fatal provider error has disabled them.
    pub fn should_process(&self, domain: &String) -> (r: bool)
        requires
            self.wf(),
        ensures
            r == spec_enabled(self.store@, domain@),
    {
        self.store.is_enabled(domain)
    }

    /// The domains one sweep visits: the configured domains in their
    /// configured order, those disabled by a fatal error skipped.
    pub fn sweep_plan(&self) -> (r: Vec<String>)
        requires
            self.wf(),
        ensures
            r@ == self.config.domains@.filter(enabled_pred(self.store@)),
    {
        let mut r: Vec<String> = Vec::new();
        let mut i: usize = 0;
        proof {
            reveal(Seq::filter);
            assert(r@ =~= self.config.domains@.take(0).filter(enabled_pred(self.store@)));
        }
        while i < self.config.domains.len()
            invariant
                self.wf(),
                i <= self.config.domains@.len(),
                r@ == self.config.domains@.take(i as int).filter(enabled_pred(self.store@)),
            decreases self.config.domains@.len() - i,
        {
            let ghost pre = r@;
            let domain = &self.config.domains[i];
            if self.store.is_enabled(domain) {
                r.push(domain.clone());
            }
            i = i + 1;
            proof {
                reveal(Seq::filter);
                let t = self.config.domains@.take(i as int);
                assert(t.drop_last() =~= self.config.domains@.take(i - 1));
                assert(t.last() == self.config.domains@[i - 1]);
                assert(enabled_pred(self.store@)(t.last()) == spec_enabled(
                    self.store@,
                    self.config.domains@[i - 1]@,
                ));
            }
        }
        proof {
            assert(self.config.domains@.take(self.config.domains@.len() as int)
                =~= self.config.domains@);
        }
        r
    }

    /// Compares the freshly resolved address against the domain's record
    /// (created on first sight) and decides whether to publish. The record
    /// itself is not changed: only a successful or failed publish changes it.
    pub fn on_resolved(&mut self, domain: &String, resolved: IpAddress) -> (d: Decision)
        requires
            old(self).wf(),
        ensures
            final(self).wf(),
            final(self).config == old(self).config,
            has_domain(old(self).store@, domain@) ==> {
                &&& final(self).store@ == old(self).store@
                &&& forall|i: int|
                    0 <= i < old(self).store@.len() && old(self).store@[i].domain@ == domain@
                        ==> (d == Decision::Publish) == needs_publish(
                        old(self).store@[i].published,
                        old(self).store@[i].failures,
                        resolved,
                    )
            },
            !has_domain(old(self).store@, domain@) ==> {
                &&& final(self).store@.len() == old(self).store@.len() + 1
                &&& final(self).store@.take(old(self).store@.len() as int) == old(self).store@
                &&& final(self).store@.last().domain@ == domain@
                &&& final(self).store@.last().published is None
                &&& final(self).store@.last().failures == 0
                &&& final(self).store@.last().last_success == 0
                &&& !final(self).store@.last().disabled
                &&& d == Decision::Publish
            },
    {
        let rec = self.store.get(domain);
        let same = match rec.published {
            Some(p) => p == resolved,
            None => false,
        };
        if same && rec.failures == 0 {
            Decision::NoChangeNeeded
        } else {
            Decision::Publish
        }
    }

    /// Records that resolution failed for this domain this tick: its failure
    /// streak grows, nothing else about it changes, and no other domain's
    /// record is touched. Resolution failure is never fatal.
    pub fn on_resolution_failure(&mut self, domain: &String)
        requires
            old(self).wf(),
        ensures
            final(self).wf(),
            final(self).config == old(self).config,
            has_domain(old(self).store@, domain@) ==> {
                &&& final(self).store@.len() == old(self).store@.len()
                &&& forall|i: int|
                    0 <= i < old(self).store@.len() && old(self).store@[i].domain@ != domain@
                        ==> final(self).store@[i] == old(self).store@[i]
                &&& forall|i: int|
                    0 <= i < old(self).store@.len() && old(self).store@[i].domain@ == domain@
                        ==> final(self).store@[i] == mark_failure(old(self).store@[i])
            },
            !has_domain(old(self).store@, domain@) ==> {
                &&& final(self).store@.len() == old(self).store@.len() + 1
                &&& final(self).store@.take(old(self).store@.len() as int) == old(self).store@
                &&& final(self).store@.last().domain@ == domain@
                &&& final(self).store@.last().published is None
                &&& final(self).store@.last().failures == 1
                &&& !final(self).store@.last().disabled
            },
    {
        let unused = IpAddress { a: 0, b: 0, c: 0, d: 0 };
        self.store.update(domain, unused, false, 0);
    }

    /// Records a successful publish of `ip` at time `now`: the address
    /// becomes the domain's published one, its failure streak ends, and no
    /// other domain's record is touched.
    pub fn on_publish_success(&mut self, domain: &String, ip: IpAddress, now: u64)
        requires
            old(self).wf(),
        ensures
            final(self).wf(),
            final(self).config == old(self).config,
            has_domain(old(self).store@, domain@) ==> {
                &&& final(self).store@.len() == old(self).store@.len()
                &&& forall|i: int|
                    0 <= i < old(self).store@.len() && old(self).store@[i].domain@ != domain@
                        ==> final(self).store@[i] == old(self).store@[i]
                &&& forall|i: int|
                    0 <= i < old(self).store@.len() && old(self).store@[i].domain@ == domain@
                        ==> final(self).store@[i] == mark_success(old(self).store@[i], ip, now)
            },
            !has_domain(old(self).store@, domain@) ==> {
                &&& final(self).store@.len() == old(self).store@.len() + 1
                &&& final(self).store@.take(old(self).store@.len() as int) == old(self).store@
                &&& final(self).store@.last().domain@ == domain@
                &&& final(self).store@.last().published == Some(ip)
                &&& final(self).store@.last().failures == 0
                &&& final(self).store@.last().last_success == now
                &&& !final(self).store@.last().disabled
            },
    {
        self.store.update(domain, ip, true, now);
    }

    /// Folds a refused publish call into the domain's record. A fatal error
    /// (bad credentials, misconfigured record) disables the domain for the
    /// rest of the run; a recoverable one grows its failure streak and asks
    /// for a retry after the backoff delay, which never exceeds the cap.
    /// No other domain's record is touched.
    pub fn on_publish_error(&mut self, domain: &String, err: ProviderError) -> (a: ErrorAction)
        requires
            old(self).wf(),
        ensures
            final(self).wf(),
            final(self).config == old(self).config,
            spec_fatal(err) ==> a == ErrorAction::Disabled,
            spec_fatal(err) && has_domain(old(self).store@, domain@) ==> {
                &&& final(self).store@.len() == old(self).store@.len()
                &&& forall|i: int|
                    0 <= i < old(self).store@.len() && old(self).store@[i].domain@ != domain@
                        ==> final(self).store@[i] == old(self).store@[i]
                &&& forall|i: int|
                    0 <= i < old(self).store@.len() && old(self).store@[i].domain@ == domain@
                        ==> final(self).store@[i] == mark_disabled(old(self).store@[i])
            },
            spec_fatal(err) && !has_domain(old(self).store@, domain@) ==> {
                &&& final(self).store@.len() == old(self).store@.len() + 1
                &&& final(self).store@.take(old(self).store@.len() as int) == old(self).store@
                &&& final(self).store@.last().domain@ == domain@
                &&& final(self).store@.last().disabled
            },
            !spec_fatal(err) ==> {
                &&& a is Retry
                &&& has_domain(final(self).store@, domain@)
            },
            !spec_fatal(err) && has_domain(old(self).store@, domain@) ==> {
                &&& final(self).store@.len() == old(self).store@.len()
                &&& forall|i: int|
                    0 <= i < old(self).store@.len() && old(self).store@[i].domain@ != domain@
                        ==> final(self).store@[i] == old(self).store@[i]
                &&& forall|i: int|
                    0 <= i < old(self).store@.len() && old(self).store@[i].domain@ == domain@
                        ==> final(self).store@[i] == mark_failure(old(self).store@[i])
            },
            !spec_fatal(err) && !has_domain(old(self).store@, domain@) ==> {
                &&& final(self).store@.len() == old(self).store@.len() + 1
                &&& final(self).store@.take(old(self).store@.len() as int) == old(self).store@
                &&& final(self).store@.last().domain@ == domain@
                &&& final(self).store@.last().published is None
                &&& final(self).store@.last().failures == 1
                &&& !final(self).store@.last().disabled
            },
            !spec_fatal(err) ==> forall|i: int|
                0 <= i < final(self).store@.len() && final(self).store@[i].domain@ == domain@
                    ==> a == (ErrorAction::Retry {
                    delay: spec_backoff_delay(
                        final(self).store@[i].failures,
                        spec_hint(err),
                        old(self).config.period,
                    ) as u64,
                }),
            !spec_fatal(err) ==> (a matches ErrorAction::Retry { delay } ==> delay
                <= spec_backoff_cap(old(self).config.period)),
    {
        let fatal = match err {
            ProviderError::Auth => true,
            ProviderError::NotFound => true,
            _ => false,
        };
        if fatal {
            self.store.disable(domain);
            ErrorAction::Disabled
        } else {
            let unused = IpAddress { a: 0, b: 0, c: 0, d: 0 };
            self.store.update(domain, unused, false, 0);
            proof {
                let s = self.store@;
                let pre = old(self).store@;
                if has_domain(pre, domain@) {
                    let w = choose|w: int| 0 <= w < pre.len() && pre[w].domain@ == domain@;
                    assert(s[w].domain@ == domain@);
                    assert(has_domain(s, domain@));
                } else {
                    assert(s[s.len() - 1].domain@ == domain@);
                    assert(has_domain(s, domain@));
                }
                assert forall|i: int|
                    0 <= i < s.len() && s[i].domain@ == domain@ implies s[i].failures >= 1 by {
                    if has_domain(pre, domain@) {
                        if pre[i].domain@ == domain@ {
                            assert(s[i] == mark_failure(pre[i]));
                        } else {
                            assert(s[i] == pre[i]);
                        }
                    } else {
                        if i < pre.len() {
                            assert(s.take(pre.len() as int)[i] == s[i]);
                            assert(s[i] == pre[i]);
                        }
                    }
                }
            }
            let rec = self.store.get(domain);
            let hint = match err {
                ProviderError::RateLimited { retry_after } => retry_after,
                _ => None,
            };
            let delay = backoff_delay(rec.failures, hint, self.config.period);
            proof {
                lemma_backoff_bounded(rec.failures, spec_hint(err), self.config.period);
            }
            ErrorAction::Retry { delay }
        }
    }
}

/// One outcome that can befall a single domain's record during the run.
pub enum DomainEvent {
    /// No address could be resolved this tick.
    ResolutionFailed,
    /// The provider accepted `ip` at time `now`.
    PublishSucceeded { ip: IpAddress, now: u64 },
    /// The provider refused the call recoverably.
    PublishFailed,
    /// The provider refused the call fatally.
    FatalError,
}

/// How one event changes a domain's record: exactly the transitions the
/// engine's mutating methods perform.
pub open spec fn apply_event(r: DomainRecord, e: DomainEvent) -> DomainRecord {
    match e {
        DomainEvent::ResolutionFailed => mark_failure(r),
        DomainEvent::PublishSucceeded { ip, now } => mark_success(r, ip, now),
        DomainEvent::PublishFailed => mark_failure(r),
        DomainEvent::FatalError => mark_disabled(r),
    }
}

/// A record after a whole history of events, oldest first.
pub open spec fn replay(r0: DomainRecord, evs: Seq<DomainEvent>) -> DomainRecord
    decreases evs.len(),
{
    if evs.len() == 0 {
        r0
    } else {
        apply_event(replay(r0, evs.drop_last()), evs.last())
    }
}

/// The address of the most recent successful publish in a history, or the
/// initial record's published address when the history holds none.
pub open spec fn last_success_ip(r0: DomainRecord, evs: Seq<DomainEvent>) -> Option<IpAddress>
    decreases evs.len(),
{
    if evs.len() == 0 {
        r0.published
    } else {
        match evs.last() {
            DomainEvent::PublishSucceeded { ip, now } => Some(ip),
            _ => last_success_ip(r0, evs.drop_last()),
        }
    }
}

/// Whatever sequence of resolutions and outcomes a domain lives through,
/// its record's published address is always the address of the most recent
/// successful publish: no failed attempt ever leaves its address behind.
pub proof fn lemma_published_tracks_success(r0: DomainRecord, evs: Seq<DomainEvent>)
    ensures
        replay(r0, evs).published == last_success_ip(r0, evs),
    decreases evs.len(),
{
    if evs.len() > 0 {
        lemma_published_tracks_success(r0, evs.drop_last());
    }
}

/// Idempotence: when the resolved address equals the published one and no
/// failures are outstanding, no publish is requested, so no provider call
/// is made.
pub proof fn lemma_no_change_no_publish(
    published: Option<IpAddress>,
    failures: u32,
    resolved: IpAddress,
)
    requires
        published == Some(resolved),
        failures == 0,
    ensures
        !needs_publish(published, failures, resolved),
{
}

/// While failures are outstanding, the published record may have diverged,
/// so the next resolved address is published even when it looks unchanged.
pub proof fn lemma_outstanding_failures_force_publish(
    published: Option<IpAddress>,
    failures: u32,
    resolved: IpAddress,
)
    requires
        failures > 0,
    ensures
        needs_publish(published, failures, resolved),
{
}

/// A fatal provider error for domain `a` touches the records of `a` alone:
/// every record of any other domain `b` is unchanged, `b` stays exactly as
/// eligible for processing as before, and `b` keeps its records.
pub proof fn lemma_fatal_error_isolated(
    pre: Seq<DomainRecord>,
    post: Seq<DomainRecord>,
    a: Seq<char>,
    b: Seq<char>,
)
    requires
        a != b,
        pre.len() == post.len(),
        forall|i: int| 0 <= i < pre.len() && pre[i].domain@ != a ==> post[i] == pre[i],
        forall|i: int| 0 <= i < pre.len() && pre[i].domain@ == a ==> post[i] == mark_disabled(
            pre[i],
        ),
    ensures
        forall|i: int| 0 <= i < pre.len() && pre[i].domain@ == b ==> post[i] == pre[i],
        spec_enabled(post, b) == spec_enabled(pre, b),
        has_domain(post, b) == has_domain(pre, b),
{
    assert forall|i: int| 0 <= i < post.len() implies post[i].domain@ == pre[i].domain@ by {
        if pre[i].domain@ == a {
            assert(post[i] == mark_disabled(pre[i]));
        }
    }
    if has_domain(pre, b) {
        let w = choose|w: int| 0 <= w < pre.len() && pre[w].domain@ == b;
        assert(post[w].domain@ == b);
    }
    if has_domain(post, b) {
        let w = choose|w: int| 0 <= w < post.len() && post[w].domain@ == b;
        assert(pre[w].domain@ == b);
    }
}

} // verus!
