//! Per-domain state: the last address known to be published for a domain,
//! when it was published, how many consecutive attempts have failed since,
//! and whether the domain has been disabled for the rest of the run.

use vstd::prelude::*;
use crate::ip::IpAddress;

verus! {

/// What is known about one configured domain.
pub struct DomainRecord {
    pub domain: String,
    pub published: Option<IpAddress>,
    pub last_success: u64,
    pub failures: u32,
    pub disabled: bool,
}

impl DomainRecord {
    /// The zero-value record a domain starts from: nothing published,
    /// no failures, not disabled.
    pub fn new(domain: String) -> (r: DomainRecord)
        ensures
            r.domain == domain,
            r.published is None,
            r.last_success == 0,
            r.failures == 0,
            !r.disabled,
    {
        DomainRecord { domain, published: None, last_success: 0, failures: 0, disabled: false }
    }
}

/// A record after a successful publish of `ip` at time `now`: the published
/// address is remembered, the failure streak ends.
pub open spec fn mark_success(r: DomainRecord, ip: IpAddress, now: u64) -> DomainRecord {
    DomainRecord { published: Some(ip), failures: 0, last_success: now, ..r }
}

/// A record after a failed attempt: the failure streak grows (saturating),
/// the last published address and its timestamp stay untouched.
pub open spec fn mark_failure(r: DomainRecord) -> DomainRecord {
    DomainRecord {
        failures: if r.failures == 0xffff_ffffu32 {
            r.failures
        } else {
            (r.failures + 1) as u32
        },
        ..r
    }
}

/// A record after a fatal provider error: the domain is out of the run.
pub open spec fn mark_disabled(r: DomainRecord) -> DomainRecord {
    DomainRecord { disabled: true, ..r }
}

/// Says whether some record in `s` belongs to domain `d`.
pub open spec fn has_domain(s: Seq<DomainRecord>, d: Seq<char>) -> bool {
    exists|i: int| 0 <= i < s.len() && s[i].domain@ == d
}

/// In-memory map from domain name to its record, created on first access.
pub struct RecordStore {
    records: Vec<DomainRecord>,
}

impl View for RecordStore {
    type V = Seq<DomainRecord>;

    closed spec fn view(&self) -> Seq<DomainRecord> {
        self.records@
    }
}

fn rec_at<'a>(v: &'a mut Vec<DomainRecord>, i: usize) -> (element: &'a mut DomainRecord)
    requires
        i < old(v).len(),
    ensures
        *element == old(v)@[i as int],
        final(v)@ == old(v)@.update(i as int, *final(element)),
{
    &mut v[i]
}

impl RecordStore {
    /// No two records belong to the same domain.
    pub open spec fn wf(&self) -> bool {
        forall|i: int, j: int|
            0 <= i < j < self@.len() ==> self@[i].domain@ != self@[j].domain@
    }

    /// An empty store.
    pub fn new() -> (r: RecordStore)
        ensures
            r@.len() == 0,
            r.wf(),
    {
        RecordStore { records: Vec::new() }
    }

    /// How many domains have a record.
    pub fn len(&self) -> (n: usize)
        ensures
            n == self@.len(),
    {
        self.records.len()
    }

    fn position(&self, domain: &String) -> (r: Option<usize>)
        ensures
            r matches Some(i) ==> i < self@.len() && self@[i as int].domain@ == domain@,
            r is None ==> !has_domain(self@, domain@),
    {
        let mut j: usize = 0;
        while j < self.records.len()
            invariant
                j <= self.records.len(),
                forall|k: int| 0 <= k < j ==> self.records@[k].domain@ != domain@,
            decreases self.records.len() - j,
        {
            let entry: &String = &self.records[j].domain;
            if entry.eq(domain) {
                return Some(j);
            }
            j = j + 1;
        }
        None
    }

    /// The record of `domain`, created as a zero-value record on first access.
    pub fn get(&mut self, domain: &String) -> (r: DomainRecord)
        requires
            old(self).wf(),
        ensures
            final(self).wf(),
            r.domain@ == domain@,
            has_domain(old(self)@, domain@) ==> {
                &&& final(self)@ == old(self)@
                &&& forall|i: int|
                    0 <= i < old(self)@.len() && old(self)@[i].domain@ == domain@ ==> r == old(self)@[i]
            },
            !has_domain(old(self)@, domain@) ==> {
                &&& final(self)@ == old(self)@.push(r)
                &&& r.published is None
                &&& r.last_success == 0
                &&& r.failures == 0
                &&& !r.disabled
            },
    {
        match self.position(domain) {
            Some(i) => {
                let r = self.clone_record(i);
                proof {
                    assert(has_domain(self@, domain@));
                }
                r
            },
            None => {
                let fresh = DomainRecord::new(domain.clone());
                self.records.push(fresh);
                let r = self.clone_record(self.records.len() - 1);
                proof {
                    assert(self@ =~= old(self)@.push(r));
                }
                r
            },
        }
    }

    fn clone_record(&self, i: usize) -> (r: DomainRecord)
        requires
            i < self@.len(),
        ensures
            r == self@[i as int],
    {
        let rec = &self.records[i];
        DomainRecord {
            domain: rec.domain.clone(),
            published: rec.published,
            last_success: rec.last_success,
            failures: rec.failures,
            disabled: rec.disabled,
        }
    }

    /// Records the outcome of an attempt for `domain`, creating the record
    /// first if the domain has none. On success the resolved address becomes
    /// the published one and the failure streak ends; on failure the streak
    /// grows and the published address stays untouched. No other domain's
    /// record changes.
    pub fn update(&mut self, domain: &String, ip: IpAddress, success: bool, now: u64)
        requires
            old(self).wf(),
        ensures
            final(self).wf(),
            has_domain(old(self)@, domain@) ==> {
                &&& final(self)@.len() == old(self)@.len()
                &&& forall|i: int|
                    0 <= i < old(self)@.len() && old(self)@[i].domain@ != domain@ ==> final(self)@[i] == old(self)@[i]
                &&& forall|i: int|
                    0 <= i < old(self)@.len() && old(self)@[i].domain@ == domain@ ==> final(self)@[i] == (if success {
                        mark_success(old(self)@[i], ip, now)
                    } else {
                        mark_failure(old(self)@[i])
                    })
            },
            !has_domain(old(self)@, domain@) ==> {
                &&& final(self)@.len() == old(self)@.len() + 1
                &&& final(self)@.take(old(self)@.len() as int) == old(self)@
                &&& final(self)@.last().domain@ == domain@
                &&& final(self)@.last().published == (if success {
                    Some(ip)
                } else {
                    Option::<IpAddress>::None
                })
                &&& final(self)@.last().failures == (if success {
                    0u32
                } else {
                    1u32
                })
                &&& final(self)@.last().last_success == (if success {
                    now
                } else {
                    0u64
                })
                &&& !final(self)@.last().disabled
            },
    {
        let idx = match self.position(domain) {
            Some(i) => i,
            None => {
                let fresh = DomainRecord::new(domain.clone());
                self.records.push(fresh);
                self.records.len() - 1
            },
        };
        let rec = rec_at(&mut self.records, idx);
        if success {
            rec.published = Some(ip);
            rec.failures = 0;
            rec.last_success = now;
        } else {
            if rec.failures != 0xffff_ffffu32 {
                rec.failures = rec.failures + 1;
            }
        }
        proof {
            if !has_domain(old(self)@, domain@) {
                assert(self@.take(old(self)@.len() as int) =~= old(self)@);
            }
        }
    }

    /// Takes `domain` out of the run for good, creating its record first if
    /// it has none. No other domain's record changes.
    pub fn disable(&mut self, domain: &String)
        requires
            old(self).wf(),
        ensures
            final(self).wf(),
            has_domain(old(self)@, domain@) ==> {
                &&& final(self)@.len() == old(self)@.len()
                &&& forall|i: int|
                    0 <= i < old(self)@.len() && old(self)@[i].domain@ != domain@ ==> final(self)@[i] == old(self)@[i]
                &&& forall|i: int|
                    0 <= i < old(self)@.len() && old(self)@[i].domain@ == domain@ ==> final(self)@[i] == mark_disabled(old(self)@[i])
            },
            !has_domain(old(self)@, domain@) ==> {
                &&& final(self)@.len() == old(self)@.len() + 1
                &&& final(self)@.take(old(self)@.len() as int) == old(self)@
                &&& final(self)@.last().domain@ == domain@
                &&& final(self)@.last().published is None
                &&& final(self)@.last().failures == 0
                &&& final(self)@.last().disabled
            },
    {
        let idx = match self.position(domain) {
            Some(i) => i,
            None => {
                let fresh = DomainRecord::new(domain.clone());
                self.records.push(fresh);
                self.records.len() - 1
            },
        };
        let rec = rec_at(&mut self.records, idx);
        rec.disabled = true;
        proof {
            if !has_domain(old(self)@, domain@) {
                assert(self@.take(old(self)@.len() as int) =~= old(self)@);
            }
        }
    }

    /// Says whether `domain` is still eligible for processing: a domain with
    /// no record yet is eligible, one whose record is disabled is not.
    pub fn is_enabled(&self, domain: &String) -> (r: bool)
        requires
            self.wf(),
        ensures
            r == spec_enabled(self@, domain@),
    {
        match self.position(domain) {
            Some(i) => {
                let rec = &self.records[i];
                proof {
                    assert(has_domain(self@, domain@));
                }
                !rec.disabled
            },
            None => true,
        }
    }
}

/// A domain is eligible for processing unless one of its records is disabled.
pub open spec fn spec_enabled(s: Seq<DomainRecord>, d: Seq<char>) -> bool {
    forall|i: int| 0 <= i < s.len() && s[i].domain@ == d ==> !s[i].disabled
}

} // verus!
