//! The validated configuration value: credentials, region, the ordered set
//! of domains, polling period and record TTL, and the source the values
//! came from.

use vstd::prelude::*;
use crate::text::{contains_string, dedup_first, split_on, split_str, views_of};

verus! {

/// Where the configuration was read from. Managed (container) runs read it
/// from the environment.
#[derive(Clone, Copy, Debug, PartialEq, Eq, Structural)]
pub enum Mode {
    Cli,
    Env,
    Docker,
}

/// Why a configuration was rejected at startup.
#[derive(Clone, Copy, Debug, PartialEq, Eq, Structural)]
pub enum ConfigError {
    MissingAccessKeyId,
    MissingAccessKeySecret,
    NonPositivePeriod,
    NonPositiveTtl,
    EmptyDomainList,
    EmptyDomainName,
}

/// The configuration a run is built from.
#[derive(Clone, Debug)]
pub struct Options {
    pub access_key_id: Option<String>,
    pub access_key_secret: Option<String>,
    pub region_id: String,
    pub domains: Vec<String>,
    pub period: u32,
    pub ttl: u32,
    pub mode: Mode,
}

impl Options {
    /// A configuration holds everything a run needs: both credentials, a
    /// positive period and TTL, and at least one domain, none of them empty.
    pub open spec fn spec_valid(&self) -> bool {
        &&& self.access_key_id is Some
        &&& self.access_key_secret is Some
        &&& self.period > 0
        &&& self.ttl > 0
        &&& self.domains@.len() > 0
        &&& forall|i: int| 0 <= i < self.domains@.len() ==> self.domains@[i]@.len() > 0
    }

    /// The outcome of validation, one check at a time: the first violated
    /// requirement names the error.
    pub open spec fn spec_verify(&self) -> Result<(), ConfigError> {
        if self.access_key_id is None {
            Err(ConfigError::MissingAccessKeyId)
        } else if self.access_key_secret is None {
            Err(ConfigError::MissingAccessKeySecret)
        } else if self.period == 0 {
            Err(ConfigError::NonPositivePeriod)
        } else if self.ttl == 0 {
            Err(ConfigError::NonPositiveTtl)
        } else if self.domains@.len() == 0 {
            Err(ConfigError::EmptyDomainList)
        } else if exists|i: int| 0 <= i < self.domains@.len() && self.domains@[i]@.len() == 0 {
            Err(ConfigError::EmptyDomainName)
        } else {
            Ok(())
        }
    }

    /// The defaults a configuration starts from: no credentials, the fixed
    /// default region, no domains, period and TTL of 600 seconds.
    pub fn new(mode: Mode) -> (r: Options)
        ensures
            r.access_key_id is None,
            r.access_key_secret is None,
            r.region_id@ == "cn-hangzhou"@,
            r.domains@.len() == 0,
            r.period == 600,
            r.ttl == 600,
            r.mode == mode,
    {
        Options {
            access_key_id: None,
            access_key_secret: None,
            region_id: "cn-hangzhou".to_owned(),
            domains: Vec::new(),
            period: 600,
            ttl: 600,
            mode,
        }
    }

    /// Checks the required fields, reporting the first violated requirement;
    /// succeeds exactly on valid configurations.
    pub fn verify(&self) -> (r: Result<(), ConfigError>)
        ensures
            r == self.spec_verify(),
            r is Ok <==> self.spec_valid(),
    {
        if self.access_key_id.is_none() {
            return Err(ConfigError::MissingAccessKeyId);
        }
        if self.access_key_secret.is_none() {
            return Err(ConfigError::MissingAccessKeySecret);
        }
        if self.period == 0 {
            return Err(ConfigError::NonPositivePeriod);
        }
        if self.ttl == 0 {
            return Err(ConfigError::NonPositiveTtl);
        }
        if self.domains.len() == 0 {
            return Err(ConfigError::EmptyDomainList);
        }
        let mut i: usize = 0;
        while i < self.domains.len()
            invariant
                i <= self.domains@.len(),
                forall|k: int| 0 <= k < i ==> self.domains@[k]@.len() > 0,
                self.access_key_id is Some,
                self.access_key_secret is Some,
                self.period != 0,
                self.ttl != 0,
                self.domains@.len() != 0,
            decreases self.domains@.len() - i,
        {
            if self.domains[i].as_str().is_empty() {
                proof {
                    assert(0 <= i < self.domains@.len() && self.domains@[i as int]@.len() == 0);
                    assert(exists|k: int|
                        0 <= k < self.domains@.len() && self.domains@[k]@.len() == 0);
                }
                return Err(ConfigError::EmptyDomainName);
            }
            i = i + 1;
        }
        Ok(())
    }

    /// Cuts a comma-separated domain list into the ordered set of its
    /// domains: pieces in order, later repetitions of a piece dropped.
    pub fn sqlit_domain(domains: &str) -> (r: Vec<String>)
        ensures
            views_of(r@) == dedup_first(split_on(domains@, ',')),
    {
        let parts = split_str(domains, ',');
        let mut out: Vec<String> = Vec::new();
        let mut i: usize = 0;
        proof {
            assert(views_of(out@) =~~= dedup_first(views_of(parts@).take(0)));
        }
        while i < parts.len()
            invariant
                i <= parts@.len(),
                views_of(parts@) == split_on(domains@, ','),
                views_of(out@) == dedup_first(views_of(parts@).take(i as int)),
            decreases parts@.len() - i,
        {
            let ghost prev_out = out@;
            let p = &parts[i];
            if !contains_string(&out, p) {
                out.push(p.clone());
            }
            i = i + 1;
            proof {
                let t = views_of(parts@).take(i as int);
                assert(t.drop_last() =~~= views_of(parts@).take(i - 1));
                assert(t.last() == parts@[i - 1]@);
                if !dedup_first(views_of(parts@).take(i - 1)).contains(parts@[i - 1]@) {
                    assert(views_of(out@) =~~= views_of(prev_out).push(parts@[i - 1]@));
                }
                assert(views_of(out@) =~~= dedup_first(t));
            }
        }
        proof {
            assert(views_of(parts@).take(parts@.len() as int) =~~= views_of(parts@));
        }
        out
    }
}

impl core::str::FromStr for Mode {
    type Err = &'static str;

    fn from_str(s: &str) -> Result<Mode, &'static str> {
        let t = s.to_owned();
        if t.eq(&("cli".to_owned())) {
            Ok(Mode::Cli)
        } else if t.eq(&("env".to_owned())) {
            Ok(Mode::Env)
        } else if t.eq(&("docker".to_owned())) {
            Ok(Mode::Docker)
        } else {
            Err("no match")
        }
    }
}

} // verus!
