//! The deciding half of the address resolver: given the raw answers of the
//! configured discovery sources, in their configured order, pick the first
//! syntactically valid address. Fetching the answers is I/O and happens
//! outside; a source that could not be reached hands in nothing.

use vstd::prelude::*;
use crate::ip::{is_valid_ipv4, parse_ipv4, spec_ipv4_octet, IpAddress};

verus! {

/// An address obtained from a discovery source this tick.
#[derive(Clone, Copy, Debug, PartialEq, Eq, Structural)]
pub struct ResolvedAddress {
    /// The address itself.
    pub ip: IpAddress,
    /// When it was resolved.
    pub timestamp: u64,
    /// Which source (by its position in the configured order) supplied it.
    pub source: usize,
}

/// Why no address could be resolved this tick.
#[derive(Clone, Copy, Debug, PartialEq, Eq, Structural)]
pub enum ResolutionError {
    /// No discovery source is configured.
    NoSources,
    /// Every source was unreachable.
    AllSourcesFailed,
    /// At least one source answered, but no answer was a valid address.
    MalformedResponse,
}

/// A source's answer yields an address: it answered at all, and its text is
/// a valid dotted quad.
pub open spec fn spec_source_ok(answer: Option<String>) -> bool {
    match answer {
        Some(s) => is_valid_ipv4(s@),
        None => false,
    }
}

/// Picks the first valid address out of the sources' answers, in order —
/// the first valid source wins, there is no voting. Fails with the error
/// saying whether sources were missing, all unreachable, or all malformed.
pub fn resolve_from_answers(answers: &Vec<Option<String>>, now: u64) -> (r: Result<
    ResolvedAddress,
    ResolutionError,
>)
    ensures
        r is Ok <==> exists|i: int| 0 <= i < answers@.len() && spec_source_ok(answers@[i]),
        r matches Ok(ra) ==> {
            &&& ra.timestamp == now
            &&& ra.source < answers@.len()
            &&& spec_source_ok(answers@[ra.source as int])
            &&& forall|k: int| 0 <= k < ra.source ==> !spec_source_ok(answers@[k])
            &&& answers@[ra.source as int] matches Some(s) && ra.ip == (IpAddress {
                a: spec_ipv4_octet(s@, 0) as u8,
                b: spec_ipv4_octet(s@, 1) as u8,
                c: spec_ipv4_octet(s@, 2) as u8,
                d: spec_ipv4_octet(s@, 3) as u8,
            })
        },
        r == Err::<ResolvedAddress, ResolutionError>(ResolutionError::NoSources) <==> answers@.len()
            == 0,
        r == Err::<ResolvedAddress, ResolutionError>(ResolutionError::AllSourcesFailed) <==> (
        answers@.len() > 0 && forall|i: int| 0 <= i < answers@.len() ==> answers@[i] is None),
        r == Err::<ResolvedAddress, ResolutionError>(ResolutionError::MalformedResponse) <==> (
        (exists|i: int| 0 <= i < answers@.len() && answers@[i] is Some) && forall|i: int|
            0 <= i < answers@.len() ==> !spec_source_ok(answers@[i])),
{
    let mut i: usize = 0;
    let mut answered = false;
    while i < answers.len()
        invariant
            i <= answers@.len(),
            forall|k: int| 0 <= k < i ==> !spec_source_ok(answers@[k]),
            answered == exists|k: int| 0 <= k < i && answers@[k] is Some,
        decreases answers@.len() - i,
    {
        match &answers[i] {
            Some(text) => {
                match parse_ipv4(text.as_str()) {
                    Some(ip) => {
                        proof {
                            assert(spec_source_ok(answers@[i as int]));
                        }
                        return Ok(ResolvedAddress { ip, timestamp: now, source: i });
                    },
                    None => {
                        proof {
                            assert(answers@[i as int] is Some);
                        }
                        answered = true;
                    },
                }
            },
            None => {},
        }
        i = i + 1;
    }
    if answers.len() == 0 {
        Err(ResolutionError::NoSources)
    } else if answered {
        Err(ResolutionError::MalformedResponse)
    } else {
        Err(ResolutionError::AllSourcesFailed)
    }
}

} // verus!
