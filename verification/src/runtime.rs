//! Script-runtime discovery: pick the first candidate runtime that both
//! exists and passes its version probe. Candidates are the well-known
//! per-platform installation paths followed by the entries of the executable
//! search path; the caller answers existence and probe outcome per candidate.

use vstd::prelude::*;
use crate::errors::SupervisorError;
use crate::locator::{first_hit, first_true, lemma_first_hit_props};

verus! {

/// A candidate works when it exists and its version probe succeeded.
pub open spec fn works(exists: Seq<bool>, probe_ok: Seq<bool>, i: int) -> bool {
    exists[i] && probe_ok[i]
}

/// The working flags of all candidates, in order.
pub open spec fn working_flags(exists: Seq<bool>, probe_ok: Seq<bool>) -> Seq<bool> {
    Seq::new(exists.len(), |i: int| works(exists, probe_ok, i))
}

/// Concatenate two candidate lists: well-known paths first, then search-path
/// entries, each list unchanged.
pub fn concat_candidates(a: &Vec<Vec<u8>>, b: &Vec<Vec<u8>>) -> (r: Vec<Vec<u8>>)
    ensures
        r.deep_view() == a.deep_view() + b.deep_view(),
{
    let mut r = crate::locator::clone_path(a);
    let mut i: usize = 0;
    while i < b.len()
        invariant
            0 <= i <= b@.len(),
            r.deep_view() =~= a.deep_view() + b.deep_view().take(i as int),
        decreases b@.len() - i,
    {
        let ghost prev = r.deep_view();
        let c = b[i].clone();
        proof {
            assert(c@ =~= b@[i as int]@);
            assert(b.deep_view().take(i + 1) =~= b.deep_view().take(i as int).push(b.deep_view()[
                i as int
            ]));
        }
        r.push(c);
        proof {
            assert(r.deep_view() =~~= prev.push(b.deep_view()[i as int]));
            assert(r.deep_view() =~~= a.deep_view() + b.deep_view().take(i + 1));
        }
        i += 1;
    }
    proof {
        assert(b.deep_view().take(b@.len() as int) =~= b.deep_view());
        assert(r.deep_view() =~~= a.deep_view() + b.deep_view());
    }
    r
}

/// Select the runtime: the first candidate, in order, that exists and passed
/// its version probe. Fails with `RuntimeNotFound` — an error distinct from a
/// missing artifact — exactly when no candidate works.
pub fn select_runtime(candidates: &Vec<Vec<u8>>, exists: &Vec<bool>, probe_ok: &Vec<bool>) -> (r:
    Result<(usize, Vec<u8>), SupervisorError>)
    requires
        exists@.len() == candidates@.len(),
        probe_ok@.len() == candidates@.len(),
    ensures
        match r {
            Ok(p) => {
                &&& p.0 == first_hit(working_flags(exists@, probe_ok@))
                &&& 0 <= p.0 < candidates@.len()
                &&& works(exists@, probe_ok@, p.0 as int)
                &&& forall|j: int| 0 <= j < p.0 ==> !works(exists@, probe_ok@, j)
                &&& p.1@ == candidates@[p.0 as int]@
            },
            Err(e) => {
                &&& e == SupervisorError::RuntimeNotFound
                &&& forall|j: int|
                    0 <= j < candidates@.len() ==> !works(exists@, probe_ok@, j)
            },
        },
{
    let mut flags: Vec<bool> = Vec::new();
    let mut i: usize = 0;
    while i < candidates.len()
        invariant
            0 <= i <= candidates@.len(),
            exists@.len() == candidates@.len(),
            probe_ok@.len() == candidates@.len(),
            flags@.len() == i,
            forall|j: int| 0 <= j < i ==> flags@[j] == works(exists@, probe_ok@, j),
        decreases candidates@.len() - i,
    {
        flags.push(exists[i] && probe_ok[i]);
        i += 1;
    }
    proof {
        assert(flags@ =~= working_flags(exists@, probe_ok@));
    }
    match first_true(&flags) {
        Some(idx) => {
            proof {
                lemma_first_hit_props(flags@);
                assert(flags@ == working_flags(exists@, probe_ok@));
                assert(flags@[idx as int] == works(exists@, probe_ok@, idx as int));
                assert forall|j: int| 0 <= j < idx implies !works(exists@, probe_ok@, j) by {
                    assert(!flags@[j]);
                    assert(flags@[j] == works(exists@, probe_ok@, j));
                }
            }
            let path = candidates[idx].clone();
            proof {
                assert(path@ =~= candidates@[idx as int]@);
            }
            Ok((idx, path))
        },
        None => {
            proof {
                lemma_first_hit_props(flags@);
                assert forall|j: int| 0 <= j < candidates@.len() implies !works(
                    exists@,
                    probe_ok@,
                    j,
                ) by {
                    assert(!flags@[j]);
                    assert(flags@[j] == works(exists@, probe_ok@, j));
                }
            }
            Err(SupervisorError::RuntimeNotFound)
        },
    }
}

} // verus!
