//! Protocol manager: the dispatch rules over the set of engines that came
//! up.
//!
//! The engines themselves perform I/O outside the verified core; the
//! manager decides which engine an operation goes to and how fan-out
//! results are combined.

use vstd::prelude::*;

use crate::error::DiscoveryError;
use crate::service::{ServiceInfo, ServiceInfoView};
use crate::types::{ProtocolType, spec_protocols_contain, protocols_contain};

verus! {

/// All result lists laid end to end, in order.
pub open spec fn spec_concat_all(results: Seq<Seq<ServiceInfoView>>) -> Seq<ServiceInfoView>
    decreases results.len(),
{
    if results.len() == 0 {
        Seq::empty()
    } else {
        spec_concat_all(results.drop_last()) + results.last()
    }
}

/// The manager's table: which engines are present.  Operations that name
/// a protocol go to its engine; fan-out goes to every engine.
#[derive(Debug)]
pub struct ProtocolManager {
    protocols: Vec<ProtocolType>,
}

impl View for ProtocolManager {
    type V = Seq<ProtocolType>;

    closed spec fn view(&self) -> Seq<ProtocolType> {
        self.protocols@
    }
}

impl ProtocolManager {
    /// A manager over the engines that were constructed, in the order
    /// they came up.
    pub fn new(available: Vec<ProtocolType>) -> (r: Self)
        ensures
            r@ == available@,
    {
        ProtocolManager { protocols: available }
    }

    /// The engines present.
    pub fn protocol_types(&self) -> (r: Vec<ProtocolType>)
        ensures
            r@ == self@,
    {
        self.protocols.clone()
    }

    /// Whether the engine for `protocol` is present.
    pub fn has_engine(&self, protocol: ProtocolType) -> (r: bool)
        ensures
            r == spec_protocols_contain(self@, protocol),
    {
        protocols_contain(&self.protocols, protocol)
    }

    /// The engine a register-path operation goes to.
    ///
    /// A concrete protocol resolves to itself when its engine is present
    /// and fails otherwise; `Any` prefers the mDNS engine and falls back
    /// to the first engine present, failing only when none is.
    pub fn resolve_protocol(&self, requested: ProtocolType) -> (r: Result<
        ProtocolType,
        DiscoveryError,
    >)
        ensures
            match r {
                Result::Ok(p) => spec_protocols_contain(self@, p) && (requested
                    != ProtocolType::Any ==> p == requested) && (requested == ProtocolType::Any
                    ==> (if spec_protocols_contain(self@, ProtocolType::Mdns) {
                        p == ProtocolType::Mdns
                    } else {
                        p == self@[0]
                    })),
                Result::Err(e) => e is Protocol && (if requested == ProtocolType::Any {
                    self@.len() == 0
                } else {
                    !spec_protocols_contain(self@, requested)
                }),
            },
    {
        if requested == ProtocolType::Any {
            if protocols_contain(&self.protocols, ProtocolType::Mdns) {
                return Result::Ok(ProtocolType::Mdns);
            }
            if self.protocols.len() > 0 {
                return Result::Ok(self.protocols[0]);
            }
            return Result::Err(
                DiscoveryError::protocol("No discovery protocol is available".to_owned()),
            );
        }
        if protocols_contain(&self.protocols, requested) {
            Result::Ok(requested)
        } else {
            Result::Err(
                DiscoveryError::protocol("Requested protocol is not available".to_owned()),
            )
        }
    }

    /// Combine per-engine fan-out results: every list, in engine order,
    /// laid end to end.  Nothing is deduplicated — the same physical
    /// service may legitimately appear once per protocol.
    pub fn merge_results(&self, results: Vec<Vec<ServiceInfo>>) -> (r: Vec<ServiceInfo>)
        ensures
            Seq::new(r@.len(), |i: int| r@[i]@) == spec_concat_all(
                Seq::new(
                    results@.len(),
                    |i: int| Seq::new(results@[i]@.len(), |j: int| results@[i]@[j]@),
                ),
            ),
    {
        let ghost rv = Seq::new(
            results@.len(),
            |i: int| Seq::new(results@[i]@.len(), |j: int| results@[i]@[j]@),
        );
        let mut out: Vec<ServiceInfo> = Vec::new();
        let mut i: usize = 0;
        proof {
            assert(Seq::new(out@.len(), |k: int| out@[k]@) =~= spec_concat_all(rv.take(0)));
        }
        while i < results.len()
            invariant
                0 <= i <= results@.len(),
                rv == Seq::new(
                    results@.len(),
                    |k: int| Seq::new(results@[k]@.len(), |j: int| results@[k]@[j]@),
                ),
                Seq::new(out@.len(), |k: int| out@[k]@) == spec_concat_all(rv.take(i as int)),
            decreases results@.len() - i,
        {
            let ghost pre = Seq::new(out@.len(), |k: int| out@[k]@);
            let mut j: usize = 0;
            while j < results[i].len()
                invariant
                    0 <= i < results@.len(),
                    0 <= j <= results@[i as int]@.len(),
                    rv == Seq::new(
                        results@.len(),
                        |k: int| Seq::new(results@[k]@.len(), |m: int| results@[k]@[m]@),
                    ),
                    pre == spec_concat_all(rv.take(i as int)),
                    Seq::new(out@.len(), |k: int| out@[k]@) == pre + rv[i as int].take(
                        j as int,
                    ),
                decreases results@[i as int]@.len() - j,
            {
                let ghost mid = Seq::new(out@.len(), |k: int| out@[k]@);
                out.push(results[i][j].clone());
                proof {
                    assert(Seq::new(out@.len(), |k: int| out@[k]@) =~= mid.push(
                        results@[i as int]@[j as int]@,
                    ));
                    assert(rv[i as int].take(j + 1) =~= rv[i as int].take(j as int).push(
                        rv[i as int][j as int],
                    ));
                    assert(rv[i as int][j as int] == results@[i as int]@[j as int]@);
                    assert(mid.push(rv[i as int][j as int]) =~= pre + rv[i as int].take(j + 1));
                }
                j = j + 1;
            }
            proof {
                assert(rv[i as int].take(rv[i as int].len() as int) =~= rv[i as int]);
                assert(rv.take(i + 1).drop_last() =~= rv.take(i as int));
                assert(rv.take(i + 1).last() == rv[i as int]);
                assert(spec_concat_all(rv.take(i + 1)) == spec_concat_all(rv.take(i as int))
                    + rv[i as int]);
            }
            i = i + 1;
        }
        proof {
            assert(rv.take(rv.len() as int) =~= rv);
        }
        out
    }
}

} // verus!
