//! The dual resource meter that gates every host operation.
//!
//! A [`Budget`] tracks CPU-equivalent and memory-equivalent consumption
//! against two limits. Metering precedes the work it gates: a `charge`
//! that would surpass either limit fails with `ExceededLimit` and, since
//! consumption never decreases short of an explicit reset, every later
//! charge fails as well.

use vstd::prelude::*;
use crate::errors::{Error, HostError, ScErrorCode, ScErrorType};

verus! {

/// Dual CPU/memory resource meter.
#[derive(Clone, Copy, Debug, PartialEq, Eq, Structural)]
pub struct Budget {
    pub cpu_consumed: u64,
    pub cpu_limit: u64,
    pub mem_consumed: u64,
    pub mem_limit: u64,
    pub unlimited: bool,
}

/// Saturating addition on the meter words: consumption sticks at the top
/// instead of wrapping, so an exhausted meter can never look fresh again.
pub open spec fn sat_add(a: u64, b: u64) -> u64 {
    if a + b > u64::MAX {
        u64::MAX
    } else {
        (a + b) as u64
    }
}

impl Budget {
    /// A meter is exhausted when either consumption stands above its limit.
    pub open spec fn exceeded(self) -> bool {
        !self.unlimited && (self.cpu_consumed > self.cpu_limit || self.mem_consumed
            > self.mem_limit)
    }

    /// The meter state after charging `(cpu, mem)`, paired with whether the
    /// charge succeeds. Consumption grows even on a failing charge: the spend
    /// is real, and it is what keeps every subsequent charge failing.
    pub open spec fn spec_charge(self, cpu: u64, mem: u64) -> (Budget, bool) {
        let next = Budget {
            cpu_consumed: sat_add(self.cpu_consumed, cpu),
            mem_consumed: sat_add(self.mem_consumed, mem),
            ..self
        };
        (next, !next.exceeded())
    }

    pub fn new_unlimited() -> (r: Budget)
        ensures
            r == (Budget {
                cpu_consumed: 0,
                cpu_limit: u64::MAX,
                mem_consumed: 0,
                mem_limit: u64::MAX,
                unlimited: true,
            }),
    {
        Budget {
            cpu_consumed: 0,
            cpu_limit: u64::MAX,
            mem_consumed: 0,
            mem_limit: u64::MAX,
            unlimited: true,
        }
    }

    /// Resets both meters to zero consumption against the given limits.
    pub fn reset_limits(&mut self, cpu: u64, mem: u64)
        ensures
            *final(self) == (Budget {
                cpu_consumed: 0,
                cpu_limit: cpu,
                mem_consumed: 0,
                mem_limit: mem,
                unlimited: false,
            }),
    {
        self.cpu_consumed = 0;
        self.cpu_limit = cpu;
        self.mem_consumed = 0;
        self.mem_limit = mem;
        self.unlimited = false;
    }

    /// Disables limit checking entirely and clears consumption.
    pub fn reset_unlimited(&mut self)
        ensures
            *final(self) == (Budget {
                cpu_consumed: 0,
                cpu_limit: u64::MAX,
                mem_consumed: 0,
                mem_limit: u64::MAX,
                unlimited: true,
            }),
    {
        self.cpu_consumed = 0;
        self.cpu_limit = u64::MAX;
        self.mem_consumed = 0;
        self.mem_limit = u64::MAX;
        self.unlimited = true;
    }

    /// Accounts for `(cpu, mem)` units of work. Fails with `ExceededLimit`
    /// exactly when the accumulated consumption stands above either limit.
    pub fn charge(&mut self, cpu: u64, mem: u64) -> (r: Result<(), HostError>)
        ensures
            *final(self) == old(self).spec_charge(cpu, mem).0,
            r is Ok <==> old(self).spec_charge(cpu, mem).1,
            old(self).cpu_consumed <= final(self).cpu_consumed,
            old(self).mem_consumed <= final(self).mem_consumed,
            final(self).cpu_limit == old(self).cpu_limit,
            final(self).mem_limit == old(self).mem_limit,
            final(self).unlimited == old(self).unlimited,
            old(self).unlimited ==> r is Ok,
            r matches Err(e) ==> e == (HostError {
                error: Error { etype: ScErrorType::Budget, code: ScErrorCode::ExceededLimit },
            }),
    {
        self.cpu_consumed = if self.cpu_consumed <= u64::MAX - cpu {
            self.cpu_consumed + cpu
        } else {
            u64::MAX
        };
        self.mem_consumed = if self.mem_consumed <= u64::MAX - mem {
            self.mem_consumed + mem
        } else {
            u64::MAX
        };
        if !self.unlimited && (self.cpu_consumed > self.cpu_limit || self.mem_consumed
            > self.mem_limit) {
            Err(HostError {
                error: Error { etype: ScErrorType::Budget, code: ScErrorCode::ExceededLimit },
            })
        } else {
            Ok(())
        }
    }
}

/// Runtime saturating addition, matching [`sat_add`].
pub fn sat_add_u64(a: u64, b: u64) -> (r: u64)
    ensures
        r == sat_add(a, b),
{
    if a <= u64::MAX - b {
        a + b
    } else {
        u64::MAX
    }
}

/// Budget monotonicity and gating: a charge never lowers consumption, and
/// once a meter is exhausted, that charge and every subsequent one fails
/// and leaves the meter exhausted, until an explicit reset.
pub proof fn lemma_budget_gating(b: Budget, cpu: u64, mem: u64)
    ensures
        b.cpu_consumed <= b.spec_charge(cpu, mem).0.cpu_consumed,
        b.mem_consumed <= b.spec_charge(cpu, mem).0.mem_consumed,
        b.exceeded() ==> !b.spec_charge(cpu, mem).1,
        b.exceeded() ==> b.spec_charge(cpu, mem).0.exceeded(),
        !b.spec_charge(cpu, mem).1 ==> b.spec_charge(cpu, mem).0.exceeded(),
{
}

} // verus!
