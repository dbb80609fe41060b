//! Adversarial scenario drivers: scripted call sequences that probe the
//! host with hostile inputs (forged handles, tight budgets) and tolerate
//! every typed error while ruling out internal ones.

use vstd::prelude::*;
use crate::budget::Budget;
use crate::errors::{HostError, ScErrorCode};
use crate::host::{budget_evolves, Frame, Host};
use crate::val::Val;

verus! {

/// Storage domain of a ledger entry a test case may touch.
#[derive(Clone, Copy, Debug, PartialEq, Eq, Structural)]
pub enum StorageType {
    Temporary,
    Persistent,
    Instance,
}

/// A fuzzed invocation configuration: budget knobs and the data keys the
/// guest is allowed to touch.
#[derive(Debug)]
pub struct TestCase {
    pub cpu_budget: u32,
    pub mem_budget: u32,
    pub data_keys: Vec<(u8, (StorageType, bool))>,
}

impl TestCase {
    /// Installs the fuzzed budget, masked down so a run cannot exhaust the
    /// machine and masked up so the host can at least start.
    pub fn install_budget(&self, host: &mut Host)
        ensures
            final(host).budget == (Budget {
                cpu_consumed: 0,
                cpu_limit: (self.cpu_budget as u64 & 0x0fff_ffff | 0x000f_ffff) as u64,
                mem_consumed: 0,
                mem_limit: (self.mem_budget as u64 & 0x0ff_ffff | 0x000f_ffff) as u64,
                unlimited: false,
            }),
            final(host).objects == old(host).objects,
            final(host).frames == old(host).frames,
    {
        host.reset_budget_limits(
            self.cpu_budget as u64 & 0x0fff_ffff | 0x000f_ffff,
            self.mem_budget as u64 & 0x0ff_ffff | 0x000f_ffff,
        );
    }
}

/// Reads two bytes as a big-endian 16-bit quantity.
pub fn as_u16(data1: u8, data2: u8) -> (r: u32)
    ensures
        r == data1 as int * 256 + data2 as int,
{
    (data1 as u32) * 256 + (data2 as u32)
}

/// A guest program that feeds another contract hostile arguments: forged
/// object handles and ill-typed values. Every call runs in its own frame
/// and its typed failure is swallowed; the store ends as it began.
pub struct Contract;

impl Contract {
    /// Drives a sequence of invocations carrying forged handles at the
    /// host; each one is expected to fail with a typed, non-internal error
    /// and roll its frame back.
    pub fn run(host: &mut Host, hostile_contract: Val)
        ensures
            final(host).objects@ == old(host).objects@,
            final(host).frames@ == old(host).frames@,
            budget_evolves(old(host).budget, final(host).budget),
    {
        let forgeref1 = Val::Object(0x12345678u32);
        let forgeref2 = Val::Object(0x87654321u32);

        let mut name: Vec<u8> = Vec::new();
        name.push(102u8);
        let mut args: Vec<Val> = Vec::new();
        args.push(hostile_contract);
        args.push(forgeref1);
        args.push(forgeref2);
        host.push_frame(Frame { fn_name: name, args });
        let r1 = host.compare(forgeref1, forgeref2);
        match r1 {
            Ok(_) => (),
            Err(e) => {
                let _ = crate::errors::panic_if_internal_error(e);
            },
        }
        host.rollback_frame();
        proof {
            assert(host.objects@ =~= old(host).objects@);
        }

        let mut name2: Vec<u8> = Vec::new();
        name2.push(103u8);
        let args2: Vec<Val> = Vec::new();
        host.push_frame(Frame { fn_name: name2, args: args2 });
        let r2 = host.from_value(Val::Object(0xaaaaaaaau32));
        match r2 {
            Ok(_) => (),
            Err(e) => {
                let _ = crate::errors::panic_if_internal_error(e);
            },
        }
        host.rollback_frame();
        proof {
            assert(host.objects@ =~= old(host).objects@);
        }
    }
}

} // verus!
