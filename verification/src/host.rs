//! The host instance: budget, frame stack and frame-scoped object store.
//!
//! Host objects live in a flat, append-only table indexed by handle. A
//! stored object references only strictly smaller handles, so every walk
//! over the store terminates and frame rollback is a single truncation to
//! the mark recorded when the frame was pushed.
//!
//! The ghost denotation [`den_val`] maps a value (relative to a store) to
//! the wire-format tree it stands for; it is the yardstick against which
//! the conversion layer and the comparator are specified.

use vstd::prelude::*;
use crate::budget::Budget;
use crate::errors::{Error, HostError, ScErrorCode, ScErrorType};
use crate::scval::{AddrM, I128Parts, I256Parts, ScAddress, ScValM, U128Parts, U256Parts};
use crate::val::{val_measure, val_ref_below, val_ref_below_exec, Val};

verus! {

/// One key/value pair of a host map object.
#[derive(Clone, Copy, Debug, PartialEq, Eq, Structural)]
pub struct MapPair {
    pub key: Val,
    pub val: Val,
}

/// A heap-resident host value, reachable only through an object handle.
/// Host objects are immutable after creation.
#[derive(Clone, Debug)]
pub enum HostObject {
    U128(U128Parts),
    I128(I128Parts),
    U256(U256Parts),
    I256(I256Parts),
    Bytes(Vec<u8>),
    Text(Vec<u8>),
    Symbol(Vec<u8>),
    Vector(Vec<Val>),
    Mapping(Vec<MapPair>),
    Address(ScAddress),
}

/// Does the object reference only handles strictly below `bound`?
pub open spec fn obj_refs_below(o: HostObject, bound: int) -> bool {
    match o {
        HostObject::Vector(xs) => forall|i: int|
            0 <= i < xs@.len() ==> val_ref_below(#[trigger] xs@[i], bound),
        HostObject::Mapping(ps) => forall|i: int|
            0 <= i < ps@.len() ==> val_ref_below((#[trigger] ps@[i]).key, bound) && val_ref_below(
                ps@[i].val,
                bound,
            ),
        _ => true,
    }
}

/// Size measure of an object, charged to the budget at allocation.
pub open spec fn spec_obj_size(o: HostObject) -> u64 {
    match o {
        HostObject::Bytes(b) => b@.len() as u64,
        HostObject::Text(b) => b@.len() as u64,
        HostObject::Symbol(b) => b@.len() as u64,
        HostObject::Vector(xs) => xs@.len() as u64,
        HostObject::Mapping(ps) => ps@.len() as u64,
        HostObject::Address(_) => 32,
        _ => 16,
    }
}

/// Runtime computation of [`spec_obj_size`].
pub fn obj_size(o: &HostObject) -> (r: u64)
    ensures
        r == spec_obj_size(*o),
{
    match o {
        HostObject::Bytes(b) => b.len() as u64,
        HostObject::Text(b) => b.len() as u64,
        HostObject::Symbol(b) => b.len() as u64,
        HostObject::Vector(xs) => xs.len() as u64,
        HostObject::Mapping(ps) => ps.len() as u64,
        HostObject::Address(_) => 32,
        _ => 16,
    }
}

// ------------------------------------------------------------------
// Denotation: what wire-format tree a value stands for, in a store
// ------------------------------------------------------------------

/// The wire-format tree denoted by `x` relative to store `s`, or `None`
/// when a handle dangles or a stored reference fails to decrease.
pub open spec fn den_val(s: Seq<HostObject>, x: Val) -> Option<ScValM>
    decreases val_measure(x), 0nat,
{
    match x {
        Val::Bool(b) => Some(ScValM::Bool(b)),
        Val::Void => Some(ScValM::Void),
        Val::U32(n) => Some(ScValM::U32(n)),
        Val::I32(n) => Some(ScValM::I32(n)),
        Val::U64(n) => Some(ScValM::U64(n)),
        Val::I64(n) => Some(ScValM::I64(n)),
        Val::Timepoint(n) => Some(ScValM::Timepoint(n)),
        Val::Duration(n) => Some(ScValM::Duration(n)),
        Val::Status(e) => Some(ScValM::Error(e)),
        Val::Object(h) => if h < s.len() {
            match s[h as int] {
                HostObject::U128(p) => Some(ScValM::U128(p)),
                HostObject::I128(p) => Some(ScValM::I128(p)),
                HostObject::U256(p) => Some(ScValM::U256(p)),
                HostObject::I256(p) => Some(ScValM::I256(p)),
                HostObject::Bytes(b) => Some(ScValM::Bytes(b@)),
                HostObject::Text(b) => Some(ScValM::Text(b@)),
                HostObject::Symbol(b) => Some(ScValM::Symbol(b@)),
                HostObject::Vector(xs) => match den_list(s, xs@, h as nat) {
                    None => None,
                    Some(ms) => Some(ScValM::Vector(Some(ms))),
                },
                HostObject::Mapping(ps) => match den_entries(s, ps@, h as nat) {
                    None => None,
                    Some(ms) => Some(ScValM::Mapping(Some(ms))),
                },
                HostObject::Address(a) => Some(
                    ScValM::Address(AddrM { contract: a.contract, id: a.id@ }),
                ),
            }
        } else {
            None
        },
    }
}

/// Denotation of a sequence of element values whose handles must stay
/// strictly below `bound` (the handle of the containing object).
pub open spec fn den_list(s: Seq<HostObject>, xs: Seq<Val>, bound: nat) -> Option<Seq<ScValM>>
    decreases bound, xs.len() + 1,
{
    if xs.len() == 0 {
        Some(Seq::empty())
    } else if !val_ref_below(xs[0], bound as int) {
        None
    } else {
        match den_val(s, xs[0]) {
            None => None,
            Some(m) => match den_list(s, xs.subrange(1, xs.len() as int), bound) {
                None => None,
                Some(t) => Some(seq![m] + t),
            },
        }
    }
}

/// Denotation of a sequence of map pairs, keys and values below `bound`.
pub open spec fn den_entries(s: Seq<HostObject>, ps: Seq<MapPair>, bound: nat) -> Option<
    Seq<(ScValM, ScValM)>,
>
    decreases bound, ps.len() + 1,
{
    if ps.len() == 0 {
        Some(Seq::empty())
    } else if !(val_ref_below(ps[0].key, bound as int) && val_ref_below(ps[0].val, bound as int)) {
        None
    } else {
        match (den_val(s, ps[0].key), den_val(s, ps[0].val)) {
            (Some(k), Some(v)) => match den_entries(s, ps.subrange(1, ps.len() as int), bound) {
                None => None,
                Some(t) => Some(seq![(k, v)] + t),
            },
            _ => None,
        }
    }
}

pub proof fn lemma_den_list_props(s: Seq<HostObject>, xs: Seq<Val>, bound: nat, ms: Seq<ScValM>)
    requires
        den_list(s, xs, bound) == Some(ms),
    ensures
        ms.len() == xs.len(),
        forall|i: int| 0 <= i < xs.len() ==> val_ref_below(#[trigger] xs[i], bound as int)
            && den_val(s, xs[i]) == Some(ms[i]),
    decreases xs.len(),
{
    if xs.len() > 0 {
        let tail = xs.subrange(1, xs.len() as int);
        let mt = den_list(s, tail, bound).unwrap();
        lemma_den_list_props(s, tail, bound, mt);
        assert forall|i: int| 0 <= i < xs.len() implies val_ref_below(
            #[trigger] xs[i],
            bound as int,
        ) && den_val(s, xs[i]) == Some(ms[i]) by {
            if i > 0 {
                assert(tail[i - 1] == xs[i]);
                assert(ms[i] == mt[i - 1]);
            }
        }
    }
}

pub proof fn lemma_den_list_build(s: Seq<HostObject>, xs: Seq<Val>, bound: nat, ms: Seq<ScValM>)
    requires
        ms.len() == xs.len(),
        forall|i: int| 0 <= i < xs.len() ==> val_ref_below(#[trigger] xs[i], bound as int)
            && den_val(s, xs[i]) == Some(ms[i]),
    ensures
        den_list(s, xs, bound) == Some(ms),
    decreases xs.len(),
{
    if xs.len() == 0 {
        assert(ms =~= Seq::<ScValM>::empty());
    } else {
        let tail = xs.subrange(1, xs.len() as int);
        let mt = ms.subrange(1, ms.len() as int);
        lemma_den_list_build(s, tail, bound, mt);
        assert(ms =~= seq![ms[0]] + mt);
    }
}

pub proof fn lemma_den_entries_props(
    s: Seq<HostObject>,
    ps: Seq<MapPair>,
    bound: nat,
    ms: Seq<(ScValM, ScValM)>,
)
    requires
        den_entries(s, ps, bound) == Some(ms),
    ensures
        ms.len() == ps.len(),
        forall|i: int| 0 <= i < ps.len() ==> val_ref_below(
            (#[trigger] ps[i]).key,
            bound as int,
        ) && val_ref_below(ps[i].val, bound as int) && den_val(s, ps[i].key) == Some(ms[i].0)
            && den_val(s, ps[i].val) == Some(ms[i].1),
    decreases ps.len(),
{
    if ps.len() > 0 {
        let tail = ps.subrange(1, ps.len() as int);
        let mt = den_entries(s, tail, bound).unwrap();
        lemma_den_entries_props(s, tail, bound, mt);
        assert forall|i: int| 0 <= i < ps.len() implies val_ref_below(
            (#[trigger] ps[i]).key,
            bound as int,
        ) && val_ref_below(ps[i].val, bound as int) && den_val(s, ps[i].key) == Some(ms[i].0)
            && den_val(s, ps[i].val) == Some(ms[i].1) by {
            if i > 0 {
                assert(tail[i - 1] == ps[i]);
                assert(ms[i] == mt[i - 1]);
            }
        }
    }
}

pub proof fn lemma_den_entries_build(
    s: Seq<HostObject>,
    ps: Seq<MapPair>,
    bound: nat,
    ms: Seq<(ScValM, ScValM)>,
)
    requires
        ms.len() == ps.len(),
        forall|i: int| 0 <= i < ps.len() ==> val_ref_below(
            (#[trigger] ps[i]).key,
            bound as int,
        ) && val_ref_below(ps[i].val, bound as int) && den_val(s, ps[i].key) == Some(ms[i].0)
            && den_val(s, ps[i].val) == Some(ms[i].1),
    ensures
        den_entries(s, ps, bound) == Some(ms),
    decreases ps.len(),
{
    if ps.len() == 0 {
        assert(ms =~= Seq::<(ScValM, ScValM)>::empty());
    } else {
        let tail = ps.subrange(1, ps.len() as int);
        let mt = ms.subrange(1, ms.len() as int);
        lemma_den_entries_build(s, tail, bound, mt);
        assert(ms =~= seq![ms[0]] + mt);
    }
}

/// A store extension (append of new objects) preserves every denotation
/// that was already defined.
pub proof fn lemma_den_extend(s1: Seq<HostObject>, s2: Seq<HostObject>, x: Val)
    requires
        s1.len() <= s2.len(),
        s2.subrange(0, s1.len() as int) == s1,
        den_val(s1, x) is Some,
    ensures
        den_val(s2, x) == den_val(s1, x),
    decreases val_measure(x), 0nat,
{
    match x {
        Val::Object(h) => {
            assert(s2[h as int] == s2.subrange(0, s1.len() as int)[h as int]);
            match s1[h as int] {
                HostObject::Vector(xs) => {
                    lemma_den_list_extend(s1, s2, xs@, h as nat);
                },
                HostObject::Mapping(ps) => {
                    lemma_den_entries_extend(s1, s2, ps@, h as nat);
                },
                _ => {},
            }
        },
        _ => {},
    }
}

pub proof fn lemma_den_list_extend(s1: Seq<HostObject>, s2: Seq<HostObject>, xs: Seq<Val>, bound: nat)
    requires
        s1.len() <= s2.len(),
        s2.subrange(0, s1.len() as int) == s1,
        den_list(s1, xs, bound) is Some,
    ensures
        den_list(s2, xs, bound) == den_list(s1, xs, bound),
    decreases bound, xs.len() + 1,
{
    if xs.len() > 0 {
        lemma_den_extend(s1, s2, xs[0]);
        lemma_den_list_extend(s1, s2, xs.subrange(1, xs.len() as int), bound);
    }
}

pub proof fn lemma_den_entries_extend(
    s1: Seq<HostObject>,
    s2: Seq<HostObject>,
    ps: Seq<MapPair>,
    bound: nat,
)
    requires
        s1.len() <= s2.len(),
        s2.subrange(0, s1.len() as int) == s1,
        den_entries(s1, ps, bound) is Some,
    ensures
        den_entries(s2, ps, bound) == den_entries(s1, ps, bound),
    decreases bound, ps.len() + 1,
{
    if ps.len() > 0 {
        lemma_den_extend(s1, s2, ps[0].key);
        lemma_den_extend(s1, s2, ps[0].val);
        lemma_den_entries_extend(s1, s2, ps.subrange(1, ps.len() as int), bound);
    }
}

// ------------------------------------------------------------------
// Frames and the host instance
// ------------------------------------------------------------------

/// One nested guest invocation: the invoked function and its arguments.
#[derive(Debug)]
pub struct Frame {
    pub fn_name: Vec<u8>,
    pub args: Vec<Val>,
}

/// A frame on the stack, with the store mark taken when it was pushed;
/// rollback truncates the store to that mark.
#[derive(Debug)]
pub struct FrameEntry {
    pub frame: Frame,
    pub start: usize,
}

/// A host instance: one guest invocation's isolated execution environment.
#[derive(Debug)]
pub struct Host {
    pub budget: Budget,
    pub objects: Vec<HostObject>,
    pub frames: Vec<FrameEntry>,
}

/// The budget keeps its configuration and only ever grows its consumption.
pub open spec fn budget_evolves(b0: Budget, b1: Budget) -> bool {
    &&& b1.cpu_limit == b0.cpu_limit
    &&& b1.mem_limit == b0.mem_limit
    &&& b1.unlimited == b0.unlimited
    &&& b0.cpu_consumed <= b1.cpu_consumed
    &&& b0.mem_consumed <= b1.mem_consumed
}

/// The cost of allocating a host object: a base fee plus its size.
pub open spec fn alloc_cost(o: HostObject) -> (u64, u64) {
    (
        crate::budget::sat_add(10, spec_obj_size(o)),
        crate::budget::sat_add(16, spec_obj_size(o)),
    )
}

impl Host {
    /// A fresh host with an unlimited budget, an empty store and no frames.
    pub fn test_host() -> (r: Host)
        ensures
            r.budget == (Budget {
                cpu_consumed: 0,
                cpu_limit: u64::MAX,
                mem_consumed: 0,
                mem_limit: u64::MAX,
                unlimited: true,
            }),
            r.objects@.len() == 0,
            r.frames@.len() == 0,
    {
        Host { budget: Budget::new_unlimited(), objects: Vec::new(), frames: Vec::new() }
    }

    /// Resets the budget to zero consumption against the given limits.
    pub fn reset_budget_limits(&mut self, cpu: u64, mem: u64)
        ensures
            final(self).budget == (Budget {
                cpu_consumed: 0,
                cpu_limit: cpu,
                mem_consumed: 0,
                mem_limit: mem,
                unlimited: false,
            }),
            final(self).objects == old(self).objects,
            final(self).frames == old(self).frames,
    {
        self.budget.reset_limits(cpu, mem);
    }

    /// Disables budget limits and clears consumption.
    pub fn reset_budget_unlimited(&mut self)
        ensures
            final(self).budget == (Budget {
                cpu_consumed: 0,
                cpu_limit: u64::MAX,
                mem_consumed: 0,
                mem_limit: u64::MAX,
                unlimited: true,
            }),
            final(self).objects == old(self).objects,
            final(self).frames == old(self).frames,
    {
        self.budget.reset_unlimited();
    }

    /// Meters `(cpu, mem)` units against the budget; the store and frame
    /// stack are untouched either way.
    pub fn charge(&mut self, cpu: u64, mem: u64) -> (r: Result<(), HostError>)
        ensures
            final(self).objects == old(self).objects,
            final(self).frames == old(self).frames,
            final(self).budget == old(self).budget.spec_charge(cpu, mem).0,
            r is Ok <==> old(self).budget.spec_charge(cpu, mem).1,
            budget_evolves(old(self).budget, final(self).budget),
            old(self).budget.unlimited ==> r is Ok,
            r matches Err(e) ==> e.error == (Error {
                etype: ScErrorType::Budget,
                code: ScErrorCode::ExceededLimit,
            }),
    {
        self.budget.charge(cpu, mem)
    }

    /// Charges for and stores a new host object, returning its fresh
    /// handle. Fails with `ExceededLimit` when the budget cannot pay, and
    /// with `InvalidInput` when the object references a handle that is not
    /// strictly below its own.
    pub fn add_host_object(&mut self, obj: HostObject) -> (r: Result<Val, HostError>)
        ensures
            final(self).frames == old(self).frames,
            budget_evolves(old(self).budget, final(self).budget),
            r is Ok <==> ({
                &&& old(self).budget.spec_charge(alloc_cost(obj).0, alloc_cost(obj).1).1
                &&& obj_refs_below(obj, old(self).objects@.len() as int)
                &&& old(self).objects@.len() < u32::MAX
            }),
            r matches Ok(v) ==> v == Val::Object(old(self).objects@.len() as u32) && final(self).objects@ == old(self).objects@.push(obj),
            r is Err ==> final(self).objects == old(self).objects,
            r matches Err(e) ==> (e.error.code == ScErrorCode::ExceededLimit || e.error.code
                == ScErrorCode::InvalidInput),
            !old(self).budget.spec_charge(alloc_cost(obj).0, alloc_cost(obj).1).1 ==> (
            r matches Err(e) && e.error.code == ScErrorCode::ExceededLimit),
    {
        let size = obj_size(&obj);
        let cpu = crate::budget::sat_add_u64(10, size);
        let mem = crate::budget::sat_add_u64(16, size);
        self.charge(cpu, mem)?;
        let bound = self.objects.len();
        let refs_ok: bool = match &obj {
            HostObject::Vector(xs) => {
                let mut ok = true;
                let mut i: usize = 0;
                while i < xs.len()
                    invariant
                        0 <= i <= xs@.len(),
                        ok == forall|j: int| 0 <= j < i ==> val_ref_below(
                            #[trigger] xs@[j],
                            bound as int,
                        ),
                    decreases xs@.len() - i,
                {
                    if !val_ref_below_exec(xs[i], bound) {
                        ok = false;
                    }
                    i = i + 1;
                }
                ok
            },
            HostObject::Mapping(ps) => {
                let mut ok = true;
                let mut i: usize = 0;
                while i < ps.len()
                    invariant
                        0 <= i <= ps@.len(),
                        ok == forall|j: int| 0 <= j < i ==> val_ref_below(
                            (#[trigger] ps@[j]).key,
                            bound as int,
                        ) && val_ref_below(ps@[j].val, bound as int),
                    decreases ps@.len() - i,
                {
                    if !(val_ref_below_exec(ps[i].key, bound) && val_ref_below_exec(
                        ps[i].val,
                        bound,
                    )) {
                        ok = false;
                    }
                    i = i + 1;
                }
                ok
            },
            _ => true,
        };
        if !refs_ok {
            return Err(crate::errors::host_err(ScErrorType::Object, ScErrorCode::InvalidInput));
        }
        if self.objects.len() >= u32::MAX as usize {
            return Err(crate::errors::host_err(ScErrorType::Object, ScErrorCode::InvalidInput));
        }
        let h = self.objects.len() as u32;
        self.objects.push(obj);
        Ok(Val::Object(h))
    }

    /// Resolves a handle in the current scope. A handle that does not
    /// resolve (for instance, one created inside a rolled-back frame)
    /// yields a typed `MissingValue` error, never an invalid access.
    pub fn get_object(&self, h: u32) -> (r: Result<&HostObject, HostError>)
        ensures
            r is Ok <==> h < self.objects@.len(),
            r matches Ok(o) ==> *o == self.objects@[h as int],
            r matches Err(e) ==> e.error == (Error {
                etype: ScErrorType::Object,
                code: ScErrorCode::MissingValue,
            }),
    {
        if (h as usize) < self.objects.len() {
            Ok(&self.objects[h as usize])
        } else {
            Err(crate::errors::host_err(ScErrorType::Object, ScErrorCode::MissingValue))
        }
    }

    /// Number of frames currently on the stack.
    pub fn frame_depth(&self) -> (r: usize)
        ensures
            r == self.frames@.len(),
    {
        self.frames.len()
    }

    /// Number of objects currently in the store.
    pub fn object_count(&self) -> (r: usize)
        ensures
            r == self.objects@.len(),
    {
        self.objects.len()
    }

    /// Enters a nested guest invocation: pushes the frame and records the
    /// store mark that a rollback will restore.
    pub fn push_frame(&mut self, frame: Frame)
        ensures
            final(self).objects == old(self).objects,
            final(self).budget == old(self).budget,
            final(self).frames@.len() == old(self).frames@.len() + 1,
            final(self).frames@.subrange(0, old(self).frames@.len() as int) == old(self).frames@,
            final(self).frames@.last().start == old(self).objects@.len(),
    {
        let start = self.objects.len();
        self.frames.push(FrameEntry { frame, start });
        proof {
            assert(self.frames@.subrange(0, old(self).frames@.len() as int) =~= old(self).frames@);
        }
    }

    /// Leaves the current invocation successfully: its objects persist in
    /// the enclosing scope.
    pub fn commit_frame(&mut self)
        requires
            old(self).frames@.len() > 0,
        ensures
            final(self).objects == old(self).objects,
            final(self).budget == old(self).budget,
            final(self).frames@ == old(self).frames@.subrange(
                0,
                old(self).frames@.len() - 1,
            ),
    {
        let _ = self.frames.pop();
    }

    /// Leaves the current invocation on failure: every object created since
    /// the frame was pushed is discarded, so the store is observably what it
    /// was before the invocation began. Budget consumption is not rolled
    /// back: the spend is real even for failed work.
    pub fn rollback_frame(&mut self)
        requires
            old(self).frames@.len() > 0,
        ensures
            final(self).budget == old(self).budget,
            final(self).frames@ == old(self).frames@.subrange(
                0,
                old(self).frames@.len() - 1,
            ),
            old(self).frames@.last().start <= old(self).objects@.len() ==> final(self).objects@
                == old(self).objects@.subrange(0, old(self).frames@.last().start as int),
            old(self).frames@.last().start > old(self).objects@.len() ==> final(self).objects@
                == old(self).objects@,
    {
        let e = self.frames.pop();
        match e {
            Some(entry) => {
                self.objects.truncate(entry.start);
            },
            None => {},
        }
    }
}

/// Frame atomicity: host operations only append to the store, so a store
/// reached during a frame has the frame's mark as a prefix; rolling back
/// truncates to that mark, restoring exactly the store from before the
/// push, and any handle created during the frame no longer resolves.
pub proof fn lemma_rollback_restores(
    pre: Seq<HostObject>,
    during: Seq<HostObject>,
    h: u32,
)
    requires
        during.len() >= pre.len(),
        during.subrange(0, pre.len() as int) == pre,
        h >= pre.len(),
    ensures
        during.subrange(0, pre.len() as int) == pre,
        den_val(pre, Val::Object(h)) is None,
{
}

} // verus!
