//! Bidirectional conversion between host values and wire-format trees.
//!
//! `to_value` turns a wire-format tree into a `Val` backed by freshly
//! allocated host objects, rejecting invalid trees with typed errors and
//! charging every allocation to the budget. `from_value` reads a `Val`
//! back into the tree its denotation ([`crate::host::den_val`]) prescribes.
//! Together their contracts give the round-trip law: converting a valid
//! tree in and out yields the identical tree.

use vstd::prelude::*;
use core::cmp::Ordering;
use crate::errors::{HostError, ScErrorCode, ScErrorType};
use crate::host::{
    alloc_cost, budget_evolves, den_entries, den_list, den_val, lemma_den_entries_build,
    lemma_den_entries_props, lemma_den_extend, lemma_den_list_build, lemma_den_list_props,
    obj_refs_below, obj_size, spec_obj_size, Host, HostObject, MapPair,
};
use crate::scval::{
    check_symbol, cmp_m, cmp_scval, lemma_scm_entries_index, lemma_scm_entries_len,
    lemma_scm_list_index, lemma_scm_list_len, lemma_tree_nodes_entries_take,
    lemma_tree_nodes_list_take, lemma_valid_entries_build, lemma_valid_entries_index,
    lemma_valid_list_build, lemma_valid_list_index, scm, scm_entries, scm_list,
    strictly_sorted_keys, tree_nodes, tree_nodes_entries, tree_nodes_list, valid_entries,
    valid_list, valid_scval, AddrM, ScAddress, ScMapEntry, ScVal, ScValM,
};
use crate::val::{val_measure, val_ref_below, val_ref_below_exec, Val};

verus! {

/// Copies a byte vector element by element.
pub fn copy_bytes(src: &Vec<u8>) -> (r: Vec<u8>)
    ensures
        r@ == src@,
{
    let mut out: Vec<u8> = Vec::new();
    let mut i: usize = 0;
    while i < src.len()
        invariant
            0 <= i <= src@.len(),
            out@ == src@.take(i as int),
        decreases src@.len() - i,
    {
        out.push(src[i]);
        proof {
            assert(out@ =~= src@.take(i + 1));
        }
        i = i + 1;
    }
    proof {
        assert(out@ =~= src@);
    }
    out
}

/// One step of reading an object out of the store: either the finished
/// tree node, or the element values still to be converted.
enum FromStep {
    Done(ScVal),
    Kids(Vec<Val>),
    Pairs(Vec<MapPair>),
}

impl Host {
    /// Reads the object behind a resolvable handle as a [`FromStep`].
    fn read_object_step(&self, h: u32) -> (r: FromStep)
        requires
            h < self.objects@.len(),
        ensures
            (match self.objects@[h as int] {
                HostObject::U128(p) => r == FromStep::Done(ScVal::U128(p)),
                HostObject::I128(p) => r == FromStep::Done(ScVal::I128(p)),
                HostObject::U256(p) => r == FromStep::Done(ScVal::U256(p)),
                HostObject::I256(p) => r == FromStep::Done(ScVal::I256(p)),
                HostObject::Bytes(b) => r matches FromStep::Done(v) && v matches ScVal::Bytes(bb)
                    && bb@ == b@,
                HostObject::Text(b) => r matches FromStep::Done(v) && v matches ScVal::Text(bb)
                    && bb@ == b@,
                HostObject::Symbol(b) => r matches FromStep::Done(v) && v matches ScVal::Symbol(
                    bb,
                ) && bb@ == b@,
                HostObject::Vector(xs) => r matches FromStep::Kids(k) && k@ == xs@,
                HostObject::Mapping(ps) => r matches FromStep::Pairs(pp) && pp@ == ps@,
                HostObject::Address(a) => r matches FromStep::Done(v) && v matches ScVal::Address(
                    aa,
                ) && aa.contract == a.contract && aa.id@ == a.id@,
            }),
    {
        match &self.objects[h as usize] {
            HostObject::U128(p) => FromStep::Done(ScVal::U128(*p)),
            HostObject::I128(p) => FromStep::Done(ScVal::I128(*p)),
            HostObject::U256(p) => FromStep::Done(ScVal::U256(*p)),
            HostObject::I256(p) => FromStep::Done(ScVal::I256(*p)),
            HostObject::Bytes(b) => FromStep::Done(ScVal::Bytes(copy_bytes(b))),
            HostObject::Text(b) => FromStep::Done(ScVal::Text(copy_bytes(b))),
            HostObject::Symbol(b) => FromStep::Done(ScVal::Symbol(copy_bytes(b))),
            HostObject::Vector(xs) => {
                let mut out: Vec<Val> = Vec::new();
                let mut i: usize = 0;
                while i < xs.len()
                    invariant
                        0 <= i <= xs@.len(),
                        out@ == xs@.take(i as int),
                    decreases xs@.len() - i,
                {
                    out.push(xs[i]);
                    proof {
                        assert(out@ =~= xs@.take(i + 1));
                    }
                    i = i + 1;
                }
                proof {
                    assert(out@ =~= xs@);
                }
                FromStep::Kids(out)
            },
            HostObject::Mapping(ps) => {
                let mut out: Vec<MapPair> = Vec::new();
                let mut i: usize = 0;
                while i < ps.len()
                    invariant
                        0 <= i <= ps@.len(),
                        out@ == ps@.take(i as int),
                    decreases ps@.len() - i,
                {
                    out.push(ps[i]);
                    proof {
                        assert(out@ =~= ps@.take(i + 1));
                    }
                    i = i + 1;
                }
                proof {
                    assert(out@ =~= ps@);
                }
                FromStep::Pairs(out)
            },
            HostObject::Address(a) => FromStep::Done(
                ScVal::Address(ScAddress { contract: a.contract, id: copy_bytes(&a.id) }),
            ),
        }
    }

    /// Converts a host value back to the wire-format tree it denotes.
    ///
    /// Sound: an `Ok` result is exactly the denotation of `x` in the
    /// current store. Complete: with an unlimited budget, every denotable
    /// value converts. The store is never changed, and no error is ever
    /// internal: a dangling handle yields `MissingValue`, a stored
    /// reference that fails to decrease yields `InvalidInput`, and an
    /// exhausted budget yields `ExceededLimit`.
    pub fn from_value(&mut self, x: Val) -> (r: Result<ScVal, HostError>)
        ensures
            final(self).objects == old(self).objects,
            final(self).frames == old(self).frames,
            budget_evolves(old(self).budget, final(self).budget),
            r matches Ok(v) ==> den_val(old(self).objects@, x) == Some(scm(v)),
            r matches Err(e) ==> (e.error.code == ScErrorCode::ExceededLimit || e.error.code
                == ScErrorCode::MissingValue || e.error.code == ScErrorCode::InvalidInput),
            old(self).budget.unlimited && den_val(old(self).objects@, x) is Some ==> r is Ok,
            r matches Err(e) && e.error.code != ScErrorCode::ExceededLimit ==> den_val(
                old(self).objects@,
                x,
            ) is None,
        decreases val_measure(x), 1nat,
    {
        match x {
            Val::Bool(b) => Ok(ScVal::Bool(b)),
            Val::Void => Ok(ScVal::Void),
            Val::U32(n) => Ok(ScVal::U32(n)),
            Val::I32(n) => Ok(ScVal::I32(n)),
            Val::U64(n) => Ok(ScVal::U64(n)),
            Val::I64(n) => Ok(ScVal::I64(n)),
            Val::Timepoint(n) => Ok(ScVal::Timepoint(n)),
            Val::Duration(n) => Ok(ScVal::Duration(n)),
            Val::Status(e) => Ok(ScVal::Error(e)),
            Val::Object(h) => self.from_object(h),
        }
    }

    /// Converts the object behind a handle back to a wire-format tree; the
    /// recursive part of [`Host::from_value`].
    #[verifier::rlimit(100)]
    fn from_object(&mut self, h: u32) -> (r: Result<ScVal, HostError>)
        ensures
            final(self).objects == old(self).objects,
            final(self).frames == old(self).frames,
            budget_evolves(old(self).budget, final(self).budget),
            r matches Ok(v) ==> den_val(old(self).objects@, Val::Object(h)) == Some(scm(v)),
            r matches Err(e) ==> (e.error.code == ScErrorCode::ExceededLimit || e.error.code
                == ScErrorCode::MissingValue || e.error.code == ScErrorCode::InvalidInput),
            old(self).budget.unlimited && den_val(old(self).objects@, Val::Object(h)) is Some
                ==> r is Ok,
            r matches Err(e) && e.error.code != ScErrorCode::ExceededLimit ==> den_val(
                old(self).objects@,
                Val::Object(h),
            ) is None,
        decreases h, 2nat,
    {
        if h as usize >= self.objects.len() {
            return Err(crate::errors::host_err(ScErrorType::Object, ScErrorCode::MissingValue));
        }
        let size = obj_size(&self.objects[h as usize]);
        let cpu = crate::budget::sat_add_u64(1, size);
        self.charge(cpu, 0)?;
        let step = self.read_object_step(h);
        let ghost s = self.objects@;
        match step {
            FromStep::Done(v) => Ok(v),
            FromStep::Kids(kids) => {
                let ghost dlist = den_list(s, kids@, h as nat);
                let mut out: Vec<ScVal> = Vec::new();
                let mut i: usize = 0;
                while i < kids.len()
                    invariant
                        0 <= i <= kids@.len(),
                        self.objects@ == s,
                        self.frames == old(self).frames,
                        self.objects == old(self).objects,
                        s[h as int] matches HostObject::Vector(xs) && xs@ == kids@,
                        h < s.len(),
                        budget_evolves(old(self).budget, self.budget),
                        out@.len() == i,
                        forall|j: int| 0 <= j < i ==> val_ref_below(
                            #[trigger] kids@[j],
                            h as int,
                        ) && den_val(s, kids@[j]) == Some(scm(out@[j])),
                    decreases kids@.len() - i,
                {
                    if !val_ref_below_exec(kids[i], h as usize) {
                        proof {
                            match den_list(s, kids@, h as nat) {
                                Some(ms) => lemma_den_list_props(s, kids@, h as nat, ms),
                                None => (),
                            }
                        }
                        return Err(
                            crate::errors::host_err(ScErrorType::Object, ScErrorCode::InvalidInput),
                        );
                    }
                    let rr = self.from_value(kids[i]);
                    match rr {
                        Ok(v) => {
                            out.push(v);
                            i = i + 1;
                        },
                        Err(e) => {
                            proof {
                                match den_list(s, kids@, h as nat) {
                                    Some(ms) => lemma_den_list_props(s, kids@, h as nat, ms),
                                    None => (),
                                }
                            }
                            return Err(e);
                        },
                    }
                }
                proof {
                    lemma_scm_list_len(out@);
                    assert forall|j: int| 0 <= j < kids@.len() implies val_ref_below(
                        #[trigger] kids@[j],
                        h as int,
                    ) && den_val(s, kids@[j]) == Some(scm_list(out@)[j]) by {
                        lemma_scm_list_index(out@, j);
                    }
                    lemma_den_list_build(s, kids@, h as nat, scm_list(out@));
                }
                Ok(ScVal::Vector(Some(out)))
            },
            FromStep::Pairs(pairs) => {
                let mut out: Vec<ScMapEntry> = Vec::new();
                let mut i: usize = 0;
                while i < pairs.len()
                    invariant
                        0 <= i <= pairs@.len(),
                        self.objects@ == s,
                        self.frames == old(self).frames,
                        self.objects == old(self).objects,
                        s[h as int] matches HostObject::Mapping(ps) && ps@ == pairs@,
                        h < s.len(),
                        budget_evolves(old(self).budget, self.budget),
                        out@.len() == i,
                        forall|j: int| 0 <= j < i ==> val_ref_below(
                            (#[trigger] pairs@[j]).key,
                            h as int,
                        ) && val_ref_below(pairs@[j].val, h as int) && den_val(s, pairs@[j].key)
                            == Some(scm(out@[j].key)) && den_val(s, pairs@[j].val) == Some(
                            scm(out@[j].val),
                        ),
                    decreases pairs@.len() - i,
                {
                    if !(val_ref_below_exec(pairs[i].key, h as usize) && val_ref_below_exec(
                        pairs[i].val,
                        h as usize,
                    )) {
                        proof {
                            match den_entries(s, pairs@, h as nat) {
                                Some(ms) => lemma_den_entries_props(s, pairs@, h as nat, ms),
                                None => (),
                            }
                        }
                        return Err(
                            crate::errors::host_err(ScErrorType::Object, ScErrorCode::InvalidInput),
                        );
                    }
                    let rk = self.from_value(pairs[i].key);
                    let k = match rk {
                        Ok(v) => v,
                        Err(e) => {
                            proof {
                                match den_entries(s, pairs@, h as nat) {
                                    Some(ms) => lemma_den_entries_props(s, pairs@, h as nat, ms),
                                    None => (),
                                }
                            }
                            return Err(e);
                        },
                    };
                    let rv = self.from_value(pairs[i].val);
                    let v = match rv {
                        Ok(v) => v,
                        Err(e) => {
                            proof {
                                match den_entries(s, pairs@, h as nat) {
                                    Some(ms) => lemma_den_entries_props(s, pairs@, h as nat, ms),
                                    None => (),
                                }
                            }
                            return Err(e);
                        },
                    };
                    out.push(ScMapEntry { key: k, val: v });
                    i = i + 1;
                }
                proof {
                    lemma_scm_entries_len(out@);
                    assert forall|j: int| 0 <= j < pairs@.len() implies val_ref_below(
                        (#[trigger] pairs@[j]).key,
                        h as int,
                    ) && val_ref_below(pairs@[j].val, h as int) && den_val(s, pairs@[j].key)
                        == Some(scm_entries(out@)[j].0) && den_val(s, pairs@[j].val) == Some(
                        scm_entries(out@)[j].1,
                    ) by {
                        lemma_scm_entries_index(out@, j);
                    }
                    lemma_den_entries_build(s, pairs@, h as nat, scm_entries(out@));
                }
                Ok(ScVal::Mapping(Some(out)))
            },
        }
    }
}



/// Prefix extension is transitive on stores.
pub proof fn lemma_prefix_trans(s0: Seq<HostObject>, s1: Seq<HostObject>, s2: Seq<HostObject>)
    requires
        s0.len() <= s1.len(),
        s1.len() <= s2.len(),
        s1.subrange(0, s0.len() as int) == s0,
        s2.subrange(0, s1.len() as int) == s1,
    ensures
        s2.subrange(0, s0.len() as int) == s0,
{
    assert forall|k: int| 0 <= k < s0.len() implies s2[k] == s0[k] by {
        assert(s1[k] == s1.subrange(0, s0.len() as int)[k]);
        assert(s2[k] == s2.subrange(0, s1.len() as int)[k]);
    }
    assert(s2.subrange(0, s0.len() as int) =~= s0);
}

impl Host {
    /// Converts a wire-format tree into a host value, allocating charged
    /// host objects for every heap-resident node.
    ///
    /// Fallible and total over trees: an invalid tree (bad symbol, absent
    /// vector or map body, unsorted or duplicate map keys, malformed
    /// address) is rejected with a typed `InvalidInput`/`UnexpectedType`
    /// error, an exhausted budget with `ExceededLimit`; nothing panics and
    /// no error is internal. On success the result denotes exactly the
    /// given tree in the extended store, and with an unlimited budget and
    /// room for fresh handles, success is guaranteed on every valid tree.
    pub fn to_value(&mut self, v: &ScVal) -> (r: Result<Val, HostError>)
        ensures
            final(self).frames == old(self).frames,
            budget_evolves(old(self).budget, final(self).budget),
            old(self).objects@.len() <= final(self).objects@.len(),
            final(self).objects@.subrange(0, old(self).objects@.len() as int) == old(
                self,
            ).objects@,
            r matches Ok(x) ==> den_val(final(self).objects@, x) == Some(scm(*v)) && valid_scval(
                scm(*v),
            ) && val_ref_below(x, final(self).objects@.len() as int),
            r matches Err(e) ==> (e.error.code == ScErrorCode::ExceededLimit || e.error.code
                == ScErrorCode::InvalidInput || e.error.code == ScErrorCode::UnexpectedType),
            final(self).objects@.len() <= old(self).objects@.len() + tree_nodes(scm(*v)),
            (old(self).budget.unlimited && valid_scval(scm(*v)) && old(self).objects@.len()
                + tree_nodes(scm(*v)) <= u32::MAX) ==> r is Ok,
        decreases *v, 1nat,
    {
        match v {
            ScVal::Bool(b) => {
                self.charge(1, 0)?;
                Ok(Val::Bool(*b))
            },
            ScVal::Void => {
                self.charge(1, 0)?;
                Ok(Val::Void)
            },
            ScVal::Error(e) => {
                self.charge(1, 0)?;
                Ok(Val::Status(*e))
            },
            ScVal::U32(n) => {
                self.charge(1, 0)?;
                Ok(Val::U32(*n))
            },
            ScVal::I32(n) => {
                self.charge(1, 0)?;
                Ok(Val::I32(*n))
            },
            ScVal::U64(n) => {
                self.charge(1, 0)?;
                Ok(Val::U64(*n))
            },
            ScVal::I64(n) => {
                self.charge(1, 0)?;
                Ok(Val::I64(*n))
            },
            ScVal::Timepoint(n) => {
                self.charge(1, 0)?;
                Ok(Val::Timepoint(*n))
            },
            ScVal::Duration(n) => {
                self.charge(1, 0)?;
                Ok(Val::Duration(*n))
            },
            ScVal::U128(p) => self.add_host_object(HostObject::U128(*p)),
            ScVal::I128(p) => self.add_host_object(HostObject::I128(*p)),
            ScVal::U256(p) => self.add_host_object(HostObject::U256(*p)),
            ScVal::I256(p) => self.add_host_object(HostObject::I256(*p)),
            ScVal::Bytes(b) => self.add_host_object(HostObject::Bytes(copy_bytes(b))),
            ScVal::Text(b) => self.add_host_object(HostObject::Text(copy_bytes(b))),
            ScVal::Symbol(b) => {
                if !check_symbol(b) {
                    return Err(
                        crate::errors::host_err(ScErrorType::Value, ScErrorCode::InvalidInput),
                    );
                }
                self.add_host_object(HostObject::Symbol(copy_bytes(b)))
            },
            ScVal::Address(a) => {
                if a.id.len() != 32 {
                    return Err(
                        crate::errors::host_err(ScErrorType::Value, ScErrorCode::InvalidInput),
                    );
                }
                self.add_host_object(
                    HostObject::Address(ScAddress { contract: a.contract, id: copy_bytes(&a.id) }),
                )
            },
            ScVal::Vector(Some(xs)) => self.to_value_vec(xs),
            ScVal::Vector(None) => Err(
                crate::errors::host_err(ScErrorType::Value, ScErrorCode::UnexpectedType),
            ),
            ScVal::Mapping(Some(es)) => self.to_value_map(es),
            ScVal::Mapping(None) => Err(
                crate::errors::host_err(ScErrorType::Value, ScErrorCode::UnexpectedType),
            ),
        }
    }

    /// Converts the elements of a wire-format vector and allocates the
    /// backing host object; the vector half of [`Host::to_value`].
    #[verifier::rlimit(100)]
    #[verifier::spinoff_prover]
    fn to_value_vec(&mut self, xs: &Vec<ScVal>) -> (r: Result<Val, HostError>)
        ensures
            final(self).frames == old(self).frames,
            budget_evolves(old(self).budget, final(self).budget),
            old(self).objects@.len() <= final(self).objects@.len(),
            final(self).objects@.subrange(0, old(self).objects@.len() as int) == old(
                self,
            ).objects@,
            r matches Ok(x) ==> den_val(final(self).objects@, x) == Some(
                ScValM::Vector(Some(scm_list(xs@))),
            ) && valid_scval(ScValM::Vector(Some(scm_list(xs@)))) && val_ref_below(
                x,
                final(self).objects@.len() as int,
            ),
            r matches Err(e) ==> (e.error.code == ScErrorCode::ExceededLimit || e.error.code
                == ScErrorCode::InvalidInput || e.error.code == ScErrorCode::UnexpectedType),
            final(self).objects@.len() <= old(self).objects@.len() + 1 + tree_nodes_list(
                scm_list(xs@),
            ),
            (old(self).budget.unlimited && valid_list(scm_list(xs@)) && old(self).objects@.len()
                + 1 + tree_nodes_list(scm_list(xs@)) <= u32::MAX) ==> r is Ok,
        decreases *xs, 0nat,
    {
        let ghost s0 = old(self).objects@;
        let ghost ms = scm_list(xs@);
        proof {
            lemma_scm_list_len(xs@);
        }
        proof {
        assert(ms.take(0) =~= Seq::<ScValM>::empty());
        }
        let mut vals: Vec<Val> = Vec::new();
        let mut i: usize = 0;
        while i < xs.len()
            invariant
                0 <= i <= xs@.len(),
                s0 == old(self).objects@,
                ms == scm_list(xs@),
                ms.len() == xs@.len(),
                self.frames == old(self).frames,
                budget_evolves(old(self).budget, self.budget),
                self.budget.unlimited == old(self).budget.unlimited,
                s0.len() <= self.objects@.len(),
                self.objects@.len() <= s0.len() + tree_nodes_list(ms.take(i as int)),
                self.objects@.subrange(0, s0.len() as int) == s0,
                vals@.len() == i,
                forall|j: int| 0 <= j < i ==> val_ref_below(
                    #[trigger] vals@[j],
                    self.objects@.len() as int,
                ) && den_val(self.objects@, vals@[j]) == Some(ms[j]),
                forall|j: int| 0 <= j < i ==> valid_scval(#[trigger] ms[j]),
            decreases xs@.len() - i,
        {
            let ghost s_pre = self.objects@;
            let rr = self.to_value(&xs[i]);
            proof {
                lemma_scm_list_index(xs@, i as int);
            }
            match rr {
                Ok(x) => {
                    proof {
                        assert forall|j: int| 0 <= j < i implies val_ref_below(
                            #[trigger] vals@[j],
                            self.objects@.len() as int,
                        ) && den_val(self.objects@, vals@[j]) == Some(ms[j]) by {
                            lemma_den_extend(s_pre, self.objects@, vals@[j]);
                        }
                        lemma_prefix_trans(s0, s_pre, self.objects@);
                        lemma_tree_nodes_list_take(ms, i as int);
                    }
                    vals.push(x);
                    i = i + 1;
                },
                Err(e) => {
                    proof {
                        lemma_prefix_trans(s0, s_pre, self.objects@);
                        lemma_tree_nodes_list_take(ms, i as int);
                        if old(self).budget.unlimited && valid_list(ms) && s0.len() + 1
                            + tree_nodes_list(ms) <= u32::MAX {
                            lemma_valid_list_index(ms, i as int);
                            assert(false);
                        }
                    }
                    return Err(e);
                },
            }
        }
        let ghost s1 = self.objects@;
        let ghost vseq = vals@;
        proof {
            assert(ms.take(xs@.len() as int) =~= ms);
        }
        let rr = self.add_host_object(HostObject::Vector(vals));
        match rr {
            Ok(xv) => {
                proof {
                    let s2 = self.objects@;
                    let h = s1.len() as int;
                    assert(s2.subrange(0, h) =~= s1);
                    assert forall|j: int| 0 <= j < vseq.len() implies val_ref_below(
                        #[trigger] vseq[j],
                        h,
                    ) && den_val(s2, vseq[j]) == Some(ms[j]) by {
                        lemma_den_extend(s1, s2, vseq[j]);
                    }
                    lemma_den_list_build(s2, vseq, h as nat, ms);
                    lemma_valid_list_build(ms);
                    lemma_prefix_trans(s0, s1, s2);
                }
                Ok(xv)
            },
            Err(e) => {
                proof {
                    if old(self).budget.unlimited && valid_list(ms) && s0.len() + 1
                        + tree_nodes_list(ms) <= u32::MAX {
                        assert(false);
                    }
                }
                Err(e)
            },
        }
    }

}


/// The first `i` converted pairs reference only existing handles and
/// denote the corresponding model entries.
pub open spec fn pairs_den_ok(
    s: Seq<HostObject>,
    pairs: Seq<MapPair>,
    ms: Seq<(ScValM, ScValM)>,
    i: int,
) -> bool {
    forall|j: int| 0 <= j < i ==> val_ref_below((#[trigger] pairs[j]).key, s.len() as int)
        && val_ref_below(pairs[j].val, s.len() as int) && den_val(s, pairs[j].key) == Some(
        ms[j].0,
    ) && den_val(s, pairs[j].val) == Some(ms[j].1)
}

pub proof fn lemma_pairs_den_extend(
    s1: Seq<HostObject>,
    s2: Seq<HostObject>,
    pairs: Seq<MapPair>,
    ms: Seq<(ScValM, ScValM)>,
    i: int,
)
    requires
        s1.len() <= s2.len(),
        s2.subrange(0, s1.len() as int) == s1,
        0 <= i <= pairs.len(),
        i <= ms.len(),
        pairs_den_ok(s1, pairs, ms, i),
    ensures
        pairs_den_ok(s2, pairs, ms, i),
{
    assert forall|j: int| 0 <= j < i implies val_ref_below(
        (#[trigger] pairs[j]).key,
        s2.len() as int,
    ) && val_ref_below(pairs[j].val, s2.len() as int) && den_val(s2, pairs[j].key) == Some(
        ms[j].0,
    ) && den_val(s2, pairs[j].val) == Some(ms[j].1) by {
        lemma_den_extend(s1, s2, pairs[j].key);
        lemma_den_extend(s1, s2, pairs[j].val);
    }
}


/// One map key strictly precedes another under the tree comparator.
/// Kept opaque so the comparator's definition does not unfold at every
/// use inside the conversion loop.
#[verifier::opaque]
pub open spec fn key_less(a: (ScValM, ScValM), b: (ScValM, ScValM)) -> bool {
    cmp_m(a.0, b.0) == Ordering::Less
}

pub proof fn lemma_sorted_from_key_less(ms: Seq<(ScValM, ScValM)>)
    requires
        forall|j: int| 0 <= j < ms.len() - 1 ==> key_less(#[trigger] ms[j], ms[j + 1]),
    ensures
        strictly_sorted_keys(ms),
{
    reveal(key_less);
    reveal(strictly_sorted_keys);
    assert forall|i: int| 0 <= i < ms.len() - 1 implies cmp_m((#[trigger] ms[i]).0, ms[i + 1].0)
        == Ordering::Less by {
        assert(key_less(ms[i], ms[i + 1]));
    }
}

impl Host {
    /// Converts one map entry: its key, then its value.
    #[verifier::rlimit(50)]
    fn to_value_pair(&mut self, e: &ScMapEntry) -> (r: Result<(Val, Val), HostError>)
        ensures
            final(self).frames == old(self).frames,
            budget_evolves(old(self).budget, final(self).budget),
            old(self).objects@.len() <= final(self).objects@.len(),
            final(self).objects@.subrange(0, old(self).objects@.len() as int) == old(
                self,
            ).objects@,
            r matches Ok(p) ==> den_val(final(self).objects@, p.0) == Some(scm(e.key)) && den_val(
                final(self).objects@,
                p.1,
            ) == Some(scm(e.val)) && valid_scval(scm(e.key)) && valid_scval(scm(e.val))
                && val_ref_below(p.0, final(self).objects@.len() as int) && val_ref_below(
                p.1,
                final(self).objects@.len() as int,
            ),
            r matches Err(err) ==> (err.error.code == ScErrorCode::ExceededLimit
                || err.error.code == ScErrorCode::InvalidInput || err.error.code
                == ScErrorCode::UnexpectedType),
            final(self).objects@.len() <= old(self).objects@.len() + tree_nodes(scm(e.key))
                + tree_nodes(scm(e.val)),
            (old(self).budget.unlimited && valid_scval(scm(e.key)) && valid_scval(scm(e.val))
                && old(self).objects@.len() + tree_nodes(scm(e.key)) + tree_nodes(scm(e.val))
                <= u32::MAX) ==> r is Ok,
        decreases *e, 1nat,
    {
        let ghost s0 = old(self).objects@;
        let k = self.to_value(&e.key)?;
        let ghost s_mid = self.objects@;
        let rv = self.to_value(&e.val);
        match rv {
            Ok(v) => {
                proof {
                    lemma_den_extend(s_mid, self.objects@, k);
                    lemma_prefix_trans(s0, s_mid, self.objects@);
                }
                Ok((k, v))
            },
            Err(err) => {
                proof {
                    lemma_prefix_trans(s0, s_mid, self.objects@);
                }
                Err(err)
            },
        }
    }

    /// Converts the entries of a wire-format map, enforcing strictly sorted
    /// keys, and allocates the backing host object; the map half of
    /// [`Host::to_value`].
    #[verifier::rlimit(100)]
    #[verifier::spinoff_prover]
    fn to_value_map(&mut self, es: &Vec<ScMapEntry>) -> (r: Result<Val, HostError>)
        ensures
            final(self).frames == old(self).frames,
            budget_evolves(old(self).budget, final(self).budget),
            old(self).objects@.len() <= final(self).objects@.len(),
            final(self).objects@.subrange(0, old(self).objects@.len() as int) == old(
                self,
            ).objects@,
            r matches Ok(x) ==> den_val(final(self).objects@, x) == Some(
                ScValM::Mapping(Some(scm_entries(es@))),
            ) && valid_scval(ScValM::Mapping(Some(scm_entries(es@)))) && val_ref_below(
                x,
                final(self).objects@.len() as int,
            ),
            r matches Err(e) ==> (e.error.code == ScErrorCode::ExceededLimit || e.error.code
                == ScErrorCode::InvalidInput || e.error.code == ScErrorCode::UnexpectedType),
            final(self).objects@.len() <= old(self).objects@.len() + 1 + tree_nodes_entries(
                scm_entries(es@),
            ),
            (old(self).budget.unlimited && valid_entries(scm_entries(es@)) && strictly_sorted_keys(
                scm_entries(es@),
            ) && old(self).objects@.len() + 1 + tree_nodes_entries(scm_entries(es@)) <= u32::MAX)
                ==> r is Ok,
        decreases *es, 0nat,
    {
        let ghost s0 = old(self).objects@;
        let ghost ms = scm_entries(es@);
        let ghost whole = ScValM::Mapping(Some(ms));
        proof {
            lemma_scm_entries_len(es@);
        }
        proof {
        assert(ms.take(0) =~= Seq::<(ScValM, ScValM)>::empty());
        }
        let mut pairs: Vec<MapPair> = Vec::new();
        let mut i: usize = 0;
        while i < es.len()
            invariant
                0 <= i <= es@.len(),
                s0 == old(self).objects@,
                ms == scm_entries(es@),
                ms.len() == es@.len(),
                whole == ScValM::Mapping(Some(ms)),
                self.frames == old(self).frames,
                budget_evolves(old(self).budget, self.budget),
                self.budget.unlimited == old(self).budget.unlimited,
                s0.len() <= self.objects@.len(),
                self.objects@.len() <= s0.len() + tree_nodes_entries(ms.take(i as int)),
                self.objects@.subrange(0, s0.len() as int) == s0,
                pairs@.len() == i,
                pairs_den_ok(self.objects@, pairs@, ms, i as int),
                forall|j: int| 0 <= j < i ==> valid_scval((#[trigger] ms[j]).0) && valid_scval(
                    ms[j].1,
                ),
                forall|j: int| 0 <= j < i - 1 ==> key_less(#[trigger] ms[j], ms[j + 1]),
            decreases es@.len() - i,
        {
            proof {
                lemma_scm_entries_index(es@, i as int);
                if i > 0 {
                    lemma_scm_entries_index(es@, i as int - 1);
                }
            }
            if i > 0 {
                let o = cmp_scval(&es[i - 1].key, &es[i].key);
                match o {
                    Ordering::Less => {
                        proof {
                            reveal(key_less);
                            assert(key_less(ms[i as int - 1], ms[i as int]));
                        }
                    },
                    _ => {
                        proof {
                            crate::scval::lemma_tree_nodes_entries_prefix(ms, i as int);
                            if strictly_sorted_keys(ms) {
                                reveal(strictly_sorted_keys);
                                assert(false);
                            }
                        }
                        return Err(
                            crate::errors::host_err(ScErrorType::Value, ScErrorCode::InvalidInput),
                        );
                    },
                }
            }
            let ghost s_pre = self.objects@;
            let rr = self.to_value_pair(&es[i]);
            let p = match rr {
                Ok(p) => p,
                Err(e) => {
                    proof {
                        lemma_prefix_trans(s0, s_pre, self.objects@);
                        lemma_tree_nodes_entries_take(ms, i as int);
                        if old(self).budget.unlimited && valid_entries(ms) && s0.len() + 1
                            + tree_nodes_entries(ms) <= u32::MAX {
                            lemma_valid_entries_index(ms, i as int);
                            assert(false);
                        }
                    }
                    return Err(e);
                },
            };
            proof {
                lemma_pairs_den_extend(s_pre, self.objects@, pairs@, ms, i as int);
                lemma_prefix_trans(s0, s_pre, self.objects@);
                lemma_tree_nodes_entries_take(ms, i as int);
            }
            pairs.push(MapPair { key: p.0, val: p.1 });
            i = i + 1;
        }
        let ghost s1 = self.objects@;
        let ghost pseq = pairs@;
        proof {
            assert(ms.take(es@.len() as int) =~= ms);
        }
        let rr = self.add_host_object(HostObject::Mapping(pairs));
        match rr {
            Ok(xv) => {
                proof {
                    let s2 = self.objects@;
                    let h = s1.len() as int;
                    assert(s2.subrange(0, h) =~= s1);
                    lemma_pairs_den_extend(s1, s2, pseq, ms, pseq.len() as int);
                    lemma_den_entries_build(s2, pseq, h as nat, ms);
                    lemma_valid_entries_build(ms);
                    lemma_sorted_from_key_less(ms);
                    lemma_prefix_trans(s0, s1, s2);
                }
                Ok(xv)
            },
            Err(e) => {
                proof {
                    if old(self).budget.unlimited && valid_entries(ms) && s0.len() + 1
                        + tree_nodes_entries(ms) <= u32::MAX {
                        assert(false);
                    }
                }
                Err(e)
            },
        }
    }
}


impl Host {
    /// The Budget-metered comparator over host values: resolves both values
    /// to the trees they denote and compares those with the tree
    /// comparator. Its result therefore agrees with [`cmp_m`] by contract.
    pub fn compare(&mut self, a: Val, b: Val) -> (r: Result<Ordering, HostError>)
        ensures
            final(self).objects == old(self).objects,
            final(self).frames == old(self).frames,
            budget_evolves(old(self).budget, final(self).budget),
            r matches Ok(o) ==> den_val(old(self).objects@, a) matches Some(ma) && den_val(
                old(self).objects@,
                b,
            ) matches Some(mb) && o == cmp_m(ma, mb),
            r matches Err(e) ==> (e.error.code == ScErrorCode::ExceededLimit || e.error.code
                == ScErrorCode::MissingValue || e.error.code == ScErrorCode::InvalidInput),
            (old(self).budget.unlimited && den_val(old(self).objects@, a) is Some && den_val(
                old(self).objects@,
                b,
            ) is Some) ==> r is Ok,
    {
        let va = self.from_value(a)?;
        let vb = self.from_value(b)?;
        Ok(cmp_scval(&va, &vb))
    }

    /// The comparator exposed to guest code: `-1`, `0` or `1`.
    pub fn obj_cmp(&mut self, a: Val, b: Val) -> (r: Result<i64, HostError>)
        ensures
            final(self).objects == old(self).objects,
            final(self).frames == old(self).frames,
            budget_evolves(old(self).budget, final(self).budget),
            r matches Ok(n) ==> den_val(old(self).objects@, a) matches Some(ma) && den_val(
                old(self).objects@,
                b,
            ) matches Some(mb) && n == (match cmp_m(ma, mb) {
                Ordering::Less => -1int,
                Ordering::Equal => 0int,
                Ordering::Greater => 1int,
            }),
            r matches Err(e) ==> (e.error.code == ScErrorCode::ExceededLimit || e.error.code
                == ScErrorCode::MissingValue || e.error.code == ScErrorCode::InvalidInput),
            (old(self).budget.unlimited && den_val(old(self).objects@, a) is Some && den_val(
                old(self).objects@,
                b,
            ) is Some) ==> r is Ok,
    {
        let o = self.compare(a, b)?;
        match o {
            Ordering::Less => Ok(-1),
            Ordering::Equal => Ok(0),
            Ordering::Greater => Ok(1),
        }
    }

    /// Converts a success-or-typed-error outcome into a host value: the
    /// success payload goes through the tree converter, an error payload
    /// makes the whole conversion fail with that error.
    pub fn result_to_val(&mut self, t: &Result<ScVal, crate::errors::Error>) -> (r: Result<
        Val,
        HostError,
    >)
        ensures
            final(self).frames == old(self).frames,
            budget_evolves(old(self).budget, final(self).budget),
            old(self).objects@.len() <= final(self).objects@.len(),
            final(self).objects@.subrange(0, old(self).objects@.len() as int) == old(
                self,
            ).objects@,
            t matches Ok(v) ==> (r matches Ok(x) ==> den_val(final(self).objects@, x) == Some(
                scm(*v),
            ) && valid_scval(scm(*v))),
            (t matches Ok(v) && old(self).budget.unlimited && valid_scval(scm(*v)) && old(self).objects@.len() + tree_nodes(scm(*v)) <= u32::MAX) ==> r is Ok,
            t matches Err(e) ==> r == Err::<Val, HostError>(HostError { error: *e }),
    {
        match t {
            Ok(v) => self.to_value(v),
            Err(e) => Err(HostError { error: *e }),
        }
    }

    /// Converts a host value into a success-or-typed-error outcome. A
    /// `Status` value becomes the error variant directly; any other value
    /// goes through the tree converter, and a failure there fails the whole
    /// conversion. A payload conversion failure is never reinterpreted as a
    /// successful error variant: that asymmetry is load-bearing.
    pub fn result_from_val(&mut self, x: Val) -> (r: Result<
        Result<ScVal, crate::errors::Error>,
        HostError,
    >)
        ensures
            final(self).objects == old(self).objects,
            final(self).frames == old(self).frames,
            budget_evolves(old(self).budget, final(self).budget),
            x matches Val::Status(e) ==> r == Ok::<Result<ScVal, crate::errors::Error>, HostError>(
                Err(e),
            ),
            !(x is Status) ==> (r matches Ok(inner) ==> inner matches Ok(v) && den_val(
                old(self).objects@,
                x,
            ) == Some(scm(v))),
            !(x is Status) && old(self).budget.unlimited && den_val(old(self).objects@, x)
                is Some ==> r is Ok,
            r matches Err(e) ==> (e.error.code == ScErrorCode::ExceededLimit || e.error.code
                == ScErrorCode::MissingValue || e.error.code == ScErrorCode::InvalidInput),
    {
        match x {
            Val::Status(e) => Ok(Err(e)),
            _ => {
                let v = self.from_value(x)?;
                Ok(Ok(v))
            },
        }
    }
}

/// Round-trip law. Converting a wire-format tree to a host value and back
/// yields the identical tree: `to_value` guarantees the result denotes the
/// input tree in the extended store, and `from_value` returns exactly that
/// denotation. Identity of the trees makes any deterministic re-encoding of
/// the reconstructed tree byte-identical to encoding the original. With
/// `to_value`'s completeness clause, a valid tree under an unlimited budget
/// and a store with room is owed the whole trip.
pub proof fn lemma_round_trip(s: Seq<HostObject>, x: Val, v: ScValM, w: ScValM)
    requires
        den_val(s, x) == Some(v),  // established by `to_value`
        den_val(s, x) == Some(w),  // what `from_value` returns, by its contract
    ensures
        w == v,
{
}

/// Comparator agreement. For wire-format trees `a` and `b` that convert to
/// host values `x` and `y` (in stores the conversions produced, both
/// extended into the current store `s`), the metered host comparison of `x`
/// and `y` returns exactly the tree comparison of `a` and `b`: `compare`
/// ensures its result is `cmp_m` of the denotations, and `to_value` ensures
/// those denotations are `a` and `b` themselves.
pub proof fn lemma_comparator_agreement(
    s: Seq<HostObject>,
    x: Val,
    y: Val,
    a: ScValM,
    b: ScValM,
    o: Ordering,
)
    requires
        den_val(s, x) == Some(a),
        den_val(s, y) == Some(b),
        den_val(s, x) matches Some(ma) && den_val(s, y) matches Some(mb) && o == cmp_m(ma, mb),
    ensures
        o == cmp_m(a, b),
{
}

} // verus!
