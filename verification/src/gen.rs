//! Structured generation of valid wire-format trees from a fuzzer's raw
//! byte stream.
//!
//! The byte stream is an `arbitrary::Unstructured`, reached only through
//! trusted wrappers; everything built from the drawn numbers is verified,
//! and the headline contract is that every generated tree satisfies
//! [`valid_scval`] — symbols stay inside their alphabet and length bound,
//! vector and map bodies are present, and map keys are strictly sorted.

use vstd::prelude::*;
use core::cmp::Ordering;
use arbitrary::Unstructured;
use crate::errors::{HostError, ScErrorCode, ScErrorType};
use crate::scval::{
    cmp_m, lemma_scm_entries_index, lemma_scm_entries_len, lemma_scm_list_index,
    lemma_scm_list_len, lemma_valid_entries_build, lemma_valid_list_build, scm, scm_entries,
    scm_list, strictly_sorted_keys, valid_scval, valid_symbol, valid_symbol_char, ScMapEntry,
    ScVal, ScValM, SCSYMBOL_LIMIT,
};

verus! {

#[verifier::external_type_specification]
#[verifier::external_body]
pub struct ExUnstructured<'a>(Unstructured<'a>);

/// The bytes an `Unstructured` stream still holds.
pub uninterp spec fn u_data(u: Unstructured) -> Seq<u8>;

/// Relies on `Unstructured::len`: the number of unread bytes.
#[verifier::external_body]
fn u_len(u: &Unstructured) -> (r: usize)
    ensures
        r == u_data(*u).len(),
{
    u.len()
}

/// Relies on `u32::arbitrary`, which fills a four-byte buffer through
/// `Unstructured::fill_buffer`: it never fails, consumes at most four
/// bytes from the front, and consumes at least one while bytes remain.
#[verifier::external_body]
fn u_arbitrary_u32(u: &mut Unstructured) -> (r: u32)
    ensures
        u_data(*final(u)).len() <= u_data(*old(u)).len(),
        u_data(*old(u)).len() > 0 ==> u_data(*final(u)).len() < u_data(*old(u)).len(),
{
    <u32 as arbitrary::Arbitrary>::arbitrary(u).unwrap_or(0)
}

/// Relies on `u64::arbitrary`; same shape as the 32-bit draw with an
/// eight-byte buffer.
#[verifier::external_body]
fn u_arbitrary_u64(u: &mut Unstructured) -> (r: u64)
    ensures
        u_data(*final(u)).len() <= u_data(*old(u)).len(),
        u_data(*old(u)).len() > 0 ==> u_data(*final(u)).len() < u_data(*old(u)).len(),
{
    <u64 as arbitrary::Arbitrary>::arbitrary(u).unwrap_or(0)
}

/// Picks one of `n` alternatives from a fresh 32-bit draw.
fn choice(n: u32, u: &mut Unstructured) -> (r: Result<u64, HostError>)
    requires
        n > 0,
    ensures
        r matches Ok(k) ==> k < n,
        u_data(*final(u)).len() <= u_data(*old(u)).len(),
{
    let x = u_arbitrary_u32(u);
    Ok((x % n) as u64)
}

/// A letter or digit: the alphabet the symbol generator draws from, one
/// underscore short of the full alphabet the host accepts.
pub open spec fn alnum_char(c: u8) -> bool {
    (48 <= c && c <= 57) || (65 <= c && c <= 90) || (97 <= c && c <= 122)
}

/// A symbol drawn from the restricted alphabet, within the length bound.
#[derive(Debug)]
pub struct ValidScSymbol(pub Vec<u8>);

impl ValidScSymbol {
    /// Size bounds advertised to the byte-stream consumer: a length draw
    /// plus at most one draw per symbol byte.
    pub fn size_hint(depth: usize) -> (r: (usize, Option<usize>))
        ensures
            r.0 == 4,
            r.1 == Some((4 + 4 * SCSYMBOL_LIMIT) as usize),
    {
        let _ = depth;
        (4, Some(4 + 4 * SCSYMBOL_LIMIT as usize))
    }

    /// Draws a symbol containing only valid characters and respecting the
    /// maximum symbol length. The draw is in fact stricter than
    /// [`valid_symbol`] demands: the length stays strictly under the limit
    /// and the underscore, though the host accepts it, is never produced.
    pub fn arbitrary(u: &mut Unstructured) -> (r: Result<ValidScSymbol, HostError>)
        ensures
            r matches Ok(s) ==> valid_symbol(s.0@) && s.0@.len() < SCSYMBOL_LIMIT && (forall|
                j: int,
            |
                0 <= j < s.0@.len() ==> alnum_char(#[trigger] s.0@[j])),
            u_data(*final(u)).len() <= u_data(*old(u)).len(),
    {
        let len_draw = u_arbitrary_u32(u);
        let len = (len_draw % SCSYMBOL_LIMIT) as usize;
        let mut out: Vec<u8> = Vec::new();
        let mut i: usize = 0;
        while i < len
            invariant
                0 <= i <= len,
                len <= SCSYMBOL_LIMIT,
                out@.len() == i,
                len < SCSYMBOL_LIMIT,
                forall|j: int| 0 <= j < i ==> valid_symbol_char(#[trigger] out@[j]) && alnum_char(
                    out@[j],
                ),
                u_data(*u).len() <= u_data(*old(u)).len(),
            decreases len - i,
        {
            let d = u_arbitrary_u32(u);
            let idx = (d % 62) as u8;
            let c: u8 = if idx < 26 {
                97 + idx
            } else if idx < 52 {
                65 + (idx - 26)
            } else {
                48 + (idx - 52)
            };
            out.push(c);
            i = i + 1;
        }
        Ok(ValidScSymbol(out))
    }
}

/// A wire-format tree that is valid by construction.
#[derive(Debug)]
pub struct ValidScVal(pub ScVal);

impl ValidScVal {
    /// Size bounds advertised to the byte-stream consumer: the minimum is
    /// zero (the `Void` alternative consumes nothing beyond the selector,
    /// which itself succeeds on an empty draw) and there is no upper bound
    /// (the recursive vector and map alternatives consume arbitrarily many
    /// bytes).
    pub fn size_hint(depth: usize) -> (r: (usize, Option<usize>))
        ensures
            r == (0usize, None::<usize>),
    {
        let _ = depth;
        (0, None)
    }

    /// Draws a valid tree; recursion is bounded by an explicit depth. An
    /// exhausted byte stream produces no value.
    pub fn arbitrary(u: &mut Unstructured) -> (r: Result<ValidScVal, HostError>)
        ensures
            r matches Ok(v) ==> valid_scval(scm(v.0)),
            u_data(*old(u)).len() == 0 ==> r is Err,
    {
        let v = gen_val(u, 3)?;
        Ok(ValidScVal(v))
    }
}

/// Draws a bounded byte string.
fn gen_bytes(u: &mut Unstructured) -> (r: Vec<u8>)
    ensures
        u_data(*final(u)).len() <= u_data(*old(u)).len(),
{
    let len_draw = u_arbitrary_u32(u);
    let len = (len_draw % 64) as usize;
    let mut out: Vec<u8> = Vec::new();
    let mut i: usize = 0;
    while i < len
        invariant
            0 <= i <= len,
            u_data(*u).len() <= u_data(*old(u)).len(),
        decreases len - i,
    {
        let d = u_arbitrary_u32(u);
        out.push((d % 256) as u8);
        i = i + 1;
    }
    out
}

/// Draws a vector of valid trees, one depth level down.
fn arbitrary_vec(u: &mut Unstructured, depth: u32) -> (r: Result<Vec<ScVal>, HostError>)
    requires
        depth > 0,
    ensures
        r matches Ok(xs) ==> crate::scval::valid_list(scm_list(xs@)),
    decreases depth, 1nat,
{
    let n_draw = u_arbitrary_u32(u);
    let n = (n_draw % 4) as usize;
    let mut out: Vec<ScVal> = Vec::new();
    let mut i: usize = 0;
    while i < n
        invariant
            0 <= i <= n,
            depth > 0,
            out@.len() == i,
            forall|j: int| 0 <= j < i ==> valid_scval(#[trigger] scm_list(out@)[j]),
            scm_list(out@).len() == i,
        decreases n - i,
    {
        let v = gen_val(u, depth - 1)?;
        let ghost pre = out@;
        out.push(v);
        proof {
            lemma_scm_list_len(out@);
            assert forall|j: int| 0 <= j < i + 1 implies valid_scval(
                #[trigger] scm_list(out@)[j],
            ) by {
                lemma_scm_list_index(out@, j);
                if j < i {
                    lemma_scm_list_index(pre, j);
                }
            }
        }
        i = i + 1;
    }
    proof {
        lemma_valid_list_build(scm_list(out@));
        lemma_scm_list_len(out@);
    }
    Ok(out)
}

/// Draws one valid tree. Maps are built with strictly increasing `U32`
/// keys, so the sortedness invariant holds by construction.
fn gen_val(u: &mut Unstructured, depth: u32) -> (r: Result<ScVal, HostError>)
    ensures
        r matches Ok(v) ==> valid_scval(scm(v)),
        u_data(*old(u)).len() == 0 ==> r is Err,
    decreases depth, 2nat,
{
    if u_len(u) == 0 {
        return Err(crate::errors::host_err(ScErrorType::Value, ScErrorCode::MissingValue));
    }
    let chosen = choice(19, u)?;
    if chosen == 0 {
        let b = u_arbitrary_u32(u);
        Ok(ScVal::Bool(b % 2 == 1))
    } else if chosen == 1 {
        Ok(ScVal::Void)
    } else if chosen == 2 {
        let t = u_arbitrary_u32(u);
        let c = u_arbitrary_u32(u);
        Ok(
            ScVal::Error(
                crate::errors::Error {
                    etype: crate::mem::rank_to_etype((t % 10) as u64),
                    code: crate::mem::rank_to_code((c % 10) as u64),
                },
            ),
        )
    } else if chosen == 3 {
        Ok(ScVal::U32(u_arbitrary_u32(u)))
    } else if chosen == 4 {
        Ok(ScVal::I32(u_arbitrary_u32(u) as i32))
    } else if chosen == 5 {
        Ok(ScVal::U64(u_arbitrary_u64(u)))
    } else if chosen == 6 {
        Ok(ScVal::I64(u_arbitrary_u64(u) as i64))
    } else if chosen == 7 {
        Ok(ScVal::Timepoint(u_arbitrary_u64(u)))
    } else if chosen == 8 {
        Ok(ScVal::Duration(u_arbitrary_u64(u)))
    } else if chosen == 9 {
        Ok(ScVal::U128(crate::scval::U128Parts { hi: u_arbitrary_u64(u), lo: u_arbitrary_u64(u) }))
    } else if chosen == 10 {
        Ok(
            ScVal::I128(
                crate::scval::I128Parts { hi: u_arbitrary_u64(u) as i64, lo: u_arbitrary_u64(u) },
            ),
        )
    } else if chosen == 11 {
        Ok(
            ScVal::U256(
                crate::scval::U256Parts {
                    hi_hi: u_arbitrary_u64(u),
                    hi_lo: u_arbitrary_u64(u),
                    lo_hi: u_arbitrary_u64(u),
                    lo_lo: u_arbitrary_u64(u),
                },
            ),
        )
    } else if chosen == 12 {
        Ok(
            ScVal::I256(
                crate::scval::I256Parts {
                    hi_hi: u_arbitrary_u64(u) as i64,
                    hi_lo: u_arbitrary_u64(u),
                    lo_hi: u_arbitrary_u64(u),
                    lo_lo: u_arbitrary_u64(u),
                },
            ),
        )
    } else if chosen == 13 {
        Ok(ScVal::Bytes(gen_bytes(u)))
    } else if chosen == 14 {
        Ok(ScVal::Text(gen_bytes(u)))
    } else if chosen == 15 {
        let s = ValidScSymbol::arbitrary(u)?;
        Ok(ScVal::Symbol(s.0))
    } else if chosen == 16 {
        if depth == 0 {
            let empty: Vec<ScVal> = Vec::new();
            Ok(ScVal::Vector(Some(empty)))
        } else {
            let xs = arbitrary_vec(u, depth)?;
            Ok(ScVal::Vector(Some(xs)))
        }
    } else if chosen == 17 {
        if depth == 0 {
            let empty: Vec<ScMapEntry> = Vec::new();
            proof {
                crate::scval::lemma_valid_entries_build(scm_entries(Seq::empty()));
                reveal(strictly_sorted_keys);
            }
            Ok(ScVal::Mapping(Some(empty)))
        } else {
            let es = gen_map_entries(u, depth)?;
            Ok(ScVal::Mapping(Some(es)))
        }
    } else {
        let id = gen_id32(u);
        let f = u_arbitrary_u32(u);
        Ok(ScVal::Address(crate::scval::ScAddress { contract: f % 2 == 1, id }))
    }
}

/// Draws exactly 32 identifier bytes.
fn gen_id32(u: &mut Unstructured) -> (r: Vec<u8>)
    ensures
        r@.len() == 32,
{
    let mut out: Vec<u8> = Vec::new();
    let mut i: usize = 0;
    while i < 32
        invariant
            0 <= i <= 32,
            out@.len() == i,
        decreases 32 - i,
    {
        let d = u_arbitrary_u32(u);
        out.push((d % 256) as u8);
        i = i + 1;
    }
    out
}

/// Draws up to three map entries with arbitrary valid keys one depth
/// level down; a drawn entry is kept only when its key strictly exceeds
/// the previously kept key under the tree comparator, so the sortedness
/// invariant holds by construction without fixing the key universe.
#[verifier::rlimit(100)]
#[verifier::spinoff_prover]
fn gen_map_entries(u: &mut Unstructured, depth: u32) -> (r: Result<Vec<ScMapEntry>, HostError>)
    requires
        depth > 0,
    ensures
        r matches Ok(es) ==> crate::scval::valid_entries(scm_entries(es@)) && strictly_sorted_keys(
            scm_entries(es@),
        ),
    decreases depth, 1nat,
{
    let n_draw = u_arbitrary_u32(u);
    let n = (n_draw % 4) as usize;
    let mut out: Vec<ScMapEntry> = Vec::new();
    let mut i: usize = 0;
    while i < n
        invariant
            0 <= i <= n,
            depth > 0,
            forall|j: int| 0 <= j < out@.len() ==> valid_scval(
                scm((#[trigger] out@[j]).key),
            ) && valid_scval(scm(out@[j].val)),
            forall|j: int| 0 <= j < out@.len() - 1 ==> cmp_m(
                scm((#[trigger] out@[j]).key),
                scm(out@[j + 1].key),
            ) == Ordering::Less,
        decreases n - i,
    {
        let k = gen_val(u, depth - 1)?;
        let v = gen_val(u, depth - 1)?;
        let keep: bool = if out.len() == 0 {
            true
        } else {
            match crate::scval::cmp_scval(&out[out.len() - 1].key, &k) {
                Ordering::Less => true,
                _ => false,
            }
        };
        if keep {
            out.push(ScMapEntry { key: k, val: v });
        }
        i = i + 1;
    }
    proof {
        let ms = scm_entries(out@);
        lemma_scm_entries_len(out@);
        assert forall|j: int| 0 <= j < ms.len() implies valid_scval((#[trigger] ms[j]).0)
            && valid_scval(ms[j].1) by {
            lemma_scm_entries_index(out@, j);
        }
        lemma_valid_entries_build(ms);
        reveal(strictly_sorted_keys);
        assert forall|j: int| 0 <= j < ms.len() - 1 implies cmp_m(
            (#[trigger] ms[j]).0,
            ms[j + 1].0,
        ) == Ordering::Less by {
            lemma_scm_entries_index(out@, j);
            lemma_scm_entries_index(out@, j + 1);
        }
    }
    Ok(out)
}

} // verus!
