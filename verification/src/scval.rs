//! The external wire-format value tree and its mathematical model.
//!
//! [`ScVal`] is the recursively defined tree type exchanged across the trust
//! boundary. Its ghost counterpart [`ScValM`] (sequences instead of vectors)
//! is what every contract in the crate speaks of; the spec function [`scm`]
//! maps one to the other. The module also defines the total comparator over
//! trees ([`cmp_m`] in spec, [`cmp_scval`] in exec) and the structural
//! validity predicate [`valid_scval`] that the conversion layer enforces.

use vstd::prelude::*;
use core::cmp::Ordering;
use crate::errors::Error;

verus! {

/// Maximum length of a symbol, in bytes.
pub const SCSYMBOL_LIMIT: u32 = 32;

/// 128-bit unsigned value, split in two 64-bit words.
#[derive(Clone, Copy, Debug, PartialEq, Eq, Structural)]
pub struct U128Parts {
    pub hi: u64,
    pub lo: u64,
}

/// 128-bit signed value: high word signed, low word unsigned.
#[derive(Clone, Copy, Debug, PartialEq, Eq, Structural)]
pub struct I128Parts {
    pub hi: i64,
    pub lo: u64,
}

/// 256-bit unsigned value, split in four 64-bit words, most significant first.
#[derive(Clone, Copy, Debug, PartialEq, Eq, Structural)]
pub struct U256Parts {
    pub hi_hi: u64,
    pub hi_lo: u64,
    pub lo_hi: u64,
    pub lo_lo: u64,
}

/// 256-bit signed value: most significant word signed, the rest unsigned.
#[derive(Clone, Copy, Debug, PartialEq, Eq, Structural)]
pub struct I256Parts {
    pub hi_hi: i64,
    pub hi_lo: u64,
    pub lo_hi: u64,
    pub lo_lo: u64,
}

/// An address: an account or a contract, identified by 32 bytes.
#[derive(Clone, Debug, PartialEq, Eq)]
pub struct ScAddress {
    /// `false` for an account address, `true` for a contract address.
    pub contract: bool,
    /// The 32-byte identifier.
    pub id: Vec<u8>,
}

/// One key/value entry of a wire-format map.
#[derive(Debug, PartialEq, Eq)]
pub struct ScMapEntry {
    pub key: ScVal,
    pub val: ScVal,
}

/// The wire-format value tree.
///
/// `Vector` and `Mapping` carry an option because the wire format allows an
/// absent body; the host rejects the absent form wherever a value is
/// required (see [`valid_scval`]).
#[derive(Debug, PartialEq, Eq)]
pub enum ScVal {
    Bool(bool),
    Void,
    Error(Error),
    U32(u32),
    I32(i32),
    U64(u64),
    I64(i64),
    Timepoint(u64),
    Duration(u64),
    U128(U128Parts),
    I128(I128Parts),
    U256(U256Parts),
    I256(I256Parts),
    Bytes(Vec<u8>),
    Text(Vec<u8>),
    Symbol(Vec<u8>),
    Vector(Option<Vec<ScVal>>),
    Mapping(Option<Vec<ScMapEntry>>),
    Address(ScAddress),
}

/// Ghost model of an address: the contract flag and the identifier bytes.
pub struct AddrM {
    pub contract: bool,
    pub id: Seq<u8>,
}

/// Ghost model of the wire-format value tree, with sequences for vectors.
pub enum ScValM {
    Bool(bool),
    Void,
    Error(Error),
    U32(u32),
    I32(i32),
    U64(u64),
    I64(i64),
    Timepoint(u64),
    Duration(u64),
    U128(U128Parts),
    I128(I128Parts),
    U256(U256Parts),
    I256(I256Parts),
    Bytes(Seq<u8>),
    Text(Seq<u8>),
    Symbol(Seq<u8>),
    Vector(Option<Seq<ScValM>>),
    Mapping(Option<Seq<(ScValM, ScValM)>>),
    Address(AddrM),
}

/// The model of a wire-format tree value.
pub open spec fn scm(v: ScVal) -> ScValM
    decreases v,
{
    match v {
        ScVal::Bool(b) => ScValM::Bool(b),
        ScVal::Void => ScValM::Void,
        ScVal::Error(e) => ScValM::Error(e),
        ScVal::U32(x) => ScValM::U32(x),
        ScVal::I32(x) => ScValM::I32(x),
        ScVal::U64(x) => ScValM::U64(x),
        ScVal::I64(x) => ScValM::I64(x),
        ScVal::Timepoint(x) => ScValM::Timepoint(x),
        ScVal::Duration(x) => ScValM::Duration(x),
        ScVal::U128(p) => ScValM::U128(p),
        ScVal::I128(p) => ScValM::I128(p),
        ScVal::U256(p) => ScValM::U256(p),
        ScVal::I256(p) => ScValM::I256(p),
        ScVal::Bytes(b) => ScValM::Bytes(b@),
        ScVal::Text(b) => ScValM::Text(b@),
        ScVal::Symbol(b) => ScValM::Symbol(b@),
        ScVal::Vector(o) => match o {
            Option::None => ScValM::Vector(Option::None),
            Option::Some(xs) => ScValM::Vector(Option::Some(scm_list(xs@))),
        },
        ScVal::Mapping(o) => match o {
            Option::None => ScValM::Mapping(Option::None),
            Option::Some(es) => ScValM::Mapping(Option::Some(scm_entries(es@))),
        },
        ScVal::Address(a) => ScValM::Address(AddrM { contract: a.contract, id: a.id@ }),
    }
}

/// Pointwise model of a sequence of tree values.
pub open spec fn scm_list(s: Seq<ScVal>) -> Seq<ScValM>
    decreases s,
{
    if s.len() == 0 {
        Seq::empty()
    } else {
        seq![scm(s[0])] + scm_list(s.subrange(1, s.len() as int))
    }
}

/// Pointwise model of a sequence of map entries.
pub open spec fn scm_entries(s: Seq<ScMapEntry>) -> Seq<(ScValM, ScValM)>
    decreases s,
{
    if s.len() == 0 {
        Seq::empty()
    } else {
        seq![(scm(s[0].key), scm(s[0].val))] + scm_entries(s.subrange(1, s.len() as int))
    }
}

pub proof fn lemma_scm_list_index(s: Seq<ScVal>, i: int)
    requires
        0 <= i < s.len(),
    ensures
        scm_list(s).len() == s.len(),
        scm_list(s)[i] == scm(s[i]),
    decreases s.len(),
{
    lemma_scm_list_len(s);
    lemma_scm_list_len(s.subrange(1, s.len() as int));
    if i > 0 {
        lemma_scm_list_index(s.subrange(1, s.len() as int), i - 1);
    }
}

pub proof fn lemma_scm_list_len(s: Seq<ScVal>)
    ensures
        scm_list(s).len() == s.len(),
    decreases s.len(),
{
    if s.len() > 0 {
        lemma_scm_list_len(s.subrange(1, s.len() as int));
    }
}

pub proof fn lemma_scm_entries_index(s: Seq<ScMapEntry>, i: int)
    requires
        0 <= i < s.len(),
    ensures
        scm_entries(s).len() == s.len(),
        scm_entries(s)[i] == (scm(s[i].key), scm(s[i].val)),
    decreases s.len(),
{
    lemma_scm_entries_len(s);
    lemma_scm_entries_len(s.subrange(1, s.len() as int));
    if i > 0 {
        lemma_scm_entries_index(s.subrange(1, s.len() as int), i - 1);
    }
}

pub proof fn lemma_scm_entries_len(s: Seq<ScMapEntry>)
    ensures
        scm_entries(s).len() == s.len(),
    decreases s.len(),
{
    if s.len() > 0 {
        lemma_scm_entries_len(s.subrange(1, s.len() as int));
    }
}

// ------------------------------------------------------------------
// Validity
// ------------------------------------------------------------------

/// A symbol byte: `_`, `0-9`, `A-Z` or `a-z`.
pub open spec fn valid_symbol_char(c: u8) -> bool {
    c == 95 || (48 <= c && c <= 57) || (65 <= c && c <= 90) || (97 <= c && c <= 122)
}

/// A symbol: restricted alphabet, bounded length.
pub open spec fn valid_symbol(s: Seq<u8>) -> bool {
    s.len() <= SCSYMBOL_LIMIT && forall|i: int| 0 <= i < s.len() ==> valid_symbol_char(#[trigger] s[i])
}

/// Structural validity of a wire-format tree: symbols respect their
/// alphabet and length bound, vector and map bodies are present, map keys
/// are strictly sorted under [`cmp_m`], and addresses carry 32 bytes.
pub open spec fn valid_scval(v: ScValM) -> bool
    decreases v,
{
    match v {
        ScValM::Symbol(s) => valid_symbol(s),
        ScValM::Vector(o) => match o {
            Option::None => false,
            Option::Some(xs) => valid_list(xs),
        },
        ScValM::Mapping(o) => match o {
            Option::None => false,
            Option::Some(es) => valid_entries(es) && strictly_sorted_keys(es),
        },
        ScValM::Address(a) => a.id.len() == 32,
        _ => true,
    }
}

pub open spec fn valid_list(xs: Seq<ScValM>) -> bool
    decreases xs,
{
    if xs.len() == 0 {
        true
    } else {
        valid_scval(xs[0]) && valid_list(xs.subrange(1, xs.len() as int))
    }
}

pub open spec fn valid_entries(es: Seq<(ScValM, ScValM)>) -> bool
    decreases es,
{
    if es.len() == 0 {
        true
    } else {
        valid_scval(es[0].0) && valid_scval(es[0].1) && valid_entries(
            es.subrange(1, es.len() as int),
        )
    }
}

/// Map keys strictly ascending under the tree comparator: sorted, no duplicates.
/// Opaque: reveal it where the pairwise comparisons are needed.
#[verifier::opaque]
pub open spec fn strictly_sorted_keys(es: Seq<(ScValM, ScValM)>) -> bool {
    forall|i: int| 0 <= i < es.len() - 1 ==> cmp_m((#[trigger] es[i]).0, es[i + 1].0)
        == Ordering::Less
}

/// Number of nodes of a wire-format tree: an upper bound on the host
/// objects its conversion allocates, used to state when the store has room.
pub open spec fn tree_nodes(v: ScValM) -> nat
    decreases v,
{
    match v {
        ScValM::Vector(o) => match o {
            Option::None => 1,
            Option::Some(xs) => 1 + tree_nodes_list(xs),
        },
        ScValM::Mapping(o) => match o {
            Option::None => 1,
            Option::Some(es) => 1 + tree_nodes_entries(es),
        },
        _ => 1,
    }
}

pub open spec fn tree_nodes_list(xs: Seq<ScValM>) -> nat
    decreases xs,
{
    if xs.len() == 0 {
        0
    } else {
        tree_nodes(xs[0]) + tree_nodes_list(xs.subrange(1, xs.len() as int))
    }
}

pub open spec fn tree_nodes_entries(es: Seq<(ScValM, ScValM)>) -> nat
    decreases es,
{
    if es.len() == 0 {
        0
    } else {
        tree_nodes(es[0].0) + tree_nodes(es[0].1) + tree_nodes_entries(
            es.subrange(1, es.len() as int),
        )
    }
}

/// Taking one more element moves exactly its node count into the prefix.
pub proof fn lemma_tree_nodes_list_take(xs: Seq<ScValM>, i: int)
    requires
        0 <= i < xs.len(),
    ensures
        tree_nodes_list(xs.take(i + 1)) == tree_nodes_list(xs.take(i)) + tree_nodes(xs[i]),
        tree_nodes_list(xs.take(i + 1)) <= tree_nodes_list(xs),
    decreases xs.len(),
{
    if i == 0 {
        assert(xs.take(0) =~= Seq::<ScValM>::empty());
        assert(xs.take(1) =~= seq![xs[0]]);
        assert(xs.take(1).subrange(1, 1) =~= Seq::<ScValM>::empty());
        lemma_tree_nodes_list_prefix(xs, 1);
    } else {
        let t = xs.subrange(1, xs.len() as int);
        lemma_tree_nodes_list_take(t, i - 1);
        assert(xs.take(i + 1).subrange(1, i + 1) =~= t.take(i));
        assert(xs.take(i).subrange(1, i) =~= t.take(i - 1));
        assert(xs.take(i + 1)[0] == xs[0]);
        assert(xs.take(i)[0] == xs[0]);
        assert(t[i - 1] == xs[i]);
        lemma_tree_nodes_list_prefix(xs, i + 1);
    }
}

/// A prefix never counts more nodes than the whole sequence.
pub proof fn lemma_tree_nodes_list_prefix(xs: Seq<ScValM>, i: int)
    requires
        0 <= i <= xs.len(),
    ensures
        tree_nodes_list(xs.take(i)) <= tree_nodes_list(xs),
    decreases xs.len(),
{
    if i == 0 {
        assert(xs.take(0) =~= Seq::<ScValM>::empty());
    } else if xs.len() > 0 {
        let t = xs.subrange(1, xs.len() as int);
        lemma_tree_nodes_list_prefix(t, i - 1);
        assert(xs.take(i).subrange(1, i) =~= t.take(i - 1));
        assert(xs.take(i)[0] == xs[0]);
    }
}

/// The entry analogues of the list prefix lemmas.
pub proof fn lemma_tree_nodes_entries_take(es: Seq<(ScValM, ScValM)>, i: int)
    requires
        0 <= i < es.len(),
    ensures
        tree_nodes_entries(es.take(i + 1)) == tree_nodes_entries(es.take(i)) + tree_nodes(es[i].0)
            + tree_nodes(es[i].1),
        tree_nodes_entries(es.take(i + 1)) <= tree_nodes_entries(es),
    decreases es.len(),
{
    if i == 0 {
        assert(es.take(0) =~= Seq::<(ScValM, ScValM)>::empty());
        assert(es.take(1) =~= seq![es[0]]);
        assert(es.take(1).subrange(1, 1) =~= Seq::<(ScValM, ScValM)>::empty());
        lemma_tree_nodes_entries_prefix(es, 1);
    } else {
        let t = es.subrange(1, es.len() as int);
        lemma_tree_nodes_entries_take(t, i - 1);
        assert(es.take(i + 1).subrange(1, i + 1) =~= t.take(i));
        assert(es.take(i).subrange(1, i) =~= t.take(i - 1));
        assert(es.take(i + 1)[0] == es[0]);
        assert(es.take(i)[0] == es[0]);
        assert(t[i - 1] == es[i]);
        lemma_tree_nodes_entries_prefix(es, i + 1);
    }
}

pub proof fn lemma_tree_nodes_entries_prefix(es: Seq<(ScValM, ScValM)>, i: int)
    requires
        0 <= i <= es.len(),
    ensures
        tree_nodes_entries(es.take(i)) <= tree_nodes_entries(es),
    decreases es.len(),
{
    if i == 0 {
        assert(es.take(0) =~= Seq::<(ScValM, ScValM)>::empty());
    } else if es.len() > 0 {
        let t = es.subrange(1, es.len() as int);
        lemma_tree_nodes_entries_prefix(t, i - 1);
        assert(es.take(i).subrange(1, i) =~= t.take(i - 1));
        assert(es.take(i)[0] == es[0]);
    }
}

pub proof fn lemma_valid_list_index(xs: Seq<ScValM>, i: int)
    requires
        valid_list(xs),
        0 <= i < xs.len(),
    ensures
        valid_scval(xs[i]),
    decreases i,
{
    if i > 0 {
        lemma_valid_list_index(xs.subrange(1, xs.len() as int), i - 1);
    }
}

pub proof fn lemma_valid_entries_index(es: Seq<(ScValM, ScValM)>, i: int)
    requires
        valid_entries(es),
        0 <= i < es.len(),
    ensures
        valid_scval(es[i].0),
        valid_scval(es[i].1),
    decreases i,
{
    if i > 0 {
        lemma_valid_entries_index(es.subrange(1, es.len() as int), i - 1);
    }
}

pub proof fn lemma_valid_list_build(xs: Seq<ScValM>)
    requires
        forall|i: int| 0 <= i < xs.len() ==> valid_scval(#[trigger] xs[i]),
    ensures
        valid_list(xs),
    decreases xs.len(),
{
    if xs.len() > 0 {
        lemma_valid_list_build(xs.subrange(1, xs.len() as int));
    }
}

pub proof fn lemma_valid_entries_build(es: Seq<(ScValM, ScValM)>)
    requires
        forall|i: int| 0 <= i < es.len() ==> valid_scval((#[trigger] es[i]).0) && valid_scval(
            es[i].1,
        ),
    ensures
        valid_entries(es),
    decreases es.len(),
{
    if es.len() > 0 {
        lemma_valid_entries_build(es.subrange(1, es.len() as int));
    }
}

/// Runtime check for [`valid_symbol_char`].
pub fn valid_symbol_char_exec(c: u8) -> (r: bool)
    ensures
        r == valid_symbol_char(c),
{
    c == 95 || (48 <= c && c <= 57) || (65 <= c && c <= 90) || (97 <= c && c <= 122)
}

/// Runtime check for [`valid_symbol`].
pub fn check_symbol(b: &Vec<u8>) -> (r: bool)
    ensures
        r == valid_symbol(b@),
{
    if b.len() > SCSYMBOL_LIMIT as usize {
        return false;
    }
    let mut i: usize = 0;
    while i < b.len()
        invariant
            0 <= i <= b@.len(),
            forall|j: int| 0 <= j < i ==> valid_symbol_char(#[trigger] b@[j]),
        decreases b@.len() - i,
    {
        if !valid_symbol_char_exec(b[i]) {
            return false;
        }
        i = i + 1;
    }
    true
}

// ------------------------------------------------------------------
// The comparator
// ------------------------------------------------------------------

/// Rank of each tree constructor; values of different constructors order by
/// rank alone.
pub open spec fn type_rank(v: ScValM) -> int {
    match v {
        ScValM::Bool(_) => 0,
        ScValM::Void => 1,
        ScValM::Error(_) => 2,
        ScValM::U32(_) => 3,
        ScValM::I32(_) => 4,
        ScValM::U64(_) => 5,
        ScValM::I64(_) => 6,
        ScValM::Timepoint(_) => 7,
        ScValM::Duration(_) => 8,
        ScValM::U128(_) => 9,
        ScValM::I128(_) => 10,
        ScValM::U256(_) => 11,
        ScValM::I256(_) => 12,
        ScValM::Bytes(_) => 13,
        ScValM::Text(_) => 14,
        ScValM::Symbol(_) => 15,
        ScValM::Vector(_) => 16,
        ScValM::Mapping(_) => 17,
        ScValM::Address(_) => 18,
    }
}

pub open spec fn ord_of_int(x: int, y: int) -> Ordering {
    if x < y {
        Ordering::Less
    } else if x > y {
        Ordering::Greater
    } else {
        Ordering::Equal
    }
}

/// Lexicographic combination: the second comparison decides only a tie.
pub open spec fn ord_then(a: Ordering, b: Ordering) -> Ordering {
    match a {
        Ordering::Equal => b,
        _ => a,
    }
}

pub open spec fn etype_rank(t: crate::errors::ScErrorType) -> int {
    match t {
        crate::errors::ScErrorType::Contract => 0,
        crate::errors::ScErrorType::WasmVm => 1,
        crate::errors::ScErrorType::Context => 2,
        crate::errors::ScErrorType::Storage => 3,
        crate::errors::ScErrorType::Object => 4,
        crate::errors::ScErrorType::Crypto => 5,
        crate::errors::ScErrorType::Events => 6,
        crate::errors::ScErrorType::Budget => 7,
        crate::errors::ScErrorType::Value => 8,
        crate::errors::ScErrorType::Auth => 9,
    }
}

pub open spec fn code_rank(c: crate::errors::ScErrorCode) -> int {
    match c {
        crate::errors::ScErrorCode::ArithDomain => 0,
        crate::errors::ScErrorCode::IndexBounds => 1,
        crate::errors::ScErrorCode::InvalidInput => 2,
        crate::errors::ScErrorCode::MissingValue => 3,
        crate::errors::ScErrorCode::ExistingValue => 4,
        crate::errors::ScErrorCode::ExceededLimit => 5,
        crate::errors::ScErrorCode::InvalidAction => 6,
        crate::errors::ScErrorCode::InternalError => 7,
        crate::errors::ScErrorCode::UnexpectedType => 8,
        crate::errors::ScErrorCode::UnexpectedSize => 9,
    }
}

pub open spec fn cmp_error(a: Error, b: Error) -> Ordering {
    ord_then(ord_of_int(etype_rank(a.etype), etype_rank(b.etype)), ord_of_int(
        code_rank(a.code),
        code_rank(b.code),
    ))
}

/// Lexicographic byte-sequence order: elementwise, then by length.
pub open spec fn cmp_bytes(a: Seq<u8>, b: Seq<u8>) -> Ordering
    decreases a.len(),
{
    if a.len() == 0 && b.len() == 0 {
        Ordering::Equal
    } else if a.len() == 0 {
        Ordering::Less
    } else if b.len() == 0 {
        Ordering::Greater
    } else {
        ord_then(ord_of_int(a[0] as int, b[0] as int), cmp_bytes(
            a.subrange(1, a.len() as int),
            b.subrange(1, b.len() as int),
        ))
    }
}

/// Total order over wire-format trees: by constructor rank, then by payload;
/// sequences compare lexicographically, map entries by key then value.
pub open spec fn cmp_m(a: ScValM, b: ScValM) -> Ordering
    decreases a,
{
    if type_rank(a) != type_rank(b) {
        ord_of_int(type_rank(a), type_rank(b))
    } else {
        match (a, b) {
            (ScValM::Bool(x), ScValM::Bool(y)) => ord_of_int(
                if x { 1 } else { 0 },
                if y { 1 } else { 0 },
            ),
            (ScValM::Void, ScValM::Void) => Ordering::Equal,
            (ScValM::Error(x), ScValM::Error(y)) => cmp_error(x, y),
            (ScValM::U32(x), ScValM::U32(y)) => ord_of_int(x as int, y as int),
            (ScValM::I32(x), ScValM::I32(y)) => ord_of_int(x as int, y as int),
            (ScValM::U64(x), ScValM::U64(y)) => ord_of_int(x as int, y as int),
            (ScValM::I64(x), ScValM::I64(y)) => ord_of_int(x as int, y as int),
            (ScValM::Timepoint(x), ScValM::Timepoint(y)) => ord_of_int(x as int, y as int),
            (ScValM::Duration(x), ScValM::Duration(y)) => ord_of_int(x as int, y as int),
            (ScValM::U128(x), ScValM::U128(y)) => ord_then(
                ord_of_int(x.hi as int, y.hi as int),
                ord_of_int(x.lo as int, y.lo as int),
            ),
            (ScValM::I128(x), ScValM::I128(y)) => ord_then(
                ord_of_int(x.hi as int, y.hi as int),
                ord_of_int(x.lo as int, y.lo as int),
            ),
            (ScValM::U256(x), ScValM::U256(y)) => ord_then(
                ord_of_int(x.hi_hi as int, y.hi_hi as int),
                ord_then(
                    ord_of_int(x.hi_lo as int, y.hi_lo as int),
                    ord_then(
                        ord_of_int(x.lo_hi as int, y.lo_hi as int),
                        ord_of_int(x.lo_lo as int, y.lo_lo as int),
                    ),
                ),
            ),
            (ScValM::I256(x), ScValM::I256(y)) => ord_then(
                ord_of_int(x.hi_hi as int, y.hi_hi as int),
                ord_then(
                    ord_of_int(x.hi_lo as int, y.hi_lo as int),
                    ord_then(
                        ord_of_int(x.lo_hi as int, y.lo_hi as int),
                        ord_of_int(x.lo_lo as int, y.lo_lo as int),
                    ),
                ),
            ),
            (ScValM::Bytes(x), ScValM::Bytes(y)) => cmp_bytes(x, y),
            (ScValM::Text(x), ScValM::Text(y)) => cmp_bytes(x, y),
            (ScValM::Symbol(x), ScValM::Symbol(y)) => cmp_bytes(x, y),
            (ScValM::Vector(x), ScValM::Vector(y)) => match (x, y) {
                (Option::None, Option::None) => Ordering::Equal,
                (Option::None, Option::Some(_)) => Ordering::Less,
                (Option::Some(_), Option::None) => Ordering::Greater,
                (Option::Some(xs), Option::Some(ys)) => cmp_list(xs, ys),
            },
            (ScValM::Mapping(x), ScValM::Mapping(y)) => match (x, y) {
                (Option::None, Option::None) => Ordering::Equal,
                (Option::None, Option::Some(_)) => Ordering::Less,
                (Option::Some(_), Option::None) => Ordering::Greater,
                (Option::Some(xs), Option::Some(ys)) => cmp_entries(xs, ys),
            },
            (ScValM::Address(x), ScValM::Address(y)) => ord_then(
                ord_of_int(if x.contract { 1 } else { 0 }, if y.contract { 1 } else { 0 }),
                cmp_bytes(x.id, y.id),
            ),
            _ => Ordering::Equal,
        }
    }
}

/// Lexicographic order over sequences of trees.
pub open spec fn cmp_list(a: Seq<ScValM>, b: Seq<ScValM>) -> Ordering
    decreases a,
{
    if a.len() == 0 && b.len() == 0 {
        Ordering::Equal
    } else if a.len() == 0 {
        Ordering::Less
    } else if b.len() == 0 {
        Ordering::Greater
    } else {
        ord_then(cmp_m(a[0], b[0]), cmp_list(
            a.subrange(1, a.len() as int),
            b.subrange(1, b.len() as int),
        ))
    }
}

/// Lexicographic order over map entries, each entry by key then value.
pub open spec fn cmp_entries(a: Seq<(ScValM, ScValM)>, b: Seq<(ScValM, ScValM)>) -> Ordering
    decreases a,
{
    if a.len() == 0 && b.len() == 0 {
        Ordering::Equal
    } else if a.len() == 0 {
        Ordering::Less
    } else if b.len() == 0 {
        Ordering::Greater
    } else {
        ord_then(
            ord_then(cmp_m(a[0].0, b[0].0), cmp_m(a[0].1, b[0].1)),
            cmp_entries(a.subrange(1, a.len() as int), b.subrange(1, b.len() as int)),
        )
    }
}

// ------------------------------------------------------------------
// Skip lemmas: a wholly equal prefix does not change the comparison
// ------------------------------------------------------------------

pub proof fn lemma_cmp_bytes_skip(a: Seq<u8>, b: Seq<u8>, i: int)
    requires
        0 <= i <= a.len(),
        i <= b.len(),
        forall|j: int| 0 <= j < i ==> a[j] == b[j],
    ensures
        cmp_bytes(a, b) == cmp_bytes(a.skip(i), b.skip(i)),
    decreases i,
{
    if i == 0 {
        assert(a.skip(0) =~= a);
        assert(b.skip(0) =~= b);
    } else {
        let a1 = a.subrange(1, a.len() as int);
        let b1 = b.subrange(1, b.len() as int);
        lemma_cmp_bytes_skip(a1, b1, i - 1);
        assert(a1.skip(i - 1) =~= a.skip(i));
        assert(b1.skip(i - 1) =~= b.skip(i));
    }
}

pub proof fn lemma_cmp_list_skip(a: Seq<ScValM>, b: Seq<ScValM>, i: int)
    requires
        0 <= i <= a.len(),
        i <= b.len(),
        forall|j: int| 0 <= j < i ==> cmp_m(#[trigger] a[j], b[j]) == Ordering::Equal,
    ensures
        cmp_list(a, b) == cmp_list(a.skip(i), b.skip(i)),
    decreases i,
{
    if i == 0 {
        assert(a.skip(0) =~= a);
        assert(b.skip(0) =~= b);
    } else {
        let a1 = a.subrange(1, a.len() as int);
        let b1 = b.subrange(1, b.len() as int);
        assert(cmp_m(a[0], b[0]) == Ordering::Equal);
        lemma_cmp_list_skip(a1, b1, i - 1);
        assert(a1.skip(i - 1) =~= a.skip(i));
        assert(b1.skip(i - 1) =~= b.skip(i));
    }
}

pub proof fn lemma_cmp_entries_skip(a: Seq<(ScValM, ScValM)>, b: Seq<(ScValM, ScValM)>, i: int)
    requires
        0 <= i <= a.len(),
        i <= b.len(),
        forall|j: int| 0 <= j < i ==> cmp_m((#[trigger] a[j]).0, b[j].0) == Ordering::Equal
            && cmp_m(a[j].1, b[j].1) == Ordering::Equal,
    ensures
        cmp_entries(a, b) == cmp_entries(a.skip(i), b.skip(i)),
    decreases i,
{
    if i == 0 {
        assert(a.skip(0) =~= a);
        assert(b.skip(0) =~= b);
    } else {
        let a1 = a.subrange(1, a.len() as int);
        let b1 = b.subrange(1, b.len() as int);
        assert(cmp_m(a[0].0, b[0].0) == Ordering::Equal);
        lemma_cmp_entries_skip(a1, b1, i - 1);
        assert(a1.skip(i - 1) =~= a.skip(i));
        assert(b1.skip(i - 1) =~= b.skip(i));
    }
}

// ------------------------------------------------------------------
// Executable comparator
// ------------------------------------------------------------------

fn ord_of_u64(x: u64, y: u64) -> (r: Ordering)
    ensures
        r == ord_of_int(x as int, y as int),
{
    if x < y {
        Ordering::Less
    } else if x > y {
        Ordering::Greater
    } else {
        Ordering::Equal
    }
}

fn ord_of_i64(x: i64, y: i64) -> (r: Ordering)
    ensures
        r == ord_of_int(x as int, y as int),
{
    if x < y {
        Ordering::Less
    } else if x > y {
        Ordering::Greater
    } else {
        Ordering::Equal
    }
}

fn ord_of_bool(x: bool, y: bool) -> (r: Ordering)
    ensures
        r == ord_of_int(if x { 1int } else { 0int }, if y { 1int } else { 0int }),
{
    if x == y {
        Ordering::Equal
    } else if y {
        Ordering::Less
    } else {
        Ordering::Greater
    }
}

fn ord_then_exec(a: Ordering, b: Ordering) -> (r: Ordering)
    ensures
        r == ord_then(a, b),
{
    match a {
        Ordering::Equal => b,
        _ => a,
    }
}

fn rank_of(v: &ScVal) -> (r: u64)
    ensures
        r as int == type_rank(scm(*v)),
{
    match v {
        ScVal::Bool(_) => 0,
        ScVal::Void => 1,
        ScVal::Error(_) => 2,
        ScVal::U32(_) => 3,
        ScVal::I32(_) => 4,
        ScVal::U64(_) => 5,
        ScVal::I64(_) => 6,
        ScVal::Timepoint(_) => 7,
        ScVal::Duration(_) => 8,
        ScVal::U128(_) => 9,
        ScVal::I128(_) => 10,
        ScVal::U256(_) => 11,
        ScVal::I256(_) => 12,
        ScVal::Bytes(_) => 13,
        ScVal::Text(_) => 14,
        ScVal::Symbol(_) => 15,
        ScVal::Vector(_) => 16,
        ScVal::Mapping(_) => 17,
        ScVal::Address(_) => 18,
    }
}

fn etype_rank_exec(t: crate::errors::ScErrorType) -> (r: u64)
    ensures
        r as int == etype_rank(t),
{
    match t {
        crate::errors::ScErrorType::Contract => 0,
        crate::errors::ScErrorType::WasmVm => 1,
        crate::errors::ScErrorType::Context => 2,
        crate::errors::ScErrorType::Storage => 3,
        crate::errors::ScErrorType::Object => 4,
        crate::errors::ScErrorType::Crypto => 5,
        crate::errors::ScErrorType::Events => 6,
        crate::errors::ScErrorType::Budget => 7,
        crate::errors::ScErrorType::Value => 8,
        crate::errors::ScErrorType::Auth => 9,
    }
}

fn code_rank_exec(c: crate::errors::ScErrorCode) -> (r: u64)
    ensures
        r as int == code_rank(c),
{
    match c {
        crate::errors::ScErrorCode::ArithDomain => 0,
        crate::errors::ScErrorCode::IndexBounds => 1,
        crate::errors::ScErrorCode::InvalidInput => 2,
        crate::errors::ScErrorCode::MissingValue => 3,
        crate::errors::ScErrorCode::ExistingValue => 4,
        crate::errors::ScErrorCode::ExceededLimit => 5,
        crate::errors::ScErrorCode::InvalidAction => 6,
        crate::errors::ScErrorCode::InternalError => 7,
        crate::errors::ScErrorCode::UnexpectedType => 8,
        crate::errors::ScErrorCode::UnexpectedSize => 9,
    }
}

/// Compares two typed errors: origin type first, then code.
pub fn cmp_error_exec(a: &Error, b: &Error) -> (r: Ordering)
    ensures
        r == cmp_error(*a, *b),
{
    let t = ord_of_u64(etype_rank_exec(a.etype), etype_rank_exec(b.etype));
    let c = ord_of_u64(code_rank_exec(a.code), code_rank_exec(b.code));
    ord_then_exec(t, c)
}

/// Compares two byte strings lexicographically, shorter prefix first.
pub fn cmp_bytes_exec(a: &Vec<u8>, b: &Vec<u8>) -> (r: Ordering)
    ensures
        r == cmp_bytes(a@, b@),
{
    let n = if a.len() < b.len() {
        a.len()
    } else {
        b.len()
    };
    let mut i: usize = 0;
    while i < n
        invariant
            0 <= i <= n,
            n == if a@.len() < b@.len() {
                a@.len()
            } else {
                b@.len()
            },
            forall|j: int| 0 <= j < i ==> a@[j] == b@[j],
        decreases n - i,
    {
        let x = a[i];
        let y = b[i];
        if x != y {
            proof {
                lemma_cmp_bytes_skip(a@, b@, i as int);
            }
            if x < y {
                return Ordering::Less;
            } else {
                return Ordering::Greater;
            }
        }
        i = i + 1;
    }
    proof {
        lemma_cmp_bytes_skip(a@, b@, n as int);
    }
    if a.len() < b.len() {
        Ordering::Less
    } else if a.len() > b.len() {
        Ordering::Greater
    } else {
        Ordering::Equal
    }
}

/// The host's total comparator over wire-format trees.
///
/// Agrees with the ghost comparator [`cmp_m`] on the models of its
/// arguments, which is the form every other contract uses.
pub fn cmp_scval(a: &ScVal, b: &ScVal) -> (r: Ordering)
    ensures
        r == cmp_m(scm(*a), scm(*b)),
    decreases *a,
{
    let ra = rank_of(a);
    let rb = rank_of(b);
    if ra != rb {
        return ord_of_u64(ra, rb);
    }
    match (a, b) {
        (ScVal::Bool(x), ScVal::Bool(y)) => ord_of_bool(*x, *y),
        (ScVal::Void, ScVal::Void) => Ordering::Equal,
        (ScVal::Error(x), ScVal::Error(y)) => cmp_error_exec(x, y),
        (ScVal::U32(x), ScVal::U32(y)) => ord_of_u64(*x as u64, *y as u64),
        (ScVal::I32(x), ScVal::I32(y)) => ord_of_i64(*x as i64, *y as i64),
        (ScVal::U64(x), ScVal::U64(y)) => ord_of_u64(*x, *y),
        (ScVal::I64(x), ScVal::I64(y)) => ord_of_i64(*x, *y),
        (ScVal::Timepoint(x), ScVal::Timepoint(y)) => ord_of_u64(*x, *y),
        (ScVal::Duration(x), ScVal::Duration(y)) => ord_of_u64(*x, *y),
        (ScVal::U128(x), ScVal::U128(y)) => ord_then_exec(
            ord_of_u64(x.hi, y.hi),
            ord_of_u64(x.lo, y.lo),
        ),
        (ScVal::I128(x), ScVal::I128(y)) => ord_then_exec(
            ord_of_i64(x.hi, y.hi),
            ord_of_u64(x.lo, y.lo),
        ),
        (ScVal::U256(x), ScVal::U256(y)) => ord_then_exec(
            ord_of_u64(x.hi_hi, y.hi_hi),
            ord_then_exec(
                ord_of_u64(x.hi_lo, y.hi_lo),
                ord_then_exec(ord_of_u64(x.lo_hi, y.lo_hi), ord_of_u64(x.lo_lo, y.lo_lo)),
            ),
        ),
        (ScVal::I256(x), ScVal::I256(y)) => ord_then_exec(
            ord_of_i64(x.hi_hi, y.hi_hi),
            ord_then_exec(
                ord_of_u64(x.hi_lo, y.hi_lo),
                ord_then_exec(ord_of_u64(x.lo_hi, y.lo_hi), ord_of_u64(x.lo_lo, y.lo_lo)),
            ),
        ),
        (ScVal::Bytes(x), ScVal::Bytes(y)) => cmp_bytes_exec(x, y),
        (ScVal::Text(x), ScVal::Text(y)) => cmp_bytes_exec(x, y),
        (ScVal::Symbol(x), ScVal::Symbol(y)) => cmp_bytes_exec(x, y),
        (ScVal::Vector(oa), ScVal::Vector(ob)) => match (oa, ob) {
            (Option::None, Option::None) => Ordering::Equal,
            (Option::None, Option::Some(_)) => Ordering::Less,
            (Option::Some(_), Option::None) => Ordering::Greater,
            (Option::Some(xs), Option::Some(ys)) => cmp_vec_elems(xs, ys),
        },
        (ScVal::Mapping(oa), ScVal::Mapping(ob)) => match (oa, ob) {
            (Option::None, Option::None) => Ordering::Equal,
            (Option::None, Option::Some(_)) => Ordering::Less,
            (Option::Some(_), Option::None) => Ordering::Greater,
            (Option::Some(xs), Option::Some(ys)) => cmp_map_entries(xs, ys),
        },
        (ScVal::Address(x), ScVal::Address(y)) => ord_then_exec(
            ord_of_bool(x.contract, y.contract),
            cmp_bytes_exec(&x.id, &y.id),
        ),
        _ => Ordering::Equal,
    }
}

#[verifier::rlimit(60)]
#[verifier::rlimit(100)]
fn cmp_vec_elems(xs: &Vec<ScVal>, ys: &Vec<ScVal>) -> (r: Ordering)
    ensures
        r == cmp_list(scm_list(xs@), scm_list(ys@)),
    decreases xs@,
{
    proof {
        lemma_scm_list_len(xs@);
        lemma_scm_list_len(ys@);
    }
    let n = if xs.len() < ys.len() {
        xs.len()
    } else {
        ys.len()
    };
    let mut i: usize = 0;
    while i < n
        invariant
            0 <= i <= n,
            n == if xs@.len() < ys@.len() {
                xs@.len()
            } else {
                ys@.len()
            },
            scm_list(xs@).len() == xs@.len(),
            scm_list(ys@).len() == ys@.len(),
            forall|j: int| 0 <= j < i ==> cmp_m(#[trigger] scm_list(xs@)[j], scm_list(ys@)[j])
                == Ordering::Equal,
        decreases n - i,
    {
        let o = cmp_scval(&xs[i], &ys[i]);
        proof {
            lemma_scm_list_index(xs@, i as int);
            lemma_scm_list_index(ys@, i as int);
        }
        match o {
            Ordering::Equal => {
                i = i + 1;
            },
            _ => {
                proof {
                    lemma_cmp_list_skip(scm_list(xs@), scm_list(ys@), i as int);
                }
                return o;
            },
        }
    }
    proof {
        lemma_cmp_list_skip(scm_list(xs@), scm_list(ys@), n as int);
    }
    if xs.len() < ys.len() {
        Ordering::Less
    } else if xs.len() > ys.len() {
        Ordering::Greater
    } else {
        Ordering::Equal
    }
}

#[verifier::rlimit(60)]
fn cmp_map_entries(xs: &Vec<ScMapEntry>, ys: &Vec<ScMapEntry>) -> (r: Ordering)
    ensures
        r == cmp_entries(scm_entries(xs@), scm_entries(ys@)),
    decreases xs@,
{
    proof {
        lemma_scm_entries_len(xs@);
        lemma_scm_entries_len(ys@);
    }
    let n = if xs.len() < ys.len() {
        xs.len()
    } else {
        ys.len()
    };
    let mut i: usize = 0;
    while i < n
        invariant
            0 <= i <= n,
            n == if xs@.len() < ys@.len() {
                xs@.len()
            } else {
                ys@.len()
            },
            scm_entries(xs@).len() == xs@.len(),
            scm_entries(ys@).len() == ys@.len(),
            forall|j: int| 0 <= j < i ==> cmp_m((#[trigger] scm_entries(xs@)[j]).0, scm_entries(
                ys@,
            )[j].0) == Ordering::Equal && cmp_m(scm_entries(xs@)[j].1, scm_entries(ys@)[j].1)
                == Ordering::Equal,
        decreases n - i,
    {
        let ok = cmp_scval(&xs[i].key, &ys[i].key);
        let ov = cmp_scval(&xs[i].val, &ys[i].val);
        let o = ord_then_exec(ok, ov);
        proof {
            lemma_scm_entries_index(xs@, i as int);
            lemma_scm_entries_index(ys@, i as int);
        }
        match o {
            Ordering::Equal => {
                i = i + 1;
            },
            _ => {
                proof {
                    lemma_cmp_entries_skip(scm_entries(xs@), scm_entries(ys@), i as int);
                }
                return o;
            },
        }
    }
    proof {
        lemma_cmp_entries_skip(scm_entries(xs@), scm_entries(ys@), n as int);
    }
    if xs.len() < ys.len() {
        Ordering::Less
    } else if xs.len() > ys.len() {
        Ordering::Greater
    } else {
        Ordering::Equal
    }
}

} // verus!
