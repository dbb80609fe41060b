//! Bounds-checked marshaling between host objects and guest linear memory.
//!
//! Every operation takes guest-supplied offsets and lengths and validates,
//! before touching memory, that the addressed region lies inside the mapped
//! linear memory; a violation is a typed `IndexBounds` error. Writes touch
//! only the validated region — the contracts say so byte for byte — and
//! every byte moved is charged to the budget. Values travel through memory
//! as fixed-size records; corrupted records decode to typed errors, never
//! to a crash.

use vstd::prelude::*;
use core::cmp::Ordering;
use crate::errors::{HostError, ScErrorCode, ScErrorType};
use crate::host::{budget_evolves, Host, HostObject, MapPair};
use crate::val::Val;

verus! {

/// The guest's linear memory: a flat, fully mapped byte region.
#[derive(Debug)]
pub struct VmMemory {
    pub data: Vec<u8>,
}

impl VmMemory {
    /// A zero-filled memory of the given size.
    pub fn new_zeroed(size: usize) -> (r: VmMemory)
        ensures
            r.data@.len() == size,
            forall|k: int| 0 <= k < size ==> r.data@[k] == 0u8,
    {
        let mut data: Vec<u8> = Vec::new();
        let mut i: usize = 0;
        while i < size
            invariant
                0 <= i <= size,
                data@.len() == i,
                forall|k: int| 0 <= k < i ==> data@[k] == 0u8,
            decreases size - i,
        {
            data.push(0);
            i = i + 1;
        }
        VmMemory { data }
    }

    /// Reads one byte; the caller has validated the offset.
    pub fn read_byte(&self, pos: usize) -> (r: u8)
        requires
            pos < self.data@.len(),
        ensures
            r == self.data@[pos as int],
    {
        self.data[pos]
    }

    /// Writes one byte; the caller has validated the offset.
    pub fn write_byte(&mut self, pos: usize, b: u8)
        requires
            pos < old(self).data@.len(),
        ensures
            final(self).data@ == old(self).data@.update(pos as int, b),
    {
        let p = &mut self.data[pos];
        *p = b;
        proof {
            assert(self.data@ =~= old(self).data@.update(pos as int, b));
        }
    }
}

/// Bytes outside `[pos, pos + len)` are identical in the two memory images.
pub open spec fn untouched_outside(m0: Seq<u8>, m1: Seq<u8>, pos: int, len: int) -> bool {
    m1.len() == m0.len() && forall|k: int| 0 <= k < m0.len() && !(pos <= k < pos + len)
        ==> m1[k] == m0[k]
}

/// The memory image `m` with `bs` written at `pos` and every other byte kept.
pub open spec fn spliced(m: Seq<u8>, pos: int, bs: Seq<u8>) -> Seq<u8> {
    Seq::new(
        m.len(),
        |k: int|
            if pos <= k < pos + bs.len() {
                bs[k - pos]
            } else {
                m[k]
            },
    )
}

/// Length in bytes of one value record in linear memory.
pub const VAL_RECORD_LEN: usize = 9;

/// Record tag of a value.
pub open spec fn val_tag(v: Val) -> u8 {
    match v {
        Val::Bool(_) => 0,
        Val::Void => 1,
        Val::U32(_) => 2,
        Val::I32(_) => 3,
        Val::U64(_) => 4,
        Val::I64(_) => 5,
        Val::Timepoint(_) => 6,
        Val::Duration(_) => 7,
        Val::Status(_) => 8,
        Val::Object(_) => 9,
    }
}

/// Record payload of a value, as a 64-bit word.
pub open spec fn val_payload(v: Val) -> u64 {
    match v {
        Val::Bool(b) => if b {
            1
        } else {
            0
        },
        Val::Void => 0,
        Val::U32(n) => n as u64,
        Val::I32(n) => (n as u32) as u64,
        Val::U64(n) => n,
        Val::I64(n) => n as u64,
        Val::Timepoint(n) => n,
        Val::Duration(n) => n,
        Val::Status(e) => (crate::scval::etype_rank(e.etype) * 256 + crate::scval::code_rank(
            e.code,
        )) as u64,
        Val::Object(h) => h as u64,
    }
}

fn val_tag_exec(v: Val) -> (r: u8)
    ensures
        r == val_tag(v),
{
    match v {
        Val::Bool(_) => 0,
        Val::Void => 1,
        Val::U32(_) => 2,
        Val::I32(_) => 3,
        Val::U64(_) => 4,
        Val::I64(_) => 5,
        Val::Timepoint(_) => 6,
        Val::Duration(_) => 7,
        Val::Status(_) => 8,
        Val::Object(_) => 9,
    }
}

fn etype_rank_u64(t: crate::errors::ScErrorType) -> (r: u64)
    ensures
        r as int == crate::scval::etype_rank(t),
{
    match t {
        crate::errors::ScErrorType::Contract => 0,
        crate::errors::ScErrorType::WasmVm => 1,
        crate::errors::ScErrorType::Context => 2,
        crate::errors::ScErrorType::Storage => 3,
        crate::errors::ScErrorType::Object => 4,
        crate::errors::ScErrorType::Crypto => 5,
        crate::errors::ScErrorType::Events => 6,
        crate::errors::ScErrorType::Budget => 7,
        crate::errors::ScErrorType::Value => 8,
        crate::errors::ScErrorType::Auth => 9,
    }
}

/// The error type of a given rank; the inverse of [`crate::scval::etype_rank`].
pub open spec fn etype_of_rank(n: int) -> crate::errors::ScErrorType {
    if n == 0 {
        crate::errors::ScErrorType::Contract
    } else if n == 1 {
        crate::errors::ScErrorType::WasmVm
    } else if n == 2 {
        crate::errors::ScErrorType::Context
    } else if n == 3 {
        crate::errors::ScErrorType::Storage
    } else if n == 4 {
        crate::errors::ScErrorType::Object
    } else if n == 5 {
        crate::errors::ScErrorType::Crypto
    } else if n == 6 {
        crate::errors::ScErrorType::Events
    } else if n == 7 {
        crate::errors::ScErrorType::Budget
    } else if n == 8 {
        crate::errors::ScErrorType::Value
    } else {
        crate::errors::ScErrorType::Auth
    }
}

/// The error code of a given rank; the inverse of [`crate::scval::code_rank`].
pub open spec fn code_of_rank(n: int) -> crate::errors::ScErrorCode {
    if n == 0 {
        crate::errors::ScErrorCode::ArithDomain
    } else if n == 1 {
        crate::errors::ScErrorCode::IndexBounds
    } else if n == 2 {
        crate::errors::ScErrorCode::InvalidInput
    } else if n == 3 {
        crate::errors::ScErrorCode::MissingValue
    } else if n == 4 {
        crate::errors::ScErrorCode::ExistingValue
    } else if n == 5 {
        crate::errors::ScErrorCode::ExceededLimit
    } else if n == 6 {
        crate::errors::ScErrorCode::InvalidAction
    } else if n == 7 {
        crate::errors::ScErrorCode::InternalError
    } else if n == 8 {
        crate::errors::ScErrorCode::UnexpectedType
    } else {
        crate::errors::ScErrorCode::UnexpectedSize
    }
}

pub fn rank_to_etype(n: u64) -> (r: crate::errors::ScErrorType)
    requires
        n < 10,
    ensures
        crate::scval::etype_rank(r) == n as int,
        r == etype_of_rank(n as int),
{
    if n == 0 {
        crate::errors::ScErrorType::Contract
    } else if n == 1 {
        crate::errors::ScErrorType::WasmVm
    } else if n == 2 {
        crate::errors::ScErrorType::Context
    } else if n == 3 {
        crate::errors::ScErrorType::Storage
    } else if n == 4 {
        crate::errors::ScErrorType::Object
    } else if n == 5 {
        crate::errors::ScErrorType::Crypto
    } else if n == 6 {
        crate::errors::ScErrorType::Events
    } else if n == 7 {
        crate::errors::ScErrorType::Budget
    } else if n == 8 {
        crate::errors::ScErrorType::Value
    } else {
        crate::errors::ScErrorType::Auth
    }
}

fn code_rank_u64(c: crate::errors::ScErrorCode) -> (r: u64)
    ensures
        r as int == crate::scval::code_rank(c),
{
    match c {
        crate::errors::ScErrorCode::ArithDomain => 0,
        crate::errors::ScErrorCode::IndexBounds => 1,
        crate::errors::ScErrorCode::InvalidInput => 2,
        crate::errors::ScErrorCode::MissingValue => 3,
        crate::errors::ScErrorCode::ExistingValue => 4,
        crate::errors::ScErrorCode::ExceededLimit => 5,
        crate::errors::ScErrorCode::InvalidAction => 6,
        crate::errors::ScErrorCode::InternalError => 7,
        crate::errors::ScErrorCode::UnexpectedType => 8,
        crate::errors::ScErrorCode::UnexpectedSize => 9,
    }
}

pub fn rank_to_code(n: u64) -> (r: crate::errors::ScErrorCode)
    requires
        n < 10,
    ensures
        crate::scval::code_rank(r) == n as int,
        r == code_of_rank(n as int),
{
    if n == 0 {
        crate::errors::ScErrorCode::ArithDomain
    } else if n == 1 {
        crate::errors::ScErrorCode::IndexBounds
    } else if n == 2 {
        crate::errors::ScErrorCode::InvalidInput
    } else if n == 3 {
        crate::errors::ScErrorCode::MissingValue
    } else if n == 4 {
        crate::errors::ScErrorCode::ExistingValue
    } else if n == 5 {
        crate::errors::ScErrorCode::ExceededLimit
    } else if n == 6 {
        crate::errors::ScErrorCode::InvalidAction
    } else if n == 7 {
        crate::errors::ScErrorCode::InternalError
    } else if n == 8 {
        crate::errors::ScErrorCode::UnexpectedType
    } else {
        crate::errors::ScErrorCode::UnexpectedSize
    }
}

fn val_payload_exec(v: Val) -> (r: u64)
    ensures
        r == val_payload(v),
{
    match v {
        Val::Bool(b) => if b {
            1
        } else {
            0
        },
        Val::Void => 0,
        Val::U32(n) => n as u64,
        Val::I32(n) => (n as u32) as u64,
        Val::U64(n) => n,
        Val::I64(n) => n as u64,
        Val::Timepoint(n) => n,
        Val::Duration(n) => n,
        Val::Status(e) => etype_rank_u64(e.etype) * 256 + code_rank_u64(e.code),
        Val::Object(h) => h as u64,
    }
}

/// Big-endian byte `k` (`0` is the most significant) of a 64-bit payload.
pub open spec fn be_byte(p: u64, k: int) -> u8 {
    if k == 0 {
        ((p as int / 0x100000000000000) % 256) as u8
    } else if k == 1 {
        ((p as int / 0x1000000000000) % 256) as u8
    } else if k == 2 {
        ((p as int / 0x10000000000) % 256) as u8
    } else if k == 3 {
        ((p as int / 0x100000000) % 256) as u8
    } else if k == 4 {
        ((p as int / 0x1000000) % 256) as u8
    } else if k == 5 {
        ((p as int / 0x10000) % 256) as u8
    } else if k == 6 {
        ((p as int / 0x100) % 256) as u8
    } else {
        (p as int % 256) as u8
    }
}

/// The nine bytes of one value record: the tag, then the payload big-endian.
pub open spec fn val_record(v: Val) -> Seq<u8> {
    seq![
        val_tag(v),
        be_byte(val_payload(v), 0),
        be_byte(val_payload(v), 1),
        be_byte(val_payload(v), 2),
        be_byte(val_payload(v), 3),
        be_byte(val_payload(v), 4),
        be_byte(val_payload(v), 5),
        be_byte(val_payload(v), 6),
        be_byte(val_payload(v), 7),
    ]
}

/// The payload carried by a record's trailing eight big-endian bytes.
pub open spec fn rec_payload(bs: Seq<u8>) -> int {
    bs[1] as int * 0x100000000000000 + bs[2] as int * 0x1000000000000 + bs[3] as int * 0x10000000000
        + bs[4] as int * 0x100000000 + bs[5] as int * 0x1000000 + bs[6] as int * 0x10000 + bs[7] as int
        * 0x100 + bs[8] as int
}

/// The value a nine-byte record decodes to, or `None` when its tag or
/// payload describes no value.
pub open spec fn decode_record(bs: Seq<u8>) -> Option<Val> {
    let tag = bs[0];
    let p = rec_payload(bs);
    if tag == 0 {
        if p == 0 {
            Some(Val::Bool(false))
        } else if p == 1 {
            Some(Val::Bool(true))
        } else {
            None
        }
    } else if tag == 1 {
        if p == 0 {
            Some(Val::Void)
        } else {
            None
        }
    } else if tag == 2 {
        if p <= u32::MAX {
            Some(Val::U32(p as u32))
        } else {
            None
        }
    } else if tag == 3 {
        if p <= u32::MAX {
            Some(Val::I32(p as u32 as i32))
        } else {
            None
        }
    } else if tag == 4 {
        Some(Val::U64(p as u64))
    } else if tag == 5 {
        Some(Val::I64(p as u64 as i64))
    } else if tag == 6 {
        Some(Val::Timepoint(p as u64))
    } else if tag == 7 {
        Some(Val::Duration(p as u64))
    } else if tag == 8 {
        if p / 256 < 10 && p % 256 < 10 {
            Some(
                Val::Status(
                    crate::errors::Error {
                        etype: etype_of_rank(p / 256),
                        code: code_of_rank(p % 256),
                    },
                ),
            )
        } else {
            None
        }
    } else if tag == 9 {
        if p <= u32::MAX {
            Some(Val::Object(p as u32))
        } else {
            None
        }
    } else {
        None
    }
}

/// The record slot `i` of a record array based at `pos`.
pub open spec fn record_slot(m: Seq<u8>, pos: int, i: int) -> Seq<u8> {
    m.subrange(pos + i * (VAL_RECORD_LEN as int), pos + i * (VAL_RECORD_LEN as int) + (
    VAL_RECORD_LEN as int))
}

/// Writes one value record (tag byte, then the payload big-endian) at `pos`.
/// Touches exactly `[pos, pos + VAL_RECORD_LEN)` and leaves that region
/// holding the value's record bytes.
fn write_val_record(mem: &mut VmMemory, pos: usize, v: Val)
    requires
        pos + VAL_RECORD_LEN <= old(mem).data@.len(),
    ensures
        untouched_outside(old(mem).data@, final(mem).data@, pos as int, VAL_RECORD_LEN as int),
        final(mem).data@ == spliced(old(mem).data@, pos as int, val_record(v)),
{
    let n = mem.data.len();
    let p = val_payload_exec(v);
    mem.write_byte(pos, val_tag_exec(v));
    mem.write_byte(pos + 1, ((p / 0x100000000000000u64) % 256) as u8);
    mem.write_byte(pos + 2, ((p / 0x1000000000000u64) % 256) as u8);
    mem.write_byte(pos + 3, ((p / 0x10000000000u64) % 256) as u8);
    mem.write_byte(pos + 4, ((p / 0x100000000u64) % 256) as u8);
    mem.write_byte(pos + 5, ((p / 0x1000000u64) % 256) as u8);
    mem.write_byte(pos + 6, ((p / 0x10000u64) % 256) as u8);
    mem.write_byte(pos + 7, ((p / 0x100u64) % 256) as u8);
    mem.write_byte(pos + 8, (p % 256) as u8);
    proof {
        assert(mem.data@ =~= spliced(old(mem).data@, pos as int, val_record(v)));
    }
}

/// Reads one value record at `pos`. A record whose tag or payload does not
/// describe a value is rejected as `InvalidInput`; nothing is ever trusted
/// from raw bytes without a check. The result is exactly what
/// [`decode_record`] says of the nine bytes read.
fn read_val_record(mem: &VmMemory, pos: usize) -> (r: Result<Val, HostError>)
    requires
        pos + VAL_RECORD_LEN <= mem.data@.len(),
    ensures
        r matches Ok(v) ==> decode_record(
            mem.data@.subrange(pos as int, pos as int + VAL_RECORD_LEN as int),
        ) == Some(v),
        r matches Err(e) ==> decode_record(
            mem.data@.subrange(pos as int, pos as int + VAL_RECORD_LEN as int),
        ) is None && e.error.code == ScErrorCode::InvalidInput,
{
    let ghost bs = mem.data@.subrange(pos as int, pos as int + VAL_RECORD_LEN as int);
    let n = mem.data.len();
    let tag = mem.read_byte(pos);
    let b1 = mem.read_byte(pos + 1) as u64;
    let b2 = mem.read_byte(pos + 2) as u64;
    let b3 = mem.read_byte(pos + 3) as u64;
    let b4 = mem.read_byte(pos + 4) as u64;
    let b5 = mem.read_byte(pos + 5) as u64;
    let b6 = mem.read_byte(pos + 6) as u64;
    let b7 = mem.read_byte(pos + 7) as u64;
    let b8 = mem.read_byte(pos + 8) as u64;
    let p: u64 = b1 * 0x100000000000000u64 + b2 * 0x1000000000000u64 + b3 * 0x10000000000u64 + b4
        * 0x100000000u64 + b5 * 0x1000000u64 + b6 * 0x10000u64 + b7 * 0x100u64 + b8;
    proof {
        assert(bs[0] == tag);
        assert(p as int == rec_payload(bs));
    }
    let invalid = crate::errors::host_err(ScErrorType::Value, ScErrorCode::InvalidInput);
    if tag == 0 {
        if p == 0 {
            Ok(Val::Bool(false))
        } else if p == 1 {
            Ok(Val::Bool(true))
        } else {
            Err(invalid)
        }
    } else if tag == 1 {
        if p == 0 {
            Ok(Val::Void)
        } else {
            Err(invalid)
        }
    } else if tag == 2 {
        if p <= u32::MAX as u64 {
            Ok(Val::U32(p as u32))
        } else {
            Err(invalid)
        }
    } else if tag == 3 {
        if p <= u32::MAX as u64 {
            Ok(Val::I32((p as u32) as i32))
        } else {
            Err(invalid)
        }
    } else if tag == 4 {
        Ok(Val::U64(p))
    } else if tag == 5 {
        Ok(Val::I64(p as i64))
    } else if tag == 6 {
        Ok(Val::Timepoint(p))
    } else if tag == 7 {
        Ok(Val::Duration(p))
    } else if tag == 8 {
        let et = p / 256;
        let cd = p % 256;
        if et < 10 && cd < 10 {
            Ok(
                Val::Status(
                    crate::errors::Error { etype: rank_to_etype(et), code: rank_to_code(cd) },
                ),
            )
        } else {
            Err(invalid)
        }
    } else if tag == 9 {
        if p <= u32::MAX as u64 {
            Ok(Val::Object(p as u32))
        } else {
            Err(invalid)
        }
    } else {
        Err(invalid)
    }
}

impl Host {
    /// Allocates a byte-buffer object from a slice of host data. Succeeds
    /// exactly when the budget covers the allocation and the store has room
    /// for a fresh handle.
    pub fn bytes_new_from_slice(&mut self, data: &Vec<u8>) -> (r: Result<Val, HostError>)
        ensures
            final(self).frames == old(self).frames,
            budget_evolves(old(self).budget, final(self).budget),
            r matches Ok(v) ==> v == Val::Object(old(self).objects@.len() as u32) && final(self).objects@.len() == old(self).objects@.len() + 1 && (final(self).objects@.last()
                matches HostObject::Bytes(b) && b@ == data@),
            r is Ok <==> old(self).budget.spec_charge(
                crate::budget::sat_add(10, data@.len() as u64),
                crate::budget::sat_add(16, data@.len() as u64),
            ).1 && old(self).objects@.len() < u32::MAX,
            r is Err ==> final(self).objects == old(self).objects,
            r matches Err(e) ==> e.error.code == ScErrorCode::ExceededLimit || e.error.code
                == ScErrorCode::InvalidInput,
    {
        self.add_host_object(HostObject::Bytes(crate::convert::copy_bytes(data)))
    }

    /// Allocates a string object from a slice of host data. Succeeds
    /// exactly when the budget covers the allocation and the store has room
    /// for a fresh handle.
    pub fn string_new_from_slice(&mut self, data: &Vec<u8>) -> (r: Result<Val, HostError>)
        ensures
            final(self).frames == old(self).frames,
            budget_evolves(old(self).budget, final(self).budget),
            r matches Ok(v) ==> v == Val::Object(old(self).objects@.len() as u32) && final(self).objects@.len() == old(self).objects@.len() + 1 && (final(self).objects@.last()
                matches HostObject::Text(b) && b@ == data@),
            r is Ok <==> old(self).budget.spec_charge(
                crate::budget::sat_add(10, data@.len() as u64),
                crate::budget::sat_add(16, data@.len() as u64),
            ).1 && old(self).objects@.len() < u32::MAX,
            r is Err ==> final(self).objects == old(self).objects,
            r matches Err(e) ==> e.error.code == ScErrorCode::ExceededLimit || e.error.code
                == ScErrorCode::InvalidInput,
    {
        self.add_host_object(HostObject::Text(crate::convert::copy_bytes(data)))
    }

    /// Copies `len` bytes of a byte or string object, starting at
    /// `obj_pos`, into linear memory at `mem_pos`. Validates both regions
    /// before touching anything and writes only inside the target region.
    pub fn bytes_copy_to_linear_memory(
        &mut self,
        mem: &mut VmMemory,
        obj: Val,
        obj_pos: u32,
        mem_pos: u32,
        len: u32,
    ) -> (r: Result<(), HostError>)
        ensures
            final(self).objects == old(self).objects,
            final(self).frames == old(self).frames,
            budget_evolves(old(self).budget, final(self).budget),
            untouched_outside(old(mem).data@, final(mem).data@, mem_pos as int, len as int),
            r is Ok ==> (obj matches Val::Object(h) && (match old(self).objects@[h as int] {
                HostObject::Bytes(b) => final(mem).data@ == spliced(
                    old(mem).data@,
                    mem_pos as int,
                    b@.subrange(obj_pos as int, obj_pos as int + len as int),
                ),
                HostObject::Text(b) => final(mem).data@ == spliced(
                    old(mem).data@,
                    mem_pos as int,
                    b@.subrange(obj_pos as int, obj_pos as int + len as int),
                ),
                _ => false,
            })),
            r is Ok <==> (old(self).budget.spec_charge(len as u64, 0).1 && (obj matches Val::Object(
                h,
            ) && h < old(self).objects@.len() && mem_pos as int + len as int <= old(
                mem,
            ).data@.len() && (match old(self).objects@[h as int] {
                HostObject::Bytes(b) => obj_pos as int + len as int <= b@.len(),
                HostObject::Text(b) => obj_pos as int + len as int <= b@.len(),
                _ => false,
            }))),
            r is Err ==> final(mem).data@ == old(mem).data@,
            r matches Err(e) ==> (e.error.code == ScErrorCode::ExceededLimit || e.error.code
                == ScErrorCode::MissingValue || e.error.code == ScErrorCode::IndexBounds
                || e.error.code == ScErrorCode::UnexpectedType),
    {
        self.charge(len as u64, 0)?;
        let h = match obj {
            Val::Object(h) => h,
            _ => {
                return Err(
                    crate::errors::host_err(ScErrorType::Value, ScErrorCode::UnexpectedType),
                );
            },
        };
        if h as usize >= self.objects.len() {
            return Err(crate::errors::host_err(ScErrorType::Object, ScErrorCode::MissingValue));
        }
        if (mem_pos as usize) > mem.data.len() || (len as usize) > mem.data.len() - (
        mem_pos as usize) {
            return Err(crate::errors::host_err(ScErrorType::Object, ScErrorCode::IndexBounds));
        }
        let ghost m0 = mem.data@;
        match &self.objects[h as usize] {
            HostObject::Bytes(b) => {
                if (obj_pos as usize) > b.len() || (len as usize) > b.len() - (obj_pos as usize) {
                    return Err(
                        crate::errors::host_err(ScErrorType::Object, ScErrorCode::IndexBounds),
                    );
                }
                let mut i: usize = 0;
                while i < len as usize
                    invariant
                        0 <= i <= len,
                        mem_pos as int + len as int <= mem.data@.len(),
                        obj_pos as int + len as int <= b@.len(),
                        mem.data@.len() <= usize::MAX,
                        b@.len() <= usize::MAX,
                        untouched_outside(m0, mem.data@, mem_pos as int, len as int),
                        forall|k: int| mem_pos as int <= k < mem_pos as int + i ==> #[trigger] mem.data@[k] == b@[obj_pos as int + (k - mem_pos as int)],
                    decreases len as int - i,
                {
                    let byte = b[obj_pos as usize + i];
                    let target = mem_pos as usize + i;
                    let q = &mut mem.data[target];
                    *q = byte;
                    proof {
                        assert(untouched_outside(m0, mem.data@, mem_pos as int, len as int));
                    }
                    i = i + 1;
                }
                proof {
                    assert(mem.data@ =~= spliced(
                        m0,
                        mem_pos as int,
                        b@.subrange(obj_pos as int, obj_pos as int + len as int),
                    ));
                }
                Ok(())
            },
            HostObject::Text(b) => {
                if (obj_pos as usize) > b.len() || (len as usize) > b.len() - (obj_pos as usize) {
                    return Err(
                        crate::errors::host_err(ScErrorType::Object, ScErrorCode::IndexBounds),
                    );
                }
                let mut i: usize = 0;
                while i < len as usize
                    invariant
                        0 <= i <= len,
                        mem_pos as int + len as int <= mem.data@.len(),
                        obj_pos as int + len as int <= b@.len(),
                        mem.data@.len() <= usize::MAX,
                        b@.len() <= usize::MAX,
                        untouched_outside(m0, mem.data@, mem_pos as int, len as int),
                        forall|k: int| mem_pos as int <= k < mem_pos as int + i ==> #[trigger] mem.data@[k] == b@[obj_pos as int + (k - mem_pos as int)],
                    decreases len as int - i,
                {
                    let byte = b[obj_pos as usize + i];
                    let target = mem_pos as usize + i;
                    let q = &mut mem.data[target];
                    *q = byte;
                    proof {
                        assert(untouched_outside(m0, mem.data@, mem_pos as int, len as int));
                    }
                    i = i + 1;
                }
                proof {
                    assert(mem.data@ =~= spliced(
                        m0,
                        mem_pos as int,
                        b@.subrange(obj_pos as int, obj_pos as int + len as int),
                    ));
                }
                Ok(())
            },
            _ => Err(crate::errors::host_err(ScErrorType::Value, ScErrorCode::UnexpectedType)),
        }
    }

    /// Builds a fresh byte-buffer object from `len` bytes of linear memory
    /// at `mem_pos`; the memory is only read.
    pub fn bytes_new_from_linear_memory(
        &mut self,
        mem: &VmMemory,
        mem_pos: u32,
        len: u32,
    ) -> (r: Result<Val, HostError>)
        ensures
            final(self).frames == old(self).frames,
            budget_evolves(old(self).budget, final(self).budget),
            r matches Ok(v) ==> v == Val::Object(old(self).objects@.len() as u32) && final(self).objects@.len() == old(self).objects@.len() + 1 && (final(self).objects@.last()
                matches HostObject::Bytes(b) && b@ == mem.data@.subrange(
                mem_pos as int,
                mem_pos as int + len as int,
            )),
            r is Ok <==> ({
                let c1 = old(self).budget.spec_charge(len as u64, 0);
                &&& c1.1
                &&& mem_pos as int + len as int <= mem.data@.len()
                &&& c1.0.spec_charge(
                    crate::budget::sat_add(10, len as u64),
                    crate::budget::sat_add(16, len as u64),
                ).1
                &&& old(self).objects@.len() < u32::MAX
            }),
            r is Err ==> final(self).objects == old(self).objects,
            r matches Err(e) ==> (e.error.code == ScErrorCode::ExceededLimit || e.error.code
                == ScErrorCode::IndexBounds || e.error.code == ScErrorCode::InvalidInput),
    {
        self.charge(len as u64, 0)?;
        if (mem_pos as usize) > mem.data.len() || (len as usize) > mem.data.len() - (
        mem_pos as usize) {
            return Err(crate::errors::host_err(ScErrorType::Object, ScErrorCode::IndexBounds));
        }
        let mut out: Vec<u8> = Vec::new();
        let mut i: usize = 0;
        while i < len as usize
            invariant
                0 <= i <= len,
                mem_pos as int + len as int <= mem.data@.len(),
                mem.data@.len() <= usize::MAX,
                out@ == mem.data@.subrange(mem_pos as int, mem_pos as int + i as int),
            decreases len as int - i,
        {
            out.push(mem.data[mem_pos as usize + i]);
            proof {
                assert(out@ =~= mem.data@.subrange(mem_pos as int, mem_pos as int + i + 1));
            }
            i = i + 1;
        }
        self.add_host_object(HostObject::Bytes(out))
    }

    /// Like [`Host::bytes_new_from_linear_memory`], but builds a string object.
    pub fn string_new_from_linear_memory(
        &mut self,
        mem: &VmMemory,
        mem_pos: u32,
        len: u32,
    ) -> (r: Result<Val, HostError>)
        ensures
            final(self).frames == old(self).frames,
            budget_evolves(old(self).budget, final(self).budget),
            r matches Ok(v) ==> v == Val::Object(old(self).objects@.len() as u32) && final(self).objects@.len() == old(self).objects@.len() + 1 && (final(self).objects@.last()
                matches HostObject::Text(b) && b@ == mem.data@.subrange(
                mem_pos as int,
                mem_pos as int + len as int,
            )),
            r is Ok <==> ({
                let c1 = old(self).budget.spec_charge(len as u64, 0);
                &&& c1.1
                &&& mem_pos as int + len as int <= mem.data@.len()
                &&& c1.0.spec_charge(
                    crate::budget::sat_add(10, len as u64),
                    crate::budget::sat_add(16, len as u64),
                ).1
                &&& old(self).objects@.len() < u32::MAX
            }),
            r is Err ==> final(self).objects == old(self).objects,
            r matches Err(e) ==> (e.error.code == ScErrorCode::ExceededLimit || e.error.code
                == ScErrorCode::IndexBounds || e.error.code == ScErrorCode::InvalidInput),
    {
        self.charge(len as u64, 0)?;
        if (mem_pos as usize) > mem.data.len() || (len as usize) > mem.data.len() - (
        mem_pos as usize) {
            return Err(crate::errors::host_err(ScErrorType::Object, ScErrorCode::IndexBounds));
        }
        let mut out: Vec<u8> = Vec::new();
        let mut i: usize = 0;
        while i < len as usize
            invariant
                0 <= i <= len,
                mem_pos as int + len as int <= mem.data@.len(),
                mem.data@.len() <= usize::MAX,
                out@ == mem.data@.subrange(mem_pos as int, mem_pos as int + i as int),
            decreases len as int - i,
        {
            out.push(mem.data[mem_pos as usize + i]);
            proof {
                assert(out@ =~= mem.data@.subrange(mem_pos as int, mem_pos as int + i + 1));
            }
            i = i + 1;
        }
        self.add_host_object(HostObject::Text(out))
    }

    /// Copies a string object to linear memory; alias of the byte copy with
    /// a string source.
    pub fn string_copy_to_linear_memory(
        &mut self,
        mem: &mut VmMemory,
        obj: Val,
        obj_pos: u32,
        mem_pos: u32,
        len: u32,
    ) -> (r: Result<(), HostError>)
        ensures
            final(self).objects == old(self).objects,
            final(self).frames == old(self).frames,
            budget_evolves(old(self).budget, final(self).budget),
            untouched_outside(old(mem).data@, final(mem).data@, mem_pos as int, len as int),
            r is Ok ==> (obj matches Val::Object(h) && (match old(self).objects@[h as int] {
                HostObject::Bytes(b) => final(mem).data@ == spliced(
                    old(mem).data@,
                    mem_pos as int,
                    b@.subrange(obj_pos as int, obj_pos as int + len as int),
                ),
                HostObject::Text(b) => final(mem).data@ == spliced(
                    old(mem).data@,
                    mem_pos as int,
                    b@.subrange(obj_pos as int, obj_pos as int + len as int),
                ),
                _ => false,
            })),
            r is Ok <==> (old(self).budget.spec_charge(len as u64, 0).1 && (obj matches Val::Object(
                h,
            ) && h < old(self).objects@.len() && mem_pos as int + len as int <= old(
                mem,
            ).data@.len() && (match old(self).objects@[h as int] {
                HostObject::Bytes(b) => obj_pos as int + len as int <= b@.len(),
                HostObject::Text(b) => obj_pos as int + len as int <= b@.len(),
                _ => false,
            }))),
            r is Err ==> final(mem).data@ == old(mem).data@,
            r matches Err(e) ==> (e.error.code == ScErrorCode::ExceededLimit || e.error.code
                == ScErrorCode::MissingValue || e.error.code == ScErrorCode::IndexBounds
                || e.error.code == ScErrorCode::UnexpectedType),
    {
        self.bytes_copy_to_linear_memory(mem, obj, obj_pos, mem_pos, len)
    }

    /// Returns a new byte-buffer object equal to `obj` with the bytes at
    /// `[obj_pos, obj_pos + len)` replaced by linear memory content read at
    /// `mem_pos`.
    pub fn bytes_copy_from_linear_memory(
        &mut self,
        mem: &VmMemory,
        obj: Val,
        obj_pos: u32,
        mem_pos: u32,
        len: u32,
    ) -> (r: Result<Val, HostError>)
        ensures
            final(self).frames == old(self).frames,
            budget_evolves(old(self).budget, final(self).budget),
            r matches Ok(v) ==> v == Val::Object(old(self).objects@.len() as u32) && final(self).objects@.len() == old(self).objects@.len() + 1 && (obj matches Val::Object(h) && (old(self).objects@[h as int] matches HostObject::Bytes(b) && (final(self).objects@.last()
                matches HostObject::Bytes(c) && c@ == spliced(
                b@,
                obj_pos as int,
                mem.data@.subrange(mem_pos as int, mem_pos as int + len as int),
            )))),
            r is Ok <==> ({
                let c1 = old(self).budget.spec_charge(len as u64, len as u64);
                &&& c1.1
                &&& (obj matches Val::Object(h) && h < old(self).objects@.len() && mem_pos as int
                    + len as int <= mem.data@.len() && (old(self).objects@[h as int]
                    matches HostObject::Bytes(b) && obj_pos as int + len as int <= b@.len()
                    && c1.0.spec_charge(
                    crate::budget::sat_add(10, b@.len() as u64),
                    crate::budget::sat_add(16, b@.len() as u64),
                ).1))
                &&& old(self).objects@.len() < u32::MAX
            }),
            r is Err ==> final(self).objects == old(self).objects,
            r matches Err(e) ==> (e.error.code == ScErrorCode::ExceededLimit || e.error.code
                == ScErrorCode::MissingValue || e.error.code == ScErrorCode::IndexBounds
                || e.error.code == ScErrorCode::UnexpectedType || e.error.code
                == ScErrorCode::InvalidInput),
    {
        self.charge(len as u64, len as u64)?;
        let h = match obj {
            Val::Object(h) => h,
            _ => {
                return Err(
                    crate::errors::host_err(ScErrorType::Value, ScErrorCode::UnexpectedType),
                );
            },
        };
        if h as usize >= self.objects.len() {
            return Err(crate::errors::host_err(ScErrorType::Object, ScErrorCode::MissingValue));
        }
        if (mem_pos as usize) > mem.data.len() || (len as usize) > mem.data.len() - (
        mem_pos as usize) {
            return Err(crate::errors::host_err(ScErrorType::Object, ScErrorCode::IndexBounds));
        }
        let out: Vec<u8> = match &self.objects[h as usize] {
            HostObject::Bytes(b) => {
                if (obj_pos as usize) > b.len() || (len as usize) > b.len() - (obj_pos as usize) {
                    return Err(
                        crate::errors::host_err(ScErrorType::Object, ScErrorCode::IndexBounds),
                    );
                }
                let mut out: Vec<u8> = Vec::new();
                let mut i: usize = 0;
                while i < b.len()
                    invariant
                        0 <= i <= b@.len(),
                        obj_pos as int + len as int <= b@.len(),
                        mem_pos as int + len as int <= mem.data@.len(),
                        b@.len() <= usize::MAX,
                        mem.data@.len() <= usize::MAX,
                        out@.len() == i,
                        forall|k: int| 0 <= k < i ==> out@[k] == (if obj_pos as int <= k < obj_pos as int
                            + len as int {
                            mem.data@[mem_pos as int + (k - obj_pos as int)]
                        } else {
                            b@[k]
                        }),
                    decreases b@.len() - i,
                {
                    if i >= obj_pos as usize && i < obj_pos as usize + len as usize {
                        out.push(mem.data[mem_pos as usize + (i - obj_pos as usize)]);
                    } else {
                        out.push(b[i]);
                    }
                    i = i + 1;
                }
                proof {
                    assert(out@ =~= spliced(
                        b@,
                        obj_pos as int,
                        mem.data@.subrange(mem_pos as int, mem_pos as int + len as int),
                    ));
                }
                out
            },
            _ => {
                return Err(
                    crate::errors::host_err(ScErrorType::Value, ScErrorCode::UnexpectedType),
                );
            },
        };
        self.add_host_object(HostObject::Bytes(out))
    }

    /// Writes the elements of a vector object into linear memory as value
    /// records at `pos`; `len` must match the vector's length. Touches only
    /// `[pos, pos + len * VAL_RECORD_LEN)`, and on success that region holds
    /// exactly the elements' records, slot by slot.
    pub fn vec_unpack_to_linear_memory(
        &mut self,
        mem: &mut VmMemory,
        obj: Val,
        pos: u32,
        len: u32,
    ) -> (r: Result<(), HostError>)
        ensures
            final(self).objects == old(self).objects,
            final(self).frames == old(self).frames,
            budget_evolves(old(self).budget, final(self).budget),
            untouched_outside(
                old(mem).data@,
                final(mem).data@,
                pos as int,
                len as int * VAL_RECORD_LEN as int,
            ),
            r is Ok ==> (obj matches Val::Object(h) && (old(self).objects@[h as int]
                matches HostObject::Vector(xs) && xs@.len() == len && forall|i: int|
                0 <= i < len ==> record_slot(final(mem).data@, pos as int, i) == val_record(
                    #[trigger] xs@[i],
                ))),
            r is Ok <==> (old(self).budget.spec_charge(len as u64, 0).1 && (obj
                matches Val::Object(h) && h < old(self).objects@.len() && (old(self).objects@[h as int] matches HostObject::Vector(xs) && xs@.len() == len) && len as int
                * VAL_RECORD_LEN as int <= usize::MAX && pos as int + len as int
                * VAL_RECORD_LEN as int <= old(mem).data@.len())),
            r is Err ==> final(mem).data@ == old(mem).data@,
            r matches Err(e) ==> (e.error.code == ScErrorCode::ExceededLimit || e.error.code
                == ScErrorCode::MissingValue || e.error.code == ScErrorCode::IndexBounds
                || e.error.code == ScErrorCode::UnexpectedType || e.error.code
                == ScErrorCode::UnexpectedSize),
    {
        self.charge(len as u64, 0)?;
        let h = match obj {
            Val::Object(h) => h,
            _ => {
                return Err(
                    crate::errors::host_err(ScErrorType::Value, ScErrorCode::UnexpectedType),
                );
            },
        };
        if h as usize >= self.objects.len() {
            return Err(crate::errors::host_err(ScErrorType::Object, ScErrorCode::MissingValue));
        }
        let span = (len as usize).checked_mul(VAL_RECORD_LEN);
        let span = match span {
            Some(s) => s,
            None => {
                return Err(
                    crate::errors::host_err(ScErrorType::Object, ScErrorCode::IndexBounds),
                );
            },
        };
        if (pos as usize) > mem.data.len() || span > mem.data.len() - (pos as usize) {
            return Err(crate::errors::host_err(ScErrorType::Object, ScErrorCode::IndexBounds));
        }
        let vals: Vec<Val> = match &self.objects[h as usize] {
            HostObject::Vector(xs) => {
                if xs.len() != len as usize {
                    return Err(
                        crate::errors::host_err(ScErrorType::Object, ScErrorCode::UnexpectedSize),
                    );
                }
                let mut out: Vec<Val> = Vec::new();
                let mut i: usize = 0;
                while i < xs.len()
                    invariant
                        0 <= i <= xs@.len(),
                        out@ == xs@.take(i as int),
                    decreases xs@.len() - i,
                {
                    out.push(xs[i]);
                    proof {
                        assert(out@ =~= xs@.take(i + 1));
                    }
                    i = i + 1;
                }
                proof {
                    assert(out@ =~= xs@);
                }
                out
            },
            _ => {
                return Err(
                    crate::errors::host_err(ScErrorType::Value, ScErrorCode::UnexpectedType),
                );
            },
        };
        let ghost m0 = mem.data@;
        let mut i: usize = 0;
        while i < vals.len()
            invariant
                0 <= i <= vals@.len(),
                vals@.len() == len,
                pos as int + len as int * VAL_RECORD_LEN as int <= mem.data@.len(),
                mem.data@.len() <= usize::MAX,
                untouched_outside(m0, mem.data@, pos as int, len as int * VAL_RECORD_LEN as int),
                forall|j: int| 0 <= j < i ==> record_slot(mem.data@, pos as int, j) == val_record(
                    #[trigger] vals@[j],
                ),
            decreases vals@.len() - i,
        {
            let ghost m_pre = mem.data@;
            write_val_record(mem, pos as usize + i * VAL_RECORD_LEN, vals[i]);
            proof {
                let w = pos as int + i as int * (VAL_RECORD_LEN as int);
                assert forall|j: int| 0 <= j < i + 1 implies record_slot(mem.data@, pos as int, j)
                    == val_record(#[trigger] vals@[j]) by {
                    if j < i {
                        assert(record_slot(mem.data@, pos as int, j) =~= record_slot(
                            m_pre,
                            pos as int,
                            j,
                        ));
                    } else {
                        assert(record_slot(mem.data@, pos as int, j) =~= val_record(vals@[j]));
                    }
                }
                assert(untouched_outside(
                    m0,
                    mem.data@,
                    pos as int,
                    len as int * VAL_RECORD_LEN as int,
                ));
            }
            i = i + 1;
        }
        Ok(())
    }

    /// Reads `len` value records from linear memory at `pos` and builds a
    /// fresh vector object from them. Corrupted records and unresolvable
    /// handles are typed errors; success comes exactly when the region is
    /// in bounds, every record decodes and resolves, and the budget covers
    /// the read and the allocation.
    pub fn vec_new_from_linear_memory(
        &mut self,
        mem: &VmMemory,
        pos: u32,
        len: u32,
    ) -> (r: Result<Val, HostError>)
        ensures
            final(self).frames == old(self).frames,
            budget_evolves(old(self).budget, final(self).budget),
            r matches Ok(v) ==> v == Val::Object(old(self).objects@.len() as u32) && final(self).objects@.len() == old(self).objects@.len() + 1 && (final(self).objects@.last()
                matches HostObject::Vector(xs) && xs@.len() == len && forall|i: int|
                0 <= i < len ==> decode_record(record_slot(mem.data@, pos as int, i)) == Some(
                    #[trigger] xs@[i],
                )),
            r is Ok <==> ({
                let c1 = old(self).budget.spec_charge(len as u64, len as u64);
                &&& c1.1
                &&& len as int * VAL_RECORD_LEN as int <= usize::MAX
                &&& pos as int + len as int * VAL_RECORD_LEN as int <= mem.data@.len()
                &&& (forall|i: int| 0 <= i < len ==> ((#[trigger] decode_record(
                    record_slot(mem.data@, pos as int, i),
                )) matches Some(v) && crate::val::val_ref_below(v, old(self).objects@.len() as int)))
                &&& c1.0.spec_charge(
                    crate::budget::sat_add(10, len as u64),
                    crate::budget::sat_add(16, len as u64),
                ).1
                &&& old(self).objects@.len() < u32::MAX
            }),
            r is Err ==> final(self).objects == old(self).objects,
            r matches Err(e) ==> (e.error.code == ScErrorCode::ExceededLimit || e.error.code
                == ScErrorCode::MissingValue || e.error.code == ScErrorCode::IndexBounds
                || e.error.code == ScErrorCode::InvalidInput),
    {
        self.charge(len as u64, len as u64)?;
        let span = (len as usize).checked_mul(VAL_RECORD_LEN);
        let span = match span {
            Some(s) => s,
            None => {
                return Err(
                    crate::errors::host_err(ScErrorType::Object, ScErrorCode::IndexBounds),
                );
            },
        };
        if (pos as usize) > mem.data.len() || span > mem.data.len() - (pos as usize) {
            return Err(crate::errors::host_err(ScErrorType::Object, ScErrorCode::IndexBounds));
        }
        let mut vals: Vec<Val> = Vec::new();
        let mut i: usize = 0;
        while i < len as usize
            invariant
                0 <= i <= len,
                pos as int + len as int * VAL_RECORD_LEN as int <= mem.data@.len(),
                mem.data@.len() <= usize::MAX,
                forall|j: int| 0 <= j < vals@.len() ==> crate::val::val_ref_below(
                    #[trigger] vals@[j],
                    self.objects@.len() as int,
                ),
                forall|j: int| 0 <= j < vals@.len() ==> decode_record(
                    record_slot(mem.data@, pos as int, j),
                ) == Some(#[trigger] vals@[j]),
                vals@.len() == i,
                self.objects@.len() == old(self).objects@.len(),
                self.objects == old(self).objects,
                self.frames == old(self).frames,
                self.budget == old(self).budget.spec_charge(len as u64, len as u64).0,
                budget_evolves(old(self).budget, self.budget),
            decreases len as int - i,
        {
            let ghost slot = record_slot(mem.data@, pos as int, i as int);
            proof {
                assert(slot =~= mem.data@.subrange(
                    pos as int + i as int * (VAL_RECORD_LEN as int),
                    pos as int + i as int * (VAL_RECORD_LEN as int) + VAL_RECORD_LEN as int,
                ));
            }
            let v = match read_val_record(mem, pos as usize + i * VAL_RECORD_LEN) {
                Ok(v) => v,
                Err(e) => {
                    return Err(e);
                },
            };
            if !crate::val::val_ref_below_exec(v, self.objects.len()) {
                return Err(
                    crate::errors::host_err(ScErrorType::Object, ScErrorCode::MissingValue),
                );
            }
            vals.push(v);
            i = i + 1;
        }
        proof {
            assert forall|j: int| 0 <= j < len implies ((#[trigger] decode_record(
                record_slot(mem.data@, pos as int, j),
            )) matches Some(v) && crate::val::val_ref_below(
                v,
                old(self).objects@.len() as int,
            )) by {
                assert(decode_record(record_slot(mem.data@, pos as int, j)) == Some(vals@[j]));
                assert(crate::val::val_ref_below(vals@[j], self.objects@.len() as int));
            }
            assert(crate::host::obj_refs_below(
                HostObject::Vector(vals),
                self.objects@.len() as int,
            ));
        }
        self.add_host_object(HostObject::Vector(vals))
    }

    /// Builds a fresh vector object holding a map object's keys, in order.
    /// Succeeds exactly when the handle resolves to a map whose keys the
    /// store can reference, the budget covers the allocation, and the store
    /// has room.
    pub fn map_keys(&mut self, obj: Val) -> (r: Result<Val, HostError>)
        ensures
            final(self).frames == old(self).frames,
            budget_evolves(old(self).budget, final(self).budget),
            r matches Ok(v) ==> v == Val::Object(old(self).objects@.len() as u32) && final(self).objects@.len() == old(self).objects@.len() + 1 && (obj matches Val::Object(h)
                && old(self).objects@[h as int] matches HostObject::Mapping(ps) && (final(self).objects@.last() matches HostObject::Vector(ks) && ks@.len() == ps@.len() && forall|
                i: int,
            | 0 <= i < ps@.len() ==> ks@[i] == (#[trigger] ps@[i]).key)),
            r is Ok <==> (obj matches Val::Object(h) && h < old(self).objects@.len() && (old(self).objects@[h as int] matches HostObject::Mapping(ps) && old(self).budget.spec_charge(
                crate::budget::sat_add(10, ps@.len() as u64),
                crate::budget::sat_add(16, ps@.len() as u64),
            ).1 && (forall|i: int| 0 <= i < ps@.len() ==> crate::val::val_ref_below(
                (#[trigger] ps@[i]).key,
                old(self).objects@.len() as int,
            )) && old(self).objects@.len() < u32::MAX)),
            r is Err ==> final(self).objects == old(self).objects,
            r matches Err(e) ==> (e.error.code == ScErrorCode::ExceededLimit || e.error.code
                == ScErrorCode::MissingValue || e.error.code == ScErrorCode::UnexpectedType
                || e.error.code == ScErrorCode::InvalidInput),
    {
        let h = match obj {
            Val::Object(h) => h,
            _ => {
                return Err(
                    crate::errors::host_err(ScErrorType::Value, ScErrorCode::UnexpectedType),
                );
            },
        };
        if h as usize >= self.objects.len() {
            return Err(crate::errors::host_err(ScErrorType::Object, ScErrorCode::MissingValue));
        }
        let keys: Vec<Val> = match &self.objects[h as usize] {
            HostObject::Mapping(ps) => {
                let mut out: Vec<Val> = Vec::new();
                let mut i: usize = 0;
                while i < ps.len()
                    invariant
                        0 <= i <= ps@.len(),
                        out@.len() == i,
                        forall|j: int| 0 <= j < i ==> out@[j] == (#[trigger] ps@[j]).key,
                    decreases ps@.len() - i,
                {
                    out.push(ps[i].key);
                    i = i + 1;
                }
                out
            },
            _ => {
                return Err(
                    crate::errors::host_err(ScErrorType::Value, ScErrorCode::UnexpectedType),
                );
            },
        };
        proof {
            let bound = self.objects@.len() as int;
            match self.objects@[h as int] {
                HostObject::Mapping(psv) => {
                    assert(keys@.len() == psv@.len());
                    assert forall|i: int| 0 <= i < keys@.len() implies (crate::val::val_ref_below(
                        #[trigger] keys@[i],
                        bound,
                    ) <==> crate::val::val_ref_below(psv@[i].key, bound)) by {
                        assert(keys@[i] == psv@[i].key);
                    }
                },
                _ => {
                    assert(false);
                },
            }
        }
        self.add_host_object(HostObject::Vector(keys))
    }

    /// Builds a fresh vector object holding a map object's values, in
    /// order. Succeeds exactly when the handle resolves to a map whose
    /// values the store can reference, the budget covers the allocation,
    /// and the store has room.
    pub fn map_values(&mut self, obj: Val) -> (r: Result<Val, HostError>)
        ensures
            final(self).frames == old(self).frames,
            budget_evolves(old(self).budget, final(self).budget),
            r matches Ok(v) ==> v == Val::Object(old(self).objects@.len() as u32) && final(self).objects@.len() == old(self).objects@.len() + 1 && (obj matches Val::Object(h)
                && old(self).objects@[h as int] matches HostObject::Mapping(ps) && (final(self).objects@.last() matches HostObject::Vector(vs) && vs@.len() == ps@.len() && forall|
                i: int,
            | 0 <= i < ps@.len() ==> vs@[i] == (#[trigger] ps@[i]).val)),
            r is Ok <==> (obj matches Val::Object(h) && h < old(self).objects@.len() && (old(self).objects@[h as int] matches HostObject::Mapping(ps) && old(self).budget.spec_charge(
                crate::budget::sat_add(10, ps@.len() as u64),
                crate::budget::sat_add(16, ps@.len() as u64),
            ).1 && (forall|i: int| 0 <= i < ps@.len() ==> crate::val::val_ref_below(
                (#[trigger] ps@[i]).val,
                old(self).objects@.len() as int,
            )) && old(self).objects@.len() < u32::MAX)),
            r is Err ==> final(self).objects == old(self).objects,
            r matches Err(e) ==> (e.error.code == ScErrorCode::ExceededLimit || e.error.code
                == ScErrorCode::MissingValue || e.error.code == ScErrorCode::UnexpectedType
                || e.error.code == ScErrorCode::InvalidInput),
    {
        let h = match obj {
            Val::Object(h) => h,
            _ => {
                return Err(
                    crate::errors::host_err(ScErrorType::Value, ScErrorCode::UnexpectedType),
                );
            },
        };
        if h as usize >= self.objects.len() {
            return Err(crate::errors::host_err(ScErrorType::Object, ScErrorCode::MissingValue));
        }
        let vs: Vec<Val> = match &self.objects[h as usize] {
            HostObject::Mapping(ps) => {
                let mut out: Vec<Val> = Vec::new();
                let mut i: usize = 0;
                while i < ps.len()
                    invariant
                        0 <= i <= ps@.len(),
                        out@.len() == i,
                        forall|j: int| 0 <= j < i ==> out@[j] == (#[trigger] ps@[j]).val,
                    decreases ps@.len() - i,
                {
                    out.push(ps[i].val);
                    i = i + 1;
                }
                out
            },
            _ => {
                return Err(
                    crate::errors::host_err(ScErrorType::Value, ScErrorCode::UnexpectedType),
                );
            },
        };
        proof {
            let bound = self.objects@.len() as int;
            match self.objects@[h as int] {
                HostObject::Mapping(psv) => {
                    assert(vs@.len() == psv@.len());
                    assert forall|i: int| 0 <= i < vs@.len() implies (crate::val::val_ref_below(
                        #[trigger] vs@[i],
                        bound,
                    ) <==> crate::val::val_ref_below(psv@[i].val, bound)) by {
                        assert(vs@[i] == psv@[i].val);
                    }
                },
                _ => {
                    assert(false);
                },
            }
        }
        self.add_host_object(HostObject::Vector(vs))
    }

    /// Writes a map object's keys as records at `keys_pos` and its values
    /// as records at `vals_pos`; `len` must match the map's size. Each
    /// region is validated independently; nothing outside the two regions
    /// is touched, the value region ends up holding the values' records,
    /// and so does the key region for the keys whenever the two regions do
    /// not overlap (overlapping regions are written keys first).
    pub fn map_unpack_to_linear_memory(
        &mut self,
        mem: &mut VmMemory,
        obj: Val,
        keys_pos: u32,
        vals_pos: u32,
        len: u32,
    ) -> (r: Result<(), HostError>)
        ensures
            final(self).objects == old(self).objects,
            final(self).frames == old(self).frames,
            budget_evolves(old(self).budget, final(self).budget),
            final(mem).data@.len() == old(mem).data@.len(),
            forall|k: int|
                0 <= k < old(mem).data@.len() && !(keys_pos as int <= k < keys_pos as int
                    + len as int * VAL_RECORD_LEN as int) && !(vals_pos as int <= k < vals_pos as int
                    + len as int * VAL_RECORD_LEN as int) ==> #[trigger] final(mem).data@[k] == old(
                    mem,
                ).data@[k],
            r is Ok ==> (obj matches Val::Object(h) && (old(self).objects@[h as int]
                matches HostObject::Mapping(ps) && ps@.len() == len && (forall|i: int|
                0 <= i < len ==> record_slot(final(mem).data@, vals_pos as int, i) == val_record(
                    (#[trigger] ps@[i]).val,
                )) && ((keys_pos as int + len as int * VAL_RECORD_LEN as int <= vals_pos as int
                || vals_pos as int + len as int * VAL_RECORD_LEN as int <= keys_pos as int)
                ==> forall|i: int|
                0 <= i < len ==> record_slot(final(mem).data@, keys_pos as int, i) == val_record(
                    (#[trigger] ps@[i]).key,
                )))),
            r is Ok <==> (old(self).budget.spec_charge((2 * len as u64) as u64, 0).1 && (obj
                matches Val::Object(h) && h < old(self).objects@.len() && (old(self).objects@[h as int] matches HostObject::Mapping(ps) && ps@.len() == len) && len as int
                * VAL_RECORD_LEN as int <= usize::MAX && keys_pos as int + len as int
                * VAL_RECORD_LEN as int <= old(mem).data@.len() && vals_pos as int + len as int
                * VAL_RECORD_LEN as int <= old(mem).data@.len())),
            r is Err ==> final(mem).data@ == old(mem).data@,
            r matches Err(e) ==> (e.error.code == ScErrorCode::ExceededLimit || e.error.code
                == ScErrorCode::MissingValue || e.error.code == ScErrorCode::IndexBounds
                || e.error.code == ScErrorCode::UnexpectedType || e.error.code
                == ScErrorCode::UnexpectedSize),
    {
        self.charge(2 * len as u64, 0)?;
        let h = match obj {
            Val::Object(h) => h,
            _ => {
                return Err(
                    crate::errors::host_err(ScErrorType::Value, ScErrorCode::UnexpectedType),
                );
            },
        };
        if h as usize >= self.objects.len() {
            return Err(crate::errors::host_err(ScErrorType::Object, ScErrorCode::MissingValue));
        }
        let span = (len as usize).checked_mul(VAL_RECORD_LEN);
        let span = match span {
            Some(s) => s,
            None => {
                return Err(
                    crate::errors::host_err(ScErrorType::Object, ScErrorCode::IndexBounds),
                );
            },
        };
        if (keys_pos as usize) > mem.data.len() || span > mem.data.len() - (keys_pos as usize) {
            return Err(crate::errors::host_err(ScErrorType::Object, ScErrorCode::IndexBounds));
        }
        if (vals_pos as usize) > mem.data.len() || span > mem.data.len() - (vals_pos as usize) {
            return Err(crate::errors::host_err(ScErrorType::Object, ScErrorCode::IndexBounds));
        }
        let pairs: Vec<MapPair> = match &self.objects[h as usize] {
            HostObject::Mapping(ps) => {
                if ps.len() != len as usize {
                    return Err(
                        crate::errors::host_err(ScErrorType::Object, ScErrorCode::UnexpectedSize),
                    );
                }
                let mut out: Vec<MapPair> = Vec::new();
                let mut i: usize = 0;
                while i < ps.len()
                    invariant
                        0 <= i <= ps@.len(),
                        out@ == ps@.take(i as int),
                    decreases ps@.len() - i,
                {
                    out.push(ps[i]);
                    proof {
                        assert(out@ =~= ps@.take(i + 1));
                    }
                    i = i + 1;
                }
                proof {
                    assert(out@ =~= ps@);
                }
                out
            },
            _ => {
                return Err(
                    crate::errors::host_err(ScErrorType::Value, ScErrorCode::UnexpectedType),
                );
            },
        };
        let ghost m0 = mem.data@;
        let ghost span = len as int * VAL_RECORD_LEN as int;
        let mut i: usize = 0;
        while i < pairs.len()
            invariant
                0 <= i <= pairs@.len(),
                pairs@.len() == len,
                keys_pos as int + len as int * VAL_RECORD_LEN as int <= mem.data@.len(),
                vals_pos as int + len as int * VAL_RECORD_LEN as int <= mem.data@.len(),
                mem.data@.len() <= usize::MAX,
                span == len as int * VAL_RECORD_LEN as int,
                m0 == old(mem).data@,
                untouched_outside(m0, mem.data@, keys_pos as int, span),
                forall|j: int| 0 <= j < i ==> record_slot(mem.data@, keys_pos as int, j)
                    == val_record((#[trigger] pairs@[j]).key),
            decreases pairs@.len() - i,
        {
            let ghost m_pre = mem.data@;
            write_val_record(mem, keys_pos as usize + i * VAL_RECORD_LEN, pairs[i].key);
            proof {
                assert forall|j: int| 0 <= j < i + 1 implies record_slot(
                    mem.data@,
                    keys_pos as int,
                    j,
                ) == val_record((#[trigger] pairs@[j]).key) by {
                    if j < i {
                        assert(record_slot(mem.data@, keys_pos as int, j) =~= record_slot(
                            m_pre,
                            keys_pos as int,
                            j,
                        ));
                    } else {
                        assert(record_slot(mem.data@, keys_pos as int, j) =~= val_record(
                            pairs@[j].key,
                        ));
                    }
                }
                assert(untouched_outside(m0, mem.data@, keys_pos as int, span));
            }
            i = i + 1;
        }
        let ghost m1 = mem.data@;
        let mut i: usize = 0;
        while i < pairs.len()
            invariant
                0 <= i <= pairs@.len(),
                pairs@.len() == len,
                keys_pos as int + len as int * VAL_RECORD_LEN as int <= mem.data@.len(),
                vals_pos as int + len as int * VAL_RECORD_LEN as int <= mem.data@.len(),
                mem.data@.len() <= usize::MAX,
                span == len as int * VAL_RECORD_LEN as int,
                m1.len() == mem.data@.len(),
                untouched_outside(m1, mem.data@, vals_pos as int, span),
                forall|j: int| 0 <= j < i ==> record_slot(mem.data@, vals_pos as int, j)
                    == val_record((#[trigger] pairs@[j]).val),
            decreases pairs@.len() - i,
        {
            let ghost m_pre = mem.data@;
            write_val_record(mem, vals_pos as usize + i * VAL_RECORD_LEN, pairs[i].val);
            proof {
                assert forall|j: int| 0 <= j < i + 1 implies record_slot(
                    mem.data@,
                    vals_pos as int,
                    j,
                ) == val_record((#[trigger] pairs@[j]).val) by {
                    if j < i {
                        assert(record_slot(mem.data@, vals_pos as int, j) =~= record_slot(
                            m_pre,
                            vals_pos as int,
                            j,
                        ));
                    } else {
                        assert(record_slot(mem.data@, vals_pos as int, j) =~= val_record(
                            pairs@[j].val,
                        ));
                    }
                }
                assert(untouched_outside(m1, mem.data@, vals_pos as int, span));
            }
            i = i + 1;
        }
        proof {
            if keys_pos as int + span <= vals_pos as int || vals_pos as int + span
                <= keys_pos as int {
                assert forall|j: int| 0 <= j < len implies record_slot(
                    mem.data@,
                    keys_pos as int,
                    j,
                ) == val_record((#[trigger] pairs@[j]).key) by {
                    assert(record_slot(mem.data@, keys_pos as int, j) =~= record_slot(
                        m1,
                        keys_pos as int,
                        j,
                    ));
                }
            }
        }
        Ok(())
    }

    /// Reconstructs a map object from `len` key records at `keys_pos` and
    /// `len` value records at `vals_pos`. Keys must decode, resolve and be
    /// strictly ascending under the metered comparator; anything else —
    /// including any corruption of the record bytes — is a typed error,
    #[verifier::rlimit(100)]
    #[verifier::spinoff_prover]
    pub fn map_new_from_linear_memory(
        &mut self,
        mem: &VmMemory,
        keys_pos: u32,
        vals_pos: u32,
        len: u32,
    ) -> (r: Result<Val, HostError>)
        ensures
            final(self).frames == old(self).frames,
            budget_evolves(old(self).budget, final(self).budget),
            r is Err ==> final(self).objects == old(self).objects,
            r matches Ok(v) ==> v == Val::Object(old(self).objects@.len() as u32) && final(self).objects@.len() == old(self).objects@.len() + 1 && (final(self).objects@.last()
                matches HostObject::Mapping(ps) && ps@.len() == len && forall|i: int|
                0 <= i < len ==> decode_record(record_slot(mem.data@, keys_pos as int, i)) == Some(
                    (#[trigger] ps@[i]).key,
                ) && decode_record(record_slot(mem.data@, vals_pos as int, i)) == Some(ps@[i].val)),
            r matches Err(e) ==> (e.error.code == ScErrorCode::ExceededLimit || e.error.code
                == ScErrorCode::MissingValue || e.error.code == ScErrorCode::IndexBounds
                || e.error.code == ScErrorCode::InvalidInput),
    {
        self.charge(2 * len as u64, 2 * len as u64)?;
        let span = (len as usize).checked_mul(VAL_RECORD_LEN);
        let span = match span {
            Some(s) => s,
            None => {
                return Err(
                    crate::errors::host_err(ScErrorType::Object, ScErrorCode::IndexBounds),
                );
            },
        };
        if (keys_pos as usize) > mem.data.len() || span > mem.data.len() - (keys_pos as usize) {
            return Err(crate::errors::host_err(ScErrorType::Object, ScErrorCode::IndexBounds));
        }
        if (vals_pos as usize) > mem.data.len() || span > mem.data.len() - (vals_pos as usize) {
            return Err(crate::errors::host_err(ScErrorType::Object, ScErrorCode::IndexBounds));
        }
        let mut pairs: Vec<MapPair> = Vec::new();
        let mut i: usize = 0;
        while i < len as usize
            invariant
                0 <= i <= len,
                keys_pos as int + len as int * VAL_RECORD_LEN as int <= mem.data@.len(),
                vals_pos as int + len as int * VAL_RECORD_LEN as int <= mem.data@.len(),
                mem.data@.len() <= usize::MAX,
                pairs@.len() == i,
                forall|j: int| 0 <= j < pairs@.len() ==> crate::val::val_ref_below(
                    (#[trigger] pairs@[j]).key,
                    self.objects@.len() as int,
                ) && crate::val::val_ref_below(pairs@[j].val, self.objects@.len() as int),
                forall|j: int| 0 <= j < pairs@.len() ==> decode_record(
                    record_slot(mem.data@, keys_pos as int, j),
                ) == Some((#[trigger] pairs@[j]).key) && decode_record(
                    record_slot(mem.data@, vals_pos as int, j),
                ) == Some(pairs@[j].val),
                self.objects == old(self).objects,
                self.frames == old(self).frames,
                budget_evolves(old(self).budget, self.budget),
            decreases len as int - i,
        {
            let ghost kslot = record_slot(mem.data@, keys_pos as int, i as int);
            let ghost vslot = record_slot(mem.data@, vals_pos as int, i as int);
            proof {
                assert(kslot =~= mem.data@.subrange(
                    keys_pos as int + i as int * (VAL_RECORD_LEN as int),
                    keys_pos as int + i as int * (VAL_RECORD_LEN as int) + VAL_RECORD_LEN as int,
                ));
                assert(vslot =~= mem.data@.subrange(
                    vals_pos as int + i as int * (VAL_RECORD_LEN as int),
                    vals_pos as int + i as int * (VAL_RECORD_LEN as int) + VAL_RECORD_LEN as int,
                ));
            }
            let k = match read_val_record(mem, keys_pos as usize + i * VAL_RECORD_LEN) {
                Ok(v) => v,
                Err(e) => {
                    return Err(e);
                },
            };
            let v = match read_val_record(mem, vals_pos as usize + i * VAL_RECORD_LEN) {
                Ok(v) => v,
                Err(e) => {
                    return Err(e);
                },
            };
            if !(crate::val::val_ref_below_exec(k, self.objects.len())
                && crate::val::val_ref_below_exec(v, self.objects.len())) {
                return Err(
                    crate::errors::host_err(ScErrorType::Object, ScErrorCode::MissingValue),
                );
            }
            if i > 0 {
                let prev = pairs[i - 1].key;
                let o = match self.compare(prev, k) {
                    Ok(o) => o,
                    Err(e) => {
                        return Err(e);
                    },
                };
                match o {
                    Ordering::Less => {},
                    _ => {
                        return Err(
                            crate::errors::host_err(ScErrorType::Value, ScErrorCode::InvalidInput),
                        );
                    },
                }
            }
            pairs.push(MapPair { key: k, val: v });
            i = i + 1;
        }
        let n = self.objects.len();
        let r = self.add_host_object(HostObject::Mapping(pairs));
        match r {
            Ok(v) => {
                proof {
                    assert(v == Val::Object(n as u32));
                }
                Ok(v)
            },
            Err(e) => Err(e),
        }
    }
}

} // verus!
