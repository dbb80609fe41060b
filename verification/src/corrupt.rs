//! Adversarial driver for map marshaling: a map is unpacked into guest
//! memory, read back, then the written regions are deliberately corrupted
//! and the reconstruction is attempted again. The host must answer every
//! corruption with a typed, non-internal error.

use vstd::prelude::*;
use crate::errors::{HostError, ScErrorCode};
use crate::host::{Frame, Host, HostObject, MapPair};
use crate::mem::{VmMemory, VAL_RECORD_LEN};
use crate::scval::ScVal;
use crate::val::Val;

verus! {

/// One fuzzed input for the corrupted-read driver.
#[derive(Debug)]
pub struct InputData {
    /// Trees to turn into the map's keys.
    pub values: Vec<ScVal>,
    /// Where in linear memory the key records go.
    pub keys_address: u16,
    /// Where, relative to a written region, corruption starts.
    pub scramble_offset: u8,
    /// The bytes written over the region.
    pub scramble_bytes: Vec<u8>,
    /// Budget knobs, scaled up by ten bits.
    pub budget_cpu: u16,
    pub budget_mem: u16,
    /// Which reconstruction to attempt on the corrupted bytes.
    pub crash_selector: u8,
}

fn scale(n: u16) -> (r: u64)
    ensures
        r == n as int * 1024,
{
    (n as u64) * 1024
}

/// Builds a map whose values are its keys rotated by one position, writes
/// its keys and values into linear memory, reads them back, corrupts the
/// written bytes and tries to rebuild a map from them. Every failure is a
/// typed, non-internal error; nothing panics.
pub fn mocked_linear_memory(input: &InputData) -> (r: Result<(), HostError>)
    ensures
        r matches Err(e) ==> e.error.code != ScErrorCode::InternalError,
{
    let mut host = Host::test_host();
    let mut mem = VmMemory::new_zeroed(65536);
    let mut name: Vec<u8> = Vec::new();
    name.push(109u8);
    host.push_frame(Frame { fn_name: name, args: Vec::new() });
    host.reset_budget_limits(scale(input.budget_cpu), scale(input.budget_mem));

    // convert the given trees into host values, used as map keys
    let mut keys_vec: Vec<Val> = Vec::new();
    let mut i: usize = 0;
    while i < input.values.len()
        invariant
            0 <= i <= input.values@.len(),
            host.frames@.len() > 0,
        decreases input.values@.len() - i,
    {
        let v = host.to_value(&input.values[i])?;
        keys_vec.push(v);
        i = i + 1;
    }
    // values are the keys rotated left by one position
    let n = keys_vec.len();
    let mut pairs: Vec<MapPair> = Vec::new();
    let mut j: usize = 0;
    while j < n
        invariant
            0 <= j <= n,
            n == keys_vec@.len(),
            host.frames@.len() > 0,
        decreases n - j,
    {
        let key = keys_vec[j];
        let val = if j + 1 < n {
            keys_vec[j + 1]
        } else {
            keys_vec[0]
        };
        pairs.push(MapPair { key, val });
        j = j + 1;
    }
    let map_obj = host.add_host_object(HostObject::Mapping(pairs))?;

    let length = n as u32;
    let keys_address = input.keys_address as u32;
    let span = length.checked_mul(VAL_RECORD_LEN as u32);
    let values_address = match span {
        Some(s) => match keys_address.checked_add(s) {
            Some(a) => a,
            None => {
                return Err(
                    crate::errors::host_err(
                        crate::errors::ScErrorType::Object,
                        ScErrorCode::IndexBounds,
                    ),
                );
            },
        },
        None => {
            return Err(
                crate::errors::host_err(
                    crate::errors::ScErrorType::Object,
                    ScErrorCode::IndexBounds,
                ),
            );
        },
    };

    // write keys and values, read the values back and compare
    let keys_obj = host.map_keys(map_obj)?;
    host.vec_unpack_to_linear_memory(&mut mem, keys_obj, keys_address, length)?;
    let values_obj = host.map_values(map_obj)?;
    host.map_unpack_to_linear_memory(&mut mem, map_obj, keys_address, values_address, length)?;
    let values_read = host.vec_new_from_linear_memory(&mem, values_address, length)?;
    let should_equal = host.obj_cmp(values_obj, values_read)?;
    if should_equal != 0 {
        return Err(
            crate::errors::host_err(
                crate::errors::ScErrorType::Context,
                ScErrorCode::InvalidAction,
            ),
        );
    }

    // corrupt one of the written regions, then attempt a rebuild
    let bytes_obj = host.bytes_new_from_slice(&input.scramble_bytes)?;
    let scramble_len = input.scramble_bytes.len() as u32;
    let sel = input.crash_selector % 4;
    let keys_scramble = match keys_address.checked_add(input.scramble_offset as u32) {
        Some(a) => a,
        None => {
            return Err(
                crate::errors::host_err(
                    crate::errors::ScErrorType::Object,
                    ScErrorCode::IndexBounds,
                ),
            );
        },
    };
    let vals_scramble = match values_address.checked_add(input.scramble_offset as u32) {
        Some(a) => a,
        None => {
            return Err(
                crate::errors::host_err(
                    crate::errors::ScErrorType::Object,
                    ScErrorCode::IndexBounds,
                ),
            );
        },
    };
    if sel == 1 || sel == 2 {
        host.bytes_copy_to_linear_memory(
            &mut mem,
            bytes_obj,
            0,
            keys_scramble,
            scramble_len,
        )?;
        let _ = host.map_new_from_linear_memory(&mem, keys_address, values_address, length)?;
    } else if sel == 3 {
        host.bytes_copy_to_linear_memory(
            &mut mem,
            bytes_obj,
            0,
            vals_scramble,
            scramble_len,
        )?;
        let _ = host.map_new_from_linear_memory(&mem, keys_address, values_address, length)?;
    }

    host.rollback_frame();
    Ok(())
}

} // verus!
