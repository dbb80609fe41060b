//! Adversarial driver for the linear-memory marshaling layer: strings and
//! byte buffers written to guest memory under a fuzzed budget, read back
//! and compared, inside a frame that is always rolled back.

use vstd::prelude::*;
use crate::errors::{HostError, ScErrorCode};
use crate::host::{Frame, Host};
use crate::mem::VmMemory;
use crate::scenario::as_u16;

verus! {

/// Runs string and byte copies through a mocked linear memory with a
/// budget taken from the input's first bytes. Either everything succeeds
/// and the frame is rolled back, or a typed, non-internal error comes
/// back; nothing panics.
pub fn mocked_linear_memory(input: &Vec<u8>) -> (r: Result<(), HostError>)
    ensures
        r matches Err(e) ==> e.error.code != ScErrorCode::InternalError,
{
    let mut host = Host::test_host();
    let mut mem = VmMemory::new_zeroed(65536);
    let mut name: Vec<u8> = Vec::new();
    name.push(115u8);
    host.push_frame(Frame { fn_name: name, args: Vec::new() });

    if input.len() > 2 {
        let limit = as_u16(input[0], input[1]) as u64;
        host.reset_budget_limits(limit, limit);
    } else {
        host.reset_budget_unlimited();
    }

    let take: usize = if input.len() > 65535 {
        65535
    } else {
        input.len()
    };
    let mut data: Vec<u8> = Vec::new();
    let mut i: usize = 0;
    while i < take
        invariant
            0 <= i <= take,
            take <= input@.len(),
            data@.len() == i,
        decreases take - i,
    {
        data.push(input[i]);
        i = i + 1;
    }
    let test_len = data.len() as u32;

    let test_str = host.string_new_from_slice(&data)?;
    host.string_copy_to_linear_memory(&mut mem, test_str, 0, 0, test_len)?;
    let new_str = host.string_new_from_linear_memory(&mem, 0, test_len)?;
    let cmp = host.obj_cmp(test_str, new_str)?;
    if cmp != 0 {
        return Err(
            crate::errors::host_err(
                crate::errors::ScErrorType::Context,
                ScErrorCode::InvalidAction,
            ),
        );
    }

    if test_len > 4 {
        let test_bytes = host.bytes_new_from_slice(&data)?;
        let write_start = as_u16(data[0], data[1]) % test_len;
        let write_len = as_u16(data[2], data[3]) % (test_len - write_start);
        let target_addr = 65535 - write_len;

        host.bytes_copy_to_linear_memory(&mut mem, test_bytes, write_start, target_addr, write_len)?;
        let bytes_read = host.bytes_new_from_linear_memory(&mem, target_addr, write_len)?;
        let mut piece: Vec<u8> = Vec::new();
        let mut j: usize = 0;
        while j < write_len as usize
            invariant
                0 <= j <= write_len,
                write_start as int + write_len as int <= data@.len(),
                data@.len() <= 65535,
                piece@.len() == j,
            decreases write_len as int - j,
        {
            piece.push(data[write_start as usize + j]);
            j = j + 1;
        }
        let byte_piece = host.bytes_new_from_slice(&piece)?;
        let cmp2 = host.obj_cmp(bytes_read, byte_piece)?;
        if cmp2 != 0 {
            return Err(
                crate::errors::host_err(
                    crate::errors::ScErrorType::Context,
                    ScErrorCode::InvalidAction,
                ),
            );
        }

        let same_bytes = host.bytes_copy_from_linear_memory(
            &mem,
            test_bytes,
            write_start,
            target_addr,
            write_len,
        )?;
        let cmp3 = host.obj_cmp(test_bytes, same_bytes)?;
        if cmp3 != 0 {
            return Err(
                crate::errors::host_err(
                    crate::errors::ScErrorType::Context,
                    ScErrorCode::InvalidAction,
                ),
            );
        }
    }

    host.rollback_frame();
    Ok(())
}

} // verus!
