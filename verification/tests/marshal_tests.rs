use soroban_env_host::{Host, ScErrorCode, ScMapEntry, ScVal, VmMemory};
use soroban_env_host::gen::{ValidScSymbol, ValidScVal};
use soroban_env_host::corrupt::{self, InputData};
use soroban_env_host::lm;
use arbitrary::Unstructured;

fn rotated_map() -> ScVal {
    ScVal::Mapping(Some(vec![
        ScMapEntry { key: ScVal::U32(1), val: ScVal::U32(2) },
        ScMapEntry { key: ScVal::U32(2), val: ScVal::U32(3) },
        ScMapEntry { key: ScVal::U32(3), val: ScVal::U32(1) },
    ]))
}

#[test]
fn map_pack_read_back_and_corrupt() {
    let mut host = Host::test_host();
    let mut mem = VmMemory::new_zeroed(64);
    let map_obj = host.to_value(&rotated_map()).unwrap();

    // unpack keys and values into the region at offsets 0 and 3
    host.map_unpack_to_linear_memory(&mut mem, map_obj, 0, 3, 3).unwrap();
    // read back a vector from offset 3, length 3: it is the value column
    let values_read = host.vec_new_from_linear_memory(&mem, 3, 3).unwrap();
    let values_obj = host.map_values(map_obj).unwrap();
    assert_eq!(host.obj_cmp(values_obj, values_read).unwrap(), 0);

    // corrupt one byte inside the keys region and attempt a rebuild
    mem.write_byte(0, 0xFF);
    match host.map_new_from_linear_memory(&mem, 0, 3, 3) {
        Err(e) => assert_eq!(e.error.code, ScErrorCode::InvalidInput),
        Ok(_) => panic!("corrupted key records must be rejected"),
    }
}

#[test]
fn bytes_copy_touches_only_target_region() {
    let mut host = Host::test_host();
    let mut mem = VmMemory::new_zeroed(16);
    let obj = host.bytes_new_from_slice(&vec![7, 8, 9]).unwrap();
    host.bytes_copy_to_linear_memory(&mut mem, obj, 0, 4, 3).unwrap();
    assert_eq!(mem.data, vec![0, 0, 0, 0, 7, 8, 9, 0, 0, 0, 0, 0, 0, 0, 0, 0]);
    // out-of-bounds target is a typed error and leaves memory unchanged
    match host.bytes_copy_to_linear_memory(&mut mem, obj, 0, 15, 3) {
        Err(e) => assert_eq!(e.error.code, ScErrorCode::IndexBounds),
        Ok(_) => panic!("an out-of-bounds write must be rejected"),
    }
    assert_eq!(mem.data, vec![0, 0, 0, 0, 7, 8, 9, 0, 0, 0, 0, 0, 0, 0, 0, 0]);
}

#[test]
fn generator_yields_convertible_values() {
    let data: Vec<u8> = (0u8..255).cycle().take(600).collect();
    let mut u = Unstructured::new(&data);
    let v = ValidScVal::arbitrary(&mut u).unwrap();
    let mut host = Host::test_host();
    // a generated tree is valid, so the conversion layer accepts it
    assert!(host.to_value(&v.0).is_ok());
}

#[test]
fn generator_stops_on_empty_stream() {
    let data: Vec<u8> = vec![];
    let mut u = Unstructured::new(&data);
    assert!(ValidScVal::arbitrary(&mut u).is_err());
}

#[test]
fn generated_symbols_stay_in_alphabet() {
    let data: Vec<u8> = (0u8..255).collect();
    let mut u = Unstructured::new(&data);
    let s = ValidScSymbol::arbitrary(&mut u).unwrap();
    assert!(s.0.len() < 32);
    for c in s.0.iter() {
        assert!(*c == b'_' || c.is_ascii_alphanumeric());
    }
}

#[test]
fn string_roundtrip_driver_accepts_plain_input() {
    let input: Vec<u8> = vec![1];
    assert!(lm::mocked_linear_memory(&input).is_ok());
}

#[test]
fn corrupted_map_driver_reports_typed_error() {
    let input = InputData {
        values: vec![ScVal::U32(5), ScVal::U32(9)],
        keys_address: 0,
        scramble_offset: 0,
        scramble_bytes: vec![0xFF],
        budget_cpu: u16::MAX,
        budget_mem: u16::MAX,
        crash_selector: 2,
    };
    match corrupt::mocked_linear_memory(&input) {
        Ok(_) => (),
        Err(e) => assert_ne!(e.error.code, ScErrorCode::InternalError),
    }
}
