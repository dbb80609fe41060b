use soroban_env_host::{
    as_u16, Contract, Frame, Host, ScErrorCode, ScMapEntry, ScVal, TestCase, Val,
};
use soroban_env_host::scval::cmp_scval;
use core::cmp::Ordering;

fn u32_val(n: u32) -> ScVal {
    ScVal::U32(n)
}

fn example_map() -> ScVal {
    // keys 1, 2, 3 mapped to the keys rotated left by one: 2, 3, 1
    ScVal::Mapping(Some(vec![
        ScMapEntry { key: u32_val(1), val: u32_val(2) },
        ScMapEntry { key: u32_val(2), val: u32_val(3) },
        ScMapEntry { key: u32_val(3), val: u32_val(1) },
    ]))
}

#[test]
fn budget_minimal_limits_gate_allocation() {
    let mut host = Host::test_host();
    host.reset_budget_limits(1, 1);
    let r = host.to_value(&ScVal::Bytes(vec![1, 2, 3]));
    match r {
        Err(e) => assert_eq!(e.error.code, ScErrorCode::ExceededLimit),
        Ok(_) => panic!("allocation must exceed a (1, 1) budget"),
    }
    // every subsequent metered call keeps failing until a reset
    let r2 = host.to_value(&ScVal::U32(5));
    assert!(r2.is_err());
    host.reset_budget_unlimited();
    let r3 = host.to_value(&ScVal::Bytes(vec![1, 2, 3]));
    assert!(r3.is_ok());
}

#[test]
fn budget_consumption_never_decreases() {
    let mut host = Host::test_host();
    host.reset_budget_limits(1000, 1000);
    let c0 = host.budget.cpu_consumed;
    let _ = host.to_value(&ScVal::U64(1));
    let c1 = host.budget.cpu_consumed;
    assert!(c1 >= c0);
    let _ = host.to_value(&ScVal::Bytes(vec![0; 64]));
    let c2 = host.budget.cpu_consumed;
    assert!(c2 >= c1);
}

#[test]
fn frame_rollback_restores_store() {
    let mut host = Host::test_host();
    let keep = host.to_value(&ScVal::Bytes(vec![9])).unwrap();
    let n0 = host.object_count();
    host.push_frame(Frame { fn_name: vec![b'f'], args: vec![] });
    let inner = host.to_value(&ScVal::Bytes(vec![1, 2])).unwrap();
    assert!(host.object_count() > n0);
    host.rollback_frame();
    assert_eq!(host.object_count(), n0);
    match inner {
        Val::Object(h) => assert!(host.get_object(h).is_err()),
        _ => panic!("expected an object handle"),
    }
    match keep {
        Val::Object(h) => assert!(host.get_object(h).is_ok()),
        _ => panic!("expected an object handle"),
    }
}

#[test]
fn frame_commit_keeps_objects() {
    let mut host = Host::test_host();
    host.push_frame(Frame { fn_name: vec![b'g'], args: vec![] });
    let inner = host.to_value(&ScVal::Bytes(vec![4, 5])).unwrap();
    host.commit_frame();
    match inner {
        Val::Object(h) => assert!(host.get_object(h).is_ok()),
        _ => panic!("expected an object handle"),
    }
}

#[test]
fn round_trip_identity() {
    let mut host = Host::test_host();
    let v = ScVal::Vector(Some(vec![
        ScVal::Bool(true),
        ScVal::Symbol(b"hello".to_vec()),
        example_map(),
        ScVal::I64(-4),
    ]));
    let x = host.to_value(&v).unwrap();
    let back = host.from_value(x).unwrap();
    assert_eq!(back, v);
    assert_eq!(cmp_scval(&back, &v), Ordering::Equal);
}

#[test]
fn comparator_agreement() {
    let samples = vec![
        ScVal::Bool(false),
        ScVal::U32(7),
        ScVal::U32(8),
        ScVal::I64(-1),
        ScVal::Bytes(vec![1, 2]),
        ScVal::Bytes(vec![1, 2, 3]),
        ScVal::Symbol(b"abc".to_vec()),
        example_map(),
        ScVal::Vector(Some(vec![ScVal::U32(1)])),
    ];
    let mut host = Host::test_host();
    for a in samples.iter() {
        for b in samples.iter() {
            let xa = host.to_value(a).unwrap();
            let xb = host.to_value(b).unwrap();
            let direct = cmp_scval(a, b);
            let metered = host.compare(xa, xb).unwrap();
            assert_eq!(direct, metered);
        }
    }
}

#[test]
fn invalid_trees_rejected_with_typed_errors() {
    let mut host = Host::test_host();
    let bad_symbol = ScVal::Symbol(b"no spaces!".to_vec());
    match host.to_value(&bad_symbol) {
        Err(e) => assert_eq!(e.error.code, ScErrorCode::InvalidInput),
        Ok(_) => panic!("symbol with invalid characters must be rejected"),
    }
    let absent_vec = ScVal::Vector(None);
    match host.to_value(&absent_vec) {
        Err(e) => assert_eq!(e.error.code, ScErrorCode::UnexpectedType),
        Ok(_) => panic!("absent vector body must be rejected"),
    }
    let unsorted = ScVal::Mapping(Some(vec![
        ScMapEntry { key: u32_val(2), val: u32_val(0) },
        ScMapEntry { key: u32_val(1), val: u32_val(0) },
    ]));
    match host.to_value(&unsorted) {
        Err(e) => assert_eq!(e.error.code, ScErrorCode::InvalidInput),
        Ok(_) => panic!("unsorted map keys must be rejected"),
    }
    let dup = ScVal::Mapping(Some(vec![
        ScMapEntry { key: u32_val(1), val: u32_val(0) },
        ScMapEntry { key: u32_val(1), val: u32_val(0) },
    ]));
    match host.to_value(&dup) {
        Err(e) => assert_eq!(e.error.code, ScErrorCode::InvalidInput),
        Ok(_) => panic!("duplicate map keys must be rejected"),
    }
}

#[test]
fn unknown_handle_is_missing_value() {
    let host = Host::test_host();
    match host.get_object(5) {
        Err(e) => assert_eq!(e.error.code, ScErrorCode::MissingValue),
        Ok(_) => panic!("empty store must not resolve a handle"),
    }
}

#[test]
fn result_conversion_does_not_collapse() {
    let mut host = Host::test_host();
    // a status value converts to the error variant directly
    let status = Val::Status(soroban_env_host::Error {
        etype: soroban_env_host::ScErrorType::Contract,
        code: ScErrorCode::InvalidAction,
    });
    match host.result_from_val(status) {
        Ok(Err(e)) => assert_eq!(e.code, ScErrorCode::InvalidAction),
        _ => panic!("a status value must become the error variant"),
    }
    // a failing payload conversion fails the whole conversion
    match host.result_from_val(Val::Object(999)) {
        Err(e) => assert_eq!(e.error.code, ScErrorCode::MissingValue),
        Ok(_) => panic!("a payload failure must not become a success"),
    }
}

#[test]
fn as_u16_combines_bytes() {
    assert_eq!(as_u16(1, 2), 258);
    assert_eq!(as_u16(0, 0), 0);
    assert_eq!(as_u16(255, 255), 65535);
}

#[test]
fn install_budget_masks_limits() {
    let mut host = Host::test_host();
    let case = TestCase { cpu_budget: 0, mem_budget: 0, data_keys: vec![] };
    case.install_budget(&mut host);
    assert_eq!(host.budget.cpu_limit, 0x000f_ffff);
    assert_eq!(host.budget.mem_limit, 0x000f_ffff);
    assert_eq!(host.budget.cpu_consumed, 0);
    let case2 = TestCase { cpu_budget: u32::MAX, mem_budget: u32::MAX, data_keys: vec![] };
    case2.install_budget(&mut host);
    assert_eq!(host.budget.cpu_limit, 0x0fff_ffff);
    assert_eq!(host.budget.mem_limit, 0x0ff_ffff);
}

#[test]
fn hostile_contract_run_leaves_store_unchanged() {
    let mut host = Host::test_host();
    let addr = host.to_value(&ScVal::Bytes(vec![7; 4])).unwrap();
    let n0 = host.object_count();
    Contract::run(&mut host, addr);
    assert_eq!(host.object_count(), n0);
    assert_eq!(host.frame_depth(), 0);
}
