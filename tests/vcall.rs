use cheat::vcall::{
    c_string, returned_reference, slot_address, CallArg, CallError, CallValue, Interface,
    IS_IN_GAME_SLOT, POINTER_WIDTH,
};

#[test]
fn slot_address_adds_scaled_index() {
    assert_eq!(slot_address(0x1000, 0), Some(0x1000));
    assert_eq!(slot_address(0x1000, IS_IN_GAME_SLOT), Some(0x1000 + 35 * 8));
    assert_eq!(slot_address(usize::MAX - 16, 2), Some(usize::MAX));
    assert_eq!(slot_address(usize::MAX - 16, 3), None);
    assert_eq!(slot_address(0, usize::MAX), None);
}

fn double(x: u64) -> u64 {
    x * 2
}

fn square(x: u64) -> u64 {
    x * x
}

fn answer(_: u64) -> u64 {
    42
}

#[test]
fn call_through_slot_matches_direct_call() {
    let table: [fn(u64) -> u64; 3] = [double, square, answer];
    let table_base = 0x10_000usize;
    for slot in 0..3usize {
        let entry = slot_address(table_base, slot).unwrap();
        let index = (entry - table_base) / POINTER_WIDTH;
        assert_eq!(index, slot);
        let direct = [double(7), square(7), answer(7)][slot];
        assert_eq!(table[index](7), direct);
    }
}

#[test]
fn c_string_appends_terminator() {
    let mut expected = b"Source2EngineToClient001".to_vec();
    expected.push(0);
    assert_eq!(c_string("Source2EngineToClient001"), Some(expected));
    assert_eq!(c_string(""), Some(vec![0]));
    assert_eq!(c_string("é"), Some(vec![0xC3, 0xA9, 0]));
}

#[test]
fn c_string_rejects_interior_nul() {
    assert_eq!(c_string("ab\0cd"), None);
    assert_eq!(c_string("\0"), None);
}

#[test]
fn null_reference_is_absent() {
    assert_eq!(returned_reference(0), None);
    assert_eq!(returned_reference(0x1234), Some(0x1234));
}

#[test]
fn factory_result_becomes_interface() {
    assert!(Interface::from_factory_result(0).is_none());
    let i = Interface::from_factory_result(0xABC0).unwrap();
    assert_eq!(i.interface_pointer(), 0xABC0);
    assert_eq!(Interface::new(0x55).interface_pointer(), 0x55);
}

#[test]
fn prepare_call_converts_arguments() {
    let obj = Interface::new(0x8000);
    let args = vec![CallArg::Value(7), CallArg::Address(0x9000), CallArg::Text("hi".to_string())];
    let call = obj.prepare_call(IS_IN_GAME_SLOT, &args).unwrap();
    assert_eq!(call.object, 0x8000);
    assert_eq!(call.slot, 35);
    assert_eq!(
        call.args,
        vec![CallValue::Value(7), CallValue::Address(0x9000), CallValue::Text(vec![b'h', b'i', 0])]
    );
}

#[test]
fn prepare_call_rejects_string_with_nul() {
    let obj = Interface::new(0x8000);
    let args = vec![
        CallArg::Text("ok".to_string()),
        CallArg::Value(1),
        CallArg::Text("b\0d".to_string()),
        CallArg::Text("x\0".to_string()),
    ];
    assert_eq!(obj.prepare_call(1, &args).err(), Some(CallError::InteriorNul { index: 2 }));
}

#[test]
fn prepare_call_without_arguments() {
    let call = Interface::new(0x8000).prepare_call(IS_IN_GAME_SLOT, &Vec::new()).unwrap();
    assert!(call.args.is_empty());
}
