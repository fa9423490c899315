use ton_vm::bits::pack;
use ton_vm::cell::{CellStore, SliceData};
use ton_vm::error::{Exception, ItemKind};
use ton_vm::executor::{Engine, Status};
use ton_vm::integer::IntegerData;
use ton_vm::savelist::SaveList;
use ton_vm::params::{get_boc_path, P256_CHKSIGNS_BASE_PATH, P256_CHKSIGNU_BASE_PATH};
use ton_vm::stack::{Stack, StackItem};

fn bits_of(bytes: &[u8]) -> Vec<bool> {
    let mut out = Vec::new();
    for b in bytes {
        for k in 0..8 {
            out.push((b >> (7 - k)) & 1 == 1);
        }
    }
    out
}

fn engine_for(code: &[u8], refs: Vec<Vec<bool>>, ctrls: Option<SaveList>) -> Engine {
    let mut cells = CellStore::new();
    let mut ids = Vec::new();
    for r in refs {
        ids.push(cells.add_cell(r, vec![]).unwrap());
    }
    let root = cells.add_cell(bits_of(code), ids).unwrap();
    let slice = SliceData::load_cell(&cells, root).unwrap();
    Engine::with_capabilities(0x572e).setup_with_libraries(cells, slice, ctrls, None, None, vec![])
}

#[test]
fn tiny_and_byte_integers_are_pushed() {
    let mut engine = engine_for(&[0x70, 0x7A, 0x7B, 0x7F, 0x80, 0x85, 0x80, 0xFF], vec![], None);
    engine.execute().unwrap();
    let stack = engine.stack();
    assert_eq!(stack.depth(), 6);
    // 0x80 0xFF pushes -1, 0x80 0x85 pushes -123, 0x7F pushes -1,
    // 0x7B pushes -5, 0x7A pushes 10, 0x70 pushes 0.
    assert_eq!(stack.get(0).unwrap().as_bool(), Ok(true));
    assert_eq!(stack.get(5).unwrap().as_bool(), Ok(false));
    assert_eq!(stack.get(4).unwrap().as_bool(), Ok(true));
}

#[test]
fn empty_code_halts_with_empty_stack() {
    let mut engine = engine_for(&[], vec![], None);
    assert_eq!(engine.execute(), Ok(()));
    assert_eq!(engine.stack().depth(), 0);
    assert_eq!(engine.execute(), Ok(()));
}

#[test]
fn unknown_opcode_fails() {
    let mut engine = engine_for(&[0x71, 0x00], vec![], None);
    assert_eq!(engine.execute(), Err(Exception::InvalidOpcode));
    assert_eq!(engine.stack().depth(), 1);
}

#[test]
fn truncated_opcode_fails() {
    let mut engine = engine_for(&[0xF9], vec![], None);
    assert_eq!(engine.execute(), Err(Exception::InvalidOpcode));
}

#[test]
fn signature_op_on_short_stack_underflows() {
    let mut engine = engine_for(&[0x70, 0x70, 0xF9, 0x15], vec![], None);
    assert_eq!(engine.execute(), Err(Exception::StackUnderflow));
    assert_eq!(engine.stack().depth(), 2);
}

#[test]
fn signature_op_needs_parameters() {
    let mut engine = engine_for(&[0x70, 0x70, 0x70, 0xF9, 0x15], vec![], None);
    assert_eq!(
        engine.execute(),
        Err(Exception::TypeMismatch { expected: ItemKind::Tuple, found: ItemKind::Null })
    );
    let mut ctrls = SaveList::new();
    ctrls.put(7, StackItem::tuple(vec![])).unwrap();
    let mut engine = engine_for(&[0x70, 0x70, 0x70, 0xF9, 0x15], vec![], Some(ctrls));
    assert_eq!(engine.execute(), Err(Exception::RangeError));
}

#[test]
fn preload_uint_reads_leading_bits() {
    let mut data = vec![0u8; 31];
    data.push(1);
    let mut engine = engine_for(&[0x89, 0xD7, 0x0B, 0xFF], vec![bits_of(&data)], None);
    engine.execute().unwrap();
    assert_eq!(engine.stack().get(0).unwrap().kind(), ItemKind::Integer);
    assert_eq!(engine.stack().get(0).unwrap().as_bool(), Ok(true));
    let mut engine = engine_for(&[0x89, 0xD7, 0x0B, 0x07], vec![bits_of(&data)], None);
    engine.execute().unwrap();
    assert_eq!(engine.stack().get(0).unwrap().as_bool(), Ok(false));
}

#[test]
fn dump_lists_registers() {
    let mut ctrls = SaveList::default();
    ctrls.put(7, StackItem::tuple(vec![StackItem::tuple(vec![])])).unwrap();
    ctrls.put(4, StackItem::Cell(0)).unwrap();
    let engine = engine_for(&[], vec![], Some(ctrls));
    assert_eq!(engine.dump_ctrls(false), "c4: a cell\nc7: a tuple\n");
    let verbose = engine.dump_ctrls(true);
    assert!(verbose.starts_with("c0: empty\nc1: empty\n"));
    assert!(verbose.contains("c15: empty\n"));
    assert_eq!(verbose.lines().count(), 16);
}

#[test]
fn dump_does_not_change_outcome() {
    let code = [0x70, 0x70, 0x70, 0xF9, 0x14];
    let mut plain = engine_for(&code, vec![], None);
    let plain_result = plain.execute();
    let mut dumped = engine_for(&code, vec![], None);
    let before = dumped.dump_ctrls(true);
    let dumped_result = dumped.execute();
    let after = dumped.dump_ctrls(true);
    assert_eq!(plain_result, dumped_result);
    assert_eq!(before, after);
    assert_eq!(plain.stack().depth(), dumped.stack().depth());
}

#[test]
fn save_list_put_and_get() {
    let mut ctrls = SaveList::new();
    assert!(ctrls.get(7).is_none());
    assert!(ctrls.put(7, StackItem::integer(5)).unwrap().is_none());
    let previous = ctrls.put(7, StackItem::Null).unwrap();
    assert_eq!(previous.unwrap().kind(), ItemKind::Integer);
    assert_eq!(ctrls.get(7).unwrap().kind(), ItemKind::Null);
    assert!(matches!(ctrls.put(16, StackItem::Null), Err(Exception::RangeError)));
    assert!(ctrls.get(16).is_none());
}

#[test]
fn stack_push_pop_get() {
    let mut stack = Stack::new();
    assert!(matches!(stack.pop(), Err(Exception::StackUnderflow)));
    stack.push(StackItem::integer(1));
    stack.push(StackItem::Null);
    assert_eq!(stack.depth(), 2);
    assert_eq!(stack.get(0).unwrap().kind(), ItemKind::Null);
    assert_eq!(stack.get(1).unwrap().kind(), ItemKind::Integer);
    assert!(matches!(stack.get(2), Err(Exception::StackUnderflow)));
    assert_eq!(stack.pop().unwrap().kind(), ItemKind::Null);
    assert_eq!(stack.depth(), 1);
}

#[test]
fn accessors_report_type_mismatch() {
    let item = StackItem::Null;
    assert!(matches!(
        item.as_integer(),
        Err(Exception::TypeMismatch { expected: ItemKind::Integer, found: ItemKind::Null })
    ));
    assert!(matches!(
        StackItem::integer(3).as_slice(),
        Err(Exception::TypeMismatch { expected: ItemKind::Slice, found: ItemKind::Integer })
    ));
    assert!(matches!(
        StackItem::integer(3).as_tuple(),
        Err(Exception::TypeMismatch { expected: ItemKind::Tuple, found: ItemKind::Integer })
    ));
    assert_eq!(
        StackItem::tuple(vec![]).as_bool(),
        Err(Exception::TypeMismatch { expected: ItemKind::Integer, found: ItemKind::Tuple })
    );
    assert_eq!(StackItem::boolean(true).as_bool(), Ok(true));
    assert_eq!(StackItem::boolean(false).as_bool(), Ok(false));
    assert_eq!(StackItem::integer(-1).as_bool(), Ok(true));
    assert_eq!(StackItem::integer(i64::MIN).as_bool(), Ok(true));
    assert_eq!(StackItem::integer(0).as_bool(), Ok(false));
}

#[test]
fn integer_bytes_are_big_endian() {
    let v = IntegerData::from_i64(0x0102);
    let bytes = v.to_unsigned_bytes();
    assert_eq!(bytes.len(), 32);
    assert_eq!(bytes[30], 1);
    assert_eq!(bytes[31], 2);
    assert!(bytes[..30].iter().all(|b| *b == 0));
    assert!(v.is_non_negative());
    assert!(!IntegerData::from_i64(-7).is_non_negative());
    assert!(IntegerData::from_i64(0).is_non_negative());
    assert!(!IntegerData::from_i64(0).is_nonzero());
    let neg_zero = IntegerData::from_bits(true, &[false, false]);
    assert!(neg_zero.is_non_negative());
}

#[test]
fn pack_bits_into_bytes() {
    assert_eq!(pack(&bits_of(&[0xA5, 0x01])), vec![0xA5, 0x01]);
    assert_eq!(pack(&[]), Vec::<u8>::new());
}

#[test]
fn cells_are_bounded() {
    let mut cells = CellStore::new();
    assert!(matches!(cells.add_cell(vec![false; 1024], vec![]), Err(Exception::CellOverflow)));
    assert!(matches!(cells.add_cell(vec![], vec![0]), Err(Exception::RangeError)));
    let a = cells.add_cell(vec![true; 1023], vec![]).unwrap();
    assert_eq!(a, 0);
    assert!(matches!(cells.add_cell(vec![], vec![a; 5]), Err(Exception::CellOverflow)));
    let b = cells.add_cell(vec![], vec![a; 4]).unwrap();
    assert_eq!(b, 1);
    assert!(matches!(SliceData::load_cell(&cells, 2), Err(Exception::RangeError)));
}

#[test]
fn slice_reads_advance() {
    let mut cells = CellStore::new();
    let a = cells.add_cell(bits_of(&[0xF0]), vec![]).unwrap();
    let b = cells.add_cell(bits_of(&[0x3C, 0x81]), vec![a]).unwrap();
    let mut s = SliceData::load_cell(&cells, b).unwrap();
    assert_eq!(s.remaining_bits(), 16);
    assert_eq!(s.get_next_byte(&cells), Ok(0x3C));
    assert_eq!(s.get_next_bits(&cells, 2).unwrap(), vec![true, false]);
    assert!(matches!(s.data_bytes(&cells), Err(Exception::CellUnderflow)));
    assert!(matches!(s.get_next_bits(&cells, 7), Err(Exception::CellUnderflow)));
    assert_eq!(s.remaining_bits(), 6);
    assert_eq!(s.get_next_reference(&cells), Ok(a));
    assert!(matches!(s.get_next_reference(&cells), Err(Exception::CellUnderflow)));
    let whole = SliceData::load_cell(&cells, b).unwrap();
    assert_eq!(whole.data_bytes(&cells).unwrap(), vec![0x3C, 0x81]);
}

#[test]
fn messages_name_the_failure() {
    assert_eq!(Exception::InvalidPublicKey.message(), "cannot decode public key into EcPoint");
    assert_eq!(Exception::InvalidSignatureLength.message(), "Invalid signature length");
    assert_eq!(Exception::CellUnderflow.message(), "cell underflow");
    assert_eq!(
        Exception::TypeMismatch { expected: ItemKind::Slice, found: ItemKind::Integer }.message(),
        "item is not a slice"
    );
    assert_eq!(
        Exception::TypeMismatch { expected: ItemKind::Integer, found: ItemKind::Slice }.message(),
        "item is not an integer"
    );
    assert_eq!(Exception::InvalidOpcode.message(), "invalid opcode");
    assert_eq!(Exception::RangeError.message(), "range check error");
}

#[test]
fn status_is_plain_data() {
    assert_ne!(Status::Ready, Status::Halted);
    assert_eq!(Status::Failed(Exception::CellUnderflow), Status::Failed(Exception::CellUnderflow));
}

#[test]
fn boc_paths_join_directory_and_name() {
    assert_eq!(
        get_boc_path(P256_CHKSIGNS_BASE_PATH, "InvalidPublicKey.boc"),
        "asset/P256_CHKSIGNS/InvalidPublicKey.boc"
    );
    assert_eq!(
        get_boc_path(P256_CHKSIGNU_BASE_PATH, "ValidSignature.boc"),
        "asset/P256_CHKSIGNU/ValidSignature.boc"
    );
}

#[test]
fn test_params_have_twelve_fields() {
    let params = ton_vm::params::get_test_params();
    assert_eq!(params.len(), 12);
    assert_eq!(params[0].kind(), ItemKind::Integer);
    assert_eq!(params[0].as_bool(), Ok(true));
    assert_eq!(params[1].as_bool(), Ok(false));
    let balance = params[7].as_tuple().unwrap();
    assert_eq!(balance.len(), 2);
    assert_eq!(balance[1].kind(), ItemKind::Null);
    assert_eq!(params[8].kind(), ItemKind::Null);
    assert_eq!(params[11].as_bool(), Ok(false));
}
