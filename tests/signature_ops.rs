use p256::ecdsa::signature::Signer;
use p256::ecdsa::{Signature, SigningKey};
use ton_vm::cell::{CellStore, SliceData};
use ton_vm::error::{Exception, ItemKind};
use ton_vm::executor::Engine;
use ton_vm::params::get_test_params;
use ton_vm::savelist::SaveList;
use ton_vm::stack::StackItem;

const DEFAULT_CAPABILITIES: u64 = 0x572e;

const PUSHREFSLICE: u8 = 0x89;
const CHKSIGNU: [u8; 2] = [0xF9, 0x14];
const CHKSIGNS: [u8; 2] = [0xF9, 0x15];
const PLDU_256: [u8; 3] = [0xD7, 0x0B, 0xFF];

fn bits_of(bytes: &[u8]) -> Vec<bool> {
    let mut out = Vec::new();
    for b in bytes {
        for k in 0..8 {
            out.push((b >> (7 - k)) & 1 == 1);
        }
    }
    out
}

fn ctrls() -> SaveList {
    let mut ctrls = SaveList::default();
    ctrls
        .put(7, StackItem::tuple(vec![StackItem::tuple(get_test_params())]))
        .unwrap();
    ctrls
}

fn signing_key(seed: u8) -> SigningKey {
    SigningKey::from_slice(&[seed; 32]).unwrap()
}

fn public_key(key: &SigningKey) -> Vec<u8> {
    key.verifying_key().to_encoded_point(true).as_bytes().to_vec()
}

fn sign(key: &SigningKey, msg: &[u8]) -> Vec<u8> {
    let sig: Signature = key.sign(msg);
    sig.to_bytes().as_slice().to_vec()
}

/// Message operand of a program: the bits of a slice, or the 256 bits of an
/// integer loaded from a slice.
enum Message {
    Slice(Vec<bool>),
    Integer(Vec<u8>),
    SmallInt,
}

/// Runs: message, key and signature pushed in that order, then `op`.
fn run(message: Message, key: &[u8], sig: &[u8], op: [u8; 2], caps: u64) -> (Engine, Result<(), Exception>) {
    let mut cells = CellStore::new();
    let mut code: Vec<u8> = Vec::new();
    let mut refs: Vec<usize> = Vec::new();
    match message {
        Message::Slice(bits) => {
            refs.push(cells.add_cell(bits, vec![]).unwrap());
            code.push(PUSHREFSLICE);
        }
        Message::Integer(bytes) => {
            refs.push(cells.add_cell(bits_of(&bytes), vec![]).unwrap());
            code.push(PUSHREFSLICE);
            code.extend_from_slice(&PLDU_256);
        }
        Message::SmallInt => code.push(0x70),
    }
    refs.push(cells.add_cell(bits_of(key), vec![]).unwrap());
    refs.push(cells.add_cell(bits_of(sig), vec![]).unwrap());
    code.push(PUSHREFSLICE);
    code.push(PUSHREFSLICE);
    code.extend_from_slice(&op);
    let root = cells.add_cell(bits_of(&code), refs).unwrap();
    let slice = SliceData::load_cell(&cells, root).unwrap();
    let mut engine = Engine::with_capabilities(caps).setup_with_libraries(
        cells,
        slice,
        Some(ctrls()),
        None,
        None,
        vec![],
    );
    engine.dump_ctrls(false);
    let result = engine.execute();
    (engine, result)
}

fn not_a_point() -> Vec<u8> {
    let mut k = vec![0x02u8];
    k.extend_from_slice(&[0xFF; 32]);
    k
}

const MESSAGE: &[u8] = b"a message to be signed";

fn hash() -> Vec<u8> {
    (0u8..32).map(|i| i.wrapping_mul(37).wrapping_add(11)).collect()
}

fn message_text(e: &Exception) -> String {
    e.message()
}

// Slice message.

#[test]
fn invalid_public_key() {
    let sk = signing_key(3);
    let sig = sign(&sk, MESSAGE);
    let (_, result) = run(Message::Slice(bits_of(MESSAGE)), &not_a_point(), &sig, CHKSIGNS, DEFAULT_CAPABILITIES);
    assert!(matches!(result, Err(e) if message_text(&e).contains("cannot decode public key into EcPoint")));
}

#[test]
fn invalid_signature_length() {
    let sk = signing_key(3);
    let mut sig = sign(&sk, MESSAGE);
    sig.extend_from_slice(&[0, 0]);
    let (_, result) = run(Message::Slice(bits_of(MESSAGE)), &public_key(&sk), &sig, CHKSIGNS, DEFAULT_CAPABILITIES);
    assert!(matches!(result, Err(e) if message_text(&e).contains("Invalid signature length")));
}

#[test]
fn signature_underflow() {
    let sk = signing_key(3);
    let sig = sign(&sk, MESSAGE);
    let mut bits = bits_of(MESSAGE);
    bits.pop();
    let (_, result) = run(Message::Slice(bits), &public_key(&sk), &sig, CHKSIGNS, DEFAULT_CAPABILITIES);
    assert!(matches!(result, Err(ref e) if message_text(e).contains("cell underflow")));
}

#[test]
fn invalid_message_type() {
    let sk = signing_key(3);
    let sig = sign(&sk, MESSAGE);
    let (_, result) = run(Message::SmallInt, &public_key(&sk), &sig, CHKSIGNS, DEFAULT_CAPABILITIES);
    assert!(matches!(result, Err(ref e) if message_text(e).contains("is not a slice")));
}

#[test]
fn invalid_signature() {
    let sk = signing_key(3);
    let other = signing_key(4);
    let sig = sign(&sk, MESSAGE);
    let (engine, result) = run(Message::Slice(bits_of(MESSAGE)), &public_key(&other), &sig, CHKSIGNS, DEFAULT_CAPABILITIES);
    result.unwrap();
    let top = engine.stack().get(0).unwrap().as_bool().unwrap();
    assert_eq!(top, false);
}

#[test]
fn valid_signature() {
    let sk = signing_key(3);
    let sig = sign(&sk, MESSAGE);
    let (engine, result) = run(Message::Slice(bits_of(MESSAGE)), &public_key(&sk), &sig, CHKSIGNS, DEFAULT_CAPABILITIES);
    result.unwrap();
    let top = engine.stack().get(0).unwrap().as_bool().unwrap();
    assert_eq!(top, true);
}

// Integer message.

#[test]
fn test_invalid_public_key() {
    let sk = signing_key(5);
    let sig = sign(&sk, &hash());
    let (_, result) = run(Message::Integer(hash()), &not_a_point(), &sig, CHKSIGNU, DEFAULT_CAPABILITIES);
    assert!(matches!(result, Err(e) if message_text(&e).contains("cannot decode public key into EcPoint")));
}

#[test]
fn test_invalid_signature_length() {
    let sk = signing_key(5);
    let mut sig = sign(&sk, &hash());
    sig.extend_from_slice(&[1, 2]);
    let (_, result) = run(Message::Integer(hash()), &public_key(&sk), &sig, CHKSIGNU, DEFAULT_CAPABILITIES);
    assert!(matches!(result, Err(e) if message_text(&e).contains("Invalid signature length")));
}

#[test]
fn test_signature_underflow() {
    let sk = signing_key(5);
    let sig = sign(&sk, &hash());
    let short = hash()[..31].to_vec();
    let (_, result) = run(Message::Integer(short), &public_key(&sk), &sig, CHKSIGNU, DEFAULT_CAPABILITIES);
    assert!(matches!(result, Err(ref e) if message_text(e).contains("cell underflow")));
}

#[test]
fn test_invalid_message_type() {
    let sk = signing_key(5);
    let sig = sign(&sk, &hash());
    let (_, result) = run(Message::Slice(bits_of(&hash())), &public_key(&sk), &sig, CHKSIGNU, DEFAULT_CAPABILITIES);
    assert!(matches!(result, Err(ref e) if message_text(e).contains("item is not an integer")));
}

#[test]
fn test_invalid_signature() {
    let sk = signing_key(5);
    let other = signing_key(6);
    let sig = sign(&sk, &hash());
    let (engine, result) = run(Message::Integer(hash()), &public_key(&other), &sig, CHKSIGNU, DEFAULT_CAPABILITIES);
    result.unwrap();
    let top = engine.stack().get(0).unwrap().as_bool().unwrap();
    assert_eq!(top, false);
}

#[test]
fn test_valid_signature() {
    let sk = signing_key(5);
    let sig = sign(&sk, &hash());
    let (engine, result) = run(Message::Integer(hash()), &public_key(&sk), &sig, CHKSIGNU, DEFAULT_CAPABILITIES);
    result.unwrap();
    let top = engine.stack().get(0).unwrap().as_bool().unwrap();
    assert_eq!(top, true);
}

// Further cases.

#[test]
fn verdict_is_a_boolean_integer() {
    let sk = signing_key(9);
    let sig = sign(&sk, MESSAGE);
    let (engine, result) = run(Message::Slice(bits_of(MESSAGE)), &public_key(&sk), &sig, CHKSIGNS, DEFAULT_CAPABILITIES);
    result.unwrap();
    assert_eq!(engine.stack().depth(), 1);
    let top = engine.stack().get(0).unwrap();
    assert_eq!(top.kind(), ItemKind::Integer);
    assert_eq!(top.as_bool(), Ok(true));
}

#[test]
fn tampered_message_is_rejected_not_failed() {
    let sk = signing_key(9);
    let sig = sign(&sk, MESSAGE);
    let (engine, result) = run(Message::Slice(bits_of(b"another message to check")), &public_key(&sk), &sig, CHKSIGNS, DEFAULT_CAPABILITIES);
    assert!(result.is_ok());
    assert_eq!(engine.stack().get(0).unwrap().as_bool(), Ok(false));
}

#[test]
fn uncompressed_key_is_accepted() {
    let sk = signing_key(9);
    let sig = sign(&sk, MESSAGE);
    let key = sk.verifying_key().to_encoded_point(false).as_bytes().to_vec();
    let (engine, result) = run(Message::Slice(bits_of(MESSAGE)), &key, &sig, CHKSIGNS, DEFAULT_CAPABILITIES);
    result.unwrap();
    assert_eq!(engine.stack().get(0).unwrap().as_bool(), Ok(true));
}

#[test]
fn length_is_checked_before_key() {
    let sk = signing_key(9);
    let sig = sign(&sk, MESSAGE);
    let (_, result) = run(Message::Slice(bits_of(MESSAGE)), &not_a_point(), &sig[..63], CHKSIGNS, DEFAULT_CAPABILITIES);
    assert_eq!(result, Err(Exception::InvalidSignatureLength));
}

#[test]
fn missing_capability_keeps_operands() {
    let sk = signing_key(9);
    let sig = sign(&sk, MESSAGE);
    for op in [CHKSIGNS, CHKSIGNU] {
        let (engine, result) = run(Message::Slice(bits_of(MESSAGE)), &public_key(&sk), &sig, op, DEFAULT_CAPABILITIES & !0x400);
        assert_eq!(result, Err(Exception::InvalidOpcode));
        assert_eq!(engine.stack().depth(), 3);
    }
}

#[test]
fn failure_is_sticky() {
    let sk = signing_key(9);
    let sig = sign(&sk, MESSAGE);
    let (mut engine, result) = run(Message::Slice(bits_of(MESSAGE)), &not_a_point(), &sig, CHKSIGNS, DEFAULT_CAPABILITIES);
    assert_eq!(result, Err(Exception::InvalidPublicKey));
    assert_eq!(engine.execute(), Err(Exception::InvalidPublicKey));
    assert_eq!(engine.stack().depth(), 3);
}
