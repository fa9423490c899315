use crate::bits::{bytes_value, pack_bits};
use crate::cell::{advance_bits, whole_cell, CellStore, SliceData};
use crate::crypto::{p256_accepts, sec1_point};
use crate::error::{message_of, Exception, ItemKind};
use crate::executor::{
    byte_at, has_capability, message_kind, operand_bytes, params_error, run_spec, signature_check,
    step_spec, CAP_P256_SIGNATURES, SIGNATURE_BITS,
};
use crate::stack::{bool_value, int_item, kind_of, StackItem};
use vstd::prelude::*;

verus! {

/// The operands below the top three and the parameters are in order, the
/// signature is a slice and the public key a slice or an integer.
pub open spec fn operands_shaped(s: Seq<StackItem>, c7: Option<StackItem>) -> bool {
    &&& s.len() >= 3
    &&& params_error(c7) is None
    &&& s[s.len() - 1] is Slice
    &&& (s[s.len() - 2] is Slice || s[s.len() - 2] is Integer)
}

/// On well-formed operands (a 512-bit signature, a key that decodes to a
/// curve point, a message of the variant the instruction takes and that makes
/// whole bytes) a signature instruction never fails: it yields the verdict of
/// the curve's verification on exactly those bytes, true for a matching
/// triple and false for any other.
pub proof fn lemma_well_formed_operands_give_verdict(
    s: Seq<StackItem>,
    c7: Option<StackItem>,
    store: &CellStore,
    unsigned: bool,
)
    requires
        operands_shaped(s, c7),
        kind_of(s[s.len() - 3]) == message_kind(unsigned),
        s[s.len() - 1]->Slice_0.rest(store).len() == SIGNATURE_BITS,
        operand_bytes(s[s.len() - 3], store) is Ok,
        operand_bytes(s[s.len() - 2], store) is Ok,
        sec1_point(operand_bytes(s[s.len() - 2], store)->Ok_0),
    ensures
        signature_check(s, c7, store, unsigned) == Ok::<bool, Exception>(
            p256_accepts(
                operand_bytes(s[s.len() - 2], store)->Ok_0,
                operand_bytes(s[s.len() - 3], store)->Ok_0,
                pack_bits(s[s.len() - 1]->Slice_0.rest(store)),
            ),
        ),
{
}

/// The integer instruction signs the message as the 32 big-endian bytes of
/// its value; a negative message is out of range.
pub proof fn lemma_integer_message_bytes(msg: StackItem, store: &CellStore)
    requires
        msg is Integer,
        msg->Integer_0.wf(),
    ensures
        msg->Integer_0.value() < 0 ==> operand_bytes(msg, store) == Err::<Seq<u8>, Exception>(
            Exception::RangeError,
        ),
        msg->Integer_0.value() >= 0 ==> {
            &&& operand_bytes(msg, store) is Ok
            &&& operand_bytes(msg, store)->Ok_0.len() == 32
            &&& bytes_value(operand_bytes(msg, store)->Ok_0) == msg->Integer_0.value()
        },
{
    if msg->Integer_0.value() >= 0 {
        msg->Integer_0.lemma_unsigned_bytes();
    }
}

/// A public key that does not decode to a curve point fails the instruction
/// with `InvalidPublicKey`, for both instructions, whatever the signature
/// says, once the operands are otherwise well formed.
pub proof fn lemma_undecodable_key_fails(
    s: Seq<StackItem>,
    c7: Option<StackItem>,
    store: &CellStore,
    unsigned: bool,
)
    requires
        operands_shaped(s, c7),
        kind_of(s[s.len() - 3]) == message_kind(unsigned),
        s[s.len() - 1]->Slice_0.rest(store).len() == SIGNATURE_BITS,
        operand_bytes(s[s.len() - 3], store) is Ok,
        operand_bytes(s[s.len() - 2], store) is Ok,
        !sec1_point(operand_bytes(s[s.len() - 2], store)->Ok_0),
    ensures
        signature_check(s, c7, store, unsigned) == Err::<bool, Exception>(
            Exception::InvalidPublicKey,
        ),
{
}

/// A signature slice of any length but 512 bits fails with
/// `InvalidSignatureLength`, whether or not the key would decode.
pub proof fn lemma_signature_length_checked_first(
    s: Seq<StackItem>,
    c7: Option<StackItem>,
    store: &CellStore,
    unsigned: bool,
)
    requires
        operands_shaped(s, c7),
        kind_of(s[s.len() - 3]) == message_kind(unsigned),
        s[s.len() - 1]->Slice_0.rest(store).len() != SIGNATURE_BITS,
    ensures
        signature_check(s, c7, store, unsigned) == Err::<bool, Exception>(
            Exception::InvalidSignatureLength,
        ),
{
}

/// A message slice whose remaining bits do not make whole bytes is read past
/// its data: the slice instruction fails with `CellUnderflow`.
pub proof fn lemma_message_underflow(s: Seq<StackItem>, c7: Option<StackItem>, store: &CellStore)
    requires
        operands_shaped(s, c7),
        s[s.len() - 3] is Slice,
        s[s.len() - 1]->Slice_0.rest(store).len() == SIGNATURE_BITS,
        s[s.len() - 3]->Slice_0.rest(store).len() % 8 != 0,
    ensures
        signature_check(s, c7, store, false) == Err::<bool, Exception>(Exception::CellUnderflow),
{
}

/// The slice instruction refuses a message that is not a slice, reporting
/// "item is not a slice"; the integer instruction refuses one that is not an
/// integer, reporting "item is not an integer". In particular each refuses
/// the other's message.
pub proof fn lemma_message_variant_enforced(
    s: Seq<StackItem>,
    c7: Option<StackItem>,
    store: &CellStore,
)
    requires
        operands_shaped(s, c7),
    ensures
        !(s[s.len() - 3] is Slice) ==> {
            &&& signature_check(s, c7, store, false) == Err::<bool, Exception>(
                Exception::TypeMismatch { expected: ItemKind::Slice, found: kind_of(s[s.len() - 3]) },
            )
            &&& message_of(signature_check(s, c7, store, false)->Err_0) == "item is not a slice"@
        },
        !(s[s.len() - 3] is Integer) ==> {
            &&& signature_check(s, c7, store, true) == Err::<bool, Exception>(
                Exception::TypeMismatch {
                    expected: ItemKind::Integer,
                    found: kind_of(s[s.len() - 3]),
                },
            )
            &&& message_of(signature_check(s, c7, store, true)->Err_0)
                == "item is not an integer"@
        },
{
    reveal_strlit("item is not a slice");
    reveal_strlit("item is not an integer");
    reveal_strlit("item is not ");
    reveal_strlit("a slice");
    reveal_strlit("an integer");
    assert("item is not "@ + "a slice"@ =~= "item is not a slice"@);
    assert("item is not "@ + "an integer"@ =~= "item is not an integer"@);
}

/// A program that pushes slices over its first three references and then
/// runs a signature instruction ends as that instruction decides on the three
/// pushed operands: without the capability it fails with `InvalidOpcode` and
/// the three operands stay; otherwise a verdict replaces them, or the
/// instruction's failure stops the run with the operands in place.
pub proof fn lemma_push_three_then_check(
    caps: u64,
    store: &CellStore,
    c7: Option<StackItem>,
    code: SliceData,
    s: Seq<StackItem>,
)
    requires
        store.wf(),
        code.wf(store),
        code.rest(store).len() == 40,
        byte_at(code.rest(store), 0) == 0x89,
        byte_at(code.rest(store), 1) == 0x89,
        byte_at(code.rest(store), 2) == 0x89,
        byte_at(code.rest(store), 3) == 0xF9,
        byte_at(code.rest(store), 4) == 0x14 || byte_at(code.rest(store), 4) == 0x15,
        code.rest_refs(store).len() >= 3,
    ensures
        ({
            let refs = code.rest_refs(store);
            let s3 = s.push(StackItem::Slice(whole_cell(store, refs[0]))).push(
                StackItem::Slice(whole_cell(store, refs[1])),
            ).push(StackItem::Slice(whole_cell(store, refs[2])));
            let unsigned = byte_at(code.rest(store), 4) == 0x14;
            run_spec(caps, store, c7, code, s) == if !has_capability(caps, CAP_P256_SIGNATURES) {
                (Err::<(), Exception>(Exception::InvalidOpcode), s3)
            } else {
                match signature_check(s3, c7, store, unsigned) {
                    Ok(v) => (Ok::<(), Exception>(()), s.push(int_item(bool_value(v)))),
                    Err(e) => (Err::<(), Exception>(e), s3),
                }
            }
        }),
{
    let rest = code.rest(store);
    let refs = code.rest_refs(store);
    let c1 = SliceData { ref_pos: (code.ref_pos + 1) as usize, ..advance_bits(code, 8) };
    let c2 = SliceData { ref_pos: (c1.ref_pos + 1) as usize, ..advance_bits(c1, 8) };
    let c3 = SliceData { ref_pos: (c2.ref_pos + 1) as usize, ..advance_bits(c2, 8) };
    let c4 = advance_bits(c3, 16);
    let s1 = s.push(StackItem::Slice(whole_cell(store, refs[0])));
    let s2 = s1.push(StackItem::Slice(whole_cell(store, refs[1])));
    let s3 = s2.push(StackItem::Slice(whole_cell(store, refs[2])));
    assert(c1.rest(store) =~= rest.subrange(8, 40));
    assert(c2.rest(store) =~= rest.subrange(16, 40));
    assert(c3.rest(store) =~= rest.subrange(24, 40));
    assert(c4.rest(store) =~= rest.subrange(40, 40));
    assert(c1.rest_refs(store) =~= refs.drop_first());
    assert(c2.rest_refs(store) =~= refs.subrange(2, refs.len() as int));
    assert(byte_at(c1.rest(store), 0) == byte_at(rest, 1)) by {
        assert(c1.rest(store).subrange(0, 8) =~= rest.subrange(8, 16));
    }
    assert(byte_at(c2.rest(store), 0) == byte_at(rest, 2)) by {
        assert(c2.rest(store).subrange(0, 8) =~= rest.subrange(16, 24));
    }
    assert(byte_at(c3.rest(store), 0) == byte_at(rest, 3)) by {
        assert(c3.rest(store).subrange(0, 8) =~= rest.subrange(24, 32));
    }
    assert(byte_at(c3.rest(store), 1) == byte_at(rest, 4)) by {
        assert(c3.rest(store).subrange(8, 16) =~= rest.subrange(32, 40));
    }
    assert(step_spec(caps, store, c7, code, s) == (Ok::<bool, Exception>(true), c1, s1));
    assert(step_spec(caps, store, c7, c1, s1) == (Ok::<bool, Exception>(true), c2, s2));
    assert(step_spec(caps, store, c7, c2, s2) == (Ok::<bool, Exception>(true), c3, s3));
    assert(s3.subrange(0, s3.len() - 3) =~= s);
    assert(code.bit_end - code.bit_pos == 40);
    assert(run_spec(caps, store, c7, code, s) == run_spec(caps, store, c7, c1, s1));
    assert(run_spec(caps, store, c7, c1, s1) == run_spec(caps, store, c7, c2, s2));
    assert(run_spec(caps, store, c7, c2, s2) == run_spec(caps, store, c7, c3, s3));
    if has_capability(caps, CAP_P256_SIGNATURES) {
        match signature_check(s3, c7, store, byte_at(rest, 4) == 0x14) {
            Ok(v) => {
                assert(step_spec(caps, store, c7, c3, s3) == (
                    Ok::<bool, Exception>(true),
                    c4,
                    s.push(int_item(bool_value(v))),
                ));
                assert(step_spec(caps, store, c7, c4, s.push(int_item(bool_value(v)))).0
                    == Ok::<bool, Exception>(false));
                assert(run_spec(caps, store, c7, c3, s3) == run_spec(
                    caps,
                    store,
                    c7,
                    c4,
                    s.push(int_item(bool_value(v))),
                ));
            },
            Err(e) => {},
        }
    }
}

} // verus!
