use crate::bits::{bits_value, byte_of, pack_bits};
use crate::cell::{advance_bits, whole_cell, CellStore, SliceData};
use crate::crypto::{decodes_to_point, p256_accepts, p256_verify, sec1_point};
use crate::error::{Exception, ItemKind};
use crate::integer::IntegerData;
use crate::savelist::{SaveList, PARAMS_REGISTER};
use crate::stack::{bool_value, int_item, kind_of, lemma_int_item, Stack, StackItem};
use vstd::prelude::*;
use vstd::string::StringExecFns;

verus! {

/// Capability bit that enables the P-256 signature instructions.
pub const CAP_P256_SIGNATURES: u64 = 0x400;

/// Length in bits of a signature operand: `r || s`, 32 bytes each.
pub const SIGNATURE_BITS: usize = 512;

/// The instruction byte of the two-byte signature instructions.
pub const OP_CRYPTO_PREFIX: u8 = 0xF9;

/// Second byte of `P256_CHKSIGNU`: the message is a 256-bit integer.
pub const OP_P256_CHKSIGNU: u8 = 0x14;

/// Second byte of `P256_CHKSIGNS`: the message is a slice.
pub const OP_P256_CHKSIGNS: u8 = 0x15;

/// Whether a capability mask holds every bit of `required`.
pub open spec fn has_capability(mask: u64, required: u64) -> bool {
    mask & required == required
}

/// What is wrong with the parameter register, if anything: it must hold a
/// tuple whose first element is a tuple.
pub open spec fn params_error(c7: Option<StackItem>) -> Option<Exception> {
    match c7 {
        None => Some(Exception::TypeMismatch { expected: ItemKind::Tuple, found: ItemKind::Null }),
        Some(StackItem::Tuple(t)) => {
            if t@.len() == 0 {
                Some(Exception::RangeError)
            } else if t@[0] is Tuple {
                None
            } else {
                Some(Exception::TypeMismatch { expected: ItemKind::Tuple, found: kind_of(t@[0]) })
            }
        },
        Some(other) => Some(Exception::TypeMismatch { expected: ItemKind::Tuple, found: kind_of(other) }),
    }
}

/// The bytes that an operand stands for: the remaining bits of a slice, which
/// must make whole bytes, or the 32 bytes of a non-negative integer.
///
/// A public key given as an integer thus always comes out as 32 bytes, and
/// SEC1 encodings are 1, 33 or 65 bytes long: such a key never decodes, and
/// a signature instruction given one fails with `InvalidPublicKey` once the
/// earlier checks pass. Keys are meant to be given as slices.
pub open spec fn operand_bytes(item: StackItem, store: &CellStore) -> Result<Seq<u8>, Exception> {
    match item {
        StackItem::Slice(s) => {
            if s.rest(store).len() % 8 == 0 {
                Ok(pack_bits(s.rest(store)))
            } else {
                Err(Exception::CellUnderflow)
            }
        },
        StackItem::Integer(i) => {
            if i.value() >= 0 {
                Ok(pack_bits(i.magnitude_bits()))
            } else {
                Err(Exception::RangeError)
            }
        },
        _ => Err(Exception::TypeMismatch { expected: ItemKind::Slice, found: kind_of(item) }),
    }
}

/// The variant that the message operand must have.
pub open spec fn message_kind(unsigned: bool) -> ItemKind {
    if unsigned {
        ItemKind::Integer
    } else {
        ItemKind::Slice
    }
}

/// The outcome of a signature instruction on stack `s` (top last) with
/// parameter register `c7`: the truth value it pushes in place of its three
/// operands, or the failure. From the top the operands are the signature (a
/// slice of 512 bits), the public key (a slice or an integer) and the message
/// (an integer when `unsigned`, a slice otherwise). Operand count, parameters,
/// variants, signature length, message bytes, key bytes and key decoding are
/// checked in that order, before the signature itself.
pub open spec fn signature_check(
    s: Seq<StackItem>,
    c7: Option<StackItem>,
    store: &CellStore,
    unsigned: bool,
) -> Result<bool, Exception> {
    if s.len() < 3 {
        Err(Exception::StackUnderflow)
    } else if params_error(c7) is Some {
        Err(params_error(c7)->Some_0)
    } else {
        let sig = s[s.len() - 1];
        let key = s[s.len() - 2];
        let msg = s[s.len() - 3];
        if !(sig is Slice) {
            Err(Exception::TypeMismatch { expected: ItemKind::Slice, found: kind_of(sig) })
        } else if !(key is Slice || key is Integer) {
            Err(Exception::TypeMismatch { expected: ItemKind::Slice, found: kind_of(key) })
        } else if kind_of(msg) != message_kind(unsigned) {
            Err(Exception::TypeMismatch { expected: message_kind(unsigned), found: kind_of(msg) })
        } else if sig->Slice_0.rest(store).len() != SIGNATURE_BITS {
            Err(Exception::InvalidSignatureLength)
        } else if operand_bytes(msg, store) is Err {
            Err(operand_bytes(msg, store)->Err_0)
        } else if operand_bytes(key, store) is Err {
            Err(operand_bytes(key, store)->Err_0)
        } else if !sec1_point(operand_bytes(key, store)->Ok_0) {
            Err(Exception::InvalidPublicKey)
        } else {
            Ok(
                p256_accepts(
                    operand_bytes(key, store)->Ok_0,
                    operand_bytes(msg, store)->Ok_0,
                    pack_bits(sig->Slice_0.rest(store)),
                ),
            )
        }
    }
}

/// The `k`-th byte of a bit string.
pub open spec fn byte_at(rest: Seq<bool>, k: int) -> u8 {
    byte_of(rest.subrange(8 * k, 8 * k + 8))
}

/// The value pushed by the one-byte instruction `op` in `0x70..=0x7F`.
pub open spec fn tiny_int(op: u8) -> int {
    if op - 0x70 <= 10 {
        op - 0x70
    } else {
        op - 0x70 - 16
    }
}

/// A byte read as a signed number.
pub open spec fn signed_byte(b: u8) -> int {
    if b < 128 {
        b as int
    } else {
        b - 256
    }
}

/// The stack after replacing the slice on top with the unsigned integer of
/// its first `n` bits, or the failure.
pub open spec fn preload_spec(s: Seq<StackItem>, store: &CellStore, n: int) -> Result<
    Seq<StackItem>,
    Exception,
> {
    if s.len() == 0 {
        Err(Exception::StackUnderflow)
    } else if !(s.last() is Slice) {
        Err(Exception::TypeMismatch { expected: ItemKind::Slice, found: kind_of(s.last()) })
    } else if s.last()->Slice_0.rest(store).len() < n {
        Err(Exception::CellUnderflow)
    } else {
        Ok(s.drop_last().push(int_item(bits_value(s.last()->Slice_0.rest(store).subrange(0, n)))))
    }
}

/// One instruction of code `code` run on stack `s` with capability mask
/// `caps` and parameter register `c7`: whether an instruction ran (`false`
/// at the end of the code) or the failure, the code left, and the stack after.
/// A failing instruction leaves the stack as it was; the code part is
/// meaningful only on success.
///
/// Instructions: `0x70..=0x7F` pushes a small integer; `0x80 b` pushes the
/// signed byte `b`; `0x88` pushes the next reference of the code as a cell
/// and `0x89` as a slice over it; `0xD7 0x0B c` replaces the slice on top
/// with the unsigned integer of its first `c + 1` bits; `0xF9 0x14` and
/// `0xF9 0x15` are the integer and slice signature checks, enabled by
/// `CAP_P256_SIGNATURES`. Anything else is an invalid opcode.
pub open spec fn step_spec(
    caps: u64,
    store: &CellStore,
    c7: Option<StackItem>,
    code: SliceData,
    s: Seq<StackItem>,
) -> (Result<bool, Exception>, SliceData, Seq<StackItem>) {
    let rest = code.rest(store);
    let invalid = (Err(Exception::InvalidOpcode), code, s);
    if rest.len() == 0 {
        (Ok(false), code, s)
    } else if rest.len() < 8 {
        invalid
    } else {
        let op = byte_at(rest, 0);
        if 0x70 <= op <= 0x7f {
            (Ok(true), advance_bits(code, 8), s.push(int_item(tiny_int(op))))
        } else if op == 0x80 {
            if rest.len() < 16 {
                invalid
            } else {
                (Ok(true), advance_bits(code, 16), s.push(int_item(signed_byte(byte_at(rest, 1)))))
            }
        } else if op == 0x88 || op == 0x89 {
            let refs = code.rest_refs(store);
            if refs.len() == 0 {
                invalid
            } else {
                let next = SliceData { ref_pos: (code.ref_pos + 1) as usize, ..advance_bits(code, 8) };
                let item = if op == 0x88 {
                    StackItem::Cell(refs[0])
                } else {
                    StackItem::Slice(whole_cell(store, refs[0]))
                };
                (Ok(true), next, s.push(item))
            }
        } else if op == 0xD7 {
            if rest.len() < 16 || byte_at(rest, 1) != 0x0B || rest.len() < 24 {
                invalid
            } else {
                match preload_spec(s, store, byte_at(rest, 2) + 1) {
                    Ok(s2) => (Ok(true), advance_bits(code, 24), s2),
                    Err(e) => (Err(e), code, s),
                }
            }
        } else if op == OP_CRYPTO_PREFIX {
            if rest.len() < 16 {
                invalid
            } else {
                let sub = byte_at(rest, 1);
                if sub != OP_P256_CHKSIGNU && sub != OP_P256_CHKSIGNS {
                    invalid
                } else if !has_capability(caps, CAP_P256_SIGNATURES) {
                    invalid
                } else {
                    match signature_check(s, c7, store, sub == OP_P256_CHKSIGNU) {
                        Ok(v) => (
                            Ok(true),
                            advance_bits(code, 16),
                            s.subrange(0, s.len() - 3).push(int_item(bool_value(v))),
                        ),
                        Err(e) => (Err(e), code, s),
                    }
                }
            }
        } else {
            invalid
        }
    }
}

/// The outcome of running code `code` to its end or to the first failure,
/// and the final stack.
pub open spec fn run_spec(
    caps: u64,
    store: &CellStore,
    c7: Option<StackItem>,
    code: SliceData,
    s: Seq<StackItem>,
) -> (Result<(), Exception>, Seq<StackItem>)
    decreases code.bit_end - code.bit_pos,
{
    let next = step_spec(caps, store, c7, code, s);
    match next.0 {
        Err(e) => (Err(e), s),
        Ok(false) => (Ok(()), s),
        Ok(true) => {
            if 0 <= next.1.bit_end - next.1.bit_pos < code.bit_end - code.bit_pos {
                run_spec(caps, store, c7, next.1, next.2)
            } else {
                (Err(Exception::InvalidOpcode), s)
            }
        },
    }
}

/// Where an engine stands.
#[derive(Clone, Copy, Debug, PartialEq, Eq, Structural)]
pub enum Status {
    /// Set up, not run yet.
    Ready,
    /// Ran to the end of its code.
    Halted,
    /// Stopped at the first failure.
    Failed(Exception),
}

/// Fixes the capabilities of an engine before its code is set up.
pub struct EngineBuilder {
    pub capabilities: u64,
}

/// The machine: data stack, control registers, capabilities, the store of
/// cells and the code being run.
pub struct Engine {
    capabilities: u64,
    cells: CellStore,
    code: SliceData,
    stack: Stack,
    ctrls: SaveList,
    libraries: Vec<usize>,
    gas_limit: Option<i64>,
    code_pages: Vec<usize>,
    status: Status,
}

impl EngineBuilder {
    /// An engine that runs `code`, a slice of a cell of `cells`, with the
    /// given control registers (empty ones if none are given) and an empty
    /// stack. Library cells, a gas limit and extra code pages are kept with
    /// the engine.
    pub fn setup_with_libraries(
        self,
        cells: CellStore,
        code: SliceData,
        ctrls: Option<SaveList>,
        libraries: Option<Vec<usize>>,
        gas_limit: Option<i64>,
        code_pages: Vec<usize>,
    ) -> (r: Engine)
        requires
            cells.wf(),
            code.wf(&cells),
            ctrls is Some ==> ctrls->Some_0.wf(),
        ensures
            r.wf(),
            r.capabilities() == self.capabilities,
            r.cells() == cells,
            r.code() == code,
            r.stack_items() == Seq::<StackItem>::empty(),
            r.status() == Status::Ready,
            ctrls is Some ==> r.registers() == ctrls->Some_0@,
            ctrls is None ==> forall|i: int| 0 <= i < 16 ==> r.registers()[i] is None,
    {
        let ctrls = match ctrls {
            Some(c) => c,
            None => SaveList::new(),
        };
        let libraries = match libraries {
            Some(l) => l,
            None => Vec::new(),
        };
        Engine {
            capabilities: self.capabilities,
            cells,
            code,
            stack: Stack::new(),
            ctrls,
            libraries,
            gas_limit,
            code_pages,
            status: Status::Ready,
        }
    }
}

impl Engine {
    pub closed spec fn capabilities(&self) -> u64 {
        self.capabilities
    }

    pub closed spec fn cells(&self) -> CellStore {
        self.cells
    }

    /// The code still to run.
    pub closed spec fn code(&self) -> SliceData {
        self.code
    }

    /// The data stack, bottom first.
    pub closed spec fn stack_items(&self) -> Seq<StackItem> {
        self.stack@
    }

    /// The control registers.
    pub closed spec fn registers(&self) -> Seq<Option<StackItem>> {
        self.ctrls@
    }

    pub closed spec fn status(&self) -> Status {
        self.status
    }

    pub closed spec fn wf(&self) -> bool {
        &&& self.cells.wf()
        &&& self.code.wf(&self.cells)
        &&& self.stack.wf(&self.cells)
        &&& self.ctrls.wf()
    }

    /// Starts an engine with the given capability mask.
    pub fn with_capabilities(mask: u64) -> (r: EngineBuilder)
        ensures
            r.capabilities == mask,
    {
        EngineBuilder { capabilities: mask }
    }

    /// The data stack.
    pub fn stack(&self) -> (r: &Stack)
        ensures
            r@ == self.stack_items(),
    {
        &self.stack
    }

    /// The control registers.
    pub fn ctrls(&self) -> (r: &SaveList)
        ensures
            r@ == self.registers(),
    {
        &self.ctrls
    }

    /// Everything but the stack and the code is as in `old`, and the code
    /// still runs over the same cell.
    pub open spec fn same_frame(&self, old: &Engine) -> bool {
        &&& self.capabilities() == old.capabilities()
        &&& self.cells() == old.cells()
        &&& self.registers() == old.registers()
        &&& self.status() == old.status()
        &&& self.code().cell == old.code().cell
    }

    /// One step from the current state, as `step_spec` gives it.
    pub open spec fn step_outcome(&self) -> (Result<bool, Exception>, SliceData, Seq<StackItem>) {
        step_spec(
            self.capabilities(),
            &self.cells(),
            self.registers()[PARAMS_REGISTER as int],
            self.code(),
            self.stack_items(),
        )
    }

    /// The outcome of running the current state to the end, as `run_spec`
    /// gives it.
    pub open spec fn run_outcome(&self) -> (Result<(), Exception>, Seq<StackItem>) {
        run_spec(
            self.capabilities(),
            &self.cells(),
            self.registers()[PARAMS_REGISTER as int],
            self.code(),
            self.stack_items(),
        )
    }

    /// Runs the instruction at the head of the code. `Ok(false)` when no code
    /// is left; `Ok(true)` when one instruction ran. A failing instruction
    /// leaves the stack as it was.
    pub fn step(&mut self) -> (r: Result<bool, Exception>)
        requires
            old(self).wf(),
        ensures
            final(self).wf(),
            final(self).same_frame(old(self)),
            r == old(self).step_outcome().0,
            final(self).stack_items() == old(self).step_outcome().2,
            r is Ok ==> final(self).code() == old(self).step_outcome().1,
            r == Ok::<bool, Exception>(true) ==> final(self).code().rest(&final(self).cells()).len()
                < old(self).code().rest(&old(self).cells()).len(),
    {
        if self.code.remaining_bits() == 0 {
            return Ok(false);
        }
        let ghost code0 = self.code.rest(&self.cells);
        let op = match self.code.get_next_byte(&self.cells) {
            Ok(b) => b,
            Err(_) => {
                return Err(Exception::InvalidOpcode);
            },
        };
        assert(code0.subrange(0, 8) == code0.subrange(8 * 0int, 8 * 0int + 8));
        if 0x70 <= op && op <= 0x7f {
            let n: u8 = op - 0x70;
            let v: i64 = if n <= 10 {
                n as i64
            } else {
                n as i64 - 16
            };
            let item = StackItem::integer(v);
            proof {
                lemma_int_item(item, tiny_int(op) as int);
            }
            self.push_item(item);
            return Ok(true);
        }
        if op == 0x80 {
            let ghost code1 = self.code.rest(&self.cells);
            let x = self.fetch_operand_byte()?;
            proof {
                assert(code1.subrange(0, 8) =~= code0.subrange(8, 16));
                assert(code0.subrange(8 * 1int, 8 * 1int + 8) == code0.subrange(8, 16));
            }
            let v: i64 = if x < 128 {
                x as i64
            } else {
                x as i64 - 256
            };
            let item = StackItem::integer(v);
            proof {
                lemma_int_item(item, signed_byte(x));
            }
            self.push_item(item);
            return Ok(true);
        }
        if op == 0x88 || op == 0x89 {
            let ghost refs0 = self.code.rest_refs(&self.cells);
            let ghost c = self.code;
            let id = match self.code.get_next_reference(&self.cells) {
                Ok(id) => id,
                Err(_) => {
                    return Err(Exception::InvalidOpcode);
                },
            };
            proof {
                self.cells.lemma_wf_facts(self.code.cell as int);
                assert(id == self.cells.refs_of(c.cell as int)[c.ref_pos as int]);
            }
            if op == 0x88 {
                self.push_item(StackItem::Cell(id));
            } else {
                let s = match SliceData::load_cell(&self.cells, id) {
                    Ok(s) => s,
                    Err(e) => {
                        return Err(e);
                    },
                };
                self.push_item(StackItem::Slice(s));
            }
            return Ok(true);
        }
        if op == 0xD7 {
            let ghost code1 = self.code.rest(&self.cells);
            let sub = self.fetch_operand_byte()?;
            proof {
                assert(code1.subrange(0, 8) =~= code0.subrange(8, 16));
                assert(code0.subrange(8 * 1int, 8 * 1int + 8) == code0.subrange(8, 16));
            }
            if sub != 0x0B {
                return Err(Exception::InvalidOpcode);
            }
            let ghost code2 = self.code.rest(&self.cells);
            let cc = self.fetch_operand_byte()?;
            proof {
                assert(code2.subrange(0, 8) =~= code0.subrange(16, 24));
                assert(code0.subrange(8 * 2int, 8 * 2int + 8) == code0.subrange(16, 24));
            }
            self.preload_uint(cc as usize + 1)?;
            return Ok(true);
        }
        if op == OP_CRYPTO_PREFIX {
            let ghost code1 = self.code.rest(&self.cells);
            let sub = self.fetch_operand_byte()?;
            proof {
                assert(code1.subrange(0, 8) =~= code0.subrange(8, 16));
                assert(code0.subrange(8 * 1int, 8 * 1int + 8) == code0.subrange(8, 16));
                assert(self.code.rest(&self.cells) =~= code0.subrange(16, code0.len() as int));
            }
            if sub != OP_P256_CHKSIGNU && sub != OP_P256_CHKSIGNS {
                return Err(Exception::InvalidOpcode);
            }
            if self.capabilities & CAP_P256_SIGNATURES != CAP_P256_SIGNATURES {
                return Err(Exception::InvalidOpcode);
            }
            let ok = self.signature_operands(sub == OP_P256_CHKSIGNU)?;
            let ghost s0 = self.stack@;
            let _ = self.stack.pop();
            let _ = self.stack.pop();
            let _ = self.stack.pop();
            assert(self.stack@ =~= s0.subrange(0, s0.len() - 3));
            proof {
                assert forall|i: int| 0 <= i < self.stack@.len() implies #[trigger] self.stack@[i].wf(
                    &self.cells,
                ) by {
                    assert(self.stack@[i] == s0[i]);
                }
            }
            let item = StackItem::boolean(ok);
            proof {
                lemma_int_item(item, bool_value(ok));
            }
            self.push_item(item);
            return Ok(true);
        }
        Err(Exception::InvalidOpcode)
    }

    /// Reads one more byte of the current instruction; a missing one makes the
    /// instruction invalid.
    fn fetch_operand_byte(&mut self) -> (r: Result<u8, Exception>)
        requires
            old(self).wf(),
        ensures
            final(self).wf(),
            final(self).same_frame(old(self)),
            final(self).stack_items() == old(self).stack_items(),
            r is Err ==> r == Err::<u8, Exception>(Exception::InvalidOpcode),
            r is Ok <==> old(self).code().rest(&old(self).cells()).len() >= 8,
            r is Ok ==> {
                &&& final(self).code() == advance_bits(old(self).code(), 8)
                &&& old(self).code().rest(&old(self).cells()).len() >= 8
                &&& r->Ok_0 == byte_of(old(self).code().rest(&old(self).cells()).subrange(0, 8))
                &&& final(self).code().rest(&final(self).cells()) == old(self).code().rest(
                    &old(self).cells(),
                ).subrange(8, old(self).code().rest(&old(self).cells()).len() as int)
            },
            r is Err ==> final(self).code() == old(self).code(),
    {
        match self.code.get_next_byte(&self.cells) {
            Ok(b) => Ok(b),
            Err(_) => Err(Exception::InvalidOpcode),
        }
    }

    /// Pushes an item that is well formed over the engine's cells.
    fn push_item(&mut self, item: StackItem)
        requires
            old(self).wf(),
            item.wf(&old(self).cells),
        ensures
            final(self).wf(),
            final(self).same_frame(old(self)),
            final(self).code() == old(self).code(),
            final(self).stack_items() == old(self).stack_items().push(item),
    {
        self.stack.push(item);
        assert forall|i: int| 0 <= i < self.stack@.len() implies #[trigger] self.stack@[i].wf(
            &self.cells,
        ) by {
            if i < old(self).stack@.len() {
                assert(self.stack@[i] == old(self).stack@[i]);
            }
        }
    }

    /// Replaces the slice on top with the unsigned integer of its first `n`
    /// bits, leaving the stack as it was on failure.
    fn preload_uint(&mut self, n: usize) -> (r: Result<(), Exception>)
        requires
            old(self).wf(),
            1 <= n <= 256,
        ensures
            final(self).wf(),
            final(self).same_frame(old(self)),
            final(self).code() == old(self).code(),
            r is Ok <==> preload_spec(old(self).stack_items(), &old(self).cells(), n as int) is Ok,
            r is Ok ==> final(self).stack_items() == preload_spec(
                old(self).stack_items(),
                &old(self).cells(),
                n as int,
            )->Ok_0,
            r is Err ==> final(self).stack_items() == old(self).stack_items() && r->Err_0
                == preload_spec(old(self).stack_items(), &old(self).cells(), n as int)->Err_0,
    {
        let top = self.stack.get(0)?;
        let s = top.as_slice()?;
        proof {
            assert(self.stack@[self.stack@.len() - 1].wf(&self.cells));
        }
        let mut cursor = s;
        let bits = cursor.get_next_bits(&self.cells, n)?;
        let value = IntegerData::from_bits(false, bits.as_slice());
        proof {
            crate::bits::lemma_bits_bound(bits@);
            lemma_int_item(StackItem::Integer(value), bits_value(bits@));
        }
        let _ = self.stack.pop();
        self.push_item(StackItem::Integer(value));
        Ok(())
    }

    /// Runs the code to its end or to the first failure. An engine that has
    /// already run gives the same outcome again and does not change.
    pub fn execute(&mut self) -> (r: Result<(), Exception>)
        requires
            old(self).wf(),
        ensures
            final(self).wf(),
            final(self).capabilities() == old(self).capabilities(),
            final(self).cells() == old(self).cells(),
            final(self).registers() == old(self).registers(),
            old(self).status() == Status::Halted ==> r is Ok && *final(self) == *old(self),
            old(self).status() is Failed ==> r == Err::<(), Exception>(
                old(self).status()->Failed_0,
            ) && *final(self) == *old(self),
            old(self).status() == Status::Ready ==> {
                &&& (r, final(self).stack_items()) == old(self).run_outcome()
                &&& r is Ok ==> final(self).status() == Status::Halted
                &&& r is Err ==> final(self).status() == Status::Failed(r->Err_0)
            },
    {
        match self.status {
            Status::Halted => {
                return Ok(());
            },
            Status::Failed(e) => {
                return Err(e);
            },
            Status::Ready => {},
        }
        loop
            invariant
                self.wf(),
                self.capabilities() == old(self).capabilities(),
                self.cells() == old(self).cells(),
                self.registers() == old(self).registers(),
                self.status() == Status::Ready,
                old(self).status() == Status::Ready,
                self.run_outcome() == old(self).run_outcome(),
            decreases self.code().rest(&self.cells()).len(),
        {
            let ghost before = *self;
            match self.step() {
                Ok(true) => {
                    assert(self.code().bit_end == before.code().bit_end);
                },
                Ok(false) => {
                    self.status = Status::Halted;
                    return Ok(());
                },
                Err(e) => {
                    self.status = Status::Failed(e);
                    return Err(e);
                },
            }
        }
    }

    /// One line per register, `c<i>: <variant>`, in order; empty registers
    /// are listed only when `verbose`. Reading the registers changes nothing.
    pub fn dump_ctrls(&self, verbose: bool) -> (r: String)
        requires
            self.wf(),
        ensures
            r@ == dump_text(self.registers(), 16, verbose),
    {
        let mut out = "".to_owned();
        proof {
            reveal_strlit("");
            assert(out@ =~= dump_text(self.registers(), 0, verbose));
        }
        let mut i: usize = 0;
        while i < 16
            invariant
                self.wf(),
                i <= 16,
                out@ == dump_text(self.registers(), i as nat, verbose),
            decreases 16 - i,
        {
            match self.ctrls.get(i) {
                Some(item) => {
                    out = out.concat("c").concat(register_digits(i)).concat(": ").concat(
                        item.kind().noun(),
                    ).concat("\n");
                },
                None => {
                    if verbose {
                        out = out.concat("c").concat(register_digits(i)).concat(": empty\n");
                    }
                },
            }
            i = i + 1;
        }
        out
    }

    /// The outcome of the signature instruction on the current state, without
    /// changing it.
    fn signature_operands(&self, unsigned: bool) -> (r: Result<bool, Exception>)
        requires
            self.wf(),
        ensures
            r == signature_check(
                self.stack@,
                self.ctrls@[PARAMS_REGISTER as int],
                &self.cells,
                unsigned,
            ),
    {
        if self.stack.depth() < 3 {
            return Err(Exception::StackUnderflow);
        }
        check_params(&self.ctrls)?;
        let sig_item = self.stack.get(0)?;
        let key = self.stack.get(1)?;
        let msg = self.stack.get(2)?;
        let sig = sig_item.as_slice()?;
        match key {
            StackItem::Slice(_) => {},
            StackItem::Integer(_) => {},
            _ => {
                return Err(Exception::TypeMismatch { expected: ItemKind::Slice, found: key.kind() });
            },
        }
        if unsigned {
            msg.as_integer()?;
        } else {
            msg.as_slice()?;
        }
        proof {
            assert(self.stack@[self.stack@.len() - 1].wf(&self.cells));
            assert(self.stack@[self.stack@.len() - 2].wf(&self.cells));
            assert(self.stack@[self.stack@.len() - 3].wf(&self.cells));
        }
        if sig.remaining_bits() != SIGNATURE_BITS {
            return Err(Exception::InvalidSignatureLength);
        }
        let msg_bytes = self.operand_to_bytes(msg)?;
        let key_bytes = self.operand_to_bytes(key)?;
        if !decodes_to_point(key_bytes.as_slice()) {
            return Err(Exception::InvalidPublicKey);
        }
        let sig_bytes = sig.data_bytes(&self.cells)?;
        Ok(p256_verify(key_bytes.as_slice(), msg_bytes.as_slice(), sig_bytes.as_slice()))
    }

    fn operand_to_bytes(&self, item: &StackItem) -> (r: Result<Vec<u8>, Exception>)
        requires
            self.wf(),
            item is Slice || item is Integer,
            item.wf(&self.cells),
        ensures
            r.is_ok() == operand_bytes(*item, &self.cells) is Ok,
            r.is_ok() ==> r.unwrap()@ == operand_bytes(*item, &self.cells)->Ok_0,
            r.is_err() ==> r->Err_0 == operand_bytes(*item, &self.cells)->Err_0,
    {
        match item {
            StackItem::Slice(s) => s.data_bytes(&self.cells),
            StackItem::Integer(i) => {
                if i.is_non_negative() {
                    Ok(i.to_unsigned_bytes())
                } else {
                    Err(Exception::RangeError)
                }
            },
            _ => Err(Exception::TypeMismatch { expected: ItemKind::Slice, found: item.kind() }),
        }
    }
}

fn check_params(ctrls: &SaveList) -> (r: Result<(), Exception>)
    requires
        ctrls.wf(),
    ensures
        r.is_ok() <==> params_error(ctrls@[PARAMS_REGISTER as int]) is None,
        r.is_err() ==> r->Err_0 == params_error(ctrls@[PARAMS_REGISTER as int])->Some_0,
{
    match ctrls.get(PARAMS_REGISTER) {
        None => Err(Exception::TypeMismatch { expected: ItemKind::Tuple, found: ItemKind::Null }),
        Some(item) => {
            let t = item.as_tuple()?;
            if t.len() == 0 {
                return Err(Exception::RangeError);
            }
            match &t[0] {
                StackItem::Tuple(_) => Ok(()),
                other => Err(Exception::TypeMismatch { expected: ItemKind::Tuple, found: other.kind() }),
            }
        },
    }
}

} // verus!

verus! {

pub open spec fn digits_text(i: int) -> Seq<char> {
    if i == 0 { "0"@ } else if i == 1 { "1"@ } else if i == 2 { "2"@ } else if i == 3 { "3"@ }
    else if i == 4 { "4"@ } else if i == 5 { "5"@ } else if i == 6 { "6"@ } else if i == 7 { "7"@ }
    else if i == 8 { "8"@ } else if i == 9 { "9"@ } else if i == 10 { "10"@ } else if i == 11 { "11"@ }
    else if i == 12 { "12"@ } else if i == 13 { "13"@ } else if i == 14 { "14"@ } else { "15"@ }
}

/// The dump line of register `i`.
pub open spec fn register_line(i: int, reg: Option<StackItem>, verbose: bool) -> Seq<char> {
    match reg {
        Some(item) => "c"@ + digits_text(i) + ": "@ + crate::error::kind_noun(kind_of(item)) + "\n"@,
        None => if verbose {
            "c"@ + digits_text(i) + ": empty\n"@
        } else {
            Seq::empty()
        },
    }
}

/// The dump of the first `n` registers.
pub open spec fn dump_text(regs: Seq<Option<StackItem>>, n: nat, verbose: bool) -> Seq<char>
    decreases n,
{
    if n == 0 {
        Seq::empty()
    } else {
        dump_text(regs, (n - 1) as nat, verbose) + register_line(n - 1, regs[n - 1], verbose)
    }
}

fn register_digits(i: usize) -> (r: &'static str)
    requires
        i < 16,
    ensures
        r@ == digits_text(i as int),
{
    if i == 0 { "0" } else if i == 1 { "1" } else if i == 2 { "2" } else if i == 3 { "3" }
    else if i == 4 { "4" } else if i == 5 { "5" } else if i == 6 { "6" } else if i == 7 { "7" }
    else if i == 8 { "8" } else if i == 9 { "9" } else if i == 10 { "10" } else if i == 11 { "11" }
    else if i == 12 { "12" } else if i == 13 { "13" } else if i == 14 { "14" } else { "15" }
}

} // verus!
