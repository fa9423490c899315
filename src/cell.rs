use crate::bits::{byte_of, pack, pack_bits};
use crate::error::Exception;
use vstd::prelude::*;

verus! {

/// The most data bits that one cell holds.
pub const MAX_DATA_BITS: usize = 1023;

/// The most references that one cell holds.
pub const MAX_REFS: usize = 4;

struct CellData {
    bits: Vec<bool>,
    refs: Vec<usize>,
}

/// An arena of immutable cells. A cell is named by its index; a cell refers
/// only to cells added before it, so the graph has no cycles. Cells are shared
/// by index and never copied.
pub struct CellStore {
    cells: Vec<CellData>,
}

impl CellStore {
    /// How many cells the store holds.
    pub closed spec fn count(&self) -> nat {
        self.cells@.len()
    }

    /// The data bits of cell `id`.
    pub closed spec fn bits_of(&self, id: int) -> Seq<bool> {
        self.cells@[id].bits@
    }

    /// The references of cell `id`, in order.
    pub closed spec fn refs_of(&self, id: int) -> Seq<usize> {
        self.cells@[id].refs@
    }

    pub closed spec fn wf(&self) -> bool {
        forall|i: int|
            0 <= i < self.cells@.len() ==> {
                &&& #[trigger] self.cells@[i].bits@.len() <= MAX_DATA_BITS
                &&& self.cells@[i].refs@.len() <= MAX_REFS
                &&& forall|j: int|
                    0 <= j < self.cells@[i].refs@.len() ==> self.cells@[i].refs@[j] < i
            }
    }

    pub proof fn lemma_wf_facts(&self, id: int)
        requires
            self.wf(),
            0 <= id < self.count(),
        ensures
            self.bits_of(id).len() <= MAX_DATA_BITS,
            self.refs_of(id).len() <= MAX_REFS,
            forall|j: int| 0 <= j < self.refs_of(id).len() ==> self.refs_of(id)[j] < id,
    {
        assert(self.cells@[id].bits@.len() <= MAX_DATA_BITS);
    }

    /// An empty store.
    pub fn new() -> (r: Self)
        ensures
            r.wf(),
            r.count() == 0,
    {
        CellStore { cells: Vec::new() }
    }

    /// Adds a cell with the given bits and references and returns its index.
    /// Fails with `CellOverflow` when the cell would hold too much, and with
    /// `RangeError` when a reference names no cell of the store.
    pub fn add_cell(&mut self, bits: Vec<bool>, refs: Vec<usize>) -> (r: Result<usize, Exception>)
        requires
            old(self).wf(),
        ensures
            final(self).wf(),
            (bits@.len() > MAX_DATA_BITS || refs@.len() > MAX_REFS) ==> r == Err::<
                usize,
                Exception,
            >(Exception::CellOverflow),
            (bits@.len() <= MAX_DATA_BITS && refs@.len() <= MAX_REFS && exists|j: int|
                0 <= j < refs@.len() && refs@[j] >= old(self).count()) ==> r == Err::<
                usize,
                Exception,
            >(Exception::RangeError),
            r.is_err() ==> *final(self) == *old(self),
            r.is_ok() <==> (bits@.len() <= MAX_DATA_BITS && refs@.len() <= MAX_REFS && forall|
                j: int,
            | 0 <= j < refs@.len() ==> refs@[j] < old(self).count()),
            r.is_ok() ==> {
                &&& r.unwrap() == old(self).count()
                &&& final(self).count() == old(self).count() + 1
                &&& final(self).bits_of(r.unwrap() as int) == bits@
                &&& final(self).refs_of(r.unwrap() as int) == refs@
                &&& forall|i: int|
                    0 <= i < old(self).count() ==> final(self).bits_of(i) == old(self).bits_of(i)
                        && final(self).refs_of(i) == old(self).refs_of(i)
            },
    {
        if bits.len() > MAX_DATA_BITS || refs.len() > MAX_REFS {
            return Err(Exception::CellOverflow);
        }
        let count: usize = self.cells.len();
        let mut j: usize = 0;
        while j < refs.len()
            invariant
                j <= refs@.len(),
                bits@.len() <= MAX_DATA_BITS,
                refs@.len() <= MAX_REFS,
                *self == *old(self),
                self.wf(),
                count == self.cells@.len(),
                forall|k: int| 0 <= k < j ==> refs@[k] < count,
            decreases refs@.len() - j,
        {
            if refs[j] >= count {
                return Err(Exception::RangeError);
            }
            j = j + 1;
        }
        self.cells.push(CellData { bits, refs });
        proof {
            assert forall|i: int| 0 <= i < self.cells@.len() implies {
                &&& #[trigger] self.cells@[i].bits@.len() <= MAX_DATA_BITS
                &&& self.cells@[i].refs@.len() <= MAX_REFS
                &&& forall|j: int|
                    0 <= j < self.cells@[i].refs@.len() ==> self.cells@[i].refs@[j] < i
            } by {
                if i < count {
                    assert(self.cells@[i] == old(self).cells@[i]);
                    assert(old(self).cells@[i].bits@.len() <= MAX_DATA_BITS);
                }
            }
        }
        Ok(count)
    }
}

/// A cursor over the data bits and references of one cell of a store: what
/// lies between the positions and the ends is still to be read.
#[derive(Clone, Copy, Debug, PartialEq, Eq, Structural)]
pub struct SliceData {
    pub cell: usize,
    pub bit_pos: usize,
    pub bit_end: usize,
    pub ref_pos: usize,
    pub ref_end: usize,
}

/// The slice over the whole of cell `id`.
pub open spec fn whole_cell(store: &CellStore, id: usize) -> SliceData {
    SliceData {
        cell: id,
        bit_pos: 0,
        bit_end: store.bits_of(id as int).len() as usize,
        ref_pos: 0,
        ref_end: store.refs_of(id as int).len() as usize,
    }
}

/// The slice `s` with `n` more bits read.
pub open spec fn advance_bits(s: SliceData, n: int) -> SliceData {
    SliceData { bit_pos: (s.bit_pos + n) as usize, ..s }
}

impl SliceData {
    pub open spec fn wf(&self, store: &CellStore) -> bool {
        &&& self.cell < store.count()
        &&& self.bit_pos <= self.bit_end <= store.bits_of(self.cell as int).len()
        &&& self.ref_pos <= self.ref_end <= store.refs_of(self.cell as int).len()
    }

    /// The bits still to be read.
    pub open spec fn rest(&self, store: &CellStore) -> Seq<bool> {
        store.bits_of(self.cell as int).subrange(self.bit_pos as int, self.bit_end as int)
    }

    /// The references still to be read.
    pub open spec fn rest_refs(&self, store: &CellStore) -> Seq<usize> {
        store.refs_of(self.cell as int).subrange(self.ref_pos as int, self.ref_end as int)
    }

    /// A slice over the whole of cell `id`; `RangeError` if the store has no
    /// such cell.
    pub fn load_cell(store: &CellStore, id: usize) -> (r: Result<SliceData, Exception>)
        ensures
            r.is_ok() <==> id < store.count(),
            r.is_err() ==> r == Err::<SliceData, Exception>(Exception::RangeError),
            r.is_ok() ==> {
                &&& r.unwrap().wf(store)
                &&& r.unwrap() == whole_cell(store, id)
                &&& r.unwrap().rest(store) == store.bits_of(id as int)
                &&& r.unwrap().rest_refs(store) == store.refs_of(id as int)
            },
    {
        if id >= store.cells.len() {
            return Err(Exception::RangeError);
        }
        let s = SliceData {
            cell: id,
            bit_pos: 0,
            bit_end: store.cells[id].bits.len(),
            ref_pos: 0,
            ref_end: store.cells[id].refs.len(),
        };
        assert(s.rest(store) =~= store.bits_of(id as int));
        assert(s.rest_refs(store) =~= store.refs_of(id as int));
        Ok(s)
    }

    /// How many bits are still to be read.
    pub fn remaining_bits(&self) -> (r: usize)
        requires
            self.bit_pos <= self.bit_end,
        ensures
            r == self.bit_end - self.bit_pos,
    {
        self.bit_end - self.bit_pos
    }

    /// Reads the next `n` bits; `CellUnderflow`, with the slice unchanged,
    /// if fewer remain.
    pub fn get_next_bits(&mut self, store: &CellStore, n: usize) -> (r: Result<Vec<bool>, Exception>)
        requires
            old(self).wf(store),
        ensures
            final(self).wf(store),
            final(self).cell == old(self).cell,
            final(self).rest_refs(store) == old(self).rest_refs(store),
            r.is_ok() <==> n <= old(self).rest(store).len(),
            r.is_err() ==> r == Err::<Vec<bool>, Exception>(Exception::CellUnderflow)
                && *final(self) == *old(self),
            r.is_ok() ==> {
                &&& *final(self) == advance_bits(*old(self), n as int)
                &&& r.unwrap()@ == old(self).rest(store).subrange(0, n as int)
                &&& final(self).rest(store) == old(self).rest(store).subrange(
                    n as int,
                    old(self).rest(store).len() as int,
                )
            },
    {
        if n > self.bit_end - self.bit_pos {
            return Err(Exception::CellUnderflow);
        }
        let data = &store.cells[self.cell].bits;
        let mut out: Vec<bool> = Vec::new();
        let mut i: usize = 0;
        while i < n
            invariant
                self.wf(store),
                n <= self.bit_end - self.bit_pos,
                data@ == store.bits_of(self.cell as int),
                i <= n,
                out@ == self.rest(store).subrange(0, i as int),
            decreases n - i,
        {
            out.push(data[self.bit_pos + i]);
            i = i + 1;
            assert(out@ =~= self.rest(store).subrange(0, i as int));
        }
        let ghost before = self.rest(store);
        self.bit_pos = self.bit_pos + n;
        assert(self.rest(store) =~= before.subrange(n as int, before.len() as int));
        Ok(out)
    }

    /// Reads the next eight bits as a byte; `CellUnderflow`, with the slice
    /// unchanged, if fewer remain.
    pub fn get_next_byte(&mut self, store: &CellStore) -> (r: Result<u8, Exception>)
        requires
            old(self).wf(store),
        ensures
            final(self).wf(store),
            final(self).cell == old(self).cell,
            final(self).rest_refs(store) == old(self).rest_refs(store),
            r.is_ok() <==> 8 <= old(self).rest(store).len(),
            r.is_err() ==> r == Err::<u8, Exception>(Exception::CellUnderflow) && *final(self)
                == *old(self),
            r.is_ok() ==> {
                &&& *final(self) == advance_bits(*old(self), 8)
                &&& r.unwrap() == byte_of(old(self).rest(store).subrange(0, 8))
                &&& final(self).rest(store) == old(self).rest(store).subrange(
                    8,
                    old(self).rest(store).len() as int,
                )
            },
    {
        let bits = self.get_next_bits(store, 8)?;
        let v = pack(bits.as_slice());
        assert(bits@.subrange(0, 8) =~= bits@);
        Ok(v[0])
    }

    /// Reads the next reference; `CellUnderflow`, with the slice unchanged,
    /// if none remains.
    pub fn get_next_reference(&mut self, store: &CellStore) -> (r: Result<usize, Exception>)
        requires
            old(self).wf(store),
        ensures
            final(self).wf(store),
            final(self).cell == old(self).cell,
            final(self).rest(store) == old(self).rest(store),
            r.is_ok() <==> old(self).rest_refs(store).len() > 0,
            r.is_err() ==> r == Err::<usize, Exception>(Exception::CellUnderflow) && *final(self)
                == *old(self),
            r.is_ok() ==> {
                &&& *final(self) == (SliceData { ref_pos: (old(self).ref_pos + 1) as usize, ..*old(self) })
                &&& r.unwrap() == old(self).rest_refs(store)[0]
                &&& final(self).rest_refs(store) == old(self).rest_refs(store).drop_first()
            },
    {
        if self.ref_pos >= self.ref_end {
            return Err(Exception::CellUnderflow);
        }
        let ghost before = self.rest_refs(store);
        let id = store.cells[self.cell].refs[self.ref_pos];
        self.ref_pos = self.ref_pos + 1;
        assert(self.rest_refs(store) =~= before.drop_first());
        Ok(id)
    }

    /// The remaining bits packed into bytes, without reading them;
    /// `CellUnderflow` if they do not make whole bytes.
    pub fn data_bytes(&self, store: &CellStore) -> (r: Result<Vec<u8>, Exception>)
        requires
            self.wf(store),
        ensures
            r.is_ok() <==> self.rest(store).len() % 8 == 0,
            r.is_err() ==> r == Err::<Vec<u8>, Exception>(Exception::CellUnderflow),
            r.is_ok() ==> r.unwrap()@ == pack_bits(self.rest(store)),
    {
        if (self.bit_end - self.bit_pos) % 8 != 0 {
            return Err(Exception::CellUnderflow);
        }
        let mut copy = *self;
        let bits = copy.get_next_bits(store, self.bit_end - self.bit_pos)?;
        assert(self.rest(store).subrange(0, self.rest(store).len() as int) =~= self.rest(store));
        Ok(pack(bits.as_slice()))
    }
}

} // verus!
