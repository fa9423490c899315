use crate::error::Exception;
use crate::stack::StackItem;
use vstd::prelude::*;

verus! {

/// How many control registers there are: `c0` to `c15`.
pub const REGISTER_COUNT: usize = 16;

/// Index of the register that holds the parameter tuple.
pub const PARAMS_REGISTER: usize = 7;

/// The control registers, each empty or holding one item.
pub struct SaveList {
    regs: Vec<Option<StackItem>>,
}

impl View for SaveList {
    type V = Seq<Option<StackItem>>;

    closed spec fn view(&self) -> Seq<Option<StackItem>> {
        self.regs@
    }
}

impl SaveList {
    pub open spec fn wf(&self) -> bool {
        self@.len() == REGISTER_COUNT
    }

    /// Sixteen empty registers.
    pub fn new() -> (r: Self)
        ensures
            r.wf(),
            forall|i: int| 0 <= i < REGISTER_COUNT ==> r@[i] is None,
    {
        let mut regs: Vec<Option<StackItem>> = Vec::new();
        let mut i: usize = 0;
        while i < REGISTER_COUNT
            invariant
                i <= REGISTER_COUNT,
                regs@.len() == i,
                forall|j: int| 0 <= j < i ==> regs@[j] is None,
            decreases REGISTER_COUNT - i,
        {
            regs.push(None);
            i = i + 1;
        }
        SaveList { regs }
    }

    /// Stores `item` in register `index` and returns what it held before;
    /// `RangeError`, with the registers unchanged, if `index` is over 15.
    pub fn put(&mut self, index: usize, item: StackItem) -> (r: Result<Option<StackItem>, Exception>)
        requires
            old(self).wf(),
        ensures
            final(self).wf(),
            r.is_ok() <==> index < REGISTER_COUNT,
            r.is_err() ==> r == Err::<Option<StackItem>, Exception>(Exception::RangeError)
                && final(self)@ == old(self)@,
            r.is_ok() ==> r.unwrap() == old(self)@[index as int] && final(self)@ == old(
                self,
            )@.update(index as int, Some(item)),
    {
        if index >= REGISTER_COUNT {
            return Err(Exception::RangeError);
        }
        let previous = self.regs.remove(index);
        self.regs.insert(index, Some(item));
        assert(self@ =~= old(self)@.update(index as int, Some(item)));
        Ok(previous)
    }

    /// The item in register `index`, if the register exists and is not empty.
    pub fn get(&self, index: usize) -> (r: Option<&StackItem>)
        requires
            self.wf(),
        ensures
            index >= REGISTER_COUNT ==> r is None,
            index < REGISTER_COUNT ==> match self@[index as int] {
                Some(item) => r == Some(&item),
                None => r is None,
            },
    {
        if index >= REGISTER_COUNT {
            return None;
        }
        match &self.regs[index] {
            Some(item) => Some(item),
            None => None,
        }
    }
}

impl Default for SaveList {
    fn default() -> (r: Self)
        ensures
            r.wf(),
            forall|i: int| 0 <= i < REGISTER_COUNT ==> r@[i] is None,
    {
        SaveList::new()
    }
}

} // verus!
