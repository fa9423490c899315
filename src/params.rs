use crate::stack::StackItem;
use vstd::prelude::*;
use vstd::string::StringExecFns;

verus! {

/// Directory of the stored programs that exercise the slice signature check.
pub const P256_CHKSIGNS_BASE_PATH: &'static str = "asset/P256_CHKSIGNS/";

/// Directory of the stored programs that exercise the integer signature check.
pub const P256_CHKSIGNU_BASE_PATH: &'static str = "asset/P256_CHKSIGNU/";

/// The path of the stored program `filename` under directory `base`.
pub fn get_boc_path(base: &str, filename: &str) -> (r: String)
    ensures
        r@ == base@ + filename@,
{
    base.to_owned().concat(filename)
}

/// The twelve configuration parameters that running code sees through the
/// parameter register: a tag, six zero fields, the balance tuple
/// `(1000000000, null)`, three nulls and a final zero.
pub fn get_test_params() -> (r: Vec<StackItem>)
    ensures
        r@.len() == 12,
        r@[0].is_int(0x76ef1ea),
        forall|i: int| 1 <= i < 7 ==> r@[i].is_int(0),
        r@[7] is Tuple,
        r@[7]->Tuple_0@.len() == 2,
        r@[7]->Tuple_0@[0].is_int(1000000000),
        r@[7]->Tuple_0@[1] is Null,
        r@[8] is Null,
        r@[9] is Null,
        r@[10] is Null,
        r@[11].is_int(0),
{
    let mut balance: Vec<StackItem> = Vec::new();
    balance.push(StackItem::integer(1000000000));
    balance.push(StackItem::Null);
    let mut params: Vec<StackItem> = Vec::new();
    params.push(StackItem::integer(0x76ef1ea));
    let mut i: usize = 1;
    while i < 7
        invariant
            1 <= i <= 7,
            params@.len() == i,
            params@[0].is_int(0x76ef1ea),
            forall|j: int| 1 <= j < i ==> params@[j].is_int(0),
        decreases 7 - i,
    {
        params.push(StackItem::integer(0));
        i = i + 1;
    }
    params.push(StackItem::tuple(balance));
    params.push(StackItem::default());
    params.push(StackItem::Null);
    params.push(StackItem::Null);
    params.push(StackItem::integer(0));
    params
}

} // verus!
