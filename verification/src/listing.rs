//! Lists of market numbers, in the form in which the host hands them to the contract.
use vstd::prelude::*;

verus! {

/// `soroban_sdk::Vec`, a list that the host keeps. The values in it are not checked
/// against the type of its items until they are read. As every call into the host, a
/// call on it ends the whole invocation when the host's budget is used up.
#[verifier::external_type_specification]
#[verifier::external_body]
#[verifier::reject_recursive_types(T)]
pub struct ExHostList<T>(soroban_sdk::Vec<T>);

/// What a list holds, place by place: a number, or nothing where the value is of
/// another type.
pub uninterp spec fn entries(list: soroban_sdk::Vec<u32>) -> Seq<Option<u32>>;

/// `soroban_sdk::Vec::len` counts the places of a list.
#[verifier::external_body]
fn count(list: &soroban_sdk::Vec<u32>) -> (len: u32)
    ensures
        len == entries(*list).len(),
{
    list.len()
}

/// `soroban_sdk::Vec::try_get_unchecked` reads one place of a list, and gives an error
/// where the value is not of the type of its items. It must not be asked for a place
/// that the list does not have.
#[verifier::external_body]
fn entry(list: &soroban_sdk::Vec<u32>, i: u32) -> (entry: Option<u32>)
    requires
        i < entries(*list).len(),
    ensures
        entry == entries(*list)[i as int],
{
    list.try_get_unchecked(i).ok()
}

/// Every place of the list holds a number.
pub open spec fn all_numbers(list: soroban_sdk::Vec<u32>) -> bool {
    forall|i: int| 0 <= i < entries(list).len() ==> (#[trigger] entries(list)[i]) is Some
}

/// The numbers in a list, in order.
pub open spec fn numbers(list: soroban_sdk::Vec<u32>) -> Seq<u32> {
    Seq::new(entries(list).len(), |i: int| entries(list)[i]->0)
}

/// Reads a list, unless it holds something that is not a number.
pub fn read_numbers(list: &soroban_sdk::Vec<u32>) -> (read: Option<Vec<u32>>)
    ensures
        read is Some <==> all_numbers(*list),
        read is Some ==> read->0@ == numbers(*list),
{
    let len: u32 = count(list);
    let mut read: Vec<u32> = Vec::new();
    let mut i: u32 = 0;
    while i < len
        invariant
            i <= len,
            len == entries(*list).len(),
            forall|j: int| 0 <= j < i ==> (#[trigger] entries(*list)[j]) is Some,
            read@ =~= numbers(*list).take(i as int),
        decreases len - i,
    {
        match entry(list, i) {
            Some(number) => read.push(number),
            None => return None,
        }
        i = i + 1;
    }
    Some(read)
}

} // verus!
