use vstd::prelude::*;
use vstd::std_specs::cmp::PartialEqSpec;

use crate::text::{chars_eq, chars_of};

verus! {

/// Removal of the first element of a vector that compares equal to a given item.
pub trait VecRemoveItem<T, U> {
    fn remove_item(&mut self, item: U) -> Option<T> where T: PartialEq<U>;
}

impl<T: PartialEq<U>, U> VecRemoveItem<T, U> for Vec<T> {
    /// Removes and returns the first element equal to `item`; leaves the vector
    /// unchanged and returns `None` when there is none. The contract pins the element down
    /// where `T`'s `==` has a specification; for a vector of `String`s, whose `==` has none,
    /// `remove_string_item` states the same removal exactly.
    fn remove_item(&mut self, item: U) -> (removed: Option<T>)
        ensures
            removed is None ==> final(self)@ == old(self)@,
            removed matches Some(x) ==> exists|i: int|
                0 <= i < old(self)@.len() && old(self)@[i] == x && final(self)@ == old(
                    self,
                )@.remove(i),
            T::obeys_eq_spec() ==> (removed is Some <==> exists|j: int|
                0 <= j < old(self)@.len() && #[trigger] old(self)@[j].eq_spec(&item)),
            T::obeys_eq_spec() ==> (removed matches Some(x) ==> exists|i: int|
                0 <= i < old(self)@.len() && old(self)@[i] == x && x.eq_spec(&item)
                    && final(self)@ == old(self)@.remove(i) && (forall|j: int|
                    0 <= j < i ==> !(#[trigger] old(self)@[j].eq_spec(&item)))),
    {
        let mut i: usize = 0;
        while i < self.len()
            invariant
                i <= self@.len(),
                self@ == old(self)@,
                T::obeys_eq_spec() ==> forall|j: int|
                    0 <= j < i ==> !(#[trigger] old(self)@[j].eq_spec(&item)),
            decreases self@.len() - i,
        {
            if self[i] == item {
                let x = self.remove(i);
                return Some(x);
            }
            i += 1;
        }
        None
    }
}

/// `remove_item` on a vector of strings, compared by their text: removes and returns the first
/// string equal to `item`, or leaves the vector unchanged and returns `None`.
pub fn remove_string_item(v: &mut Vec<String>, item: &str) -> (removed: Option<String>)
    ensures
        match removed {
            None => final(v)@ == old(v)@ && forall|j: int| 0 <= j < old(v)@.len() ==> #[trigger] old(v)@[j]@ != item@,
            Some(x) => exists|i: int|
                0 <= i < old(v)@.len() && old(v)@[i] == x && x@ == item@
                    && final(v)@ == old(v)@.remove(i)
                    && forall|k: int| 0 <= k < i ==> #[trigger] old(v)@[k]@ != item@,
        },
{
    let it = chars_of(item);
    let mut i: usize = 0;
    while i < v.len()
        invariant
            i <= v@.len(),
            v@ == old(v)@,
            it@ == item@,
            forall|k: int| 0 <= k < i ==> #[trigger] old(v)@[k]@ != item@,
        decreases v@.len() - i,
    {
        let c = chars_of(v[i].as_str());
        if chars_eq(&c, &it) {
            let x = v.remove(i);
            return Some(x);
        }
        i += 1;
    }
    None
}

} // verus!
