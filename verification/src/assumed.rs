//! Specifications of standard-library functions that the byte sources call
//! and that are taken on trust: nothing here is proved.

use vstd::prelude::*;

verus! {

/// `<[E]>::copy_from_slice`: the destination, which must be as long as the
/// source, ends up holding the source's elements in order.
pub assume_specification<E>[ <[E]>::copy_from_slice ](dst: &mut [E], src: &[E]) where E: Copy
    requires
        old(dst)@.len() == src@.len(),
    ensures
        final(dst)@ == src@,
;

/// `<[E]>::rotate_left`: the first `mid` elements move to the end and the
/// others move to the front, each group keeping its order. `mid` may not
/// exceed the length.
pub assume_specification<E>[ <[E]>::rotate_left ](slice: &mut [E], mid: usize)
    requires
        mid <= old(slice)@.len(),
    ensures
        final(slice)@ == old(slice)@.subrange(mid as int, old(slice)@.len() as int)
            + old(slice)@.subrange(0, mid as int),
;

/// `core::mem::take`: hands out the value that was stored in `dest`. What is
/// left behind is the type's default, of which nothing is claimed.
pub assume_specification<E: core::default::Default>[ core::mem::take::<E> ](
    dest: &mut E,
) -> (taken: E)
    ensures
        taken == *old(dest),
;

} // verus!
