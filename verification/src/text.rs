//! Comparisons on string slices, stated over their sequences of characters.

use vstd::prelude::*;
use vstd::std_specs::iter::IteratorSpec;

verus! {

/// Do the two slices hold the same characters?
pub fn same_text(left: &str, right: &str) -> (same: bool)
    ensures
        same == (left@ == right@),
{
    let mut a = left.chars();
    let mut b = right.chars();
    let ghost mut done: int = 0;
    loop
        invariant
            0 <= done <= left@.len(),
            done <= right@.len(),
            a.remaining() == left@.skip(done),
            b.remaining() == right@.skip(done),
            left@.take(done) == right@.take(done),
        decreases left@.len() - done,
    {
        let x = a.next();
        let y = b.next();
        match (x, y) {
            (None, None) => {
                proof {
                    assert(left@ =~= left@.take(done));
                    assert(right@ =~= right@.take(done));
                }
                return true;
            },
            (Some(c), Some(d)) => {
                if c != d {
                    assert(left@[done] != right@[done]);
                    return false;
                }
                proof {
                    assert(left@.skip(done).drop_first() =~= left@.skip(done + 1));
                    assert(right@.skip(done).drop_first() =~= right@.skip(done + 1));
                    assert(left@.take(done + 1) =~= left@.take(done).push(c));
                    assert(right@.take(done + 1) =~= right@.take(done).push(d));
                    done = done + 1;
                }
            },
            _ => {
                assert(left@.len() != right@.len());
                return false;
            },
        }
    }
}

/// Does `text` begin with the characters of `prefix`?
pub fn begins_with(text: &str, prefix: &str) -> (found: bool)
    ensures
        found == prefix@.is_prefix_of(text@),
{
    let mut a = prefix.chars();
    let mut b = text.chars();
    let ghost mut done: int = 0;
    loop
        invariant
            0 <= done <= prefix@.len(),
            done <= text@.len(),
            a.remaining() == prefix@.skip(done),
            b.remaining() == text@.skip(done),
            prefix@.take(done) == text@.take(done),
        decreases prefix@.len() - done,
    {
        let x = a.next();
        match x {
            None => {
                proof {
                    assert(prefix@ =~= prefix@.take(done));
                    assert(prefix@ =~= text@.subrange(0, prefix@.len() as int));
                }
                return true;
            },
            Some(c) => {
                let y = b.next();
                match y {
                    None => {
                        return false;
                    },
                    Some(d) => {
                        if c != d {
                            assert(prefix@[done] != text@[done]);
                            return false;
                        }
                        proof {
                            assert(prefix@.skip(done).drop_first() =~= prefix@.skip(done + 1));
                            assert(text@.skip(done).drop_first() =~= text@.skip(done + 1));
                            assert(prefix@.take(done + 1) =~= prefix@.take(done).push(c));
                            assert(text@.take(done + 1) =~= text@.take(done).push(d));
                            done = done + 1;
                        }
                    },
                }
            },
        }
    }
}

} // verus!
