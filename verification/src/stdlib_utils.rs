//! Two small additions to the standard library's iterators and options.

use core::slice::Iter;
use vstd::arithmetic::div_mod::{lemma_fundamental_div_mod, lemma_fundamental_div_mod_converse};
use vstd::prelude::*;
use vstd::std_specs::iter::IteratorSpec;

verus! {

/// The index that `idx` stands for in a cycle of `len` items: `idx` modulo
/// `len`, counted so that `-1` is the last item.
pub open spec fn spec_mod_index(idx: int, len: int) -> int
    recommends
        len > 0,
{
    idx % len
}

/// The index that `idx` stands for in a cycle of `len` items.
pub fn mod_index(idx: i32, len: usize) -> (at: usize)
    requires
        len > 0,
    ensures
        at == spec_mod_index(idx as int, len as int),
        at < len,
{
    if idx >= 0 {
        (idx as usize) % len
    } else {
        let back: usize = (-(idx as i64)) as usize;
        let rest: usize = back % len;
        proof {
            lemma_mod_of_negative(back as int, len as int);
        }
        if rest == 0 {
            0
        } else {
            len - rest
        }
    }
}

/// The remainder of `-a` follows from the remainder of `a`.
proof fn lemma_mod_of_negative(a: int, n: int)
    requires
        a >= 0,
        n > 0,
    ensures
        (-a) % n == (if a % n == 0 {
            0
        } else {
            n - a % n
        }),
{
    let q = a / n;
    let r = a % n;
    lemma_fundamental_div_mod(a, n);
    assert(a == n * q + r);
    if r == 0 {
        assert(-a == (-q) * n + 0) by (nonlinear_arith)
            requires
                a == n * q,
        ;
        lemma_fundamental_div_mod_converse(-a, n, -q, 0);
    } else {
        assert(-a == (-q - 1) * n + (n - r)) by (nonlinear_arith)
            requires
                a == n * q + r,
        ;
        lemma_fundamental_div_mod_converse(-a, n, -q - 1, n - r);
    }
}

/// Trusted: `core::slice::Iter::as_slice` views the part of the slice that
/// the iterator has not yielded yet.  The contract says that this part holds
/// the items that are still to come, in their order.
pub assume_specification<'a, T>[ Iter::<'a, T>::as_slice ](iter: &Iter<'a, T>) -> (rest: &'a [T])
    ensures
        rest@.len() == iter.remaining().len(),
        forall|i: int| 0 <= i < rest@.len() ==> *(#[trigger] iter.remaining()[i]) == rest@[i],
;

/// Access to the item at an index taken modulo the number of items left.
pub trait ModuloNthIterMut: Iterator {
    /// Of `n` items left, returns the one at `idx` modulo `n` and consumes
    /// the items up to it; a negative `idx` counts from the end.  With no item
    /// left it returns `None` and consumes nothing.
    fn nth_mod(&mut self, idx: i32) -> (item: Option<Self::Item>)
        ensures
            (*old(self)).remaining().len() == 0 ==> item is None && (*final(self)).remaining() == (
            *old(self)).remaining(),
            (*old(self)).remaining().len() > 0 ==> {
                let at = spec_mod_index(idx as int, (*old(self)).remaining().len() as int);
                &&& item == Some((*old(self)).remaining()[at])
                &&& (*final(self)).remaining() == (*old(self)).remaining().skip(at + 1)
            },
    ;
}

/// Consumes the items of `iter` up to the one at index `at`, and returns
/// that one.
fn take_nth<I: Iterator>(iter: &mut I, at: usize) -> (item: Option<I::Item>)
    requires
        (*old(iter)).obeys_prophetic_iter_laws(),
        at < (*old(iter)).remaining().len(),
    ensures
        item == Some((*old(iter)).remaining()[at as int]),
        (*final(iter)).remaining() == (*old(iter)).remaining().skip(at + 1),
        (*final(iter)).obeys_prophetic_iter_laws(),
{
    let ghost start = (*iter).remaining();
    let mut passed: usize = 0;
    proof {
        assert(start.skip(0) =~= start);
    }
    while passed < at
        invariant
            passed <= at < start.len(),
            (*iter).obeys_prophetic_iter_laws(),
            (*iter).remaining() == start.skip(passed as int),
        decreases at - passed,
    {
        let _ = iter.next();
        proof {
            assert(start.skip(passed as int).drop_first() =~= start.skip(passed + 1));
        }
        passed = passed + 1;
    }
    let item = iter.next();
    proof {
        assert(start.skip(at as int).drop_first() =~= start.skip(at + 1));
    }
    item
}

impl<'a, T> ModuloNthIterMut for Iter<'a, T> {
    fn nth_mod(&mut self, idx: i32) -> (item: Option<&'a T>) {
        let n = self.as_slice().len();
        if n == 0 {
            None
        } else {
            take_nth(self, mod_index(idx, n))
        }
    }
}

/// `and_then` with a value for the case that there is nothing to continue
/// from.
pub trait AndThenOrOption<T>: Sized {
    /// The option that `self` is.
    spec fn as_option(self) -> Option<T>;

    /// Continues with `f` from the value of `self`; gives `default` when
    /// `self` holds none.
    fn and_then_or<U, F>(self, f: F, default: Option<U>) -> (out: Option<U>) where
        F: FnOnce(T) -> Option<U>,

        requires
            self.as_option() matches Some(x) ==> f.requires((x,)),
        ensures
            match self.as_option() {
                Some(x) => f.ensures((x,), out),
                None => out == default,
            },
    ;
}

impl<T> AndThenOrOption<T> for Option<T> {
    open spec fn as_option(self) -> Option<T> {
        self
    }

    fn and_then_or<U, F>(self, f: F, default: Option<U>) -> (out: Option<U>) where
        F: FnOnce(T) -> Option<U>,
     {
        match self {
            Some(x) => f(x),
            None => default,
        }
    }
}

} // verus!
