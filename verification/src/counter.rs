//! The shared counter: one signed 64-bit cell that every mutation goes
//! through as a single atomic addition.

use std::sync::atomic::AtomicI64;
use vstd::arithmetic::div_mod::lemma_fundamental_div_mod;
use vstd::arithmetic::div_mod::lemma_mod_multiples_vanish;
use vstd::prelude::*;
use vstd::seq_lib::commutative_foldl;
use vstd::seq_lib::lemma_fold_left_permutation;

verus! {

/// The integer `v` brought into the signed 64-bit range by adding or
/// taking away a multiple of 2^64: what the cell holds once `v` is stored.
pub open spec fn wrapped(v: int) -> int {
    (v + 0x8000_0000_0000_0000) % 0x1_0000_0000_0000_0000 - 0x8000_0000_0000_0000
}

/// The value of the cell after `delta` is added to `value`.
pub open spec fn after_add(value: int, delta: i64) -> int {
    wrapped(value + delta)
}

/// The value of a cell that started at `initial` after the additions
/// `deltas` were applied one after another, in that order.
pub open spec fn after_all(initial: int, deltas: Seq<i64>) -> int {
    deltas.fold_left(initial, |value: int, delta: i64| after_add(value, delta))
}

/// The plain sum of `deltas`.
pub open spec fn total(deltas: Seq<i64>) -> int {
    deltas.fold_left(0int, |sum: int, delta: i64| sum + delta)
}

/// A value within the signed 64-bit range is stored as it is.
pub proof fn lemma_wrapped_in_range(v: int)
    ensures
        i64::MIN <= wrapped(v) <= i64::MAX,
        i64::MIN <= v <= i64::MAX ==> wrapped(v) == v,
{
}

/// Storing a value before adding to it changes nothing in what is stored
/// afterwards.
pub proof fn lemma_wrapped_add(v: int, d: int)
    ensures
        wrapped(wrapped(v) + d) == wrapped(v + d),
{
    let m: int = 0x1_0000_0000_0000_0000;
    let h: int = 0x8000_0000_0000_0000;
    let q = (v + h) / m;
    lemma_fundamental_div_mod(v + h, m);
    assert(wrapped(v) == v - m * q);
    assert(m * (-q) == -(m * q)) by (nonlinear_arith);
    lemma_mod_multiples_vanish(-q, v + d + h, m);
    assert(wrapped(v) + d + h == m * (-q) + (v + d + h));
}

/// Law of atomic addition: additions applied one after another leave the
/// initial value plus the sum of all deltas, brought into range.
pub proof fn lemma_adds_leave_the_sum(initial: i64, deltas: Seq<i64>)
    ensures
        after_all(initial as int, deltas) == wrapped(initial + total(deltas)),
        i64::MIN <= initial + total(deltas) <= i64::MAX ==> after_all(initial as int, deltas)
            == initial + total(deltas),
    decreases deltas.len(),
{
    lemma_wrapped_in_range(initial + total(deltas));
    if deltas.len() > 0 {
        lemma_adds_leave_the_sum(initial, deltas.drop_last());
        lemma_wrapped_add(initial + total(deltas.drop_last()), deltas.last() as int);
    }
}

/// Law of atomic addition: the order in which the same additions are
/// applied does not change the value they leave.
pub proof fn lemma_order_of_adds_is_immaterial(initial: i64, first: Seq<i64>, second: Seq<i64>)
    requires
        first.to_multiset() == second.to_multiset(),
    ensures
        after_all(initial as int, first) == after_all(initial as int, second),
        total(first) == total(second),
{
    let step = |value: int, delta: i64| after_add(value, delta);
    assert forall|x: i64, y: i64, v: int| #[trigger] step(step(v, x), y) == step(step(v, y), x) by {
        lemma_wrapped_add(v + x, y as int);
        lemma_wrapped_add(v + y, x as int);
    }
    assert(commutative_foldl(step));
    lemma_fold_left_permutation(first, second, step, initial as int);
    let plus = |sum: int, delta: i64| sum + delta;
    assert(commutative_foldl(plus));
    lemma_fold_left_permutation(first, second, plus, 0int);
}

/// What one addition of `delta` leaves in a cell that held `previous`.
pub fn value_after(previous: i64, delta: i64) -> (value: i64)
    ensures
        value == after_add(previous as int, delta),
        i64::MIN <= previous + delta <= i64::MAX ==> value == previous + delta,
{
    previous.wrapping_add(delta)
}

/// The counter shared by every session and every one-shot action. It is
/// handed out by reference; its methods never block and never fail.
pub struct SharedCounter {
    cell: AtomicI64,
}

impl SharedCounter {
    /// A counter that starts at `initial`.
    pub fn new(initial: i64) -> (counter: SharedCounter) {
        SharedCounter { cell: AtomicI64::new(initial) }
    }

    /// The value at this moment. Other holders of the counter may change
    /// it at any time, so nothing ties the result to an earlier call.
    pub fn load(&self) -> (value: i64) {
        self.cell.load(std::sync::atomic::Ordering::Relaxed)
    }

    /// Adds `delta` in one atomic step and returns the value found just
    /// before. Which value that is depends on what the other holders of
    /// the counter have done by then.
    pub fn fetch_add(&self, delta: i64) -> (previous: i64) {
        self.cell.fetch_add(delta, std::sync::atomic::Ordering::Relaxed)
    }

    /// Adds `delta` in one atomic step and returns the value that this
    /// addition left: `value_after` of the value it found and `delta`.
    pub fn add(&self, delta: i64) -> (value: i64) {
        let previous: i64 = self.fetch_add(delta);
        value_after(previous, delta)
    }
}

} // verus!
