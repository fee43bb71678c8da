//! The contract between the minimizers and a caller-supplied objective
//! function.

use vstd::prelude::*;

use crate::generals::fixed::Fixed;

verus! {

/// What the minimizers require of a caller-supplied objective: it may be
/// called on any scalar, and it is pure — any two results its own contract
/// allows for one input are the same value.
pub open spec fn objective_ok<F: Fn(Fixed) -> Fixed>(func: F) -> bool {
    &&& forall|x: Fixed| #[trigger] call_requires(func, (x,))
    &&& forall|x: Fixed, r1: Fixed, r2: Fixed|
        call_ensures(func, (x,), r1) && call_ensures(func, (x,), r2) ==> r1@ == r2@
}

/// The mathematical function a pure objective computes, stated on views.
pub open spec fn obj_model<F: Fn(Fixed) -> Fixed>(func: F) -> spec_fn(int) -> int {
    |x: int| (choose|r: Fixed| call_ensures(func, (Fixed::from_val(x),), r))@
}

/// A scalar result, mapped to views.
pub open spec fn res_fixed_view<E>(r: Result<Fixed, E>) -> Result<int, E> {
    match r {
        Ok(v) => Ok(v@),
        Err(e) => Err(e),
    }
}

/// Any result the objective's contract allows for `x` is `obj_model`'s value
/// at `x@`.
pub proof fn lemma_obj_model_eval<F: Fn(Fixed) -> Fixed>(func: F, x: Fixed, r: Fixed)
    requires
        objective_ok(func),
        call_ensures(func, (x,), r),
    ensures
        obj_model(func)(x@) == r@,
{
    crate::generals::fixed::lemma_from_val_id(x);
    assert(Fixed::from_val(x@) == x);
    let w = choose|r2: Fixed| call_ensures(func, (Fixed::from_val(x@),), r2);
    assert(call_ensures(func, (Fixed::from_val(x@),), w));
    assert(w@ == r@);
}

/// Evaluate the objective once; by purity the result is exactly the
/// objective's value at `x@`.
pub fn eval_obj<F: Fn(Fixed) -> Fixed + Copy>(func: F, x: Fixed) -> (r: Fixed)
    requires
        objective_ok(func),
    ensures
        r@ == obj_model(func)(x@),
        call_ensures(func, (x,), r),
{
    let r = func(x);
    proof {
        lemma_obj_model_eval(func, x, r);
    }
    r
}

} // verus!
