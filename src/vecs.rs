use vstd::prelude::*;

verus! {

/// The same elements, last first.
pub(crate) fn reversed<T>(v: Vec<T>) -> (r: Vec<T>)
    ensures
        r@.len() == v@.len(),
        forall|j: int| 0 <= j < r@.len() ==> r@[j] == v@[v@.len() - 1 - j],
{
    let ghost orig = v@;
    let mut rest = v;
    let mut out: Vec<T> = Vec::new();
    while rest.len() > 0
        invariant
            out@.len() + rest@.len() == orig.len(),
            rest@ == orig.take(rest@.len() as int),
            forall|j: int| 0 <= j < out@.len() ==> out@[j] == orig[orig.len() - 1 - j],
        decreases rest@.len(),
    {
        match rest.pop() {
            Some(x) => out.push(x),
            None => {},
        }
        proof {
            assert(rest@ =~= orig.take(rest@.len() as int));
        }
    }
    out
}

} // verus!
