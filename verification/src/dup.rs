//! Copies of values that keep their mathematical view.
use vstd::prelude::*;

verus! {

/// The views of a sequence of values.
pub open spec fn seq_view<T: View>(s: Seq<T>) -> Seq<T::V> {
    s.map_values(|x: T| x@)
}

/// A value that can be copied with the same view.
pub trait Duplicate: View + Sized {
    fn duplicate(&self) -> (r: Self)
        ensures
            r@ == self@,
    ;
}

/// Copies every element of a vector.
pub fn duplicate_vec<T: Duplicate>(v: &Vec<T>) -> (r: Vec<T>)
    ensures
        seq_view(r@) == seq_view(v@),
{
    let mut r: Vec<T> = Vec::new();
    let mut i: usize = 0;
    while i < v.len()
        invariant
            i <= v.len(),
            r@.len() == i,
            seq_view(r@) == seq_view(v@.take(i as int)),
        decreases v.len() - i,
    {
        let x = v[i].duplicate();
        let ghost r0 = r@;
        r.push(x);
        assert(seq_view(r@) =~= seq_view(v@.take(i + 1))) by {
            assert(r@ =~= r0.push(x));
            assert(r@.len() == i + 1);
            assert forall|k: int| 0 <= k < i + 1 implies seq_view(r@)[k] == seq_view(
                v@.take(i + 1),
            )[k] by {
                assert(seq_view(r@)[k] == r@[k]@);
                assert(seq_view(v@.take(i + 1))[k] == v@[k]@);
                if k < i {
                    assert(r@[k] == r0[k]);
                    assert(seq_view(r0)[k] == seq_view(v@.take(i as int))[k]);
                    assert(seq_view(v@.take(i as int))[k] == v@[k]@);
                    assert(seq_view(r0)[k] == r0[k]@);
                }
            }
        }
        i += 1;
    }
    assert(v@.take(v.len() as int) =~= v@);
    r
}

/// Moves the elements of `src` to the end of `dst`.
pub fn append_vec<T: View>(dst: &mut Vec<T>, src: Vec<T>)
    ensures
        seq_view(final(dst)@) == seq_view(old(dst)@) + seq_view(src@),
{
    let ghost d0 = dst@;
    let ghost s0 = src@;
    let mut src = src;
    dst.append(&mut src);
    assert(seq_view(dst@) =~= seq_view(d0) + seq_view(s0));
}

impl Duplicate for Vec<u8> {
    fn duplicate(&self) -> (r: Vec<u8>) {
        crate::text::ascii::bytes_to_vec(self.as_slice())
    }
}

/// The view of an optional value.
pub open spec fn opt_view<T: View>(o: Option<T>) -> Option<T::V> {
    match o {
        Some(x) => Some(x@),
        None => None,
    }
}

/// Copies an optional value.
pub fn duplicate_opt<T: Duplicate>(o: &Option<T>) -> (r: Option<T>)
    ensures
        opt_view(r) == opt_view(*o),
{
    match o {
        Some(x) => Some(x.duplicate()),
        None => None,
    }
}

} // verus!
