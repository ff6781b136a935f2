use vstd::prelude::*;
use crate::transform::{is_cooley_tukey, transform_with, transformable, TransformError};

verus! {

/// The values of a sequence of `(position, value)` samples.
pub open spec fn values<P, T>(s: Seq<(P, T)>) -> Seq<T> {
    s.map_values(|p: (P, T)| p.1)
}

/// The spectrum of a sampled signal: the values of `samples`, transformed
/// with the butterfly `f`, each put back beside the position of the sample
/// at the same index. The samples themselves are left as they are, and a
/// length that is neither zero nor a power of two is reported.
pub fn spectrum_with<P: Copy, T: Copy, F: Fn(T, T, usize, usize) -> (T, T)>(
    samples: &Vec<(P, T)>,
    f: &F,
) -> (r: Result<Vec<(P, T)>, TransformError>)
    requires
        forall|a: T, b: T, k: usize, n: usize| call_requires(*f, (a, b, k, n)),
    ensures
        r is Ok <==> transformable(samples@.len()),
        r is Err ==> r == Err::<Vec<(P, T)>, TransformError>(
            TransformError::NotPowerOfTwo { len: samples@.len() as usize },
        ),
        r matches Ok(out) ==> {
            &&& out@.len() == samples@.len()
            &&& forall|i: int| 0 <= i < out@.len() ==> (#[trigger] out@[i]).0 == samples@[i].0
            &&& is_cooley_tukey(*f, values(samples@), values(out@))
        },
{
    let mut bins: Vec<T> = Vec::new();
    let mut i: usize = 0;
    while i < samples.len()
        invariant
            i <= samples@.len(),
            bins@ == values(samples@.take(i as int)),
        decreases samples@.len() - i,
    {
        bins.push(samples[i].1);
        proof {
            assert(values(samples@.take(i + 1)) =~= values(samples@.take(i as int)).push(
                samples@[i as int].1,
            ));
        }
        i = i + 1;
    }
    proof {
        assert(samples@.take(i as int) =~= samples@);
    }
    let ghost before = bins@;
    match transform_with(&mut bins, f) {
        Err(e) => Err(e),
        Ok(()) => {
            let mut out: Vec<(P, T)> = Vec::new();
            let mut j: usize = 0;
            while j < samples.len()
                invariant
                    j <= samples@.len(),
                    bins@.len() == samples@.len(),
                    out@.len() == j,
                    forall|k: int| 0 <= k < j ==> (#[trigger] out@[k]) == (samples@[k].0, bins@[k]),
                decreases samples@.len() - j,
            {
                out.push((samples[j].0, bins[j]));
                j = j + 1;
            }
            proof {
                assert(values(out@) =~= bins@);
            }
            Ok(out)
        },
    }
}

} // verus!
