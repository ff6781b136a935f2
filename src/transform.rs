use vstd::prelude::*;

verus! {

/// `n` is a power of two: 1, 2, 4, 8, ...
pub open spec fn is_pow2(n: nat) -> bool
    decreases n,
{
    if n == 1 {
        true
    } else if n < 2 || n % 2 != 0 {
        false
    } else {
        is_pow2(n / 2)
    }
}

/// Lengths the transform accepts: the empty sequence, or a power of two.
pub open spec fn transformable(n: nat) -> bool {
    n == 0 || is_pow2(n)
}

/// The samples at even indices: positions 0, 2, 4, ...
pub open spec fn evens<T>(s: Seq<T>) -> Seq<T> {
    Seq::new(((s.len() + 1) / 2) as nat, |i: int| s[2 * i])
}

/// The samples at odd indices: positions 1, 3, 5, ...
pub open spec fn odds<T>(s: Seq<T>) -> Seq<T> {
    Seq::new((s.len() / 2) as nat, |i: int| s[2 * i + 1])
}

/// Why a sequence cannot be transformed.
#[derive(Clone, Copy, Debug, PartialEq, Eq, Structural)]
pub enum TransformError {
    /// The length is neither zero nor a power of two.
    NotPowerOfTwo { len: usize },
}

/// Decides whether `n` is a power of two.
pub fn is_power_of_two(n: usize) -> (r: bool)
    ensures
        r == is_pow2(n as nat),
{
    let mut m: usize = n;
    while m >= 2 && m % 2 == 0
        invariant
            is_pow2(m as nat) == is_pow2(n as nat),
        decreases m,
    {
        m = m / 2;
    }
    m == 1
}

/// Butterfly `k` of the combine step: from the `k`-th outputs of the
/// transformed even half `e` and odd half `o` of a length-`n` sequence, `f`
/// gives outputs `k` and `k + n / 2` of `out`.
pub open spec fn butterfly_at<T, F: Fn(T, T, usize, usize) -> (T, T)>(
    f: F,
    e: Seq<T>,
    o: Seq<T>,
    out: Seq<T>,
    k: int,
) -> bool {
    call_ensures(f, (e[k], o[k], k as usize, out.len() as usize), (out[k], out[k + e.len()]))
}

/// `out` recombines the transformed halves `e` and `o`, butterfly by butterfly.
pub open spec fn butterflies<T, F: Fn(T, T, usize, usize) -> (T, T)>(
    f: F,
    e: Seq<T>,
    o: Seq<T>,
    out: Seq<T>,
) -> bool {
    &&& o.len() == e.len()
    &&& out.len() == 2 * e.len()
    &&& forall|k: int| 0 <= k < e.len() ==> #[trigger] butterfly_at(f, e, o, out, k)
}

/// `out` is the radix-2 decimation-in-time transform of `input` with the
/// butterfly `f`: a sequence of length 0 or 1 is its own transform; a longer
/// one is split into its even- and odd-indexed samples, each half is
/// transformed, and the two halves are recombined butterfly by butterfly.
pub open spec fn is_cooley_tukey<T, F: Fn(T, T, usize, usize) -> (T, T)>(
    f: F,
    input: Seq<T>,
    out: Seq<T>,
) -> bool
    decreases input.len(),
{
    if input.len() <= 1 {
        out == input
    } else {
        exists|e: Seq<T>, o: Seq<T>|
            #![trigger butterflies(f, e, o, out)]
            is_cooley_tukey(f, evens(input), e) && is_cooley_tukey(f, odds(input), o)
                && butterflies(f, e, o, out)
    }
}

proof fn lemma_pow2_halves(n: nat)
    requires
        is_pow2(n),
        n >= 2,
    ensures
        n % 2 == 0,
        is_pow2(n / 2),
        (n + 1) / 2 == n / 2,
{
}

proof fn lemma_combine<T, F: Fn(T, T, usize, usize) -> (T, T)>(
    f: F,
    input: Seq<T>,
    e: Seq<T>,
    o: Seq<T>,
    out: Seq<T>,
)
    requires
        input.len() > 1,
        is_cooley_tukey(f, evens(input), e),
        is_cooley_tukey(f, odds(input), o),
        butterflies(f, e, o, out),
    ensures
        is_cooley_tukey(f, input, out),
{
}

/// A sequence of length 0 or 1 is the only transform of itself.
pub proof fn lemma_cooley_tukey_base<T, F: Fn(T, T, usize, usize) -> (T, T)>(
    f: F,
    input: Seq<T>,
    out: Seq<T>,
)
    requires
        input.len() <= 1,
    ensures
        is_cooley_tukey(f, input, out) <==> out == input,
{
}

/// A transform of a longer sequence recombines some transforms of its even
/// and odd halves.
pub proof fn lemma_split<T, F: Fn(T, T, usize, usize) -> (T, T)>(
    f: F,
    input: Seq<T>,
    out: Seq<T>,
)
    requires
        input.len() > 1,
        is_cooley_tukey(f, input, out),
    ensures
        exists|e: Seq<T>, o: Seq<T>|
            #![trigger butterflies(f, e, o, out)]
            is_cooley_tukey(f, evens(input), e) && is_cooley_tukey(f, odds(input), o)
                && butterflies(f, e, o, out),
{
}

/// Copies the even-indexed and the odd-indexed samples into two new vectors.
pub fn split_even_odd<T: Copy>(input: &Vec<T>) -> (r: (Vec<T>, Vec<T>))
    ensures
        r.0@ == evens(input@),
        r.1@ == odds(input@),
{
    let mut even: Vec<T> = Vec::new();
    let mut odd: Vec<T> = Vec::new();
    let mut i: usize = 0;
    while i < input.len()
        invariant
            i <= input.len(),
            even@.len() == (i + 1) / 2,
            odd@.len() == i / 2,
            forall|j: int| 0 <= j < even@.len() ==> #[trigger] even@[j] == input@[2 * j],
            forall|j: int| 0 <= j < odd@.len() ==> #[trigger] odd@[j] == input@[2 * j + 1],
        decreases input.len() - i,
    {
        if i % 2 == 0 {
            even.push(input[i]);
        } else {
            odd.push(input[i]);
        }
        i = i + 1;
    }
    proof {
        assert(even@ =~= evens(input@));
        assert(odd@ =~= odds(input@));
    }
    (even, odd)
}

/// Transforms `input` in place by recursive radix-2 decimation in time,
/// calling `f` for each butterfly. `f` receives the `k`-th samples of the
/// transformed even and odd halves, `k`, and the current length `n`.
pub fn cooley_tukey<T: Copy, F: Fn(T, T, usize, usize) -> (T, T)>(input: &mut Vec<T>, f: &F)
    requires
        transformable(old(input)@.len()),
        forall|a: T, b: T, k: usize, n: usize| call_requires(*f, (a, b, k, n)),
    ensures
        final(input)@.len() == old(input)@.len(),
        is_cooley_tukey(*f, old(input)@, final(input)@),
    decreases old(input)@.len(),
{
    let n = input.len();
    if n <= 1 {
        return;
    }
    proof {
        lemma_pow2_halves(n as nat);
    }
    let ghost before = input@;
    let (mut even, mut odd) = split_even_odd(input);
    cooley_tukey(&mut even, f);
    cooley_tukey(&mut odd, f);
    let half = n / 2;
    let mut k: usize = 0;
    while k < half
        invariant
            half == n / 2,
            n == 2 * half,
            input@.len() == n,
            even@.len() == half,
            odd@.len() == half,
            k <= half,
            forall|a: T, b: T, j: usize, m: usize| call_requires(*f, (a, b, j, m)),
            forall|j: int| 0 <= j < k ==> #[trigger] butterfly_at(*f, even@, odd@, input@, j),
        decreases half - k,
    {
        let (lo, hi) = f(even[k], odd[k], k, n);
        let ghost prev = input@;
        input.set(k, lo);
        input.set(k + half, hi);
        proof {
            assert forall|j: int| 0 <= j < k + 1 implies #[trigger] butterfly_at(
                *f,
                even@,
                odd@,
                input@,
                j,
            ) by {
                if j < k {
                    assert(butterfly_at(*f, even@, odd@, prev, j));
                    assert(input@[j] == prev[j]);
                    assert(input@[j + half] == prev[j + half]);
                }
            }
        }
        k = k + 1;
    }
    proof {
        assert(butterflies(*f, even@, odd@, input@));
        lemma_combine(*f, before, even@, odd@, input@);
    }
}

/// Transforms `input` in place, after checking that its length is zero or
/// a power of two. On any other length nothing is changed and the length is
/// reported back; a sequence of length 0 or 1 is its own transform.
pub fn transform_with<T: Copy, F: Fn(T, T, usize, usize) -> (T, T)>(
    input: &mut Vec<T>,
    f: &F,
) -> (r: Result<(), TransformError>)
    requires
        forall|a: T, b: T, k: usize, n: usize| call_requires(*f, (a, b, k, n)),
    ensures
        r is Ok <==> transformable(old(input)@.len()),
        final(input)@.len() == old(input)@.len(),
        r is Ok ==> is_cooley_tukey(*f, old(input)@, final(input)@),
        r is Err ==> r == Err::<(), TransformError>(
            TransformError::NotPowerOfTwo { len: old(input)@.len() as usize },
        ) && final(input)@ == old(input)@,
        old(input)@.len() <= 1 ==> final(input)@ == old(input)@,
{
    let n = input.len();
    if n != 0 && !is_power_of_two(n) {
        return Err(TransformError::NotPowerOfTwo { len: n });
    }
    cooley_tukey(input, f);
    Ok(())
}

} // verus!
