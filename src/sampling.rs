use vstd::prelude::*;

verus! {

/// How many samples a signal gets over the half-open domain `[0, range)`
/// cut into `sample_count` equal steps, sample `i` standing at `i * step`.
///
/// Counting by index, rather than accumulating the step until it reaches the
/// range, makes the length independent of rounding: positions `0 * step` up
/// to `(sample_count - 1) * step` all lie below a positive range. A zero
/// count, which leaves the step undefined, and a range that is not positive
/// both give no samples.
pub fn sample_len(sample_count: usize, range_is_positive: bool) -> (r: usize)
    ensures
        r == if range_is_positive { sample_count } else { 0 },
        r == 0 <==> sample_count == 0 || !range_is_positive,
{
    if range_is_positive {
        sample_count
    } else {
        0
    }
}

/// One step of the sum at a sample: `g` adds the term of component `c` at
/// position `x` to the partial sum `acc`, giving `y`.
pub open spec fn adds_term<C, P, Y, G: Fn(Y, C, P) -> Y>(g: G, acc: Y, c: C, x: P, y: Y) -> bool {
    call_ensures(g, (acc, c, x), y)
}

/// `y` is the sum at position `x` of the terms of `cs`, added in order onto
/// `zero` with `g`.
pub open spec fn sums_terms<C, P, Y, G: Fn(Y, C, P) -> Y>(
    g: G,
    x: P,
    cs: Seq<C>,
    zero: Y,
    y: Y,
) -> bool
    decreases cs.len(),
{
    if cs.len() == 0 {
        y == zero
    } else {
        exists|acc: Y|
            #![trigger adds_term(g, acc, cs.last(), x, y)]
            sums_terms(g, x, cs.drop_last(), zero, acc) && adds_term(g, acc, cs.last(), x, y)
    }
}

proof fn lemma_sums_terms_push<C, P, Y, G: Fn(Y, C, P) -> Y>(
    g: G,
    x: P,
    cs: Seq<C>,
    zero: Y,
    acc: Y,
    y: Y,
    n: int,
)
    requires
        0 <= n < cs.len(),
        sums_terms(g, x, cs.take(n), zero, acc),
        adds_term(g, acc, cs[n], x, y),
    ensures
        sums_terms(g, x, cs.take(n + 1), zero, y),
{
    let s = cs.take(n + 1);
    assert(s.drop_last() =~= cs.take(n));
    assert(s.last() == cs[n]);
    assert(sums_terms(g, x, s.drop_last(), zero, acc) && adds_term(g, acc, s.last(), x, y));
}

/// Samples the sum of `components` at `sample_len(sample_count, range_is_positive)`
/// positions. Sample `i` stands at `position(i)`, and its value adds the term
/// of each component, in order, onto `zero` with `add_term`.
pub fn synthesize_with<
    C: Copy,
    P: Copy,
    Y: Copy,
    Pos: Fn(usize) -> P,
    G: Fn(Y, C, P) -> Y,
>(
    components: &Vec<C>,
    sample_count: usize,
    range_is_positive: bool,
    position: &Pos,
    add_term: &G,
    zero: Y,
) -> (r: Vec<(P, Y)>)
    requires
        forall|i: usize| call_requires(*position, (i,)),
        forall|acc: Y, c: C, x: P| call_requires(*add_term, (acc, c, x)),
    ensures
        r@.len() == if range_is_positive { sample_count as int } else { 0 },
        forall|i: int|
            0 <= i < r@.len() ==> call_ensures(*position, (i as usize,), (#[trigger] r@[i]).0)
                && sums_terms(*add_term, r@[i].0, components@, zero, r@[i].1),
        components@.len() == 0 ==> forall|i: int| 0 <= i < r@.len() ==> (#[trigger] r@[i]).1 == zero,
{
    let count = sample_len(sample_count, range_is_positive);
    let mut samples: Vec<(P, Y)> = Vec::new();
    let mut i: usize = 0;
    while i < count
        invariant
            i <= count,
            samples@.len() == i,
            forall|i: usize| call_requires(*position, (i,)),
            forall|acc: Y, c: C, x: P| call_requires(*add_term, (acc, c, x)),
            forall|j: int|
                0 <= j < i ==> call_ensures(*position, (j as usize,), (#[trigger] samples@[j]).0)
                    && sums_terms(*add_term, samples@[j].0, components@, zero, samples@[j].1),
        decreases count - i,
    {
        let x = position(i);
        let mut sum = zero;
        let mut n: usize = 0;
        while n < components.len()
            invariant
                n <= components@.len(),
                forall|acc: Y, c: C, x: P| call_requires(*add_term, (acc, c, x)),
                sums_terms(*add_term, x, components@.take(n as int), zero, sum),
            decreases components@.len() - n,
        {
            let next = add_term(sum, components[n], x);
            proof {
                lemma_sums_terms_push(*add_term, x, components@, zero, sum, next, n as int);
            }
            sum = next;
            n = n + 1;
        }
        proof {
            assert(components@.take(n as int) =~= components@);
        }
        samples.push((x, sum));
        i = i + 1;
    }
    samples
}

} // verus!
