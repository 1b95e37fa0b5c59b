//! What holds of every `Bucketizer`, proved from the definitions.
use vstd::prelude::*;
use crate::bucket::Bucket;
use crate::bucketizer::{classify, first_match, is_first_match, lemma_first_match_found,
    lemma_first_match_none, Bucketizer};
use crate::float::{Float, INFINITY_BITS, NEG_INFINITY_BITS};

verus! {

/// With no buckets, no number is given a value.
pub proof fn lemma_no_buckets_no_value(input: Float)
    ensures
        classify(Seq::<Bucket>::empty(), input) is None,
{
    lemma_first_match_none(Seq::<Bucket>::empty(), input);
}

/// Adding a bucket changes nothing for the numbers that an earlier bucket
/// holds; the others get the new bucket's value where it holds them.
pub proof fn lemma_added_bucket_is_tried_last(buckets: Seq<Bucket>, bucket: Bucket, input: Float)
    ensures
        classify(buckets.push(bucket), input) == match classify(buckets, input) {
            Some(value) => Some(value),
            None => if bucket.spec_contains(input) {
                Some(bucket.value)
            } else {
                None
            },
        },
{
    let longer = buckets.push(bucket);
    match first_match(buckets, input) {
        Some(i) => {
            assert(is_first_match(buckets, input, i));
            assert forall|j: int| 0 <= j < i implies !(#[trigger] longer[j]).spec_contains(input) by {
                assert(longer[j] == buckets[j]);
            }
            assert(longer[i] == buckets[i]);
            lemma_first_match_found(longer, input, i);
        },
        None => {
            assert forall|j: int| 0 <= j < buckets.len() implies !(#[trigger] longer[j])
                .spec_contains(input) by {
                if buckets[j].spec_contains(input) {
                    lemma_some_bucket_is_first(buckets, input, j);
                }
            }
            let last = buckets.len() as int;
            assert(longer[last] == bucket);
            if bucket.spec_contains(input) {
                lemma_first_match_found(longer, input, last);
            } else {
                lemma_first_match_none(longer, input);
            }
        },
    }
}

/// Where some bucket holds `input`, one of them is the first to do so, and
/// it stands no later than that bucket.
pub proof fn lemma_some_bucket_is_first(buckets: Seq<Bucket>, input: Float, i: int)
    requires
        0 <= i < buckets.len(),
        buckets[i].spec_contains(input),
    ensures
        first_match(buckets, input) is Some,
        0 <= first_match(buckets, input).unwrap() <= i,
        is_first_match(buckets, input, first_match(buckets, input).unwrap()),
    decreases i,
{
    if forall|j: int| 0 <= j < i ==> !(#[trigger] buckets[j]).spec_contains(input) {
        lemma_first_match_found(buckets, input, i);
    } else {
        let j = choose|j: int| 0 <= j < i && (#[trigger] buckets[j]).spec_contains(input);
        lemma_some_bucket_is_first(buckets, input, j);
    }
}

/// A bucket without bounds that stands first gives every number its value,
/// a NaN too: no bucket behind it is ever reached.
pub proof fn lemma_catch_all_first_wins(buckets: Seq<Bucket>, input: Float)
    requires
        buckets.len() > 0,
        buckets[0].min is None,
        buckets[0].max is None,
    ensures
        first_match(buckets, input) == Some(0int),
        classify(buckets, input) == Some(buckets[0].value),
{
    lemma_first_match_found(buckets, input, 0);
}

/// A bucket with both bounds holds its lower bound where that lies below the
/// upper one, and then gives it its value unless an earlier bucket holds it.
pub proof fn lemma_lower_bound_is_inside(buckets: Seq<Bucket>, i: int, min: Float, max: Float)
    requires
        0 <= i < buckets.len(),
        buckets[i].min == Some(min),
        buckets[i].max == Some(max),
        min.spec_lt(max),
    ensures
        buckets[i].spec_contains(min),
        (forall|j: int| 0 <= j < i ==> !(#[trigger] buckets[j]).spec_contains(min))
            ==> classify(buckets, min) == Some(buckets[i].value),
{
    if forall|j: int| 0 <= j < i ==> !(#[trigger] buckets[j]).spec_contains(min) {
        lemma_first_match_found(buckets, min, i);
    }
}

/// A bucket with an upper bound never holds that bound, so it is never the
/// bucket that gives the bound a value.
pub proof fn lemma_upper_bound_is_outside(buckets: Seq<Bucket>, i: int, max: Float)
    requires
        0 <= i < buckets.len(),
        buckets[i].max == Some(max),
    ensures
        !buckets[i].spec_contains(max),
        first_match(buckets, max) != Some(i),
{
    if first_match(buckets, max) == Some(i) {
        assert(is_first_match(buckets, max, i));
    }
}

/// Of two buckets that both hold a number, the one added first gives the value.
pub proof fn lemma_first_added_wins(first: Bucket, second: Bucket, input: Float)
    requires
        first.spec_contains(input),
        second.spec_contains(input),
    ensures
        classify(Seq::<Bucket>::empty().push(first).push(second), input) == Some(first.value),
{
    let buckets = Seq::<Bucket>::empty().push(first).push(second);
    assert(buckets[0] == first);
    lemma_first_match_found(buckets, input, 0);
}

/// A bucket that stands behind another one that holds `input` never gives
/// `input` its value.
pub proof fn lemma_later_bucket_is_shadowed(buckets: Seq<Bucket>, input: Float, i: int, j: int)
    requires
        0 <= i < j < buckets.len(),
        buckets[i].spec_contains(input),
    ensures
        first_match(buckets, input) is Some,
        first_match(buckets, input) != Some(j),
{
    lemma_some_bucket_is_first(buckets, input, i);
}

/// A bucket with no lower bound holds exactly the numbers below its upper
/// bound. Negative infinity is one of them, unless the bound is itself
/// negative infinity or a NaN.
pub proof fn lemma_unbounded_below(max: Float, value: Float, input: Float)
    ensures
        ({
            let bucket = Bucket { min: None, max: Some(max), value };
            &&& bucket.spec_contains(input) <==> input.spec_lt(max)
            &&& classify(Seq::<Bucket>::empty().push(bucket), input) == if input.spec_lt(max) {
                Some(value)
            } else {
                None
            }
            &&& (input.bits == NEG_INFINITY_BITS && !max.spec_is_nan()
                && max.bits != NEG_INFINITY_BITS) ==> bucket.spec_contains(input)
        }),
{
    let bucket = Bucket { min: None, max: Some(max), value };
    lemma_no_buckets_no_value(input);
    lemma_added_bucket_is_tried_last(Seq::<Bucket>::empty(), bucket, input);
}

/// A bucket with no upper bound holds exactly the numbers that are not below
/// its lower bound. Positive infinity is one of them, unless the bound is a
/// NaN.
pub proof fn lemma_unbounded_above(min: Float, value: Float, input: Float)
    ensures
        ({
            let bucket = Bucket { min: Some(min), max: None, value };
            &&& bucket.spec_contains(input) <==> input.spec_ge(min)
            &&& classify(Seq::<Bucket>::empty().push(bucket), input) == if input.spec_ge(min) {
                Some(value)
            } else {
                None
            }
            &&& (input.bits == INFINITY_BITS && !min.spec_is_nan()) ==> bucket.spec_contains(input)
        }),
{
    let bucket = Bucket { min: Some(min), max: None, value };
    lemma_no_buckets_no_value(input);
    lemma_added_bucket_is_tried_last(Seq::<Bucket>::empty(), bucket, input);
}

/// Whatever `bucketize` may return for a `Bucketizer` and a number, it
/// returns every time: two results for the same pair are equal.
pub proof fn lemma_bucketize_is_repeatable(
    bucketizer: Bucketizer,
    input: Float,
    once: Option<Float>,
    again: Option<Float>,
)
    requires
        call_ensures(Bucketizer::bucketize, (&bucketizer, input), once),
        call_ensures(Bucketizer::bucketize, (&bucketizer, input), again),
    ensures
        once == again,
        once == classify(bucketizer@, input),
{
}

} // verus!
