//! An ordered list of buckets, and the search for the first that holds a number.
use vstd::prelude::*;
use crate::bucket::Bucket;
use crate::float::Float;

verus! {

/// Whether `buckets[i]` holds `input` and no bucket before it does.
pub open spec fn is_first_match(buckets: Seq<Bucket>, input: Float, i: int) -> bool {
    &&& 0 <= i < buckets.len()
    &&& buckets[i].spec_contains(input)
    &&& forall|j: int| 0 <= j < i ==> !(#[trigger] buckets[j]).spec_contains(input)
}

/// The index of the first bucket that holds `input`, if any does.
pub open spec fn first_match(buckets: Seq<Bucket>, input: Float) -> Option<int> {
    if exists|i: int| is_first_match(buckets, input, i) {
        Some(choose|i: int| is_first_match(buckets, input, i))
    } else {
        None
    }
}

/// The value of the first bucket that holds `input`, if any does.
pub open spec fn classify(buckets: Seq<Bucket>, input: Float) -> Option<Float> {
    match first_match(buckets, input) {
        Some(i) => Some(buckets[i].value),
        None => None,
    }
}

/// At most one bucket is the first to hold `input`.
pub proof fn lemma_first_match_unique(buckets: Seq<Bucket>, input: Float, i: int, j: int)
    requires
        is_first_match(buckets, input, i),
        is_first_match(buckets, input, j),
    ensures
        i == j,
{
    if i < j {
        assert(!buckets[i].spec_contains(input));
    } else if j < i {
        assert(!buckets[j].spec_contains(input));
    }
}

/// Where bucket `i` is the first to hold `input`, the search finds it.
pub proof fn lemma_first_match_found(buckets: Seq<Bucket>, input: Float, i: int)
    requires
        is_first_match(buckets, input, i),
    ensures
        first_match(buckets, input) == Some(i),
        classify(buckets, input) == Some(buckets[i].value),
{
    let k = choose|k: int| is_first_match(buckets, input, k);
    lemma_first_match_unique(buckets, input, i, k);
}

/// Where no bucket holds `input`, the search finds nothing.
pub proof fn lemma_first_match_none(buckets: Seq<Bucket>, input: Float)
    requires
        forall|j: int| 0 <= j < buckets.len() ==> !(#[trigger] buckets[j]).spec_contains(input),
    ensures
        first_match(buckets, input) is None,
        classify(buckets, input) is None,
{
}

/// The buckets to slot numbers into, in the order in which they are tried.
#[derive(Debug)]
pub struct Bucketizer {
    buckets: Vec<Bucket>,
}

impl View for Bucketizer {
    type V = Seq<Bucket>;

    closed spec fn view(&self) -> Seq<Bucket> {
        self.buckets@
    }
}

impl Bucketizer {
    /// A `Bucketizer` with no buckets.
    pub fn new() -> (r: Self)
        ensures
            r@ == Seq::<Bucket>::empty(),
    {
        Bucketizer { buckets: Vec::new() }
    }

    /// Adds a bucket behind those that are there: it is tried after them.
    pub fn bucket(self, min: Option<Float>, max: Option<Float>, value: Float) -> (r: Self)
        ensures
            r@ == self@.push((Bucket { min, max, value })),
    {
        let mut new = self;
        new.buckets.push(Bucket { min, max, value });
        new
    }

    /// The value of the first bucket that holds `input`, or `None` where no
    /// bucket holds it.
    pub fn bucketize(&self, input: Float) -> (r: Option<Float>)
        ensures
            r == classify(self@, input),
            match r {
                Some(value) => exists|i: int|
                    is_first_match(self@, input, i) && value == self@[i].value,
                None => forall|i: int|
                    0 <= i < self@.len() ==> !(#[trigger] self@[i]).spec_contains(input),
            },
    {
        let mut i: usize = 0;
        while i < self.buckets.len()
            invariant
                i <= self.buckets.len(),
                forall|j: int| 0 <= j < i ==> !(#[trigger] self@[j]).spec_contains(input),
            decreases self.buckets.len() - i,
        {
            if self.buckets[i].contains(input) {
                proof {
                    assert(is_first_match(self@, input, i as int));
                    lemma_first_match_found(self@, input, i as int);
                }
                return Some(self.buckets[i].value);
            }
            i += 1;
        }
        proof {
            lemma_first_match_none(self@, input);
        }
        None
    }
}

impl Clone for Bucketizer {
    fn clone(&self) -> (r: Self)
        ensures
            r@ == self@,
    {
        Bucketizer { buckets: self.buckets.clone() }
    }
}

impl PartialEq for Bucketizer {
    /// Whether the two hold equal buckets in the same order.
    fn eq(&self, other: &Bucketizer) -> (r: bool) {
        self.buckets == other.buckets
    }
}

impl vstd::std_specs::cmp::PartialEqSpecImpl for Bucketizer {
    open spec fn obeys_eq_spec() -> bool {
        true
    }

    open spec fn eq_spec(&self, other: &Bucketizer) -> bool {
        &&& self@.len() == other@.len()
        &&& forall|i: int| 0 <= i < self@.len() ==> (#[trigger] self@[i]).spec_eq(other@[i])
    }
}

} // verus!
