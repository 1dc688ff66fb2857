//! The membership filter and how it is sized.
use vstd::prelude::*;
use bloomlib::BloomFilter;

verus! {

/// Bit pattern of the IEEE-754 double `1.0`.
pub const ONE_BITS: u64 = 0x3FF0_0000_0000_0000;

/// How a filter's bit array and hash count are derived from its capacity.
///
/// A false-positive rate is carried as the bit pattern of an IEEE-754
/// double (its `to_bits`). For non-negative doubles the order of the bit
/// patterns is the order of the numbers, so `0 < p < 1` holds exactly when
/// `0 < bits < ONE_BITS`.
#[derive(Clone, Copy, PartialEq, Eq, Debug)]
pub enum CreationMode {
    FalsePositiveRate(u64),
    HashCount(u32),
}

impl CreationMode {
    /// Whether the mode is one a filter can be built from: a rate strictly
    /// between 0 and 1, or at least one hash function.
    pub open spec fn valid(self) -> bool {
        match self {
            CreationMode::FalsePositiveRate(bits) => 0 < bits && bits < ONE_BITS,
            CreationMode::HashCount(k) => k >= 1,
        }
    }

    /// Checks `valid`.
    pub fn is_valid(&self) -> (r: bool)
        ensures
            r == self.valid(),
    {
        match *self {
            CreationMode::FalsePositiveRate(bits) => 0 < bits && bits < ONE_BITS,
            CreationMode::HashCount(k) => k >= 1,
        }
    }
}

#[verifier::external_type_specification]
#[verifier::external_body]
#[verifier::reject_recursive_types(T)]
pub struct ExBloomFilter<T: ?Sized>(BloomFilter<T>);

/// The items that a filter reports as possibly present: those whose every
/// hashed bit position is set.
pub uninterp spec fn accepted(f: BloomFilter<String>) -> Set<Seq<char>>;

/// The number of hash functions (bit positions per item) of a filter.
pub uninterp spec fn hash_functions(f: BloomFilter<String>) -> u32;

/// Relies on `bloomlib::BloomFilter::new` with an explicit hash count: a
/// new filter has every bit clear and so accepts nothing, and it uses
/// exactly `k` hash functions. It panics on `n == 0` and on `k == 0`.
#[verifier::external_body]
fn new_bloom(n: usize, k: u32) -> (r: BloomFilter<String>)
    requires
        n >= 1,
        k >= 1,
    ensures
        accepted(r) == Set::<Seq<char>>::empty(),
        hash_functions(r) == k,
{
    BloomFilter::new(n, k)
}

/// Relies on `bloomlib::BloomFilter::hash_count`: the number of hash
/// functions the filter uses.
#[verifier::external_body]
fn hash_count_bloom(f: &BloomFilter<String>) -> (r: u32)
    ensures
        r == hash_functions(*f),
{
    f.hash_count()
}

/// Relies on `bloomlib::BloomFilter::insert`: it sets the item's bit
/// positions, so the item is accepted afterwards, every item accepted before
/// still is, and the hash count is untouched. An item already accepted has
/// all its bits set, so the filter is left as it was.
#[verifier::external_body]
fn insert_bloom(f: &mut BloomFilter<String>, item: &String)
    ensures
        accepted(*old(f)).contains(item@) ==> *final(f) == *old(f),
        accepted(*final(f)).contains(item@),
        accepted(*old(f)).subset_of(accepted(*final(f))),
        hash_functions(*final(f)) == hash_functions(*old(f)),
{
    f.insert(item)
}

/// Relies on `bloomlib::BloomFilter::contains`: true exactly when all of the
/// item's bit positions are set.
#[verifier::external_body]
fn contains_bloom(f: &BloomFilter<String>, item: &String) -> (r: bool)
    ensures
        r == accepted(*f).contains(item@),
{
    f.contains(item)
}

/// Relies on `bloomlib::BloomFilter::clear`: every bit is cleared in place
/// and the hash count is kept; with at least one hash function no item is
/// accepted afterwards.
#[verifier::external_body]
fn clear_bloom(f: &mut BloomFilter<String>)
    ensures
        hash_functions(*final(f)) == hash_functions(*old(f)),
        hash_functions(*old(f)) >= 1 ==> accepted(*final(f)) == Set::<Seq<char>>::empty(),
{
    f.clear()
}

/// A probabilistic set of strings: no false negatives, occasional false
/// positives.
pub struct ProbabilisticSet {
    pub filter: BloomFilter<String>,
    /// Items inserted since construction or the last `clear`.
    pub inserted: Ghost<Set<Seq<char>>>,
}

impl ProbabilisticSet {
    /// Every inserted item is accepted, and at least one hash function is used.
    pub open spec fn wf(&self) -> bool {
        &&& self.inserted@.subset_of(accepted(self.filter))
        &&& hash_functions(self.filter) >= 1
    }

    /// Whether the set reports `item` as possibly present.
    pub open spec fn accepts(&self, item: Seq<char>) -> bool {
        accepted(self.filter).contains(item)
    }

    /// The number of hash functions.
    pub open spec fn hashes(&self) -> u32 {
        hash_functions(self.filter)
    }

    /// A set sized for `n` items with `k` hash functions, holding nothing.
    pub fn with_hash_count(n: usize, k: u32) -> (r: ProbabilisticSet)
        requires
            n >= 1,
            k >= 1,
        ensures
            r.wf(),
            r.inserted@ == Set::<Seq<char>>::empty(),
            forall|x: Seq<char>| !r.accepts(x),
            r.hashes() == k,
    {
        ProbabilisticSet { filter: new_bloom(n, k), inserted: Ghost(Set::empty()) }
    }

    /// Takes over a filter sized elsewhere (by a false-positive rate), emptied
    /// first; `None` when it uses no hash function at all.
    pub fn from_filter(filter: BloomFilter<String>) -> (r: Option<ProbabilisticSet>)
        ensures
            r is Some <==> hash_functions(filter) >= 1,
            r matches Some(s) ==> {
                &&& s.wf()
                &&& s.inserted@ == Set::<Seq<char>>::empty()
                &&& forall|x: Seq<char>| !s.accepts(x)
                &&& s.hashes() == hash_functions(filter)
            },
    {
        let mut filter = filter;
        if hash_count_bloom(&filter) == 0 {
            return None;
        }
        clear_bloom(&mut filter);
        Some(ProbabilisticSet { filter, inserted: Ghost(Set::empty()) })
    }

    /// The number of hash functions.
    pub fn hash_count(&self) -> (r: u32)
        ensures
            r == self.hashes(),
    {
        hash_count_bloom(&self.filter)
    }

    /// Adds `item`.
    pub fn insert(&mut self, item: &String)
        requires
            old(self).wf(),
        ensures
            final(self).wf(),
            final(self).inserted@ == old(self).inserted@.insert(item@),
            final(self).accepts(item@),
            forall|x: Seq<char>| old(self).accepts(x) ==> final(self).accepts(x),
            final(self).hashes() == old(self).hashes(),
            old(self).accepts(item@) ==> final(self).filter == old(self).filter,
    {
        insert_bloom(&mut self.filter, item);
        self.inserted = Ghost(self.inserted@.insert(item@));
    }

    /// Whether `item` may have been inserted: always true for an inserted one.
    pub fn contains(&self, item: &String) -> (r: bool)
        requires
            self.wf(),
        ensures
            r == self.accepts(item@),
            self.inserted@.contains(item@) ==> r,
    {
        contains_bloom(&self.filter, item)
    }

    /// Forgets every item; the sizing is kept.
    pub fn clear(&mut self)
        requires
            old(self).wf(),
        ensures
            final(self).wf(),
            final(self).inserted@ == Set::<Seq<char>>::empty(),
            forall|x: Seq<char>| !final(self).accepts(x),
            final(self).hashes() == old(self).hashes(),
    {
        clear_bloom(&mut self.filter);
        self.inserted = Ghost(Set::empty());
    }
}

/// No false negatives: every item inserted into a well-formed set since it
/// was built or last cleared is reported as possibly present. (`insert` only
/// adds to `inserted`, and only `clear` empties it.)
pub proof fn inserted_items_are_accepted(s: ProbabilisticSet, x: Seq<char>)
    requires
        s.wf(),
        s.inserted@.contains(x),
    ensures
        s.accepts(x),
{
}

} // verus!
