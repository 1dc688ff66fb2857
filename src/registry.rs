//! Many filters kept under unique names.
use vstd::prelude::*;
use vstd::string::StringExecFns;
use bloomlib::BloomFilter;
use crate::filter::{hash_functions, CreationMode, ProbabilisticSet, ONE_BITS};

verus! {

/// Why a registry operation failed.
#[derive(Clone, Copy, PartialEq, Eq, Debug)]
pub enum RegistryError {
    /// Creation without exactly one valid sizing mode, or with no capacity.
    InvalidRequest,
    /// Creation under a name that is already in use.
    NameConflict,
    /// No filter has the given name (or identifier).
    NotFound,
}

/// A filter already sized by a false-positive rate, with the rate's bit
/// pattern (see `CreationMode`).
pub struct RateSized {
    pub rate_bits: u64,
    pub filter: BloomFilter<String>,
}

/// One registered filter.
pub struct FilterContainer {
    pub id: String,
    pub name: String,
    pub filter: ProbabilisticSet,
    pub capacity: usize,
    pub creation_mode: CreationMode,
}

/// What `list` reports of one filter.
pub struct ListItem {
    pub id: String,
    pub name: String,
    pub item_count: usize,
    pub config: CreationMode,
}

/// Whether some record is named `name`.
pub open spec fn has_name(s: Seq<FilterContainer>, name: Seq<char>) -> bool {
    exists|i: int| 0 <= i < s.len() && s[i].name@ == name
}

/// Whether some record has the identifier `id`.
pub open spec fn has_id(s: Seq<FilterContainer>, id: Seq<char>) -> bool {
    exists|i: int| 0 <= i < s.len() && s[i].id@ == id
}

/// `i` is the first record with identifier `id`.
pub open spec fn first_id(s: Seq<FilterContainer>, id: Seq<char>, i: int) -> bool {
    &&& 0 <= i < s.len()
    &&& s[i].id@ == id
    &&& forall|j: int| 0 <= j < i ==> s[j].id@ != id
}

/// No two records share a name or an identifier, and every filter is well
/// formed.
pub open spec fn records_wf(s: Seq<FilterContainer>) -> bool {
    &&& forall|i: int, j: int| 0 <= i < s.len() && 0 <= j < s.len() && i != j ==> s[i].name@ != s[j].name@
    &&& forall|i: int, j: int| 0 <= i < s.len() && 0 <= j < s.len() && i != j ==> s[i].id@ != s[j].id@
    &&& forall|i: int| 0 <= i < s.len() ==> (#[trigger] s[i]).filter.wf()
}

/// The sizing mode a creation request asks for, when it names a usable one:
/// a capacity of at least one and exactly one of a hash count of at least
/// one or a rate strictly between 0 and 1 whose filter uses some hash
/// function.
pub open spec fn requested_mode(n: usize, hash_count: Option<u32>, rate: Option<RateSized>) -> Option<CreationMode> {
    if n < 1 {
        None
    } else {
        match (hash_count, rate) {
            (Some(k), None) => if k >= 1 { Some(CreationMode::HashCount(k)) } else { None },
            (None, Some(r)) => if 0 < r.rate_bits && r.rate_bits < ONE_BITS && hash_functions(r.filter) >= 1 {
                Some(CreationMode::FalsePositiveRate(r.rate_bits))
            } else {
                None
            },
            _ => None,
        }
    }
}

/// A record just created: the given fields and a filter holding nothing.
pub open spec fn fresh_record(c: FilterContainer, id: Seq<char>, name: Seq<char>, n: usize, mode: CreationMode) -> bool {
    &&& c.id@ == id
    &&& c.name@ == name
    &&& c.capacity == n
    &&& c.creation_mode == mode
    &&& c.filter.wf()
    &&& c.filter.inserted@ == Set::<Seq<char>>::empty()
    &&& forall|x: Seq<char>| !c.filter.accepts(x)
}

/// The outcome of creating `name` with identifier `id`: a conflict when the
/// name is taken, else a rejection when the name is empty or no usable mode
/// is asked for, else the new record appended and the identifier returned.
pub open spec fn create_outcome(
    before: Seq<FilterContainer>,
    after: Seq<FilterContainer>,
    id: Seq<char>,
    name: Seq<char>,
    n: usize,
    hash_count: Option<u32>,
    rate: Option<RateSized>,
    r: Result<String, RegistryError>,
) -> bool {
    if has_name(before, name) {
        r == Err::<String, RegistryError>(RegistryError::NameConflict) && after == before
    } else if name.len() == 0 || requested_mode(n, hash_count, rate) is None {
        r == Err::<String, RegistryError>(RegistryError::InvalidRequest) && after == before
    } else {
        &&& r matches Ok(rid) && rid@ == id
        &&& after.len() == before.len() + 1
        &&& after.take(before.len() as int) == before
        &&& fresh_record(after.last(), id, name, n, requested_mode(n, hash_count, rate)->Some_0)
        &&& (hash_count matches Some(k) ==> after.last().filter.hashes() == k)
        &&& (rate matches Some(q) ==> after.last().filter.hashes() == hash_functions(q.filter))
    }
}

/// The outcome of deleting by `key`: the record named `key` if there is one,
/// else the first record whose identifier is `key`, is removed and its name
/// returned; with neither, `NotFound` and nothing changes.
pub open spec fn delete_outcome(
    before: Seq<FilterContainer>,
    after: Seq<FilterContainer>,
    key: Seq<char>,
    r: Result<String, RegistryError>,
) -> bool {
    if has_name(before, key) {
        exists|i: int| 0 <= i < before.len() && before[i].name@ == key
            && after == before.remove(i) && (r matches Ok(n) && n@ == key)
    } else if has_id(before, key) {
        exists|i: int| first_id(before, key, i)
            && after == before.remove(i) && (r matches Ok(n) && n@ == before[i].name@)
    } else {
        r == Err::<String, RegistryError>(RegistryError::NotFound) && after == before
    }
}

/// Record `i` is named `name`.
pub open spec fn named(s: Seq<FilterContainer>, name: Seq<char>, i: int) -> bool {
    0 <= i < s.len() && s[i].name@ == name
}

/// `after` is `before` with only the filter of record `i` changed, keeping
/// its hash count.
pub open spec fn filter_updated(before: Seq<FilterContainer>, after: Seq<FilterContainer>, i: int) -> bool {
    &&& 0 <= i < before.len()
    &&& after == before.update(i, after[i])
    &&& after[i].id == before[i].id
    &&& after[i].name == before[i].name
    &&& after[i].capacity == before[i].capacity
    &&& after[i].creation_mode == before[i].creation_mode
    &&& after[i].filter.hashes() == before[i].filter.hashes()
}

/// `item` reports the fields of record `c`.
pub open spec fn listed(item: ListItem, c: FilterContainer) -> bool {
    &&& item.id@ == c.id@
    &&& item.name@ == c.name@
    &&& item.item_count == c.capacity
    &&& item.config == c.creation_mode
}

/// The outcome of inserting `item` into the filter named `name`: `NotFound`
/// and nothing changed when no record has that name; else only that record's
/// filter changes, gaining `item` and keeping what it accepted.
pub open spec fn insert_outcome(
    before: Seq<FilterContainer>,
    after: Seq<FilterContainer>,
    name: Seq<char>,
    item: Seq<char>,
    r: Result<(), RegistryError>,
) -> bool {
    &&& r is Ok <==> has_name(before, name)
    &&& r is Err ==> r == Err::<(), RegistryError>(RegistryError::NotFound) && after == before
    &&& r is Ok ==> exists|i: int| {
        &&& named(before, name, i)
        &&& filter_updated(before, after, i)
        &&& after[i].filter.inserted@ == before[i].filter.inserted@.insert(item)
        &&& after[i].filter.accepts(item)
        &&& forall|x: Seq<char>| before[i].filter.accepts(x) ==> after[i].filter.accepts(x)
    }
}

/// The outcome of clearing the filter named `name`: `NotFound` and nothing
/// changed when no record has that name; else only that record's filter
/// changes, and it accepts nothing.
pub open spec fn clear_outcome(
    before: Seq<FilterContainer>,
    after: Seq<FilterContainer>,
    name: Seq<char>,
    r: Result<(), RegistryError>,
) -> bool {
    &&& r is Ok <==> has_name(before, name)
    &&& r is Err ==> r == Err::<(), RegistryError>(RegistryError::NotFound) && after == before
    &&& r is Ok ==> exists|i: int| {
        &&& named(before, name, i)
        &&& filter_updated(before, after, i)
        &&& after[i].filter.inserted@ == Set::<Seq<char>>::empty()
        &&& forall|x: Seq<char>| !after[i].filter.accepts(x)
    }
}

/// Relies on `uuid::Uuid::new_v4`, written in its hyphenated text form:
/// a random identifier of 36 characters.
#[verifier::external_body]
fn fresh_id() -> (r: String)
    ensures
        r@.len() == 36,
{
    uuid::Uuid::new_v4().to_string()
}

/// The registry of named filters.
pub struct FilterRegistry {
    records: Vec<FilterContainer>,
}

impl View for FilterRegistry {
    type V = Seq<FilterContainer>;

    closed spec fn view(&self) -> Seq<FilterContainer> {
        self.records@
    }
}

impl Default for FilterRegistry {
    fn default() -> (r: FilterRegistry)
        ensures
            r.wf(),
            r@ == Seq::<FilterContainer>::empty(),
    {
        FilterRegistry::new()
    }
}

impl FilterRegistry {
    /// Names are unique and every filter is well formed.
    pub open spec fn wf(&self) -> bool {
        records_wf(self@)
    }

    /// An empty registry.
    pub fn new() -> (r: FilterRegistry)
        ensures
            r.wf(),
            r@ == Seq::<FilterContainer>::empty(),
    {
        FilterRegistry { records: Vec::new() }
    }

    /// The number of registered filters.
    pub fn len(&self) -> (r: usize)
        ensures
            r == self@.len(),
    {
        self.records.len()
    }

    /// The position of the record named `name`, if any.
    pub fn find_name(&self, name: &String) -> (r: Option<usize>)
        ensures
            r is None <==> !has_name(self@, name@),
            r matches Some(i) ==> i < self@.len() && self@[i as int].name@ == name@,
    {
        let mut i: usize = 0;
        while i < self.records.len()
            invariant
                i <= self.records@.len(),
                forall|j: int| 0 <= j < i ==> self.records@[j].name@ != name@,
            decreases self.records@.len() - i,
        {
            if self.records[i].name == *name {
                return Some(i);
            }
            i = i + 1;
        }
        None
    }

    /// The position of the first record whose identifier is `id`, if any.
    pub fn find_id(&self, id: &String) -> (r: Option<usize>)
        ensures
            r is None <==> !has_id(self@, id@),
            r matches Some(i) ==> first_id(self@, id@, i as int),
    {
        let mut i: usize = 0;
        while i < self.records.len()
            invariant
                i <= self.records@.len(),
                forall|j: int| 0 <= j < i ==> self.records@[j].id@ != id@,
            decreases self.records@.len() - i,
        {
            if self.records[i].id == *id {
                return Some(i);
            }
            i = i + 1;
        }
        None
    }
    /// Registers a new filter named `name` under the identifier `id`, which no
    /// record may use yet; see `create_outcome`.
    pub fn create_with_id(
        &mut self,
        id: String,
        name: String,
        item_count: usize,
        hash_count: Option<u32>,
        false_positive_rate: Option<RateSized>,
    ) -> (r: Result<String, RegistryError>)
        requires
            old(self).wf(),
            !has_id(old(self)@, id@),
        ensures
            final(self).wf(),
            create_outcome(old(self)@, final(self)@, id@, name@, item_count, hash_count, false_positive_rate, r),
    {
        if self.find_name(&name).is_some() {
            return Err(RegistryError::NameConflict);
        }
        if name.as_str().is_empty() || item_count < 1 {
            return Err(RegistryError::InvalidRequest);
        }
        let made: Option<(ProbabilisticSet, CreationMode)> = match (hash_count, false_positive_rate) {
            (Some(k), None) => {
                if k >= 1 {
                    Some((ProbabilisticSet::with_hash_count(item_count, k), CreationMode::HashCount(k)))
                } else {
                    None
                }
            },
            (None, Some(rate)) => {
                let bits = rate.rate_bits;
                if 0 < bits && bits < ONE_BITS {
                    match ProbabilisticSet::from_filter(rate.filter) {
                        Some(set) => Some((set, CreationMode::FalsePositiveRate(bits))),
                        None => None,
                    }
                } else {
                    None
                }
            },
            _ => None,
        };
        match made {
            None => Err(RegistryError::InvalidRequest),
            Some((set, mode)) => {
                let record = FilterContainer {
                    id: id.clone(),
                    name,
                    filter: set,
                    capacity: item_count,
                    creation_mode: mode,
                };
                let ghost before = self.records@;
                self.records.push(record);
                assert(self.records@.take(before.len() as int) =~= before);
                Ok(id)
            },
        }
    }

    /// An identifier that no record uses: a random one of 36 characters when
    /// one of a few draws is free, else the last draw extended past the length
    /// of every identifier in use.
    fn unused_id(&self) -> (r: String)
        requires
            self.wf(),
        ensures
            r@.len() >= 36,
            !has_id(self@, r@),
    {
        let mut draws: usize = 0;
        let mut id = fresh_id();
        while draws < 4 && self.find_id(&id).is_some()
            invariant
                id@.len() == 36,
            decreases 4 - draws,
        {
            id = fresh_id();
            draws = draws + 1;
        }
        if self.find_id(&id).is_none() {
            return id;
        }
        let mut i: usize = 0;
        while i < self.records.len()
            invariant
                i <= self.records@.len(),
                id@.len() >= 36,
                forall|j: int| 0 <= j < i ==> self.records@[j].id@.len() < id@.len(),
            decreases self.records@.len() - i,
        {
            id.append(self.records[i].id.as_str());
            i = i + 1;
        }
        assert forall|j: int| 0 <= j < self@.len() implies self@[j].id@ != id@ by {
            assert(self.records@[j].id@.len() < id@.len());
        }
        id
    }

    /// Registers a new filter named `name` under an identifier that no record
    /// uses (see `unused_id`), which it returns; see `create_outcome`.
    pub fn create(
        &mut self,
        name: String,
        item_count: usize,
        hash_count: Option<u32>,
        false_positive_rate: Option<RateSized>,
    ) -> (r: Result<String, RegistryError>)
        requires
            old(self).wf(),
        ensures
            final(self).wf(),
            exists|id: Seq<char>|
                id.len() >= 36 && !has_id(old(self)@, id) && create_outcome(
                    old(self)@,
                    final(self)@,
                    id,
                    name@,
                    item_count,
                    hash_count,
                    false_positive_rate,
                    r,
                ),
    {
        let id = self.unused_id();
        self.create_with_id(id, name, item_count, hash_count, false_positive_rate)
    }

    /// Removes the filter named `key`, or else the first one identified by
    /// `key`; see `delete_outcome`.
    pub fn delete(&mut self, key: &String) -> (r: Result<String, RegistryError>)
        requires
            old(self).wf(),
        ensures
            final(self).wf(),
            delete_outcome(old(self)@, final(self)@, key@, r),
    {
        match self.find_name(key) {
            Some(i) => {
                let c = self.records.remove(i);
                return Ok(c.name);
            },
            None => {},
        }
        match self.find_id(key) {
            Some(i) => {
                let c = self.records.remove(i);
                Ok(c.name)
            },
            None => Err(RegistryError::NotFound),
        }
    }

    /// A snapshot of every filter's identifier, name, capacity and sizing
    /// mode, in registration order.
    pub fn list(&self) -> (r: Vec<ListItem>)
        ensures
            r@.len() == self@.len(),
            forall|i: int| 0 <= i < r@.len() ==> listed(#[trigger] r@[i], self@[i]),
    {
        let mut out: Vec<ListItem> = Vec::new();
        let mut i: usize = 0;
        while i < self.records.len()
            invariant
                i <= self.records@.len(),
                out@.len() == i,
                forall|j: int| 0 <= j < i ==> listed(#[trigger] out@[j], self.records@[j]),
            decreases self.records@.len() - i,
        {
            let c = &self.records[i];
            out.push(ListItem {
                id: c.id.clone(),
                name: c.name.clone(),
                item_count: c.capacity,
                config: c.creation_mode,
            });
            i = i + 1;
        }
        out
    }

    /// Adds `item` to the filter named `name`.
    pub fn insert_item(&mut self, name: &String, item: &String) -> (r: Result<(), RegistryError>)
        requires
            old(self).wf(),
        ensures
            final(self).wf(),
            insert_outcome(old(self)@, final(self)@, name@, item@, r),
    {
        match self.find_name(name) {
            None => Err(RegistryError::NotFound),
            Some(i) => {
                let ghost before = self.records@;
                let mut c = self.records.remove(i);
                c.filter.insert(item);
                self.records.insert(i, c);
                assert(self.records@ =~= before.update(i as int, self.records@[i as int]));
                assert(named(before, name@, i as int));
                assert(filter_updated(before, self.records@, i as int));
                Ok(())
            },
        }
    }

    /// Whether the filter named `name` may hold `item`: always true when it
    /// was inserted since the filter was created or last cleared.
    pub fn contains_item(&self, name: &String, item: &String) -> (r: Result<bool, RegistryError>)
        requires
            self.wf(),
        ensures
            r is Ok <==> has_name(self@, name@),
            r is Err ==> r == Err::<bool, RegistryError>(RegistryError::NotFound),
            r matches Ok(b) ==> forall|i: int| #![trigger self@[i]] named(self@, name@, i) ==> {
                &&& b == self@[i].filter.accepts(item@)
                &&& self@[i].filter.inserted@.contains(item@) ==> b
            },
    {
        match self.find_name(name) {
            None => Err(RegistryError::NotFound),
            Some(i) => Ok(self.records[i].filter.contains(item)),
        }
    }

    /// Empties the filter named `name`, keeping its sizing.
    pub fn clear_filter(&mut self, name: &String) -> (r: Result<(), RegistryError>)
        requires
            old(self).wf(),
        ensures
            final(self).wf(),
            clear_outcome(old(self)@, final(self)@, name@, r),
    {
        match self.find_name(name) {
            None => Err(RegistryError::NotFound),
            Some(i) => {
                let ghost before = self.records@;
                let mut c = self.records.remove(i);
                c.filter.clear();
                self.records.insert(i, c);
                assert(self.records@ =~= before.update(i as int, self.records@[i as int]));
                assert(named(before, name@, i as int));
                assert(filter_updated(before, self.records@, i as int));
                Ok(())
            },
        }
    }
}

/// Name uniqueness: of two creations of the same name, one after the other,
/// at most one succeeds; once the first has succeeded the second meets
/// `NameConflict` and changes nothing.
pub proof fn create_same_name_twice(
    s0: Seq<FilterContainer>,
    s1: Seq<FilterContainer>,
    s2: Seq<FilterContainer>,
    name: Seq<char>,
    id1: Seq<char>,
    n1: usize,
    hash_count1: Option<u32>,
    rate1: Option<RateSized>,
    r1: Result<String, RegistryError>,
    id2: Seq<char>,
    n2: usize,
    hash_count2: Option<u32>,
    rate2: Option<RateSized>,
    r2: Result<String, RegistryError>,
)
    requires
        create_outcome(s0, s1, id1, name, n1, hash_count1, rate1, r1),
        create_outcome(s1, s2, id2, name, n2, hash_count2, rate2, r2),
    ensures
        !(r1 is Ok && r2 is Ok),
        r1 is Ok ==> r2 == Err::<String, RegistryError>(RegistryError::NameConflict) && s2 == s1,
{
    if r1 is Ok {
        if !has_name(s0, name) && requested_mode(n1, hash_count1, rate1) is Some {
            let i = s0.len() as int;
            assert(s1[i].name@ == name);
            assert(has_name(s1, name));
        }
    }
}

/// Delete-then-list: deleting the only registered filter leaves the registry
/// empty, so `list` then returns nothing.
pub proof fn delete_only_filter(
    s0: Seq<FilterContainer>,
    s1: Seq<FilterContainer>,
    key: Seq<char>,
    r: Result<String, RegistryError>,
)
    requires
        s0.len() == 1,
        delete_outcome(s0, s1, key, r),
        r is Ok,
    ensures
        s1 == Seq::<FilterContainer>::empty(),
{
    assert(s1 =~= Seq::<FilterContainer>::empty());
}

/// The record named `name`, if there is one, is still there, unchanged.
pub open spec fn keeps_record(before: Seq<FilterContainer>, after: Seq<FilterContainer>, name: Seq<char>) -> bool {
    forall|i: int| #![trigger before[i]] named(before, name, i) ==> exists|j: int| #![trigger after[j]] named(after, name, j) && after[j] == before[i]
}

/// The record named `name`, if there is one, is still there and still holds
/// every item inserted into it.
pub open spec fn keeps_inserted(before: Seq<FilterContainer>, after: Seq<FilterContainer>, name: Seq<char>) -> bool {
    forall|i: int| #![trigger before[i]] named(before, name, i) ==> exists|j: int|
        #![trigger after[j]]
        named(after, name, j) && before[i].filter.inserted@.subset_of(after[j].filter.inserted@)
}

/// A record left unchanged keeps what was inserted into it.
pub proof fn kept_record_keeps_inserted(before: Seq<FilterContainer>, after: Seq<FilterContainer>, name: Seq<char>)
    requires
        keeps_record(before, after, name),
    ensures
        keeps_inserted(before, after, name),
{
    assert forall|i: int| #![trigger before[i]] named(before, name, i) implies exists|j: int|
        #![trigger after[j]]
        named(after, name, j) && before[i].filter.inserted@.subset_of(after[j].filter.inserted@) by {
        let j = choose|j: int| #![trigger after[j]] named(after, name, j) && after[j] == before[i];
        assert(after[j] == before[i]);
    }
}

/// Inserting into any filter keeps what was inserted into every filter.
pub proof fn insert_keeps_inserted(
    before: Seq<FilterContainer>,
    after: Seq<FilterContainer>,
    name: Seq<char>,
    target: Seq<char>,
    item: Seq<char>,
    r: Result<(), RegistryError>,
)
    requires
        insert_outcome(before, after, target, item, r),
    ensures
        keeps_inserted(before, after, name),
{
    assert forall|i: int| #![trigger before[i]] named(before, name, i) implies exists|j: int|
        #![trigger after[j]]
        named(after, name, j) && before[i].filter.inserted@.subset_of(after[j].filter.inserted@) by {
        if r is Ok {
            let k = choose|k: int| {
                &&& named(before, target, k)
                &&& filter_updated(before, after, k)
                &&& after[k].filter.inserted@ == before[k].filter.inserted@.insert(item)
                &&& after[k].filter.accepts(item)
                &&& forall|x: Seq<char>| before[k].filter.accepts(x) ==> after[k].filter.accepts(x)
            };
            assert(after[i] == before.update(k, after[k])[i]);
            assert(named(after, name, i));
        } else {
            assert(after[i] == before[i]);
        }
    }
}

/// Inserting into another filter leaves the record named `name` unchanged.
pub proof fn insert_elsewhere_keeps_record(
    before: Seq<FilterContainer>,
    after: Seq<FilterContainer>,
    name: Seq<char>,
    target: Seq<char>,
    item: Seq<char>,
    r: Result<(), RegistryError>,
)
    requires
        insert_outcome(before, after, target, item, r),
        target != name,
    ensures
        keeps_record(before, after, name),
{
    assert forall|i: int| #![trigger before[i]] named(before, name, i) implies exists|j: int|
        #![trigger after[j]]
        named(after, name, j) && after[j] == before[i] by {
        if r is Ok {
            let k = choose|k: int| {
                &&& named(before, target, k)
                &&& filter_updated(before, after, k)
                &&& after[k].filter.inserted@ == before[k].filter.inserted@.insert(item)
                &&& after[k].filter.accepts(item)
                &&& forall|x: Seq<char>| before[k].filter.accepts(x) ==> after[k].filter.accepts(x)
            };
            assert(after[i] == before.update(k, after[k])[i]);
        }
        assert(after[i] == before[i]);
    }
}

/// Clearing another filter leaves the record named `name` unchanged.
pub proof fn clear_elsewhere_keeps_record(
    before: Seq<FilterContainer>,
    after: Seq<FilterContainer>,
    name: Seq<char>,
    target: Seq<char>,
    r: Result<(), RegistryError>,
)
    requires
        clear_outcome(before, after, target, r),
        target != name,
    ensures
        keeps_record(before, after, name),
{
    assert forall|i: int| #![trigger before[i]] named(before, name, i) implies exists|j: int|
        #![trigger after[j]]
        named(after, name, j) && after[j] == before[i] by {
        if r is Ok {
            let k = choose|k: int| {
                &&& named(before, target, k)
                &&& filter_updated(before, after, k)
                &&& after[k].filter.inserted@ == Set::<Seq<char>>::empty()
                &&& forall|x: Seq<char>| !after[k].filter.accepts(x)
            };
            assert(after[i] == before.update(k, after[k])[i]);
        }
        assert(after[i] == before[i]);
    }
}

/// Creating a filter leaves every existing record unchanged.
pub proof fn create_keeps_record(
    before: Seq<FilterContainer>,
    after: Seq<FilterContainer>,
    name: Seq<char>,
    id: Seq<char>,
    new_name: Seq<char>,
    n: usize,
    hash_count: Option<u32>,
    rate: Option<RateSized>,
    r: Result<String, RegistryError>,
)
    requires
        create_outcome(before, after, id, new_name, n, hash_count, rate, r),
    ensures
        keeps_record(before, after, name),
{
    assert forall|i: int| #![trigger before[i]] named(before, name, i) implies exists|j: int|
        #![trigger after[j]]
        named(after, name, j) && after[j] == before[i] by {
        if after != before {
            assert(after.take(before.len() as int)[i] == after[i]);
        }
        assert(after[i] == before[i]);
    }
}

/// Deleting another filter leaves the record named `name` unchanged.
pub proof fn delete_elsewhere_keeps_record(
    before: Seq<FilterContainer>,
    after: Seq<FilterContainer>,
    name: Seq<char>,
    key: Seq<char>,
    r: Result<String, RegistryError>,
)
    requires
        delete_outcome(before, after, key, r),
        r matches Ok(d) ==> d@ != name,
    ensures
        keeps_record(before, after, name),
{
    assert forall|i: int| #![trigger before[i]] named(before, name, i) implies exists|j: int|
        #![trigger after[j]]
        named(after, name, j) && after[j] == before[i] by {
        if r is Ok {
            let k = if has_name(before, key) {
                choose|k: int| 0 <= k < before.len() && before[k].name@ == key
                    && after == before.remove(k) && (r matches Ok(d) && d@ == key)
            } else {
                choose|k: int| first_id(before, key, k)
                    && after == before.remove(k) && (r matches Ok(d) && d@ == before[k].name@)
            };
            assert(i != k);
            if i < k {
                assert(after[i] == before[i]);
            } else {
                assert(after[i - 1] == before[i]);
            }
        } else {
            assert(after[i] == before[i]);
        }
    }
}

/// No false negatives across operations: once `x` is in the items inserted
/// into the filter named `name`, it is accepted after any run of operations
/// that each keep what was inserted into that filter (inserts anywhere,
/// lookups, creations, and clears or deletions of other filters).
pub proof fn no_false_negatives(states: Seq<Seq<FilterContainer>>, name: Seq<char>, x: Seq<char>, i0: int)
    requires
        states.len() >= 1,
        forall|t: int| 0 <= t < states.len() - 1 ==> keeps_inserted(#[trigger] states[t], states[t + 1], name),
        records_wf(states.last()),
        named(states[0], name, i0),
        states[0][i0].filter.inserted@.contains(x),
    ensures
        exists|j: int| named(states.last(), name, j) && (#[trigger] states.last()[j]).filter.accepts(x),
    decreases states.len(),
{
    if states.len() == 1 {
        crate::filter::inserted_items_are_accepted(states[0][i0].filter, x);
        assert(states.last()[i0].filter.accepts(x));
    } else {
        let s0 = states[0];
        assert(keeps_inserted(states[0], states[1], name));
        assert(s0[i0] == states[0][i0]);
        let j1 = choose|j: int| #![trigger states[1][j]] named(states[1], name, j)
            && s0[i0].filter.inserted@.subset_of(states[1][j].filter.inserted@);
        let rest = states.subrange(1, states.len() as int);
        assert forall|t: int| 0 <= t < rest.len() - 1 implies keeps_inserted(#[trigger] rest[t], rest[t + 1], name) by {
            assert(rest[t] == states[t + 1] && rest[t + 1] == states[t + 2]);
            assert(keeps_inserted(states[t + 1], states[t + 2], name));
        }
        assert(rest.last() == states.last());
        assert(rest[0] == states[1]);
        no_false_negatives(rest, name, x, j1);
    }
}

/// Clear resets membership across operations: once the filter named `name`
/// accepts nothing (as right after `clear_filter`), it still accepts nothing
/// after any run of operations that each leave that record unchanged (lookups,
/// creations, and inserts, clears or deletions of other filters).
pub proof fn cleared_stays_empty(states: Seq<Seq<FilterContainer>>, name: Seq<char>, x: Seq<char>, i0: int)
    requires
        states.len() >= 1,
        forall|t: int| 0 <= t < states.len() - 1 ==> keeps_record(#[trigger] states[t], states[t + 1], name),
        named(states[0], name, i0),
        forall|y: Seq<char>| !states[0][i0].filter.accepts(y),
    ensures
        exists|j: int| named(states.last(), name, j) && !(#[trigger] states.last()[j]).filter.accepts(x),
    decreases states.len(),
{
    if states.len() == 1 {
        assert(!states.last()[i0].filter.accepts(x));
    } else {
        let s0 = states[0];
        assert(keeps_record(states[0], states[1], name));
        assert(s0[i0] == states[0][i0]);
        let j1 = choose|j: int| #![trigger states[1][j]] named(states[1], name, j) && states[1][j] == s0[i0];
        let rest = states.subrange(1, states.len() as int);
        assert forall|t: int| 0 <= t < rest.len() - 1 implies keeps_record(#[trigger] rest[t], rest[t + 1], name) by {
            assert(rest[t] == states[t + 1] && rest[t + 1] == states[t + 2]);
            assert(keeps_record(states[t + 1], states[t + 2], name));
        }
        assert(rest.last() == states.last());
        assert(rest[0] == states[1]);
        cleared_stays_empty(rest, name, x, j1);
    }
}

/// Sizing determinism: two successful creations from the same capacity and
/// hash count give filters with that same hash count. (The bit-array size is
/// computed and kept inside the filter, which does not expose it.)
pub proof fn same_sizing_same_hash_count(
    before1: Seq<FilterContainer>,
    after1: Seq<FilterContainer>,
    id1: Seq<char>,
    name1: Seq<char>,
    r1: Result<String, RegistryError>,
    before2: Seq<FilterContainer>,
    after2: Seq<FilterContainer>,
    id2: Seq<char>,
    name2: Seq<char>,
    r2: Result<String, RegistryError>,
    n: usize,
    k: u32,
)
    requires
        create_outcome(before1, after1, id1, name1, n, Some(k), None, r1),
        create_outcome(before2, after2, id2, name2, n, Some(k), None, r2),
        r1 is Ok,
        r2 is Ok,
    ensures
        after1.last().filter.hashes() == k,
        after2.last().filter.hashes() == k,
{
}

} // verus!
