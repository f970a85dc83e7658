//! Stream metadata: the system properties of a stream, its access control
//! list and user-defined properties, and the builder that makes it.

use vstd::prelude::*;
use std::time::Duration;

verus! {

/// Represents an access control list for a stream.
#[derive(Debug)]
pub struct StreamAcl {
    /// Roles and users permitted to read the stream.
    pub read_roles: Option<Vec<String>>,
    /// Roles and users permitted to write to the stream.
    pub write_roles: Option<Vec<String>>,
    /// Roles and users permitted to delete to the stream.
    pub delete_roles: Option<Vec<String>>,
    /// Roles and users permitted to read stream metadata.
    pub meta_read_roles: Option<Vec<String>>,
    /// Roles and users permitted to write stream metadata.
    pub meta_write_roles: Option<Vec<String>>,
}

impl StreamAcl {
    /// An access control list that sets no roles.
    pub open spec fn is_unset(self) -> bool {
        &&& self.read_roles is None
        &&& self.write_roles is None
        &&& self.delete_roles is None
        &&& self.meta_read_roles is None
        &&& self.meta_write_roles is None
    }
}

impl Default for StreamAcl {
    fn default() -> (r: Self)
        ensures
            r.is_unset(),
    {
        StreamAcl {
            read_roles: None,
            write_roles: None,
            delete_roles: None,
            meta_read_roles: None,
            meta_write_roles: None,
        }
    }
}

/// The map the entries of a property list stand for: later entries win.
pub open spec fn entries_map(entries: Seq<(String, serde_json::Value)>) -> Map<
    Seq<char>,
    serde_json::Value,
>
    decreases entries.len(),
{
    if entries.len() == 0 {
        Map::empty()
    } else {
        entries_map(entries.drop_last()).insert(entries.last().0@, entries.last().1)
    }
}

/// No two entries have the same key.
pub open spec fn keys_distinct(entries: Seq<(String, serde_json::Value)>) -> bool {
    forall|i: int, j: int|
        0 <= i < entries.len() && 0 <= j < entries.len() && i != j ==> #[trigger] entries[i].0@
            != #[trigger] entries[j].0@
}

/// The keys of the map are the keys of the entries.
proof fn lemma_entries_map_dom(entries: Seq<(String, serde_json::Value)>, k: Seq<char>)
    ensures
        entries_map(entries).contains_key(k) <==> exists|i: int|
            0 <= i < entries.len() && #[trigger] entries[i].0@ == k,
    decreases entries.len(),
{
    if entries.len() > 0 {
        let init = entries.drop_last();
        lemma_entries_map_dom(init, k);
        if entries_map(init).contains_key(k) {
            let i = choose|i: int| 0 <= i < init.len() && #[trigger] init[i].0@ == k;
            assert(entries[i].0@ == k);
        }
        if exists|i: int| 0 <= i < entries.len() && #[trigger] entries[i].0@ == k {
            let i = choose|i: int| 0 <= i < entries.len() && #[trigger] entries[i].0@ == k;
            if i < entries.len() - 1 {
                assert(init[i].0@ == k);
            }
        }
    }
}

/// With distinct keys, each entry's key maps to that entry's value.
proof fn lemma_entries_map_value(entries: Seq<(String, serde_json::Value)>, i: int)
    requires
        keys_distinct(entries),
        0 <= i < entries.len(),
    ensures
        entries_map(entries).contains_key(entries[i].0@),
        entries_map(entries)[entries[i].0@] == entries[i].1,
    decreases entries.len(),
{
    let init = entries.drop_last();
    if i < entries.len() - 1 {
        assert(keys_distinct(init)) by {
            assert forall|a: int, b: int|
                0 <= a < init.len() && 0 <= b < init.len() && a != b implies #[trigger] init[a].0@
                != #[trigger] init[b].0@ by {
                assert(entries[a].0@ != entries[b].0@);
            }
        }
        lemma_entries_map_value(init, i);
        assert(entries[i].0@ != entries.last().0@);
    }
}

/// Replacing the entry of a key replaces that key's value in the map.
proof fn lemma_entries_map_update(
    entries: Seq<(String, serde_json::Value)>,
    i: int,
    e: (String, serde_json::Value),
)
    requires
        keys_distinct(entries),
        0 <= i < entries.len(),
        entries[i].0@ == e.0@,
    ensures
        keys_distinct(entries.update(i, e)),
        entries_map(entries.update(i, e)) == entries_map(entries).insert(e.0@, e.1),
{
    let upd = entries.update(i, e);
    assert(keys_distinct(upd)) by {
        assert forall|a: int, b: int|
            0 <= a < upd.len() && 0 <= b < upd.len() && a != b implies #[trigger] upd[a].0@
            != #[trigger] upd[b].0@ by {
            assert(entries[a].0@ != entries[b].0@);
        }
    }
    let lhs = entries_map(upd);
    let rhs = entries_map(entries).insert(e.0@, e.1);
    assert forall|k: Seq<char>| lhs.contains_key(k) <==> rhs.contains_key(k) by {
        lemma_entries_map_dom(upd, k);
        lemma_entries_map_dom(entries, k);
        if exists|j: int| 0 <= j < entries.len() && #[trigger] entries[j].0@ == k {
            let j = choose|j: int| 0 <= j < entries.len() && #[trigger] entries[j].0@ == k;
            if j == i {
                assert(upd[i].0@ == k);
            } else {
                assert(upd[j].0@ == k);
            }
        }
        if exists|j: int| 0 <= j < upd.len() && #[trigger] upd[j].0@ == k {
            let j = choose|j: int| 0 <= j < upd.len() && #[trigger] upd[j].0@ == k;
            if j != i {
                assert(entries[j].0@ == k);
            }
        }
    }
    assert forall|k: Seq<char>| #[trigger] lhs.contains_key(k) implies lhs[k] == rhs[k] by {
        lemma_entries_map_dom(upd, k);
        let j = choose|j: int| 0 <= j < upd.len() && #[trigger] upd[j].0@ == k;
        lemma_entries_map_value(upd, j);
        if j != i {
            lemma_entries_map_value(entries, j);
        }
    }
    assert(lhs =~= rhs);
}

/// User-defined properties of a stream: JSON values by name.
#[derive(Debug)]
pub struct CustomProperties {
    entries: Vec<(String, serde_json::Value)>,
}

impl View for CustomProperties {
    type V = Map<Seq<char>, serde_json::Value>;

    closed spec fn view(&self) -> Map<Seq<char>, serde_json::Value> {
        entries_map(self.entries@)
    }
}

impl CustomProperties {
    #[verifier::type_invariant]
    closed spec fn distinct(self) -> bool {
        keys_distinct(self.entries@)
    }

    pub fn new() -> (r: CustomProperties)
        ensures
            r@ == Map::<Seq<char>, serde_json::Value>::empty(),
    {
        CustomProperties { entries: Vec::new() }
    }

    /// The number of properties.
    pub fn len(&self) -> (r: usize)
        ensures
            r == self@.len(),
    {
        proof {
            use_type_invariant(self);
            lemma_distinct_len(self.entries@);
        }
        self.entries.len()
    }

    /// The value of the property `key`, if there is one.
    pub fn get(&self, key: &String) -> (r: Option<&serde_json::Value>)
        ensures
            r is Some <==> self@.contains_key(key@),
            r matches Some(v) ==> self@[key@] == *v,
    {
        proof {
            use_type_invariant(self);
        }
        let mut i: usize = 0;
        while i < self.entries.len()
            invariant
                i <= self.entries@.len(),
                keys_distinct(self.entries@),
                forall|j: int| 0 <= j < i ==> #[trigger] self.entries@[j].0@ != key@,
            decreases self.entries@.len() - i,
        {
            if self.entries[i].0 == *key {
                proof {
                    lemma_entries_map_value(self.entries@, i as int);
                }
                return Some(&self.entries[i].1);
            }
            i = i + 1;
        }
        proof {
            lemma_entries_map_dom(self.entries@, key@);
        }
        None
    }

    /// Sets the property `key` to `value`, and gives back the value it had.
    pub fn insert(&mut self, key: String, value: serde_json::Value) -> (r: Option<
        serde_json::Value,
    >)
        ensures
            final(self)@ == old(self)@.insert(key@, value),
            r is Some <==> old(self)@.contains_key(key@),
            r matches Some(v) ==> old(self)@[key@] == v,
    {
        proof {
            use_type_invariant(&*self);
        }
        let ghost before = self.entries@;
        let mut entries: Vec<(String, serde_json::Value)> = Vec::new();
        std::mem::swap(&mut entries, &mut self.entries);
        let mut i: usize = 0;
        while i < entries.len()
            invariant
                i <= entries@.len(),
                entries@ == before,
                old(self)@ == entries_map(before),
                keys_distinct(before),
                forall|j: int| 0 <= j < i ==> #[trigger] before[j].0@ != key@,
            decreases entries@.len() - i,
        {
            if entries[i].0 == key {
                proof {
                    lemma_entries_map_value(before, i as int);
                    lemma_entries_map_update(before, i as int, (key, value));
                }
                let ghost e = (key, value);
                let old_entry = entries.remove(i);
                entries.insert(i, (key, value));
                assert(entries@ =~= before.update(i as int, e));
                self.entries = entries;
                return Some(old_entry.1);
            }
            i = i + 1;
        }
        proof {
            lemma_entries_map_dom(before, key@);
            assert(keys_distinct(before.push((key, value)))) by {
                let e = before.push((key, value));
                assert forall|a: int, b: int|
                    0 <= a < e.len() && 0 <= b < e.len() && a != b implies #[trigger] e[a].0@
                    != #[trigger] e[b].0@ by {
                    if a < before.len() && b < before.len() {
                        assert(before[a].0@ != before[b].0@);
                    }
                }
            }
            assert(before.push((key, value)).drop_last() =~= before);
        }
        entries.push((key, value));
        self.entries = entries;
        None
    }
}

/// With distinct keys, the map has as many keys as there are entries.
proof fn lemma_distinct_len(entries: Seq<(String, serde_json::Value)>)
    requires
        keys_distinct(entries),
    ensures
        entries_map(entries).len() == entries.len(),
        entries_map(entries).dom().finite(),
    decreases entries.len(),
{
    if entries.len() > 0 {
        let init = entries.drop_last();
        assert(keys_distinct(init)) by {
            assert forall|a: int, b: int|
                0 <= a < init.len() && 0 <= b < init.len() && a != b implies #[trigger] init[a].0@
                != #[trigger] init[b].0@ by {
                assert(entries[a].0@ != entries[b].0@);
            }
        }
        lemma_distinct_len(init);
        lemma_entries_map_dom(init, entries.last().0@);
        if entries_map(init).contains_key(entries.last().0@) {
            let i = choose|i: int| 0 <= i < init.len() && #[trigger] init[i].0@ == entries.last().0@;
            assert(entries[i].0@ != entries[entries.len() - 1].0@);
        }
    }
}

/// Properties inserted one after the other, as repeated calls of
/// [`StreamMetadataBuilder::insert_custom_property`] on a fresh builder insert
/// them (each call adds one entry to what the map stands for), give each key
/// the value of its last insertion, and no other key.
pub proof fn lemma_inserted_properties(pairs: Seq<(String, serde_json::Value)>)
    ensures
        forall|p: (String, serde_json::Value)|
            #[trigger] entries_map(pairs.push(p)) == entries_map(pairs).insert(p.0@, p.1),
        forall|k: Seq<char>|
            #[trigger] entries_map(pairs).contains_key(k) <==> exists|i: int|
                0 <= i < pairs.len() && #[trigger] pairs[i].0@ == k,
        forall|i: int|
            0 <= i < pairs.len() && (forall|j: int| i < j < pairs.len() ==> pairs[j].0@ != pairs[i].0@)
                ==> entries_map(pairs)[#[trigger] pairs[i].0@] == pairs[i].1,
    decreases pairs.len(),
{
    assert forall|p: (String, serde_json::Value)|
        #[trigger] entries_map(pairs.push(p)) == entries_map(pairs).insert(p.0@, p.1) by {
        assert(pairs.push(p).drop_last() =~= pairs);
    }
    assert forall|k: Seq<char>|
        #[trigger] entries_map(pairs).contains_key(k) <==> exists|i: int|
            0 <= i < pairs.len() && #[trigger] pairs[i].0@ == k by {
        lemma_entries_map_dom(pairs, k);
    }
    if pairs.len() > 0 {
        let init = pairs.drop_last();
        let n = pairs.len() - 1;
        lemma_inserted_properties(init);
        assert forall|i: int|
            0 <= i < pairs.len() && (forall|j: int| i < j < pairs.len() ==> pairs[j].0@ != pairs[i].0@)
                implies entries_map(pairs)[#[trigger] pairs[i].0@] == pairs[i].1 by {
            if i < n {
                assert(pairs[n].0@ != pairs[i].0@);
                assert(init[i] == pairs[i]);
                assert forall|j: int| i < j < init.len() implies init[j].0@ != init[i].0@ by {
                    assert(init[j] == pairs[j]);
                }
            }
        }
    }
}

/// Represents stream metadata with strongly typed properties for system
/// values and a dictionary-like interface for custom values.
#[derive(Debug)]
pub struct StreamMetadata {
    /// A sliding window based on the number of items in the stream.
    pub max_count: Option<u64>,
    /// A sliding window based on dates.
    pub max_age: Option<Duration>,
    /// The event number from which previous events can be scavenged.
    pub truncate_before: Option<u64>,
    /// Controls the cache of the head of a stream.
    pub cache_control: Option<Duration>,
    /// The access control list for the stream.
    pub acl: StreamAcl,
    /// User-provided metadata.
    pub custom_properties: CustomProperties,
}

impl Default for StreamMetadata {
    fn default() -> (r: Self)
        ensures
            r.max_count is None,
            r.max_age is None,
            r.truncate_before is None,
            r.cache_control is None,
            r.acl.is_unset(),
            r.custom_properties@ == Map::<Seq<char>, serde_json::Value>::empty(),
    {
        StreamMetadata {
            max_count: None,
            max_age: None,
            truncate_before: None,
            cache_control: None,
            acl: StreamAcl::default(),
            custom_properties: CustomProperties::new(),
        }
    }
}

impl StreamMetadata {
    /// Initializes a fresh stream metadata builder.
    pub fn builder() -> (r: StreamMetadataBuilder)
        ensures
            r.is_empty(),
    {
        StreamMetadataBuilder::new()
    }
}

/// `after` is `before` with the property `key` set to `value`, and nothing
/// else changed.
pub open spec fn property_inserted(
    before: StreamMetadataBuilder,
    key: String,
    value: serde_json::Value,
    after: StreamMetadataBuilder,
) -> bool {
    &&& after.properties@ == before.properties@.insert(key@, value)
    &&& after.max_count == before.max_count
    &&& after.max_age == before.max_age
    &&& after.truncate_before == before.truncate_before
    &&& after.cache_control == before.cache_control
    &&& after.acl == before.acl
}

/// `m` is the metadata builder `b` describes: its fields, its ACL or one
/// that sets no roles, and its properties.
pub open spec fn built_from(b: StreamMetadataBuilder, m: StreamMetadata) -> bool {
    &&& m.max_count == b.max_count
    &&& m.max_age == b.max_age
    &&& m.truncate_before == b.truncate_before
    &&& m.cache_control == b.cache_control
    &&& (b.acl matches Some(a) ==> m.acl == a)
    &&& (b.acl is None ==> m.acl.is_unset())
    &&& m.custom_properties@ == b.properties@
}

/// A chain of builders, each made from the one before by
/// `insert_custom_property` with the pair at its place in `pairs`.
pub open spec fn insertion_chain(
    steps: Seq<StreamMetadataBuilder>,
    pairs: Seq<(String, serde_json::Value)>,
) -> bool {
    &&& steps.len() == pairs.len() + 1
    &&& forall|i: int|
        0 <= i < pairs.len() ==> property_inserted(
            #[trigger] steps[i],
            pairs[i].0,
            pairs[i].1,
            steps[i + 1],
        )
}

/// Along an insertion chain, the properties are those of the first builder
/// with the pairs inserted so far, and the other fields do not change.
proof fn lemma_insertion_chain_prefix(
    steps: Seq<StreamMetadataBuilder>,
    pairs: Seq<(String, serde_json::Value)>,
    n: int,
)
    requires
        insertion_chain(steps, pairs),
        steps[0].properties@ == Map::<Seq<char>, serde_json::Value>::empty(),
        0 <= n <= pairs.len(),
    ensures
        steps[n].properties@ == entries_map(pairs.take(n)),
        steps[n].max_count == steps[0].max_count,
        steps[n].max_age == steps[0].max_age,
        steps[n].truncate_before == steps[0].truncate_before,
        steps[n].cache_control == steps[0].cache_control,
        steps[n].acl == steps[0].acl,
    decreases n,
{
    if n == 0 {
        assert(entries_map(pairs.take(0)) =~= Map::<Seq<char>, serde_json::Value>::empty());
    } else {
        lemma_insertion_chain_prefix(steps, pairs, n - 1);
        assert(property_inserted(steps[n - 1], pairs[n - 1].0, pairs[n - 1].1, steps[n]));
        assert(pairs.take(n).drop_last() =~= pairs.take(n - 1));
    }
}

/// Metadata built by a fresh builder given a maximum count `c`, a maximum
/// age `a`, a truncation point `t` and a cache control `cc`, then the
/// custom properties `pairs` one after the other, and no ACL: it has those
/// four values, an ACL that sets no roles, and each key of `pairs` with the
/// value of its last insertion, and no other key.
pub proof fn lemma_builder_insertions(
    c: u64,
    a: Duration,
    t: u64,
    cc: Duration,
    pairs: Seq<(String, serde_json::Value)>,
    steps: Seq<StreamMetadataBuilder>,
    m: StreamMetadata,
)
    requires
        steps.len() > 0,
        steps[0] == (StreamMetadataBuilder {
            max_count: Some(c),
            max_age: Some(a),
            truncate_before: Some(t),
            cache_control: Some(cc),
            ..steps[0]
        }),
        steps[0].acl is None,
        steps[0].properties@ == Map::<Seq<char>, serde_json::Value>::empty(),
        insertion_chain(steps, pairs),
        built_from(steps.last(), m),
    ensures
        m.max_count == Some(c),
        m.max_age == Some(a),
        m.truncate_before == Some(t),
        m.cache_control == Some(cc),
        m.acl.is_unset(),
        forall|k: Seq<char>|
            #[trigger] m.custom_properties@.contains_key(k) <==> exists|i: int|
                0 <= i < pairs.len() && #[trigger] pairs[i].0@ == k,
        forall|i: int|
            0 <= i < pairs.len() && (forall|j: int| i < j < pairs.len() ==> pairs[j].0@ != pairs[i].0@)
                ==> m.custom_properties@[#[trigger] pairs[i].0@] == pairs[i].1,
{
    let n = pairs.len() as int;
    lemma_insertion_chain_prefix(steps, pairs, n);
    assert(pairs.take(n) =~= pairs);
    lemma_inserted_properties(pairs);
}

/// Used to facilitate the creation of a stream's metadata.
#[derive(Debug)]
pub struct StreamMetadataBuilder {
    pub max_count: Option<u64>,
    pub max_age: Option<Duration>,
    pub truncate_before: Option<u64>,
    pub cache_control: Option<Duration>,
    pub acl: Option<StreamAcl>,
    pub properties: CustomProperties,
}

impl Default for StreamMetadataBuilder {
    fn default() -> (r: Self)
        ensures
            r.is_empty(),
    {
        StreamMetadataBuilder {
            max_count: None,
            max_age: None,
            truncate_before: None,
            cache_control: None,
            acl: None,
            properties: CustomProperties::new(),
        }
    }
}

impl StreamMetadataBuilder {
    /// A builder that sets nothing.
    pub open spec fn is_empty(self) -> bool {
        &&& self.max_count is None
        &&& self.max_age is None
        &&& self.truncate_before is None
        &&& self.cache_control is None
        &&& self.acl is None
        &&& self.properties@ == Map::<Seq<char>, serde_json::Value>::empty()
    }

    /// Creates a builder initialized with default values.
    pub fn new() -> (r: StreamMetadataBuilder)
        ensures
            r.is_empty(),
    {
        StreamMetadataBuilder::default()
    }

    /// Sets a sliding window based on the number of items in the stream.
    pub fn max_count(self, value: u64) -> (r: StreamMetadataBuilder)
        ensures
            r == (StreamMetadataBuilder { max_count: Some(value), ..self }),
    {
        StreamMetadataBuilder { max_count: Some(value), ..self }
    }

    /// Sets a sliding window based on dates.
    pub fn max_age(self, value: Duration) -> (r: StreamMetadataBuilder)
        ensures
            r == (StreamMetadataBuilder { max_age: Some(value), ..self }),
    {
        StreamMetadataBuilder { max_age: Some(value), ..self }
    }

    /// Sets the event number from which previous events can be scavenged.
    pub fn truncate_before(self, value: u64) -> (r: StreamMetadataBuilder)
        ensures
            r == (StreamMetadataBuilder { truncate_before: Some(value), ..self }),
    {
        StreamMetadataBuilder { truncate_before: Some(value), ..self }
    }

    /// Controls the cache of the head of a stream.
    pub fn cache_control(self, value: Duration) -> (r: StreamMetadataBuilder)
        ensures
            r == (StreamMetadataBuilder { cache_control: Some(value), ..self }),
    {
        StreamMetadataBuilder { cache_control: Some(value), ..self }
    }

    /// Sets the ACL of a stream.
    pub fn acl(self, value: StreamAcl) -> (r: StreamMetadataBuilder)
        ensures
            r == (StreamMetadataBuilder { acl: Some(value), ..self }),
    {
        StreamMetadataBuilder { acl: Some(value), ..self }
    }

    /// Adds a user-defined property, replacing one with the same key.
    pub fn insert_custom_property(self, key: String, value: serde_json::Value) -> (r:
        StreamMetadataBuilder)
        ensures
            property_inserted(self, key, value, r),
    {
        let mut this = self;
        let _ = this.properties.insert(key, value);
        this
    }

    /// Returns the metadata the builder describes; an unset ACL sets no
    /// roles.
    pub fn build(self) -> (r: StreamMetadata)
        ensures
            built_from(self, r),
    {
        let acl = match self.acl {
            Some(a) => a,
            None => StreamAcl::default(),
        };
        StreamMetadata {
            max_count: self.max_count,
            max_age: self.max_age,
            truncate_before: self.truncate_before,
            cache_control: self.cache_control,
            acl,
            custom_properties: self.properties,
        }
    }
}

} // verus!
