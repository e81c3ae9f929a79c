//! A map from text, kept in the order of its keys.

use vstd::prelude::*;
use vstd::string::*;
use vstd::utf8::{encode_utf8, encode_utf8_decode_utf8};

verus! {

/// The order of byte strings: at the first byte where they differ, the smaller one comes
/// first, and a proper prefix comes before what it begins.
pub open spec fn precedes(a: Seq<u8>, b: Seq<u8>) -> bool
    decreases a.len(),
{
    if b.len() == 0 {
        false
    } else if a.len() == 0 {
        true
    } else {
        a[0] < b[0] || a[0] == b[0] && precedes(a.drop_first(), b.drop_first())
    }
}

/// Any two byte strings are equal or one comes before the other, and never both.
pub proof fn lemma_order_is_total(a: Seq<u8>, b: Seq<u8>)
    ensures
        precedes(a, b) || a == b || precedes(b, a),
        !(precedes(a, b) && precedes(b, a)),
        precedes(a, b) ==> a != b,
    decreases a.len(),
{
    if a.len() > 0 && b.len() > 0 {
        lemma_order_is_total(a.drop_first(), b.drop_first());
        if a[0] == b[0] && a.drop_first() == b.drop_first() {
            assert(a =~= seq![a[0]] + a.drop_first());
            assert(b =~= seq![b[0]] + b.drop_first());
        }
    } else if a.len() == 0 && b.len() == 0 {
        assert(a =~= b);
    }
}

pub proof fn lemma_order_is_transitive(a: Seq<u8>, b: Seq<u8>, c: Seq<u8>)
    requires
        precedes(a, b),
        precedes(b, c),
    ensures
        precedes(a, c),
    decreases a.len(),
{
    if a.len() > 0 && b.len() > 0 && c.len() > 0 && a[0] == b[0] && b[0] == c[0] {
        lemma_order_is_transitive(a.drop_first(), b.drop_first(), c.drop_first());
    }
}

/// How two byte strings stand to each other.
#[derive(Clone, Copy, Debug, PartialEq, Eq, Structural)]
pub enum Placement {
    Before,
    Same,
    After,
}

proof fn lemma_skip_common(a: Seq<u8>, b: Seq<u8>, i: int)
    requires
        0 <= i <= a.len(),
        i <= b.len(),
        forall|j: int| 0 <= j < i ==> a[j] == b[j],
    ensures
        precedes(a, b) == precedes(a.skip(i), b.skip(i)),
        precedes(b, a) == precedes(b.skip(i), a.skip(i)),
    decreases i,
{
    if i == 0 {
        assert(a.skip(0) =~= a);
        assert(b.skip(0) =~= b);
    } else {
        lemma_skip_common(a.drop_first(), b.drop_first(), i - 1);
        assert(a.drop_first().skip(i - 1) =~= a.skip(i));
        assert(b.drop_first().skip(i - 1) =~= b.skip(i));
    }
}

/// Places one byte string against another.
pub fn place_bytes(a: &[u8], b: &[u8]) -> (placement: Placement)
    ensures
        placement == Placement::Before <==> precedes(a@, b@),
        placement == Placement::Same <==> a@ == b@,
        placement == Placement::After <==> precedes(b@, a@),
{
    proof {
        lemma_order_is_total(a@, b@);
        lemma_order_is_total(b@, a@);
    }
    let mut i: usize = 0;
    while i < a.len() && i < b.len()
        invariant
            i <= a.len(),
            i <= b.len(),
            forall|j: int| 0 <= j < i ==> a@[j] == b@[j],
            !(precedes(a@, b@) && precedes(b@, a@)),
            precedes(a@, b@) ==> a@ != b@,
            precedes(b@, a@) ==> a@ != b@,
        decreases a.len() - i,
    {
        if a[i] != b[i] {
            proof {
                lemma_skip_common(a@, b@, i as int);
            }
            return if a[i] < b[i] {
                Placement::Before
            } else {
                Placement::After
            };
        }
        i += 1;
    }
    proof {
        lemma_skip_common(a@, b@, i as int);
        if a@.len() == b@.len() {
            assert(a@ =~= b@);
        }
    }
    if a.len() < b.len() {
        Placement::Before
    } else if a.len() == b.len() {
        Placement::Same
    } else {
        Placement::After
    }
}

/// The order of text: that of its UTF-8 bytes.
pub open spec fn text_precedes(a: Seq<char>, b: Seq<char>) -> bool {
    precedes(encode_utf8(a), encode_utf8(b))
}

/// Places one text against another.
pub fn place_text(a: &str, b: &str) -> (placement: Placement)
    ensures
        placement == Placement::Before <==> text_precedes(a@, b@),
        placement == Placement::Same <==> a@ == b@,
        placement == Placement::After <==> text_precedes(b@, a@),
{
    proof {
        encode_utf8_decode_utf8(a@);
        encode_utf8_decode_utf8(b@);
    }
    place_bytes(a.as_bytes(), b.as_bytes())
}

/// Whether the keys ascend.
pub open spec fn ascending<V>(entries: Seq<(Seq<char>, V)>) -> bool {
    forall|i: int, j: int|
        0 <= i < j < entries.len() ==> text_precedes(
            (#[trigger] entries[i]).0,
            (#[trigger] entries[j]).0,
        )
}

/// Whether some entry has the key.
pub open spec fn has_key<V>(entries: Seq<(Seq<char>, V)>, key: Seq<char>) -> bool {
    exists|i: int| 0 <= i < entries.len() && (#[trigger] entries[i]).0 == key
}

/// The place of the key among the entries.
pub open spec fn key_index<V>(entries: Seq<(Seq<char>, V)>, key: Seq<char>) -> int {
    choose|i: int| 0 <= i < entries.len() && (#[trigger] entries[i]).0 == key
}

/// The map that the entries make up.
pub open spec fn entries_map<V>(entries: Seq<(Seq<char>, V)>) -> Map<Seq<char>, V> {
    Map::new(
        |key: Seq<char>| has_key(entries, key),
        |key: Seq<char>| entries[key_index(entries, key)].1,
    )
}

/// Ascending keys do not repeat.
pub proof fn lemma_ascending_keys_differ<V>(entries: Seq<(Seq<char>, V)>, i: int, j: int)
    requires
        ascending(entries),
        0 <= i < entries.len(),
        0 <= j < entries.len(),
        entries[i].0 == entries[j].0,
    ensures
        i == j,
{
    lemma_order_is_total(encode_utf8(entries[i].0), encode_utf8(entries[j].0));
    if i < j {
        assert(text_precedes(entries[i].0, entries[j].0));
    } else if j < i {
        assert(text_precedes(entries[j].0, entries[i].0));
    }
}

pub proof fn lemma_entry_in_map<V>(entries: Seq<(Seq<char>, V)>, i: int)
    requires
        ascending(entries),
        0 <= i < entries.len(),
    ensures
        entries_map(entries).contains_key(entries[i].0),
        entries_map(entries)[entries[i].0] == entries[i].1,
{
    let key = entries[i].0;
    assert(has_key(entries, key));
    lemma_ascending_keys_differ(entries, i, key_index(entries, key));
}

/// Ascending entries are determined by the map that they make up.
pub proof fn law_map_determines_entries<V>(a: Seq<(Seq<char>, V)>, b: Seq<(Seq<char>, V)>)
    requires
        ascending(a),
        ascending(b),
        entries_map(a) == entries_map(b),
    ensures
        a == b,
    decreases a.len(),
{
    if a.len() == 0 {
        if b.len() > 0 {
            lemma_entry_in_map(b, 0);
            assert(entries_map(a).contains_key(b[0].0));
        }
        assert(a =~= b);
    } else {
        lemma_entry_in_map(a, a.len() - 1);
        let last = a.last();
        assert(entries_map(b).contains_key(last.0));
        let k = key_index(b, last.0);
        lemma_entry_in_map(b, b.len() - 1);
        assert(entries_map(a).contains_key(b.last().0));
        let m = key_index(a, b.last().0);
        if k < b.len() - 1 {
            assert(text_precedes(b[k].0, b[b.len() - 1].0));
            lemma_order_is_total(encode_utf8(last.0), encode_utf8(b.last().0));
            if m < a.len() - 1 {
                assert(text_precedes(a[m].0, a[a.len() - 1].0));
            }
            assert(false);
        }
        lemma_entry_in_map(b, k);
        let a0 = a.drop_last();
        let b0 = b.drop_last();
        assert(ascending(a0)) by {
            assert forall|i: int, j: int| 0 <= i < j < a0.len() implies text_precedes(
                (#[trigger] a0[i]).0,
                (#[trigger] a0[j]).0,
            ) by {
                assert(text_precedes(a[i].0, a[j].0));
            }
        }
        assert(ascending(b0)) by {
            assert forall|i: int, j: int| 0 <= i < j < b0.len() implies text_precedes(
                (#[trigger] b0[i]).0,
                (#[trigger] b0[j]).0,
            ) by {
                assert(text_precedes(b[i].0, b[j].0));
            }
        }
        lemma_drop_last_map(a);
        lemma_drop_last_map(b);
        law_map_determines_entries(a0, b0);
        assert(a =~= a0.push(last));
        assert(b =~= b0.push(b.last()));
    }
}

pub proof fn lemma_drop_last_map<V>(entries: Seq<(Seq<char>, V)>)
    requires
        ascending(entries),
        entries.len() > 0,
    ensures
        ascending(entries.drop_last()),
        entries_map(entries.drop_last()) == entries_map(entries).remove(entries.last().0),
{
    let rest = entries.drop_last();
    let n = entries.len() - 1;
    assert(ascending(rest)) by {
        assert forall|i: int, j: int| 0 <= i < j < rest.len() implies text_precedes(
            (#[trigger] rest[i]).0,
            (#[trigger] rest[j]).0,
        ) by {
            assert(text_precedes(entries[i].0, entries[j].0));
        }
    }
    assert forall|key: Seq<char>|
        #[trigger] entries_map(rest).contains_key(key) == entries_map(entries).remove(
            entries.last().0,
        ).contains_key(key) && (entries_map(rest).contains_key(key) ==> entries_map(rest)[key]
            == entries_map(entries).remove(entries.last().0)[key]) by {
        if has_key(rest, key) {
            let i = key_index(rest, key);
            assert(entries[i].0 == key);
            lemma_entry_in_map(entries, i);
            lemma_entry_in_map(rest, i);
            if key == entries.last().0 {
                lemma_ascending_keys_differ(entries, i, n);
            }
        } else if has_key(entries, key) {
            let i = key_index(entries, key);
            if i < n {
                assert(rest[i].0 == key);
            }
        }
    }
    lemma_same_map(entries_map(rest), entries_map(entries).remove(entries.last().0));
}

proof fn lemma_same_map<K, V>(a: Map<K, V>, b: Map<K, V>)
    requires
        forall|key: K|
            #[trigger] a.contains_key(key) == b.contains_key(key) && (a.contains_key(key) ==> a[key]
                == b[key]),
    ensures
        a == b,
{
    assert forall|key: K| #[trigger] a.dom().contains(key) == b.dom().contains(key) by {
        assert(a.contains_key(key) == b.contains_key(key));
    }
    assert forall|key: K| #[trigger] a.dom().contains(key) implies a[key] == b[key] by {
        assert(a.contains_key(key) == b.contains_key(key));
    }
    assert(a =~= b);
}

/// A map from text to values. The view is its entries in ascending order of the keys.
#[derive(Debug, PartialEq, Eq)]
pub struct TextMap<V> {
    entries: Vec<(String, V)>,
}

/// Entries with their keys as mathematical text.
pub open spec fn entry_views<V>(entries: Seq<(String, V)>) -> Seq<(Seq<char>, V)> {
    entries.map_values(|entry: (String, V)| (entry.0@, entry.1))
}

impl<V> TextMap<V> {
    #[verifier::type_invariant]
    spec fn in_order(self) -> bool {
        ascending(entry_views(self.entries@))
    }

    pub closed spec fn view(&self) -> Seq<(Seq<char>, V)> {
        entry_views(self.entries@)
    }

    /// The map from keys to values.
    pub open spec fn map(&self) -> Map<Seq<char>, V> {
        entries_map(self@)
    }

    pub fn new() -> (map: TextMap<V>)
        ensures
            map@ == Seq::<(Seq<char>, V)>::empty(),
            map.map() == Map::<Seq<char>, V>::empty(),
    {
        let map: TextMap<V> = TextMap { entries: Vec::new() };
        assert(map@ =~= Seq::<(Seq<char>, V)>::empty());
        assert(map.map() =~= Map::<Seq<char>, V>::empty());
        map
    }

    pub fn len(&self) -> (len: usize)
        ensures
            len == self@.len(),
            ascending(self@),
    {
        proof {
            use_type_invariant(self);
        }
        self.entries.len()
    }

    /// The key at a place in the order.
    pub fn key(&self, index: usize) -> (key: &str)
        requires
            index < self@.len(),
        ensures
            key@ == self@[index as int].0,
    {
        self.entries[index].0.as_str()
    }

    /// The value at a place in the order.
    pub fn value(&self, index: usize) -> (value: &V)
        requires
            index < self@.len(),
        ensures
            *value == self@[index as int].1,
    {
        &self.entries[index].1
    }

    /// The place of a key: where it stands, or else where it would stand.
    fn find(&self, key: &str) -> (result: Result<usize, usize>)
        ensures
            match result {
                Ok(index) => index < self@.len() && self@[index as int].0 == key@,
                Err(index) => {
                    &&& index <= self@.len()
                    &&& !has_key(self@, key@)
                    &&& forall|i: int|
                        0 <= i < index ==> text_precedes((#[trigger] self@[i]).0, key@)
                    &&& forall|i: int|
                        index <= i < self@.len() ==> text_precedes(
                            key@,
                            (#[trigger] self@[i]).0,
                        )
                },
            },
    {
        proof {
            use_type_invariant(self);
        }
        let mut low: usize = 0;
        let mut high: usize = self.entries.len();
        while low < high
            invariant
                low <= high <= self.entries.len(),
                ascending(self@),
                self@.len() == self.entries.len(),
                forall|i: int| 0 <= i < low ==> text_precedes((#[trigger] self@[i]).0, key@),
                forall|i: int|
                    high <= i < self@.len() ==> text_precedes(key@, (#[trigger] self@[i]).0),
            decreases high - low,
        {
            let middle: usize = low + (high - low) / 2;
            assert(self@[middle as int].0 == self.entries@[middle as int].0@);
            match place_text(self.entries[middle].0.as_str(), key) {
                Placement::Same => {
                    return Ok(middle);
                },
                Placement::After => {
                    proof {
                        assert forall|i: int| middle <= i < self@.len() implies text_precedes(
                            key@,
                            (#[trigger] self@[i]).0,
                        ) by {
                            if i > middle {
                                assert(text_precedes(self@[middle as int].0, self@[i].0));
                                lemma_order_is_transitive(
                                    encode_utf8(key@),
                                    encode_utf8(self@[middle as int].0),
                                    encode_utf8(self@[i].0),
                                );
                            }
                        }
                    }
                    high = middle;
                },
                Placement::Before => {
                    proof {
                        assert forall|i: int| 0 <= i < middle + 1 implies text_precedes(
                            (#[trigger] self@[i]).0,
                            key@,
                        ) by {
                            if i < middle {
                                assert(text_precedes(self@[i].0, self@[middle as int].0));
                                lemma_order_is_transitive(
                                    encode_utf8(self@[i].0),
                                    encode_utf8(self@[middle as int].0),
                                    encode_utf8(key@),
                                );
                            }
                        }
                    }
                    low = middle + 1;
                },
            }
        }
        proof {
            lemma_absent(self@, key@, low as int);
        }
        Err(low)
    }

    pub fn contains_key(&self, key: &str) -> (contains: bool)
        ensures
            contains == self.map().contains_key(key@),
    {
        match self.find(key) {
            Ok(index) => {
                assert(self@[index as int].0 == key@);
                true
            },
            Err(_) => false,
        }
    }

    /// The place of the key in the order.
    pub fn position(&self, key: &str) -> (result: Option<usize>)
        ensures
            match result {
                Some(index) => index < self@.len() && self@[index as int].0 == key@,
                None => !self.map().contains_key(key@),
            },
            result is Some == self.map().contains_key(key@),
    {
        match self.find(key) {
            Ok(index) => {
                assert(self@[index as int].0 == key@);
                Some(index)
            },
            Err(_) => None,
        }
    }

    pub fn get(&self, key: &str) -> (result: Option<&V>)
        ensures
            match result {
                Some(value) => self.map().contains_key(key@) && *value == self.map()[key@],
                None => !self.map().contains_key(key@),
            },
    {
        proof {
            use_type_invariant(self);
        }
        match self.find(key) {
            Ok(index) => {
                proof {
                    lemma_entry_in_map(self@, index as int);
                }
                Some(&self.entries[index].1)
            },
            Err(_) => None,
        }
    }

    /// Binds the key to the value, and gives the value that it was bound to before.
    pub fn insert(&mut self, key: String, value: V) -> (previous: Option<V>)
        ensures
            final(self).map() == old(self).map().insert(key@, value),
            ascending(final(self)@),
            previous == if old(self).map().contains_key(key@) {
                Some(old(self).map()[key@])
            } else {
                None
            },
    {
        proof {
            use_type_invariant(&*self);
        }
        let ghost before = self@;
        let found: Result<usize, usize> = self.find(key.as_str());
        let mut entries: Vec<(String, V)> = Vec::new();
        std::mem::swap(&mut entries, &mut self.entries);
        let mut previous: Option<V> = None;
        let place: usize = match found {
            Ok(index) => {
                let removed: (String, V) = entries.remove(index);
                previous = Some(removed.1);
                proof {
                    lemma_entry_in_map(before, index as int);
                }
                index
            },
            Err(index) => index,
        };
        let ghost middle = entry_views(entries@);
        entries.insert(place, (key, value));
        proof {
            let after = entry_views(entries@);
            let p = place as int;
            assert(after =~= middle.insert(p, (key@, value)));
            if found is Ok {
                assert(middle =~= before.remove(p));
                assert(after =~= before.update(p, (key@, value)));
                lemma_update(before, p, value);
            } else {
                assert(middle =~= before);
                lemma_insert(before, p, key@, value);
            }
        }
        self.entries = entries;
        previous
    }

    /// Binds the key at a place in the order to another value.
    pub fn set_value(&mut self, index: usize, value: V)
        requires
            index < old(self)@.len(),
        ensures
            final(self)@ == old(self)@.update(index as int, (old(self)@[index as int].0, value)),
            ascending(final(self)@),
    {
        proof {
            use_type_invariant(&*self);
        }
        let ghost before = self@;
        let mut entries: Vec<(String, V)> = Vec::new();
        std::mem::swap(&mut entries, &mut self.entries);
        let (key, _): (String, V) = entries.remove(index);
        entries.insert(index, (key, value));
        proof {
            let after = before.update(index as int, (before[index as int].0, value));
            assert(entry_views(entries@) =~= after);
            assert forall|i: int, j: int| 0 <= i < j < after.len() implies text_precedes(
                (#[trigger] after[i]).0,
                (#[trigger] after[j]).0,
            ) by {
                assert(text_precedes(before[i].0, before[j].0));
            }
        }
        self.entries = entries;
    }

    /// Unbinds the key, and gives the value that it was bound to.
    pub fn remove(&mut self, key: &str) -> (removed: Option<V>)
        ensures
            final(self).map() == old(self).map().remove(key@),
            ascending(final(self)@),
            removed == if old(self).map().contains_key(key@) {
                Some(old(self).map()[key@])
            } else {
                None
            },
    {
        proof {
            use_type_invariant(&*self);
        }
        let ghost before = self@;
        match self.find(key) {
            Ok(index) => {
                let mut entries: Vec<(String, V)> = Vec::new();
                std::mem::swap(&mut entries, &mut self.entries);
                let removed: (String, V) = entries.remove(index);
                proof {
                    lemma_entry_in_map(before, index as int);
                    assert(entry_views(entries@) =~= before.remove(index as int));
                    lemma_remove(before, index as int);
                }
                self.entries = entries;
                Some(removed.1)
            },
            Err(_) => {
                assert(self.map() =~= old(self).map().remove(key@));
                None
            },
        }
    }
}

proof fn lemma_absent<V>(entries: Seq<(Seq<char>, V)>, key: Seq<char>, index: int)
    requires
        0 <= index <= entries.len(),
        forall|i: int| 0 <= i < index ==> text_precedes((#[trigger] entries[i]).0, key),
        forall|i: int| index <= i < entries.len() ==> text_precedes(key, (#[trigger] entries[i]).0),
    ensures
        !has_key(entries, key),
{
    lemma_order_is_total(encode_utf8(key), encode_utf8(key));
    assert forall|i: int| 0 <= i < entries.len() implies (#[trigger] entries[i]).0 != key by {
        if i < index {
            assert(text_precedes(entries[i].0, key));
        } else {
            assert(text_precedes(key, entries[i].0));
        }
    }
}

proof fn lemma_update<V>(entries: Seq<(Seq<char>, V)>, p: int, value: V)
    requires
        ascending(entries),
        0 <= p < entries.len(),
    ensures
        ascending(entries.update(p, (entries[p].0, value))),
        entries_map(entries.update(p, (entries[p].0, value))) == entries_map(entries).insert(
            entries[p].0,
            value,
        ),
{
    let key = entries[p].0;
    let after = entries.update(p, (key, value));
    assert forall|i: int, j: int| 0 <= i < j < after.len() implies text_precedes(
        (#[trigger] after[i]).0,
        (#[trigger] after[j]).0,
    ) by {
        assert(text_precedes(entries[i].0, entries[j].0));
    }
    assert forall|k: Seq<char>|
        #[trigger] entries_map(after).contains_key(k) == entries_map(entries).insert(
            key,
            value,
        ).contains_key(k) && (entries_map(after).contains_key(k) ==> entries_map(after)[k]
            == entries_map(entries).insert(key, value)[k]) by {
        if has_key(after, k) {
            let i = key_index(after, k);
            assert(entries[i].0 == k);
            lemma_entry_in_map(after, i);
            lemma_entry_in_map(entries, i);
            if k == key {
                lemma_ascending_keys_differ(entries, i, p);
            }
        } else if has_key(entries, k) {
            let i = key_index(entries, k);
            assert(after[i].0 == k);
        } else if k == key {
            assert(after[p].0 == k);
        }
    }
    lemma_same_map(entries_map(after), entries_map(entries).insert(key, value));
}

proof fn lemma_insert<V>(entries: Seq<(Seq<char>, V)>, p: int, key: Seq<char>, value: V)
    requires
        ascending(entries),
        0 <= p <= entries.len(),
        forall|i: int| 0 <= i < p ==> text_precedes((#[trigger] entries[i]).0, key),
        forall|i: int| p <= i < entries.len() ==> text_precedes(key, (#[trigger] entries[i]).0),
    ensures
        ascending(entries.insert(p, (key, value))),
        entries_map(entries.insert(p, (key, value))) == entries_map(entries).insert(key, value),
{
    let after = entries.insert(p, (key, value));
    assert forall|i: int, j: int| 0 <= i < j < after.len() implies text_precedes(
        (#[trigger] after[i]).0,
        (#[trigger] after[j]).0,
    ) by {
        let a = if i < p {
            i
        } else {
            i - 1
        };
        let b = if j < p {
            j
        } else {
            j - 1
        };
        if i != p && j != p {
            assert(text_precedes(entries[a].0, entries[b].0));
        } else if i == p {
            assert(text_precedes(key, entries[b].0));
        } else {
            assert(text_precedes(entries[a].0, key));
        }
    }
    lemma_absent(entries, key, p);
    assert forall|k: Seq<char>|
        #[trigger] entries_map(after).contains_key(k) == entries_map(entries).insert(
            key,
            value,
        ).contains_key(k) && (entries_map(after).contains_key(k) ==> entries_map(after)[k]
            == entries_map(entries).insert(key, value)[k]) by {
        if has_key(after, k) {
            let i = key_index(after, k);
            lemma_entry_in_map(after, i);
            if i < p {
                assert(entries[i].0 == k);
                lemma_entry_in_map(entries, i);
            } else if i > p {
                assert(entries[i - 1].0 == k);
                lemma_entry_in_map(entries, i - 1);
            }
        } else if has_key(entries, k) {
            let i = key_index(entries, k);
            if i < p {
                assert(after[i].0 == k);
            } else {
                assert(after[i + 1].0 == k);
            }
        } else if k == key {
            assert(after[p].0 == k);
        }
    }
    lemma_same_map(entries_map(after), entries_map(entries).insert(key, value));
}

proof fn lemma_remove<V>(entries: Seq<(Seq<char>, V)>, p: int)
    requires
        ascending(entries),
        0 <= p < entries.len(),
    ensures
        ascending(entries.remove(p)),
        entries_map(entries.remove(p)) == entries_map(entries).remove(entries[p].0),
{
    let key = entries[p].0;
    let after = entries.remove(p);
    assert forall|i: int, j: int| 0 <= i < j < after.len() implies text_precedes(
        (#[trigger] after[i]).0,
        (#[trigger] after[j]).0,
    ) by {
        let a = if i < p {
            i
        } else {
            i + 1
        };
        let b = if j < p {
            j
        } else {
            j + 1
        };
        assert(text_precedes(entries[a].0, entries[b].0));
    }
    assert forall|k: Seq<char>|
        #[trigger] entries_map(after).contains_key(k) == entries_map(entries).remove(key).contains_key(k)
            && (entries_map(after).contains_key(k) ==> entries_map(after)[k] == entries_map(
            entries,
        ).remove(key)[k]) by {
        if has_key(after, k) {
            let i = key_index(after, k);
            lemma_entry_in_map(after, i);
            let a = if i < p {
                i
            } else {
                i + 1
            };
            assert(entries[a].0 == k);
            lemma_entry_in_map(entries, a);
            if k == key {
                lemma_ascending_keys_differ(entries, a, p);
            }
        } else if has_key(entries, k) {
            let i = key_index(entries, k);
            if i < p {
                assert(after[i].0 == k);
            } else if i > p {
                assert(after[i - 1].0 == k);
            }
        }
    }
    lemma_same_map(entries_map(after), entries_map(entries).remove(key));
}

/// The entries of a map in the order of their keys.
pub open spec fn listing<V>(map: Map<Seq<char>, V>) -> Seq<(Seq<char>, V)> {
    choose|entries: Seq<(Seq<char>, V)>| ascending(entries) && entries_map(entries) == map
}

/// Entries with their values seen through a function.
pub open spec fn seen<V, W>(entries: Seq<(Seq<char>, V)>, sight: spec_fn(V) -> W) -> Seq<
    (Seq<char>, W),
> {
    entries.map_values(|entry: (Seq<char>, V)| (entry.0, sight(entry.1)))
}

/// The entries of a map whose values are seen through a function are its entries seen through it.
pub proof fn lemma_listing_seen<V, W>(entries: Seq<(Seq<char>, V)>, sight: spec_fn(V) -> W)
    requires
        ascending(entries),
    ensures
        listing(entries_map(entries).map_values(sight)) == seen(entries, sight),
        ascending(seen(entries, sight)),
        entries_map(seen(entries, sight)) == entries_map(entries).map_values(sight),
{
    let listed = seen(entries, sight);
    let map = entries_map(entries).map_values(sight);
    assert(ascending(listed)) by {
        assert forall|i: int, j: int| 0 <= i < j < listed.len() implies text_precedes(
            (#[trigger] listed[i]).0,
            (#[trigger] listed[j]).0,
        ) by {
            assert(text_precedes(entries[i].0, entries[j].0));
        }
    }
    let made = entries_map(listed);
    assert forall|key: Seq<char>| #[trigger] made.contains_key(key) == map.contains_key(key) by {
        if has_key(listed, key) {
            let k = choose|k: int| 0 <= k < listed.len() && (#[trigger] listed[k]).0 == key;
            assert(entries[k].0 == key);
        }
        if has_key(entries, key) {
            let k = choose|k: int| 0 <= k < entries.len() && (#[trigger] entries[k]).0 == key;
            assert(listed[k].0 == key);
        }
        assert(entries_map(entries).contains_key(key) == has_key(entries, key));
    }
    assert forall|key: Seq<char>| made.contains_key(key) implies #[trigger] made[key]
        == map[key] by {
        let k = choose|k: int| 0 <= k < listed.len() && (#[trigger] listed[k]).0 == key;
        lemma_entry_in_map(listed, k);
        lemma_entry_in_map(entries, k);
    }
    assert(made =~= map);
    law_map_determines_entries(listed, listing(map));
}

/// Entries whose values were made anew from their keys and values.
pub open spec fn remade<V, W>(
    entries: Seq<(Seq<char>, V)>,
    make: spec_fn(Seq<char>, V) -> W,
) -> Seq<(Seq<char>, W)> {
    entries.map_values(|entry: (Seq<char>, V)| (entry.0, make(entry.0, entry.1)))
}

/// Entries whose values were made anew make up the map with its values made anew.
pub proof fn lemma_remade_map<V, W>(
    entries: Seq<(Seq<char>, V)>,
    make: spec_fn(Seq<char>, V) -> W,
)
    requires
        ascending(entries),
    ensures
        ascending(remade(entries, make)),
        entries_map(remade(entries, make)) == Map::new(
            |key: Seq<char>| entries_map(entries).contains_key(key),
            |key: Seq<char>| make(key, entries_map(entries)[key]),
        ),
{
    let listed = remade(entries, make);
    let map = Map::new(
        |key: Seq<char>| entries_map(entries).contains_key(key),
        |key: Seq<char>| make(key, entries_map(entries)[key]),
    );
    assert(ascending(listed)) by {
        assert forall|i: int, j: int| 0 <= i < j < listed.len() implies text_precedes(
            (#[trigger] listed[i]).0,
            (#[trigger] listed[j]).0,
        ) by {
            assert(text_precedes(entries[i].0, entries[j].0));
        }
    }
    let made = entries_map(listed);
    assert forall|key: Seq<char>| #[trigger] made.contains_key(key) == map.contains_key(key) by {
        if has_key(listed, key) {
            let k = choose|k: int| 0 <= k < listed.len() && (#[trigger] listed[k]).0 == key;
            assert(entries[k].0 == key);
        }
        if has_key(entries, key) {
            let k = choose|k: int| 0 <= k < entries.len() && (#[trigger] entries[k]).0 == key;
            assert(listed[k].0 == key);
        }
        assert(entries_map(entries).contains_key(key) == has_key(entries, key));
    }
    assert forall|key: Seq<char>| made.contains_key(key) implies #[trigger] made[key]
        == map[key] by {
        let k = choose|k: int| 0 <= k < listed.len() && (#[trigger] listed[k]).0 == key;
        lemma_entry_in_map(listed, k);
        lemma_entry_in_map(entries, k);
    }
    assert(made =~= map);
}

} // verus!
