use vstd::prelude::*;
use vstd::std_specs::hash::{
    axiom_random_state_builds_valid_hashers, axiom_spec_hash_map_iter, axiom_spec_hash_map_len,
    builds_valid_hashers, obeys_key_model, spec_hash_map_iter,
};
use vstd::std_specs::vec::axiom_spec_into_iter;
use vstd::std_specs::iter::{IteratorSpec, VerusForLoopWrapper};
use vstd::string::StringExecFns;
use std::collections::HashMap;
use std::hash::{BuildHasher, Hash};
use crate::basic::{Basic, Double};
use crate::error::Error;
use crate::signature::{Signature, Type};
use crate::value::{FromValue, IntoValue, Value, ValueView};

verus! {

/// One key and its value.
#[derive(Debug, Clone, PartialEq)]
pub struct DictEntry {
    key: Value,
    value: Value,
}

impl View for DictEntry {
    type V = (ValueView, ValueView);

    closed spec fn view(&self) -> (ValueView, ValueView) {
        (self.key@, self.value@)
    }
}

impl DictEntry {
    /// The entry of `key` and `value`.
    pub fn new(key: Value, value: Value) -> (e: DictEntry)
        ensures
            e@ == (key@, value@),
    {
        DictEntry { key, value }
    }

    /// The key of the entry.
    pub fn key(&self) -> (k: &Value)
        ensures
            k@ == self@.0,
    {
        &self.key
    }

    /// The value of the entry.
    pub fn value(&self) -> (v: &Value)
        ensures
            v@ == self@.1,
    {
        &self.value
    }

    /// An entry with the same key and value that borrows nothing.
    pub fn to_owned(&self) -> (e: DictEntry)
        ensures
            e@ == self@,
    {
        DictEntry { key: self.key.to_owned(), value: self.value.to_owned() }
    }
}

/// What a dictionary is: its entries in the order in which they came, and
/// the two signatures it was made for.
pub struct DictView {
    pub entries: Seq<(ValueView, ValueView)>,
    pub key_signature: Seq<char>,
    pub value_signature: Seq<char>,
}

impl DictView {
    /// The dictionary without entries for the two signatures.
    pub open spec fn empty(key_signature: Seq<char>, value_signature: Seq<char>) -> DictView {
        DictView { entries: Seq::empty(), key_signature, value_signature }
    }

    /// Every entry has the key signature and the value signature.
    pub open spec fn conforms(self) -> bool {
        forall|i: int|
            0 <= i < self.entries.len() ==> self.accepts(
                (#[trigger] self.entries[i]).0,
                self.entries[i].1,
            )
    }

    /// Whether `key` and `value` have the signatures of this dictionary.
    pub open spec fn accepts(self, key: ValueView, value: ValueView) -> bool {
        key.signature() == self.key_signature && value.signature() == self.value_signature
    }

    /// This dictionary with one more entry at its end.
    pub open spec fn push(self, key: ValueView, value: ValueView) -> DictView {
        DictView { entries: self.entries.push((key, value)), ..self }
    }

    /// The text of the signature of the dictionary itself.
    pub open spec fn signature(self) -> Seq<char> {
        seq!['a', '{'] + self.key_signature + self.value_signature + seq!['}']
    }

    /// Whether a forward scan for `key`, by keys of signature `ks`, ends at
    /// entry `i`: its key is of another kind, or it is `key`.
    pub open spec fn stops_at(self, i: int, ks: Seq<char>, key: ValueView) -> bool {
        self.entries[i].0.signature() != ks || self.entries[i].0 == key
    }

    /// What the scan gives at the entry where it ends.
    pub open spec fn found_at(self, i: int, ks: Seq<char>, vs: Seq<char>) -> Result<
        Option<ValueView>,
        Error,
    > {
        if self.entries[i].0.signature() == ks && self.entries[i].1.signature() == vs {
            Ok(Some(self.entries[i].1))
        } else {
            Err(Error::IncorrectType)
        }
    }

    /// The result of a forward scan from entry `from` for `key`, by keys of
    /// signature `ks` and for values of signature `vs`.
    pub open spec fn scan(self, from: int, ks: Seq<char>, vs: Seq<char>, key: ValueView) -> Result<
        Option<ValueView>,
        Error,
    >
        decreases self.entries.len() - from,
    {
        if from < 0 || from >= self.entries.len() {
            Ok(None)
        } else if self.stops_at(from, ks, key) {
            self.found_at(from, ks, vs)
        } else {
            self.scan(from + 1, ks, vs, key)
        }
    }

    /// Every key has the signature `ks` and every value the signature `vs`.
    pub open spec fn all_of(self, ks: Seq<char>, vs: Seq<char>) -> bool {
        forall|i: int|
            0 <= i < self.entries.len() ==> (#[trigger] self.entries[i]).0.signature() == ks
                && self.entries[i].1.signature() == vs
    }

    /// The map that the first `n` entries make when each in turn is put
    /// into it, a later entry taking the place of an earlier one with the
    /// same key.
    pub open spec fn prefix_map(self, n: int) -> Map<ValueView, ValueView>
        decreases n,
    {
        if n <= 0 {
            Map::empty()
        } else {
            self.prefix_map(n - 1).insert(self.entries[n - 1].0, self.entries[n - 1].1)
        }
    }

    /// The map that the entries make when each in turn is put into it.
    pub open spec fn to_map(self) -> Map<ValueView, ValueView> {
        self.prefix_map(self.entries.len() as int)
    }

    /// The result of looking `key` up, by keys of signature `ks` and for
    /// values of signature `vs`.
    pub open spec fn lookup(self, ks: Seq<char>, vs: Seq<char>, key: ValueView) -> Result<
        Option<ValueView>,
        Error,
    > {
        self.scan(0, ks, vs, key)
    }
}

/// A sequence of entries whose keys all have one signature and whose values
/// all have another.
#[derive(Debug, PartialEq)]
pub struct Dict {
    entries: Vec<DictEntry>,
    key_signature: Signature,
    value_signature: Signature,
}

impl View for Dict {
    type V = DictView;

    closed spec fn view(&self) -> DictView {
        DictView {
            entries: Seq::new(self.entries@.len(), |i: int| self.entries@[i]@),
            key_signature: self.key_signature@,
            value_signature: self.value_signature@,
        }
    }
}

impl Dict {
    #[verifier::type_invariant]
    spec fn well_formed(&self) -> bool {
        self@.conforms()
    }

    /// The empty dictionary for keys and values of the two signatures.
    pub fn new(key_signature: Signature, value_signature: Signature) -> (d: Dict)
        ensures
            d@ == DictView::empty(key_signature@, value_signature@),
    {
        let d = Dict { entries: Vec::new(), key_signature, value_signature };
        assert(d@.entries =~= Seq::empty());
        d
    }

    /// The number of entries.
    pub fn len(&self) -> (n: usize)
        ensures
            n == self@.entries.len(),
            self@.conforms(),
    {
        proof {
            use_type_invariant(self);
        }
        self.entries.len()
    }

    /// The signature that every key has.
    pub fn key_signature(&self) -> (s: &Signature)
        ensures
            s@ == self@.key_signature,
    {
        &self.key_signature
    }

    /// The signature that every value has.
    pub fn value_signature(&self) -> (s: &Signature)
        ensures
            s@ == self@.value_signature,
    {
        &self.value_signature
    }

    /// The entries in the order in which they came: the records of the
    /// dictionary, one per entry, each of a key and a value.
    pub fn entries(&self) -> (r: &Vec<DictEntry>)
        ensures
            r@.len() == self@.entries.len(),
            forall|i: int| 0 <= i < r@.len() ==> (#[trigger] r@[i])@ == self@.entries[i],
            self@.conforms(),
    {
        proof {
            use_type_invariant(self);
        }
        &self.entries
    }

    /// The entry at place `index`, or `None` past the end.
    pub fn entry(&self, index: usize) -> (e: Option<&DictEntry>)
        ensures
            index < self@.entries.len() ==> (e matches Some(x) && x@ == self@.entries[index as int]
                && self@.accepts(x@.0, x@.1)),
            index >= self@.entries.len() ==> e is None,
    {
        proof {
            use_type_invariant(self);
        }
        if index < self.entries.len() {
            Some(&self.entries[index])
        } else {
            None
        }
    }

    /// Puts an entry that has the signatures of this dictionary at the end.
    fn push_entry(&mut self, entry: DictEntry)
        requires
            old(self)@.accepts(entry@.0, entry@.1),
        ensures
            final(self)@ == old(self)@.push(entry@.0, entry@.1),
            final(self)@.conforms(),
    {
        proof {
            use_type_invariant(&*self);
        }
        // The entries are moved out, extended and moved back, so that the
        // dictionary is whole whenever it can be seen.
        let mut taken = Dict {
            entries: Vec::new(),
            key_signature: Signature::from_str_unchecked(""),
            value_signature: Signature::from_str_unchecked(""),
        };
        core::mem::swap(self, &mut taken);
        let Dict { entries, key_signature, value_signature } = taken;
        let mut entries = entries;
        entries.push(entry);
        proof {
            let before = old(self)@;
            let after = before.push(entry@.0, entry@.1);
            let shown = Seq::new(entries@.len(), |i: int| entries@[i]@);
            assert(shown =~= after.entries);
            assert forall|i: int| 0 <= i < after.entries.len() implies after.accepts(
                (#[trigger] after.entries[i]).0,
                after.entries[i].1,
            ) by {
                if i < before.entries.len() {
                    assert(after.entries[i] == before.entries[i]);
                }
            }
        }
        *self = Dict { entries, key_signature, value_signature };
    }

    /// Puts `key` and `value` at the end as a new entry, where both have the
    /// signatures of this dictionary; else nothing changes.
    pub fn append(&mut self, key: Value, value: Value) -> (r: Result<(), Error>)
        ensures
            old(self)@.accepts(key@, value@) ==> r is Ok && final(self)@ == old(self)@.push(
                key@,
                value@,
            ),
            !old(self)@.accepts(key@, value@) ==> r == Err::<(), Error>(Error::IncorrectType)
                && final(self)@ == old(self)@,
            final(self)@.conforms(),
    {
        proof {
            use_type_invariant(&*self);
        }
        if !(key.value_signature() == self.key_signature) || !(value.value_signature()
            == self.value_signature) {
            return Err(Error::IncorrectType);
        }
        self.push_entry(DictEntry { key, value });
        Ok(())
    }

    /// Puts a native key and a native value at the end as a new entry, where
    /// their types have the signatures of this dictionary; else nothing
    /// changes.
    pub fn add<K: Basic + IntoValue + Hash + Eq, V: IntoValue>(&mut self, key: K, value: V) -> (r:
        Result<(), Error>)
        ensures
            old(self)@.accepts(key.wrap(), value.wrap()) ==> r is Ok && final(self)@ == old(
                self,
            )@.push(key.wrap(), value.wrap()),
            !old(self)@.accepts(key.wrap(), value.wrap()) ==> r == Err::<(), Error>(
                Error::IncorrectType,
            ) && final(self)@ == old(self)@,
            old(self)@.accepts(key.wrap(), value.wrap()) <==> K::signature_spec() == old(
                self,
            )@.key_signature && V::signature_spec() == old(self)@.value_signature,
            final(self)@.conforms(),
    {
        proof {
            use_type_invariant(&*self);
            key.lemma_wrap_signature();
            value.lemma_wrap_signature();
        }
        if !(K::signature() == self.key_signature) || !(V::signature() == self.value_signature) {
            return Err(Error::IncorrectType);
        }
        self.push_entry(DictEntry { key: Value::new(key), value: Value::new(value) });
        Ok(())
    }

    /// The value of the first entry whose key is `key`, scanning from the
    /// front; `None` where no entry has that key. Fails at the first key
    /// before a match that is not of `K`'s kind, and where the value of the
    /// matching entry is not of `V`'s kind.
    pub fn get<K: FromValue + ?Sized, V: FromValue + ?Sized>(&self, key: &K) -> (r: Result<
        Option<&V>,
        Error,
    >)
        ensures
            match self@.lookup(K::signature_spec(), V::signature_spec(), key.wrap()) {
                Ok(Some(v)) => r matches Ok(Some(x)) && x.wrap() == v,
                Ok(None) => r matches Ok(None),
                Err(e) => r matches Err(f) && f == e,
            },
    {
        let ghost ks = K::signature_spec();
        let ghost vs = V::signature_spec();
        let n: usize = self.entries.len();
        let mut i: usize = 0;
        while i < n
            invariant
                0 <= i <= n,
                n == self.entries@.len(),
                n == self@.entries.len(),
                ks == K::signature_spec(),
                vs == V::signature_spec(),
                self@.lookup(ks, vs, key.wrap()) == self@.scan(i as int, ks, vs, key.wrap()),
            decreases n - i,
        {
            let entry = &self.entries[i];
            assert(self@.entries[i as int] == entry@);
            match K::downcast_ref(&entry.key) {
                None => {
                    return Err(Error::IncorrectType);
                },
                Some(k) => {
                    if k.same(key) {
                        match V::downcast_ref(&entry.value) {
                            None => {
                                return Err(Error::IncorrectType);
                            },
                            Some(v) => {
                                return Ok(Some(v));
                            },
                        }
                    }
                },
            }
            i += 1;
        }
        Ok(None)
    }

    /// The signature of the dictionary itself: `a{`, the key signature, the
    /// value signature, `}`.
    pub fn signature(&self) -> (s: Signature)
        ensures
            s@ == self@.signature(),
    {
        proof {
            reveal_strlit("a{");
            reveal_strlit("}");
        }
        let mut text = String::from_str("a{");
        text.append(self.key_signature.as_str());
        text.append(self.value_signature.as_str());
        text.append("}");
        assert(text@ =~= self@.signature());
        Signature::from_string_unchecked(text)
    }

    /// A dictionary with the same signatures and entries that borrows
    /// nothing.
    pub fn to_owned(&self) -> (d: Dict)
        ensures
            d@ == self@,
    {
        proof {
            use_type_invariant(self);
        }
        let mut entries: Vec<DictEntry> = Vec::new();
        let n: usize = self.entries.len();
        let mut i: usize = 0;
        while i < n
            invariant
                0 <= i <= n,
                n == self.entries@.len(),
                entries@.len() == i,
                forall|j: int| 0 <= j < i ==> (#[trigger] entries@[j])@ == self.entries@[j]@,
            decreases n - i,
        {
            entries.push(self.entries[i].to_owned());
            i += 1;
        }
        assert(Seq::new(entries@.len(), |j: int| entries@[j]@) =~= self@.entries);
        Dict {
            entries,
            key_signature: self.key_signature.to_owned(),
            value_signature: self.value_signature.to_owned(),
        }
    }
}

/// The dictionary of the pairs of `map`, each wrapped, in the order in
/// which the map hands them out, which is not fixed.
///
/// What the entries are is stated where `K` hashes and compares as its
/// values are.
impl<K: IntoValue + Hash + Eq, V: IntoValue> From<HashMap<K, V>> for Dict {
    fn from(map: HashMap<K, V>) -> (d: Dict)
        ensures
            d@.key_signature == K::signature_spec(),
            d@.value_signature == V::signature_spec(),
            d@.conforms(),
            obeys_key_model::<K>() ==> exists|pairs: Seq<(K, V)>|
                lists(pairs, map@) && d@.entries == wrapped(pairs),
    {
        broadcast use axiom_random_state_builds_valid_hashers;
        proof {
            axiom_spec_hash_map_iter(&map);
            axiom_spec_hash_map_len(&map);
        }
        let mut d = Dict::new(K::signature(), V::signature());
        let ghost all = spec_hash_map_iter(&map).remaining();
        let n: usize = map.len();
        let mut rest = VerusForLoopWrapper::new(map.iter(), Ghost(None));
        let mut done: usize = 0;
        while done < n
            invariant
                done <= n,
                rest.wf(),
                d@.key_signature == K::signature_spec(),
                d@.value_signature == V::signature_spec(),
                obeys_key_model::<K>() ==> n == all.len() && rest.seq() == all && rest.index()
                    == done && d@.entries == wrapped(all.take(done as int).unref()),
            decreases n - done,
        {
            match rest.next() {
                Some((k, v)) => {
                    proof {
                        k.lemma_wrap_signature();
                        v.lemma_wrap_signature();
                    }
                    d.push_entry(DictEntry { key: k.to_value(), value: v.to_value() });
                    proof {
                        if obeys_key_model::<K>() {
                            assert(d@.entries =~= wrapped(all.take(done + 1).unref()));
                        }
                    }
                },
                // A map hands out as many pairs as it holds.
                None => {},
            }
            done += 1;
        }
        proof {
            use_type_invariant(&d);
            if obeys_key_model::<K>() {
                let pairs = all.unref();
                assert(all.take(n as int) =~= all);
                assert forall|i: int, j: int|
                    0 <= i < pairs.len() && 0 <= j < pairs.len() && i != j implies pairs[i]
                    != pairs[j] by {
                    assert(all[i] != all[j]);
                }
                assert(lists(pairs, map@) && d@.entries == wrapped(pairs));
            }
        }
        d
    }
}

// The order of the entries is the map's to choose, so the dictionary is no
// function of the map's contents.
impl<K: IntoValue + Hash + Eq, V: IntoValue> vstd::std_specs::convert::FromSpecImpl<HashMap<K, V>> for Dict {
    open spec fn obeys_from_spec() -> bool {
        false
    }

    open spec fn from_spec(map: HashMap<K, V>) -> Dict {
        arbitrary()
    }
}

/// The native map of the entries, each key and value taken out of its
/// dynamic value, a later entry taking the place of an earlier one with
/// the same key. Fails, with no map at all, where a key is not of `K`'s
/// kind or a value not of `V`'s.
///
/// What the map holds is stated where `K` hashes and compares as its
/// values are, `H` builds hashers that do so too, and different keys
/// are different dynamic values.
impl<K: Basic + FromValue + Hash + Eq, V: FromValue, H: BuildHasher + Default> TryFrom<Dict> for HashMap<K, V, H> {
    type Error = Error;

    fn try_from(dict: Dict) -> (r: Result<HashMap<K, V, H>, Error>)
        ensures
            r is Ok <==> dict@.all_of(K::signature_spec(), V::signature_spec()),
            r matches Err(e) ==> e == Error::IncorrectType,
            obeys_key_model::<K>() && builds_valid_hashers::<H>() && one_to_one::<K>() ==> (r matches Ok(
                m,
            ) ==> unwraps_to(dict@.to_map(), m@)),
    {
        let ghost d = dict@;
        let entries = dict.entries;
        let ghost es = entries@;
        proof {
            axiom_spec_into_iter(entries);
        }
        let mut map: HashMap<K, V, H> = HashMap::default();
        for entry in it: entries.into_iter()
            invariant
                it.seq() == es,
                d == dict@,
                d.entries == Seq::new(es.len(), |i: int| es[i]@),
                forall|j: int|
                    0 <= j < it.index() ==> (#[trigger] d.entries[j]).0.signature()
                        == K::signature_spec() && d.entries[j].1.signature()
                        == V::signature_spec(),
                obeys_key_model::<K>() && builds_valid_hashers::<H>() && one_to_one::<K>()
                    ==> unwraps_to(d.prefix_map(it.index()), map@),
        {
            let ghost at = it.index();
            assert(d.entries[at] == entry@);
            let key = match K::from_value(entry.key) {
                Ok(key) => key,
                Err(_) => {
                    assert(d.entries[at].0.signature() != K::signature_spec());
                    return Err(Error::IncorrectType);
                },
            };
            let value = match V::from_value(entry.value) {
                Ok(value) => value,
                Err(_) => {
                    assert(d.entries[at].1.signature() != V::signature_spec());
                    return Err(Error::IncorrectType);
                },
            };
            let ghost before = map@;
            map.insert(key, value);
            proof {
                let w = d.prefix_map(at);
                let grown = d.prefix_map(at + 1);
                assert(grown == w.insert(key.wrap(), value.wrap()));
                if obeys_key_model::<K>() && builds_valid_hashers::<H>() && one_to_one::<K>() {
                    assert(map@ == before.insert(key, value));
                    assert forall|k: K|
                        #![trigger map@.contains_key(k)]
                        #![trigger grown.contains_key(k.wrap())]
                        (map@.contains_key(k) <==> grown.contains_key(k.wrap())) && (
                        map@.contains_key(k) ==> map@[k].wrap() == grown[k.wrap()]) by {
                        assert(before.contains_key(k) <==> w.contains_key(k.wrap()));
                        if k.wrap() == key.wrap() {
                            assert(k == key);
                        }
                    }
                }
            }
        }
        Ok(map)
    }
}

// What the map holds is stated only for keys and hashers that behave, so the
// result is no function of the dictionary for every `K` and `H`.
impl<K: Basic + FromValue + Hash + Eq, V: FromValue, H: BuildHasher + Default> vstd::std_specs::convert::TryFromSpecImpl<Dict> for HashMap<K, V, H> {
    open spec fn obeys_try_from_spec() -> bool {
        false
    }

    open spec fn try_from_spec(dict: Dict) -> Result<HashMap<K, V, H>, Error> {
        arbitrary()
    }
}

impl Clone for Dict {
    fn clone(&self) -> (d: Dict)
        ensures
            d@ == self@,
    {
        self.to_owned()
    }
}

/// The entries that hold the pairs, each wrapped.
pub open spec fn wrapped<K: IntoValue, V: IntoValue>(pairs: Seq<(K, V)>) -> Seq<
    (ValueView, ValueView),
> {
    Seq::new(pairs.len(), |i: int| (pairs[i].0.wrap(), pairs[i].1.wrap()))
}

/// The pairs are those of the map, each once, in some order.
pub open spec fn lists<K, V>(pairs: Seq<(K, V)>, m: Map<K, V>) -> bool {
    pairs.no_duplicates() && pairs.to_set() == m.kv_pairs()
}

/// Different native values of `T` are different dynamic values.
pub open spec fn one_to_one<T: IntoValue>() -> bool {
    forall|a: T, b: T| #[trigger] a.wrap() == #[trigger] b.wrap() ==> a == b
}

/// Of each native type but the strings, different values are different
/// dynamic values.
pub proof fn lemma_one_to_one()
    ensures
        one_to_one::<u8>(),
        one_to_one::<bool>(),
        one_to_one::<i8>(),
        one_to_one::<i16>(),
        one_to_one::<u16>(),
        one_to_one::<i32>(),
        one_to_one::<u32>(),
        one_to_one::<i64>(),
        one_to_one::<u64>(),
        one_to_one::<Double>(),
        one_to_one::<char>(),
{
    assert forall|a: char, b: char| #[trigger] a.wrap() == #[trigger] b.wrap() implies a == b by {
        assert(seq![a][0] == seq![b][0]);
    }
}

/// The native map `m` has a key for each key of `w` and no other, and each
/// holds, wrapped, what `w` holds for it.
pub open spec fn unwraps_to<K: IntoValue, V: IntoValue>(
    w: Map<ValueView, ValueView>,
    m: Map<K, V>,
) -> bool {
    forall|k: K|
        #![trigger m.contains_key(k)]
        #![trigger w.contains_key(k.wrap())]
        (m.contains_key(k) <==> w.contains_key(k.wrap())) && (m.contains_key(k) ==> m[k].wrap()
            == w[k.wrap()])
}

/// A scan that meets no stop from `from` on finds nothing.
pub proof fn lemma_scan_without_stop(
    d: DictView,
    from: int,
    ks: Seq<char>,
    vs: Seq<char>,
    key: ValueView,
)
    requires
        0 <= from,
        forall|j: int| from <= j < d.entries.len() ==> !d.stops_at(j, ks, key),
    ensures
        d.scan(from, ks, vs, key) == Ok::<Option<ValueView>, Error>(None),
    decreases d.entries.len() - from,
{
    if from < d.entries.len() {
        lemma_scan_without_stop(d, from + 1, ks, vs, key);
    }
}

/// A scan from `from` ends at the first stop `at`, whatever follows it.
pub proof fn lemma_scan_first_stop(
    d: DictView,
    from: int,
    at: int,
    ks: Seq<char>,
    vs: Seq<char>,
    key: ValueView,
)
    requires
        0 <= from <= at < d.entries.len(),
        d.stops_at(at, ks, key),
        forall|j: int| from <= j < at ==> !d.stops_at(j, ks, key),
    ensures
        d.scan(from, ks, vs, key) == d.found_at(at, ks, vs),
    decreases at - from,
{
    if from < at {
        lemma_scan_first_stop(d, from + 1, at, ks, vs, key);
    }
}

/// First match wins: where entry `at` has the key `key` and no entry before
/// it has, a lookup in a dictionary that conforms, by its own signatures,
/// gives the value of entry `at`.
pub proof fn lemma_lookup_first_match(d: DictView, at: int, key: ValueView)
    requires
        d.conforms(),
        0 <= at < d.entries.len(),
        d.entries[at].0 == key,
        forall|j: int| 0 <= j < at ==> d.entries[j].0 != key,
    ensures
        d.lookup(d.key_signature, d.value_signature, key) == Ok::<Option<ValueView>, Error>(
            Some(d.entries[at].1),
        ),
{
    lemma_scan_first_stop(d, 0, at, d.key_signature, d.value_signature, key);
}

/// A lookup in a dictionary that conforms, by its own signatures, gives
/// nothing exactly where no entry has the key, and never fails.
pub proof fn lemma_lookup_absent(d: DictView, key: ValueView)
    requires
        d.conforms(),
    ensures
        d.lookup(d.key_signature, d.value_signature, key) is Ok,
        d.lookup(d.key_signature, d.value_signature, key) == Ok::<Option<ValueView>, Error>(None)
            <==> (forall|j: int| 0 <= j < d.entries.len() ==> (#[trigger] d.entries[j]).0 != key),
{
    let ks = d.key_signature;
    let vs = d.value_signature;
    if forall|j: int| 0 <= j < d.entries.len() ==> (#[trigger] d.entries[j]).0 != key {
        lemma_scan_without_stop(d, 0, ks, vs, key);
    } else {
        let at = first_with_key(d, key, d.entries.len() as int);
        lemma_lookup_first_match(d, at, key);
    }
}

/// The first place below `limit` whose entry has the key `key`.
pub proof fn first_with_key(d: DictView, key: ValueView, limit: int) -> (at: int)
    requires
        0 <= limit <= d.entries.len(),
        exists|j: int| 0 <= j < limit && (#[trigger] d.entries[j]).0 == key,
    ensures
        0 <= at < limit,
        d.entries[at].0 == key,
        forall|j: int| 0 <= j < at ==> d.entries[j].0 != key,
    decreases limit,
{
    if exists|j: int| 0 <= j < limit - 1 && (#[trigger] d.entries[j]).0 == key {
        first_with_key(d, key, limit - 1)
    } else {
        limit - 1
    }
}

/// What an accepted entry changes for lookups: a key that was found is
/// found as before, and the new key, where it was not there, has the new
/// value.
pub proof fn lemma_lookup_after_push(d: DictView, key: ValueView, value: ValueView, probe: ValueView)
    requires
        d.conforms(),
        d.accepts(key, value),
    ensures
        d.push(key, value).conforms(),
        d.push(key, value).lookup(d.key_signature, d.value_signature, probe) == (match d.lookup(
            d.key_signature,
            d.value_signature,
            probe,
        ) {
            Ok(None) => if probe == key {
                Ok::<Option<ValueView>, Error>(Some(value))
            } else {
                Ok(None)
            },
            found => found,
        }),
{
    let ks = d.key_signature;
    let vs = d.value_signature;
    let e = d.push(key, value);
    let n = d.entries.len() as int;
    assert forall|i: int| 0 <= i < e.entries.len() implies e.accepts(
        (#[trigger] e.entries[i]).0,
        e.entries[i].1,
    ) by {
        if i < n {
            assert(e.entries[i] == d.entries[i]);
        }
    }
    lemma_lookup_absent(d, probe);
    lemma_lookup_absent(e, probe);
    if forall|j: int| 0 <= j < n ==> (#[trigger] d.entries[j]).0 != probe {
        if probe == key {
            assert forall|j: int| 0 <= j < n implies e.entries[j].0 != probe by {
                assert(e.entries[j] == d.entries[j]);
            }
            lemma_lookup_first_match(e, n, probe);
        } else {
            assert forall|j: int| 0 <= j < e.entries.len() implies (#[trigger] e.entries[j]).0
                != probe by {
                if j < n {
                    assert(e.entries[j] == d.entries[j]);
                }
            }
        }
    } else {
        let at = first_with_key(d, probe, n);
        lemma_lookup_first_match(d, at, probe);
        assert(e.entries[at] == d.entries[at]);
        assert forall|j: int| 0 <= j < at implies e.entries[j].0 != probe by {
            assert(e.entries[j] == d.entries[j]);
        }
        lemma_lookup_first_match(e, at, probe);
    }
}

/// After an accepted append, a lookup of the appended key gives the
/// appended value, where no earlier entry has that key.
pub proof fn lemma_get_after_append(d: DictView, key: ValueView, value: ValueView)
    requires
        d.conforms(),
        d.accepts(key, value),
        forall|j: int| 0 <= j < d.entries.len() ==> (#[trigger] d.entries[j]).0 != key,
    ensures
        d.push(key, value).lookup(d.key_signature, d.value_signature, key) == Ok::<
            Option<ValueView>,
            Error,
        >(Some(value)),
{
    lemma_lookup_absent(d, key);
    lemma_lookup_after_push(d, key, value, key);
}

/// The signature of a dictionary is `a{`, its key signature, its value
/// signature and `}`, whatever its entries.
pub proof fn lemma_signature_shape(d: DictView)
    ensures
        d.signature().len() == d.key_signature.len() + d.value_signature.len() + 3,
        d.signature()[0] == 'a',
        d.signature()[1] == '{',
        d.signature().subrange(2, 2 + d.key_signature.len() as int) == d.key_signature,
        d.signature().subrange(
            2 + d.key_signature.len() as int,
            d.signature().len() - 1,
        ) == d.value_signature,
        d.signature().last() == '}',
        forall|key: ValueView, value: ValueView| #[trigger]
            d.push(key, value).signature() == d.signature(),
{
    let s = d.signature();
    let k = d.key_signature.len() as int;
    assert(s.subrange(2, 2 + k) =~= d.key_signature);
    assert(s.subrange(2 + k, s.len() - 1) =~= d.value_signature);
}

/// The map of the first `n` entries has exactly their keys, and holds for
/// each key the value of the last of them that has it.
pub proof fn lemma_prefix_map(d: DictView, n: int)
    requires
        0 <= n <= d.entries.len(),
    ensures
        forall|x: ValueView| #[trigger]
            d.prefix_map(n).contains_key(x) <==> exists|i: int|
                0 <= i < n && (#[trigger] d.entries[i]).0 == x,
        forall|i: int|
            0 <= i < n && (forall|j: int| i < j < n ==> (#[trigger] d.entries[j]).0
                != d.entries[i].0) ==> d.prefix_map(n)[(#[trigger] d.entries[i]).0]
                == d.entries[i].1,
    decreases n,
{
    if n > 0 {
        lemma_prefix_map(d, n - 1);
        let last = d.entries[n - 1];
        let w = d.prefix_map(n - 1);
        assert(d.prefix_map(n) == w.insert(last.0, last.1));
        assert forall|x: ValueView| #[trigger]
            d.prefix_map(n).contains_key(x) <==> exists|i: int|
                0 <= i < n && (#[trigger] d.entries[i]).0 == x by {
            if d.prefix_map(n).contains_key(x) {
                if x == last.0 {
                    assert(d.entries[n - 1].0 == x);
                } else {
                    assert(w.contains_key(x));
                    let i = choose|i: int| 0 <= i < n - 1 && (#[trigger] d.entries[i]).0 == x;
                    assert(0 <= i < n && d.entries[i].0 == x);
                }
            }
            if exists|i: int| 0 <= i < n && (#[trigger] d.entries[i]).0 == x {
                let i = choose|i: int| 0 <= i < n && (#[trigger] d.entries[i]).0 == x;
                if i < n - 1 {
                    assert(0 <= i < n - 1 && d.entries[i].0 == x);
                    assert(w.contains_key(x));
                }
            }
        }
        assert forall|i: int|
            0 <= i < n && (forall|j: int| i < j < n ==> (#[trigger] d.entries[j]).0
                != d.entries[i].0) implies d.prefix_map(n)[(#[trigger] d.entries[i]).0]
            == d.entries[i].1 by {
            if i < n - 1 {
                assert(d.entries[n - 1].0 != d.entries[i].0);
                assert forall|j: int| i < j < n - 1 implies (#[trigger] d.entries[j]).0
                    != d.entries[i].0 by {
                    assert(i < j < n);
                }
            }
        }
    }
}

/// A native map that is made into a dictionary and that dictionary into a
/// native map again comes back as it was: the second conversion succeeds,
/// and every map that it may give is the first one.
pub proof fn lemma_map_round_trip<K: IntoValue, V: IntoValue>(
    m: Map<K, V>,
    d: DictView,
    back: Map<K, V>,
)
    requires
        one_to_one::<K>(),
        one_to_one::<V>(),
        exists|pairs: Seq<(K, V)>| lists(pairs, m) && d.entries == wrapped(pairs),
        unwraps_to(d.to_map(), back),
    ensures
        d.all_of(K::signature_spec(), V::signature_spec()),
        back == m,
{
    let pairs = choose|pairs: Seq<(K, V)>| lists(pairs, m) && d.entries == wrapped(pairs);
    let n = pairs.len() as int;
    let w = d.to_map();
    assert(d.entries.len() == n);
    assert forall|i: int| 0 <= i < n implies m.contains_key(pairs[i].0) && m[pairs[i].0]
        == pairs[i].1 by {
        assert(pairs.to_set().contains(pairs[i]));
        assert(m.kv_pairs().contains(pairs[i]));
    }
    assert forall|i: int| 0 <= i < n implies (#[trigger] d.entries[i]).0.signature()
        == K::signature_spec() && d.entries[i].1.signature() == V::signature_spec() by {
        pairs[i].0.lemma_wrap_signature();
        pairs[i].1.lemma_wrap_signature();
    }
    assert forall|i: int, j: int| 0 <= i < n && 0 <= j < n && i != j implies d.entries[i].0
        != d.entries[j].0 by {
        if d.entries[i].0 == d.entries[j].0 {
            assert(pairs[i].0.wrap() == pairs[j].0.wrap());
            assert(pairs[i].0 == pairs[j].0);
            assert(pairs[i] == pairs[j]);
        }
    }
    lemma_prefix_map(d, n);
    assert forall|k: K| back.contains_key(k) <==> m.contains_key(k) by {
        if back.contains_key(k) {
            assert(w.contains_key(k.wrap()));
            let i = choose|i: int| 0 <= i < n && (#[trigger] d.entries[i]).0 == k.wrap();
            assert(pairs[i].0.wrap() == k.wrap());
            assert(pairs[i].0 == k);
        }
        if m.contains_key(k) {
            assert(m.kv_pairs().contains((k, m[k])));
            assert(pairs.to_set().contains((k, m[k])));
            let i = choose|i: int| 0 <= i < n && pairs[i] == (k, m[k]);
            assert(d.entries[i].0 == k.wrap());
            assert(w.contains_key(k.wrap()));
        }
    }
    assert forall|k: K| back.contains_key(k) implies back[k] == m[k] by {
        assert(m.kv_pairs().contains((k, m[k])));
        assert(pairs.to_set().contains((k, m[k])));
        let i = choose|i: int| 0 <= i < n && pairs[i] == (k, m[k]);
        assert(d.entries[i].0 == k.wrap());
        assert(w[d.entries[i].0] == d.entries[i].1);
        assert(back[k].wrap() == m[k].wrap());
    }
    assert(back =~= m);
}

} // verus!
