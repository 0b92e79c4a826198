//! Fields of events and spans, and how a span's fields reach what happens inside it.
use serde_json::Value as JsonDocument;
use vstd::prelude::*;
use vstd::string::*;

use crate::text::{padded_decimal, push_padded_decimal};
use crate::value::{double_value, integer_number, Number, Value, ValueView};

verus! {

/// A key and its value.
pub type Entry = (Seq<char>, ValueView);

/// What a reader of the entries finds under `key`: the last value written for it.
pub open spec fn lookup(entries: Seq<Entry>, key: Seq<char>) -> Option<ValueView>
    decreases entries.len(),
{
    if entries.len() == 0 {
        None
    } else if entries.last().0 == key {
        Some(entries.last().1)
    } else {
        lookup(entries.drop_last(), key)
    }
}

/// What a reader of the entries finds, key by key.
pub open spec fn entries_map(entries: Seq<Entry>) -> Map<Seq<char>, ValueView> {
    Map::new(
        |key: Seq<char>| lookup(entries, key) is Some,
        |key: Seq<char>| lookup(entries, key)->0,
    )
}

/// No key occurs twice.
pub open spec fn distinct_keys(entries: Seq<Entry>) -> bool {
    forall|i: int, j: int|
        0 <= i < j < entries.len() ==> (#[trigger] entries[i]).0 != (#[trigger] entries[j]).0
}

/// The entries of a list, with their text as characters.
pub open spec fn entry_views(fields: Seq<(String, Value)>) -> Seq<Entry> {
    fields.map_values(|entry: (String, Value)| (entry.0@, entry.1@))
}

/// The entries of a list are its keys and values, one for one and in order.
pub proof fn entries_are_shown_one_for_one(fields: Seq<(String, Value)>)
    ensures
        entry_views(fields).len() == fields.len(),
        forall|i: int|
            0 <= i < fields.len() ==> #[trigger] entry_views(fields)[i] == (
                fields[i].0@,
                fields[i].1@,
            ),
{
}

/// What is found under a key is the value of the last entry with that key, and nothing where no
/// entry has it.
pub proof fn last_entry_is_found(entries: Seq<Entry>, key: Seq<char>)
    ensures
        entries_map(entries).dom().contains(key) <==> exists|i: int|
            0 <= i < entries.len() && (#[trigger] entries[i]).0 == key,
        forall|i: int|
            0 <= i < entries.len() && (#[trigger] entries[i]).0 == key && (forall|j: int|
                i < j < entries.len() ==> (#[trigger] entries[j]).0 != key)
                ==> entries_map(entries)[key] == entries[i].1,
{
    if lookup(entries, key) is Some {
        let i = lookup_found(entries, key);
        assert(entries[i].0 == key);
    } else {
        if exists|i: int| 0 <= i < entries.len() && (#[trigger] entries[i]).0 == key {
            last_of_key(entries, key);
        }
    }
    assert forall|i: int|
        0 <= i < entries.len() && (#[trigger] entries[i]).0 == key && (forall|j: int|
            i < j < entries.len() ==> (#[trigger] entries[j]).0 != key) implies entries_map(
        entries,
    )[key] == entries[i].1 by {
        lookup_at(entries, i);
    }
}

/// A key that occurs is found.
proof fn last_of_key(entries: Seq<Entry>, key: Seq<char>)
    requires
        exists|i: int| 0 <= i < entries.len() && (#[trigger] entries[i]).0 == key,
    ensures
        lookup(entries, key) is Some,
    decreases entries.len(),
{
    if entries.last().0 != key {
        let i = choose|i: int| 0 <= i < entries.len() && (#[trigger] entries[i]).0 == key;
        assert(entries.drop_last()[i].0 == key);
        last_of_key(entries.drop_last(), key);
    }
}

/// A key that occurs at `i` and nowhere later gives the value at `i`.
pub proof fn lookup_at(entries: Seq<Entry>, i: int)
    requires
        0 <= i < entries.len(),
        forall|j: int| i < j < entries.len() ==> (#[trigger] entries[j]).0 != entries[i].0,
    ensures
        lookup(entries, entries[i].0) == Some(entries[i].1),
    decreases entries.len(),
{
    if i < entries.len() - 1 {
        assert(entries.last().0 != entries[i].0);
        lookup_at(entries.drop_last(), i);
    }
}

/// A key that does not occur gives nothing.
pub proof fn lookup_absent(entries: Seq<Entry>, key: Seq<char>)
    requires
        forall|j: int| 0 <= j < entries.len() ==> (#[trigger] entries[j]).0 != key,
    ensures
        lookup(entries, key) is None,
    decreases entries.len(),
{
    if entries.len() > 0 {
        lookup_absent(entries.drop_last(), key);
    }
}

/// A key that is found occurs.
pub proof fn lookup_found(entries: Seq<Entry>, key: Seq<char>) -> (i: int)
    requires
        lookup(entries, key) is Some,
    ensures
        0 <= i < entries.len(),
        entries[i].0 == key,
        lookup(entries, key) == Some(entries[i].1),
    decreases entries.len(),
{
    if entries.last().0 == key {
        entries.len() - 1
    } else {
        lookup_found(entries.drop_last(), key)
    }
}

/// Reading two lists one after the other: the second hides the first.
pub proof fn lookup_concat(first: Seq<Entry>, second: Seq<Entry>, key: Seq<char>)
    ensures
        lookup(first + second, key) == (if lookup(second, key) is Some {
            lookup(second, key)
        } else {
            lookup(first, key)
        }),
    decreases second.len(),
{
    if second.len() == 0 {
        assert(first + second =~= first);
    } else {
        assert((first + second).last() == second.last());
        assert((first + second).drop_last() =~= first + second.drop_last());
        lookup_concat(first, second.drop_last(), key);
    }
}

/// In a list without repeated keys, another value at `i` changes what is found under that key
/// and nothing else.
proof fn update_entry(entries: Seq<Entry>, i: int, value: ValueView)
    requires
        0 <= i < entries.len(),
        distinct_keys(entries),
    ensures
        distinct_keys(entries.update(i, (entries[i].0, value))),
        entries_map(entries.update(i, (entries[i].0, value))) == entries_map(entries).insert(
            entries[i].0,
            value,
        ),
{
    let key = entries[i].0;
    let after = entries.update(i, (key, value));
    assert forall|a: int, b: int| 0 <= a < b < after.len() implies (#[trigger] after[a]).0 != (
    #[trigger] after[b]).0 by {
        assert(after[a].0 == entries[a].0);
        assert(after[b].0 == entries[b].0);
    }
    assert forall|k: Seq<char>|
        #![trigger entries_map(after)[k]]
        #![trigger entries_map(after).dom().contains(k)]
        lookup(after, k) == (if k == key {
            Some(value)
        } else {
            lookup(entries, k)
        }) by {
        if k == key {
            lookup_at(after, i);
        } else if lookup(entries, k) is Some {
            let j = lookup_found(entries, k);
            assert(after[j] == entries[j]);
            lookup_at(after, j);
        } else {
            if lookup(after, k) is Some {
                let j = lookup_found(after, k);
                assert(after[j] == entries[j]);
                lookup_at(entries, j);
            }
        }
    }
    assert(entries_map(after) =~= entries_map(entries).insert(key, value));
}

/// A new key at the end adds to what is found.
proof fn push_entry(entries: Seq<Entry>, key: Seq<char>, value: ValueView)
    requires
        distinct_keys(entries),
        forall|j: int| 0 <= j < entries.len() ==> (#[trigger] entries[j]).0 != key,
    ensures
        distinct_keys(entries.push((key, value))),
        entries_map(entries.push((key, value))) == entries_map(entries).insert(key, value),
{
    let after = entries.push((key, value));
    assert(after.drop_last() =~= entries);
    assert(entries_map(after) =~= entries_map(entries).insert(key, value));
}

/// In a list without repeated keys, taking out an entry takes its key out of what is found.
proof fn remove_entry(entries: Seq<Entry>, i: int)
    requires
        0 <= i < entries.len(),
        distinct_keys(entries),
    ensures
        distinct_keys(entries.remove(i)),
        entries_map(entries.remove(i)) == entries_map(entries).remove(entries[i].0),
{
    let key = entries[i].0;
    let after = entries.remove(i);
    assert forall|a: int, b: int| 0 <= a < b < after.len() implies (#[trigger] after[a]).0 != (
    #[trigger] after[b]).0 by {
        let a0 = if a < i { a } else { a + 1 };
        let b0 = if b < i { b } else { b + 1 };
        assert(after[a] == entries[a0]);
        assert(after[b] == entries[b0]);
    }
    assert forall|k: Seq<char>|
        #![trigger entries_map(after)[k]]
        #![trigger entries_map(after).dom().contains(k)]
        lookup(after, k) == (if k == key {
            None
        } else {
            lookup(entries, k)
        }) by {
        if lookup(after, k) is Some {
            let j = lookup_found(after, k);
            let j0 = if j < i { j } else { j + 1 };
            assert(after[j] == entries[j0]);
            lookup_at(entries, j0);
        }
        if k != key && lookup(entries, k) is Some {
            let j = lookup_found(entries, k);
            let j1 = if j < i { j } else { j - 1 };
            assert(after[j1] == entries[j]);
            lookup_at(after, j1);
        }
    }
    assert(entries_map(after) =~= entries_map(entries).remove(key));
}

/// The fields of one event or span, on top of those of the span around it.
#[derive(Debug)]
pub struct FieldCascade {
    parent: Option<Box<FieldCascade>>,
    fields: Vec<(String, Value)>,
}

impl FieldCascade {
    /// The fields recorded at this level, in the order in which they are written out.
    pub closed spec fn own(&self) -> Seq<Entry> {
        entry_views(self.fields@)
    }

    /// The level around this one.
    pub closed spec fn outer(&self) -> Option<Box<FieldCascade>> {
        self.parent
    }

    /// The value of each field recorded at this level.
    pub open spec fn fields(&self) -> Map<Seq<char>, ValueView> {
        entries_map(self.own())
    }

    /// No level records a key twice.
    pub closed spec fn wf(&self) -> bool
        decreases self,
    {
        &&& distinct_keys(self.own())
        &&& match self.parent {
            Some(parent) => parent.wf(),
            None => true,
        }
    }

    /// All entries as they are written out: the outermost level first.
    pub closed spec fn entries(&self) -> Seq<Entry>
        decreases self,
    {
        match self.parent {
            Some(parent) => parent.entries() + self.own(),
            None => self.own(),
        }
    }

    /// A level without fields inside `parent`.
    pub fn new(parent: Option<FieldCascade>) -> (r: Self)
        requires
            parent matches Some(parent) ==> parent.wf(),
        ensures
            r.wf(),
            r.own() == Seq::<Entry>::empty(),
            r.outer() is Some <==> parent is Some,
            parent is Some ==> *r.outer()->0 == parent->0,
    {
        let r = FieldCascade {
            parent: match parent {
                Some(parent) => Some(Box::new(parent)),
                None => None,
            },
            fields: Vec::new(),
        };
        assert(r.own() =~= Seq::<Entry>::empty());
        r
    }

    /// A copy of this level, inside another one.
    pub fn inside(&self, parent: Option<FieldCascade>) -> (r: Self)
        requires
            self.wf(),
            parent matches Some(parent) ==> parent.wf(),
        ensures
            r.wf(),
            r.own() == self.own(),
            r.outer() is Some <==> parent is Some,
            parent is Some ==> *r.outer()->0 == parent->0,
    {
        let mut fields: Vec<(String, Value)> = Vec::new();
        let mut i: usize = 0;
        while i < self.fields.len()
            invariant
                i <= self.fields@.len(),
                entry_views(fields@) =~= self.own().take(i as int),
            decreases self.fields@.len() - i,
        {
            let ghost before = fields@;
            let key: String = self.fields[i].0.clone();
            let value: Value = self.fields[i].1.clone();
            fields.push((key, value));
            assert(entry_views(fields@) =~= entry_views(before).push(self.own()[i as int]));
            i = i + 1;
        }
        let mut r = FieldCascade::new(parent);
        r.fields = fields;
        assert(r.own() =~= self.own());
        r
    }

    /// The position of a key at this level.
    fn position(&self, key: &String) -> (r: Option<usize>)
        ensures
            match r {
                Some(i) => i < self.fields@.len() && self.own()[i as int].0 == key@,
                None => forall|j: int|
                    0 <= j < self.own().len() ==> (#[trigger] self.own()[j]).0 != key@,
            },
    {
        let mut i: usize = 0;
        while i < self.fields.len()
            invariant
                i <= self.fields@.len(),
                forall|j: int| 0 <= j < i ==> (#[trigger] self.own()[j]).0 != key@,
            decreases self.fields@.len() - i,
        {
            if self.fields[i].0 == *key {
                return Some(i);
            }
            i = i + 1;
        }
        None
    }

    /// Records a field at this level, under its name; an earlier value is replaced.
    pub fn record<V: Into<Value>>(&mut self, field: &str, value: V)
        requires
            old(self).wf(),
        ensures
            final(self).wf(),
            final(self).outer() == old(self).outer(),
            exists|v: Value| #[trigger]
                call_ensures(V::into, (value,), v) && final(self).fields() == old(
                    self,
                ).fields().insert(field@, v@),
    {
        let value: Value = value.into();
        self.set(field.to_owned(), value);
    }

    /// Records a value under an owned name.
    fn set(&mut self, key: String, value: Value)
        requires
            old(self).wf(),
        ensures
            final(self).wf(),
            final(self).outer() == old(self).outer(),
            final(self).fields() == old(self).fields().insert(key@, value@),
    {
        let ghost before = self.own();
        match self.position(&key) {
            Some(i) => {
                proof {
                    update_entry(before, i as int, value@);
                }
                self.fields.set(i, (key, value));
                assert(self.own() =~= before.update(i as int, (key@, value@)));
            },
            None => {
                proof {
                    push_entry(before, key@, value@);
                }
                self.fields.push((key, value));
                assert(self.own() =~= before.push((key@, value@)));
            },
        }
    }

    /// Records text that stands for a value without a form of its own.
    pub fn record_debug(&mut self, field: &str, debug: String)
        requires
            old(self).wf(),
        ensures
            final(self).wf(),
            final(self).outer() == old(self).outer(),
            final(self).fields() == old(self).fields().insert(
                field@,
                ValueView::String(debug@),
            ),
    {
        self.set(field.to_owned(), Value::String(debug));
    }

    /// Records a double, given by its bits.
    pub fn record_f64(&mut self, field: &str, bits: u64)
        requires
            old(self).wf(),
        ensures
            final(self).wf(),
            final(self).outer() == old(self).outer(),
            final(self).fields() == old(self).fields().insert(field@, double_value(bits)),
    {
        self.set(field.to_owned(), Value::from_f64_bits(bits));
    }

    /// Records a signed integer.
    pub fn record_i64(&mut self, field: &str, value: i64)
        requires
            old(self).wf(),
        ensures
            final(self).wf(),
            final(self).outer() == old(self).outer(),
            final(self).fields() == old(self).fields().insert(
                field@,
                ValueView::Number(integer_number(value as int)),
            ),
    {
        self.set(field.to_owned(), Value::Number(Number::from_i64(value)));
    }

    /// Records an unsigned integer.
    pub fn record_u64(&mut self, field: &str, value: u64)
        requires
            old(self).wf(),
        ensures
            final(self).wf(),
            final(self).outer() == old(self).outer(),
            final(self).fields() == old(self).fields().insert(
                field@,
                ValueView::Number(integer_number(value as int)),
            ),
    {
        self.set(field.to_owned(), Value::Number(Number::from_u64(value)));
    }

    /// Records a truth value.
    pub fn record_bool(&mut self, field: &str, value: bool)
        requires
            old(self).wf(),
        ensures
            final(self).wf(),
            final(self).outer() == old(self).outer(),
            final(self).fields() == old(self).fields().insert(field@, ValueView::Bool(value)),
    {
        self.set(field.to_owned(), Value::Bool(value));
    }

    /// Records text.
    pub fn record_str(&mut self, field: &str, value: &str)
        requires
            old(self).wf(),
        ensures
            final(self).wf(),
            final(self).outer() == old(self).outer(),
            final(self).fields() == old(self).fields().insert(
                field@,
                ValueView::String(value@),
            ),
    {
        self.set(field.to_owned(), Value::String(value.to_owned()));
    }

    /// Records a structured value, or its debug text where it could not be made into JSON.
    pub fn record_serde(&mut self, field: &str, value: Option<JsonDocument>, debug: String)
        requires
            old(self).wf(),
        ensures
            final(self).wf(),
            final(self).outer() == old(self).outer(),
            final(self).fields() == old(self).fields().insert(
                field@,
                match value {
                    Some(value) => ValueView::Json(value),
                    None => ValueView::String(debug@),
                },
            ),
    {
        match value {
            Some(value) => self.set(field.to_owned(), Value::Json(value)),
            None => self.record_debug(field, debug),
        }
    }

    /// Records an error: what it displays under the field's name, its debug text under the
    /// name with `.debug`, and the chain of its sources under the name with `.chain`.
    pub fn record_error(
        &mut self,
        field: &str,
        display: String,
        debug: String,
        sources: &Vec<String>,
    )
        requires
            old(self).wf(),
        ensures
            final(self).wf(),
            final(self).outer() == old(self).outer(),
            final(self).fields() == old(self).fields().insert(
                field@,
                ValueView::String(display@),
            ).insert(field@ + ".debug"@, ValueView::String(debug@)).insert(
                field@ + ".chain"@,
                ValueView::String(error_chain(sources@)),
            ),
    {
        self.set(field.to_owned(), Value::String(display));
        let debug_key: String = field.to_owned().concat(".debug");
        self.set(debug_key, Value::String(debug));
        let chain: String = render_chain(sources);
        let chain_key: String = field.to_owned().concat(".chain");
        self.set(chain_key, Value::String(chain));
    }

    /// Takes the message out, if there is one and it is text.
    pub fn take_message(&mut self) -> (r: Option<String>)
        requires
            old(self).wf(),
        ensures
            final(self).wf(),
            final(self).outer() == old(self).outer(),
            r is Some <==> old(self).fields().dom().contains("message"@) && old(
                self,
            ).fields()["message"@] is String,
            r matches Some(message) ==> {
                &&& old(self).fields()["message"@] == ValueView::String(message@)
                &&& final(self).fields() == old(self).fields().remove("message"@)
            },
            r is None ==> *final(self) == *old(self),
    {
        let ghost before = self.own();
        let key: String = "message".to_owned();
        match self.position(&key) {
            Some(i) => {
                proof {
                    lookup_at(before, i as int);
                }
                match &self.fields[i].1 {
                    Value::String(_) => {
                        proof {
                            remove_entry(before, i as int);
                        }
                        let (_, value) = self.fields.remove(i);
                        assert(self.own() =~= before.remove(i as int));
                        match value {
                            Value::String(message) => Some(message),
                            _ => None,
                        }
                    },
                    _ => None,
                }
            },
            None => {
                proof {
                    lookup_absent(before, key@);
                }
                None
            },
        }
    }

    /// Writes the cascade out, the outermost level first.
    pub fn serialize_fields(self) -> (r: Vec<(String, Value)>)
        ensures
            entry_views(r@) == self.entries(),
        decreases self,
    {
        let mut own = self.fields;
        match self.parent {
            Some(parent) => {
                let parent: FieldCascade = *parent;
                let mut all = parent.serialize_fields();
                let ghost outer = all@;
                let ghost inner = own@;
                all.append(&mut own);
                assert(entry_views(all@) =~= entry_views(outer) + entry_views(inner));
                all
            },
            None => own,
        }
    }
}

/// A level writes each of its fields once: no key occurs twice among its entries, of which there
/// are as many as fields. The same holds of the level around it.
pub proof fn level_writes_each_field_once(cascade: FieldCascade)
    requires
        cascade.wf(),
    ensures
        distinct_keys(cascade.own()),
        cascade.fields().dom().finite(),
        cascade.own().len() == cascade.fields().dom().len(),
        cascade.outer() matches Some(outer) ==> (*outer).wf(),
{
    let own = cascade.own();
    let keys = own.map_values(|entry: Entry| entry.0);
    assert forall|i: int, j: int| 0 <= i < keys.len() && 0 <= j < keys.len() && i != j implies keys[i]
        != keys[j] by {
        if i < j {
            assert(own[i].0 != own[j].0);
        } else {
            assert(own[j].0 != own[i].0);
        }
    }
    keys.unique_seq_to_set();
    assert forall|key: Seq<char>| cascade.fields().dom().contains(key) <==> keys.to_set().contains(
        key,
    ) by {
        if lookup(own, key) is Some {
            let i = lookup_found(own, key);
            assert(keys[i] == key);
        }
        if keys.contains(key) {
            let i = choose|i: int| 0 <= i < keys.len() && keys[i] == key;
            assert(own[i].0 == key);
            lookup_at(own, i);
        }
    }
    assert(cascade.fields().dom() =~= keys.to_set());
}

/// A cascade is written out in order: the level around it first, and its own fields after that.
pub proof fn outer_entries_come_first(cascade: FieldCascade)
    ensures
        cascade.entries() == (match cascade.outer() {
            Some(outer) => (*outer).entries() + cascade.own(),
            None => cascade.own(),
        }),
{
}

/// A reader of the entries written out finds, under each key, the value of the innermost level
/// that records it.
pub proof fn innermost_value_wins(cascade: FieldCascade, key: Seq<char>)
    ensures
        lookup(cascade.entries(), key) == (if cascade.fields().dom().contains(key) {
            Some(cascade.fields()[key])
        } else if cascade.outer() is Some {
            lookup((*cascade.outer()->0).entries(), key)
        } else {
            None
        }),
{
    match cascade.parent {
        Some(parent) => lookup_concat(parent.entries(), cascade.own(), key),
        None => {},
    }
}

/// The sources of an error, outermost first, one on each line, numbered from zero.
pub open spec fn error_chain(sources: Seq<String>) -> Seq<char>
    decreases sources.len(),
{
    if sources.len() == 0 {
        Seq::empty()
    } else {
        let line = padded_decimal((sources.len() - 1) as nat, 4) + ": "@ + sources.last()@;
        if sources.len() == 1 {
            line
        } else {
            error_chain(sources.drop_last()).push('\n') + line
        }
    }
}

/// A further source adds one line at the end of the chain and changes none before it: its number,
/// right-aligned in four characters, a colon, a blank, and what it displays.
pub proof fn chain_grows_by_a_line(sources: Seq<String>, source: String)
    ensures
        error_chain(Seq::empty()) == Seq::<char>::empty(),
        error_chain(sources.push(source)) == (if sources.len() == 0 {
            Seq::empty()
        } else {
            error_chain(sources) + seq!['\n']
        }) + (padded_decimal(sources.len(), 4) + seq![':', ' '] + source@),
{
    reveal_strlit(": ");
    assert(": "@ =~= seq![':', ' ']);
    let all = sources.push(source);
    assert(all.drop_last() =~= sources);
    let line = padded_decimal(sources.len(), 4) + ": "@ + source@;
    if sources.len() == 0 {
        assert(Seq::<char>::empty() + line =~= line);
    } else {
        assert(error_chain(sources).push('\n') =~= error_chain(sources) + seq!['\n']);
    }
}

/// Renders the chain of sources.
fn render_chain(sources: &Vec<String>) -> (r: String)
    ensures
        r@ == error_chain(sources@),
{
    let mut chain: String = String::new();
    let mut i: usize = 0;
    while i < sources.len()
        invariant
            i <= sources@.len(),
            chain@ == error_chain(sources@.take(i as int)),
        decreases sources@.len() - i,
    {
        if i > 0 {
            chain.push('\n');
        }
        push_padded_decimal(&mut chain, i as u64, 4);
        chain.append(": ");
        chain.append(sources[i].as_str());
        proof {
            let next = sources@.take(i + 1);
            assert(next.drop_last() =~= sources@.take(i as int));
            assert(next.last() == sources@[i as int]);
            let line = padded_decimal(i as nat, 4) + ": "@ + sources@[i as int]@;
            if i == 0 {
                assert(chain@ =~= line);
            } else {
                assert(chain@ =~= error_chain(sources@.take(i as int)).push('\n') + line);
            }
        }
        i = i + 1;
    }
    assert(sources@.take(i as int) =~= sources@);
    chain
}

} // verus!
