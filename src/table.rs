use vstd::prelude::*;

use crate::config::{port_of, Config, EventKeyMapping, ServerConfig, DEFAULT_PORT};
use crate::keys::{resolve, resolve_key, Key, KeyError};

verus! {

/// What an address is mapped to: the key to tap, and the string argument
/// that a message must carry for it, if any.
#[derive(Debug)]
pub struct EventCache {
    pub value: Option<String>,
    pub key: Key,
}

/// The view of an optional string.
pub open spec fn opt_view(o: Option<String>) -> Option<Seq<char>> {
    match o {
        Some(s) => Some(s@),
        None => None,
    }
}

impl View for EventCache {
    type V = (Key, Option<Seq<char>>);

    open spec fn view(&self) -> (Key, Option<Seq<char>>) {
        (self.key, opt_view(self.value))
    }
}

/// The table from OSC address to mapping. A later insertion under an
/// address replaces the earlier one.
#[derive(Debug)]
pub struct EventKeyMap {
    entries: Vec<(String, EventCache)>,
}

/// The table that inserting `s` in order gives.
pub open spec fn map_of(s: Seq<(String, EventCache)>) -> Map<Seq<char>, (Key, Option<Seq<char>>)>
    decreases s.len(),
{
    if s.len() == 0 {
        Map::empty()
    } else {
        map_of(s.drop_last()).insert(s.last().0@, s.last().1@)
    }
}

/// The last entry under `k` gives its mapping.
proof fn lemma_map_of_last(s: Seq<(String, EventCache)>, i: int, k: Seq<char>)
    requires
        0 <= i < s.len(),
        s[i].0@ == k,
        forall|j: int| i < j < s.len() ==> s[j].0@ != k,
    ensures
        map_of(s).contains_key(k),
        map_of(s)[k] == s[i].1@,
    decreases s.len(),
{
    if i < s.len() - 1 {
        lemma_map_of_last(s.drop_last(), i, k);
    }
}

/// An address that no entry has is not in the table.
proof fn lemma_map_of_absent(s: Seq<(String, EventCache)>, k: Seq<char>)
    requires
        forall|j: int| 0 <= j < s.len() ==> s[j].0@ != k,
    ensures
        !map_of(s).contains_key(k),
    decreases s.len(),
{
    if s.len() > 0 {
        lemma_map_of_absent(s.drop_last(), k);
    }
}

impl View for EventKeyMap {
    type V = Map<Seq<char>, (Key, Option<Seq<char>>)>;

    closed spec fn view(&self) -> Map<Seq<char>, (Key, Option<Seq<char>>)> {
        map_of(self.entries@)
    }
}

impl EventKeyMap {
    /// The empty table.
    pub fn new() -> (r: EventKeyMap)
        ensures
            r@ == Map::<Seq<char>, (Key, Option<Seq<char>>)>::empty(),
    {
        EventKeyMap { entries: Vec::new() }
    }

    /// Maps `event` to `cache`, replacing what it was mapped to.
    pub fn insert(&mut self, event: String, cache: EventCache)
        ensures
            final(self)@ == old(self)@.insert(event@, cache@),
    {
        let ghost s = self.entries@;
        self.entries.push((event, cache));
        assert(self.entries@.drop_last() =~= s);
    }

    /// What `event` is mapped to.
    pub fn get(&self, event: &String) -> (r: Option<&EventCache>)
        ensures
            r is Some <==> self@.contains_key(event@),
            r matches Some(c) ==> self@[event@] == c@,
    {
        let mut i: usize = self.entries.len();
        while i > 0
            invariant
                i <= self.entries@.len(),
                forall|j: int| i <= j < self.entries@.len() ==> self.entries@[j].0@ != event@,
            decreases i,
        {
            i = i - 1;
            if self.entries[i].0 == *event {
                proof {
                    lemma_map_of_last(self.entries@, i as int, event@);
                }
                return Some(&self.entries[i].1);
            }
        }
        proof {
            lemma_map_of_absent(self.entries@, event@);
        }
        None
    }

    /// Whether no address is mapped.
    pub fn is_empty(&self) -> (r: bool)
        ensures
            r <==> self@ == Map::<Seq<char>, (Key, Option<Seq<char>>)>::empty(),
    {
        let r = self.entries.len() == 0;
        if !r {
            let ghost s = self.entries@;
            assert(map_of(s).contains_key(s.last().0@));
            assert(!Map::<Seq<char>, (Key, Option<Seq<char>>)>::empty().contains_key(s.last().0@));
        }
        r
    }
}

/// Every mapping in `ms` names a key.
pub open spec fn all_resolve(ms: Seq<EventKeyMapping>) -> bool {
    forall|i: int| 0 <= i < ms.len() ==> (#[trigger] resolve(ms[i].key@)) is Some
}

/// The table that the mappings `ms` give, each inserted in order.
pub open spec fn table_of(ms: Seq<EventKeyMapping>) -> Map<Seq<char>, (Key, Option<Seq<char>>)>
    decreases ms.len(),
{
    if ms.len() == 0 {
        Map::empty()
    } else {
        table_of(ms.drop_last()).insert(
            ms.last().event@,
            (resolve(ms.last().key@)->Some_0, opt_view(ms.last().value)),
        )
    }
}

/// Of two mappings under one address, the later one stands in the table.
pub proof fn lemma_last_write_wins(ms: Seq<EventKeyMapping>, i: int)
    requires
        0 <= i < ms.len(),
        forall|j: int| i < j < ms.len() ==> ms[j].event@ != ms[i].event@,
    ensures
        table_of(ms).contains_key(ms[i].event@),
        table_of(ms)[ms[i].event@] == (resolve(ms[i].key@)->Some_0, opt_view(ms[i].value)),
    decreases ms.len(),
{
    if i < ms.len() - 1 {
        lemma_last_write_wins(ms.drop_last(), i);
    }
}

/// The default configuration resolves to an empty table on the default port.
pub proof fn lemma_default_config(c: Config)
    requires
        c.server == Some(ServerConfig { port: DEFAULT_PORT }),
        c.mappings@.len() == 0,
    ensures
        all_resolve(c.mappings@),
        table_of(c.mappings@) == Map::<Seq<char>, (Key, Option<Seq<char>>)>::empty(),
        port_of(c.server) == DEFAULT_PORT,
{
}

/// Builds the table from the configured mappings; the first mapping whose
/// key name names no key makes it fail.
pub fn build_event_key_map(mappings: &Vec<EventKeyMapping>) -> (r: Result<EventKeyMap, KeyError>)
    ensures
        match r {
            Ok(t) => all_resolve(mappings@) && t@ == table_of(mappings@),
            Err(KeyError::UnresolvedKey(n)) => exists|i: int|
                0 <= i < mappings@.len() && resolve(#[trigger] mappings@[i].key@) is None
                    && n@ == mappings@[i].key@ && all_resolve(mappings@.take(i)),
        },
{
    let mut table = EventKeyMap::new();
    let mut i: usize = 0;
    while i < mappings.len()
        invariant
            i <= mappings@.len(),
            all_resolve(mappings@.take(i as int)),
            table@ == table_of(mappings@.take(i as int)),
        decreases mappings@.len() - i,
    {
        let m = &mappings[i];
        let key = match resolve_key(m.key.as_str()) {
            Ok(k) => k,
            Err(e) => {
                return Err(e);
            },
        };
        let value = match &m.value {
            Some(v) => Some(v.clone()),
            None => None,
        };
        table.insert(m.event.clone(), EventCache { value, key });
        proof {
            let t = mappings@.take(i + 1);
            assert(t.drop_last() =~= mappings@.take(i as int));
            assert(all_resolve(t)) by {
                assert forall|j: int| 0 <= j < t.len() implies (#[trigger] resolve(t[j].key@)) is Some by {
                    if j < i {
                        assert(t[j] == mappings@.take(i as int)[j]);
                    }
                }
            }
        }
        i = i + 1;
    }
    assert(mappings@.take(i as int) =~= mappings@);
    Ok(table)
}

} // verus!
