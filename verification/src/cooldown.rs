//! Per-(broker, metric) cooldowns: when each alert key last fired, on a monotonic clock
//! counted in nanoseconds.
use vstd::prelude::*;
use dashmap::DashMap;

verus! {

/// Nanoseconds from `last` to `now`, zero when `now` is earlier (`Instant::duration_since`).
pub open spec fn elapsed_ns(last_ns: u64, now_ns: u64) -> nat {
    if now_ns >= last_ns {
        (now_ns - last_ns) as nat
    } else {
        0
    }
}

/// `now.duration_since(last).as_secs() < cooldown_secs`: the key is still cooling down.
pub open spec fn in_cooldown(last_ns: u64, now_ns: u64, cooldown_secs: u64) -> bool {
    elapsed_ns(last_ns, now_ns) / 1_000_000_000 < cooldown_secs
}

/// A breach of `key` at `now` raises an alert: the key never fired, or its cooldown is over.
pub open spec fn may_fire(
    table: Map<Seq<char>, u64>,
    key: Seq<char>,
    now_ns: u64,
    cooldown_secs: u64,
) -> bool {
    !(table.contains_key(key) && in_cooldown(table[key], now_ns, cooldown_secs))
}

#[verifier::external_type_specification]
#[verifier::external_body]
#[verifier::reject_recursive_types(K)]
#[verifier::reject_recursive_types(V)]
#[verifier::reject_recursive_types(S)]
pub struct ExDashMap<K, V, S>(dashmap::DashMap<K, V, S>);

/// What a `DashMap` of cooldowns holds: for each key text, the time it last fired.
pub uninterp spec fn cooldown_contents(m: DashMap<String, u64>) -> Map<Seq<char>, u64>;

/// The table of a map that holds nothing.
pub open spec fn no_cooldowns() -> Map<Seq<char>, u64> {
    Map::empty()
}

/// Calls `DashMap::new`: the map holds nothing.
#[verifier::external_body]
fn dashmap_new() -> (m: DashMap<String, u64>)
    ensures
        cooldown_contents(m) == no_cooldowns(),
{
    DashMap::new()
}

/// Calls `DashMap::get` and copies out the value: the value stored under a key equal to
/// `key`, if any (keys are `String`s, compared by content).
#[verifier::external_body]
fn dashmap_get(m: &DashMap<String, u64>, key: &str) -> (r: Option<u64>)
    ensures
        r == (if cooldown_contents(*m).contains_key(key@) {
            Some(cooldown_contents(*m)[key@])
        } else {
            None
        }),
{
    m.get(key).map(|entry| *entry.value())
}

/// Calls `DashMap::insert`: afterwards `key` maps to `value`, every other key as before.
#[verifier::external_body]
fn dashmap_insert(m: &mut DashMap<String, u64>, key: String, value: u64)
    ensures
        cooldown_contents(*final(m)) == cooldown_contents(*old(m)).insert(key@, value),
{
    m.insert(key, value);
}

/// Calls `DashMap::clear`: afterwards the map holds nothing.
#[verifier::external_body]
fn dashmap_clear(m: &mut DashMap<String, u64>)
    ensures
        cooldown_contents(*final(m)) == no_cooldowns(),
{
    m.clear();
}

/// When each alert key last fired, kept in a `dashmap::DashMap` as in the agent.
///
/// Its operations take `&mut self`: Verus takes what a shared reference points to as
/// unchanging, so the changes that `DashMap` allows through `&self` are made here only
/// through an exclusive borrow, and the agent shares the table behind a mutex.
pub struct CooldownTable {
    map: DashMap<String, u64>,
}

impl View for CooldownTable {
    type V = Map<Seq<char>, u64>;

    closed spec fn view(&self) -> Map<Seq<char>, u64> {
        cooldown_contents(self.map)
    }
}

impl CooldownTable {
    /// A table in which no key has fired.
    pub fn new() -> (t: CooldownTable)
        ensures
            t@ == Map::<Seq<char>, u64>::empty(),
    {
        CooldownTable { map: dashmap_new() }
    }

    /// When `key` last fired, if ever.
    pub fn last_fired(&self, key: &str) -> (r: Option<u64>)
        ensures
            r == (if self@.contains_key(key@) {
                Some(self@[key@])
            } else {
                None
            }),
    {
        dashmap_get(&self.map, key)
    }

    /// Records that `key` fired at `now_ns`.
    pub fn record(&mut self, key: String, now_ns: u64)
        ensures
            final(self)@ == old(self)@.insert(key@, now_ns),
    {
        dashmap_insert(&mut self.map, key, now_ns);
    }

    /// Forgets every key (after a rules reload).
    pub fn clear(&mut self)
        ensures
            final(self)@ == Map::<Seq<char>, u64>::empty(),
    {
        dashmap_clear(&mut self.map);
    }

    /// A breach of `key` at `now_ns`: raises an alert unless the key is cooling down, and
    /// then records the firing.
    pub fn try_fire(&mut self, key: String, now_ns: u64, cooldown_secs: u64) -> (fired: bool)
        ensures
            fired == may_fire(old(self)@, key@, now_ns, cooldown_secs),
            fired ==> final(self)@ == old(self)@.insert(key@, now_ns),
            !fired ==> final(self)@ == old(self)@,
    {
        if let Some(last) = self.last_fired(key.as_str()) {
            let elapsed = if now_ns >= last {
                now_ns - last
            } else {
                0
            };
            if elapsed / 1_000_000_000 < cooldown_secs {
                return false;
            }
        }
        self.record(key, now_ns);
        true
    }
}

/// Law: once a key fired, it does not fire again before its cooldown is over.
pub proof fn law_cooldown_blocks_refire(
    table: Map<Seq<char>, u64>,
    key: Seq<char>,
    fired_ns: u64,
    later_ns: u64,
    cooldown_secs: u64,
)
    requires
        elapsed_ns(fired_ns, later_ns) / 1_000_000_000 < cooldown_secs,
    ensures
        !may_fire(table.insert(key, fired_ns), key, later_ns, cooldown_secs),
{
}

/// Law: once its cooldown is over, a key fires again.
pub proof fn law_cooldown_expires(
    table: Map<Seq<char>, u64>,
    key: Seq<char>,
    fired_ns: u64,
    later_ns: u64,
    cooldown_secs: u64,
)
    requires
        elapsed_ns(fired_ns, later_ns) / 1_000_000_000 >= cooldown_secs,
    ensures
        may_fire(table.insert(key, fired_ns), key, later_ns, cooldown_secs),
{
}

/// Law: the firing of one key has no bearing on another.
pub proof fn law_cooldown_keys_independent(
    table: Map<Seq<char>, u64>,
    fired: Seq<char>,
    other: Seq<char>,
    fired_ns: u64,
    now_ns: u64,
    cooldown_secs: u64,
)
    requires
        fired != other,
    ensures
        may_fire(table.insert(fired, fired_ns), other, now_ns, cooldown_secs) == may_fire(
            table,
            other,
            now_ns,
            cooldown_secs,
        ),
{
}

/// Law: after the table is cleared, and with a zero cooldown, every breach fires.
pub proof fn law_cooldown_rearmed(
    table: Map<Seq<char>, u64>,
    key: Seq<char>,
    now_ns: u64,
    cooldown_secs: u64,
)
    ensures
        may_fire(Map::empty(), key, now_ns, cooldown_secs),
        may_fire(table, key, now_ns, 0),
{
}

} // verus!
