use vstd::prelude::*;
use vstd::string::*;

use crate::text::str_eq;

verus! {

/// Side of the battle an entity fights on.
#[derive(Clone, Copy, Debug, PartialEq, Eq, Structural)]
pub enum Team {
    Player,
    Enemy,
}

/// A combatant, known by its runtime uid and its side.
#[derive(Clone, Copy, Debug)]
pub struct Entity {
    pub uid: u32,
    pub team: Team,
}

/// Two entities are the same combatant when their uids agree; the side is not compared.
impl PartialEq for Entity {
    fn eq(&self, other: &Self) -> (r: bool) {
        self.uid == other.uid
    }
}

impl vstd::std_specs::cmp::PartialEqSpecImpl for Entity {
    open spec fn obeys_eq_spec() -> bool {
        true
    }

    open spec fn eq_spec(&self, other: &Entity) -> bool {
        self.uid == other.uid
    }
}

/// A playable character in the lineup.
#[derive(Clone, Debug)]
pub struct Avatar {
    pub id: u32,
    pub name: String,
}

impl Avatar {
    /// Text an avatar is shown as: its name.
    pub fn display_text(&self) -> (s: String)
        ensures
            s@ == self.name@,
    {
        self.name.clone()
    }
}

/// A skill as the game describes it.
#[derive(Clone, Debug)]
pub struct Skill {
    pub name: String,
    pub skill_type: String,
    pub skill_config_id: isize,
}

impl Skill {
    /// Text a skill is shown as: "[type] name".
    pub fn display_text(&self) -> (s: String)
        ensures
            s@ == "["@ + self.skill_type@ + "] "@ + self.name@,
    {
        let mut s = String::from_str("[");
        s.append(self.skill_type.as_str());
        s.append("] ");
        s.append(self.name.as_str());
        s
    }
}

/// A named numeric stat of an entity.
#[derive(Clone, Debug)]
pub struct Property<N> {
    pub value: N,
    pub kind: String,
}

/// `i` is the first position in `props` whose key is `key`.
pub open spec fn first_key_at<N>(props: Seq<(String, N)>, key: Seq<char>, i: int) -> bool {
    &&& 0 <= i < props.len()
    &&& props[i].0@ == key
    &&& forall|j: int| 0 <= j < i ==> #[trigger] props[j].0@ != key
}

/// The value stored under `key`, read at its first occurrence.
pub open spec fn stat_lookup<N>(props: Seq<(String, N)>, key: Seq<char>) -> Option<N> {
    if exists|i: int| first_key_at(props, key, i) {
        Some(props[choose|i: int| first_key_at(props, key, i)].1)
    } else {
        None
    }
}

/// Proves that a first occurrence is unique, so the lookup reads it.
pub proof fn lemma_first_key_unique<N>(props: Seq<(String, N)>, key: Seq<char>, i: int)
    requires
        first_key_at(props, key, i),
    ensures
        stat_lookup(props, key) == Some(props[i].1),
        forall|k: int| first_key_at(props, key, k) ==> k == i,
{
    assert forall|k: int| first_key_at(props, key, k) implies k == i by {
        if k < i {
            assert(props[k].0@ != key);
        } else if k > i {
            assert(props[i].0@ != key);
        }
    }
}

/// Proves that a key absent from every position has no value.
pub proof fn lemma_absent_key<N>(props: Seq<(String, N)>, key: Seq<char>)
    requires
        forall|j: int| 0 <= j < props.len() ==> #[trigger] props[j].0@ != key,
    ensures
        stat_lookup(props, key) is None,
{
    if exists|i: int| first_key_at(props, key, i) {
        let i = choose|i: int| first_key_at(props, key, i);
        assert(props[i].0@ != key);
    }
}

/// Stats of an entity, keyed by property name.
///
/// The stats are held as (name, value) entries, the first entry for a name being
/// the one that counts, rather than in a string-keyed map: a holder's stats are
/// copied from the enemy that was set up, and vstd's specified string-keyed map
/// offers no copy and no walk over its entries to make one.
#[derive(Debug)]
pub struct BattleStats<N> {
    pub properties: Vec<(String, N)>,
}

impl<N> View for BattleStats<N> {
    type V = Seq<(String, N)>;

    open spec fn view(&self) -> Seq<(String, N)> {
        self.properties@
    }
}

impl<N: Copy> BattleStats<N> {
    /// Stats with no property recorded.
    pub fn new() -> (s: Self)
        ensures
            s@.len() == 0,
    {
        BattleStats { properties: Vec::new() }
    }

    /// The value recorded for `kind`.
    pub open spec fn value_of(&self, kind: Seq<char>) -> Option<N> {
        stat_lookup(self@, kind)
    }

    /// A copy holding the same entries.
    pub fn copy(&self) -> (r: Self)
        ensures
            r@ == self@,
    {
        let mut out: Vec<(String, N)> = Vec::new();
        let mut i: usize = 0;
        while i < self.properties.len()
            invariant
                i <= self.properties@.len(),
                out@ == self.properties@.subrange(0, i as int),
            decreases self.properties@.len() - i,
        {
            let k = self.properties[i].0.clone();
            let v = self.properties[i].1;
            out.push((k, v));
            assert(out@ =~= self.properties@.subrange(0, i + 1));
            i = i + 1;
        }
        assert(out@ =~= self.properties@);
        BattleStats { properties: out }
    }

    /// Position of the first entry keyed `kind`, if any.
    fn find_key(&self, kind: &str) -> (r: Option<usize>)
        ensures
            match r {
                Some(i) => first_key_at(self@, kind@, i as int),
                None => forall|j: int| 0 <= j < self@.len() ==> #[trigger] self@[j].0@ != kind@,
            },
    {
        let mut i: usize = 0;
        while i < self.properties.len()
            invariant
                i <= self.properties@.len(),
                forall|j: int| 0 <= j < i ==> #[trigger] self@[j].0@ != kind@,
            decreases self.properties@.len() - i,
        {
            if str_eq(self.properties[i].0.as_str(), kind) {
                return Some(i);
            }
            i = i + 1;
        }
        None
    }

    /// Records `value` under `kind`, replacing what was recorded there.
    pub fn set_value(&mut self, kind: &str, value: N)
        ensures
            final(self).value_of(kind@) == Some(value),
            forall|k: Seq<char>| k != kind@ ==> #[trigger] final(self).value_of(k) == old(self).value_of(k),
    {
        let ghost old_props = self@;
        match self.find_key(kind) {
            Some(i) => {
                let k = self.properties[i].0.clone();
                self.properties.set(i, (k, value));
                proof {
                    lemma_first_key_unique(self@, kind@, i as int);
                    assert(self@.len() == old_props.len());
                    assert forall|j: int| 0 <= j < self@.len() implies #[trigger] self@[j].0@ == old_props[j].0@ by {}
                    assert forall|key: Seq<char>| key != kind@ implies #[trigger] stat_lookup(self@, key)
                        == stat_lookup(old_props, key) by {
                        if exists|m: int| first_key_at(old_props, key, m) {
                            let m = choose|m: int| first_key_at(old_props, key, m);
                            assert(first_key_at(self@, key, m));
                            lemma_first_key_unique(old_props, key, m);
                            lemma_first_key_unique(self@, key, m);
                        } else {
                            if exists|m: int| first_key_at(self@, key, m) {
                                let m = choose|m: int| first_key_at(self@, key, m);
                                assert forall|j: int| 0 <= j < m implies #[trigger] old_props[j].0@ != key by {
                                    assert(self@[j].0@ == old_props[j].0@);
                                }
                                assert(self@[m].0@ == old_props[m].0@);
                                assert(first_key_at(old_props, key, m));
                            }
                        }
                    }
                }
            },
            None => {
                self.properties.push((String::from_str(kind), value));
                proof {
                    let n = old_props.len() as int;
                    assert(first_key_at(self@, kind@, n));
                    lemma_first_key_unique(self@, kind@, n);
                    assert forall|key: Seq<char>| key != kind@ implies #[trigger] stat_lookup(self@, key)
                        == stat_lookup(old_props, key) by {
                        if exists|m: int| first_key_at(old_props, key, m) {
                            let m = choose|m: int| first_key_at(old_props, key, m);
                            assert(first_key_at(self@, key, m));
                            lemma_first_key_unique(old_props, key, m);
                            lemma_first_key_unique(self@, key, m);
                        } else {
                            if exists|m: int| first_key_at(self@, key, m) {
                                let m = choose|m: int| first_key_at(self@, key, m);
                                if m < n {
                                    assert forall|j: int| 0 <= j < m implies #[trigger] old_props[j].0@ != key by {
                                        assert(self@[j] == old_props[j]);
                                    }
                                    assert(self@[m] == old_props[m]);
                                    assert(first_key_at(old_props, key, m));
                                }
                            }
                        }
                    }
                }
            },
        }
    }

    /// Records a property.
    pub fn set_property(&mut self, property: Property<N>)
        ensures
            final(self).value_of(property.kind@) == Some(property.value),
            forall|k: Seq<char>| k != property.kind@ ==> #[trigger] final(self).value_of(k) == old(self).value_of(k),
    {
        self.set_value(property.kind.as_str(), property.value);
    }

    /// The value recorded for `kind`, or `zero` when there is none.
    pub open spec fn value_or(&self, kind: Seq<char>, zero: N) -> N {
        match self.value_of(kind) {
            Some(v) => v,
            None => zero,
        }
    }

    /// The current hp, or `zero` when none is recorded.
    pub fn current_hp(&self, zero: N) -> (r: N)
        ensures
            r == self.value_or("CurrentHP"@, zero),
    {
        match self.get_value("CurrentHP") {
            Some(v) => v,
            None => zero,
        }
    }

    /// The action delay, or `zero` when none is recorded.
    pub fn av(&self, zero: N) -> (r: N)
        ensures
            r == self.value_or("ActionDelay"@, zero),
    {
        match self.get_value("ActionDelay") {
            Some(v) => v,
            None => zero,
        }
    }

    /// The max hp, or `zero` when none is recorded.
    pub fn max_hp(&self, zero: N) -> (r: N)
        ensures
            r == self.value_or("MaxHP"@, zero),
    {
        match self.get_value("MaxHP") {
            Some(v) => v,
            None => zero,
        }
    }

    /// The value recorded for `kind`, if any.
    pub fn get_value(&self, kind: &str) -> (r: Option<N>)
        ensures
            r == self.value_of(kind@),
    {
        match self.find_key(kind) {
            Some(i) => {
                proof {
                    lemma_first_key_unique(self@, kind@, i as int);
                }
                Some(self.properties[i].1)
            },
            None => {
                proof {
                    lemma_absent_key(self@, kind@);
                }
                None
            },
        }
    }
}

/// An enemy as it entered the battle.
#[derive(Debug)]
pub struct Enemy<N> {
    pub id: u32,
    pub uid: u32,
    pub name: String,
    pub base_stats: BattleStats<N>,
}

/// A combatant together with its current stats.
#[derive(Debug)]
pub struct BattleEntity<N> {
    pub entity: Entity,
    pub properties: BattleStats<N>,
}

/// What happened in one turn: when it ended, where, and who dealt how much.
#[derive(Debug)]
pub struct TurnInfo<N> {
    pub action_value: N,
    pub cycle: u32,
    pub wave: u32,
    pub avatars_turn_damage: Vec<N>,
    pub total_damage: N,
}

/// A vector holding `n` copies of `v`.
pub fn filled<N: Copy>(v: N, n: usize) -> (r: Vec<N>)
    ensures
        r@ == Seq::new(n as nat, |i: int| v),
{
    let mut out: Vec<N> = Vec::new();
    let mut i: usize = 0;
    while i < n
        invariant
            i <= n,
            out@ == Seq::new(i as nat, |k: int| v),
        decreases n - i,
    {
        out.push(v);
        assert(out@ =~= Seq::new((i + 1) as nat, |k: int| v));
        i = i + 1;
    }
    out
}

/// A copy of a vector of plain values.
pub fn copy_values<N: Copy>(v: &Vec<N>) -> (r: Vec<N>)
    ensures
        r@ == v@,
{
    let mut out: Vec<N> = Vec::new();
    let mut i: usize = 0;
    while i < v.len()
        invariant
            i <= v@.len(),
            out@ == v@.subrange(0, i as int),
        decreases v@.len() - i,
    {
        out.push(v[i]);
        assert(out@ =~= v@.subrange(0, i + 1));
        i = i + 1;
    }
    assert(out@ =~= v@);
    out
}

impl<N: Copy> TurnInfo<N> {
    /// A turn with nothing recorded: every number is `zero`, no damages.
    pub fn new(zero: N) -> (t: Self)
        ensures
            t.action_value == zero,
            t.cycle == 0,
            t.wave == 0,
            t.avatars_turn_damage@.len() == 0,
            t.total_damage == zero,
    {
        TurnInfo { action_value: zero, cycle: 0, wave: 0, avatars_turn_damage: Vec::new(), total_damage: zero }
    }

    /// A copy of this turn.
    pub fn copy(&self) -> (r: Self)
        ensures
            r.action_value == self.action_value,
            r.cycle == self.cycle,
            r.wave == self.wave,
            r.avatars_turn_damage@ == self.avatars_turn_damage@,
            r.total_damage == self.total_damage,
    {
        TurnInfo {
            action_value: self.action_value,
            cycle: self.cycle,
            wave: self.wave,
            avatars_turn_damage: copy_values(&self.avatars_turn_damage),
            total_damage: self.total_damage,
        }
    }
}

} // verus!
