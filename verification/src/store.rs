//! The agent's local state: the rules it has applied, keyed by rule id and
//! kept in key order, and the path of its last ruleset backup.

use vstd::prelude::*;
use crate::json::{JsonValue, JsonView};
use crate::text::{chars_of, owned};

verus! {

// ---------------------------------------------------------------------------
// The order of keys
// ---------------------------------------------------------------------------

/// Lexicographic order of texts by code point, which is the byte order of
/// their UTF-8 encodings and so the order of `String`.
pub open spec fn key_lt(a: Seq<char>, b: Seq<char>) -> bool
    decreases a.len(),
{
    if a.len() == 0 {
        b.len() > 0
    } else if b.len() == 0 {
        false
    } else if a[0] < b[0] {
        true
    } else if a[0] == b[0] {
        key_lt(a.drop_first(), b.drop_first())
    } else {
        false
    }
}

pub proof fn lemma_key_lt_irreflexive(a: Seq<char>)
    ensures
        !key_lt(a, a),
    decreases a.len(),
{
    if a.len() > 0 {
        lemma_key_lt_irreflexive(a.drop_first());
    }
}

pub proof fn lemma_key_lt_transitive(a: Seq<char>, b: Seq<char>, c: Seq<char>)
    requires
        key_lt(a, b),
        key_lt(b, c),
    ensures
        key_lt(a, c),
    decreases a.len(),
{
    if a.len() > 0 && b.len() > 0 && c.len() > 0 {
        if a[0] == b[0] && b[0] == c[0] {
            lemma_key_lt_transitive(a.drop_first(), b.drop_first(), c.drop_first());
        }
    }
}

pub proof fn lemma_key_lt_total(a: Seq<char>, b: Seq<char>)
    requires
        a != b,
    ensures
        key_lt(a, b) || key_lt(b, a),
    decreases a.len(),
{
    if a.len() > 0 && b.len() > 0 && a[0] == b[0] {
        if a.drop_first() == b.drop_first() {
            assert(a =~= seq![a[0]] + a.drop_first());
            assert(b =~= seq![b[0]] + b.drop_first());
        }
        lemma_key_lt_total(a.drop_first(), b.drop_first());
    } else if a.len() == 0 && b.len() == 0 {
        assert(a =~= b);
    }
}

/// Whether `a` sorts before `b`.
pub fn key_less(a: &[char], b: &[char]) -> (r: bool)
    ensures
        r == key_lt(a@, b@),
{
    let n = a.len();
    let m = b.len();
    let mut i: usize = 0;
    assert(a@.subrange(0, n as int) =~= a@);
    assert(b@.subrange(0, m as int) =~= b@);
    loop
        invariant
            n == a@.len(),
            m == b@.len(),
            i <= n,
            i <= m,
            key_lt(a@, b@) == key_lt(a@.subrange(i as int, n as int), b@.subrange(i as int, m as int)),
        decreases n - i,
    {
        if i == n {
            return i < m;
        }
        if i == m {
            return false;
        }
        let x = a[i];
        let y = b[i];
        if x < y {
            return true;
        }
        if x != y {
            return false;
        }
        assert(a@.subrange(i as int, n as int).drop_first() =~= a@.subrange(i + 1, n as int));
        assert(b@.subrange(i as int, m as int).drop_first() =~= b@.subrange(i + 1, m as int));
        i = i + 1;
    }
}

// ---------------------------------------------------------------------------
// A map from rule ids to payloads, in key order
// ---------------------------------------------------------------------------

/// One applied rule: its id and the payload it was applied with.
#[derive(Debug, PartialEq)]
pub struct RuleEntry {
    pub rule_id: String,
    pub payload: JsonValue,
}

/// The applied rules, kept sorted by rule id with no id twice.
pub struct RuleMap {
    entries: Vec<RuleEntry>,
}

/// The (id, payload) pairs of a list of entries.
pub open spec fn entries_view(es: Seq<RuleEntry>) -> Seq<(Seq<char>, JsonView)> {
    Seq::new(es.len(), |i: int| (es[i].rule_id@, es[i].payload@))
}

/// Strictly increasing keys.
pub open spec fn sorted_keys(es: Seq<(Seq<char>, JsonView)>) -> bool {
    forall|i: int, j: int| 0 <= i < j < es.len() ==> key_lt(#[trigger] es[i].0, #[trigger] es[j].0)
}

pub open spec fn has_key(es: Seq<(Seq<char>, JsonView)>, k: Seq<char>) -> bool {
    exists|i: int| 0 <= i < es.len() && #[trigger] es[i].0 == k
}

/// The map that sorted pairs stand for.
pub open spec fn map_of(es: Seq<(Seq<char>, JsonView)>) -> Map<Seq<char>, JsonView> {
    Map::new(
        |k: Seq<char>| has_key(es, k),
        |k: Seq<char>| es[key_index(es, k)].1,
    )
}

/// The position of a key among the pairs.
pub open spec fn key_index(es: Seq<(Seq<char>, JsonView)>, k: Seq<char>) -> int {
    choose|i: int| 0 <= i < es.len() && #[trigger] es[i].0 == k
}

pub proof fn lemma_sorted_unique(es: Seq<(Seq<char>, JsonView)>, i: int, j: int)
    requires
        sorted_keys(es),
        0 <= i < es.len(),
        0 <= j < es.len(),
        es[i].0 == es[j].0,
    ensures
        i == j,
{
    if i < j {
        lemma_key_lt_irreflexive(es[i].0);
    } else if j < i {
        lemma_key_lt_irreflexive(es[i].0);
    }
}

pub proof fn lemma_map_of_at(es: Seq<(Seq<char>, JsonView)>, i: int)
    requires
        sorted_keys(es),
        0 <= i < es.len(),
    ensures
        map_of(es).dom().contains(es[i].0),
        map_of(es)[es[i].0] == es[i].1,
{
    let k = es[i].0;
    assert(has_key(es, k));
    let c = key_index(es, k);
    lemma_sorted_unique(es, i, c);
}

impl View for RuleMap {
    type V = Map<Seq<char>, JsonView>;

    closed spec fn view(&self) -> Map<Seq<char>, JsonView> {
        map_of(entries_view(self.entries@))
    }
}

impl RuleMap {
    /// The entries in key order.
    pub closed spec fn ordered(&self) -> Seq<(Seq<char>, JsonView)> {
        entries_view(self.entries@)
    }

    pub closed spec fn wf(&self) -> bool {
        sorted_keys(entries_view(self.entries@))
    }

    pub proof fn lemma_ordered(&self)
        requires
            self.wf(),
        ensures
            sorted_keys(self.ordered()),
            self@ == map_of(self.ordered()),
            self@.dom().finite(),
            self@.dom().len() == self.ordered().len(),
    {
        let es = self.ordered();
        let keys = Seq::new(es.len(), |i: int| es[i].0);
        assert forall|i: int, j: int| 0 <= i < keys.len() && 0 <= j < keys.len() && i != j implies keys[i] != keys[j] by {
            if keys[i] == keys[j] {
                lemma_sorted_unique(es, i, j);
            }
        }
        keys.unique_seq_to_set();
        assert(self@.dom() =~= keys.to_set()) by {
            assert forall|k: Seq<char>| self@.dom().contains(k) implies keys.to_set().contains(k) by {
                let i = choose|i: int| 0 <= i < es.len() && #[trigger] es[i].0 == k;
                assert(keys[i] == k);
            }
            assert forall|k: Seq<char>| keys.to_set().contains(k) implies self@.dom().contains(k) by {
                let i = choose|i: int| 0 <= i < keys.len() && keys[i] == k;
                assert(es[i].0 == k);
            }
        }
    }

    pub fn new() -> (r: RuleMap)
        ensures
            r.wf(),
            r@ == Map::<Seq<char>, JsonView>::empty(),
            r.ordered().len() == 0,
    {
        let r = RuleMap { entries: Vec::new() };
        assert(r@ =~= Map::<Seq<char>, JsonView>::empty());
        r
    }

    pub fn len(&self) -> (r: usize)
        requires
            self.wf(),
        ensures
            r == self@.dom().len(),
    {
        proof {
            self.lemma_ordered();
        }
        self.entries.len()
    }

    /// The entries in key order.
    pub fn entries(&self) -> (r: &Vec<RuleEntry>)
        ensures
            entries_view(r@) == self.ordered(),
    {
        &self.entries
    }

    /// The position of the first key not before `key`, and whether it is `key`.
    fn position(&self, key: &[char]) -> (r: (usize, bool))
        requires
            self.wf(),
        ensures
            r.0 <= self.entries@.len(),
            forall|i: int| 0 <= i < r.0 ==> key_lt(#[trigger] self.ordered()[i].0, key@),
            r.0 < self.entries@.len() ==> !key_lt(self.ordered()[r.0 as int].0, key@),
            r.1 == (r.0 < self.entries@.len() && self.ordered()[r.0 as int].0 == key@),
    {
        let n = self.entries.len();
        let mut i: usize = 0;
        while i < n
            invariant
                n == self.entries@.len(),
                i <= n,
                forall|j: int| 0 <= j < i ==> key_lt(#[trigger] self.ordered()[j].0, key@),
            decreases n - i,
        {
            let k = chars_of(self.entries[i].rule_id.as_str());
            if !key_less(k.as_slice(), key) {
                let kb = key_less(key, k.as_slice());
                proof {
                    if !kb && k@ != key@ {
                        lemma_key_lt_total(k@, key@);
                    }
                }
                return (i, !kb && crate::text::str_eq(self.entries[i].rule_id.as_str(), crate::text::string_of(key).as_str()));
            }
            i = i + 1;
        }
        (n, false)
    }

    /// The payload recorded for a rule id.
    pub fn get(&self, key: &str) -> (r: Option<&JsonValue>)
        requires
            self.wf(),
        ensures
            match r {
                Some(v) => self@.dom().contains(key@) && self@[key@] == v@,
                None => !self@.dom().contains(key@),
            },
    {
        let kc = chars_of(key);
        let (p, found) = self.position(kc.as_slice());
        proof {
            let es = self.ordered();
            if found {
                lemma_map_of_at(es, p as int);
            } else if has_key(es, key@) {
                let i = choose|i: int| 0 <= i < es.len() && #[trigger] es[i].0 == key@;
                if i < p {
                    lemma_key_lt_irreflexive(key@);
                } else if i > p {
                    assert(key_lt(es[p as int].0, es[i].0));
                    lemma_key_lt_total(es[p as int].0, key@);
                }
            }
        }
        if found {
            Some(&self.entries[p].payload)
        } else {
            None
        }
    }

    /// Records a payload for a rule id, replacing the one recorded before.
    pub fn insert(&mut self, key: &str, value: JsonValue)
        requires
            old(self).wf(),
        ensures
            final(self).wf(),
            final(self)@ == old(self)@.insert(key@, value@),
    {
        let kc = chars_of(key);
        let (p, found) = self.position(kc.as_slice());
        let ghost es = self.ordered();
        let ghost vv = value@;
        let entry = RuleEntry { rule_id: owned(key), payload: value };
        if found {
            self.entries.set(p, entry);
            proof {
                let es2 = self.ordered();
                assert(es2 =~= es.update(p as int, (key@, vv)));
                assert(sorted_keys(es2)) by {
                    assert forall|i: int, j: int| 0 <= i < j < es2.len() implies key_lt(#[trigger] es2[i].0, #[trigger] es2[j].0) by {
                        assert(es2[i].0 == es[i].0);
                        assert(es2[j].0 == es[j].0);
                    }
                }
                self.lemma_map_update(es, es2, p as int, key@, vv);
            }
        } else {
            self.entries.insert(p, entry);
            proof {
                let es2 = self.ordered();
                assert(es2 =~= es.insert(p as int, (key@, vv)));
                assert(sorted_keys(es2)) by {
                    assert forall|i: int, j: int| 0 <= i < j < es2.len() implies key_lt(#[trigger] es2[i].0, #[trigger] es2[j].0) by {
                        if j < p {
                        } else if j == p {
                        } else if i < p {
                            assert(es2[j].0 == es[j - 1].0);
                            if p < es.len() {
                                lemma_key_lt_total(es[p as int].0, key@);
                                if j - 1 > p {
                                    lemma_key_lt_transitive(key@, es[p as int].0, es[j - 1].0);
                                }
                                lemma_key_lt_transitive(es[i].0, key@, es[j - 1].0);
                            }
                        } else if i == p {
                            lemma_key_lt_total(es[p as int].0, key@);
                            if j - 1 > p {
                                lemma_key_lt_transitive(key@, es[p as int].0, es[j - 1].0);
                            }
                        } else {
                            assert(es2[i].0 == es[i - 1].0);
                            assert(es2[j].0 == es[j - 1].0);
                        }
                    }
                }
                self.lemma_map_insert(es, es2, p as int, key@, vv);
            }
        }
    }

    proof fn lemma_map_update(&self, es: Seq<(Seq<char>, JsonView)>, es2: Seq<(Seq<char>, JsonView)>, p: int, k: Seq<char>, v: JsonView)
        requires
            sorted_keys(es),
            sorted_keys(es2),
            0 <= p < es.len(),
            es[p].0 == k,
            es2 == es.update(p, (k, v)),
        ensures
            map_of(es2) == map_of(es).insert(k, v),
    {
        assert forall|x: Seq<char>| #[trigger] map_of(es2).dom().contains(x) == map_of(es).insert(k, v).dom().contains(x) by {
            if has_key(es, x) {
                let i = choose|i: int| 0 <= i < es.len() && #[trigger] es[i].0 == x;
                assert(es2[i].0 == x);
            }
            if has_key(es2, x) {
                let i = choose|i: int| 0 <= i < es2.len() && #[trigger] es2[i].0 == x;
                assert(es[i].0 == x);
            }
        }
        assert forall|x: Seq<char>| map_of(es2).dom().contains(x) implies #[trigger] map_of(es2)[x] == map_of(es).insert(k, v)[x] by {
            let i = choose|i: int| 0 <= i < es2.len() && #[trigger] es2[i].0 == x;
            lemma_map_of_at(es2, i);
            assert(es2[p] == (k, v));
            if x != k {
                assert(es2[i] == es[i]);
                lemma_map_of_at(es, i);
            } else {
                lemma_sorted_unique(es2, i, p);
            }
        }
        assert(map_of(es2) =~= map_of(es).insert(k, v));
    }

    proof fn lemma_map_insert(&self, es: Seq<(Seq<char>, JsonView)>, es2: Seq<(Seq<char>, JsonView)>, p: int, k: Seq<char>, v: JsonView)
        requires
            sorted_keys(es),
            sorted_keys(es2),
            0 <= p <= es.len(),
            es2 == es.insert(p, (k, v)),
        ensures
            map_of(es2) == map_of(es).insert(k, v),
    {
        assert forall|x: Seq<char>| #[trigger] map_of(es2).dom().contains(x) == map_of(es).insert(k, v).dom().contains(x) by {
            if has_key(es, x) {
                let i = choose|i: int| 0 <= i < es.len() && #[trigger] es[i].0 == x;
                if i < p {
                    assert(es2[i].0 == x);
                } else {
                    assert(es2[i + 1].0 == x);
                }
            }
            if x == k {
                assert(es2[p].0 == x);
            }
            if has_key(es2, x) && x != k {
                let i = choose|i: int| 0 <= i < es2.len() && #[trigger] es2[i].0 == x;
                if i < p {
                    assert(es[i].0 == x);
                } else {
                    assert(es[i - 1].0 == x);
                }
            }
        }
        assert forall|x: Seq<char>| map_of(es2).dom().contains(x) implies #[trigger] map_of(es2)[x] == map_of(es).insert(k, v)[x] by {
            let i = choose|i: int| 0 <= i < es2.len() && #[trigger] es2[i].0 == x;
            lemma_map_of_at(es2, i);
            assert(es2[p] == (k, v));
            if x == k {
                lemma_sorted_unique(es2, i, p);
            } else if i < p {
                assert(es2[i] == es[i]);
                lemma_map_of_at(es, i);
            } else {
                assert(i != p);
                assert(es2[i] == es[i - 1]);
                lemma_map_of_at(es, i - 1);
            }
        }
        assert(map_of(es2) =~= map_of(es).insert(k, v));
    }

    /// Forgets the rule id.
    pub fn remove(&mut self, key: &str)
        requires
            old(self).wf(),
        ensures
            final(self).wf(),
            final(self)@ == old(self)@.remove(key@),
    {
        let kc = chars_of(key);
        let (p, found) = self.position(kc.as_slice());
        let ghost es = self.ordered();
        if found {
            self.entries.remove(p);
            proof {
                let es2 = self.ordered();
                assert(es2 =~= es.remove(p as int));
                assert(sorted_keys(es2)) by {
                    assert forall|i: int, j: int| 0 <= i < j < es2.len() implies key_lt(#[trigger] es2[i].0, #[trigger] es2[j].0) by {
                        let i0 = if i < p { i } else { i + 1 };
                        let j0 = if j < p { j } else { j + 1 };
                        assert(es2[i].0 == es[i0].0);
                        assert(es2[j].0 == es[j0].0);
                    }
                }
                assert forall|x: Seq<char>| #[trigger] map_of(es2).dom().contains(x) == map_of(es).remove(key@).dom().contains(x) by {
                    if has_key(es, x) && x != key@ {
                        let i = choose|i: int| 0 <= i < es.len() && #[trigger] es[i].0 == x;
                        if i < p {
                            assert(es2[i].0 == x);
                        } else {
                            assert(i != p);
                            assert(es2[i - 1].0 == x);
                        }
                    }
                    if has_key(es2, x) {
                        let i = choose|i: int| 0 <= i < es2.len() && #[trigger] es2[i].0 == x;
                        if i < p {
                            assert(es[i].0 == x);
                            if x == key@ {
                                lemma_sorted_unique(es, i, p as int);
                            }
                        } else {
                            assert(es[i + 1].0 == x);
                            if x == key@ {
                                lemma_sorted_unique(es, i + 1, p as int);
                            }
                        }
                    }
                }
                assert forall|x: Seq<char>| map_of(es2).dom().contains(x) implies #[trigger] map_of(es2)[x] == map_of(es).remove(key@)[x] by {
                    let i = choose|i: int| 0 <= i < es2.len() && #[trigger] es2[i].0 == x;
                    lemma_map_of_at(es2, i);
                    if i < p {
                        lemma_map_of_at(es, i);
                    } else {
                        lemma_map_of_at(es, i + 1);
                    }
                }
                assert(map_of(es2) =~= map_of(es).remove(key@));
            }
        } else {
            proof {
                if has_key(es, key@) {
                    let i = choose|i: int| 0 <= i < es.len() && #[trigger] es[i].0 == key@;
                    if i < p {
                        lemma_key_lt_irreflexive(key@);
                    } else if i > p {
                        assert(key_lt(es[p as int].0, es[i].0));
                        lemma_key_lt_total(es[p as int].0, key@);
                    }
                }
                assert(map_of(es) =~= map_of(es).remove(key@));
            }
        }
    }
}


// ---------------------------------------------------------------------------
// The state file and the store around it
// ---------------------------------------------------------------------------

/// The map that pairs read in order stand for: a later pair for the same key
/// replaces an earlier one.
pub open spec fn map_from_pairs(pairs: Seq<(Seq<char>, JsonView)>) -> Map<Seq<char>, JsonView>
    decreases pairs.len(),
{
    if pairs.len() == 0 {
        Map::empty()
    } else {
        map_from_pairs(pairs.drop_last()).insert(pairs.last().0, pairs.last().1)
    }
}

/// What the agent remembers: the rules it applied and its last backup.
pub struct State {
    pub applied_rules: RuleMap,
    pub last_backup: Option<String>,
}

impl State {
    pub open spec fn wf(&self) -> bool {
        self.applied_rules.wf()
    }

    /// The state of a fresh node: no rules, no backup.
    pub fn new() -> (r: State)
        ensures
            r.wf(),
            r.applied_rules@ == Map::<Seq<char>, JsonView>::empty(),
            r.last_backup is None,
    {
        State { applied_rules: RuleMap::new(), last_backup: None }
    }

    /// The state read back from its file: the rules in file order and the last backup.
    pub fn from_entries(entries: Vec<RuleEntry>, last_backup: Option<String>) -> (r: State)
        ensures
            r.wf(),
            r.applied_rules@ == map_from_pairs(entries_view(entries@)),
            r.last_backup == last_backup,
    {
        let mut m = RuleMap::new();
        let mut rest = entries;
        let ghost all = entries_view(rest@);
        let n = rest.len();
        let mut i: usize = 0;
        assert(all.subrange(0, 0) =~= Seq::<(Seq<char>, JsonView)>::empty());
        while i < n
            invariant
                n == all.len(),
                rest@.len() + i == n,
                forall|k: int| 0 <= k < rest@.len() ==> (#[trigger] rest@[k]).rule_id@ == all[i + k].0 && rest@[k].payload@ == all[i + k].1,
                m.wf(),
                m@ == map_from_pairs(all.subrange(0, i as int)),
                i <= n,
            decreases n - i,
        {
            let e = rest.remove(0);
            m.insert(e.rule_id.as_str(), e.payload);
            assert(all.subrange(0, i + 1).drop_last() =~= all.subrange(0, i as int));
            i = i + 1;
        }
        assert(all.subrange(0, n as int) =~= all);
        State { applied_rules: m, last_backup }
    }
}

/// The state of a node together with the file it is kept in.
pub struct Store {
    path: String,
    state: State,
}

impl Store {
    pub closed spec fn wf(&self) -> bool {
        self.state.wf()
    }

    pub closed spec fn path_view(&self) -> Seq<char> {
        self.path@
    }

    pub closed spec fn rules(&self) -> Map<Seq<char>, JsonView> {
        self.state.applied_rules@
    }

    pub closed spec fn last_backup(&self) -> Option<Seq<char>> {
        crate::config::opt_chars(self.state.last_backup)
    }

    /// The store of a state file, with the state read from it, or a fresh
    /// state when it could not be read or parsed.
    pub fn open(path: &str, loaded: Option<State>) -> (r: Store)
        requires
            loaded matches Some(st) ==> st.wf(),
        ensures
            r.wf(),
            r.path_view() == path@,
            match loaded {
                Some(st) => r.rules() == st.applied_rules@ && r.last_backup() == crate::config::opt_chars(st.last_backup),
                None => r.rules() == Map::<Seq<char>, JsonView>::empty() && r.last_backup() is None,
            },
    {
        let state = match loaded {
            Some(st) => st,
            None => State::new(),
        };
        Store { path: owned(path), state }
    }

    pub fn state(&self) -> (r: &State)
        ensures
            r.applied_rules@ == self.rules(),
            crate::config::opt_chars(r.last_backup) == self.last_backup(),
            self.wf() ==> r.wf(),
    {
        &self.state
    }

    /// The file the state is written to after each change.
    pub fn path(&self) -> (r: &str)
        ensures
            r@ == self.path_view(),
    {
        self.path.as_str()
    }

    /// Records that a rule was applied with a payload.
    pub fn record_rule(&mut self, rule_id: &str, payload: JsonValue)
        requires
            old(self).wf(),
        ensures
            final(self).wf(),
            final(self).rules() == old(self).rules().insert(rule_id@, payload@),
            final(self).last_backup() == old(self).last_backup(),
            final(self).path_view() == old(self).path_view(),
    {
        self.state.applied_rules.insert(rule_id, payload);
    }

    /// Records that a rule was deleted.
    pub fn remove_rule(&mut self, rule_id: &str)
        requires
            old(self).wf(),
        ensures
            final(self).wf(),
            final(self).rules() == old(self).rules().remove(rule_id@),
            final(self).last_backup() == old(self).last_backup(),
            final(self).path_view() == old(self).path_view(),
    {
        self.state.applied_rules.remove(rule_id);
    }

    /// Records the path of the last ruleset backup.
    pub fn set_last_backup(&mut self, path: &str)
        requires
            old(self).wf(),
        ensures
            final(self).wf(),
            final(self).rules() == old(self).rules(),
            final(self).last_backup() == Some(path@),
            final(self).path_view() == old(self).path_view(),
    {
        self.state.last_backup = Some(owned(path));
    }
}

proof fn lemma_map_from_sorted_pairs(es: Seq<(Seq<char>, JsonView)>)
    requires
        sorted_keys(es),
    ensures
        map_from_pairs(es) == map_of(es),
    decreases es.len(),
{
    if es.len() == 0 {
        assert(map_of(es) =~= Map::<Seq<char>, JsonView>::empty());
    } else {
        let prev = es.drop_last();
        let n = es.len() as int;
        let last = es.last();
        assert(sorted_keys(prev)) by {
            assert forall|i: int, j: int| 0 <= i < j < prev.len() implies key_lt(#[trigger] prev[i].0, #[trigger] prev[j].0) by {
                assert(prev[i] == es[i] && prev[j] == es[j]);
            }
        }
        lemma_map_from_sorted_pairs(prev);
        assert forall|k: Seq<char>| #[trigger] map_of(es).dom().contains(k) == map_of(prev).insert(last.0, last.1).dom().contains(k) by {
            if has_key(es, k) {
                let i = choose|i: int| 0 <= i < es.len() && #[trigger] es[i].0 == k;
                if i < n - 1 {
                    assert(prev[i].0 == k);
                }
            }
            if has_key(prev, k) {
                let i = choose|i: int| 0 <= i < prev.len() && #[trigger] prev[i].0 == k;
                assert(es[i].0 == k);
            }
            if k == last.0 {
                assert(es[n - 1].0 == k);
            }
        }
        assert forall|k: Seq<char>| #[trigger] map_of(es).dom().contains(k) implies map_of(es)[k] == map_of(prev).insert(last.0, last.1)[k] by {
            let i = key_index(es, k);
            assert(0 <= i < es.len() && es[i].0 == k);
            if k == last.0 {
                lemma_sorted_unique(es, i, n - 1);
            } else {
                assert(has_key(prev, k));
                let j = key_index(prev, k);
                assert(0 <= j < prev.len() && prev[j].0 == k);
                assert(es[j] == prev[j]);
                lemma_sorted_unique(es, i, j);
            }
        }
        assert(map_of(es) =~= map_of(prev).insert(last.0, last.1));
    }
}

/// The rules written out in key order, as the state file holds them, read
/// back as the same rules.
pub proof fn law_rules_read_back_from_file(rules: RuleMap)
    requires
        rules.wf(),
    ensures
        map_from_pairs(rules.ordered()) == rules@,
{
    rules.lemma_ordered();
    lemma_map_from_sorted_pairs(rules.ordered());
}

/// A rule recorded with a payload reads back with that payload, and the other
/// recorded rules are unchanged.
pub proof fn law_record_reads_back(rules: Map<Seq<char>, JsonView>, rule_id: Seq<char>, payload: JsonView)
    ensures
        rules.insert(rule_id, payload).dom().contains(rule_id),
        rules.insert(rule_id, payload)[rule_id] == payload,
        forall|other: Seq<char>| other != rule_id ==> (#[trigger] rules.insert(rule_id, payload).dom().contains(other) == rules.dom().contains(other)
            && (rules.dom().contains(other) ==> rules.insert(rule_id, payload)[other] == rules[other])),
{
}

/// Deleting a rule right after recording it leaves the rules as deleting it
/// alone would: no trace of the payload remains.
pub proof fn law_remove_undoes_record(rules: Map<Seq<char>, JsonView>, rule_id: Seq<char>, payload: JsonView)
    ensures
        rules.insert(rule_id, payload).remove(rule_id) == rules.remove(rule_id),
        !rules.insert(rule_id, payload).remove(rule_id).dom().contains(rule_id),
{
    assert(rules.insert(rule_id, payload).remove(rule_id) =~= rules.remove(rule_id));
}

/// Recording the same rule twice keeps only the second payload.
pub proof fn law_record_overwrites(rules: Map<Seq<char>, JsonView>, rule_id: Seq<char>, first: JsonView, second: JsonView)
    ensures
        rules.insert(rule_id, first).insert(rule_id, second) == rules.insert(rule_id, second),
{
    assert(rules.insert(rule_id, first).insert(rule_id, second) =~= rules.insert(rule_id, second));
}

} // verus!
