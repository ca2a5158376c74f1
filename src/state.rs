use vstd::prelude::*;
use crate::names::{
    name_lt, compare_names, same_name, lemma_name_lt_irreflexive, lemma_name_lt_transitive,
    lemma_name_lt_asymmetric,
};

verus! {

/// The word that, as an endpoint, stands for any entity and, in a schema
/// entry, places no constraint.
pub open spec fn any_name() -> Seq<char> {
    seq!['A', 'n', 'y']
}

/// The name of the entry that every registry starts with: the type of types.
pub open spec fn root_type_name() -> Seq<char> {
    seq!['T', 'y', 'p', 'e']
}

/// A stored link as sequences of characters.
pub struct LinkSpec {
    pub type_: Seq<char>,
    pub from: Seq<char>,
    pub to: Seq<char>,
}

/// The entry the registry starts with: `Type`, typed by itself, with wildcard endpoints.
pub open spec fn root_entry() -> LinkSpec {
    LinkSpec { type_: root_type_name(), from: any_name(), to: any_name() }
}

/// A stored link: its type and its two endpoints.
#[derive(Clone, Debug, PartialEq)]
pub struct DeeplinkState {
    pub type_: String,
    pub from: String,
    pub to: String,
}

impl View for DeeplinkState {
    type V = LinkSpec;

    open spec fn view(&self) -> LinkSpec {
        LinkSpec { type_: self.type_@, from: self.from@, to: self.to@ }
    }
}

impl DeeplinkState {
    /// A field-by-field copy.
    pub fn duplicate(&self) -> (r: DeeplinkState)
        ensures
            r@ == self@,
    {
        DeeplinkState { type_: self.type_.clone(), from: self.from.clone(), to: self.to.clone() }
    }
}

/// Whether `a` is one of the addresses of `v`.
pub open spec fn listed(v: Seq<Seq<char>>, a: Seq<char>) -> bool {
    exists|i: int| 0 <= i < v.len() && v[i] == a
}

pub open spec fn strings_view(v: Seq<String>) -> Seq<Seq<char>> {
    v.map_values(|s: String| s@)
}

fn clone_strings(v: &Vec<String>) -> (r: Vec<String>)
    ensures
        strings_view(r@) == strings_view(v@),
{
    let mut r: Vec<String> = Vec::new();
    let mut i: usize = 0;
    while i < v.len()
        invariant
            i <= v@.len(),
            strings_view(r@) == strings_view(v@).take(i as int),
        decreases v@.len() - i,
    {
        r.push(v[i].clone());
        assert(strings_view(v@).take(i + 1) =~= strings_view(v@).take(i as int).push(v@[i as int]@));
        assert(strings_view(r@) =~= strings_view(v@).take(i + 1));
        i += 1;
    }
    assert(strings_view(v@).take(i as int) =~= strings_view(v@));
    r
}

fn find_name(v: &Vec<String>, a: &str) -> (r: bool)
    ensures
        r == listed(strings_view(v@), a@),
{
    let mut i: usize = 0;
    while i < v.len()
        invariant
            i <= v@.len(),
            forall|j: int| 0 <= j < i ==> v@[j]@ != a@,
        decreases v@.len() - i,
    {
        if same_name(v[i].as_str(), a) {
            assert(strings_view(v@)[i as int] == a@);
            return true;
        }
        i += 1;
    }
    proof {
        if listed(strings_view(v@), a@) {
            let j = choose|j: int| 0 <= j < v@.len() && strings_view(v@)[j] == a@;
            assert(v@[j]@ == a@);
        }
    }
    false
}

/// Who may change the registry (admins) and who may execute through it (executors).
#[derive(Clone, Debug, PartialEq)]
pub struct Config {
    pub admins: Vec<String>,
    pub executors: Vec<String>,
}

impl Config {
    pub open spec fn admin_list(&self) -> Seq<Seq<char>> {
        strings_view(self.admins@)
    }

    pub open spec fn executor_list(&self) -> Seq<Seq<char>> {
        strings_view(self.executors@)
    }

    pub fn is_admin(&self, addr: &str) -> (r: bool)
        ensures
            r == listed(self.admin_list(), addr@),
    {
        find_name(&self.admins, addr)
    }

    pub fn is_executor(&self, addr: &str) -> (r: bool)
        ensures
            r == listed(self.executor_list(), addr@),
    {
        find_name(&self.executors, addr)
    }

    /// Only admins may modify the registry.
    pub fn can_modify(&self, addr: &str) -> (r: bool)
        ensures
            r == listed(self.admin_list(), addr@),
    {
        self.is_admin(addr)
    }

    /// Only executors may execute through the registry.
    pub fn can_execute(&self, addr: &str) -> (r: bool)
        ensures
            r == listed(self.executor_list(), addr@),
    {
        self.is_executor(addr)
    }

    pub fn duplicate(&self) -> (r: Config)
        ensures
            r.admin_list() == self.admin_list(),
            r.executor_list() == self.executor_list(),
    {
        Config { admins: clone_strings(&self.admins), executors: clone_strings(&self.executors) }
    }
}

/// The whole registry as mathematical values. The link with identifier `i`
/// is `links[i - 1]`, so the last identifier handed out is `links.len()`.
pub struct StoreView {
    pub admins: Seq<Seq<char>>,
    pub executors: Seq<Seq<char>>,
    pub links: Seq<LinkSpec>,
    pub registry: Map<Seq<char>, LinkSpec>,
    pub deleted: Set<u64>,
}

impl StoreView {
    pub open spec fn last_id(self) -> nat {
        self.links.len()
    }

    /// The link with identifier `id`, if one was ever created.
    pub open spec fn stored(self, id: u64) -> Option<LinkSpec> {
        if 1 <= id <= self.links.len() {
            Some(self.links[id - 1])
        } else {
            None
        }
    }

    /// The link with identifier `id` as readers see it: missing once deleted.
    pub open spec fn visible(self, id: u64) -> Option<LinkSpec> {
        if self.deleted.contains(id) {
            None
        } else {
            self.stored(id)
        }
    }
}

/// The registry: a sequence of links addressed by identifier, a table of
/// names bound to links, and the set of deleted identifiers.
///
/// It is held in memory, in `Vec`s whose order and uniqueness are invariants
/// of `wf`, so that every operation on it is proved here. Reading it from and
/// writing it to a host's storage is left to the caller: `query_state` gives
/// everything to write, and `restore` rebuilds the registry from it.
pub struct DeeplinkStore {
    config: Config,
    links: Vec<DeeplinkState>,
    /// Kept in strictly increasing order of name.
    named: Vec<(String, DeeplinkState)>,
    /// Kept in strictly increasing order.
    deleted: Vec<u64>,
    registry: Ghost<Map<Seq<char>, LinkSpec>>,
}

impl View for DeeplinkStore {
    type V = StoreView;

    closed spec fn view(&self) -> StoreView {
        StoreView {
            admins: self.config.admin_list(),
            executors: self.config.executor_list(),
            links: self.links@.map_values(|l: DeeplinkState| l@),
            registry: self.registry@,
            deleted: self.deleted@.to_set(),
        }
    }
}

/// Names in strictly increasing order.
pub open spec fn names_sorted(v: Seq<(Seq<char>, LinkSpec)>) -> bool {
    forall|i: int, j: int| 0 <= i < j < v.len() ==> name_lt(v[i].0, v[j].0)
}

/// `v` lists exactly the bindings of `m`.
pub open spec fn lists_bindings(v: Seq<(Seq<char>, LinkSpec)>, m: Map<Seq<char>, LinkSpec>) -> bool {
    &&& forall|i: int| 0 <= i < v.len() ==> #[trigger] m.contains_key(v[i].0) && m[v[i].0] == v[i].1
    &&& forall|k: Seq<char>| #[trigger]
        m.contains_key(k) ==> exists|i: int| 0 <= i < v.len() && v[i].0 == k
}

/// `m` with the bindings of `v` made one after the other, a later binding of
/// a name replacing an earlier one.
pub open spec fn bound_all(m: Map<Seq<char>, LinkSpec>, v: Seq<(Seq<char>, LinkSpec)>) -> Map<Seq<char>, LinkSpec>
    decreases v.len(),
{
    if v.len() == 0 {
        m
    } else {
        bound_all(m, v.drop_last()).insert(v.last().0, v.last().1)
    }
}

/// Strictly increasing numbers.
pub open spec fn ids_sorted(v: Seq<u64>) -> bool {
    forall|i: int, j: int| 0 <= i < j < v.len() ==> v[i] < v[j]
}

pub open spec fn entry_view(e: (String, DeeplinkState)) -> (Seq<char>, LinkSpec) {
    (e.0@, e.1@)
}

pub open spec fn entries_view(v: Seq<(String, DeeplinkState)>) -> Seq<(Seq<char>, LinkSpec)> {
    v.map_values(|e: (String, DeeplinkState)| entry_view(e))
}

pub open spec fn numbered_view(v: Seq<(u64, DeeplinkState)>) -> Seq<(u64, LinkSpec)> {
    v.map_values(|e: (u64, DeeplinkState)| (e.0, e.1@))
}

impl DeeplinkStore {
    pub closed spec fn wf(&self) -> bool {
        &&& names_sorted(entries_view(self.named@))
        &&& lists_bindings(entries_view(self.named@), self.registry@)
        &&& ids_sorted(self.deleted@)
    }

    /// A registry with the given admins and executors, no links, and the
    /// root entry `Type` bound.
    pub fn new(admins: Vec<String>, executors: Vec<String>) -> (r: DeeplinkStore)
        ensures
            r.wf(),
            r@.admins == strings_view(admins@),
            r@.executors == strings_view(executors@),
            r@.links.len() == 0,
            r@.registry == map![root_type_name() => root_entry()],
            r@.deleted.is_empty(),
    {
        let root = DeeplinkState { type_: type_string(), from: any_string(), to: any_string() };
        let mut named: Vec<(String, DeeplinkState)> = Vec::new();
        named.push((type_string(), root));
        let ghost reg = map![root_type_name() => root_entry()];
        let r = DeeplinkStore {
            config: Config { admins, executors },
            links: Vec::new(),
            named,
            deleted: Vec::new(),
            registry: Ghost(reg),
        };
        proof {
            assert(r@.links =~= Seq::empty());
            assert(r@.deleted =~= Set::empty());
            let v = entries_view(r.named@);
            assert(v.len() == 1);
            assert(v[0].0 == root_type_name());
            assert forall|k: Seq<char>| #[trigger] r.registry@.contains_key(k) implies exists|i: int|
                0 <= i < v.len() && v[i].0 == k by {
                assert(v[0].0 == k);
            }
        }
        r
    }

    /// Rebuilds a registry from a snapshot: the links in order of identifier,
    /// then each binding in turn over the root entry, then each deleted
    /// identifier.
    pub fn restore(
        admins: Vec<String>,
        executors: Vec<String>,
        links: &Vec<DeeplinkState>,
        named: &Vec<(String, DeeplinkState)>,
        deleted: &Vec<u64>,
    ) -> (r: DeeplinkStore)
        ensures
            r.wf(),
            r@.admins == strings_view(admins@),
            r@.executors == strings_view(executors@),
            r@.links == links@.map_values(|l: DeeplinkState| l@),
            r@.registry == bound_all(map![root_type_name() => root_entry()], entries_view(named@)),
            r@.deleted == deleted@.to_set(),
    {
        let mut store = DeeplinkStore::new(admins, executors);
        let mut i: usize = 0;
        while i < links.len()
            invariant
                store.wf(),
                i <= links@.len(),
                store@.links == links@.take(i as int).map_values(|l: DeeplinkState| l@),
                store@.registry == map![root_type_name() => root_entry()],
                store@.deleted.is_empty(),
                store@.admins == strings_view(admins@),
                store@.executors == strings_view(executors@),
            decreases links@.len() - i,
        {
            store.push_link(links[i].duplicate());
            assert(links@.take(i + 1).map_values(|l: DeeplinkState| l@) =~= links@.take(
                i as int,
            ).map_values(|l: DeeplinkState| l@).push(links@[i as int]@));
            i += 1;
        }
        assert(links@.take(i as int) =~= links@);
        let ghost linked = store@.links;
        let mut j: usize = 0;
        while j < named.len()
            invariant
                store.wf(),
                j <= named@.len(),
                store@.links == linked,
                store@.registry == bound_all(map![root_type_name() => root_entry()], entries_view(named@).take(j as int)),
                store@.deleted.is_empty(),
                store@.admins == strings_view(admins@),
                store@.executors == strings_view(executors@),
            decreases named@.len() - j,
        {
            let ghost v = entries_view(named@);
            assert(v.take(j + 1).drop_last() =~= v.take(j as int));
            assert(v.take(j + 1).last() == entry_view(named@[j as int]));
            store.bind_name(named[j].0.clone(), named[j].1.duplicate());
            j += 1;
        }
        assert(entries_view(named@).take(j as int) =~= entries_view(named@));
        let mut k: usize = 0;
        while k < deleted.len()
            invariant
                store.wf(),
                k <= deleted@.len(),
                store@.links == linked,
                store@.registry == bound_all(map![root_type_name() => root_entry()], entries_view(named@)),
                store@.deleted == deleted@.take(k as int).to_set(),
                store@.admins == strings_view(admins@),
                store@.executors == strings_view(executors@),
            decreases deleted@.len() - k,
        {
            store.mark_deleted(deleted[k]);
            assert(deleted@.take(k + 1) =~= deleted@.take(k as int).push(deleted@[k as int]));
            proof {
                deleted@.take(k as int).lemma_push_to_set_commute(deleted@[k as int]);
            }
            k += 1;
        }
        assert(deleted@.take(k as int) =~= deleted@);
        store
    }

    pub fn config(&self) -> (r: &Config)
        ensures
            r.admin_list() == self@.admins,
            r.executor_list() == self@.executors,
    {
        &self.config
    }

    pub fn set_admins(&mut self, admins: Vec<String>)
        requires
            old(self).wf(),
        ensures
            final(self).wf(),
            final(self)@ == (StoreView { admins: strings_view(admins@), ..old(self)@ }),
    {
        self.config.admins = admins;
    }

    pub fn set_executors(&mut self, executors: Vec<String>)
        requires
            old(self).wf(),
        ensures
            final(self).wf(),
            final(self)@ == (StoreView { executors: strings_view(executors@), ..old(self)@ }),
    {
        self.config.executors = executors;
    }

    /// The last identifier handed out; 0 while none was.
    pub fn last_id(&self) -> (r: u64)
        ensures
            r == self@.last_id(),
    {
        self.links.len() as u64
    }

    /// The entry bound to `name`.
    pub fn lookup_named(&self, name: &str) -> (r: Option<&DeeplinkState>)
        requires
            self.wf(),
        ensures
            r is Some == self@.registry.contains_key(name@),
            r is Some ==> r->0@ == self@.registry[name@],
    {
        let mut i: usize = 0;
        while i < self.named.len()
            invariant
                self.wf(),
                i <= self.named@.len(),
                forall|j: int| 0 <= j < i ==> self.named@[j].0@ != name@,
            decreases self.named@.len() - i,
        {
            if same_name(self.named[i].0.as_str(), name) {
                proof {
                    let v = entries_view(self.named@);
                    assert(v[i as int] == entry_view(self.named@[i as int]));
                    assert(self.registry@.contains_key(v[i as int].0));
                }
                return Some(&self.named[i].1);
            }
            i += 1;
        }
        proof {
            let v = entries_view(self.named@);
            if self.registry@.contains_key(name@) {
                let j = choose|j: int| 0 <= j < v.len() && v[j].0 == name@;
                assert(v[j] == entry_view(self.named@[j]));
            }
        }
        None
    }

    /// Binds `name` to `s`, replacing what it was bound to.
    pub fn bind_name(&mut self, name: String, s: DeeplinkState)
        requires
            old(self).wf(),
        ensures
            final(self).wf(),
            final(self)@ == (StoreView {
                registry: old(self)@.registry.insert(name@, s@),
                ..old(self)@
            }),
    {
        let ghost old_v = entries_view(self.named@);
        let ghost key = name@;
        let ghost val = s@;
        let n = self.named.len();
        let mut i: usize = 0;
        while i < n
            invariant
                n == self.named@.len(),
                entries_view(self.named@) == old_v,
                old_v.len() == n,
                i <= n,
                self.wf(),
                key == name@,
                val == s@,
                self.registry@ == old(self).registry@,
                self.links == old(self).links,
                self.config == old(self).config,
                self.deleted == old(self).deleted,
                forall|j: int| 0 <= j < i ==> name_lt(#[trigger] old_v[j].0, key),
            ensures
                n == self.named@.len(),
                entries_view(self.named@) == old_v,
                i <= n,
                self.wf(),
                key == name@,
                val == s@,
                self.registry@ == old(self).registry@,
                self.links == old(self).links,
                self.config == old(self).config,
                self.deleted == old(self).deleted,
                forall|j: int| 0 <= j < i ==> name_lt(#[trigger] old_v[j].0, key),
                i < n ==> name_lt(key, old_v[i as int].0),
            decreases n - i,
        {
            let c = compare_names(self.named[i].0.as_str(), name.as_str());
            assert(old_v[i as int] == entry_view(self.named@[i as int]));
            if c == 0 {
                let ghost before = self.named@;
                self.named.set(i, (name, s));
                assert(self.named@ == before.update(i as int, (name, s)));
                self.registry = Ghost(self.registry@.insert(key, val));
                proof {
                    let nv = entries_view(self.named@);
                    assert(nv =~= old_v.update(i as int, (key, val)));
                    assert(old_v[i as int].0 == key);
                    assert forall|k: Seq<char>| #[trigger] self.registry@.contains_key(k) implies exists|j: int|
                        0 <= j < nv.len() && nv[j].0 == k by {
                        if k != key {
                            let j = choose|j: int| 0 <= j < old_v.len() && old_v[j].0 == k;
                            assert(nv[j].0 == k);
                        } else {
                            assert(nv[i as int].0 == k);
                        }
                    }
                    assert forall|j: int| 0 <= j < nv.len() implies #[trigger] self.registry@.contains_key(nv[j].0)
                        && self.registry@[nv[j].0] == nv[j].1 by {
                        if j != i {
                            assert(nv[j] == old_v[j]);
                            assert(old(self).registry@.contains_key(old_v[j].0));
                            assert(old_v[j].0 != key) by {
                                if j < i {
                                    assert(name_lt(old_v[j].0, old_v[i as int].0));
                                } else {
                                    assert(name_lt(old_v[i as int].0, old_v[j].0));
                                }
                                lemma_name_lt_irreflexive(key);
                            }
                        }
                    }
                    assert(self@.links == old(self)@.links);
                    assert(self@.registry =~= old(self)@.registry.insert(name@, s@));
                }
                return;
            }
            if c > 0 {
                break;
            }
            i += 1;
        }
        self.named.insert(i, (name, s));
        self.registry = Ghost(self.registry@.insert(key, val));
        proof {
            let nv = entries_view(self.named@);
            assert(nv =~= old_v.insert(i as int, (key, val)));
            // every old name differs from the new one
            assert forall|j: int| 0 <= j < old_v.len() implies old_v[j].0 != key && (j < i ==> name_lt(old_v[j].0, key)) && (j >= i ==> name_lt(key, old_v[j].0)) by {
                lemma_name_lt_irreflexive(key);
                if j >= i {
                    assert(i < n);
                    let c = old_v[i as int].0;
                    assert(name_lt(key, c));
                    if j > i {
                        assert(name_lt(c, old_v[j].0));
                        lemma_name_lt_transitive(key, c, old_v[j].0);
                    }
                    lemma_name_lt_asymmetric(key, old_v[j].0);
                }
            }
            assert forall|a: int, b: int| 0 <= a < b < nv.len() implies name_lt(nv[a].0, nv[b].0) by {
                if b < i {
                } else if b == i {
                } else if a < i {
                    lemma_name_lt_transitive(old_v[a].0, key, old_v[b - 1].0);
                } else if a == i {
                } else {
                    assert(name_lt(old_v[a - 1].0, old_v[b - 1].0));
                }
            }
            assert forall|k: Seq<char>| #[trigger] self.registry@.contains_key(k) implies exists|j: int|
                0 <= j < nv.len() && nv[j].0 == k by {
                if k != key {
                    let j = choose|j: int| 0 <= j < old_v.len() && old_v[j].0 == k;
                    if j < i {
                        assert(nv[j].0 == k);
                    } else {
                        assert(nv[j + 1].0 == k);
                    }
                } else {
                    assert(nv[i as int].0 == k);
                }
            }
            assert forall|j: int| 0 <= j < nv.len() implies #[trigger] self.registry@.contains_key(nv[j].0)
                && self.registry@[nv[j].0] == nv[j].1 by {
                if j < i {
                    assert(nv[j] == old_v[j]);
                    assert(old_v[j].0 != key);
                    assert(old(self).registry@.contains_key(old_v[j].0));
                } else if j > i {
                    assert(nv[j] == old_v[j - 1]);
                    assert(old_v[j - 1].0 != key);
                    assert(old(self).registry@.contains_key(old_v[j - 1].0));
                }
            }
            assert(self@.registry =~= old(self)@.registry.insert(name@, s@));
        }
    }

    /// Appends `s` to the links; its identifier is the one after the last.
    pub fn push_link(&mut self, s: DeeplinkState) -> (id: u64)
        requires
            old(self).wf(),
            old(self)@.last_id() < u64::MAX,
        ensures
            final(self).wf(),
            id == old(self)@.last_id() + 1,
            final(self)@ == (StoreView { links: old(self)@.links.push(s@), ..old(self)@ }),
    {
        self.links.push(s);
        proof {
            assert(self@.links =~= old(self)@.links.push(s@));
        }
        self.links.len() as u64
    }

    /// Whether `id` was deleted.
    pub fn is_deleted(&self, id: u64) -> (r: bool)
        ensures
            r == self@.deleted.contains(id),
    {
        let mut i: usize = 0;
        while i < self.deleted.len()
            invariant
                i <= self.deleted@.len(),
                forall|j: int| 0 <= j < i ==> self.deleted@[j] != id,
            decreases self.deleted@.len() - i,
        {
            if self.deleted[i] == id {
                assert(self.deleted@.contains(id));
                return true;
            }
            i += 1;
        }
        false
    }

    /// Records `id` as deleted.
    pub fn mark_deleted(&mut self, id: u64)
        requires
            old(self).wf(),
        ensures
            final(self).wf(),
            final(self)@ == (StoreView { deleted: old(self)@.deleted.insert(id), ..old(self)@ }),
    {
        let ghost old_d = self.deleted@;
        let n = self.deleted.len();
        let mut i: usize = 0;
        while i < n
            invariant
                n == self.deleted@.len(),
                self.deleted@ == old_d,
                i <= n,
                self.wf(),
                self.registry@ == old(self).registry@,
                self.links == old(self).links,
                self.config == old(self).config,
                self.named == old(self).named,
                forall|j: int| 0 <= j < i ==> old_d[j] < id,
            ensures
                n == self.deleted@.len(),
                self.deleted@ == old_d,
                i <= n,
                self.wf(),
                self.registry@ == old(self).registry@,
                self.links == old(self).links,
                self.config == old(self).config,
                self.named == old(self).named,
                forall|j: int| 0 <= j < i ==> old_d[j] < id,
                i < n ==> old_d[i as int] > id,
            decreases n - i,
        {
            let d = self.deleted[i];
            if d == id {
                proof {
                    assert(old_d.contains(id));
                    assert(self@.deleted =~= old(self)@.deleted.insert(id));
                }
                return;
            }
            if d > id {
                break;
            }
            i += 1;
        }
        self.deleted.insert(i, id);
        proof {
            assert(self.deleted@ =~= old_d.insert(i as int, id));
            assert forall|a: int, b: int| 0 <= a < b < self.deleted@.len() implies self.deleted@[a] < self.deleted@[b] by {
                if b < i {
                } else if b == i {
                } else if a < i {
                    assert(old_d[i as int] > id);
                } else if a == i {
                    assert(old_d[i as int] > id);
                } else {
                }
            }
            assert forall|x: u64| self@.deleted.contains(x) == old(self)@.deleted.insert(id).contains(x) by {
                if old_d.contains(x) {
                    let j = choose|j: int| 0 <= j < old_d.len() && old_d[j] == x;
                    if j < i {
                        assert(self.deleted@[j] == x);
                    } else {
                        assert(self.deleted@[j + 1] == x);
                    }
                }
                if self.deleted@.contains(x) {
                    let j = choose|j: int| 0 <= j < self.deleted@.len() && self.deleted@[j] == x;
                    if j < i {
                        assert(old_d[j] == x);
                    } else if j > i {
                        assert(old_d[j - 1] == x);
                    }
                }
                if x == id {
                    assert(self.deleted@[i as int] == x);
                }
            }
            assert(self@.deleted =~= old(self)@.deleted.insert(id));
        }
    }

    /// The link with identifier `id`, deleted or not.
    pub fn stored_link(&self, id: u64) -> (r: Option<&DeeplinkState>)
        ensures
            r is Some == self@.stored(id) is Some,
            r is Some ==> r->0@ == self@.stored(id)->0,
    {
        if id >= 1 && id <= self.links.len() as u64 {
            Some(&self.links[(id - 1) as usize])
        } else {
            None
        }
    }

    /// Every link with its identifier, in increasing order of identifier.
    pub fn numbered_links(&self) -> (r: Vec<(u64, DeeplinkState)>)
        ensures
            r@.len() == self@.links.len(),
            forall|i: int| 0 <= i < r@.len() ==> (#[trigger] r@[i]).0 == i + 1 && r@[i].1@ == self@.links[i],
    {
        let mut r: Vec<(u64, DeeplinkState)> = Vec::new();
        let mut i: usize = 0;
        while i < self.links.len()
            invariant
                i <= self.links@.len(),
                r@.len() == i,
                forall|j: int| 0 <= j < i ==> (#[trigger] r@[j]).0 == j + 1 && r@[j].1@ == self@.links[j],
            decreases self.links@.len() - i,
        {
            r.push(((i + 1) as u64, self.links[i].duplicate()));
            i += 1;
        }
        r
    }

    /// Every binding of the table of names, in increasing order of name.
    pub fn named_entries(&self) -> (r: Vec<(String, DeeplinkState)>)
        requires
            self.wf(),
        ensures
            names_sorted(entries_view(r@)),
            lists_bindings(entries_view(r@), self@.registry),
    {
        let mut r: Vec<(String, DeeplinkState)> = Vec::new();
        let mut i: usize = 0;
        while i < self.named.len()
            invariant
                self.wf(),
                i <= self.named@.len(),
                entries_view(r@) == entries_view(self.named@).take(i as int),
            decreases self.named@.len() - i,
        {
            let ghost before = r@;
            let e = (self.named[i].0.clone(), self.named[i].1.duplicate());
            assert(entry_view(e) == entries_view(self.named@)[i as int]);
            r.push(e);
            assert(entries_view(r@) =~= entries_view(before).push(entry_view(e)));
            assert(entries_view(r@) =~= entries_view(self.named@).take(i + 1));
            i += 1;
        }
        assert(entries_view(r@) =~= entries_view(self.named@));
        r
    }

    /// Every deleted identifier, in increasing order.
    pub fn deleted_ids(&self) -> (r: Vec<u64>)
        requires
            self.wf(),
        ensures
            ids_sorted(r@),
            r@.to_set() == self@.deleted,
    {
        self.deleted.clone()
    }
}

pub fn any_string() -> (r: String)
    ensures
        r@ == any_name(),
{
    proof {
        reveal_strlit("Any");
    }
    "Any".to_owned()
}

fn type_string() -> (r: String)
    ensures
        r@ == root_type_name(),
{
    proof {
        reveal_strlit("Type");
    }
    "Type".to_owned()
}

} // verus!
