//! The file-backed store: every environment's pairs in one document.
use vstd::prelude::*;
use crate::KVPair;
use crate::assoc::{has_name, lemma_assoc_domain, lemma_assoc_value};
use crate::config::SafirConfig;
use crate::document::{Environment, StoreDocument, DocumentModel, envs_view, envs_map, envs_wf,
    migrated, migrate, put_environment, find_environment};
use crate::entries::{pairs_view, pairs_map, pairs_wf, strings_view, select, without_keys,
    clone_pairs, select_pairs, delete_keys, lookup, put_pair};
use crate::json::{parsed_document, json_partitioned, json_pretty, parse_document, render_pretty};

verus! {

/// Why a store could not be loaded.
#[derive(Clone, Copy, Debug, PartialEq, Eq, Structural)]
pub enum StoreError {
    /// The document is neither of the two shapes of a store document.
    Malformed,
}

/// `m` with the environment `e` present, empty when it was absent.
pub open spec fn with_active(m: Map<Seq<char>, Map<Seq<char>, Seq<char>>>, e: Seq<char>) -> Map<
    Seq<char>,
    Map<Seq<char>, Seq<char>>,
> {
    if m.contains_key(e) {
        m
    } else {
        m.insert(e, Map::empty())
    }
}

/// The store that loading a document gives, with `e` active.
pub open spec fn loaded(d: DocumentModel, e: Seq<char>) -> Map<
    Seq<char>,
    Map<Seq<char>, Seq<char>>,
> {
    with_active(migrated(d, e), e)
}

/// The store after adding `k` = `v` to environment `e`: an existing key is
/// replaced only when `overwrite` holds.
pub open spec fn added(
    m: Map<Seq<char>, Map<Seq<char>, Seq<char>>>,
    e: Seq<char>,
    k: Seq<char>,
    v: Seq<char>,
    overwrite: bool,
) -> Map<Seq<char>, Map<Seq<char>, Seq<char>>> {
    if m[e].contains_key(k) && !overwrite {
        m
    } else {
        m.insert(e, m[e].insert(k, v))
    }
}

/// The store kept in a single document.
pub struct KVStore {
    /// Name of the active environment.
    pub environment: String,
    /// The environments and their pairs.
    pub store: Vec<Environment>,
    /// The settings the store was loaded with.
    pub config: SafirConfig,
}

impl KVStore {
    /// Environment name to pairs.
    pub open spec fn view(&self) -> Map<Seq<char>, Map<Seq<char>, Seq<char>>> {
        envs_map(self.store@)
    }

    /// The active environment.
    pub open spec fn active(&self) -> Seq<char> {
        self.environment@
    }

    /// The pairs of the active environment.
    pub open spec fn pairs(&self) -> Map<Seq<char>, Seq<char>> {
        self@[self.active()]
    }

    /// Names and keys are unique, the active environment exists and agrees
    /// with the settings.
    pub open spec fn wf(&self) -> bool {
        &&& envs_wf(self.store@)
        &&& self@.contains_key(self.active())
        &&& self.config.environment@ == self.active()
    }

    /// The store that a read document gives, with the environment of `config`
    /// active; a legacy flat document is migrated into that environment.
    pub fn from_document(doc: &StoreDocument, config: SafirConfig) -> (r: Self)
        ensures
            r.wf(),
            r@ == loaded(doc@, config.environment@),
            r.config == config,
    {
        let mut store = migrate(doc, &config.environment);
        if find_environment(&store, &config.environment).is_none() {
            put_environment(&mut store, config.environment.clone(), Vec::new());
            proof {
                assert(pairs_map(Seq::<KVPair>::empty()) =~= Map::empty());
            }
        }
        KVStore { environment: config.environment.clone(), store, config }
    }

    /// Loads the store from the text of its document, or starts an empty one
    /// when there is none; fails when the text is not a store document.
    pub fn load(contents: Option<&str>, config: SafirConfig) -> (r: Result<Self, StoreError>)
        ensures
            match contents {
                None => r is Ok && r->Ok_0@ == map![config.environment@ => Map::<Seq<char>, Seq<char>>::empty()],
                Some(text) => match parsed_document(text@) {
                    Some(d) => r is Ok && r->Ok_0@ == loaded(d, config.environment@),
                    None => r == Err::<Self, StoreError>(StoreError::Malformed),
                },
            },
            r is Ok ==> r->Ok_0.wf() && r->Ok_0.config == config,
    {
        match contents {
            None => {
                let empty = StoreDocument::Partitioned(Vec::new());
                let r = KVStore::from_document(&empty, config);
                proof {
                    assert(r@ =~= map![r.config.environment@ => Map::<Seq<char>, Seq<char>>::empty()]);
                }
                Ok(r)
            },
            Some(text) => match parse_document(text) {
                Some(doc) => Ok(KVStore::from_document(&doc, config)),
                None => Err(StoreError::Malformed),
            },
        }
    }

    /// Where the active environment stands among the environments.
    pub fn get_environment(&self) -> (r: usize)
        requires
            self.wf(),
        ensures
            r < self.store.len(),
            self.store[r as int].name@ == self.active(),
            pairs_wf(self.store[r as int].entries@),
            pairs_map(self.store[r as int].entries@) == self.pairs(),
    {
        proof {
            lemma_assoc_domain(envs_view(self.store@), self.active());
        }
        match find_environment(&self.store, &self.environment) {
            Some(i) => {
                proof {
                    lemma_assoc_value(envs_view(self.store@), i as int);
                }
                i
            },
            None => {
                proof {
                    assert(false);
                }
                0
            },
        }
    }

    /// Binds `key` to `value` in the active environment. A key already bound
    /// keeps its value unless `overwrite` holds.
    pub fn add(&mut self, key: String, value: String, overwrite: bool)
        requires
            old(self).wf(),
        ensures
            final(self).wf(),
            final(self)@ == added(old(self)@, old(self).active(), key@, value@, overwrite),
            final(self).active() == old(self).active(),
            final(self).config == old(self).config,
    {
        let i = self.get_environment();
        if !overwrite && lookup(&self.store[i].entries, &key).is_some() {
            return;
        }
        let mut entries = clone_pairs(&self.store[i].entries);
        proof {
            assert(pairs_map(entries@) == self.pairs());
        }
        put_pair(&mut entries, key, value);
        let name = self.environment.clone();
        put_environment(&mut self.store, name, entries);
    }

    /// The pairs of the active environment for `keys`, in the order of `keys`;
    /// keys it does not hold are left out.
    pub fn get(&self, keys: Vec<String>) -> (r: Vec<KVPair>)
        requires
            self.wf(),
        ensures
            pairs_view(r@) == select(self.pairs(), strings_view(keys@)),
    {
        let i = self.get_environment();
        select_pairs(&self.store[i].entries, &keys)
    }

    /// All pairs of the active environment, each key once.
    pub fn list(&self) -> (r: Vec<KVPair>)
        requires
            self.wf(),
        ensures
            pairs_wf(r@),
            pairs_map(r@) == self.pairs(),
    {
        let i = self.get_environment();
        clone_pairs(&self.store[i].entries)
    }

    /// Unbinds `keys` in the active environment; keys it does not hold are
    /// skipped.
    pub fn remove(&mut self, keys: Vec<String>)
        requires
            old(self).wf(),
        ensures
            final(self).wf(),
            final(self)@ == old(self)@.insert(
                old(self).active(),
                without_keys(old(self).pairs(), strings_view(keys@)),
            ),
            final(self).active() == old(self).active(),
            final(self).config == old(self).config,
    {
        let i = self.get_environment();
        let mut entries = clone_pairs(&self.store[i].entries);
        proof {
            assert(pairs_map(entries@) == self.pairs());
        }
        delete_keys(&mut entries, &keys);
        let name = self.environment.clone();
        put_environment(&mut self.store, name, entries);
    }

    /// Empties the active environment; the others keep their pairs.
    pub fn clear(&mut self)
        requires
            old(self).wf(),
        ensures
            final(self).wf(),
            final(self)@ == old(self)@.insert(old(self).active(), Map::empty()),
            final(self).active() == old(self).active(),
            final(self).config == old(self).config,
    {
        let name = self.environment.clone();
        put_environment(&mut self.store, name, Vec::new());
        proof {
            assert(pairs_map(Seq::<KVPair>::empty()) =~= Map::empty());
        }
    }

    /// The names of all environments, each once.
    pub fn environments(&self) -> (r: Vec<String>)
        requires
            self.wf(),
        ensures
            strings_view(r@).no_duplicates(),
            strings_view(r@).to_set() == self@.dom(),
    {
        let mut out: Vec<String> = Vec::new();
        let mut i: usize = 0;
        while i < self.store.len()
            invariant
                i <= self.store.len(),
                envs_wf(self.store@),
                strings_view(out@) == envs_view(self.store@).take(i as int).map_values(
                    |p: (Seq<char>, Map<Seq<char>, Seq<char>>)| p.0,
                ),
            decreases self.store.len() - i,
        {
            let ghost before = out@;
            out.push(self.store[i].name.clone());
            proof {
                assert(strings_view(out@) =~= strings_view(before).push(self.store[i as int].name@));
                assert(strings_view(out@) =~= envs_view(self.store@).take(i + 1).map_values(
                    |p: (Seq<char>, Map<Seq<char>, Seq<char>>)| p.0,
                ));
            }
            i = i + 1;
        }
        proof {
            let names = strings_view(out@);
            let ev = envs_view(self.store@);
            assert(ev.take(i as int) =~= ev);
            assert forall|a: int, b: int| 0 <= a < names.len() && 0 <= b < names.len() && a != b
                implies names[a] != names[b] by {
                if a < b {
                    assert(ev[a].0 != ev[b].0);
                } else {
                    assert(ev[b].0 != ev[a].0);
                }
            }
            assert forall|k: Seq<char>| #[trigger] names.to_set().contains(k) <==> self@.dom().contains(k) by {
                lemma_assoc_domain(ev, k);
                if names.contains(k) {
                    let j = choose|j: int| 0 <= j < names.len() && names[j] == k;
                    assert(ev[j].0 == k);
                }
                if has_name(ev, k) {
                    let j = choose|j: int| 0 <= j < ev.len() && #[trigger] ev[j].0 == k;
                    assert(names[j] == k);
                }
            }
            assert(names.to_set() =~= self@.dom());
        }
        out
    }

    /// The settings the store was loaded with.
    pub fn get_config(&self) -> (r: SafirConfig)
        ensures
            r == self.config,
    {
        self.config.snapshot()
    }

    /// The JSON text of the store document, as written to disk.
    pub fn write_store(&self) -> (r: String)
        requires
            self.wf(),
        ensures
            r@ == json_pretty(self@),
    {
        render_pretty(&self.store)
    }
}

/// Loading the partitioned document of a store, with its environment active,
/// yields the same store. The written JSON text is read back as that document
/// only where the JSON text reads back as the mapping it was rendered from;
/// that is assumed here, not proved: under that assumption alone, writing and
/// reloading leaves every environment's mapping unchanged.
pub proof fn lemma_write_load_round_trip(s: KVStore)
    requires
        s.wf(),
    ensures
        loaded(DocumentModel::Partitioned(s@), s.active()) == s@,
        json_partitioned(json_pretty(s@)) == Some(s@) ==> parsed_document(json_pretty(s@)) == Some(
            DocumentModel::Partitioned(s@),
        ),
{
}

/// A key that the active environment does not hold is not returned by `get`,
/// and removing it leaves the store as it was.
pub proof fn lemma_absent_key(s: KVStore, k: Seq<char>)
    requires
        s.wf(),
        !s.pairs().contains_key(k),
    ensures
        select(s.pairs(), seq![k]) == Seq::<(Seq<char>, Seq<char>)>::empty(),
        s@.insert(s.active(), without_keys(s.pairs(), seq![k])) == s@,
{
    reveal_with_fuel(select, 2);
    reveal_with_fuel(without_keys, 2);
    assert(seq![k].drop_last() =~= Seq::<Seq<char>>::empty());
    assert(seq![k].last() == k);
    assert(without_keys(s.pairs(), seq![k]) =~= s.pairs());
    assert(s@.insert(s.active(), s.pairs()) =~= s@);
}

/// Adding `k` twice, the second time with the replacement confirmed, leaves
/// `k` bound to the second value, whatever happened the first time.
pub proof fn lemma_overwrite(
    s: KVStore,
    k: Seq<char>,
    v1: Seq<char>,
    v2: Seq<char>,
    first_overwrite: bool,
)
    requires
        s.wf(),
    ensures
        ({
            let e = s.active();
            let once = added(s@, e, k, v1, first_overwrite);
            let twice = added(once, e, k, v2, true);
            select(twice[e], seq![k]) == seq![(k, v2)]
        }),
{
    let e = s.active();
    let twice = added(added(s@, e, k, v1, first_overwrite), e, k, v2, true);
    reveal_with_fuel(select, 2);
    assert(seq![k].drop_last() =~= Seq::<Seq<char>>::empty());
    assert(seq![k].last() == k);
    assert(twice[e].contains_key(k) && twice[e][k] == v2);
    assert(select(twice[e], seq![k]) =~= seq![(k, v2)]);
}

/// Clearing the active environment empties it alone: loading the cleared
/// store with another environment active gives that environment's pairs as
/// they were.
pub proof fn lemma_clear_isolated(s: KVStore, other: Seq<char>)
    requires
        s.wf(),
        other != s.active(),
    ensures
        ({
            let cleared = s@.insert(s.active(), Map::empty());
            &&& cleared[s.active()] == Map::<Seq<char>, Seq<char>>::empty()
            &&& loaded(DocumentModel::Partitioned(cleared), other)[other] == loaded(
                DocumentModel::Partitioned(s@),
                other,
            )[other]
        }),
{
}

} // verus!
