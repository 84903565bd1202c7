//! The persisted store document, in its legacy flat shape or in its shape
//! partitioned by environment, and the upgrade from the first to the second.
use vstd::prelude::*;
use crate::KVPair;
use crate::assoc::{assoc_map, names_unique, has_name, lemma_assoc_domain, lemma_assoc_push,
    lemma_assoc_update};
use crate::entries::{pairs_view, pairs_map, pairs_wf, put_pair};

verus! {

/// A named partition of the store.
pub struct Environment {
    pub name: String,
    pub entries: Vec<KVPair>,
}

impl Environment {
    /// The name and the mapping that the partition holds.
    pub open spec fn view(&self) -> (Seq<char>, Map<Seq<char>, Seq<char>>) {
        (self.name@, pairs_map(self.entries@))
    }
}

/// The partitions as (name, mapping) pairs.
pub open spec fn envs_view(s: Seq<Environment>) -> Seq<(Seq<char>, Map<Seq<char>, Seq<char>>)> {
    s.map_values(|e: Environment| e@)
}

/// The environment-to-mapping map that the partitions hold; a later one wins.
pub open spec fn envs_map(s: Seq<Environment>) -> Map<Seq<char>, Map<Seq<char>, Seq<char>>> {
    assoc_map(envs_view(s))
}

/// No environment name occurs twice, and no key twice within one environment.
pub open spec fn envs_wf(s: Seq<Environment>) -> bool {
    &&& names_unique(envs_view(s))
    &&& forall|i: int| 0 <= i < s.len() ==> pairs_wf(#[trigger] s[i].entries@)
}

/// A store document as read from disk.
pub enum StoreDocument {
    /// The legacy shape: one key/value map with no environment.
    Flat(Vec<KVPair>),
    /// The current shape: one key/value map per environment.
    Partitioned(Vec<Environment>),
}

/// What a store document holds.
pub enum DocumentModel {
    Flat(Map<Seq<char>, Seq<char>>),
    Partitioned(Map<Seq<char>, Map<Seq<char>, Seq<char>>>),
}

impl StoreDocument {
    pub open spec fn view(&self) -> DocumentModel {
        match self {
            StoreDocument::Flat(p) => DocumentModel::Flat(pairs_map(p@)),
            StoreDocument::Partitioned(e) => DocumentModel::Partitioned(envs_map(e@)),
        }
    }
}

/// The partitioned mapping a document stands for: a flat document becomes
/// the single environment `environment`.
pub open spec fn migrated(d: DocumentModel, environment: Seq<char>) -> Map<
    Seq<char>,
    Map<Seq<char>, Seq<char>>,
> {
    match d {
        DocumentModel::Flat(m) => map![environment => m],
        DocumentModel::Partitioned(m) => m,
    }
}

/// Migrating a document that is already the result of a migration changes
/// nothing: the upgrade is idempotent.
pub proof fn lemma_migration_idempotent(d: DocumentModel, environment: Seq<char>)
    ensures
        migrated(DocumentModel::Partitioned(migrated(d, environment)), environment) == migrated(
            d,
            environment,
        ),
{
}

/// The same mapping without repeated keys.
pub fn normalize_pairs(pairs: &Vec<KVPair>) -> (r: Vec<KVPair>)
    ensures
        pairs_wf(r@),
        pairs_map(r@) == pairs_map(pairs@),
{
    let mut out: Vec<KVPair> = Vec::new();
    let mut i: usize = 0;
    while i < pairs.len()
        invariant
            i <= pairs.len(),
            pairs_wf(out@),
            pairs_map(out@) == assoc_map(pairs_view(pairs@).take(i as int)),
        decreases pairs.len() - i,
    {
        let key = pairs[i].0.clone();
        let value = pairs[i].1.clone();
        put_pair(&mut out, key, value);
        proof {
            assert(pairs_view(pairs@).take(i + 1).drop_last() =~= pairs_view(pairs@).take(
                i as int,
            ));
        }
        i = i + 1;
    }
    proof {
        assert(pairs_view(pairs@).take(i as int) =~= pairs_view(pairs@));
    }
    out
}

/// Where the environment `name` stands in `envs`, if anywhere.
pub fn find_environment(envs: &Vec<Environment>, name: &String) -> (r: Option<usize>)
    ensures
        match r {
            Some(i) => i < envs.len() && envs[i as int].name@ == name@,
            None => !has_name(envs_view(envs@), name@),
        },
        r is None <==> !envs_map(envs@).contains_key(name@),
{
    let mut i: usize = 0;
    while i < envs.len()
        invariant
            i <= envs.len(),
            forall|j: int| 0 <= j < i ==> envs[j].name@ != name@,
        decreases envs.len() - i,
    {
        if envs[i].name == *name {
            proof {
                assert(envs_view(envs@)[i as int].0 == name@);
                assert(has_name(envs_view(envs@), name@));
                lemma_assoc_domain(envs_view(envs@), name@);
            }
            return Some(i);
        }
        i = i + 1;
    }
    proof {
        if has_name(envs_view(envs@), name@) {
            let j = choose|j: int| 0 <= j < envs.len() && #[trigger] envs_view(envs@)[j].0 == name@;
            assert(envs[j].name@ == name@);
        }
        lemma_assoc_domain(envs_view(envs@), name@);
    }
    None
}

/// Binds the environment `name` to `entries`, replacing what it held.
pub fn put_environment(envs: &mut Vec<Environment>, name: String, entries: Vec<KVPair>)
    requires
        envs_wf(old(envs)@),
        pairs_wf(entries@),
    ensures
        envs_wf(final(envs)@),
        envs_map(final(envs)@) == envs_map(old(envs)@).insert(name@, pairs_map(entries@)),
{
    let ghost before = envs@;
    let ghost n = name@;
    let ghost m = pairs_map(entries@);
    match find_environment(envs, &name) {
        Some(i) => {
            envs.remove(i);
            envs.insert(i, Environment { name, entries });
            proof {
                assert(envs@ =~= before.update(i as int, envs@[i as int]));
                assert(envs_view(envs@) =~= envs_view(before).update(
                    i as int,
                    (envs_view(before)[i as int].0, m),
                ));
                lemma_assoc_update(envs_view(before), i as int, m);
            }
        },
        None => {
            envs.push(Environment { name, entries });
            proof {
                assert(envs_view(envs@) =~= envs_view(before).push((n, m)));
                lemma_assoc_push(envs_view(before), n, m);
                assert forall|a: int, b: int|
                    0 <= a < b < envs_view(envs@).len() implies #[trigger] envs_view(envs@)[a].0
                    != #[trigger] envs_view(envs@)[b].0 by {
                    assert(envs_view(before)[a] == envs_view(envs@)[a]);
                    if b < before.len() {
                        assert(envs_view(before)[b] == envs_view(envs@)[b]);
                    }
                }
            }
        },
    }
}

/// The partitioned form of a document: a legacy flat document is placed
/// under `environment`, a partitioned one is kept as it is.
pub fn migrate(doc: &StoreDocument, environment: &String) -> (r: Vec<Environment>)
    ensures
        envs_wf(r@),
        envs_map(r@) == migrated(doc@, environment@),
{
    let mut out: Vec<Environment> = Vec::new();
    match doc {
        StoreDocument::Flat(pairs) => {
            let entries = normalize_pairs(pairs);
            put_environment(&mut out, environment.clone(), entries);
            proof {
                assert(envs_map(out@) =~= migrated(doc@, environment@));
            }
        },
        StoreDocument::Partitioned(envs) => {
            let mut i: usize = 0;
            while i < envs.len()
                invariant
                    i <= envs.len(),
                    envs_wf(out@),
                    envs_map(out@) == assoc_map(envs_view(envs@).take(i as int)),
                decreases envs.len() - i,
            {
                let name = envs[i].name.clone();
                let entries = normalize_pairs(&envs[i].entries);
                put_environment(&mut out, name, entries);
                proof {
                    assert(envs_view(envs@).take(i + 1).drop_last() =~= envs_view(envs@).take(
                        i as int,
                    ));
                }
                i = i + 1;
            }
            proof {
                assert(envs_view(envs@).take(i as int) =~= envs_view(envs@));
            }
        },
    }
    out
}

} // verus!
