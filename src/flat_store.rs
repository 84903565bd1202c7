//! A store of a single key/value map, with no environments.
use vstd::prelude::*;
use crate::KVPair;
use crate::display::{command_text, command_line};
use crate::entries::{pairs_view, pairs_map, pairs_wf, strings_view, select, without_keys,
    clone_pairs, select_pairs, delete_keys, put_pair};

verus! {

/// A store of one key/value map kept in a file of the workspace.
pub struct Store {
    /// The workspace directory.
    pub path: String,
    /// The file the map is kept in.
    pub file: String,
    /// The pairs, each key once.
    pub store: Vec<KVPair>,
}

impl Store {
    /// The key/value mapping.
    pub open spec fn view(&self) -> Map<Seq<char>, Seq<char>> {
        pairs_map(self.store@)
    }

    /// No key occurs twice.
    pub open spec fn wf(&self) -> bool {
        pairs_wf(self.store@)
    }

    /// Binds `key` to `value`, replacing any earlier value.
    pub fn add(&mut self, key: String, value: String)
        requires
            old(self).wf(),
        ensures
            final(self).wf(),
            final(self)@ == old(self)@.insert(key@, value@),
            final(self).path == old(self).path,
            final(self).file == old(self).file,
    {
        put_pair(&mut self.store, key, value);
    }

    /// The pairs for `keys`, in the order of `keys`; absent keys are skipped.
    pub fn get(&self, keys: Vec<String>) -> (r: Vec<KVPair>)
        requires
            self.wf(),
        ensures
            pairs_view(r@) == select(self@, strings_view(keys@)),
    {
        select_pairs(&self.store, &keys)
    }

    /// All pairs.
    pub fn list(&self) -> (r: Vec<KVPair>)
        requires
            self.wf(),
        ensures
            pairs_wf(r@),
            pairs_map(r@) == self@,
    {
        clone_pairs(&self.store)
    }

    /// Unbinds `keys`; absent keys are skipped.
    pub fn remove(&mut self, keys: Vec<String>)
        requires
            old(self).wf(),
        ensures
            final(self).wf(),
            final(self)@ == without_keys(old(self)@, strings_view(keys@)),
            final(self).path == old(self).path,
            final(self).file == old(self).file,
    {
        delete_keys(&mut self.store, &keys);
    }

    /// The pairs for `keys` as `display_cmd key="value"` lines, in the order
    /// of `keys`; absent keys are skipped.
    pub fn custom_display(&self, display_cmd: &str, keys: Vec<String>) -> (r: Vec<String>)
        requires
            self.wf(),
        ensures
            strings_view(r@) == select(self@, strings_view(keys@)).map_values(
                |p: (Seq<char>, Seq<char>)| command_text(display_cmd@, p.0, p.1),
            ),
    {
        let kvs = select_pairs(&self.store, &keys);
        let mut out: Vec<String> = Vec::new();
        let mut i: usize = 0;
        while i < kvs.len()
            invariant
                i <= kvs.len(),
                strings_view(out@) == pairs_view(kvs@).take(i as int).map_values(
                    |p: (Seq<char>, Seq<char>)| command_text(display_cmd@, p.0, p.1),
                ),
            decreases kvs.len() - i,
        {
            let ghost before = out@;
            let line = command_line(display_cmd, &kvs[i].0, &kvs[i].1);
            out.push(line);
            proof {
                assert(strings_view(out@) =~= strings_view(before).push(line@));
                assert(strings_view(out@) =~= pairs_view(kvs@).take(i + 1).map_values(
                    |p: (Seq<char>, Seq<char>)| command_text(display_cmd@, p.0, p.1),
                ));
            }
            i = i + 1;
        }
        proof {
            assert(pairs_view(kvs@).take(i as int) =~= pairs_view(kvs@));
        }
        out
    }

    /// Removes every pair.
    pub fn clear(&mut self)
        ensures
            final(self).wf(),
            final(self)@ == Map::<Seq<char>, Seq<char>>::empty(),
            final(self).path == old(self).path,
            final(self).file == old(self).file,
    {
        self.store.clear();
        proof {
            assert(pairs_view(self.store@) =~= Seq::empty());
            assert(self@ =~= Map::<Seq<char>, Seq<char>>::empty());
        }
    }
}

} // verus!
