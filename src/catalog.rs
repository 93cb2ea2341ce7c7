use vstd::prelude::*;
use vstd::std_specs::iter::IteratorSpec;
use vstd::string::*;

use crate::errors::Error;
use crate::server::{ServerModel, ServerType};

verus! {

/// A catalog entry: a server and the subscription group it came from.
#[derive(Debug)]
pub struct Server {
    pub group: String,
    pub server: ServerType,
}

/// The persistent catalog of candidate servers, in order.
pub struct Servers {
    pub filepath: String,
    pub servers: Vec<Server>,
}

/// A catalog entry, with its text as characters.
pub struct CatalogEntry {
    pub group: Seq<char>,
    pub server: ServerModel,
}

impl View for Server {
    type V = CatalogEntry;

    open spec fn view(&self) -> CatalogEntry {
        CatalogEntry { group: self.group@, server: self.server@ }
    }
}

pub open spec fn entry_view(e: Server) -> CatalogEntry {
    e@
}

pub open spec fn server_view(s: ServerType) -> ServerModel {
    s@
}

impl View for Servers {
    type V = Seq<CatalogEntry>;

    open spec fn view(&self) -> Seq<CatalogEntry> {
        self.servers@.map_values(|e: Server| entry_view(e))
    }
}

/// Keeps the entries of every group but `group`.
pub open spec fn outside_group(group: Seq<char>) -> spec_fn(CatalogEntry) -> bool {
    |e: CatalogEntry| e.group != group
}

/// The fetched servers as entries of `group`.
pub open spec fn tagged(group: Seq<char>, fetched: Seq<ServerModel>) -> Seq<CatalogEntry> {
    fetched.map_values(|s: ServerModel| CatalogEntry { group, server: s })
}

/// Merges a fetch for `group` into a catalog: an empty fetch changes
/// nothing; any other replaces the group's entries with the fetched ones,
/// appended after the other groups' entries, whose order is kept. The flag
/// tells whether the catalog was replaced.
pub open spec fn reconcile(catalog: Seq<CatalogEntry>, group: Seq<char>, fetched: Seq<ServerModel>) -> (
    Seq<CatalogEntry>,
    bool,
) {
    if fetched.len() == 0 {
        (catalog, false)
    } else {
        (catalog.filter(outside_group(group)) + tagged(group, fetched), true)
    }
}

/// An empty fetch leaves the catalog as it is and reports no change.
pub proof fn lemma_reconcile_empty(catalog: Seq<CatalogEntry>, group: Seq<char>)
    ensures
        reconcile(catalog, group, Seq::empty()) == (catalog, false),
{
}

proof fn lemma_filter_idempotent(s: Seq<CatalogEntry>, pred: spec_fn(CatalogEntry) -> bool)
    ensures
        s.filter(pred).filter(pred) == s.filter(pred),
    decreases s.len(),
{
    reveal_with_fuel(Seq::filter, 2);
    if s.len() > 0 {
        lemma_filter_idempotent(s.drop_last(), pred);
        if pred(s.last()) {
            let t = s.drop_last().filter(pred);
            assert(t.push(s.last()).drop_last() =~= t);
        }
    }
}

/// Reconciling a group twice with the same non-empty fetch gives what
/// reconciling it once gives.
pub proof fn lemma_reconcile_idempotent(
    catalog: Seq<CatalogEntry>,
    group: Seq<char>,
    fetched: Seq<ServerModel>,
)
    requires
        fetched.len() > 0,
    ensures
        reconcile(reconcile(catalog, group, fetched).0, group, fetched) == reconcile(
            catalog,
            group,
            fetched,
        ),
{
    let pred = outside_group(group);
    let kept = catalog.filter(pred);
    let new = tagged(group, fetched);
    Seq::filter_distributes_over_add(kept, new, pred);
    lemma_filter_idempotent(catalog, pred);
    new.lemma_all_neg_filter_empty(pred);
    assert(kept + Seq::<CatalogEntry>::empty() =~= kept);
}

impl Servers {
    /// A catalog stored at `filepath` with the given entries.
    pub fn new(filepath: String, servers: Vec<Server>) -> (r: Servers)
        ensures
            r.filepath == filepath,
            r@ == servers@.map_values(|e: Server| entry_view(e)),
    {
        Servers { filepath, servers }
    }

    /// Merges the servers just fetched for `group` (see [`reconcile`]); the
    /// result tells whether the catalog changed.
    pub fn update_by_group_name(&mut self, group: &str, servers: &Vec<ServerType>) -> (r: Result<
        bool,
        Error,
    >)
        ensures
            r matches Ok(changed) && changed == reconcile(
                old(self)@,
                group@,
                servers@.map_values(|s: ServerType| server_view(s)),
            ).1,
            final(self)@ == reconcile(
                old(self)@,
                group@,
                servers@.map_values(|s: ServerType| server_view(s)),
            ).0,
            final(self).filepath == old(self).filepath,
    {
        let ghost fetched = servers@.map_values(|s: ServerType| server_view(s));
        if servers.len() == 0 {
            return Ok(false);
        }
        let ghost old_entries = self.servers@;
        let ghost pred = outside_group(group@);
        let g = group.to_owned();
        let mut kept: Vec<Server> = Vec::new();
        let mut i: usize = 0;
        proof {
            assert(old_entries.subrange(0, 0).map_values(|e: Server| entry_view(e)) =~= Seq::<
                CatalogEntry,
            >::empty());
        }
        while i < self.servers.len()
            invariant
                0 <= i <= self.servers@.len(),
                self.servers@ == old_entries,
                g@ == group@,
                pred == outside_group(group@),
                kept@.map_values(|e: Server| entry_view(e)) == old_entries.subrange(
                    0,
                    i as int,
                ).map_values(|e: Server| entry_view(e)).filter(pred),
            decreases self.servers@.len() - i,
        {
            let ghost before = old_entries.subrange(0, i as int).map_values(
                |e: Server| entry_view(e),
            );
            let ghost after = old_entries.subrange(0, i + 1).map_values(|e: Server| entry_view(e));
            proof {
                reveal(Seq::filter);
                assert(after.drop_last() =~= before);
                assert(after.last() == entry_view(old_entries[i as int]));
                assert(after.filter(pred) == if pred(after.last()) {
                    before.filter(pred).push(after.last())
                } else {
                    before.filter(pred)
                });
                assert(pred(after.last()) == (old_entries[i as int].group@ != group@));
            }
            if !(self.servers[i].group == g) {
                let e = Server {
                    group: self.servers[i].group.clone(),
                    server: self.servers[i].server.clone(),
                };
                let ghost kept_before = kept@;
                kept.push(e);
                proof {
                    assert(kept@.map_values(|e: Server| entry_view(e)) =~= kept_before.map_values(
                        |e: Server| entry_view(e),
                    ).push(entry_view(e)));
                }
            }
            i = i + 1;
        }
        proof {
            assert(old_entries.subrange(0, old_entries.len() as int) =~= old_entries);
        }
        let ghost kept_len = kept@.len();
        let mut j: usize = 0;
        while j < servers.len()
            invariant
                0 <= j <= servers@.len(),
                g@ == group@,
                kept_len <= kept@.len(),
                kept@.len() == kept_len + j,
                kept@.subrange(0, kept_len as int).map_values(|e: Server| entry_view(e))
                    == old_entries.map_values(|e: Server| entry_view(e)).filter(pred),
                forall|k: int|
                    0 <= k < j ==> entry_view(#[trigger] kept@[kept_len + k]) == (CatalogEntry {
                        group: group@,
                        server: server_view(servers@[k]),
                    }),
            decreases servers@.len() - j,
        {
            let ghost kept_before = kept@;
            kept.push(Server { group: g.clone(), server: servers[j].clone() });
            proof {
                assert(kept@.subrange(0, kept_len as int) =~= kept_before.subrange(
                    0,
                    kept_len as int,
                ));
            }
            j = j + 1;
        }
        proof {
            let total = kept@.map_values(|e: Server| entry_view(e));
            let want = old_entries.map_values(|e: Server| entry_view(e)).filter(pred) + tagged(
                group@,
                fetched,
            );
            let filtered = old_entries.map_values(|e: Server| entry_view(e)).filter(pred);
            assert(total.subrange(0, kept_len as int) =~= kept@.subrange(
                0,
                kept_len as int,
            ).map_values(|e: Server| entry_view(e)));
            assert(filtered.len() == kept_len);
            assert forall|k: int| 0 <= k < total.len() implies total[k] == want[k] by {
                if k < kept_len {
                    assert(total[k] == total.subrange(0, kept_len as int)[k]);
                } else {
                    assert(entry_view(kept@[kept_len + (k - kept_len)]) == (CatalogEntry {
                        group: group@,
                        server: server_view(servers@[k - kept_len]),
                    }));
                }
            }
            assert(total =~= want);
        }
        self.servers = kept;
        Ok(true)
    }

    /// The entries, in order.
    pub fn iter(&self) -> (r: std::slice::Iter<'_, Server>)
        ensures
            IteratorSpec::remaining(&r) == self.servers@.as_ref(),
    {
        broadcast use vstd::std_specs::slice::axiom_spec_slice_iter;

        self.servers.as_slice().iter()
    }

    /// The entry at `idx`, if there is one.
    pub fn get(&self, idx: usize) -> (r: Option<&Server>)
        ensures
            idx < self@.len() ==> (r matches Some(e) && e@ == self@[idx as int]),
            idx >= self@.len() ==> r is None,
    {
        if idx < self.servers.len() {
            Some(&self.servers[idx])
        } else {
            None
        }
    }

    /// The number of entries.
    pub fn len(&self) -> (r: usize)
        ensures
            r == self@.len(),
    {
        self.servers.len()
    }
}

} // verus!
