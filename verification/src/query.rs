//! The query engine: translates one request shape into the matching store
//! call, applying the default result size when the caller names none, and
//! keeping the store's ordering guarantee (descending by id).

use vstd::prelude::*;

use crate::error::ShiError;
use crate::store::EntryModel;
use crate::store::History;
use crate::store::HistoryStore;
use crate::store::MatchField;
use crate::store::StoreModel;
use crate::store::all_model;
use crate::store::append_model;
use crate::store::cleared_model;
use crate::store::delete_model;
use crate::store::filtered_model;
use crate::store::has_id;
use crate::store::recent_model;
use crate::store::rows_model;

verus! {

/// The number of rows a query returns when the caller names no limit.
pub const DEFAULT_SIZE: usize = 50;

/// One request shape. An unspecified limit defaults to `DEFAULT_SIZE`.
pub enum QueryShape {
    /// Every entry.
    All,
    /// At most the given number of most recent entries.
    Recent(Option<usize>),
    /// Entries whose command text holds the substring.
    ByCommand(String, Option<usize>),
    /// Entries whose working directory holds the substring.
    ByPath(String, Option<usize>),
}

/// The row limit a request resolves to.
pub open spec fn limit_of(limit: Option<usize>) -> nat {
    match limit {
        Some(n) => n as nat,
        None => DEFAULT_SIZE as nat,
    }
}

/// What one request shape returns on a store: the matching entries, most
/// recent first, cut to the resolved limit.
pub open spec fn query_model(m: StoreModel, shape: QueryShape) -> Seq<EntryModel> {
    match shape {
        QueryShape::All => all_model(m),
        QueryShape::Recent(l) => recent_model(m, limit_of(l)),
        QueryShape::ByCommand(s, l) => filtered_model(m, MatchField::Command, s@, limit_of(l)),
        QueryShape::ByPath(s, l) => filtered_model(m, MatchField::Path, s@, limit_of(l)),
    }
}

/// The requested limit, or the default where none was named.
fn resolve_limit(limit: &Option<usize>) -> (r: usize)
    ensures
        r as nat == limit_of(*limit),
{
    match limit {
        Some(n) => *n,
        None => DEFAULT_SIZE,
    }
}

/// Records one command execution with the collaborator's timestamp and
/// working directory; returns the assigned identifier. Never fails on a
/// well-formed store: storage failures belong to the persistence
/// collaborator outside the core.
pub fn insert(store: &mut HistoryStore, command: String, time: String, path: String) -> (r: Result<
    usize,
    ShiError,
>)
    requires
        old(store).inv(),
        old(store)@.next_id < usize::MAX,
    ensures
        final(store).inv(),
        final(store)@ == append_model(old(store)@, command@, time@, path@),
        match r {
            Ok(id) => id as nat == old(store)@.next_id,
            Err(_) => false,
        },
{
    Ok(store.append(command, time, path))
}

/// Runs one request against the store: the matching rows, most recent
/// first, at most the requested (or default) number.
pub fn query(store: &HistoryStore, shape: &QueryShape) -> (r: Result<Vec<History>, ShiError>)
    ensures
        match r {
            Ok(rows) => rows_model(rows@) == query_model(store@, *shape),
            Err(_) => false,
        },
{
    let rows = match shape {
        QueryShape::All => store.query_all(),
        QueryShape::Recent(l) => store.query_recent(resolve_limit(l)),
        QueryShape::ByCommand(s, l) => store.query_filtered(
            MatchField::Command,
            s.as_str(),
            resolve_limit(l),
        ),
        QueryShape::ByPath(s, l) => store.query_filtered(
            MatchField::Path,
            s.as_str(),
            resolve_limit(l),
        ),
    };
    Ok(rows)
}

/// The store after deleting a sequence of identifiers, first to last.
pub open spec fn delete_seq_model(m: StoreModel, ids: Seq<usize>) -> StoreModel
    decreases ids.len(),
{
    if ids.len() == 0 {
        m
    } else {
        delete_seq_model(delete_model(m, ids[0] as nat), ids.skip(1))
    }
}

/// Deleting one more identifier after a sequence deletes it from the
/// sequence's result.
proof fn lemma_delete_seq_snoc(m: StoreModel, ids: Seq<usize>, x: usize)
    ensures
        delete_seq_model(m, ids.push(x)) == delete_model(delete_seq_model(m, ids), x as nat),
    decreases ids.len(),
{
    let snoc = ids.push(x);
    assert(delete_seq_model(m, snoc) == delete_seq_model(delete_model(m, snoc[0] as nat), snoc.skip(
        1,
    )));
    if ids.len() == 0 {
        assert(snoc[0] == x);
        assert(snoc.skip(1) =~= Seq::<usize>::empty());
        assert(delete_seq_model(delete_model(m, x as nat), snoc.skip(1)) == delete_model(
            m,
            x as nat,
        ));
    } else {
        assert(snoc[0] == ids[0]);
        assert(snoc.skip(1) =~= ids.skip(1).push(x));
        lemma_delete_seq_snoc(delete_model(m, ids[0] as nat), ids.skip(1), x);
        assert(delete_seq_model(m, ids) == delete_seq_model(
            delete_model(m, ids[0] as nat),
            ids.skip(1),
        ));
    }
}

/// Deletes each identifier in turn and reports, per identifier, whether an
/// entry was removed; a missing identifier is a no-op, not an error.
pub fn delete(store: &mut HistoryStore, ids: &Vec<usize>) -> (r: Vec<(usize, bool)>)
    requires
        old(store).inv(),
    ensures
        final(store).inv(),
        final(store)@ == delete_seq_model(old(store)@, ids@),
        r@.len() == ids@.len(),
        forall|i: int| 0 <= i < ids@.len() ==> (#[trigger] r@[i]).0 == ids@[i],
        forall|i: int|
            0 <= i < ids@.len() ==> (#[trigger] r@[i]).1 == has_id(
                delete_seq_model(old(store)@, ids@.take(i)),
                ids@[i] as nat,
            ),
{
    let mut out: Vec<(usize, bool)> = Vec::new();
    let n = ids.len();
    let mut i: usize = 0;
    while i < n
        invariant
            n == ids@.len(),
            i <= n,
            out@.len() == i,
            store.inv(),
            store@ == delete_seq_model(old(store)@, ids@.take(i as int)),
            forall|t: int| 0 <= t < i ==> (#[trigger] out@[t]).0 == ids@[t],
            forall|t: int|
                0 <= t < i ==> (#[trigger] out@[t]).1 == has_id(
                    delete_seq_model(old(store)@, ids@.take(t)),
                    ids@[t] as nat,
                ),
        decreases n - i,
    {
        let id = ids[i];
        let removed = store.delete_by_id(id);
        out.push((id, removed));
        proof {
            assert(ids@.take(i + 1) =~= ids@.take(i as int).push(id));
            lemma_delete_seq_snoc(old(store)@, ids@.take(i as int), id);
        }
        i += 1;
    }
    proof {
        assert(ids@.take(n as int) =~= ids@);
    }
    out
}

/// Drops every entry unconditionally. Never fails on its own: storage
/// failures belong to the persistence collaborator outside the core.
pub fn clear(store: &mut HistoryStore) -> (r: Result<(), ShiError>)
    ensures
        final(store).inv(),
        final(store)@ == cleared_model(),
        r is Ok,
{
    store.clear();
    Ok(())
}

} // verus!
