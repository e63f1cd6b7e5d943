//! The ordered history store and its query semantics.
//!
//! A store holds one entry per executed command. The store assigns each
//! entry a strictly increasing, never reused identifier at append time;
//! `id` is the sole ordering key. Queries return the most recent entries
//! first (descending by `id`), optionally bounded and filtered by a
//! case-sensitive substring on the command or on the working directory.
//!
//! Entries live in ascending `id` order; the mathematical model of a store
//! is the sequence of its entries together with the next identifier.

use vstd::prelude::*;

use crate::text::contains_seq;
use crate::text::contains_substr;

verus! {

/// One recorded command execution.
pub struct History {
    /// The identifier the store assigned at append time.
    pub id: usize,
    /// The command text, verbatim.
    pub command: String,
    /// The timestamp captured at append time. Entries are never ordered by
    /// this field, only by `id`.
    pub time: String,
    /// The working directory the command ran in, verbatim.
    pub path: String,
}

/// The mathematical reading of one entry.
#[verifier::ext_equal]
pub ghost struct EntryModel {
    pub id: nat,
    pub command: Seq<char>,
    pub time: Seq<char>,
    pub path: Seq<char>,
}

impl View for History {
    type V = EntryModel;

    open spec fn view(&self) -> EntryModel {
        EntryModel { id: self.id as nat, command: self.command@, time: self.time@, path: self.path@ }
    }
}

impl Clone for History {
    /// A clone is equal to the entry it was made from.
    fn clone(&self) -> (r: Self)
        ensures
            r == *self,
    {
        History {
            id: self.id,
            command: self.command.clone(),
            time: self.time.clone(),
            path: self.path.clone(),
        }
    }
}

impl History {
    /// An entry with id zero and empty text fields.
    pub fn new() -> (r: History)
        ensures
            r@.id == 0,
            r@.command == Seq::<char>::empty(),
            r@.time == Seq::<char>::empty(),
            r@.path == Seq::<char>::empty(),
    {
        History { id: 0, command: String::new(), time: String::new(), path: String::new() }
    }
}

/// The mathematical reading of a sequence of entries.
pub open spec fn rows_model(rows: Seq<History>) -> Seq<EntryModel> {
    Seq::new(rows.len(), |i: int| rows[i]@)
}

/// The mathematical model of a store: its entries in ascending `id` order,
/// and the identifier the next appended entry will get.
#[verifier::ext_equal]
pub ghost struct StoreModel {
    pub entries: Seq<EntryModel>,
    pub next_id: nat,
}

/// Well-formedness of a store model: identifiers are strictly increasing
/// along the entries, start at 1, and stay below the next identifier.
pub open spec fn wf(m: StoreModel) -> bool {
    &&& forall|i: int, j: int|
        0 <= i < j < m.entries.len() ==> #[trigger] m.entries[i].id < #[trigger] m.entries[j].id
    &&& forall|i: int| 0 <= i < m.entries.len() ==> 1 <= (#[trigger] m.entries[i].id) < m.next_id
    &&& 1 <= m.next_id
}

/// The model after appending one entry: the new entry carries the next
/// identifier, and the next identifier moves up by one.
pub open spec fn append_model(
    m: StoreModel,
    command: Seq<char>,
    time: Seq<char>,
    path: Seq<char>,
) -> StoreModel {
    StoreModel {
        entries: m.entries.push(EntryModel { id: m.next_id, command: command, time: time, path: path }),
        next_id: m.next_id + 1,
    }
}

/// The most recent `limit` entries of an ascending sequence, most recent
/// first.
pub open spec fn desc_take(s: Seq<EntryModel>, limit: nat) -> Seq<EntryModel> {
    if limit < s.len() {
        s.reverse().take(limit as int)
    } else {
        s.reverse()
    }
}

/// Every entry, most recent first.
pub open spec fn all_model(m: StoreModel) -> Seq<EntryModel> {
    m.entries.reverse()
}

/// At most `limit` most recent entries, most recent first.
pub open spec fn recent_model(m: StoreModel, limit: nat) -> Seq<EntryModel> {
    desc_take(m.entries, limit)
}

/// The model of an empty store.
pub open spec fn cleared_model() -> StoreModel {
    StoreModel { entries: Seq::empty(), next_id: 1 }
}

/// The field a substring query matches on.
pub enum MatchField {
    /// Match on the command text.
    Command,
    /// Match on the working directory.
    Path,
}

/// Whether an entry matches a substring query on the chosen field.
pub open spec fn entry_matches(e: EntryModel, field: MatchField, sub: Seq<char>) -> bool {
    match field {
        MatchField::Command => contains_seq(e.command, sub),
        MatchField::Path => contains_seq(e.path, sub),
    }
}

/// The matching entries, keeping their ascending order.
pub open spec fn filter_entries(s: Seq<EntryModel>, field: MatchField, sub: Seq<char>) -> Seq<
    EntryModel,
>
    decreases s.len(),
{
    if s.len() == 0 {
        Seq::empty()
    } else {
        let rest = filter_entries(s.drop_last(), field, sub);
        if entry_matches(s.last(), field, sub) {
            rest.push(s.last())
        } else {
            rest
        }
    }
}

/// At most `limit` most recent matching entries, most recent first.
pub open spec fn filtered_model(
    m: StoreModel,
    field: MatchField,
    sub: Seq<char>,
    limit: nat,
) -> Seq<EntryModel> {
    desc_take(filter_entries(m.entries, field, sub), limit)
}

/// Whether the store holds an entry with this identifier.
pub open spec fn has_id(m: StoreModel, id: nat) -> bool {
    exists|i: int| 0 <= i < m.entries.len() && (#[trigger] m.entries[i]).id == id
}

/// The position of the entry with this identifier, where one exists. Under
/// `wf` identifiers are unique, so the position is determined.
pub open spec fn id_index(m: StoreModel, id: nat) -> int {
    choose|i: int| 0 <= i < m.entries.len() && (#[trigger] m.entries[i]).id == id
}

/// The model after deleting at most one entry: the one carrying `id` where
/// it exists, and nothing otherwise. The next identifier never moves back.
pub open spec fn delete_model(m: StoreModel, id: nat) -> StoreModel {
    if has_id(m, id) {
        StoreModel { entries: m.entries.remove(id_index(m, id)), next_id: m.next_id }
    } else {
        m
    }
}

/// Under `wf`, the entry found at some position is the only one with its
/// identifier, and `id_index` names that position.
pub proof fn lemma_id_unique(m: StoreModel, id: nat, i: int)
    requires
        wf(m),
        0 <= i < m.entries.len(),
        m.entries[i].id == id,
    ensures
        has_id(m, id),
        id_index(m, id) == i,
        forall|j: int| 0 <= j < m.entries.len() && j != i ==> (#[trigger] m.entries[j]).id != id,
{
    assert(has_id(m, id));
    assert forall|j: int| 0 <= j < m.entries.len() && j != i implies (#[trigger] m.entries[j]).id
        != id by {
        if j < i {
            assert(m.entries[j].id < m.entries[i].id);
        } else {
            assert(m.entries[i].id < m.entries[j].id);
        }
    }
}

/// Strictly descending `id` order: the shape of every query result.
pub open spec fn sorted_desc(s: Seq<EntryModel>) -> bool {
    forall|i: int, j: int| 0 <= i < j < s.len() ==> (#[trigger] s[i]).id > (#[trigger] s[j]).id
}

/// Well-formedness of rows handed back by a collaborator: ascending
/// identifiers starting at 1.
pub open spec fn rows_wf(s: Seq<EntryModel>) -> bool {
    &&& forall|i: int, j: int| 0 <= i < j < s.len() ==> #[trigger] s[i].id < #[trigger] s[j].id
    &&& forall|i: int| 0 <= i < s.len() ==> 1 <= (#[trigger] s[i]).id
}

/// The next identifier that suits already recorded rows: one above the
/// newest, or 1 when there are none.
pub open spec fn next_id_for(s: Seq<EntryModel>) -> nat {
    if s.len() == 0 {
        1
    } else {
        s.last().id + 1
    }
}

/// Whether rows can be taken over as a store: well-formed, with room for
/// the next identifier.
pub open spec fn loadable(s: Seq<EntryModel>) -> bool {
    rows_wf(s) && next_id_for(s) <= usize::MAX
}

/// A sequence whose adjacent identifiers ascend, ascends everywhere.
proof fn lemma_sorted_from_adjacent(s: Seq<EntryModel>, i: int, j: int)
    requires
        forall|t: int| 0 < t < s.len() ==> (#[trigger] s[t]).id > s[t - 1].id,
        0 <= i < j < s.len(),
    ensures
        s[i].id < s[j].id,
    decreases j - i,
{
    if i + 1 < j {
        lemma_sorted_from_adjacent(s, i, j - 1);
    }
    assert(s[j].id > s[j - 1].id);
}

/// Filtering keeps ascending order, keeps only matching entries, and
/// invents none.
pub proof fn lemma_filter_sorted(s: Seq<EntryModel>, field: MatchField, sub: Seq<char>)
    requires
        forall|i: int, j: int| 0 <= i < j < s.len() ==> #[trigger] s[i].id < #[trigger] s[j].id,
    ensures
        ({
            let f = filter_entries(s, field, sub);
            &&& forall|i: int, j: int| 0 <= i < j < f.len() ==> #[trigger] f[i].id < #[trigger] f[j].id
            &&& forall|t: int| 0 <= t < f.len() ==> entry_matches(#[trigger] f[t], field, sub)
            &&& forall|t: int|
                0 <= t < f.len() ==> exists|u: int| 0 <= u < s.len() && #[trigger] f[t] == s[u]
        }),
    decreases s.len(),
{
    let f = filter_entries(s, field, sub);
    if s.len() > 0 {
        let s0 = s.drop_last();
        lemma_filter_sorted(s0, field, sub);
        let f0 = filter_entries(s0, field, sub);
        assert forall|t: int| 0 <= t < f0.len() implies exists|u: int|
            0 <= u < s.len() && #[trigger] f0[t] == s[u] by {
            let u0 = choose|u: int| 0 <= u < s0.len() && f0[t] == s0[u];
            assert(s0[u0] == s[u0]);
            assert(f0[t] == s[u0]);
        }
        assert forall|t: int| 0 <= t < f0.len() implies (#[trigger] f0[t]).id < s.last().id by {
            let u0 = choose|u: int| 0 <= u < s0.len() && f0[t] == s0[u];
            assert(s[u0].id < s[s.len() - 1].id);
        }
        if entry_matches(s.last(), field, sub) {
            assert(f == f0.push(s.last()));
            assert(s.last() == s[s.len() - 1]);
        } else {
            assert(f == f0);
        }
    }
}

/// The ordering guarantee of every query shape: results are strictly
/// descending by identifier.
pub proof fn lemma_query_sorted(m: StoreModel, field: MatchField, sub: Seq<char>, limit: nat)
    requires
        wf(m),
    ensures
        sorted_desc(all_model(m)),
        sorted_desc(recent_model(m, limit)),
        sorted_desc(filtered_model(m, field, sub, limit)),
{
    lemma_filter_sorted(m.entries, field, sub);
}

/// Appending preserves well-formedness.
pub proof fn lemma_append_wf(m: StoreModel, command: Seq<char>, time: Seq<char>, path: Seq<char>)
    requires
        wf(m),
    ensures
        wf(append_model(m, command, time, path)),
{
    let m1 = append_model(m, command, time, path);
    assert forall|i: int, j: int| 0 <= i < j < m1.entries.len() implies #[trigger] m1.entries[i].id
        < #[trigger] m1.entries[j].id by {
        if j < m.entries.len() {
            assert(m.entries[i].id < m.entries[j].id);
        } else {
            assert(m.entries[i].id < m.next_id);
        }
    }
}

/// Append monotonicity: of two consecutive appends, the second gets the
/// strictly greater identifier, and the two most recent entries are the
/// second and then the first appended one.
pub proof fn lemma_append_monotonic(
    m: StoreModel,
    c1: Seq<char>,
    t1: Seq<char>,
    p1: Seq<char>,
    c2: Seq<char>,
    t2: Seq<char>,
    p2: Seq<char>,
)
    requires
        wf(m),
    ensures
        ({
            let m1 = append_model(m, c1, t1, p1);
            let m2 = append_model(m1, c2, t2, p2);
            let e1 = EntryModel { id: m.next_id, command: c1, time: t1, path: p1 };
            let e2 = EntryModel { id: m1.next_id, command: c2, time: t2, path: p2 };
            &&& wf(m1) && wf(m2)
            &&& e2.id > e1.id
            &&& recent_model(m2, 2) == seq![e2, e1]
        }),
{
    let m1 = append_model(m, c1, t1, p1);
    let m2 = append_model(m1, c2, t2, p2);
    let e1 = EntryModel { id: m.next_id, command: c1, time: t1, path: p1 };
    let e2 = EntryModel { id: m1.next_id, command: c2, time: t2, path: p2 };
    lemma_append_wf(m, c1, t1, p1);
    lemma_append_wf(m1, c2, t2, p2);
    assert(recent_model(m2, 2) =~= seq![e2, e1]);
}

/// Limit semantics: a limit of zero yields nothing, and no limit is ever
/// exceeded.
pub proof fn lemma_recent_limit(m: StoreModel, limit: nat)
    ensures
        recent_model(m, 0).len() == 0,
        recent_model(m, limit).len() <= limit,
{
}

/// Delete idempotence: deleting a missing identifier changes nothing;
/// deleting an existing one removes exactly that entry and no other, after
/// which the same deletion is a no-op.
pub proof fn lemma_delete_idempotent(m: StoreModel, id: nat)
    requires
        wf(m),
    ensures
        !has_id(m, id) ==> delete_model(m, id) == m,
        has_id(m, id) ==> ({
            let i = id_index(m, id);
            let d = delete_model(m, id);
            &&& 0 <= i < m.entries.len() && m.entries[i].id == id
            &&& d.entries.len() == m.entries.len() - 1
            &&& forall|t: int| 0 <= t < i ==> #[trigger] d.entries[t] == m.entries[t]
            &&& forall|t: int| i <= t < d.entries.len() ==> #[trigger] d.entries[t] == m.entries[t + 1]
            &&& d.next_id == m.next_id
        }),
        wf(delete_model(m, id)),
        !has_id(delete_model(m, id), id),
        delete_model(delete_model(m, id), id) == delete_model(m, id),
{
    if has_id(m, id) {
        let i = id_index(m, id);
        let d = delete_model(m, id);
        assert(0 <= i < m.entries.len() && m.entries[i].id == id);
        lemma_id_unique(m, id, i);
        m.entries.remove_ensures(i);
        assert forall|a: int, b: int| 0 <= a < b < d.entries.len() implies #[trigger] d.entries[a].id
            < #[trigger] d.entries[b].id by {
            let a0: int = if a < i {
                a
            } else {
                a + 1
            };
            let b0: int = if b < i {
                b
            } else {
                b + 1
            };
            assert(m.entries[a0].id < m.entries[b0].id);
        }
        assert forall|t: int| 0 <= t < d.entries.len() implies (#[trigger] d.entries[t]).id
            != id by {
            let t0: int = if t < i {
                t
            } else {
                t + 1
            };
            assert(d.entries[t] == m.entries[t0]);
        }
    }
}

/// The durable ordered log of history entries.
pub struct HistoryStore {
    entries: Vec<History>,
    next_id: usize,
}

impl View for HistoryStore {
    type V = StoreModel;

    closed spec fn view(&self) -> StoreModel {
        StoreModel { entries: rows_model(self.entries@), next_id: self.next_id as nat }
    }
}

/// The most recent `limit` rows of an ascending vector, most recent first.
fn desc_prefix(rows: &Vec<History>, limit: usize) -> (r: Vec<History>)
    ensures
        rows_model(r@) == desc_take(rows_model(rows@), limit as nat),
{
    let n = rows.len();
    let k = if limit < n {
        limit
    } else {
        n
    };
    let mut out: Vec<History> = Vec::new();
    let mut j: usize = 0;
    while j < k
        invariant
            k <= n,
            n == rows@.len(),
            out@.len() == j,
            j <= k,
            forall|t: int| 0 <= t < j ==> #[trigger] out@[t] == rows@[n - 1 - t],
        decreases k - j,
    {
        out.push(rows[n - 1 - j].clone());
        j += 1;
    }
    proof {
        assert(rows_model(out@) =~= desc_take(rows_model(rows@), limit as nat));
    }
    out
}

impl HistoryStore {
    /// Validity of a store: its model is well-formed.
    pub open spec fn inv(&self) -> bool {
        wf(self@)
    }

    /// An empty store; the first appended entry will get id 1.
    pub fn new() -> (r: HistoryStore)
        ensures
            r.inv(),
            r@ == cleared_model(),
    {
        let r = HistoryStore { entries: Vec::new(), next_id: 1 };
        proof {
            assert(r@ =~= cleared_model());
        }
        r
    }

    /// The number of entries held.
    pub fn len(&self) -> (n: usize)
        ensures
            n == self@.entries.len(),
    {
        self.entries.len()
    }

    /// Appends one entry, assigning it the next identifier, and returns
    /// that identifier.
    pub fn append(&mut self, command: String, time: String, path: String) -> (id: usize)
        requires
            old(self).inv(),
            old(self)@.next_id < usize::MAX,
        ensures
            final(self).inv(),
            final(self)@ == append_model(old(self)@, command@, time@, path@),
            id as nat == old(self)@.next_id,
    {
        let id = self.next_id;
        let ghost prior = self@;
        self.next_id = self.next_id + 1;
        self.entries.push(History { id: id, command: command, time: time, path: path });
        proof {
            assert(self@ =~= append_model(prior, command@, time@, path@));
        }
        id
    }

    /// Every entry, most recent first.
    pub fn query_all(&self) -> (r: Vec<History>)
        ensures
            rows_model(r@) == all_model(self@),
    {
        let r = desc_prefix(&self.entries, self.entries.len());
        proof {
            assert(rows_model(r@) =~= all_model(self@));
        }
        r
    }

    /// At most `limit` most recent entries, most recent first; a limit of
    /// zero yields nothing.
    pub fn query_recent(&self, limit: usize) -> (r: Vec<History>)
        ensures
            rows_model(r@) == recent_model(self@, limit as nat),
    {
        desc_prefix(&self.entries, limit)
    }

    /// At most `limit` most recent entries whose chosen field holds the
    /// substring, most recent first.
    pub fn query_filtered(&self, field: MatchField, needle: &str, limit: usize) -> (r: Vec<
        History,
    >)
        ensures
            rows_model(r@) == filtered_model(self@, field, needle@, limit as nat),
    {
        let ghost model = rows_model(self.entries@);
        let mut matched: Vec<History> = Vec::new();
        let n = self.entries.len();
        let mut i: usize = 0;
        while i < n
            invariant
                n == self.entries@.len(),
                i <= n,
                model == rows_model(self.entries@),
                rows_model(matched@) == filter_entries(model.take(i as int), field, needle@),
            decreases n - i,
        {
            let hit = match field {
                MatchField::Command => contains_substr(self.entries[i].command.as_str(), needle),
                MatchField::Path => contains_substr(self.entries[i].path.as_str(), needle),
            };
            let ghost before = matched@;
            if hit {
                matched.push(self.entries[i].clone());
            }
            proof {
                assert(model.take(i + 1).drop_last() =~= model.take(i as int));
                assert(model.take(i + 1).last() == model[i as int]);
                if hit {
                    assert(rows_model(matched@) =~= rows_model(before).push(model[i as int]));
                }
            }
            i += 1;
        }
        proof {
            assert(model.take(n as int) =~= model);
        }
        desc_prefix(&matched, limit)
    }

    /// Removes the entry carrying `id` where one exists, and reports
    /// whether one did; a missing identifier is a no-op, not an error.
    pub fn delete_by_id(&mut self, id: usize) -> (removed: bool)
        requires
            old(self).inv(),
        ensures
            final(self).inv(),
            removed == has_id(old(self)@, id as nat),
            final(self)@ == delete_model(old(self)@, id as nat),
    {
        let n = self.entries.len();
        let mut i: usize = 0;
        while i < n
            invariant
                wf(old(self)@),
                n == self.entries@.len(),
                i <= n,
                old(self)@ == self@,
                forall|t: int| 0 <= t < i ==> (#[trigger] old(self)@.entries[t]).id != id as nat,
            decreases n - i,
        {
            if self.entries[i].id == id {
                proof {
                    lemma_id_unique(old(self)@, id as nat, i as int);
                }
                self.entries.remove(i);
                proof {
                    assert(self@.entries =~= old(self)@.entries.remove(i as int));
                    old(self)@.entries.remove_ensures(i as int);
                    assert(self@ =~= delete_model(old(self)@, id as nat));
                }
                return true;
            }
            i += 1;
        }
        proof {
            assert(!has_id(old(self)@, id as nat));
        }
        false
    }

    /// Takes over rows already recorded by a collaborator, newest last.
    /// Yields `None` exactly when the rows are not strictly ascending by
    /// identifier starting at 1, or the next identifier would not fit.
    pub fn from_rows(rows: Vec<History>) -> (r: Option<HistoryStore>)
        ensures
            r is Some <==> loadable(rows_model(rows@)),
            match r {
                Some(s) => {
                    &&& s.inv()
                    &&& s@.entries == rows_model(rows@)
                    &&& s@.next_id == next_id_for(rows_model(rows@))
                },
                None => !loadable(rows_model(rows@)),
            },
    {
        let ghost model = rows_model(rows@);
        let n = rows.len();
        let mut i: usize = 0;
        while i < n
            invariant
                n == rows@.len(),
                model == rows_model(rows@),
                i <= n,
                forall|t: int| 0 <= t < i ==> 1 <= (#[trigger] model[t]).id,
                forall|t: int| 0 < t < i ==> (#[trigger] model[t]).id > model[t - 1].id,
            decreases n - i,
        {
            if rows[i].id == 0 {
                proof {
                    assert(model[i as int].id == 0);
                    assert(!rows_wf(model));
                }
                return None;
            }
            if i > 0 && rows[i - 1].id >= rows[i].id {
                proof {
                    assert(model[i - 1].id >= model[i as int].id);
                    assert(!rows_wf(model));
                }
                return None;
            }
            i += 1;
        }
        proof {
            assert forall|a: int, b: int| 0 <= a < b < model.len() implies #[trigger] model[a].id
                < #[trigger] model[b].id by {
                lemma_sorted_from_adjacent(model, a, b);
            }
        }
        let next_id = if n == 0 {
            1
        } else {
            let last_id = rows[n - 1].id;
            if last_id == usize::MAX {
                return None;
            }
            last_id + 1
        };
        let s = HistoryStore { entries: rows, next_id: next_id };
        proof {
            assert(s@.entries =~= model);
        }
        Some(s)
    }

    /// Removes every entry. The next appended entry will get id 1 again.
    pub fn clear(&mut self)
        ensures
            final(self).inv(),
            final(self)@ == cleared_model(),
    {
        self.entries.clear();
        self.next_id = 1;
        proof {
            assert(self@ =~= cleared_model());
        }
    }
}

} // verus!

