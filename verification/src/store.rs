use vstd::prelude::*;

use crate::models::{Schedule, User, str_eq};
use vstd::multiset::Multiset;
use vstd::pervasive::VecAdditionalExecFns;

verus! {

broadcast use {vstd::seq_lib::group_to_multiset_ensures, vstd::multiset::group_multiset_axioms};

/// The expected-state predicate of a conditional write: every field set
/// here must still hold of the stored row at write time, so a concurrent
/// conflicting writer cannot also succeed. This re-states the guards of
/// the authorization rule table inside the write itself.
pub struct StateFilter {
    /// The row's subject must equal this identity.
    pub username: Option<String>,
    /// The row's creator must equal this identity.
    pub created_by: Option<String>,
    /// The row's creator must differ from this identity.
    pub not_created_by: Option<String>,
    /// The row's subject must be its own creator.
    pub subject_is_creator: bool,
    pub permitted: Option<bool>,
    pub absent: Option<bool>,
    pub enable: Option<bool>,
}

impl StateFilter {
    /// What it means for a row to satisfy the filter.
    pub open spec fn spec_matches(self, s: Schedule) -> bool {
        &&& (self.username matches Some(u) ==> s.username@ == u@)
        &&& (self.created_by matches Some(c) ==> s.created_by@ == c@)
        &&& (self.not_created_by matches Some(c) ==> s.created_by@ != c@)
        &&& (self.subject_is_creator ==> s.username@ == s.created_by@)
        &&& (self.permitted matches Some(b) ==> s.permitted == b)
        &&& (self.absent matches Some(b) ==> s.absent == b)
        &&& (self.enable matches Some(b) ==> s.enable == b)
    }

    /// Executable form of the filter check.
    pub fn matches(&self, s: &Schedule) -> (r: bool)
        ensures
            r == self.spec_matches(*s),
    {
        let c1 = match &self.username {
            Some(u) => str_eq(u.as_str(), s.username.as_str()),
            None => true,
        };
        let c2 = match &self.created_by {
            Some(c) => str_eq(c.as_str(), s.created_by.as_str()),
            None => true,
        };
        let c3 = match &self.not_created_by {
            Some(c) => !str_eq(c.as_str(), s.created_by.as_str()),
            None => true,
        };
        let c4 = if self.subject_is_creator {
            str_eq(s.username.as_str(), s.created_by.as_str())
        } else {
            true
        };
        let c5 = match self.permitted {
            Some(b) => s.permitted == b,
            None => true,
        };
        let c6 = match self.absent {
            Some(b) => s.absent == b,
            None => true,
        };
        let c7 = match self.enable {
            Some(b) => s.enable == b,
            None => true,
        };
        c1 && c2 && c3 && c4 && c5 && c6 && c7
    }
}

/// The new field values of a conditional write. Identity fields (`id`,
/// `username`, `created_by`) are never rewritten.
pub struct FieldUpdate {
    /// Replace the time window.
    pub window: Option<(i64, i64)>,
    pub permitted: Option<bool>,
    pub absent: Option<bool>,
    pub enable: Option<bool>,
}

impl FieldUpdate {
    /// The row as it stands after the write.
    pub open spec fn spec_apply(self, s: Schedule) -> Schedule {
        Schedule {
            id: s.id,
            username: s.username,
            start_time: match self.window {
                Some(w) => w.0,
                None => s.start_time,
            },
            end_time: match self.window {
                Some(w) => w.1,
                None => s.end_time,
            },
            permitted: match self.permitted {
                Some(b) => b,
                None => s.permitted,
            },
            absent: match self.absent {
                Some(b) => b,
                None => s.absent,
            },
            enable: match self.enable {
                Some(b) => b,
                None => s.enable,
            },
            created_by: s.created_by,
        }
    }

    /// Executable form of the write.
    pub fn apply(&self, s: &Schedule) -> (r: Schedule)
        ensures
            r == self.spec_apply(*s),
    {
        Schedule {
            id: s.id,
            username: s.username.clone(),
            start_time: match self.window {
                Some(w) => w.0,
                None => s.start_time,
            },
            end_time: match self.window {
                Some(w) => w.1,
                None => s.end_time,
            },
            permitted: match self.permitted {
                Some(b) => b,
                None => s.permitted,
            },
            absent: match self.absent {
                Some(b) => b,
                None => s.absent,
            },
            enable: match self.enable {
                Some(b) => b,
                None => s.enable,
            },
            created_by: s.created_by.clone(),
        }
    }
}

/// No two user records share an identity.
pub open spec fn unique_user_ids(users: Seq<User>) -> bool {
    forall|i: int, j: int|
        0 <= i < users.len() && 0 <= j < users.len() && i != j ==> users[i].id@ != users[j].id@
}

/// No two rows share an id.
pub open spec fn unique_ids(rows: Seq<Schedule>) -> bool {
    forall|i: int, j: int|
        0 <= i < rows.len() && 0 <= j < rows.len() && i != j ==> rows[i].id != rows[j].id
}

/// Row `i` is the row with this id and it satisfies the filter.
pub open spec fn row_matches(rows: Seq<Schedule>, id: i64, f: StateFilter, i: int) -> bool {
    0 <= i < rows.len() && rows[i].id == id && f.spec_matches(rows[i])
}

/// Some row carries this id and satisfies the filter.
pub open spec fn has_matching_row(rows: Seq<Schedule>, id: i64, f: StateFilter) -> bool {
    exists|i: int| row_matches(rows, id, f, i)
}

/// The index of the matching row, where one exists.
pub open spec fn matching_row_idx(rows: Seq<Schedule>, id: i64, f: StateFilter) -> int {
    choose|i: int| row_matches(rows, id, f, i)
}

/// The rows after a conditional update: the matching row rewritten, or
/// everything unchanged when no row matches.
pub open spec fn spec_update_rows(
    rows: Seq<Schedule>,
    id: i64,
    f: StateFilter,
    u: FieldUpdate,
) -> Seq<Schedule> {
    if has_matching_row(rows, id, f) {
        let i = matching_row_idx(rows, id, f);
        rows.update(i, u.spec_apply(rows[i]))
    } else {
        rows
    }
}

/// The rows after a conditional delete: the matching row removed, or
/// everything unchanged when no row matches.
pub open spec fn spec_delete_rows(rows: Seq<Schedule>, id: i64, f: StateFilter) -> Seq<Schedule> {
    if has_matching_row(rows, id, f) {
        rows.remove(matching_row_idx(rows, id, f))
    } else {
        rows
    }
}

/// Some row carries this id.
pub open spec fn has_row(rows: Seq<Schedule>, id: i64) -> bool {
    exists|i: int| 0 <= i < rows.len() && rows[i].id == id
}

/// The index of the row with this id, where one exists.
pub open spec fn row_idx(rows: Seq<Schedule>, id: i64) -> int {
    choose|i: int| 0 <= i < rows.len() && rows[i].id == id
}

/// The row with this id, where one exists.
pub open spec fn spec_row(rows: Seq<Schedule>, id: i64) -> Schedule {
    rows[row_idx(rows, id)]
}

/// With unique ids, at most one row carries any id.
pub proof fn lemma_row_same_index(rows: Seq<Schedule>, id: i64, i: int, j: int)
    requires
        unique_ids(rows),
        0 <= i < rows.len() && rows[i].id == id,
        0 <= j < rows.len() && rows[j].id == id,
    ensures
        i == j,
{
}

/// With unique ids, at most one row matches any filter for a given id.
pub proof fn lemma_match_same_index(rows: Seq<Schedule>, id: i64, f: StateFilter, i: int, j: int)
    requires
        unique_ids(rows),
        row_matches(rows, id, f, i),
        row_matches(rows, id, f, j),
    ensures
        i == j,
{
}

/// The in-memory relational store: user records and schedule rows, plus
/// the next id to assign. Every operation keeps `wf`.
pub struct Store {
    pub users: Vec<User>,
    pub schedules: Vec<Schedule>,
    pub next_id: i64,
}

impl Store {
    /// User identities are unique.
    pub open spec fn users_wf(self) -> bool {
        unique_user_ids(self.users@)
    }

    /// Schedule rows are well-formed, their ids unique, positive and
    /// below the next id to assign.
    pub open spec fn schedules_wf(self) -> bool {
        &&& unique_ids(self.schedules@)
        &&& forall|i: int|
            0 <= i < self.schedules@.len() ==> (#[trigger] self.schedules@[i]).wf()
        &&& forall|i: int|
            0 <= i < self.schedules@.len() ==> 0 < (#[trigger] self.schedules@[i]).id
                < self.next_id
    }

    pub open spec fn wf(self) -> bool {
        &&& self.users_wf()
        &&& self.schedules_wf()
        &&& 1 <= self.next_id
    }

    /// An empty store.
    pub fn new() -> (r: Store)
        ensures
            r.wf(),
            r.users@.len() == 0,
            r.schedules@.len() == 0,
            r.next_id == 1,
    {
        Store { users: Vec::new(), schedules: Vec::new(), next_id: 1 }
    }

    /// The index of the row with this id that still satisfies the
    /// filter, if any.
    fn find_row(&self, id: i64, f: &StateFilter) -> (r: Option<usize>)
        ensures
            (r matches Some(i) ==> row_matches(self.schedules@, id, *f, i as int)),
            r is None ==> !has_matching_row(self.schedules@, id, *f),
    {
        let n = self.schedules.len();
        let mut i: usize = 0;
        while i < n
            invariant
                n == self.schedules@.len(),
                i <= n,
                forall|j: int| 0 <= j < i ==> !row_matches(self.schedules@, id, *f, j),
            decreases n - i,
        {
            if self.schedules[i].id == id && f.matches(&self.schedules[i]) {
                return Some(i);
            }
            i += 1;
        }
        None
    }

    /// One atomic conditional write: rewrite the row with this id if and
    /// only if it still satisfies the filter, and report how many rows
    /// were written. Zero means the state changed concurrently.
    pub fn conditional_update(&mut self, id: i64, f: &StateFilter, u: &FieldUpdate) -> (count:
        usize)
        requires
            old(self).wf(),
            forall|s: Schedule| s.wf() && #[trigger] f.spec_matches(s) ==> u.spec_apply(s).wf(),
        ensures
            final(self).wf(),
            final(self).users == old(self).users,
            final(self).next_id == old(self).next_id,
            final(self).schedules@ == spec_update_rows(old(self).schedules@, id, *f, *u),
            count == (if has_matching_row(old(self).schedules@, id, *f) {
                1usize
            } else {
                0usize
            }),
    {
        let ghost rows = self.schedules@;
        match self.find_row(id, f) {
            Some(i) => {
                let updated = u.apply(&self.schedules[i]);
                self.schedules.set(i, updated);
                proof {
                    let k = matching_row_idx(rows, id, *f);
                    lemma_match_same_index(rows, id, *f, i as int, k);
                    assert forall|a: int, b: int|
                        0 <= a < self.schedules@.len() && 0 <= b < self.schedules@.len() && a != b
                            implies self.schedules@[a].id != self.schedules@[b].id by {
                        assert(rows[a].id != rows[b].id);
                    }
                }
                1
            },
            None => 0,
        }
    }

    /// One atomic conditional delete under the same discipline.
    pub fn conditional_delete(&mut self, id: i64, f: &StateFilter) -> (count: usize)
        requires
            old(self).wf(),
        ensures
            final(self).wf(),
            final(self).users == old(self).users,
            final(self).next_id == old(self).next_id,
            final(self).schedules@ == spec_delete_rows(old(self).schedules@, id, *f),
            count == (if has_matching_row(old(self).schedules@, id, *f) {
                1usize
            } else {
                0usize
            }),
    {
        let ghost rows = self.schedules@;
        match self.find_row(id, f) {
            Some(i) => {
                self.schedules.remove(i);
                proof {
                    let k = matching_row_idx(rows, id, *f);
                    lemma_match_same_index(rows, id, *f, i as int, k);
                    assert forall|a: int, b: int|
                        0 <= a < self.schedules@.len() && 0 <= b < self.schedules@.len() && a != b
                            implies self.schedules@[a].id != self.schedules@[b].id by {
                        let a0 = if a < i as int { a } else { a + 1 };
                        let b0 = if b < i as int { b } else { b + 1 };
                        assert(self.schedules@[a] == rows[a0]);
                        assert(self.schedules@[b] == rows[b0]);
                    }
                }
                1
            },
            None => 0,
        }
    }

    /// Append a freshly proposed schedule for this subject and creator:
    /// it gets the next id and starts unapproved, present and enabled.
    pub fn insert_schedule(
        &mut self,
        username: &str,
        created_by: &str,
        start_time: i64,
        end_time: i64,
    ) -> (s: Schedule)
        requires
            old(self).wf(),
            start_time < end_time,
            old(self).next_id < i64::MAX,
        ensures
            final(self).wf(),
            final(self).users == old(self).users,
            final(self).next_id == old(self).next_id + 1,
            s.id == old(self).next_id,
            s.username@ == username@,
            s.created_by@ == created_by@,
            s.start_time == start_time,
            s.end_time == end_time,
            !s.permitted && !s.absent && s.enable,
            final(self).schedules@ == old(self).schedules@.push(s),
    {
        let s = Schedule {
            id: self.next_id,
            username: username.to_owned(),
            start_time,
            end_time,
            permitted: false,
            absent: false,
            enable: true,
            created_by: created_by.to_owned(),
        };
        let r = s.clone();
        self.schedules.push(s);
        self.next_id = self.next_id + 1;
        r
    }

    /// A snapshot of the row with this id, if it exists.
    pub fn find_by_id(&self, id: i64) -> (r: Option<Schedule>)
        requires
            self.wf(),
        ensures
            r is Some <==> has_row(self.schedules@, id),
            (r matches Some(s) ==> s == spec_row(self.schedules@, id)),
    {
        let n = self.schedules.len();
        let mut i: usize = 0;
        while i < n
            invariant
                n == self.schedules@.len(),
                i <= n,
                unique_ids(self.schedules@),
                forall|j: int| 0 <= j < i ==> self.schedules@[j].id != id,
            decreases n - i,
        {
            if self.schedules[i].id == id {
                proof {
                    lemma_row_same_index(
                        self.schedules@,
                        id,
                        i as int,
                        row_idx(self.schedules@, id),
                    );
                }
                return Some(self.schedules[i].clone());
            }
            i += 1;
        }
        None
    }

    /// Every schedule overlapping the half-open window, ordered by
    /// descending start time: exactly the rows with
    /// `end_time > range_start` and `start_time < range_end`.
    pub fn get_schedules(&self, range_start: i64, range_end: i64) -> (r: Vec<Schedule>)
        ensures
            sorted_desc(r@),
            r@.to_multiset() == self.schedules@.filter(
                |s: Schedule| in_range(s, range_start, range_end),
            ).to_multiset(),
    {
        let ghost pred = |s: Schedule| in_range(s, range_start, range_end);
        let mut picked: Vec<Schedule> = Vec::new();
        let n = self.schedules.len();
        let mut i: usize = 0;
        while i < n
            invariant
                n == self.schedules@.len(),
                i <= n,
                pred == (|s: Schedule| in_range(s, range_start, range_end)),
                picked@ == self.schedules@.subrange(0, i as int).filter(pred),
            decreases n - i,
        {
            let ghost prefix = self.schedules@.subrange(0, i as int);
            let s = &self.schedules[i];
            if s.end_time > range_start && s.start_time < range_end {
                picked.push(s.clone());
            }
            proof {
                let e = self.schedules@[i as int];
                assert(self.schedules@.subrange(0, i + 1) == prefix + seq![e]);
                Seq::<Schedule>::filter_distributes_over_add(prefix, seq![e], pred);
                reveal_with_fuel(Seq::<_>::filter, 3);
                assert(seq![e].drop_last() =~= Seq::<Schedule>::empty());
                if pred(e) {
                    assert(seq![e].filter(pred) =~= seq![e]);
                    assert(prefix.filter(pred).push(e) =~= prefix.filter(pred) + seq![e]);
                    assert(picked@ =~= prefix.filter(pred) + seq![e]);
                } else {
                    assert(seq![e].filter(pred) =~= Seq::<Schedule>::empty());
                    assert(prefix.filter(pred) + Seq::<Schedule>::empty() =~= prefix.filter(pred));
                }
            }
            i += 1;
        }
        proof {
            assert(self.schedules@.subrange(0, n as int) == self.schedules@);
        }
        sort_by_start_desc(picked)
    }
}

/// The row overlaps the half-open query window.
pub open spec fn in_range(s: Schedule, range_start: i64, range_end: i64) -> bool {
    s.end_time > range_start && s.start_time < range_end
}

/// Start times never increase along the sequence.
pub open spec fn sorted_desc(q: Seq<Schedule>) -> bool {
    forall|i: int, j: int| 0 <= i <= j < q.len() ==> q[i].start_time >= q[j].start_time
}

/// The index of a row with maximal start time.
fn max_start_idx(v: &Vec<Schedule>) -> (r: usize)
    requires
        v@.len() > 0,
    ensures
        r < v@.len(),
        forall|j: int| 0 <= j < v@.len() ==> v@[r as int].start_time >= v@[j].start_time,
{
    let mut best: usize = 0;
    let mut i: usize = 1;
    while i < v.len()
        invariant
            best < i <= v@.len(),
            forall|j: int| 0 <= j < i ==> v@[best as int].start_time >= v@[j].start_time,
        decreases v@.len() - i,
    {
        if v[i].start_time > v[best].start_time {
            best = i;
        }
        i += 1;
    }
    best
}

/// Reorder the rows into descending start-time order; the collection of
/// rows itself is unchanged.
pub fn sort_by_start_desc(v: Vec<Schedule>) -> (r: Vec<Schedule>)
    ensures
        sorted_desc(r@),
        r@.to_multiset() == v@.to_multiset(),
{

    let ghost orig = v@;
    let mut rest = v;
    let mut out: Vec<Schedule> = Vec::new();
    while rest.len() > 0
        invariant
            out@.to_multiset().add(rest@.to_multiset()) == orig.to_multiset(),
            sorted_desc(out@),
            forall|i: int, j: int|
                0 <= i < out@.len() && 0 <= j < rest@.len() ==> out@[i].start_time
                    >= rest@[j].start_time,
        decreases rest.len(),
    {
        let ghost out0 = out@;
        let ghost rest0 = rest@;
        let m = max_start_idx(&rest);
        let x = rest.remove(m);
        out.push(x);
        proof {

            assert(rest0[m as int] == x);
            assert(rest0.contains(x));
            vstd::seq_lib::to_multiset_remove(rest0, m as int);
            assert(out@ == out0.push(x));
            assert(out0.push(x).to_multiset() =~= out0.to_multiset().insert(x));
            assert(rest0.to_multiset().count(x) > 0);
            assert(out@.to_multiset().add(rest@.to_multiset()) =~= orig.to_multiset());
            assert forall|i: int, j: int|
                0 <= i < out@.len() && 0 <= j < rest@.len() implies out@[i].start_time
                >= rest@[j].start_time by {
                let j0 = if j < m as int {
                    j
                } else {
                    j + 1
                };
                assert(rest@[j] == rest0[j0]);
            }
        }
    }
    proof {
        assert(rest@.to_multiset() =~= Multiset::<Schedule>::empty());
        assert(out@.to_multiset() =~= orig.to_multiset());
    }
    out
}

/// One page of an already-ordered result: up to `limit` rows starting at
/// `offset`, clamped to the available length.
pub fn page(v: &Vec<Schedule>, offset: usize, limit: usize) -> (r: Vec<Schedule>)
    ensures
        r@ == v@.subrange(
            if offset <= v@.len() { offset as int } else { v@.len() as int },
            if offset + limit <= v@.len() { offset + limit } else { v@.len() as int },
        ),
{
    let len = v.len();
    let start = if offset > len { len } else { offset };
    let rem = len - start;
    let take = if limit < rem { limit } else { rem };
    let end = start + take;
    let mut r: Vec<Schedule> = Vec::new();
    let mut i: usize = start;
    while i < end
        invariant
            start <= i <= end <= v@.len(),
            r@ == v@.subrange(start as int, i as int),
        decreases end - i,
    {
        let ghost prefix = v@.subrange(start as int, i as int);
        r.push(v[i].clone());
        proof {
            assert(v@.subrange(start as int, i + 1) == prefix.push(v@[i as int]));
        }
        i += 1;
    }
    r
}

/// In every well-formed store — and every operation of this library
/// keeps the store well-formed — a schedule marked absent is an
/// approved schedule: `absent` implies `permitted` on every row.
pub proof fn lemma_absence_requires_permission(store: Store)
    requires
        store.wf(),
    ensures
        forall|i: int|
            0 <= i < store.schedules@.len() ==> ((#[trigger] store.schedules@[i]).absent
                ==> store.schedules@[i].permitted),
{
}

/// A disabled row is terminal under any conditional update whose filter
/// demands an enabled row — as the filter of every mutating operation
/// of this library does: whatever the update would write, a row with
/// `enable == false` stays exactly as it is.
pub proof fn lemma_disabled_row_never_rewritten(
    rows: Seq<Schedule>,
    id: i64,
    f: StateFilter,
    u: FieldUpdate,
)
    requires
        forall|s: Schedule| #[trigger] f.spec_matches(s) ==> s.enable,
    ensures
        forall|j: int|
            0 <= j < rows.len() && !(#[trigger] rows[j]).enable ==> spec_update_rows(
                rows,
                id,
                f,
                u,
            )[j] == rows[j],
{
    if has_matching_row(rows, id, f) {
        let i = matching_row_idx(rows, id, f);
        assert(row_matches(rows, id, f, i));
        assert(rows[i].enable);
    }
}

/// Two racing conditional updates on the same id whose filters exclude
/// each other — and whose writes do not establish the other's filter —
/// resolve with exactly one winner: the second write succeeds if and
/// only if the first one did not. Applying this both ways round covers
/// either interleaving, so the two writers never both succeed and never
/// both fail when the row matched one of them.
pub proof fn lemma_racing_updates_one_winner(
    rows: Seq<Schedule>,
    id: i64,
    f1: StateFilter,
    u1: FieldUpdate,
    f2: StateFilter,
)
    requires
        unique_ids(rows),
        forall|s: Schedule| !(#[trigger] f1.spec_matches(s) && f2.spec_matches(s)),
        forall|s: Schedule| #[trigger] f1.spec_matches(s) ==> !f2.spec_matches(u1.spec_apply(s)),
        has_matching_row(rows, id, f1) || has_matching_row(rows, id, f2),
    ensures
        has_matching_row(rows, id, f1) <==> !has_matching_row(
            spec_update_rows(rows, id, f1, u1),
            id,
            f2,
        ),
{
    if has_matching_row(rows, id, f1) {
        let i = matching_row_idx(rows, id, f1);
        assert(row_matches(rows, id, f1, i));
        let updated = spec_update_rows(rows, id, f1, u1);
        assert(updated == rows.update(i, u1.spec_apply(rows[i])));
        assert forall|k: int| !row_matches(updated, id, f2, k) by {
            if 0 <= k < updated.len() && updated[k].id == id {
                if k != i {
                    assert(rows[k].id == id && rows[i].id == id);
                } else {
                    assert(updated[k] == u1.spec_apply(rows[i]));
                    assert(f1.spec_matches(rows[i]));
                }
            }
        }
    } else {
        assert(spec_update_rows(rows, id, f1, u1) == rows);
    }
}

} // verus!
