//! The state of the view and how keys and fetched data change it.

use vstd::multiset::Multiset;
use vstd::prelude::*;

use std::collections::hash_map::DefaultHasher;
use std::collections::HashMap;
use std::hash::Hasher;
use vstd::std_specs::hash::DefaultHasherAdditionalSpecFns;
use vstd::utf8::encode_utf8;

use crate::config::Config;
use crate::model::builds::{Build, BuildStatus, Builds};
use crate::model::deployed::{Deployed, Deployment};
use crate::model::jobs::Job;
use crate::model::prs::PullRequest;
use crate::model::queue::{Queue, QueueEntry};
use crate::strs::{
    concat, contains, occurs_at, decimal, decimal_string, lowercase, lowercase_of, opt_view, str_contains,
};
use crate::time::Stamp;

verus! {

/// One column of the view: a stage a change passes through.
#[derive(Debug, Clone, Copy, PartialEq, Eq, Structural, Hash)]
pub enum Stage {
    Prs,
    Queue,
    Builds,
    Deployed,
}

/// The position of a stage among the columns, left to right.
pub open spec fn stage_index(s: Stage) -> int {
    match s {
        Stage::Prs => 0,
        Stage::Queue => 1,
        Stage::Builds => 2,
        Stage::Deployed => 3,
    }
}

/// The stage at position `i`, counting round the four columns.
pub open spec fn stage_at(i: int) -> Stage {
    let k = i % 4;
    if k == 0 {
        Stage::Prs
    } else if k == 1 {
        Stage::Queue
    } else if k == 2 {
        Stage::Builds
    } else {
        Stage::Deployed
    }
}

impl Stage {
    /// The four stages, left to right.
    pub const ALL: [Stage; 4] = [Stage::Prs, Stage::Queue, Stage::Builds, Stage::Deployed];

    pub fn index(self) -> (r: usize)
        ensures
            r == stage_index(self),
    {
        match self {
            Stage::Prs => 0,
            Stage::Queue => 1,
            Stage::Builds => 2,
            Stage::Deployed => 3,
        }
    }

    fn at(index: usize) -> (r: Stage)
        ensures
            r == stage_at(index as int),
    {
        let k = index % 4;
        if k == 0 {
            Stage::Prs
        } else if k == 1 {
            Stage::Queue
        } else if k == 2 {
            Stage::Builds
        } else {
            Stage::Deployed
        }
    }

    /// The stage to the right, the last wrapping round to the first.
    pub fn next(self) -> (r: Stage)
        ensures
            r == stage_at(stage_index(self) + 1),
    {
        Self::at(self.index() + 1)
    }

    /// The stage to the left, the first wrapping round to the last.
    pub fn previous(self) -> (r: Stage)
        ensures
            r == stage_at(stage_index(self) + 3),
    {
        Self::at(self.index() + 4 - 1)
    }
}

/// Moving right and then left, or left and then right, comes back to the same stage; four
/// steps either way go all the way round.
pub proof fn lemma_stage_steps(s: Stage)
    ensures
        stage_at(stage_index(stage_at(stage_index(s) + 1)) + 3) == s,
        stage_at(stage_index(stage_at(stage_index(s) + 3)) + 1) == s,
        stage_index(stage_at(stage_index(s) as int)) == stage_index(s),
{
}

} // verus!

verus! {

/// How a column orders its rows after each fetch.
#[derive(Debug, Clone, Copy, PartialEq, Eq, Structural)]
pub enum Order {
    AsFetched,
    ByRankAscending,
    ByRankDescending,
}

/// A row of a column: it has a key that follows it across fetches, a rank the column may
/// order by, and it knows whether it matches a (lowercase) filter query.
pub trait Row: Sized {
    spec fn key_of(&self) -> u64;

    spec fn rank_of(&self) -> u64;

    spec fn matches_query(&self, query: Seq<char>) -> bool;

    spec fn order_of() -> Order;

    fn order() -> (r: Order)
        ensures
            r == Self::order_of(),
    ;

    fn key(&self) -> (r: u64)
        ensures
            r == self.key_of(),
    ;

    fn rank(&self) -> (r: u64)
        ensures
            r == self.rank_of(),
    ;

    fn matches(&self, query: &str) -> (r: bool)
        ensures
            r == self.matches_query(query@),
    ;
}

} // verus!

verus! {

/// The number a row sorts by under an order: its rank, negated for a descending order.
pub open spec fn sort_key<T: Row>(row: T, descending: bool) -> int {
    if descending {
        -(row.rank_of() as int)
    } else {
        row.rank_of() as int
    }
}

/// `idx` shows that `out` is `inp` stably sorted by `sort_key`: `out[i]` is `inp[idx[i]]`,
/// each position of `inp` used once, keys ascending, and rows of equal key in their order in
/// `inp`.
pub open spec fn sorting_witness<T: Row>(out: Seq<T>, inp: Seq<T>, idx: Seq<int>, descending: bool) -> bool {
    &&& idx.len() == out.len() == inp.len()
    &&& forall|i: int| 0 <= i < idx.len() ==> 0 <= #[trigger] idx[i] < inp.len() && out[i] == inp[idx[i]]
    &&& forall|i: int, j: int| 0 <= i < j < idx.len() ==> #[trigger] idx[i] != #[trigger] idx[j]
    &&& forall|i: int, j: int|
        0 <= i < j < out.len() ==> sort_key(#[trigger] out[i], descending) <= sort_key(
            #[trigger] out[j],
            descending,
        )
    &&& forall|i: int, j: int|
        0 <= i < j < out.len() && sort_key(#[trigger] out[i], descending) == sort_key(
            #[trigger] out[j],
            descending,
        ) ==> idx[i] < idx[j]
}

/// `out` is `inp` sorted stably by rank (`sort_by_key`), descending or ascending.
pub open spec fn stably_sorted<T: Row>(out: Seq<T>, inp: Seq<T>, descending: bool) -> bool {
    exists|idx: Seq<int>| sorting_witness(out, inp, idx, descending)
}

/// Whether a row of rank `rank` sorts after one of rank `pivot`.
fn sorts_after(rank: u64, pivot: u64, descending: bool) -> (r: bool)
    ensures
        r == if descending {
            rank < pivot
        } else {
            rank > pivot
        },
{
    if descending {
        rank < pivot
    } else {
        rank > pivot
    }
}

/// Sorts `rows` stably by rank: rows of equal rank keep their order.
pub fn sort_by_rank<T: Row>(rows: Vec<T>, descending: bool) -> (r: Vec<T>)
    ensures
        stably_sorted(r@, rows@, descending),
{
    let ghost inp = rows@;
    assert(inp.len() == rows.len());
    let mut rest = rows;
    let mut out: Vec<T> = Vec::new();
    let ghost mut idx: Seq<int> = Seq::empty();
    let mut n: usize = 0;
    while rest.len() > 0
        invariant
            n <= inp.len(),
            inp.len() <= usize::MAX,
            rest@ == inp.skip(n as int),
            sorting_witness(out@, inp.take(n as int), idx, descending),
            forall|i: int| 0 <= i < idx.len() ==> #[trigger] idx[i] < n,
        decreases rest@.len(),
    {
        let x = rest.remove(0);
        assert(inp[n as int] == x);
        let kx = x.rank();
        let mut p: usize = 0;
        while p < out.len() && !sorts_after(out[p].rank(), kx, descending)
            invariant
                p <= out@.len(),
                forall|i: int| 0 <= i < p ==> sort_key(#[trigger] out@[i], descending) <= sort_key(x, descending),
                kx == x.rank_of(),
            decreases out@.len() - p,
        {
            p = p + 1;
        }
        let ghost old_out = out@;
        let ghost old_idx = idx;
        proof {
            if p < old_out.len() {
                assert(sort_key(old_out[p as int], descending) > sort_key(x, descending));
            }
        }
        out.insert(p, x);
        proof {
            idx = old_idx.insert(p as int, n as int);
            let inp2 = inp.take(n + 1);
            assert(inp.take(n as int) =~= inp2.take(n as int));
            assert forall|i: int| 0 <= i < idx.len() implies 0 <= #[trigger] idx[i] < inp2.len()
                && out@[i] == inp2[idx[i]] by {
                if i < p {
                    assert(idx[i] == old_idx[i]);
                } else if i == p {
                } else {
                    assert(idx[i] == old_idx[i - 1]);
                }
            }
            assert forall|i: int, j: int| 0 <= i < j < idx.len() implies #[trigger] idx[i]
                != #[trigger] idx[j] by {
                if i < p && j < p {
                    assert(old_idx[i] != old_idx[j]);
                } else if i < p && j > p {
                    assert(old_idx[i] != old_idx[j - 1]);
                } else if i > p && j > p {
                    assert(old_idx[i - 1] != old_idx[j - 1]);
                } else if i == p {
                    assert(old_idx[j - 1] < n);
                } else {
                    assert(old_idx[i] < n);
                }
            }
            assert forall|i: int, j: int| 0 <= i < j < out@.len() implies sort_key(
                #[trigger] out@[i],
                descending,
            ) <= sort_key(#[trigger] out@[j], descending) by {
                if i < p && j < p {
                    assert(sort_key(old_out[i], descending) <= sort_key(old_out[j], descending));
                } else if i < p && j == p {
                } else if i < p && j > p {
                    assert(sort_key(old_out[i], descending) <= sort_key(old_out[j - 1], descending));
                } else if i == p {
                    assert(sort_key(old_out[p as int], descending) <= sort_key(old_out[j - 1], descending));
                } else {
                    assert(sort_key(old_out[i - 1], descending) <= sort_key(old_out[j - 1], descending));
                }
            }
            assert forall|i: int, j: int|
                0 <= i < j < out@.len() && sort_key(#[trigger] out@[i], descending) == sort_key(
                    #[trigger] out@[j],
                    descending,
                ) implies idx[i] < idx[j] by {
                if i < p && j < p {
                } else if i < p && j == p {
                    assert(old_idx[i] < n);
                } else if i < p && j > p {
                    assert(sort_key(old_out[i], descending) == sort_key(old_out[j - 1], descending));
                } else if i == p {
                    assert(sort_key(old_out[p as int], descending) <= sort_key(old_out[j - 1], descending));
                } else {
                    assert(sort_key(old_out[i - 1], descending) == sort_key(old_out[j - 1], descending));
                }
            }
            assert(sorting_witness(out@, inp2, idx, descending));
        }
        n = n + 1;
        assert(rest@ =~= inp.skip(n as int));
    }
    assert(inp.take(n as int) =~= inp);
    out
}

} // verus!

verus! {

/// The position of the first row in `rows` with key `key`.
pub open spec fn key_index<T: Row>(rows: Seq<T>, key: u64) -> Option<int>
    decreases rows.len(),
{
    if rows.len() == 0 {
        None
    } else if rows[0].key_of() == key {
        Some(0)
    } else {
        match key_index(rows.drop_first(), key) {
            Some(i) => Some(i + 1),
            None => None,
        }
    }
}

pub proof fn lemma_key_index<T: Row>(rows: Seq<T>, key: u64, i: int)
    requires
        0 <= i <= rows.len(),
        forall|j: int| 0 <= j < i ==> (#[trigger] rows[j]).key_of() != key,
    ensures
        i < rows.len() && rows[i].key_of() == key ==> key_index(rows, key) == Some(i),
        i == rows.len() ==> key_index(rows, key) is None,
    decreases i,
{
    if i > 0 {
        assert forall|j: int| 0 <= j < i - 1 implies (#[trigger] rows.drop_first()[j]).key_of()
            != key by {
            assert(rows.drop_first()[j] == rows[j + 1]);
        }
        lemma_key_index(rows.drop_first(), key, i - 1);
    }
}

pub proof fn lemma_key_index_bounds<T: Row>(rows: Seq<T>, key: u64)
    ensures
        key_index(rows, key) matches Some(i) ==> 0 <= i < rows.len() && rows[i].key_of() == key,
    decreases rows.len(),
{
    if rows.len() > 0 {
        lemma_key_index_bounds(rows.drop_first(), key);
    }
}

/// The fresh rows, those whose key was already shown first and in the order they were shown
/// in, then the new ones in the order they came: each shown row takes the first fresh row with
/// its key, if there is one.
pub open spec fn merged_rows<T: Row>(current: Seq<T>, fresh: Seq<T>) -> Seq<T>
    decreases current.len(),
{
    if current.len() == 0 {
        fresh
    } else {
        match key_index(fresh, current[0].key_of()) {
            Some(i) => {
                proof {
                    lemma_key_index_bounds(fresh, current[0].key_of());
                }
                seq![fresh[i]] + merged_rows(current.drop_first(), fresh.remove(i))
            },
            None => merged_rows(current.drop_first(), fresh),
        }
    }
}

/// A refresh shows exactly the rows that were fetched: merging reorders them, it never adds,
/// drops or repeats one.
pub proof fn lemma_merge_keeps_fresh<T: Row>(current: Seq<T>, fresh: Seq<T>)
    ensures
        merged_rows(current, fresh).to_multiset() =~= fresh.to_multiset(),
        merged_rows(current, fresh).len() == fresh.len(),
    decreases current.len(),
{
    broadcast use vstd::multiset::group_multiset_axioms;
    broadcast use vstd::seq_lib::group_to_multiset_ensures;

    if current.len() > 0 {
        match key_index(fresh, current[0].key_of()) {
            Some(i) => {
                lemma_key_index_bounds(fresh, current[0].key_of());
                lemma_merge_keeps_fresh(current.drop_first(), fresh.remove(i));
                vstd::seq_lib::to_multiset_remove(fresh, i);
                vstd::seq_lib::lemma_multiset_commutative(
                    seq![fresh[i]],
                    merged_rows(current.drop_first(), fresh.remove(i)),
                );
                assert(seq![fresh[i]].to_multiset() =~= Multiset::singleton(fresh[i])) by {
                    assert(seq![fresh[i]].drop_first() =~= Seq::<T>::empty());
                }
            },
            None => {
                lemma_merge_keeps_fresh(current.drop_first(), fresh);
            },
        }
    }
}

/// Merges freshly fetched rows into the order of the rows shown before, as `merged_rows`.
pub fn merge_keeping_order<T: Row>(current: Vec<T>, fresh: Vec<T>) -> (r: Vec<T>)
    ensures
        r@ == merged_rows(current@, fresh@),
{
    let ghost fresh0 = fresh@;
    let mut fresh = fresh;
    let mut merged: Vec<T> = Vec::new();
    let mut k: usize = 0;
    assert(current@.skip(0) =~= current@);
    while k < current.len()
        invariant
            0 <= k <= current@.len(),
            merged@ + merged_rows(current@.skip(k as int), fresh@) == merged_rows(
                current@,
                fresh0,
            ),
        decreases current@.len() - k,
    {
        let ghost rest = current@.skip(k as int);
        assert(rest.drop_first() =~= current@.skip(k + 1));
        let key = current[k].key();
        let mut i: usize = 0;
        while i < fresh.len() && fresh[i].key() != key
            invariant
                0 <= i <= fresh@.len(),
                key == current@[k as int].key_of(),
                forall|j: int| 0 <= j < i ==> (#[trigger] fresh@[j]).key_of() != key,
            decreases fresh@.len() - i,
        {
            i = i + 1;
        }
        proof {
            lemma_key_index(fresh@, key, i as int);
        }
        if i < fresh.len() {
            let ghost before = fresh@;
            let row = fresh.remove(i);
            merged.push(row);
            assert(merged@ + merged_rows(current@.skip(k + 1), fresh@) =~= merged_rows(
                current@,
                fresh0,
            )) by {
                assert(merged_rows(rest, before) == seq![before[i as int]] + merged_rows(
                    rest.drop_first(),
                    before.remove(i as int),
                ));
            }
        }
        k = k + 1;
    }
    assert(merged_rows(current@.skip(k as int), fresh@) == fresh@);
    merged.append(&mut fresh);
    merged
}

} // verus!

verus! {

/// Which row of a list is selected, and from which row the list is drawn.
#[derive(Debug, Clone, Copy, PartialEq, Eq, Structural)]
pub struct ListState {
    pub offset: usize,
    pub selected: Option<usize>,
}

impl ListState {
    /// Nothing selected, drawn from the top.
    pub fn new() -> (r: ListState)
        ensures
            r.offset == 0,
            r.selected is None,
    {
        ListState { offset: 0, selected: None }
    }

    pub fn with_selected(self, selected: Option<usize>) -> (r: ListState)
        ensures
            r.selected == selected,
            r.offset == self.offset,
    {
        ListState { offset: self.offset, selected }
    }

    pub fn selected(&self) -> (r: Option<usize>)
        ensures
            r == self.selected,
    {
        self.selected
    }

    /// Selects `index`; selecting nothing also scrolls back to the top.
    pub fn select(&mut self, index: Option<usize>)
        ensures
            final(self).selected == index,
            final(self).offset == if index is None {
                0
            } else {
                old(self).offset
            },
    {
        self.selected = index;
        if index.is_none() {
            self.offset = 0;
        }
    }

    /// One row up; with nothing selected, the last row (`usize::MAX`, which drawing clamps).
    pub fn select_previous(&mut self)
        ensures
            final(self).selected == Some(
                match old(self).selected {
                    Some(i) => if i > 0 {
                        (i - 1) as usize
                    } else {
                        0
                    },
                    None => usize::MAX,
                },
            ),
            final(self).offset == old(self).offset,
    {
        let previous = match self.selected {
            Some(i) => i.saturating_sub(1),
            None => usize::MAX,
        };
        self.select(Some(previous));
    }

    pub fn select_first(&mut self)
        ensures
            final(self).selected == Some(0usize),
            final(self).offset == old(self).offset,
    {
        self.select(Some(0));
    }
}

/// A column's rows: none before the first fetch answers, then the rows and when they came.
pub enum ColumnState<T> {
    Loading,
    Ready { rows: Vec<T>, fetched_at: Stamp },
}

impl<T> ColumnState<T> {
    pub open spec fn rows_view(self) -> Seq<T> {
        match self {
            ColumnState::Ready { rows, .. } => rows@,
            ColumnState::Loading => Seq::empty(),
        }
    }

    pub fn into_rows(self) -> (r: Vec<T>)
        ensures
            r@ == self.rows_view(),
    {
        match self {
            ColumnState::Ready { rows, .. } => rows,
            ColumnState::Loading => Vec::new(),
        }
    }
}

/// One column of the view: its rows, the last fetch error, whether a fetch is running, the
/// selection and the filter query.
pub struct Column<T> {
    pub state: ColumnState<T>,
    pub error: Option<String>,
    pub refreshing: bool,
    pub list: ListState,
    pub filter: Option<String>,
}

impl<T> Column<T> {
    /// A column waiting for its first rows, the first row selected.
    pub fn new() -> (r: Column<T>)
        ensures
            r.state is Loading,
            r.error is None,
            !r.refreshing,
            r.list.selected == Some(0usize),
            r.list.offset == 0,
            r.filter is None,
    {
        Column {
            state: ColumnState::Loading,
            error: None,
            refreshing: false,
            list: ListState::new().with_selected(Some(0)),
            filter: None,
        }
    }
}

impl<T> Default for Column<T> {
    fn default() -> (r: Column<T>)
        ensures
            r.state is Loading,
            r.error is None,
            !r.refreshing,
            r.list.selected == Some(0usize),
            r.list.offset == 0,
            r.filter is None,
    {
        Column::new()
    }
}

/// The lowercase form of a filter query, empty when there is none.
pub open spec fn query_of(filter: Option<String>) -> Seq<char> {
    lowercase_of(
        match filter {
            Some(f) => f@,
            None => Seq::empty(),
        },
    )
}

pub open spec fn matching<T: Row>(query: Seq<char>) -> spec_fn(T) -> bool {
    |row: T| row.matches_query(query)
}

impl<T: Row> Column<T> {
    /// The rows of the column.
    pub open spec fn rows(self) -> Seq<T> {
        self.state.rows_view()
    }

    /// The rows that match the filter, in order.
    pub open spec fn shown(self) -> Seq<T> {
        self.rows().filter(matching(query_of(self.filter)))
    }

    /// The selected row among those shown.
    pub open spec fn current(self) -> Option<T> {
        match self.list.selected {
            Some(i) => if i < self.shown().len() {
                Some(self.shown()[i as int])
            } else {
                None
            },
            None => None,
        }
    }

    pub fn all(&self) -> (r: &[T])
        ensures
            r@ == self.rows(),
    {
        match &self.state {
            ColumnState::Ready { rows, .. } => rows.as_slice(),
            ColumnState::Loading => &[],
        }
    }

    pub fn is_loading(&self) -> (r: bool)
        ensures
            r == self.state is Loading,
    {
        match &self.state {
            ColumnState::Loading => true,
            _ => false,
        }
    }

    pub fn fetched_at(&self) -> (r: Option<Stamp>)
        ensures
            r == match self.state {
                ColumnState::Ready { fetched_at, .. } => Some(fetched_at),
                ColumnState::Loading => None,
            },
    {
        match &self.state {
            ColumnState::Ready { fetched_at, .. } => Some(*fetched_at),
            ColumnState::Loading => None,
        }
    }

    /// The rows matching the filter (compared in lowercase), in order.
    pub fn visible(&self) -> (r: Vec<&T>)
        ensures
            r@.len() == self.shown().len(),
            forall|i: int| 0 <= i < r@.len() ==> *r@[i] == self.shown()[i],
    {
        let text = match &self.filter {
            Some(f) => f.clone(),
            None => String::new(),
        };
        let query = lowercase(text.as_str());
        assert(query@ == query_of(self.filter));
        let rows = self.all();
        let ghost pred = matching::<T>(query_of(self.filter));
        let mut out: Vec<&T> = Vec::new();
        let mut i: usize = 0;
        while i < rows.len()
            invariant
                0 <= i <= rows@.len(),
                rows@ == self.rows(),
                query@ == query_of(self.filter),
                pred == matching::<T>(query_of(self.filter)),
                out@.len() == rows@.take(i as int).filter(pred).len(),
                forall|k: int| 0 <= k < out@.len() ==> *out@[k] == rows@.take(i as int).filter(pred)[k],
            decreases rows@.len() - i,
        {
            proof {
                assert(rows@.take(i + 1) =~= rows@.take(i as int).push(rows@[i as int]));
                rows@.take(i as int).lemma_filter_push(rows@[i as int], pred);
            }
            if rows[i].matches(query.as_str()) {
                out.push(&rows[i]);
            }
            i = i + 1;
        }
        assert(rows@.take(rows@.len() as int) =~= rows@);
        out
    }

    /// The selected row, if the selection points at a shown row.
    pub fn selected(&self) -> (r: Option<&T>)
        ensures
            r is Some <==> self.current() is Some,
            r matches Some(row) ==> self.current() == Some(*row),
    {
        match self.list.selected() {
            Some(i) => {
                let shown = self.visible();
                if i < shown.len() {
                    Some(shown[i])
                } else {
                    None
                }
            },
            None => None,
        }
    }

    /// A failed fetch: the message is kept and the rows stay as they were.
    pub fn fail(&mut self, message: String)
        ensures
            failed(*old(self), *final(self), message),
    {
        self.error = Some(message);
        self.refreshing = false;
    }
}

} // verus!

verus! {

/// `out` holds the rows of `inp` in the order `T` keeps its rows in.
pub open spec fn ordered_as<T: Row>(out: Seq<T>, inp: Seq<T>) -> bool {
    match T::order_of() {
        Order::AsFetched => out == inp,
        Order::ByRankAscending => stably_sorted(out, inp, false),
        Order::ByRankDescending => stably_sorted(out, inp, true),
    }
}

/// The row a selection lands on after the rows change: the row with the key of the row
/// selected before, if it is shown, else the first.
pub open spec fn follow_index<T: Row>(before: Option<T>, shown: Seq<T>) -> usize {
    match before {
        Some(row) => match key_index(shown, row.key_of()) {
            Some(i) => i as usize,
            None => 0,
        },
        None => 0,
    }
}

/// What taking fetched rows does to a column: they are merged into the order shown before,
/// ordered as the column orders its rows, stamped with `now`; the error and the refreshing
/// mark are cleared, and the selection follows the row it was on.
pub open spec fn received<T: Row>(before: Column<T>, after: Column<T>, fresh: Seq<T>, now: Stamp) -> bool {
    &&& ordered_as(after.rows(), merged_rows(before.rows(), fresh))
    &&& after.state matches ColumnState::Ready { fetched_at, .. } && fetched_at == now
    &&& after.error is None
    &&& !after.refreshing
    &&& after.filter == before.filter
    &&& after.list.offset == before.list.offset
    &&& after.list.selected == Some(follow_index(before.current(), after.shown()))
}

/// What a failed fetch does to a column: the message is kept, the rows stay.
pub open spec fn failed<T>(before: Column<T>, after: Column<T>, message: String) -> bool {
    &&& after.error == Some(message)
    &&& !after.refreshing
    &&& after.state == before.state
    &&& after.list == before.list
    &&& after.filter == before.filter
}

impl<T: Row> Column<T> {
    /// The position among the shown rows of the first with key `key`.
    fn shown_position(&self, key: u64) -> (r: Option<usize>)
        ensures
            match r {
                Some(i) => key_index(self.shown(), key) == Some(i as int),
                None => key_index(self.shown(), key) is None,
            },
    {
        let shown = self.visible();
        let mut i: usize = 0;
        while i < shown.len()
            invariant
                0 <= i <= shown@.len(),
                shown@.len() == self.shown().len(),
                forall|k: int| 0 <= k < shown@.len() ==> *shown@[k] == self.shown()[k],
                forall|j: int| 0 <= j < i ==> (#[trigger] self.shown()[j]).key_of() != key,
            decreases shown@.len() - i,
        {
            if shown[i].key() == key {
                proof {
                    lemma_key_index(self.shown(), key, i as int);
                }
                return Some(i);
            }
            i = i + 1;
        }
        proof {
            lemma_key_index(self.shown(), key, i as int);
        }
        None
    }

    /// Takes freshly fetched rows: they are merged into the order shown before, ordered as
    /// the column orders its rows, stamped with `now`; the error and the refreshing mark are
    /// cleared, and the selection follows the row it was on.
    pub fn receive(&mut self, rows: Vec<T>, now: Stamp)
        ensures
            received(*old(self), *final(self), rows@, now),
    {
        let selected = match self.selected() {
            Some(row) => Some(row.key()),
            None => None,
        };
        let ghost before = self.current();
        let mut state = ColumnState::Loading;
        std::mem::swap(&mut state, &mut self.state);
        let current = state.into_rows();
        let merged = merge_keeping_order(current, rows);
        let ordered = match T::order() {
            Order::AsFetched => merged,
            Order::ByRankAscending => sort_by_rank(merged, false),
            Order::ByRankDescending => sort_by_rank(merged, true),
        };
        self.state = ColumnState::Ready { rows: ordered, fetched_at: now };
        self.error = None;
        self.refreshing = false;
        let index = match selected {
            Some(key) => match self.shown_position(key) {
                Some(i) => i,
                None => 0,
            },
            None => 0,
        };
        self.list.select(Some(index));
    }

    /// One shown row down, stopping at the last.
    fn select_next(&mut self)
        ensures
            final(self).list.selected == Some(
                match old(self).list.selected {
                    Some(i) => if old(self).shown().len() == 0 {
                        0usize
                    } else if i >= old(self).shown().len() - 1 {
                        (old(self).shown().len() - 1) as usize
                    } else {
                        (i + 1) as usize
                    },
                    None => 0usize,
                },
            ),
            final(self).list.offset == old(self).list.offset,
            final(self).state == old(self).state,
            final(self).filter == old(self).filter,
            final(self).error == old(self).error,
            final(self).refreshing == old(self).refreshing,
    {
        let count = self.visible().len();
        let last = if count > 0 { count - 1 } else { 0 };
        let next = match self.list.selected() {
            Some(i) => if i >= last {
                last
            } else {
                i + 1
            },
            None => 0,
        };
        self.list.select(Some(next));
    }

    /// The last shown row, or nothing when none is shown.
    fn select_last(&mut self)
        ensures
            final(self).list.selected == if old(self).shown().len() == 0 {
                None
            } else {
                Some((old(self).shown().len() - 1) as usize)
            },
            final(self).list.offset == if old(self).shown().len() == 0 {
                0
            } else {
                old(self).list.offset
            },
            final(self).state == old(self).state,
            final(self).filter == old(self).filter,
            final(self).error == old(self).error,
            final(self).refreshing == old(self).refreshing,
    {
        let count = self.visible().len();
        self.list.select(count.checked_sub(1));
    }

    /// The shown row at `index`, if there is one; else the selection stays.
    fn select_index(&mut self, index: usize)
        ensures
            final(self).list.selected == if index < old(self).shown().len() {
                Some(index)
            } else {
                old(self).list.selected
            },
            final(self).list.offset == old(self).list.offset,
            final(self).state == old(self).state,
            final(self).filter == old(self).filter,
            final(self).error == old(self).error,
            final(self).refreshing == old(self).refreshing,
    {
        if index < self.visible().len() {
            self.list.select(Some(index));
        }
    }
}

/// Moving the selection of a column.
pub trait Navigable {
    fn next(&mut self);

    fn previous(&mut self);

    fn first(&mut self);

    fn last(&mut self);

    fn select_index_clamped(&mut self, index: usize);
}

/// Everything of a column but its selection stays as it was.
pub open spec fn same_but_selection<T>(a: Column<T>, b: Column<T>) -> bool {
    &&& a.state == b.state
    &&& a.filter == b.filter
    &&& a.error == b.error
    &&& a.refreshing == b.refreshing
}

/// Where `next` moves a selection among `count` shown rows: one down, stopping at the last.
pub open spec fn next_index(selected: Option<usize>, count: nat) -> usize {
    match selected {
        Some(i) => if count == 0 {
            0usize
        } else if i >= count - 1 {
            (count - 1) as usize
        } else {
            (i + 1) as usize
        },
        None => 0usize,
    }
}

/// Where `previous` moves a selection: one up, stopping at the first; from no selection to
/// the last row.
pub open spec fn previous_index(selected: Option<usize>) -> usize {
    match selected {
        Some(i) => if i > 0 {
            (i - 1) as usize
        } else {
            0
        },
        None => usize::MAX,
    }
}

impl<T: Row> Navigable for Column<T> {
    fn next(&mut self)
        ensures
            final(self).list.selected == Some(next_index(old(self).list.selected, old(self).shown().len())),
            final(self).list.offset == old(self).list.offset,
            same_but_selection(*final(self), *old(self)),
    {
        self.select_next();
    }

    fn previous(&mut self)
        ensures
            final(self).list.selected == Some(previous_index(old(self).list.selected)),
            final(self).list.offset == old(self).list.offset,
            same_but_selection(*final(self), *old(self)),
    {
        self.list.select_previous();
    }

    fn first(&mut self)
        ensures
            final(self).list.selected == Some(0usize),
            final(self).list.offset == old(self).list.offset,
            same_but_selection(*final(self), *old(self)),
    {
        self.list.select_first();
    }

    fn last(&mut self)
        ensures
            final(self).list.selected == if old(self).shown().len() == 0 {
                None
            } else {
                Some((old(self).shown().len() - 1) as usize)
            },
            final(self).list.offset == if old(self).shown().len() == 0 {
                0
            } else {
                old(self).list.offset
            },
            same_but_selection(*final(self), *old(self)),
    {
        self.select_last();
    }

    fn select_index_clamped(&mut self, index: usize)
        ensures
            final(self).list.selected == if index == 0 || index < old(self).shown().len() {
                Some(index)
            } else {
                old(self).list.selected
            },
            final(self).list.offset == old(self).list.offset,
            same_but_selection(*final(self), *old(self)),
    {
        if index == 0 {
            self.list.select_first();
        } else {
            self.select_index(index);
        }
    }
}

} // verus!

verus! {

/// `#` and the number: how a pull request number is written.
pub open spec fn hash_number(n: u64) -> Seq<char> {
    seq!['#'] + decimal(n as nat)
}

pub fn hash_number_text(n: u64) -> (r: String)
    ensures
        r@ == hash_number(n),
{
    let digits = decimal_string(n);
    proof {
        reveal_strlit("#");
    }
    assert("#"@ =~= seq!['#']);
    concat("#", digits.as_str())
}

/// The lowercase text of an optional string, empty when there is none.
pub open spec fn lower_or_empty(s: Option<Seq<char>>) -> Seq<char> {
    match s {
        Some(t) => lowercase_of(t),
        None => Seq::empty(),
    }
}

impl Row for PullRequest {
    open spec fn key_of(&self) -> u64 {
        self.number
    }

    open spec fn rank_of(&self) -> u64 {
        0
    }

    open spec fn matches_query(&self, query: Seq<char>) -> bool {
        contains(hash_number(self.number), query) || contains(lowercase_of(self.title@), query)
            || contains(lowercase_of(self.repo@), query)
    }

    open spec fn order_of() -> Order {
        Order::AsFetched
    }

    fn order() -> (r: Order) {
        Order::AsFetched
    }

    fn key(&self) -> (r: u64) {
        self.number
    }

    fn rank(&self) -> (r: u64) {
        0
    }

    fn matches(&self, query: &str) -> (r: bool) {
        let number = hash_number_text(self.number);
        let title = lowercase(self.title.as_str());
        let repo = lowercase(self.repo.as_str());
        str_contains(number.as_str(), query) || str_contains(title.as_str(), query)
            || str_contains(repo.as_str(), query)
    }
}

impl Row for QueueEntry {
    open spec fn key_of(&self) -> u64 {
        self.number
    }

    open spec fn rank_of(&self) -> u64 {
        self.position
    }

    open spec fn matches_query(&self, query: Seq<char>) -> bool {
        contains(hash_number(self.number), query) || contains(lowercase_of(self.title@), query)
            || contains(lowercase_of(self.author@), query)
    }

    open spec fn order_of() -> Order {
        Order::ByRankAscending
    }

    fn order() -> (r: Order) {
        Order::ByRankAscending
    }

    fn key(&self) -> (r: u64) {
        self.number
    }

    fn rank(&self) -> (r: u64) {
        self.position
    }

    fn matches(&self, query: &str) -> (r: bool) {
        let number = hash_number_text(self.number);
        let title = lowercase(self.title.as_str());
        let author = lowercase(self.author.as_str());
        str_contains(number.as_str(), query) || str_contains(title.as_str(), query)
            || str_contains(author.as_str(), query)
    }
}

/// The pull request number a build names: the squash suffix, else its pull request's.
pub open spec fn build_number(b: Build) -> Option<u64> {
    match b.pr_number {
        Some(n) => Some(n),
        None => match b.pull {
            Some(p) => Some(p.number),
            None => None,
        },
    }
}

impl Row for Build {
    open spec fn key_of(&self) -> u64 {
        self.id
    }

    open spec fn rank_of(&self) -> u64 {
        self.run_number
    }

    open spec fn matches_query(&self, query: Seq<char>) -> bool {
        contains(
            match build_number(*self) {
                Some(n) => hash_number(n),
                None => Seq::empty(),
            },
            query,
        ) || contains(lowercase_of(self.title@), query) || contains(
            lower_or_empty(
                match self.pull {
                    Some(p) => Some(p.author@),
                    None => None,
                },
            ),
            query,
        ) || contains(self.sha@, query)
    }

    open spec fn order_of() -> Order {
        Order::ByRankDescending
    }

    fn order() -> (r: Order) {
        Order::ByRankDescending
    }

    fn key(&self) -> (r: u64) {
        self.id
    }

    fn rank(&self) -> (r: u64) {
        self.run_number
    }

    fn matches(&self, query: &str) -> (r: bool) {
        let number = match self.pr_number {
            Some(n) => Some(n),
            None => match &self.pull {
                Some(p) => Some(p.number),
                None => None,
            },
        };
        let number_text = match number {
            Some(n) => hash_number_text(n),
            None => String::new(),
        };
        let title = lowercase(self.title.as_str());
        let author = match &self.pull {
            Some(p) => lowercase(p.author.as_str()),
            None => String::new(),
        };
        str_contains(number_text.as_str(), query) || str_contains(title.as_str(), query)
            || str_contains(author.as_str(), query) || str_contains(self.sha.as_str(), query)
    }
}

/// What `Hash` feeds a hasher for a string: its UTF-8 bytes, then `0xff`.
pub open spec fn env_key(env: Seq<char>) -> u64 {
    DefaultHasher::spec_finish(seq![encode_utf8(env), seq![0xffu8]])
}

impl Row for Deployment {
    open spec fn key_of(&self) -> u64 {
        env_key(self.env@)
    }

    open spec fn rank_of(&self) -> u64 {
        0
    }

    open spec fn matches_query(&self, query: Seq<char>) -> bool {
        contains(lowercase_of(self.env@), query) || contains(
            match self.pull {
                Some(p) => hash_number(p.number),
                None => Seq::empty(),
            },
            query,
        ) || contains(
            lower_or_empty(
                match self.pull {
                    Some(p) => Some(p.title@),
                    None => None,
                },
            ),
            query,
        ) || contains(
            lower_or_empty(
                match self.pull {
                    Some(p) => Some(p.author@),
                    None => None,
                },
            ),
            query,
        ) || contains(
            match self.sha {
                Some(s) => s@,
                None => Seq::empty(),
            },
            query,
        )
    }

    open spec fn order_of() -> Order {
        Order::AsFetched
    }

    fn order() -> (r: Order) {
        Order::AsFetched
    }

    fn key(&self) -> (r: u64) {
        let mut hasher = DefaultHasher::new();
        hasher.write(self.env.as_str().as_bytes());
        let end: [u8; 1] = [0xffu8];
        hasher.write(end.as_slice());
        assert(end@ =~= seq![0xffu8]);
        assert(hasher@ =~= seq![encode_utf8(self.env@), seq![0xffu8]]);
        hasher.finish()
    }

    fn rank(&self) -> (r: u64) {
        0
    }

    fn matches(&self, query: &str) -> (r: bool) {
        let env = lowercase(self.env.as_str());
        let number = match &self.pull {
            Some(p) => hash_number_text(p.number),
            None => String::new(),
        };
        let title = match &self.pull {
            Some(p) => lowercase(p.title.as_str()),
            None => String::new(),
        };
        let author = match &self.pull {
            Some(p) => lowercase(p.author.as_str()),
            None => String::new(),
        };
        let sha = match &self.sha {
            Some(s) => s.clone(),
            None => String::new(),
        };
        str_contains(env.as_str(), query) || str_contains(number.as_str(), query) || str_contains(
            title.as_str(),
            query,
        ) || str_contains(author.as_str(), query) || str_contains(sha.as_str(), query)
    }
}

} // verus!

verus! {

/// A key as the view reads it: which key, and whether Control was held.
#[derive(Debug, Clone, Copy, PartialEq, Eq, Structural)]
pub enum KeyCode {
    Char(char),
    Esc,
    Backspace,
    Enter,
    Tab,
    BackTab,
    Up,
    Down,
    Other,
}

#[derive(Debug, Clone, Copy, PartialEq, Eq, Structural)]
pub struct Key {
    pub code: KeyCode,
    pub control: bool,
}

/// What a fetch of one column brings.
#[derive(Debug, Clone, PartialEq, Eq)]
pub enum Rows {
    Prs(Vec<PullRequest>),
    Queue(Queue),
    Builds(Builds),
    Deployed(Deployed),
}

/// What the view is told: a key, a fetch starting, a fetch's answer, a run's jobs, the time.
#[derive(Debug, PartialEq, Eq)]
pub enum Input {
    Key(Key),
    Fetching(Stage),
    Data(Stage, Result<Rows, String>),
    Jobs(u64, Result<Vec<Job>, String>),
    Log(u64, Result<String, String>),
    Tick(Stamp),
}

/// The jobs of a run as far as they are known.
#[derive(Debug, Clone, PartialEq, Eq)]
pub enum JobsState {
    Loading,
    Ready(Vec<Job>),
    Failed(String),
}

/// The failed step's log of a job as far as it is known: on its way, its last lines, or why
/// it could not be fetched.
#[derive(Debug, Clone, PartialEq, Eq)]
pub enum LogState {
    Loading,
    Lines(Vec<String>),
    Failed(String),
}

/// What a key asks of the world outside the view.
#[derive(Debug, PartialEq, Eq)]
pub enum Action {
    Continue,
    Quit,
    Open(String),
    Copy(String),
    Refresh(Stage),
    RefreshAll,
    Log { run_id: u64, job_id: u64, repo: String },
}

/// An action as contracts speak of it.
pub enum Effect {
    Continue,
    Quit,
    Open(Seq<char>),
    Copy(Seq<char>),
    Refresh(Stage),
    RefreshAll,
    Log(u64, u64, Seq<char>),
}

impl Action {
    pub open spec fn effect(self) -> Effect {
        match self {
            Action::Continue => Effect::Continue,
            Action::Quit => Effect::Quit,
            Action::Open(u) => Effect::Open(u@),
            Action::Copy(t) => Effect::Copy(t@),
            Action::Refresh(s) => Effect::Refresh(s),
            Action::RefreshAll => Effect::RefreshAll,
            Action::Log { run_id, job_id, repo } => Effect::Log(run_id, job_id, repo@),
        }
    }
}

/// A fetch the view asks for.
#[derive(Debug, Clone, PartialEq, Eq)]
pub enum Request {
    Refresh(Stage),
    Jobs { run_id: u64 },
    Log { run_id: u64, job_id: u64, repo: String },
}

/// Whether keys move around, type a filter query, or close the help.
#[derive(Debug, Clone, PartialEq, Eq)]
pub enum Mode {
    Normal,
    Filter(String),
    Help,
}

/// The state of the view.
pub struct App {
    pub prs: Column<PullRequest>,
    pub queue: Column<QueueEntry>,
    pub queue_repo: Option<String>,
    pub builds: Column<Build>,
    pub builds_repo: Option<String>,
    pub deployed: Column<Deployment>,
    pub deployed_system: Option<String>,
    pub focus: Stage,
    pub mode: Mode,
    /// The filter applied to every column once typed; while `mode` edits it, the text being
    /// typed applies instead.
    pub query: Option<String>,
    pub config: Config,
    pub now: Stamp,
    pub utc_offset_secs: i32,
    pub notice: Option<String>,
    pub details: bool,
    pub details_scroll: u16,
    pub details_page: u16,
    pub zoom: bool,
    pub jobs: HashMap<u64, JobsState>,
    /// The job whose failed step's log the details pane shows, and the log.
    pub log: Option<(u64, LogState)>,
    /// A first `g` waits for a second.
    pub pending_g: bool,
    /// The URL last opened and when, against double opens.
    pub last_open: Option<(String, Stamp)>,
}

/// A text that may be absent, by its characters.
pub open spec fn text_view(o: Option<String>) -> Option<Seq<char>> {
    match o {
        Some(s) => Some(s@),
        None => None,
    }
}

/// The filter the columns apply: the text being typed, else the kept query.
pub open spec fn live_filter(app: App) -> Option<Seq<char>> {
    match app.mode {
        Mode::Filter(q) => Some(q@),
        _ => text_view(app.query),
    }
}

/// Whether a fresh column is what `Column::new` makes.
pub open spec fn fresh_column<T>(c: Column<T>) -> bool {
    &&& c.state is Loading
    &&& c.error is None
    &&& !c.refreshing
    &&& c.list.selected == Some(0usize)
    &&& c.list.offset == 0
    &&& c.filter is None
}

/// The view once a column's fetch runs: only that column's `refreshing` is set.
pub open spec fn fetching_of(app: App, stage: Stage) -> App {
    match stage {
        Stage::Prs => App { prs: Column { refreshing: true, ..app.prs }, ..app },
        Stage::Queue => App { queue: Column { refreshing: true, ..app.queue }, ..app },
        Stage::Builds => App { builds: Column { refreshing: true, ..app.builds }, ..app },
        Stage::Deployed => App { deployed: Column { refreshing: true, ..app.deployed }, ..app },
    }
}

pub open spec fn spinner_frames() -> Seq<char> {
    seq!['⠋', '⠙', '⠹', '⠸', '⠼', '⠴', '⠦', '⠧', '⠇', '⠏']
}

impl App {
    /// The view at `now` before any data: every column waiting, the pull requests focused.
    pub fn at(now: Stamp, config: Config) -> (r: App)
        ensures
            fresh_column(r.prs),
            fresh_column(r.queue),
            fresh_column(r.builds),
            fresh_column(r.deployed),
            r.queue_repo is None,
            r.builds_repo is None,
            r.deployed_system is None,
            r.focus == Stage::Prs,
            r.mode == Mode::Normal,
            r.query is None,
            r.config == config,
            r.now == now,
            r.utc_offset_secs == 0,
            r.notice is None,
            !r.details,
            r.details_scroll == 0,
            r.details_page == 0,
            !r.zoom,
            r.jobs@ == Map::<u64, JobsState>::empty(),
            r.log is None,
            !r.pending_g,
            r.last_open is None,
    {
        App {
            prs: Column::new(),
            queue: Column::new(),
            queue_repo: None,
            builds: Column::new(),
            builds_repo: None,
            deployed: Column::new(),
            deployed_system: None,
            focus: Stage::Prs,
            mode: Mode::Normal,
            query: None,
            config,
            now,
            utc_offset_secs: 0,
            notice: None,
            details: false,
            details_scroll: 0,
            details_page: 0,
            zoom: false,
            jobs: HashMap::new(),
            log: None,
            pending_g: false,
            last_open: None,
        }
    }

    /// Marks a column's fetch as running.
    pub fn fetching(&mut self, stage: Stage)
        ensures
            *final(self) == fetching_of(*old(self), stage),
    {
        match stage {
            Stage::Prs => self.prs.refreshing = true,
            Stage::Queue => self.queue.refreshing = true,
            Stage::Builds => self.builds.refreshing = true,
            Stage::Deployed => self.deployed.refreshing = true,
        }
    }

    pub fn any_refreshing(&self) -> (r: bool)
        ensures
            r == (self.prs.refreshing || self.queue.refreshing || self.builds.refreshing
                || self.deployed.refreshing),
    {
        self.prs.refreshing || self.queue.refreshing || self.builds.refreshing
            || self.deployed.refreshing
    }

    /// A braille spinner frame that advances every tenth of a second.
    pub fn spinner(&self) -> (r: char)
        ensures
            r == spinner_frames()[(((self.now / 1_000_000) / 100) % 10) as int],
    {
        let frames: [char; 10] = ['⠋', '⠙', '⠹', '⠸', '⠼', '⠴', '⠦', '⠧', '⠇', '⠏'];
        assert(frames@ =~= spinner_frames());
        let millis = self.now / 1_000_000;
        frames[((millis / 100) % 10) as usize]
    }

    /// The filter the columns apply: the text being typed, else the kept query.
    pub fn filter(&self) -> (r: Option<&str>)
        ensures
            opt_view(r) == live_filter(*self),
    {
        match &self.mode {
            Mode::Filter(query) => Some(query.as_str()),
            _ => match &self.query {
                Some(query) => Some(query.as_str()),
                None => None,
            },
        }
    }
}

} // verus!

verus! {

broadcast use vstd::std_specs::hash::group_hash_axioms;

/// The first row of `current` for environment `env`.
pub open spec fn known_row(current: Seq<Deployment>, env: Seq<char>) -> Option<Deployment>
    decreases current.len(),
{
    if current.len() == 0 {
        None
    } else if current[0].env@ == env {
        Some(current[0])
    } else {
        known_row(current.drop_first(), env)
    }
}

/// A freshly read environment row that has no sha (its read failed) keeps the sha, image,
/// pull request and read time last known for its environment; any other row is as read.
pub open spec fn kept_row(new: Deployment, fresh: Deployment, current: Seq<Deployment>) -> bool {
    match (fresh.sha, known_row(current, fresh.env@)) {
        (None, Some(known)) => {
            &&& new.env == fresh.env
            &&& new.error == fresh.error
            &&& new.sha == known.sha
            &&& new.image == known.image
            &&& new.pull == known.pull
            &&& new.fetched_at == known.fetched_at
        },
        _ => new == fresh,
    }
}

fn find_known<'a>(current: &'a [Deployment], env: &String) -> (r: Option<&'a Deployment>)
    ensures
        match r {
            Some(d) => known_row(current@, env@) == Some(*d),
            None => known_row(current@, env@) is None,
        },
{
    let mut i: usize = 0;
    assert(current@.skip(0) =~= current@);
    while i < current.len()
        invariant
            0 <= i <= current@.len(),
            known_row(current@, env@) == known_row(current@.skip(i as int), env@),
        decreases current@.len() - i,
    {
        assert(current@.skip(i as int).drop_first() =~= current@.skip(i + 1));
        if current[i].env == *env {
            return Some(&current[i]);
        }
        i = i + 1;
    }
    None
}

/// Each freshly read environment row, as `kept_row` says.
pub fn keep_last_known(current: &[Deployment], fresh: Vec<Deployment>) -> (r: Vec<Deployment>)
    ensures
        r@.len() == fresh@.len(),
        forall|i: int| 0 <= i < r@.len() ==> kept_row(#[trigger] r@[i], fresh@[i], current@),
{
    let mut out: Vec<Deployment> = Vec::new();
    let mut i: usize = 0;
    while i < fresh.len()
        invariant
            0 <= i <= fresh@.len(),
            out@.len() == i,
            forall|k: int| 0 <= k < i ==> kept_row(#[trigger] out@[k], fresh@[k], current@),
        decreases fresh@.len() - i,
    {
        let mut row = fresh[i].clone();
        if row.sha.is_none() {
            match find_known(current, &row.env) {
                Some(known) => {
                    row.sha = match &known.sha {
                        Some(s) => Some(s.clone()),
                        None => None,
                    };
                    row.image = match &known.image {
                        Some(s) => Some(s.clone()),
                        None => None,
                    };
                    row.pull = match &known.pull {
                        Some(p) => Some(p.clone()),
                        None => None,
                    };
                    row.fetched_at = known.fetched_at;
                },
                None => {},
            }
        }
        out.push(row);
        i = i + 1;
    }
    out
}

pub open spec fn unsettled_build(b: Build, id: u64) -> bool {
    !b.status.settled() && b.id == id
}

pub open spec fn unsettled_run(e: QueueEntry, id: u64) -> bool {
    match e.run {
        Some(r) => unsettled_build(r, id),
        None => false,
    }
}

/// The ids of the runs that are not settled: main builds and the runs of queue entries.
pub open spec fn unsettled_ids(builds: Seq<Build>, entries: Seq<QueueEntry>) -> Set<u64> {
    Set::new(
        |id: u64|
            (exists|i: int| 0 <= i < builds.len() && #[trigger] unsettled_build(builds[i], id))
                || (exists|i: int| 0 <= i < entries.len() && #[trigger] unsettled_run(entries[i], id)),
    )
}

/// The runs whose jobs a refresh forgets: the unsettled ones, but for those whose jobs are
/// on their way.
pub open spec fn forgotten(jobs: Map<u64, JobsState>, ids: Set<u64>) -> Set<u64> {
    Set::new(|id: u64| ids.contains(id) && !(jobs.contains_key(id) && jobs[id] is Loading))
}

/// The key of the selected row of the focused column.
pub open spec fn selected_key_of(app: App) -> Option<u64> {
    match app.focus {
        Stage::Prs => match app.prs.current() {
            Some(r) => Some(r.key_of()),
            None => None,
        },
        Stage::Queue => match app.queue.current() {
            Some(r) => Some(r.key_of()),
            None => None,
        },
        Stage::Builds => match app.builds.current() {
            Some(r) => Some(r.key_of()),
            None => None,
        },
        Stage::Deployed => match app.deployed.current() {
            Some(r) => Some(r.key_of()),
            None => None,
        },
    }
}

/// The run whose jobs the focused column shows: the selected main build, or the run of the
/// selected queue entry.
pub open spec fn selected_run_of(app: App) -> Option<Build> {
    match app.focus {
        Stage::Builds => app.builds.current(),
        Stage::Queue => match app.queue.current() {
            Some(e) => e.run,
            None => None,
        },
        _ => None,
    }
}

/// How many failing main builds have their jobs fetched without being selected.
pub const EAGER_JOBS: usize = 5;

pub open spec fn is_failure() -> spec_fn(Build) -> bool {
    |b: Build| b.status == BuildStatus::Failure
}

/// The first build of `builds` whose jobs are not known.
pub open spec fn first_without_jobs(builds: Seq<Build>, jobs: Map<u64, JobsState>) -> Option<u64>
    decreases builds.len(),
{
    if builds.len() == 0 {
        None
    } else if !jobs.contains_key(builds[0].id) {
        Some(builds[0].id)
    } else {
        first_without_jobs(builds.drop_first(), jobs)
    }
}

/// Among the first failing main builds, the first whose jobs are not known.
pub open spec fn failing_without_jobs(builds: Seq<Build>, jobs: Map<u64, JobsState>) -> Option<u64> {
    let failing = builds.filter(is_failure());
    first_without_jobs(
        failing.take(
            if failing.len() < EAGER_JOBS {
                failing.len() as int
            } else {
                EAGER_JOBS as int
            },
        ),
        jobs,
    )
}

/// The run whose jobs to fetch next: the selected run if its jobs are unknown, else a failing
/// main build whose jobs are unknown.
pub open spec fn jobs_wanted(app: App) -> Option<u64> {
    match selected_run_of(app) {
        Some(run) => if !app.jobs@.contains_key(run.id) {
            Some(run.id)
        } else {
            failing_without_jobs(app.builds.rows(), app.jobs@)
        },
        None => failing_without_jobs(app.builds.rows(), app.jobs@),
    }
}

} // verus!

verus! {

/// What a fetch's answer does to the view's columns: the answering column takes its rows
/// (the deployed one keeping last known shas), or the error; an answer for another column
/// than the one named changes nothing. Every column that did not answer stays.
pub open spec fn answered(before: App, after: App, stage: Stage, data: Result<Rows, String>) -> bool {
    match (stage, data) {
        (Stage::Prs, Ok(Rows::Prs(prs))) => {
            &&& received(before.prs, after.prs, prs@, before.now)
            &&& after.queue == before.queue && after.builds == before.builds && after.deployed
                == before.deployed
            &&& after.queue_repo == before.queue_repo && after.builds_repo == before.builds_repo
            &&& after.deployed_system == before.deployed_system
            &&& after.jobs@ == before.jobs@
        },
        (Stage::Queue, Ok(Rows::Queue(q))) => {
            &&& received(before.queue, after.queue, q.entries@, before.now)
            &&& after.queue_repo == Some(q.repo)
            &&& after.prs == before.prs && after.builds == before.builds && after.deployed
                == before.deployed
            &&& after.builds_repo == before.builds_repo && after.deployed_system
                == before.deployed_system
            &&& after.jobs@ == before.jobs@.remove_keys(
                forgotten(before.jobs@, unsettled_ids(after.builds.rows(), after.queue.rows())),
            )
        },
        (Stage::Builds, Ok(Rows::Builds(b))) => {
            &&& received(before.builds, after.builds, b.builds@, before.now)
            &&& after.builds_repo == Some(b.repo)
            &&& after.prs == before.prs && after.queue == before.queue && after.deployed
                == before.deployed
            &&& after.queue_repo == before.queue_repo && after.deployed_system
                == before.deployed_system
            &&& after.jobs@ == before.jobs@.remove_keys(
                forgotten(before.jobs@, unsettled_ids(after.builds.rows(), after.queue.rows())),
            )
        },
        (Stage::Deployed, Ok(Rows::Deployed(d))) => {
            &&& exists|rows: Seq<Deployment>|
                #![trigger received(before.deployed, after.deployed, rows, before.now)]
                rows.len() == d.rows@.len() && (forall|i: int|
                    0 <= i < rows.len() ==> kept_row(
                        #[trigger] rows[i],
                        d.rows@[i],
                        before.deployed.rows(),
                    )) && received(before.deployed, after.deployed, rows, before.now)
            &&& after.deployed_system == Some(d.system)
            &&& after.prs == before.prs && after.queue == before.queue && after.builds
                == before.builds
            &&& after.queue_repo == before.queue_repo && after.builds_repo == before.builds_repo
            &&& after.jobs@ == before.jobs@
        },
        (_, Err(message)) => {
            &&& stage == Stage::Prs ==> failed(before.prs, after.prs, message)
                && after.queue == before.queue && after.builds == before.builds
                && after.deployed == before.deployed
            &&& stage == Stage::Queue ==> failed(before.queue, after.queue, message)
                && after.prs == before.prs && after.builds == before.builds
                && after.deployed == before.deployed
            &&& stage == Stage::Builds ==> failed(before.builds, after.builds, message)
                && after.prs == before.prs && after.queue == before.queue
                && after.deployed == before.deployed
            &&& stage == Stage::Deployed ==> failed(before.deployed, after.deployed, message)
                && after.prs == before.prs && after.queue == before.queue
                && after.builds == before.builds
            &&& after.queue_repo == before.queue_repo && after.builds_repo == before.builds_repo
            &&& after.deployed_system == before.deployed_system
            &&& after.jobs@ == before.jobs@
        },
        _ => {
            &&& after.prs == before.prs && after.queue == before.queue && after.builds
                == before.builds && after.deployed == before.deployed
            &&& after.queue_repo == before.queue_repo && after.builds_repo == before.builds_repo
            &&& after.deployed_system == before.deployed_system
            &&& after.jobs@ == before.jobs@
        },
    }
}

/// What a fetch's answer does to the view (see `answered`); the details pane goes back to its
/// top when the selected row of the focused column is another one afterwards.
pub open spec fn took_rows(before: App, after: App, stage: Stage, data: Result<Rows, String>) -> bool {
    &&& answered(before, after, stage, data)
    &&& same_view_state(after, before)
    &&& after.details_scroll == if selected_key_of(after) != selected_key_of(before) {
        0
    } else {
        before.details_scroll
    }
}

/// The fields that only keys and ticks change.
pub open spec fn same_view_state(a: App, b: App) -> bool {
    &&& a.focus == b.focus
    &&& a.mode == b.mode
    &&& a.query == b.query
    &&& a.config == b.config
    &&& a.now == b.now
    &&& a.utc_offset_secs == b.utc_offset_secs
    &&& a.notice == b.notice
    &&& a.details == b.details
    &&& a.details_page == b.details_page
    &&& a.zoom == b.zoom
    &&& a.pending_g == b.pending_g
    &&& a.last_open == b.last_open
    &&& a.log == b.log
}

impl App {
    fn selected_key(&self) -> (r: Option<u64>)
        ensures
            r == selected_key_of(*self),
    {
        match self.focus {
            Stage::Prs => match self.prs.selected() {
                Some(r) => Some(r.key()),
                None => None,
            },
            Stage::Queue => match self.queue.selected() {
                Some(r) => Some(r.key()),
                None => None,
            },
            Stage::Builds => match self.builds.selected() {
                Some(r) => Some(r.key()),
                None => None,
            },
            Stage::Deployed => match self.deployed.selected() {
                Some(r) => Some(r.key()),
                None => None,
            },
        }
    }

    /// Drops the known jobs of every run that is not settled, so they are fetched again.
    fn forget_unsettled_jobs(&mut self)
        ensures
            final(self).jobs@ == old(self).jobs@.remove_keys(
                forgotten(old(self).jobs@, unsettled_ids(old(self).builds.rows(), old(self).queue.rows())),
            ),
            final(self).prs == old(self).prs,
            final(self).queue == old(self).queue,
            final(self).builds == old(self).builds,
            final(self).deployed == old(self).deployed,
            final(self).queue_repo == old(self).queue_repo,
            final(self).builds_repo == old(self).builds_repo,
            final(self).deployed_system == old(self).deployed_system,
            same_view_state(*final(self), *old(self)),
            final(self).details_scroll == old(self).details_scroll,
    {
        let ghost start = self.jobs@;
        let ghost ids = forgotten(start, unsettled_ids(self.builds.rows(), self.queue.rows()));
        let builds = self.builds.all();
        let mut i: usize = 0;
        let ghost mut removed: Set<u64> = Set::empty();
        while i < builds.len()
            invariant
                0 <= i <= builds@.len(),
                self.prs == old(self).prs,
                self.queue == old(self).queue,
                self.builds == old(self).builds,
                self.deployed == old(self).deployed,
                self.queue_repo == old(self).queue_repo,
                self.builds_repo == old(self).builds_repo,
                self.deployed_system == old(self).deployed_system,
                same_view_state(*self, *old(self)),
                self.details_scroll == old(self).details_scroll,
                builds@ == self.builds.rows(),
                ids == forgotten(start, unsettled_ids(self.builds.rows(), self.queue.rows())),
                self.jobs@ == start.remove_keys(removed),
                removed.subset_of(ids),
                forall|k: int|
                    0 <= k < i && ids.contains(builds@[k].id) && !builds@[k].status.settled()
                        ==> removed.contains(#[trigger] builds@[k].id),
            decreases builds@.len() - i,
        {
            if !builds[i].is_settled() {
                let id = builds[i].id;
                assert(unsettled_build(builds@[i as int], id));
                let in_flight = match self.jobs.get(&id) {
                    Some(JobsState::Loading) => true,
                    _ => false,
                };
                if !in_flight {
                    self.jobs.remove(&id);
                    proof {
                        removed = removed.insert(id);
                    }
                    assert(self.jobs@ =~= start.remove_keys(removed));
                }
            }
            i = i + 1;
        }
        let entries = self.queue.all();
        let mut j: usize = 0;
        while j < entries.len()
            invariant
                0 <= j <= entries@.len(),
                self.prs == old(self).prs,
                self.queue == old(self).queue,
                self.builds == old(self).builds,
                self.deployed == old(self).deployed,
                self.queue_repo == old(self).queue_repo,
                self.builds_repo == old(self).builds_repo,
                self.deployed_system == old(self).deployed_system,
                same_view_state(*self, *old(self)),
                self.details_scroll == old(self).details_scroll,
                builds@ == self.builds.rows(),
                entries@ == self.queue.rows(),
                ids == forgotten(start, unsettled_ids(self.builds.rows(), self.queue.rows())),
                self.jobs@ == start.remove_keys(removed),
                removed.subset_of(ids),
                forall|k: int|
                    0 <= k < builds@.len() && ids.contains(builds@[k].id)
                        && !builds@[k].status.settled() ==> removed.contains(
                        #[trigger] builds@[k].id,
                    ),
                forall|k: int, id: u64|
                    0 <= k < j && ids.contains(id) && #[trigger] unsettled_run(entries@[k], id)
                        ==> removed.contains(id),
            decreases entries@.len() - j,
        {
            match &entries[j].run {
                Some(run) => {
                    if !run.is_settled() {
                        let id = run.id;
                        assert(unsettled_run(entries@[j as int], id));
                        let in_flight = match self.jobs.get(&id) {
                            Some(JobsState::Loading) => true,
                            _ => false,
                        };
                        if !in_flight {
                            self.jobs.remove(&id);
                            proof {
                                removed = removed.insert(id);
                            }
                            assert(self.jobs@ =~= start.remove_keys(removed));
                        }
                    }
                },
                None => {},
            }
            j = j + 1;
        }
        assert(removed =~= ids) by {
            assert forall|id: u64| ids.contains(id) implies removed.contains(id) by {
                if exists|k: int| 0 <= k < builds@.len() && #[trigger] unsettled_build(builds@[k], id) {
                    let k = choose|k: int| 0 <= k < builds@.len() && #[trigger] unsettled_build(builds@[k], id);
                    assert(!builds@[k].status.settled());
                } else {
                    let k = choose|k: int| 0 <= k < entries@.len() && #[trigger] unsettled_run(entries@[k], id);
                    assert(unsettled_run(entries@[k], id));
                }
            }
        }
    }
}

} // verus!

verus! {

impl App {
    fn receive_rows(&mut self, stage: Stage, data: Result<Rows, String>)
        ensures
            answered(*old(self), *final(self), stage, data),
            same_view_state(*final(self), *old(self)),
            final(self).details_scroll == old(self).details_scroll,
    {
        let now = self.now;
        match (stage, data) {
            (Stage::Prs, Ok(Rows::Prs(prs))) => self.prs.receive(prs, now),
            (Stage::Queue, Ok(Rows::Queue(queue))) => {
                self.queue_repo = Some(queue.repo);
                self.queue.receive(queue.entries, now);
                self.forget_unsettled_jobs();
            },
            (Stage::Builds, Ok(Rows::Builds(builds))) => {
                self.builds_repo = Some(builds.repo);
                self.builds.receive(builds.builds, now);
                self.forget_unsettled_jobs();
            },
            (Stage::Deployed, Ok(Rows::Deployed(deployed))) => {
                self.deployed_system = Some(deployed.system);
                let rows = keep_last_known(self.deployed.all(), deployed.rows);
                let ghost kept = rows@;
                self.deployed.receive(rows, now);
                assert(received(old(self).deployed, self.deployed, kept, now));
            },
            (Stage::Prs, Err(message)) => self.prs.fail(message),
            (Stage::Queue, Err(message)) => self.queue.fail(message),
            (Stage::Builds, Err(message)) => self.builds.fail(message),
            (Stage::Deployed, Err(message)) => self.deployed.fail(message),
            _ => {},
        }
    }

    /// Takes a fetch's answer for a column (see `answered`); the details pane goes back to
    /// its top when the selected row of the focused column is another one afterwards.
    pub fn receive(&mut self, stage: Stage, data: Result<Rows, String>)
        ensures
            took_rows(*old(self), *final(self), stage, data),
    {
        let selected = self.selected_key();
        self.receive_rows(stage, data);
        if self.selected_key() != selected {
            self.details_scroll = 0;
        }
    }
}

} // verus!

verus! {

/// The error the footer shows for the focused column: its fetch error, and for the deployed
/// column else the error of the selected environment.
pub open spec fn focused_error_of(app: App) -> Option<Seq<char>> {
    match app.focus {
        Stage::Prs => match app.prs.error {
            Some(e) => Some(e@),
            None => None,
        },
        Stage::Queue => match app.queue.error {
            Some(e) => Some(e@),
            None => None,
        },
        Stage::Builds => match app.builds.error {
            Some(e) => Some(e@),
            None => None,
        },
        Stage::Deployed => match app.deployed.error {
            Some(e) => Some(e@),
            None => match app.deployed.current() {
                Some(row) => match row.error {
                    Some(e) => Some(e@),
                    None => None,
                },
                None => None,
            },
        },
    }
}

/// The position of the first build with sha `sha`.
pub open spec fn sha_index(builds: Seq<Build>, sha: Seq<char>) -> Option<int>
    decreases builds.len(),
{
    if builds.len() == 0 {
        None
    } else if builds[0].sha@ == sha {
        Some(0)
    } else {
        match sha_index(builds.drop_first(), sha) {
            Some(i) => Some(i + 1),
            None => None,
        }
    }
}

proof fn lemma_sha_index(builds: Seq<Build>, sha: Seq<char>, i: int)
    requires
        0 <= i <= builds.len(),
        forall|j: int| 0 <= j < i ==> (#[trigger] builds[j]).sha@ != sha,
    ensures
        i < builds.len() && builds[i].sha@ == sha ==> sha_index(builds, sha) == Some(i),
        i == builds.len() ==> sha_index(builds, sha) is None,
    decreases i,
{
    if i > 0 {
        assert forall|j: int| 0 <= j < i - 1 implies (#[trigger] builds.drop_first()[j]).sha@
            != sha by {
            assert(builds.drop_first()[j] == builds[j + 1]);
        }
        lemma_sha_index(builds.drop_first(), sha, i - 1);
    }
}

/// The position among the main builds of the first one with sha `sha`.
pub(crate) fn position_of_sha(builds: &[Build], sha: &String) -> (r: Option<usize>)
    ensures
        match r {
            Some(i) => sha_index(builds@, sha@) == Some(i as int) && i < builds@.len(),
            None => sha_index(builds@, sha@) is None,
        },
{
    let mut i: usize = 0;
    while i < builds.len()
        invariant
            0 <= i <= builds@.len(),
            forall|j: int| 0 <= j < i ==> (#[trigger] builds@[j]).sha@ != sha@,
        decreases builds@.len() - i,
    {
        if builds[i].sha == *sha {
            proof {
                lemma_sha_index(builds@, sha@, i as int);
            }
            return Some(i);
        }
        i = i + 1;
    }
    proof {
        lemma_sha_index(builds@, sha@, i as int);
    }
    None
}

impl App {
    /// The run whose jobs the details show.
    pub fn selected_run(&self) -> (r: Option<&Build>)
        ensures
            r is Some <==> selected_run_of(*self) is Some,
            r matches Some(b) ==> selected_run_of(*self) == Some(*b),
    {
        match self.focus {
            Stage::Builds => self.builds.selected(),
            Stage::Queue => match self.queue.selected() {
                Some(entry) => entry.run.as_ref(),
                None => None,
            },
            _ => None,
        }
    }

    fn failing_run_without_jobs(&self) -> (r: Option<u64>)
        ensures
            r == failing_without_jobs(self.builds.rows(), self.jobs@),
    {
        let builds = self.builds.all();
        let ghost failing = builds@.filter(is_failure());
        let mut seen: usize = 0;
        let mut i: usize = 0;
        while i < builds.len() && seen < EAGER_JOBS
            invariant
                0 <= i <= builds@.len(),
                builds@ == self.builds.rows(),
                failing == builds@.filter(is_failure()),
                seen == builds@.take(i as int).filter(is_failure()).len(),
                seen <= EAGER_JOBS,
                forall|k: int|
                    0 <= k < seen ==> self.jobs@.contains_key(
                        #[trigger] builds@.take(i as int).filter(is_failure())[k].id,
                    ),
            decreases builds@.len() - i,
        {
            let ghost prefix = builds@.take(i as int).filter(is_failure());
            proof {
                assert(builds@.take(i + 1) =~= builds@.take(i as int).push(builds@[i as int]));
                builds@.take(i as int).lemma_filter_push(builds@[i as int], is_failure());
            }
            if builds[i].status == BuildStatus::Failure {
                if !self.jobs.contains_key(&builds[i].id) {
                    proof {
                        lemma_filter_split(builds@, i as int);
                        let m = if failing.len() < EAGER_JOBS {
                            failing.len() as int
                        } else {
                            EAGER_JOBS as int
                        };
                        assert(failing[seen as int] == builds@[i as int]);
                        assert(seen < m);
                        let t = failing.take(m);
                        assert forall|k: int| 0 <= k < seen implies self.jobs@.contains_key(
                            #[trigger] t[k].id,
                        ) by {
                            assert(t[k] == prefix[k]);
                        }
                        lemma_first_without_jobs(t, self.jobs@, seen as int);
                    }
                    return Some(builds[i].id);
                }
                seen = seen + 1;
            }
            i = i + 1;
        }
        proof {
            lemma_filter_split(builds@, i as int);
            let prefix = builds@.take(i as int).filter(is_failure());
            let m = if failing.len() < EAGER_JOBS {
                failing.len() as int
            } else {
                EAGER_JOBS as int
            };
            let t = failing.take(m);
            if i == builds@.len() {
                assert(builds@.take(i as int) =~= builds@);
            }
            assert(m == seen);
            assert forall|k: int| 0 <= k < t.len() implies self.jobs@.contains_key(
                #[trigger] t[k].id,
            ) by {
                assert(t[k] == prefix[k]);
            }
            lemma_first_without_jobs(t, self.jobs@, t.len() as int);
        }
        None
    }
}

/// The failing builds of `builds` are those of its first `i`, then those of the rest.
proof fn lemma_filter_split(builds: Seq<Build>, i: int)
    requires
        0 <= i <= builds.len(),
    ensures
        builds.filter(is_failure()) == builds.take(i).filter(is_failure()) + builds.skip(
            i,
        ).filter(is_failure()),
        i < builds.len() && builds[i].status == BuildStatus::Failure ==> builds.skip(i).filter(
            is_failure(),
        )[0] == builds[i] && builds.skip(i).filter(is_failure()).len() > 0,
{
    assert(builds =~= builds.take(i) + builds.skip(i));
    Seq::filter_distributes_over_add(builds.take(i), builds.skip(i), is_failure());
    if i < builds.len() && builds[i].status == BuildStatus::Failure {
        let rest = builds.skip(i);
        assert(rest =~= seq![builds[i]] + rest.drop_first());
        Seq::filter_distributes_over_add(seq![builds[i]], rest.drop_first(), is_failure());
        assert(seq![builds[i]].filter(is_failure()) == seq![builds[i]]) by {
            reveal(Seq::filter);
            assert(seq![builds[i]].drop_last() =~= Seq::<Build>::empty());
        }
    }
}

proof fn lemma_first_without_jobs(s: Seq<Build>, jobs: Map<u64, JobsState>, k: int)
    requires
        0 <= k <= s.len(),
        forall|j: int| 0 <= j < k ==> jobs.contains_key(#[trigger] s[j].id),
    ensures
        k < s.len() && !jobs.contains_key(s[k].id) ==> first_without_jobs(s, jobs) == Some(
            s[k].id,
        ),
        k == s.len() ==> first_without_jobs(s, jobs) is None,
    decreases k,
{
    if k > 0 {
        assert forall|j: int| 0 <= j < k - 1 implies jobs.contains_key(
            #[trigger] s.drop_first()[j].id,
        ) by {
            assert(s.drop_first()[j] == s[j + 1]);
        }
        lemma_first_without_jobs(s.drop_first(), jobs, k - 1);
    }
}

} // verus!

verus! {

/// Only the jobs change.
pub open spec fn same_but_jobs(a: App, b: App) -> bool {
    &&& a.prs == b.prs && a.queue == b.queue && a.builds == b.builds && a.deployed == b.deployed
    &&& a.queue_repo == b.queue_repo && a.builds_repo == b.builds_repo && a.deployed_system
        == b.deployed_system
    &&& same_view_state(a, b)
    &&& a.details_scroll == b.details_scroll
}

impl App {
    /// The run whose jobs to fetch next, marked as loading so it is asked for once; nothing
    /// when every candidate's jobs are known or on their way.
    pub fn jobs_needed(&mut self) -> (r: Option<u64>)
        ensures
            r == jobs_wanted(*old(self)),
            match r {
                Some(id) => final(self).jobs@ == old(self).jobs@.insert(id, JobsState::Loading),
                None => final(self).jobs@ == old(self).jobs@,
            },
            same_but_jobs(*final(self), *old(self)),
    {
        let selected = match self.selected_run() {
            Some(run) => Some(run.id),
            None => None,
        };
        let wanted = match selected {
            Some(id) => if !self.jobs.contains_key(&id) {
                Some(id)
            } else {
                self.failing_run_without_jobs()
            },
            None => self.failing_run_without_jobs(),
        };
        match wanted {
            Some(id) => {
                self.jobs.insert(id, JobsState::Loading);
                Some(id)
            },
            None => None,
        }
    }

    /// What is known of the jobs of the selected run.
    pub fn selected_jobs(&self) -> (r: Option<&JobsState>)
        ensures
            match selected_run_of(*self) {
                Some(run) => match r {
                    Some(j) => self.jobs@.contains_key(run.id) && self.jobs@[run.id] == *j,
                    None => !self.jobs@.contains_key(run.id),
                },
                None => r is None,
            },
    {
        match self.selected_run() {
            Some(run) => self.jobs.get(&run.id),
            None => None,
        }
    }

    /// Records the jobs of a run, or why they could not be fetched.
    pub fn receive_jobs(&mut self, run_id: u64, result: Result<Vec<Job>, String>)
        ensures
            final(self).jobs@ == old(self).jobs@.insert(
                run_id,
                match result {
                    Ok(jobs) => JobsState::Ready(jobs),
                    Err(message) => JobsState::Failed(message),
                },
            ),
            same_but_jobs(*final(self), *old(self)),
    {
        let state = match result {
            Ok(jobs) => JobsState::Ready(jobs),
            Err(message) => JobsState::Failed(message),
        };
        self.jobs.insert(run_id, state);
    }

    pub fn focused_error(&self) -> (r: Option<&str>)
        ensures
            match focused_error_of(*self) {
                Some(e) => r matches Some(s) && s@ == e,
                None => r is None,
            },
    {
        match self.focus {
            Stage::Prs => match &self.prs.error {
                Some(e) => Some(e.as_str()),
                None => None,
            },
            Stage::Queue => match &self.queue.error {
                Some(e) => Some(e.as_str()),
                None => None,
            },
            Stage::Builds => match &self.builds.error {
                Some(e) => Some(e.as_str()),
                None => None,
            },
            Stage::Deployed => match &self.deployed.error {
                Some(e) => Some(e.as_str()),
                None => match self.deployed.selected() {
                    Some(row) => match &row.error {
                        Some(e) => Some(e.as_str()),
                        None => None,
                    },
                    None => None,
                },
            },
        }
    }

    /// When the focused column's rows came.
    pub fn focused_fetched_at(&self) -> (r: Option<Stamp>)
        ensures
            r == match self.focus {
                Stage::Prs => self.prs.state.stamp(),
                Stage::Queue => self.queue.state.stamp(),
                Stage::Builds => self.builds.state.stamp(),
                Stage::Deployed => self.deployed.state.stamp(),
            },
    {
        match self.focus {
            Stage::Prs => self.prs.fetched_at(),
            Stage::Queue => self.queue.fetched_at(),
            Stage::Builds => self.builds.fetched_at(),
            Stage::Deployed => self.deployed.fetched_at(),
        }
    }

    /// How many rows the focused column shows and how many it has.
    pub fn focused_counts(&self) -> (r: (usize, usize))
        ensures
            r == match self.focus {
                Stage::Prs => (self.prs.shown().len() as usize, self.prs.rows().len() as usize),
                Stage::Queue => (
                    self.queue.shown().len() as usize,
                    self.queue.rows().len() as usize,
                ),
                Stage::Builds => (
                    self.builds.shown().len() as usize,
                    self.builds.rows().len() as usize,
                ),
                Stage::Deployed => (
                    self.deployed.shown().len() as usize,
                    self.deployed.rows().len() as usize,
                ),
            },
    {
        match self.focus {
            Stage::Prs => (self.prs.visible().len(), self.prs.all().len()),
            Stage::Queue => (self.queue.visible().len(), self.queue.all().len()),
            Stage::Builds => (self.builds.visible().len(), self.builds.all().len()),
            Stage::Deployed => (self.deployed.visible().len(), self.deployed.all().len()),
        }
    }

    /// How many main builds are newer than the one an environment runs: the position of its
    /// sha among the main builds, newest first; nothing when its sha is unknown or not among
    /// them.
    pub fn behind_main(&self, row: &Deployment) -> (r: Option<usize>)
        ensures
            match row.sha {
                Some(sha) => match sha_index(self.builds.rows(), sha@) {
                    Some(i) => r == Some(i as usize),
                    None => r is None,
                },
                None => r is None,
            },
    {
        match &row.sha {
            Some(sha) => position_of_sha(self.builds.all(), sha),
            None => None,
        }
    }

    /// Whether any repository has a deployed system to show.
    pub fn deploy_configured(&self) -> (r: bool)
        ensures
            r == crate::config::deploy_configured_in(self.config),
    {
        self.config.deploy_configured()
    }
}

impl<T> ColumnState<T> {
    pub open spec fn stamp(self) -> Option<Stamp> {
        match self {
            ColumnState::Ready { fetched_at, .. } => Some(fetched_at),
            ColumnState::Loading => None,
        }
    }
}

} // verus!

verus! {

/// The run `first_without_jobs` names has no jobs known.
proof fn lemma_first_without_jobs_unknown(builds: Seq<Build>, jobs: Map<u64, JobsState>)
    ensures
        first_without_jobs(builds, jobs) matches Some(id) ==> !jobs.contains_key(id),
    decreases builds.len(),
{
    if builds.len() > 0 {
        lemma_first_without_jobs_unknown(builds.drop_first(), jobs);
    }
}

/// The jobs of a run are asked for once: once `jobs_needed` marked run `id` as loading, it
/// does not name `id` again.
pub proof fn lemma_jobs_asked_once(before: App, after: App, id: u64)
    requires
        jobs_wanted(before) == Some(id),
        after.jobs@ == before.jobs@.insert(id, JobsState::Loading),
        same_but_jobs(after, before),
    ensures
        jobs_wanted(after) != Some(id),
{
    let failing = after.builds.rows().filter(is_failure());
    let n = if failing.len() < EAGER_JOBS {
        failing.len() as int
    } else {
        EAGER_JOBS as int
    };
    lemma_first_without_jobs_unknown(failing.take(n), after.jobs@);
}

} // verus!

verus! {

/// The filter finds a pull request by `#` and its number, by its title or by its repository,
/// case aside (the query is lowercase): it matches exactly when the query occurs in one of
/// those.
pub proof fn lemma_pull_request_filter(pr: PullRequest, query: Seq<char>)
    ensures
        pr.matches_query(query) <==> (contains(seq!['#'] + decimal(pr.number as nat), query)
            || contains(lowercase_of(pr.title@), query) || contains(
            lowercase_of(pr.repo@),
            query,
        )),
{
}

/// The filter finds a queue entry by `#` and its number, by its title or by its author.
pub proof fn lemma_queue_entry_filter(entry: QueueEntry, query: Seq<char>)
    ensures
        entry.matches_query(query) <==> (contains(seq!['#'] + decimal(entry.number as nat), query)
            || contains(lowercase_of(entry.title@), query) || contains(
            lowercase_of(entry.author@),
            query,
        )),
{
}

/// The filter finds a build by `#` and the number of its pull request (the squash suffix,
/// else the linked pull request), by its title, by its pull request's author or by its sha.
pub proof fn lemma_build_filter(build: Build, query: Seq<char>)
    ensures
        build.matches_query(query) <==> ({
            ||| (build.pr_number matches Some(n) && contains(seq!['#'] + decimal(n as nat), query))
            ||| (build.pr_number is None && (build.pull matches Some(p) && contains(
                seq!['#'] + decimal(p.number as nat),
                query,
            )))
            ||| (build.pr_number is None && build.pull is None && query.len() == 0)
            ||| contains(lowercase_of(build.title@), query)
            ||| (build.pull matches Some(p) && contains(lowercase_of(p.author@), query))
            ||| (build.pull is None && query.len() == 0)
            ||| contains(build.sha@, query)
        }),
{
    assert(contains(Seq::<char>::empty(), query) <==> query.len() == 0) by {
        if query.len() == 0 {
            assert(Seq::<char>::empty().subrange(0, 0) =~= query);
            assert(occurs_at(Seq::<char>::empty(), query, 0));
        }
    }
}

/// The filter finds an environment by its name, by `#` and the number of its pull request,
/// by that pull request's title or author, or by its sha.
pub proof fn lemma_deployment_filter(row: Deployment, query: Seq<char>)
    ensures
        row.matches_query(query) <==> ({
            ||| contains(lowercase_of(row.env@), query)
            ||| (row.pull matches Some(p) && (contains(seq!['#'] + decimal(p.number as nat), query)
                || contains(lowercase_of(p.title@), query) || contains(
                lowercase_of(p.author@),
                query,
            )))
            ||| (row.sha matches Some(s) && contains(s@, query))
            ||| ((row.pull is None || row.sha is None) && query.len() == 0)
        }),
{
    assert(contains(Seq::<char>::empty(), query) <==> query.len() == 0) by {
        if query.len() == 0 {
            assert(Seq::<char>::empty().subrange(0, 0) =~= query);
            assert(occurs_at(Seq::<char>::empty(), query, 0));
        }
    }
}

} // verus!
