//! Search execution: the coordinator of the search strategies and its errors.

use vstd::prelude::*;
use crate::search::fts::{fts_error_message, FTSError};
use crate::search::graph::{graph_error_message, GraphError};
use crate::search::signals::{signal_error_message, SignalError};
use crate::search::vector::{vector_error_message, VectorError};
use crate::text::concat;
use std::collections::HashSet;

verus! {

/// Coordinator of the search strategies over one store.
pub struct SearchExecutors<S> {
    store: S,
}

impl<S> SearchExecutors<S> {
    /// A coordinator over the given store.
    pub fn new(store: S) -> (e: Self)
        ensures
            e.store_value() == store,
    {
        SearchExecutors { store }
    }

    /// The store searched.
    pub closed spec fn store_value(&self) -> S {
        self.store
    }

    /// The store searched.
    pub fn store(&self) -> (s: &S)
        ensures
            *s == self.store_value(),
    {
        &self.store
    }
}

/// Errors that can occur during search execution.
#[derive(Debug, Clone, PartialEq, Eq)]
pub enum ExecutorError {
    /// Full-text search error.
    FTS(FTSError),
    /// Vector search error.
    Vector(VectorError),
    /// Graph search error.
    Graph(GraphError),
    /// Signal search error.
    Signal(SignalError),
    /// All searches failed.
    AllFailed,
    /// Database connection error.
    Connection(String),
}

/// The message of an executor error.
pub open spec fn executor_error_message(e: ExecutorError) -> Seq<char> {
    match e {
        ExecutorError::FTS(f) => "FTS search failed: "@ + fts_error_message(f),
        ExecutorError::Vector(v) => "Vector search failed: "@ + vector_error_message(v),
        ExecutorError::Graph(g) => "Graph search failed: "@ + graph_error_message(g),
        ExecutorError::Signal(s) => "Signal search failed: "@ + signal_error_message(s),
        ExecutorError::AllFailed => "All search strategies failed"@,
        ExecutorError::Connection(m) => "Database connection error: "@ + m@,
    }
}

impl ExecutorError {
    /// The error's message.
    pub fn message(&self) -> (s: String)
        ensures
            s@ == executor_error_message(*self),
    {
        match self {
            ExecutorError::FTS(f) => {
                let inner = f.message();
                concat("FTS search failed: ", inner.as_str())
            },
            ExecutorError::Vector(v) => {
                let inner = v.message();
                concat("Vector search failed: ", inner.as_str())
            },
            ExecutorError::Graph(g) => {
                let inner = g.message();
                concat("Graph search failed: ", inner.as_str())
            },
            ExecutorError::Signal(s) => {
                let inner = s.message();
                concat("Signal search failed: ", inner.as_str())
            },
            ExecutorError::AllFailed => "All search strategies failed".to_owned(),
            ExecutorError::Connection(m) => concat("Database connection error: ", m.as_str()),
        }
    }
}

/// The chunk ids found by any of the result lists.
pub open spec fn found_ids(lists: Seq<Seq<i64>>) -> Set<i64> {
    Set::new(
        |x: i64|
            exists|i: int, j: int| 0 <= i < lists.len() && 0 <= j < lists[i].len() && #[trigger] lists[i][j] == x,
    )
}

/// The lists of ids by their contents.
pub open spec fn id_lists(lists: Seq<Vec<i64>>) -> Seq<Seq<i64>> {
    lists.map_values(|v: Vec<i64>| v@)
}

/// The number of distinct chunks found by the search strategies together.
pub fn count_unique_chunks(lists: &Vec<Vec<i64>>) -> (n: usize)
    ensures
        n == found_ids(id_lists(lists@)).len(),
{
    broadcast use vstd::std_specs::hash::group_hash_axioms;

    let ghost ls = id_lists(lists@);
    let mut seen: HashSet<i64> = HashSet::new();
    let mut i: usize = 0;
    while i < lists.len()
        invariant
            i <= lists.len(),
            ls == id_lists(lists@),
            seen@ == found_ids(ls.take(i as int)),
        decreases lists.len() - i,
    {
        let list = &lists[i];
        let mut j: usize = 0;
        while j < list.len()
            invariant
                i < lists.len(),
                ls == id_lists(lists@),
                list@ == ls[i as int],
                j <= list.len(),
                seen@ == found_ids(ls.take(i as int)).union(list@.take(j as int).to_set()),
            decreases list.len() - j,
        {
            seen.insert(list[j]);
            proof {
                assert(list@.take(j + 1) =~= list@.take(j as int).push(list@[j as int]));
                list@.take(j as int).lemma_push_to_set_commute(list@[j as int]);
            }
            j = j + 1;
        }
        proof {
            assert(list@.take(list@.len() as int) =~= list@);
            let before = ls.take(i as int);
            let after = ls.take(i + 1);
            assert forall|x: i64| found_ids(after).contains(x) == (found_ids(before).contains(x)
                || list@.to_set().contains(x)) by {
                if found_ids(after).contains(x) {
                    let (a, b) = choose|a: int, b: int|
                        0 <= a < after.len() && 0 <= b < after[a].len() && #[trigger] after[a][b] == x;
                    if a < i {
                        assert(before[a][b] == x);
                    } else {
                        assert(list@[b] == x);
                    }
                }
                if found_ids(before).contains(x) {
                    let (a, b) = choose|a: int, b: int|
                        0 <= a < before.len() && 0 <= b < before[a].len() && #[trigger] before[a][b] == x;
                    assert(after[a][b] == x);
                }
                if list@.to_set().contains(x) {
                    let b = choose|b: int| 0 <= b < list@.len() && list@[b] == x;
                    assert(after[i as int][b] == x);
                }
            }
            assert(seen@ =~= found_ids(after));
        }
        i = i + 1;
    }
    assert(ls.take(lists.len() as int) =~= ls);
    seen.len()
}

} // verus!
