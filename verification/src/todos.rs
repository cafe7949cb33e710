//! Session-scoped todo lists.

use vstd::prelude::*;
use crate::paths::{join_path, path_join};

verus! {

/// A single todo item.
#[derive(Debug, Clone)]
pub struct TodoItem {
    pub id: u64,
    pub text: String,
    pub done: bool,
}

/// Persisted todo data for one session.
#[derive(Debug, Clone)]
pub struct TodoData {
    pub items: Vec<TodoItem>,
    pub next_id: u64,
}

/// The number of finished items.
pub open spec fn done_count(items: Seq<TodoItem>) -> nat
    decreases items.len(),
{
    if items.len() == 0 {
        0
    } else {
        done_count(items.drop_last()) + if items.last().done {
            1nat
        } else {
            0nat
        }
    }
}

/// Every item is finished.
pub open spec fn every_done(items: Seq<TodoItem>) -> bool {
    forall|i: int| 0 <= i < items.len() ==> (#[trigger] items[i]).done
}

impl TodoData {
    /// No items; the first item to be added gets id 1.
    pub fn empty() -> (r: Self)
        ensures
            r.items@.len() == 0,
            r.next_id == 1,
    {
        TodoData { items: Vec::new(), next_id: 1 }
    }

    /// The number of items.
    pub fn count_total(&self) -> (r: usize)
        ensures
            r == self.items@.len(),
    {
        self.items.len()
    }

    /// The number of finished items.
    pub fn count_done(&self) -> (r: usize)
        ensures
            r == done_count(self.items@),
    {
        let mut n: usize = 0;
        let mut i: usize = 0;
        while i < self.items.len()
            invariant
                i <= self.items.len(),
                n == done_count(self.items@.take(i as int)),
                n <= i,
            decreases self.items.len() - i,
        {
            assert(self.items@.take(i + 1).drop_last() =~= self.items@.take(i as int));
            if self.items[i].done {
                n = n + 1;
            }
            i = i + 1;
        }
        assert(self.items@.take(i as int) =~= self.items@);
        n
    }

    /// Whether there is at least one item and every item is finished.
    pub fn all_done(&self) -> (r: bool)
        ensures
            r == (self.items@.len() > 0 && every_done(self.items@)),
    {
        if self.items.len() == 0 {
            return false;
        }
        let mut i: usize = 0;
        while i < self.items.len()
            invariant
                i <= self.items.len(),
                forall|j: int| 0 <= j < i ==> (#[trigger] self.items@[j]).done,
            decreases self.items.len() - i,
        {
            if !self.items[i].done {
                return false;
            }
            i = i + 1;
        }
        true
    }
}

/// No more items are finished than there are items, and all of them are
/// finished exactly when the finished count reaches the total.
pub proof fn lemma_done_count_bounds(items: Seq<TodoItem>)
    ensures
        done_count(items) <= items.len(),
        done_count(items) == items.len() <==> every_done(items),
    decreases items.len(),
{
    if items.len() > 0 {
        let d = items.drop_last();
        lemma_done_count_bounds(d);
        if every_done(items) {
            assert forall|i: int| 0 <= i < d.len() implies (#[trigger] d[i]).done by {
                assert(d[i] == items[i]);
            }
        }
        if done_count(items) == items.len() {
            assert forall|i: int| 0 <= i < items.len() implies (#[trigger] items[i]).done by {
                if i < d.len() {
                    assert(d[i] == items[i]);
                }
            }
        }
    }
}

/// The finished count counts each finished item once and nothing else: an
/// empty list has none, and appending an item adds one exactly when that
/// item is finished.
pub proof fn lemma_done_count_push(items: Seq<TodoItem>, x: TodoItem)
    ensures
        done_count(Seq::<TodoItem>::empty()) == 0,
        done_count(items.push(x)) == done_count(items) + if x.done {
            1nat
        } else {
            0nat
        },
{
    assert(items.push(x).drop_last() =~= items);
}

/// The finished count of two lists put together is the sum of their
/// finished counts.
pub proof fn lemma_done_count_concat(a: Seq<TodoItem>, b: Seq<TodoItem>)
    ensures
        done_count(a + b) == done_count(a) + done_count(b),
    decreases b.len(),
{
    if b.len() == 0 {
        assert(a + b =~= a);
    } else {
        lemma_done_count_concat(a, b.drop_last());
        assert((a + b).drop_last() =~= a + b.drop_last());
    }
}

/// A list whose items are all unfinished has a finished count of zero, and
/// one whose items are all finished has its length as finished count.
pub proof fn lemma_done_count_uniform(items: Seq<TodoItem>)
    ensures
        (forall|i: int| 0 <= i < items.len() ==> !(#[trigger] items[i]).done) ==> done_count(items)
            == 0,
        every_done(items) ==> done_count(items) == items.len(),
    decreases items.len(),
{
    if items.len() > 0 {
        let d = items.drop_last();
        lemma_done_count_uniform(d);
        if forall|i: int| 0 <= i < items.len() ==> !(#[trigger] items[i]).done {
            assert forall|i: int| 0 <= i < d.len() implies !(#[trigger] d[i]).done by {
                assert(d[i] == items[i]);
            }
        }
        if every_done(items) {
            assert forall|i: int| 0 <= i < d.len() implies (#[trigger] d[i]).done by {
                assert(d[i] == items[i]);
            }
        }
    }
}

/// A todo list is all done exactly when it is not empty and its finished
/// count equals its total count.
pub proof fn lemma_all_done_iff_counts(data: TodoData)
    ensures
        (data.items@.len() > 0 && every_done(data.items@)) <==> (data.items@.len() > 0 && done_count(
            data.items@,
        ) == data.items@.len()),
        done_count(data.items@) <= data.items@.len(),
{
    lemma_done_count_bounds(data.items@);
}

/// The path of the todos file of the session `session_id` in the workspace
/// at `workspace_root`: `<root>/.nca/sessions/<session_id>.todos.json`.
pub fn todos_path(workspace_root: &str, session_id: &str) -> (r: String)
    ensures
        r@ == path_join(
            path_join(path_join(workspace_root@, ".nca"@), "sessions"@),
            session_id@ + ".todos.json"@,
        ),
{
    let nca = join_path(workspace_root, ".nca");
    let sessions = join_path(nca.as_str(), "sessions");
    let file = String::from_str(session_id).concat(".todos.json");
    let r = join_path(sessions.as_str(), file.as_str());
    r
}

} // verus!
