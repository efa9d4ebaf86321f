//! The frontier of a crawl: the paths still to visit, oldest first, and the
//! set of paths that were ever sent out. A path is sent out once at most.

use std::collections::VecDeque;
use vstd::hash_set::StringHashSet;
use vstd::prelude::*;
use vstd::string::StringExecFns;

verus! {

/// The path of the root page as the seen-set knows it.
pub open spec fn root_path() -> Seq<char> {
    "/"@
}

/// A queue entry that still calls for a visit: it is not empty and was
/// never sent out. Paths are told apart by their spelling alone, so two
/// spellings of one address count as two paths.
pub open spec fn is_fresh(path: Seq<char>, seen: Set<Seq<char>>) -> bool {
    path.len() > 0 && !seen.contains(path)
}

/// How many entries at the head of the queue call for no visit.
pub open spec fn stale_prefix(queue: Seq<Seq<char>>, seen: Set<Seq<char>>) -> nat
    decreases queue.len(),
{
    if queue.len() == 0 || is_fresh(queue[0], seen) {
        0
    } else {
        1 + stale_prefix(queue.drop_first(), seen)
    }
}

/// The frontier as contracts see it.
pub struct FrontierView {
    /// How many paths may be sent out, the root among them; 0 for no limit.
    pub limit: nat,
    /// The paths still to visit, oldest first.
    pub queue: Seq<Seq<char>>,
    /// The paths that were sent out.
    pub seen: Set<Seq<char>>,
}

impl FrontierView {
    /// What holds of every frontier: the root counts as sent out from the
    /// start, and a limit is never passed.
    pub open spec fn wf(self) -> bool {
        &&& self.seen.finite()
        &&& self.seen.contains(root_path())
        &&& self.limit > 0 ==> self.seen.len() <= self.limit
    }

    /// The frontier of a crawl that has not begun.
    pub open spec fn start(limit: nat) -> FrontierView {
        FrontierView { limit, queue: Seq::empty(), seen: set![root_path()] }
    }

    /// No further path may be sent out.
    pub open spec fn limit_reached(self) -> bool {
        self.limit > 0 && self.seen.len() >= self.limit
    }

    /// The path to visit next: the oldest fresh entry of the queue, unless
    /// there is none or the limit is reached.
    pub open spec fn next_path(self) -> Option<Seq<char>> {
        let stale = stale_prefix(self.queue, self.seen) as int;
        if stale < self.queue.len() && !self.limit_reached() {
            Some(self.queue[stale])
        } else {
            None
        }
    }

    /// The frontier once the next path is taken from it. The path is in the
    /// seen-set then, and the queue holds what stood behind it. With no
    /// path to take, the queue is dropped.
    pub open spec fn after_next(self) -> FrontierView {
        let stale = stale_prefix(self.queue, self.seen) as int;
        match self.next_path() {
            Some(path) => FrontierView {
                limit: self.limit,
                queue: self.queue.skip(stale + 1),
                seen: self.seen.insert(path),
            },
            None => FrontierView { limit: self.limit, queue: Seq::empty(), seen: self.seen },
        }
    }

    /// The frontier with more paths at the back of its queue.
    pub open spec fn with(self, paths: Seq<Seq<char>>) -> FrontierView {
        FrontierView { limit: self.limit, queue: self.queue + paths, seen: self.seen }
    }
}

/// The number of stale entries at the head of a queue is told by what it
/// counts: every entry before it is stale, and the entry at it, if there is
/// one, is fresh.
pub proof fn lemma_stale_prefix(queue: Seq<Seq<char>>, seen: Set<Seq<char>>, count: int)
    requires
        0 <= count <= queue.len(),
        forall|j: int| 0 <= j < count ==> !is_fresh(#[trigger] queue[j], seen),
        count < queue.len() ==> is_fresh(queue[count], seen),
    ensures
        stale_prefix(queue, seen) == count,
    decreases queue.len(),
{
    if queue.len() == 0 || is_fresh(queue[0], seen) {
    } else {
        let rest = queue.drop_first();
        assert forall|j: int| 0 <= j < count - 1 implies !is_fresh(#[trigger] rest[j], seen) by {
            assert(rest[j] == queue[j + 1]);
        }
        lemma_stale_prefix(rest, seen, count - 1);
    }
}

/// What the number of stale entries at the head of a queue says of the
/// queue: it is no more than the queue is long, every entry before it is
/// stale, and the entry at it, if there is one, is fresh.
pub proof fn lemma_stale_prefix_counts(queue: Seq<Seq<char>>, seen: Set<Seq<char>>)
    ensures
        stale_prefix(queue, seen) <= queue.len(),
        forall|j: int| 0 <= j < stale_prefix(queue, seen) ==> !is_fresh(#[trigger] queue[j], seen),
        stale_prefix(queue, seen) < queue.len() ==> is_fresh(
            queue[stale_prefix(queue, seen) as int],
            seen,
        ),
    decreases queue.len(),
{
    if queue.len() == 0 || is_fresh(queue[0], seen) {
    } else {
        let rest = queue.drop_first();
        lemma_stale_prefix_counts(rest, seen);
        let count = stale_prefix(queue, seen);
        assert forall|j: int| 0 <= j < count implies !is_fresh(#[trigger] queue[j], seen) by {
            if j > 0 {
                assert(queue[j] == rest[j - 1]);
            }
        }
        if count < queue.len() {
            assert(queue[count as int] == rest[count - 1]);
        }
    }
}

/// Taking the next path keeps a frontier in order. The path taken was
/// fresh, and it is the one path that joins the seen-set; where none is
/// taken the seen-set stays as it is.
pub proof fn lemma_next_keeps_order(frontier: FrontierView)
    requires
        frontier.wf(),
    ensures
        frontier.after_next().wf(),
        frontier.after_next().limit == frontier.limit,
        match frontier.next_path() {
            Some(path) => is_fresh(path, frontier.seen) && frontier.after_next().seen
                == frontier.seen.insert(path),
            None => frontier.after_next().seen == frontier.seen && frontier.after_next().queue.len()
                == 0,
        },
{
    lemma_stale_prefix_counts(frontier.queue, frontier.seen);
}

/// Without a limit, a frontier has a next path as long as its queue holds
/// a fresh entry.
pub proof fn lemma_no_limit_no_stop(frontier: FrontierView)
    requires
        frontier.limit == 0,
    ensures
        frontier.next_path() is None <==> forall|j: int|
            0 <= j < frontier.queue.len() ==> !is_fresh(#[trigger] frontier.queue[j], frontier.seen),
{
    lemma_stale_prefix_counts(frontier.queue, frontier.seen);
}

/// The queue and the seen-set of one crawl.
pub struct Frontier {
    limit: u32,
    queue: VecDeque<String>,
    seen: StringHashSet,
}

impl View for Frontier {
    type V = FrontierView;

    closed spec fn view(&self) -> FrontierView {
        FrontierView { limit: self.limit as nat, queue: self.queue.deep_view(), seen: self.seen@ }
    }
}

impl Frontier {
    /// What holds of every frontier.
    pub open spec fn wf(&self) -> bool {
        self@.wf()
    }

    /// The frontier of a crawl that has not begun: nothing queued, the root
    /// counted as sent out.
    pub fn new(limit: u32) -> (frontier: Frontier)
        ensures
            frontier.wf(),
            frontier@ == FrontierView::start(limit as nat),
    {
        let mut seen = StringHashSet::new();
        seen.insert(String::from_str("/"));
        let queue: VecDeque<String> = VecDeque::new();
        assert(queue.deep_view() =~= Seq::empty());
        Frontier { limit, queue, seen }
    }

    /// The limit this frontier keeps; 0 for none.
    pub fn limit(&self) -> (limit: u32)
        ensures
            limit == self@.limit,
    {
        self.limit
    }

    /// How many paths were sent out, the root among them.
    pub fn seen_count(&self) -> (count: usize)
        ensures
            count == self@.seen.len(),
    {
        self.seen.len()
    }

    /// How many paths wait in the queue.
    pub fn queued(&self) -> (count: usize)
        ensures
            count == self@.queue.len(),
    {
        self.queue.len()
    }

    /// Tells whether a path was sent out.
    pub fn has_seen(&self, path: &str) -> (yes: bool)
        ensures
            yes == self@.seen.contains(path@),
    {
        self.seen.contains(path)
    }

    /// Puts paths at the back of the queue, in their order.
    pub fn enqueue(&mut self, paths: VecDeque<String>)
        requires
            old(self).wf(),
        ensures
            final(self).wf(),
            final(self)@ == old(self)@.with(paths.deep_view()),
    {
        let mut paths = paths;
        let ghost added = paths.deep_view();
        let ghost before = self.queue.deep_view();
        self.queue.append(&mut paths);
        assert(self.queue.deep_view() =~= before + added);
    }

    /// Takes the next path to visit: the oldest entry of the queue that is
    /// not empty and was never sent out. The entries before it are dropped.
    /// The path is marked as sent out before it is handed over. Where the
    /// queue holds no such entry, or the limit is reached, there is no next
    /// path, and the queue is dropped.
    pub fn next(&mut self) -> (path: Option<String>)
        requires
            old(self).wf(),
        ensures
            final(self).wf(),
            final(self)@ == old(self)@.after_next(),
            match path {
                Some(path) => old(self)@.next_path() == Some(path@),
                None => old(self)@.next_path() is None,
            },
    {
        let ghost queue = self@.queue;
        let ghost seen = self@.seen;
        let ghost mut dropped: int = 0;
        loop
            invariant
                self.wf(),
                self@.limit == old(self)@.limit,
                self@.seen == seen,
                seen == old(self)@.seen,
                queue == old(self)@.queue,
                0 <= dropped <= queue.len(),
                self@.queue == queue.skip(dropped),
                forall|j: int| 0 <= j < dropped ==> !is_fresh(#[trigger] queue[j], seen),
            decreases queue.len() - dropped,
        {
            let ghost waiting = self.queue.deep_view();
            match self.queue.pop_front() {
                None => {
                    proof {
                        lemma_stale_prefix(queue, seen, dropped);
                        assert(self.queue.deep_view() =~= Seq::empty());
                    }
                    return None;
                },
                Some(path) => {
                    assert(path@ == waiting[0]);
                    assert(self.queue.deep_view() =~= waiting.skip(1));
                    assert(waiting.skip(1) =~= queue.skip(dropped + 1));
                    if path.as_str().is_empty() || self.seen.contains(path.as_str()) {
                        proof {
                            dropped = dropped + 1;
                        }
                    } else {
                        proof {
                            lemma_stale_prefix(queue, seen, dropped);
                        }
                        if self.limit > 0 && self.limit as usize <= self.seen.len() {
                            self.queue.clear();
                            assert(self.queue.deep_view() =~= Seq::empty());
                            return None;
                        }
                        self.seen.insert(path.clone());
                        return Some(path);
                    }
                },
            }
        }
    }
}

} // verus!
