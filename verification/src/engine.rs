//! The crawl engine: frontier, per-URL claims, page processing and
//! exact termination detection, as one verified state machine.
//!
//! One crawl run is driven by repeating two transitions. `next_step`
//! takes the next queued task and either discards it (depth exhausted,
//! or the URL already claimed), claims its URL and asks the caller to
//! fetch the page, or reports that the run is idle or done. After the
//! fetch, `finish_task` records the match found on the page, queues the
//! page's same-host links one level deeper, and retires the task. The
//! caller performs only the fetch; every decision is made here.
//!
//! Completion is detected by counting, not by waiting: a task is in
//! flight from the moment it is enqueued until `next_step` discards it
//! or `finish_task` retires it, so the in-flight count equals the queued
//! tasks plus the tasks handed out for fetching. The run is over exactly
//! when it reaches zero; `is_done` observes that in one read of the
//! state.

use vstd::prelude::*;
use crate::html::extract_hrefs;
use crate::html::hrefs_of;
use crate::html::visible_text;
use crate::html::visible_text_of;
use crate::links::PageUrl;
use crate::links::UrlModel;
use crate::links::resolve_link;
use crate::links::resolve_spec;
use crate::matcher::SnippetModel;
use crate::matcher::find_match;
use crate::matcher::find_spec;
use crate::store::EntryModel;
use crate::store::MatchEntry;
use crate::store::VisitedStore;
use crate::store::matches_of;

verus! {

/// The mathematical value of a crawl task.
pub ghost struct TaskModel {
    pub url: UrlModel,
    pub remaining_depth: nat,
}

/// One unit of crawl work: a page to fetch, and how many further hops
/// of links below it may still be followed.
pub struct CrawlTask {
    pub url: PageUrl,
    pub remaining_depth: usize,
}

impl View for CrawlTask {
    type V = TaskModel;

    open spec fn view(&self) -> TaskModel {
        TaskModel { url: self.url@, remaining_depth: self.remaining_depth as nat }
    }
}

/// What `next_step` asks of the caller.
pub enum Step {
    /// No work is queued and none is in flight: the run is complete.
    Done,
    /// The queue is empty but tasks are still being processed; their
    /// links may yet enqueue more work.
    Idle,
    /// A task was discarded without a fetch: its depth was exhausted or
    /// its URL already claimed.
    Skipped,
    /// The task's URL has been claimed; fetch its page and hand the
    /// outcome to `finish_task`.
    Fetch(CrawlTask),
}

/// What a fetch came back with: the page body, or any failure (network
/// error, non-success status, or a timeout of that one fetch).
pub enum FetchOutcome {
    Failed,
    Fetched(String),
}

/// The final result of a run: how many pages were attempted, and the
/// snippet found for each matching URL.
pub struct Report {
    pub pages_attempted: usize,
    pub matches: Vec<MatchEntry>,
}

/// The tasks that processing a page enqueues: one task at depth `d` for
/// each reference in `hrefs`, in order, that resolves against `base` to
/// an address on `base`'s own host and is not yet claimed. References
/// off the host, unresolvable ones and claimed ones are dropped.
pub open spec fn child_tasks(
    claimed: Set<Seq<char>>,
    base: UrlModel,
    hrefs: Seq<Seq<char>>,
    d: nat,
) -> Seq<TaskModel>
    decreases hrefs.len(),
{
    if hrefs.len() == 0 {
        Seq::empty()
    } else {
        let rest = child_tasks(claimed, base, hrefs.drop_last(), d);
        match resolve_spec(base, hrefs.last()) {
            Some(u) => if !claimed.contains(u.full) {
                rest.push(TaskModel { url: u, remaining_depth: d })
            } else {
                rest
            },
            None => rest,
        }
    }
}

/// Depth decreases along every crawl path: each task created from a
/// page carries exactly the depth `d` its parent had left minus one (the
/// caller passes that `d`), and stays on the parent page's host.
pub proof fn lemma_child_tasks_ok(
    claimed: Set<Seq<char>>,
    base: UrlModel,
    hrefs: Seq<Seq<char>>,
    d: nat,
)
    ensures
        forall|k: int| 0 <= k < child_tasks(claimed, base, hrefs, d).len() ==> {
            &&& (#[trigger] child_tasks(claimed, base, hrefs, d)[k]).remaining_depth == d
            &&& child_tasks(claimed, base, hrefs, d)[k].url.host == base.host
            &&& !claimed.contains(child_tasks(claimed, base, hrefs, d)[k].url.full)
        },
    decreases hrefs.len(),
{
    if hrefs.len() > 0 {
        lemma_child_tasks_ok(claimed, base, hrefs.drop_last(), d);
        let rest = child_tasks(claimed, base, hrefs.drop_last(), d);
        let whole = child_tasks(claimed, base, hrefs, d);
        assert forall|k: int| 0 <= k < whole.len() implies {
            &&& (#[trigger] whole[k]).remaining_depth == d
            &&& whole[k].url.host == base.host
            &&& !claimed.contains(whole[k].url.full)
        } by {
            if k < rest.len() {
                assert(whole[k] == rest[k]);
                assert(rest[k].remaining_depth == d);
            } else {
                assert(whole[k] == whole.last());
            }
        }
    }
}

/// The state of one crawl run.
pub struct Crawler {
    /// The phrase searched for on every page.
    pub query: String,
    /// How many characters of context to keep on each side of a match.
    pub range: usize,
    /// The host of the seed address; every task stays on it.
    pub seed_host: String,
    /// The depth the run started with; no task ever exceeds it.
    pub seed_depth: usize,
    /// The queued tasks, not yet begun.
    pub frontier: Vec<CrawlTask>,
    /// Every claimed URL, with the snippet found on its page, if any.
    pub visited: VisitedStore,
    /// How many pages the run has claimed for fetching.
    pub pages_attempted: usize,
    /// How many tasks have been handed out by `next_step` and not yet
    /// given back to `finish_task`.
    pub active: usize,
}

impl Crawler {
    /// The queued tasks, mathematically.
    pub open spec fn frontier_model(self) -> Seq<TaskModel> {
        self.frontier@.map_values(|t: CrawlTask| t@)
    }

    /// True when `u` has been claimed by some task of this run.
    pub open spec fn claimed(self, u: Seq<char>) -> bool {
        self.visited.contains_url(u)
    }

    /// The set of claimed URLs.
    pub open spec fn claimed_set(self) -> Set<Seq<char>> {
        Set::new(|u: Seq<char>| self.claimed(u))
    }

    /// The number of tasks enqueued but not yet fully processed: the
    /// queued ones plus those handed out for fetching. The run is
    /// complete exactly when this reaches zero.
    pub open spec fn in_flight(self) -> nat {
        self.frontier@.len() + self.active as nat
    }

    /// A task this run may hold: within the seed depth, on the seed host.
    pub open spec fn task_ok(self, t: TaskModel) -> bool {
        &&& t.remaining_depth <= self.seed_depth
        &&& t.url.host == self.seed_host@
    }

    /// The run's invariant: the store holds each URL once, the page
    /// counter counts exactly the claimed URLs, no more tasks are out
    /// for fetching than URLs were claimed, and every queued task is
    /// within the seed depth and on the seed host.
    pub open spec fn wf(self) -> bool {
        &&& self.visited.wf()
        &&& self.pages_attempted == self.visited.model().len()
        &&& self.active <= self.visited.model().len()
        &&& forall|i: int|
            0 <= i < self.frontier_model().len() ==> self.task_ok(
                #[trigger] self.frontier_model()[i],
            )
    }

    /// True when the two states run with the same query, range, seed
    /// host and seed depth.
    pub open spec fn same_config(self, other: Crawler) -> bool {
        &&& self.query@ == other.query@
        &&& self.range == other.range
        &&& self.seed_host@ == other.seed_host@
        &&& self.seed_depth == other.seed_depth
    }

    /// Starts a run: nothing claimed, no page attempted, and exactly one
    /// task in flight — the seed at the full depth.
    pub fn new(seed: PageUrl, query: String, depth: usize, range: usize) -> (c: Crawler)
        ensures
            c.wf(),
            c.query@ == query@,
            c.range == range,
            c.seed_depth == depth,
            c.seed_host@ == seed@.host,
            c.frontier_model() == seq![TaskModel { url: seed@, remaining_depth: depth as nat }],
            c.visited.model() == Seq::<EntryModel>::empty(),
            c.pages_attempted == 0,
            c.active == 0,
            c.in_flight() == 1,
    {
        let seed_host: String = seed.host.clone();
        let mut frontier: Vec<CrawlTask> = Vec::new();
        frontier.push(CrawlTask { url: seed, remaining_depth: depth });
        let c = Crawler {
            query: query,
            range: range,
            seed_host: seed_host,
            seed_depth: depth,
            frontier: frontier,
            visited: VisitedStore::new(),
            pages_attempted: 0,
            active: 0,
        };
        proof {
            assert(c.frontier_model() =~= seq![
                TaskModel { url: c.frontier@[0].url@, remaining_depth: depth as nat },
            ]);
        }
        c
    }

    /// True exactly when no task is in flight any more: the caller may
    /// assemble the report and stop all workers.
    pub fn is_done(&self) -> (done: bool)
        ensures
            done == (self.in_flight() == 0),
    {
        self.frontier.len() == 0 && self.active == 0
    }

    /// True when `url` has already been claimed by some task.
    pub fn url_claimed(&self, url: &String) -> (b: bool)
        ensures
            b == self.claimed(url@),
    {
        self.visited.is_claimed(url)
    }

    /// Takes the next queued task. A task whose depth is exhausted, or
    /// whose URL was claimed in the meantime, is discarded and leaves
    /// the in-flight count one lower. Otherwise the task's URL is
    /// claimed — at most one `Fetch` is ever issued per URL — the page
    /// counter moves, and the task is handed out; the in-flight count is
    /// unchanged. `Done` is returned exactly when nothing is in flight.
    pub fn next_step(&mut self) -> (s: Step)
        requires
            old(self).wf(),
        ensures
            final(self).wf(),
            final(self).same_config(*old(self)),
            forall|u: Seq<char>| old(self).claimed(u) ==> final(self).claimed(u),
            match s {
                Step::Done => {
                    &&& old(self).in_flight() == 0
                    &&& final(self).frontier_model() == old(self).frontier_model()
                    &&& final(self).visited.model() == old(self).visited.model()
                    &&& final(self).pages_attempted == old(self).pages_attempted
                    &&& final(self).active == old(self).active
                },
                Step::Idle => {
                    &&& old(self).in_flight() > 0
                    &&& old(self).frontier@.len() == 0
                    &&& final(self).frontier_model() == old(self).frontier_model()
                    &&& final(self).visited.model() == old(self).visited.model()
                    &&& final(self).pages_attempted == old(self).pages_attempted
                    &&& final(self).active == old(self).active
                },
                Step::Skipped => {
                    &&& old(self).frontier@.len() > 0
                    &&& {
                        let t = old(self).frontier_model().last();
                        t.remaining_depth == 0 || old(self).claimed(t.url.full)
                    }
                    &&& final(self).frontier_model() == old(self).frontier_model().drop_last()
                    &&& final(self).visited.model() == old(self).visited.model()
                    &&& final(self).pages_attempted == old(self).pages_attempted
                    &&& final(self).active == old(self).active
                    &&& final(self).in_flight() + 1 == old(self).in_flight()
                },
                Step::Fetch(t) => {
                    &&& old(self).frontier@.len() > 0
                    &&& t@ == old(self).frontier_model().last()
                    &&& t.remaining_depth >= 1
                    &&& t@.remaining_depth <= final(self).seed_depth
                    &&& t@.url.host == final(self).seed_host@
                    &&& !old(self).claimed(t@.url.full)
                    &&& final(self).claimed(t@.url.full)
                    &&& final(self).frontier_model() == old(self).frontier_model().drop_last()
                    &&& final(self).visited.model() == old(self).visited.model().push(
                        EntryModel { url: t@.url.full, snippet: None::<SnippetModel> },
                    )
                    &&& final(self).pages_attempted == old(self).pages_attempted + 1
                    &&& final(self).active == old(self).active + 1
                    &&& final(self).in_flight() == old(self).in_flight()
                },
            },
    {
        let popped = self.frontier.pop();
        match popped {
            None => {
                if self.active == 0 {
                    Step::Done
                } else {
                    Step::Idle
                }
            },
            Some(t) => {
                proof {
                    assert(old(self).frontier_model()[old(self).frontier_model().len() - 1]
                        == t@);
                    assert(self.frontier_model() =~= old(self).frontier_model().drop_last());
                }
                if t.remaining_depth == 0 {
                    return Step::Skipped;
                }
                let granted = self.visited.try_claim(&t.url.full);
                if !granted {
                    return Step::Skipped;
                }
                let n = self.visited.num_entries();
                self.pages_attempted = n;
                proof {
                    assert(self.active < n);
                }
                self.active = self.active + 1;
                Step::Fetch(t)
            },
        }
    }

    /// Retires a task handed out by `next_step`, given what its fetch
    /// came back with. A failed fetch changes nothing but the in-flight
    /// count: the URL stays recorded as visited without a match, and
    /// every queued task is left to be processed. On a fetched body, the
    /// first occurrence of the query in the page's visible text is
    /// recorded, and one task per new same-host link is enqueued, one
    /// level deeper; the set of claimed URLs does not change here.
    pub fn finish_task(&mut self, task: &CrawlTask, outcome: FetchOutcome)
        requires
            old(self).wf(),
            old(self).active >= 1,
            task.remaining_depth >= 1,
            task@.remaining_depth <= old(self).seed_depth,
            task@.url.host == old(self).seed_host@,
            old(self).claimed(task@.url.full),
        ensures
            final(self).wf(),
            final(self).same_config(*old(self)),
            final(self).active + 1 == old(self).active,
            final(self).pages_attempted == old(self).pages_attempted,
            forall|u: Seq<char>| final(self).claimed(u) == old(self).claimed(u),
            match outcome {
                FetchOutcome::Failed => {
                    &&& final(self).frontier_model() == old(self).frontier_model()
                    &&& final(self).visited.model() == old(self).visited.model()
                    &&& final(self).in_flight() + 1 == old(self).in_flight()
                },
                FetchOutcome::Fetched(body) => {
                    &&& ({
                        let text = visible_text_of(body@);
                        match find_spec(text, old(self).query@, old(self).range as nat) {
                            Some(snv) => final(self).visited.model() == old(
                                self,
                            ).visited.model().update(
                                old(self).visited.index_of(task@.url.full),
                                EntryModel { url: task@.url.full, snippet: Some(snv) },
                            ),
                            None => final(self).visited.model() == old(self).visited.model(),
                        }
                    })
                    &&& final(self).frontier_model() == old(self).frontier_model()
                        + child_tasks(
                        old(self).claimed_set(),
                        task@.url,
                        hrefs_of(body@),
                        (task@.remaining_depth - 1) as nat,
                    )
                    &&& final(self).in_flight() + 1 == old(self).in_flight() + child_tasks(
                        old(self).claimed_set(),
                        task@.url,
                        hrefs_of(body@),
                        (task@.remaining_depth - 1) as nat,
                    ).len()
                },
            },
    {
        self.active = self.active - 1;
        match outcome {
            FetchOutcome::Failed => {
                proof {
                    assert forall|i: int|
                        0 <= i < self.frontier_model().len() implies self.task_ok(
                        #[trigger] self.frontier_model()[i],
                    ) by {
                        assert(old(self).task_ok(old(self).frontier_model()[i]));
                    }
                }
            },
            FetchOutcome::Fetched(body) => {
                let text = visible_text(body.as_str());
                match find_match(text.as_str(), self.query.as_str(), self.range) {
                    Some(sn) => {
                        self.visited.record_match(&task.url.full, sn);
                    },
                    None => {},
                }
                let ghost visited_mid = self.visited.model();
                let hrefs = extract_hrefs(body.as_str());
                let ghost hrefs_m = hrefs_of(body@);
                let ghost d = (task@.remaining_depth - 1) as nat;
                let ghost claimed0 = old(self).claimed_set();
                let child_depth: usize = task.remaining_depth - 1;
                let nh: usize = hrefs.len();
                proof {
                    assert(hrefs@.map_values(|s: String| s@) == hrefs_m);
                    assert(hrefs_m.take(0) =~= Seq::<Seq<char>>::empty());
                    assert(self.frontier_model() =~= old(self).frontier_model() + child_tasks(
                        claimed0,
                        task@.url,
                        hrefs_m.take(0),
                        d,
                    ));
                }
                let mut k: usize = 0;
                while k < nh
                    invariant
                        old(self).wf(),
                        task.remaining_depth >= 1,
                        task@.remaining_depth <= old(self).seed_depth,
                        task@.url.host == old(self).seed_host@,
                        nh == hrefs@.len(),
                        k <= nh,
                        hrefs_m == hrefs@.map_values(|s: String| s@),
                        d == (task@.remaining_depth - 1) as nat,
                        child_depth as nat == d,
                        claimed0 == old(self).claimed_set(),
                        self.query@ == old(self).query@,
                        self.range == old(self).range,
                        self.seed_host@ == old(self).seed_host@,
                        self.seed_depth == old(self).seed_depth,
                        self.pages_attempted == old(self).pages_attempted,
                        self.active + 1 == old(self).active,
                        self.visited.model() == visited_mid,
                        self.visited.wf(),
                        visited_mid.len() == old(self).visited.model().len(),
                        forall|u: Seq<char>| self.claimed(u) == old(self).claimed(u),
                        self.frontier_model() == old(self).frontier_model() + child_tasks(
                            claimed0,
                            task@.url,
                            hrefs_m.take(k as int),
                            d,
                        ),
                        forall|i: int|
                            0 <= i < self.frontier_model().len() ==> self.task_ok(
                                #[trigger] self.frontier_model()[i],
                            ),
                    decreases nh - k,
                {
                    let ghost prefix = hrefs_m.take(k as int);
                    let ghost next_prefix = hrefs_m.take(k + 1);
                    proof {
                        assert(next_prefix.drop_last() =~= prefix);
                        assert(next_prefix.last() == hrefs_m[k as int]);
                        assert(hrefs_m[k as int] == hrefs@[k as int]@);
                    }
                    match resolve_link(&task.url, hrefs[k].as_str()) {
                        Some(u) => {
                            let fresh = !self.visited.is_claimed(&u.full);
                            if fresh {
                                let ghost um = u@;
                                proof {
                                    assert(!claimed0.contains(um.full));
                                }
                                let ghost fm = self.frontier_model();
                                self.frontier.push(
                                    CrawlTask { url: u, remaining_depth: child_depth },
                                );
                                proof {
                                    assert(self.frontier_model() =~= fm.push(
                                        TaskModel { url: um, remaining_depth: d },
                                    ));
                                    assert(self.frontier_model() =~= old(
                                        self,
                                    ).frontier_model() + child_tasks(
                                        claimed0,
                                        task@.url,
                                        next_prefix,
                                        d,
                                    ));
                                }
                            } else {
                                proof {
                                    assert(claimed0.contains(u@.full));
                                    assert(child_tasks(claimed0, task@.url, next_prefix, d)
                                        =~= child_tasks(claimed0, task@.url, prefix, d));
                                }
                            }
                        },
                        None => {
                            proof {
                                assert(child_tasks(claimed0, task@.url, next_prefix, d)
                                    =~= child_tasks(claimed0, task@.url, prefix, d));
                            }
                        },
                    }
                    k += 1;
                }
                proof {
                    assert(hrefs_m.take(nh as int) =~= hrefs_m);
                }
            },
        }
    }

    /// The run's result: the pages-attempted count and, for every URL
    /// whose page held the query, the snippet around its first
    /// occurrence, in the order the URLs were claimed.
    pub fn report(&self) -> (r: Report)
        ensures
            r.pages_attempted == self.pages_attempted,
            r.matches@.map_values(|m: MatchEntry| m@) == matches_of(self.visited.model()),
    {
        Report {
            pages_attempted: self.pages_attempted,
            matches: self.visited.collect_matches(),
        }
    }
}

/// Termination is detected exactly, with no waiting on a clock: the
/// in-flight count is zero precisely when no task is queued and none is
/// out being fetched, so a finished crawl is recognized the moment its
/// last task retires.
pub proof fn lemma_completion_exact(c: Crawler)
    ensures
        (c.in_flight() == 0) <==> (c.frontier@.len() == 0 && c.active == 0),
{
}

/// Every task a well-formed run holds is within the seed depth and on
/// the seed host: depth never grows along a crawl path, and a foreign
/// host is never queued, claimed or fetched.
pub proof fn lemma_frontier_tasks_ok(c: Crawler, i: int)
    requires
        c.wf(),
        0 <= i < c.frontier_model().len(),
    ensures
        c.frontier_model()[i].remaining_depth <= c.seed_depth,
        c.frontier_model()[i].url.host == c.seed_host@,
{
}

} // verus!
