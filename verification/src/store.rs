//! The visited/result store: one entry per claimed URL, holding the
//! match snippet once one is recorded. Claiming is the single
//! deduplication gate of a crawl: `try_claim` grants a URL at most once.

use vstd::prelude::*;
use crate::matcher::Snippet;
use crate::matcher::SnippetModel;

verus! {

/// The mathematical value of one store entry.
pub ghost struct EntryModel {
    pub url: Seq<char>,
    pub snippet: Option<SnippetModel>,
}

/// One claimed URL, and the snippet found on its page, if any.
pub struct StoreEntry {
    pub url: String,
    pub snippet: Option<Snippet>,
}

impl View for StoreEntry {
    type V = EntryModel;

    open spec fn view(&self) -> EntryModel {
        EntryModel {
            url: self.url@,
            snippet: match self.snippet {
                Some(sn) => Some(sn@),
                None => None,
            },
        }
    }
}

/// One reported match: a URL and the snippet found on its page.
pub struct MatchEntry {
    pub url: String,
    pub snippet: Snippet,
}

/// The mathematical value of one reported match.
pub ghost struct MatchModel {
    pub url: Seq<char>,
    pub snippet: SnippetModel,
}

impl View for MatchEntry {
    type V = MatchModel;

    open spec fn view(&self) -> MatchModel {
        MatchModel { url: self.url@, snippet: self.snippet@ }
    }
}

/// True when some entry of `s` holds the URL `u`.
pub open spec fn seq_contains_url(s: Seq<EntryModel>, u: Seq<char>) -> bool {
    exists|i: int| 0 <= i < s.len() && s[i].url == u
}

/// True when a claim of `u` against a store with entries `s` is granted:
/// only a URL no entry holds yet can be claimed.
pub open spec fn claim_granted(s: Seq<EntryModel>, u: Seq<char>) -> bool {
    !seq_contains_url(s, u)
}

/// The matches among the entries of `s`, in store order: the URL and
/// snippet of every entry that holds one.
pub open spec fn matches_of(s: Seq<EntryModel>) -> Seq<MatchModel>
    decreases s.len(),
{
    if s.len() == 0 {
        Seq::empty()
    } else {
        let rest = matches_of(s.drop_last());
        match s.last().snippet {
            Some(sn) => rest.push(MatchModel { url: s.last().url, snippet: sn }),
            None => rest,
        }
    }
}

/// The shared visited/result store of one crawl run.
pub struct VisitedStore {
    pub entries: Vec<StoreEntry>,
}

impl VisitedStore {
    /// The store's mathematical value: its entries, in insertion order.
    pub open spec fn model(self) -> Seq<EntryModel> {
        self.entries@.map_values(|e: StoreEntry| e@)
    }

    /// True when `u` has been claimed.
    pub open spec fn contains_url(self, u: Seq<char>) -> bool {
        seq_contains_url(self.model(), u)
    }

    /// The position of `u`'s entry (meaningful only when `u` is claimed).
    pub open spec fn index_of(self, u: Seq<char>) -> int {
        choose|i: int| 0 <= i < self.model().len() && self.model()[i].url == u
    }

    /// Each URL is held by at most one entry.
    pub open spec fn wf(self) -> bool {
        forall|i: int, j: int|
            0 <= i < j < self.model().len() ==> (#[trigger] self.model()[i]).url != (
            #[trigger] self.model()[j]).url
    }

    /// An empty store: no URL is claimed.
    pub fn new() -> (s: Self)
        ensures
            s.wf(),
            s.model() == Seq::<EntryModel>::empty(),
    {
        let s = VisitedStore { entries: Vec::new() };
        proof {
            assert(s.model() =~= Seq::<EntryModel>::empty());
        }
        s
    }

    /// How many URLs have been claimed.
    pub fn num_entries(&self) -> (n: usize)
        ensures
            n == self.model().len(),
    {
        self.entries.len()
    }

    /// True when `url` has already been claimed.
    pub fn is_claimed(&self, url: &String) -> (b: bool)
        ensures
            b == self.contains_url(url@),
    {
        let n: usize = self.entries.len();
        let mut i: usize = 0;
        while i < n
            invariant
                n == self.model().len(),
                i <= n,
                forall|k: int| 0 <= k < i ==> self.model()[k].url != url@,
            decreases n - i,
        {
            if self.entries[i].url == *url {
                proof {
                    assert(self.model()[i as int].url == url@);
                }
                return true;
            }
            i += 1;
        }
        false
    }

    /// The deduplication gate: claims `url` and returns true when it was
    /// not yet claimed; returns false, changing nothing, when it was.
    /// Either way `url` is claimed afterwards, and no claim is ever
    /// given up.
    pub fn try_claim(&mut self, url: &String) -> (granted: bool)
        requires
            old(self).wf(),
        ensures
            final(self).wf(),
            granted == claim_granted(old(self).model(), url@),
            granted ==> final(self).model() == old(self).model().push(
                EntryModel { url: url@, snippet: None::<SnippetModel> },
            ),
            !granted ==> *final(self) == *old(self),
            final(self).contains_url(url@),
            forall|u: Seq<char>| old(self).contains_url(u) ==> final(self).contains_url(u),
    {
        let n: usize = self.entries.len();
        let mut i: usize = 0;
        while i < n
            invariant
                *self == *old(self),
                old(self).wf(),
                n == self.model().len(),
                i <= n,
                forall|k: int| 0 <= k < i ==> self.model()[k].url != url@,
            decreases n - i,
        {
            if self.entries[i].url == *url {
                proof {
                    assert(self.model()[i as int].url == url@);
                }
                return false;
            }
            i += 1;
        }
        let entry = StoreEntry { url: url.clone(), snippet: None };
        self.entries.push(entry);
        proof {
            assert(self.model() =~= old(self).model().push(
                EntryModel { url: url@, snippet: None::<SnippetModel> },
            ));
            let last = self.model().len() - 1;
            assert(self.model()[last].url == url@);
            assert forall|u: Seq<char>| old(self).contains_url(u) implies self.contains_url(u) by {
                let w = choose|k: int|
                    0 <= k < old(self).model().len() && old(self).model()[k].url == u;
                assert(self.model()[w].url == u);
            }
        }
        true
    }

    /// Records the snippet found on an already-claimed page. Only that
    /// entry's snippet changes: the set of claimed URLs stays what it
    /// was.
    pub fn record_match(&mut self, url: &String, snippet: Snippet)
        requires
            old(self).wf(),
            old(self).contains_url(url@),
        ensures
            final(self).wf(),
            final(self).model() == old(self).model().update(
                old(self).index_of(url@),
                EntryModel { url: url@, snippet: Some(snippet@) },
            ),
            final(self).model().len() == old(self).model().len(),
            forall|u: Seq<char>| final(self).contains_url(u) == old(self).contains_url(u),
    {
        let n: usize = self.entries.len();
        let mut i: usize = 0;
        while i < n
            invariant
                n == self.model().len(),
                i <= n,
                old(self).wf(),
                old(self).contains_url(url@),
                *self == *old(self),
                forall|k: int| 0 <= k < i ==> self.model()[k].url != url@,
            decreases n - i,
        {
            if self.entries[i].url == *url {
                proof {
                    assert(self.model()[i as int].url == url@);
                    let w = old(self).index_of(url@);
                    assert(0 <= w < old(self).model().len() && old(self).model()[w].url == url@);
                    if w != i as int {
                        assert(false);
                    }
                }
                self.entries[i] = StoreEntry { url: url.clone(), snippet: Some(snippet) };
                proof {
                    assert(self.model() =~= old(self).model().update(
                        old(self).index_of(url@),
                        EntryModel { url: url@, snippet: Some(snippet@) },
                    ));
                    assert forall|u: Seq<char>|
                        self.contains_url(u) == old(self).contains_url(u) by {
                        if old(self).contains_url(u) {
                            let w = choose|k: int|
                                0 <= k < old(self).model().len() && old(self).model()[k].url == u;
                            assert(self.model()[w].url == u);
                        }
                        if self.contains_url(u) {
                            let w = choose|k: int|
                                0 <= k < self.model().len() && self.model()[k].url == u;
                            assert(old(self).model()[w].url == u);
                        }
                    }
                }
                return;
            }
            i += 1;
        }
        proof {
            let w = choose|k: int|
                0 <= k < old(self).model().len() && old(self).model()[k].url == url@;
            assert(false);
        }
    }

    /// The matches gathered so far, in store order: the URL and snippet
    /// of every entry that holds one.
    pub fn collect_matches(&self) -> (r: Vec<MatchEntry>)
        ensures
            r@.map_values(|m: MatchEntry| m@) == matches_of(self.model()),
    {
        let n: usize = self.entries.len();
        let mut r: Vec<MatchEntry> = Vec::new();
        let mut i: usize = 0;
        proof {
            assert(self.model().subrange(0, 0) =~= Seq::<EntryModel>::empty());
            assert(r@.map_values(|m: MatchEntry| m@) =~= Seq::<MatchModel>::empty());
        }
        while i < n
            invariant
                n == self.model().len(),
                i <= n,
                r@.map_values(|m: MatchEntry| m@) == matches_of(self.model().subrange(0, i as int)),
            decreases n - i,
        {
            let ghost prefix = self.model().subrange(0, i as int);
            let ghost next_prefix = self.model().subrange(0, i + 1);
            proof {
                assert(next_prefix.drop_last() =~= prefix);
                assert(next_prefix.last() == self.model()[i as int]);
            }
            match &self.entries[i].snippet {
                Some(sn) => {
                    let m = MatchEntry {
                        url: self.entries[i].url.clone(),
                        snippet: Snippet { text: sn.text.clone(), start: sn.start, end: sn.end },
                    };
                    proof {
                        assert(m@ == MatchModel {
                            url: self.model()[i as int].url,
                            snippet: self.model()[i as int].snippet->Some_0,
                        });
                    }
                    r.push(m);
                    proof {
                        assert(r@.map_values(|mm: MatchEntry| mm@) =~= matches_of(next_prefix));
                    }
                },
                None => {
                    proof {
                        assert(matches_of(next_prefix) == matches_of(prefix));
                    }
                },
            }
            i += 1;
        }
        proof {
            assert(self.model().subrange(0, n as int) =~= self.model());
        }
        r
    }
}

/// Every reported match comes from the store: its URL was claimed, and
/// that URL's entry holds exactly the reported snippet.
pub proof fn lemma_matches_from_entries(s: Seq<EntryModel>, k: int)
    requires
        0 <= k < matches_of(s).len(),
    ensures
        exists|i: int|
            0 <= i < s.len() && s[i] == (EntryModel {
                url: matches_of(s)[k].url,
                snippet: Some(matches_of(s)[k].snippet),
            }),
    decreases s.len(),
{
    let rest = matches_of(s.drop_last());
    match s.last().snippet {
        Some(sn) => {
            if k < rest.len() {
                lemma_matches_from_entries(s.drop_last(), k);
                let i = choose|i: int|
                    0 <= i < s.drop_last().len() && s.drop_last()[i] == (EntryModel {
                        url: rest[k].url,
                        snippet: Some(rest[k].snippet),
                    });
                assert(s[i] == s.drop_last()[i]);
            } else {
                assert(s[s.len() - 1] == (EntryModel { url: s.last().url, snippet: Some(sn) }));
            }
        },
        None => {
            lemma_matches_from_entries(s.drop_last(), k);
            let i = choose|i: int|
                0 <= i < s.drop_last().len() && s.drop_last()[i] == (EntryModel {
                    url: rest[k].url,
                    snippet: Some(rest[k].snippet),
                });
            assert(s[i] == s.drop_last()[i]);
        },
    }
}

/// A claim is granted for a URL at most once in a run, however many
/// callers race for it: a granted claim of `u` leaves an entry for `u`
/// in the store, every operation keeps the entries already present, and
/// against any such later state a claim of `u` is denied.
pub proof fn lemma_claim_unique(after_grant: Seq<EntryModel>, later: Seq<EntryModel>, u: Seq<char>)
    requires
        seq_contains_url(after_grant, u),
        forall|x: Seq<char>| seq_contains_url(after_grant, x) ==> seq_contains_url(later, x),
    ensures
        !claim_granted(later, u),
{
}

} // verus!
