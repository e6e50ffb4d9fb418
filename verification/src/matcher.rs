//! Leftmost substring search over character offsets, with a bounded
//! context snippet around the first occurrence.

use vstd::prelude::*;
use vstd::string::StrSliceExecFns;

verus! {

/// True when `query` occurs in `text` at character offset `i`.
pub open spec fn match_at(text: Seq<char>, query: Seq<char>, i: int) -> bool {
    &&& 0 <= i
    &&& i + query.len() <= text.len()
    &&& text.subrange(i, i + query.len()) == query
}

/// True when `query` occurs somewhere in `text`.
pub open spec fn has_match(text: Seq<char>, query: Seq<char>) -> bool {
    exists|i: int| match_at(text, query, i)
}

/// True when `i` is the leftmost character offset at which `query`
/// occurs in `text`.
pub open spec fn first_match_at(text: Seq<char>, query: Seq<char>, i: int) -> bool {
    &&& match_at(text, query, i)
    &&& forall|j: int| 0 <= j < i ==> !match_at(text, query, j)
}

/// The character offset of the leftmost occurrence of `query` in `text`
/// (meaningful only when `has_match` holds).
pub open spec fn first_match_index(text: Seq<char>, query: Seq<char>) -> int {
    choose|i: int| first_match_at(text, query, i)
}

/// The snippet's start offset: the match offset moved left by `range`
/// characters, clipped at the start of the text.
pub open spec fn clip_start(c: int, range: nat) -> int {
    if c - range > 0 {
        c - range
    } else {
        0
    }
}

/// The snippet's end offset: the end of the match moved right by `range`
/// characters, clipped at the end of the text.
pub open spec fn clip_end(c: int, qlen: nat, tlen: nat, range: nat) -> int {
    if c + qlen + range < tlen {
        c + qlen + range
    } else {
        tlen as int
    }
}

/// The mathematical value of a snippet: a window of the page text.
pub ghost struct SnippetModel {
    pub text: Seq<char>,
    pub start: int,
    pub end: int,
}

/// The snippet around the leftmost occurrence of `query` in `text`
/// (meaningful only when `has_match` holds).
pub open spec fn snippet_spec(text: Seq<char>, query: Seq<char>, range: nat) -> SnippetModel {
    let c = first_match_index(text, query);
    let start = clip_start(c, range);
    let end = clip_end(c, query.len(), text.len(), range);
    SnippetModel { text: text.subrange(start, end), start: start, end: end }
}

/// What the matcher returns: the snippet around the leftmost occurrence,
/// or nothing when the query does not occur.
pub open spec fn find_spec(text: Seq<char>, query: Seq<char>, range: nat) -> Option<SnippetModel> {
    if has_match(text, query) {
        Some(snippet_spec(text, query, range))
    } else {
        None
    }
}

/// A bounded context window around the first occurrence of the query in
/// a page's visible text. `start` and `end` are character offsets into
/// that text, and `text` is exactly the characters between them.
pub struct Snippet {
    pub text: String,
    pub start: usize,
    pub end: usize,
}

impl View for Snippet {
    type V = SnippetModel;

    open spec fn view(&self) -> SnippetModel {
        SnippetModel { text: self.text@, start: self.start as int, end: self.end as int }
    }
}

/// The leftmost occurrence is unique.
pub proof fn lemma_first_match_unique(text: Seq<char>, query: Seq<char>, i1: int, i2: int)
    requires
        first_match_at(text, query, i1),
        first_match_at(text, query, i2),
    ensures
        i1 == i2,
{
    if i1 < i2 {
        assert(!match_at(text, query, i1));
    } else if i2 < i1 {
        assert(!match_at(text, query, i2));
    }
}

/// Below every offset with a match there is a leftmost one.
proof fn lemma_first_match_below(text: Seq<char>, query: Seq<char>, w: int)
    requires
        match_at(text, query, w),
    ensures
        exists|i: int| first_match_at(text, query, i),
    decreases w,
{
    if exists|j: int| 0 <= j < w && match_at(text, query, j) {
        let j = choose|j: int| 0 <= j < w && match_at(text, query, j);
        lemma_first_match_below(text, query, j);
    } else {
        assert(first_match_at(text, query, w));
    }
}

/// Wherever the query occurs, a leftmost occurrence exists, so the
/// matcher's snippet is well defined.
pub proof fn lemma_first_match_exists(text: Seq<char>, query: Seq<char>)
    requires
        has_match(text, query),
    ensures
        first_match_at(text, query, first_match_index(text, query)),
{
    let w = choose|i: int| match_at(text, query, i);
    lemma_first_match_below(text, query, w);
}

/// The snippet around a match always contains the query itself: the
/// window begins at or before the match and ends at or after its end,
/// however small the context radius.
pub proof fn lemma_snippet_contains_query(text: Seq<char>, query: Seq<char>, range: nat)
    requires
        has_match(text, query),
    ensures
        has_match(snippet_spec(text, query, range).text, query),
{
    lemma_first_match_exists(text, query);
    let c = first_match_index(text, query);
    let start = clip_start(c, range);
    let end = clip_end(c, query.len(), text.len(), range);
    let sn = text.subrange(start, end);
    let k = c - start;
    assert(sn.subrange(k, k + query.len()) =~= text.subrange(c, c + query.len()));
    assert(match_at(sn, query, k));
}

/// The characters of `s`, in order.
pub fn str_chars(s: &str) -> (r: Vec<char>)
    ensures
        r@ == s@,
{
    let n: usize = s.unicode_len();
    let mut r: Vec<char> = Vec::new();
    let mut i: usize = 0;
    while i < n
        invariant
            n == s@.len(),
            i <= n,
            r@ == s@.subrange(0, i as int),
        decreases n - i,
    {
        let c = s.get_char(i);
        r.push(c);
        i += 1;
        proof {
            assert(r@ =~= s@.subrange(0, i as int));
        }
    }
    proof {
        assert(r@ =~= s@);
    }
    r
}

/// Whether `q` occurs in `t` at offset `i`.
fn chars_match_at(t: &Vec<char>, q: &Vec<char>, i: usize) -> (b: bool)
    requires
        i + q@.len() <= t@.len(),
    ensures
        b == match_at(t@, q@, i as int),
{
    let qlen: usize = q.len();
    let tlen: usize = t.len();
    let mut j: usize = 0;
    while j < qlen
        invariant
            qlen == q@.len(),
            tlen == t@.len(),
            i + qlen <= tlen,
            j <= qlen,
            forall|k: int| 0 <= k < j ==> t@[i + k] == q@[k],
        decreases qlen - j,
    {
        if t[i + j] != q[j] {
            proof {
                assert(t@.subrange(i as int, i + q@.len())[j as int] == t@[i + j]);
            }
            return false;
        }
        j += 1;
    }
    proof {
        let s = t@.subrange(i as int, i + q@.len());
        assert forall|k: int| 0 <= k < q@.len() implies s[k] == q@[k] by {
            assert(s[k] == t@[i + k]);
        }
        assert(s =~= q@);
    }
    true
}

/// Builds the snippet for a match at character offset `c`, clipping the
/// window to the bounds of `text`.
fn build_snippet(text: &str, c: usize, qlen: usize, range: usize) -> (sn: Snippet)
    requires
        c + qlen <= text@.len(),
    ensures
        sn@.start == clip_start(c as int, range as nat),
        sn@.end == clip_end(c as int, qlen as nat, text@.len(), range as nat),
        sn@.text == text@.subrange(sn@.start, sn@.end),
        0 <= sn@.start <= sn@.end <= text@.len(),
{
    let tlen: usize = text.unicode_len();
    let start: usize = if c > range {
        c - range
    } else {
        0
    };
    let rest: usize = tlen - (c + qlen);
    let end: usize = if range < rest {
        c + qlen + range
    } else {
        tlen
    };
    let piece = text.substring_char(start, end);
    let sn_text: String = piece.to_owned();
    Snippet { text: sn_text, start: start, end: end }
}

/// Finds the leftmost occurrence of `query` in `text`, comparing whole
/// characters, and returns the context window of `range` characters on
/// each side, clipped to the bounds of `text`. Returns nothing when the
/// query does not occur.
pub fn find_match(text: &str, query: &str, range: usize) -> (r: Option<Snippet>)
    ensures
        match r {
            Some(sn) => {
                &&& has_match(text@, query@)
                &&& sn@ == snippet_spec(text@, query@, range as nat)
                &&& 0 <= sn@.start <= sn@.end <= text@.len()
                &&& sn@.text == text@.subrange(sn@.start, sn@.end)
            },
            None => !has_match(text@, query@),
        },
{
    let t = str_chars(text);
    let q = str_chars(query);
    let tlen: usize = t.len();
    let qlen: usize = q.len();
    if qlen > tlen {
        proof {
            assert forall|j: int| !match_at(text@, query@, j) by {
            }
        }
        return None;
    }
    let mut i: usize = 0;
    loop
        invariant
            t@ == text@,
            q@ == query@,
            tlen == text@.len(),
            qlen == query@.len(),
            qlen <= tlen,
            i + qlen <= tlen,
            forall|j: int| 0 <= j < i ==> !match_at(text@, query@, j),
        decreases tlen - i,
    {
        if chars_match_at(&t, &q, i) {
            proof {
                assert(first_match_at(text@, query@, i as int));
                let c0 = first_match_index(text@, query@);
                assert(first_match_at(text@, query@, c0));
                lemma_first_match_unique(text@, query@, c0, i as int);
            }
            let sn = build_snippet(text, i, qlen, range);
            return Some(sn);
        }
        if i + qlen == tlen {
            proof {
                assert forall|j: int| !match_at(text@, query@, j) by {
                    if i < j {
                        assert(j + query@.len() > text@.len());
                    }
                }
            }
            return None;
        }
        i += 1;
    }
}

} // verus!
