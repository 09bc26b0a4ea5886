//! Articles as list views and the editor see them: the preview rows, the
//! editor's validation (lengths and the tag list), and the paging
//! arithmetic the list controls run on.

use vstd::prelude::*;
use vstd::string::{StrSliceExecFns, StringExecFns};
use crate::user::UserPreview;

verus! {

/// An article row as the list views receive it.
#[derive(Debug, Clone, PartialEq)]
pub struct Article {
    pub slug: String,
    pub title: String,
    pub body: Option<String>,
    pub description: String,
    pub created_at: String,
    pub favorites_count: i64,
    pub tag_list: Vec<String>,
    pub author: UserPreview,
    pub fav: bool,
    pub comments_count: i64,
}

/// A full-text search hit: the slug and the highlighted snippets.
#[derive(Debug, Clone, PartialEq)]
pub struct MatchedArticles {
    pub slug: String,
    pub title: Option<String>,
    pub description: Option<String>,
    pub body: Option<String>,
}

/// A validated article submission, ready for storage.
#[derive(Debug, Clone)]
pub struct ArticleUpdate {
    pub title: String,
    pub description: String,
    pub body: String,
    pub tag_list: Vec<String>,
}

pub open spec fn is_ascii_ws(c: char) -> bool {
    c == ' ' || c == '\t' || c == '\n' || c == '\r' || c == '\x0c'
}

/// Length of the leading run of non-whitespace characters.
pub open spec fn ws_end(s: Seq<char>) -> int
    decreases s.len(),
{
    if s.len() == 0 {
        0
    } else if is_ascii_ws(s[0]) {
        0
    } else {
        1 + ws_end(s.drop_first())
    }
}

pub proof fn lemma_ws_end_bounds(s: Seq<char>)
    ensures
        0 <= ws_end(s) <= s.len(),
        forall|j: int| 0 <= j < ws_end(s) ==> !is_ascii_ws(s[j]),
        ws_end(s) < s.len() ==> is_ascii_ws(s[ws_end(s)]),
    decreases s.len(),
{
    if s.len() > 0 && !is_ascii_ws(s[0]) {
        lemma_ws_end_bounds(s.drop_first());
        assert forall|j: int| 0 <= j < ws_end(s) implies !is_ascii_ws(s[j]) by {
            if j > 0 {
                assert(s[j] == s.drop_first()[j - 1]);
            }
        }
        if ws_end(s) < s.len() {
            assert(s[ws_end(s)] == s.drop_first()[ws_end(s.drop_first())]);
        }
    }
}

/// First whitespace position at or after `start`, or the end of `s`.
fn scan_token_end(s: &str, start: usize) -> (j: usize)
    requires
        start <= s@.len(),
    ensures
        start <= j <= s@.len(),
        j - start == ws_end(s@.skip(start as int)),
    decreases s@.len() - start,
{
    let n = s.unicode_len();
    if start == n {
        proof {
            assert(s@.skip(start as int).len() == 0);
        }
        return start;
    }
    let c = s.get_char(start);
    proof {
        assert(s@.skip(start as int)[0] == c);
    }
    if c == ' ' || c == '\t' || c == '\n' || c == '\r' || c == '\x0c' {
        start
    } else {
        let j = scan_token_end(s, start + 1);
        proof {
            assert(s@.skip(start as int).drop_first() =~= s@.skip(start as int + 1));
        }
        j
    }
}

/// The whitespace-separated tokens of `s`, in order: what
/// `split_ascii_whitespace` yields.
pub open spec fn ws_tokens(s: Seq<char>) -> Seq<Seq<char>>
    decreases s.len(),
{
    if s.len() == 0 {
        Seq::empty()
    } else if is_ascii_ws(s[0]) {
        ws_tokens(s.drop_first())
    } else {
        let k = ws_end(s);
        if 1 <= k <= s.len() {
            seq![s.take(k)] + ws_tokens(s.skip(k))
        } else {
            Seq::empty()
        }
    }
}

/// First occurrences only, keeping order: what collecting into a set and
/// back preserves of a token list, made deterministic.
pub open spec fn dedup(parts: Seq<Seq<char>>) -> Seq<Seq<char>>
    decreases parts.len(),
{
    if parts.len() == 0 {
        parts
    } else {
        let front = dedup(parts.drop_last());
        if front.contains(parts.last()) {
            front
        } else {
            front.push(parts.last())
        }
    }
}

/// Does the vector hold a string with exactly these characters?
pub fn vec_contains_str(v: &Vec<String>, s: &str) -> (r: bool)
    ensures
        r == v@.map_values(|t: String| t@).contains(s@),
{
    let ghost views = v@.map_values(|t: String| t@);
    let mut i: usize = 0;
    while i < v.len()
        invariant
            0 <= i <= v.len(),
            views == v@.map_values(|t: String| t@),
            views.len() == v.len(),
            forall|j: int| 0 <= j < i ==> views[j] != s@,
        decreases v.len() - i,
    {
        if crate::text::str_eq(v[i].as_str(), s) {
            assert(views[i as int] == s@);
            return true;
        }
        i += 1;
    }
    false
}

/// Split `s` into its whitespace-separated tokens, left to right.
fn tokenize(s: &str) -> (r: Vec<String>)
    ensures
        r@.map_values(|t: String| t@) == ws_tokens(s@),
{
    let mut out: Vec<String> = Vec::new();
    let n = s.unicode_len();
    let mut i: usize = 0;
    proof {
        assert(s@.skip(0) =~= s@);
        assert(out@.map_values(|t: String| t@) =~~= Seq::<Seq<char>>::empty());
    }
    while i < n
        invariant
            0 <= i <= n,
            n == s@.len(),
            ws_tokens(s@) == out@.map_values(|t: String| t@) + ws_tokens(s@.skip(i as int)),
        decreases n - i,
    {
        let c = s.get_char(i);
        if c == ' ' || c == '\t' || c == '\n' || c == '\r' || c == '\x0c' {
            proof {
                assert(s@.skip(i as int)[0] == c);
                assert(s@.skip(i as int).drop_first() =~= s@.skip(i as int + 1));
            }
            i += 1;
        } else {
            let ghost suffix = s@.skip(i as int);
            let ghost k = ws_end(suffix);
            proof {
                lemma_ws_end_bounds(suffix);
                assert(suffix[0] == c && !is_ascii_ws(c));
            }
            let j = scan_token_end(s, i);
            proof {
                assert(j - i == k && k >= 1);
            }
            let tok = s.substring_char(i, j);
            proof {
                assert(tok@ =~= suffix.take(k));
                assert(s@.skip(j as int) =~= suffix.skip(k));
            }
            let ghost before = out@;
            out.push(tok.to_owned());
            proof {
                assert(out@.map_values(|t: String| t@) =~~= before.map_values(|t: String| t@)
                    + seq![tok@]);
                assert(ws_tokens(suffix) == seq![suffix.take(k)] + ws_tokens(suffix.skip(k)));
                assert(before.map_values(|t: String| t@) + (seq![suffix.take(k)] + ws_tokens(
                    suffix.skip(k),
                )) =~~= (before.map_values(|t: String| t@) + seq![suffix.take(k)]) + ws_tokens(
                    suffix.skip(k),
                ));
            }
            i = j;
        }
    }
    proof {
        assert(s@.skip(n as int).len() == 0);
        assert(out@.map_values(|t: String| t@) + ws_tokens(s@.skip(n as int)) =~~=
            out@.map_values(|t: String| t@));
    }
    out
}

/// Drop repeated tokens, keeping each first occurrence.
fn dedup_tokens(tokens: Vec<String>) -> (r: Vec<String>)
    ensures
        r@.map_values(|t: String| t@) == dedup(tokens@.map_values(|t: String| t@)),
{
    let ghost all = tokens@.map_values(|t: String| t@);
    let mut out: Vec<String> = Vec::new();
    let mut i: usize = 0;
    proof {
        assert(all.take(0) =~~= Seq::<Seq<char>>::empty());
        assert(out@.map_values(|t: String| t@) =~~= dedup(all.take(0)));
    }
    while i < tokens.len()
        invariant
            0 <= i <= tokens.len(),
            all == tokens@.map_values(|t: String| t@),
            all.len() == tokens.len(),
            out@.map_values(|t: String| t@) == dedup(all.take(i as int)),
        decreases tokens.len() - i,
    {
        let ghost prefix = all.take(i as int);
        proof {
            assert(all.take(i + 1).drop_last() =~~= prefix);
            assert(all.take(i + 1).last() == all[i as int]);
        }
        let present = vec_contains_str(&out, tokens[i].as_str());
        if !present {
            let ghost before = out@;
            let t = tokens[i].clone();
            out.push(t);
            proof {
                assert(out@.map_values(|s: String| s@) =~~= before.map_values(|s: String| s@).push(
                    all[i as int],
                ));
            }
        }
        i += 1;
    }
    proof {
        assert(all.take(tokens@.len() as int) =~~= all);
    }
    out
}

/// Validate an editor submission: title and description of at least 4
/// characters, a body of at least 10, and the tag field cut into its
/// distinct whitespace-separated tags.
pub fn validate_article(title: String, description: String, body: String, tag_list: String) -> (r:
    Result<ArticleUpdate, String>)
    ensures
        (title@.len() >= 4 && description@.len() >= 4 && body@.len() >= 10) <==> r is Ok,
        r matches Ok(a) ==> a.title@ == title@ && a.description@ == description@ && a.body@
            == body@ && a.tag_list@.map_values(|t: String| t@) == dedup(ws_tokens(tag_list@)),
        title@.len() < 4 ==> (r matches Err(e) && e@
            == "You need to provide a title with at least 4 characters"@),
        title@.len() >= 4 && description@.len() < 4 ==> (r matches Err(e) && e@
            == "You need to provide a description with at least 4 characters"@),
        title@.len() >= 4 && description@.len() >= 4 && body@.len() < 10 ==> (r matches Err(e)
            && e@ == "You need to provide a body with at least 10 characters"@),
{
    if title.as_str().unicode_len() < 4 {
        return Err("You need to provide a title with at least 4 characters".to_owned());
    }
    if description.as_str().unicode_len() < 4 {
        return Err("You need to provide a description with at least 4 characters".to_owned());
    }
    if body.as_str().unicode_len() < 10 {
        return Err("You need to provide a body with at least 10 characters".to_owned());
    }
    let tags = dedup_tokens(tokenize(tag_list.as_str()));
    Ok(ArticleUpdate { title, description, body, tag_list: tags })
}

/// The row offset of a page: page number times page size.
pub fn page_offset(page: i64, amount: i64) -> (r: i64)
    requires
        0 <= page,
        0 <= amount,
        page * amount <= i64::MAX,
    ensures
        r == page * amount,
{
    proof {
        assert(page * amount >= 0) by (nonlinear_arith)
            requires
                0 <= page && 0 <= amount,
        ;
    }
    page * amount
}

/// Whether a further page exists, judged from the page just fetched: a
/// short page (fewer rows than the page size) is the last one.
pub fn has_next_page(results_len: usize, amount: i64) -> (r: bool)
    requires
        0 <= amount,
    ensures
        r == (results_len > 0 && results_len >= amount),
{
    results_len > 0 && results_len as u64 >= amount as u64
}

/// Whether the search view has a further page: only when rows beyond the
/// end of the current page exist.
pub fn has_next_search_page(total_count: i64, page: i64, amount: i64) -> (r: bool)
    requires
        0 <= page < i64::MAX,
        0 <= amount,
        (page + 1) * amount <= i64::MAX,
    ensures
        r == (total_count > (page + 1) * amount),
{
    proof {
        assert((page + 1) * amount >= 0) by (nonlinear_arith)
            requires
                0 <= page && 0 <= amount,
        ;
    }
    if page == 0 {
        proof {
            assert((page + 1) * amount == amount) by (nonlinear_arith)
                requires
                    page == 0,
            ;
        }
        total_count > amount
    } else {
        total_count > (page + 1) * amount
    }
}

} // verus!
