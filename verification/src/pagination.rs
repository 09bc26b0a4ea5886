//! The pagination/query-state codec: a value holding {tag filter, feed
//! scope, page, page size, favourites flag} that round-trips through the
//! URL query string driving every list view.

use vstd::prelude::*;
use vstd::string::{StrSliceExecFns, StringExecFns};
use crate::num::{
    bool_rep, bool_to_str, i64_to_dec, int_rep, parse_bool, parse_bool_spec, parse_i64,
    parse_i64_spec,
};
use crate::text::{find_char, find_char_from, split_char, str_eq};

verus! {

/// Mathematical view of a pagination state.
pub struct PaginationView {
    pub tag: Seq<char>,
    pub my_feed: bool,
    pub page: int,
    pub amount: int,
    pub favourites: bool,
}

/// The query-string state behind every article list: which tag is
/// filtered, whether only followed authors are shown, the zero-based page,
/// how many items each page holds, and whether only favourites are shown.
#[derive(Debug, Clone)]
pub struct Pagination {
    tag: String,
    my_feed: bool,
    page: i64,
    amount: i64,
    favourites: bool,
}

impl View for Pagination {
    type V = PaginationView;

    closed spec fn view(&self) -> PaginationView {
        PaginationView {
            tag: self.tag@,
            my_feed: self.my_feed,
            page: self.page as int,
            amount: self.amount as int,
            favourites: self.favourites,
        }
    }
}

/// The state every view starts from: no tag, the global feed, page 0,
/// ten items per page, favourites off.
pub open spec fn default_view() -> PaginationView {
    PaginationView { tag: Seq::empty(), my_feed: false, page: 0, amount: 10, favourites: false }
}

pub open spec fn with_tag(v: PaginationView, tag: Seq<char>) -> PaginationView {
    PaginationView { tag: tag, ..v }
}

pub open spec fn with_my_feed(v: PaginationView, my_feed: bool) -> PaginationView {
    PaginationView { my_feed: my_feed, ..v }
}

pub open spec fn with_amount(v: PaginationView, amount: int) -> PaginationView {
    PaginationView { amount: amount, ..v }
}

pub open spec fn with_favourites(v: PaginationView, favourites: bool) -> PaginationView {
    PaginationView { favourites: favourites, ..v }
}

pub open spec fn with_page(v: PaginationView, page: int) -> PaginationView {
    PaginationView { page: page, ..v }
}

/// Saturating increment within `i64`.
pub open spec fn next_page_spec(v: PaginationView) -> PaginationView {
    with_page(v, if v.page == i64::MAX { i64::MAX as int } else { v.page + 1 })
}

/// Decrement saturating at zero: pages are never negative, and moving
/// back from the first page stays on the first page.
pub open spec fn previous_page_spec(v: PaginationView) -> PaginationView {
    with_page(v, if v.page > 0 { v.page - 1 } else { 0 })
}

impl Pagination {
    pub fn get_tag(&self) -> (r: &str)
        ensures
            r@ == self@.tag,
    {
        self.tag.as_str()
    }

    pub fn get_my_feed(&self) -> (r: bool)
        ensures
            r == self@.my_feed,
    {
        self.my_feed
    }

    pub fn get_favourites(&self) -> (r: bool)
        ensures
            r == self@.favourites,
    {
        self.favourites
    }

    pub fn get_page(&self) -> (r: i64)
        ensures
            r as int == self@.page,
    {
        self.page
    }

    pub fn get_amount(&self) -> (r: i64)
        ensures
            r as int == self@.amount,
    {
        self.amount
    }

    pub fn set_tag(self, tag: &str) -> (r: Self)
        ensures
            r@ == with_tag(self@, tag@),
    {
        Self { tag: tag.to_owned(), ..self }
    }

    pub fn set_amount(self, amount: i64) -> (r: Self)
        ensures
            r@ == with_amount(self@, amount as int),
    {
        Self { amount, ..self }
    }

    pub fn set_my_feed(self, feed: bool) -> (r: Self)
        ensures
            r@ == with_my_feed(self@, feed),
    {
        Self { my_feed: feed, ..self }
    }

    pub fn set_favourites(self, feed: bool) -> (r: Self)
        ensures
            r@ == with_favourites(self@, feed),
    {
        Self { favourites: feed, ..self }
    }

    /// Back to the first page; every filter change must be followed by
    /// this, so a narrowed filter never leaves the user on a stale page.
    pub fn reset_page(self) -> (r: Self)
        ensures
            r@ == with_page(self@, 0),
    {
        Self { page: 0, ..self }
    }

    pub fn next_page(self) -> (r: Self)
        ensures
            r@ == next_page_spec(self@),
    {
        let page = if self.page == i64::MAX {
            i64::MAX
        } else {
            self.page + 1
        };
        Self { page, ..self }
    }

    pub fn previous_page(self) -> (r: Self)
        ensures
            r@ == previous_page_spec(self@),
    {
        let page = if self.page > 0 {
            self.page - 1
        } else {
            0
        };
        Self { page, ..self }
    }
}

impl Default for Pagination {
    fn default() -> (r: Self)
        ensures
            r@ == default_view(),
    {
        let r = Pagination {
            tag: String::new(),
            my_feed: false,
            page: 0,
            amount: 10,
            favourites: false,
        };
        proof {
            assert(r@.tag =~= default_view().tag);
        }
        r
    }
}

impl PartialEq for Pagination {
    fn eq(&self, other: &Self) -> (r: bool) {
        self.tag == other.tag && self.my_feed == other.my_feed && self.page == other.page
            && self.amount == other.amount && self.favourites == other.favourites
    }
}

impl vstd::std_specs::cmp::PartialEqSpecImpl for Pagination {
    open spec fn obeys_eq_spec() -> bool {
        true
    }

    open spec fn eq_spec(&self, other: &Self) -> bool {
        self@ == other@
    }
}

/// The canonical query string: all five keys, in this fixed order, even
/// at their default values.
pub open spec fn serialize_spec(v: PaginationView) -> Seq<char> {
    "/?tag="@ + v.tag + "&my_feed="@ + bool_rep(v.my_feed) + "&page="@ + int_rep(v.page)
        + "&amount="@ + int_rep(v.amount) + "&favourites="@ + bool_rep(v.favourites)
}

/// `value.parse().unwrap_or_default()` for bool.
pub open spec fn bool_or_default(s: Seq<char>) -> bool {
    match parse_bool_spec(s) {
        Some(b) => b,
        None => false,
    }
}

/// A page value read from the query string: a parsed, non-negative
/// number; anything malformed or negative degrades to the first page.
/// Pages are never negative in any state.
pub open spec fn page_value(s: Seq<char>) -> int {
    match parse_i64_spec(s) {
        Some(n) => if n >= 0 {
            n as int
        } else {
            0
        },
        None => 0,
    }
}

/// A page-size value read from the query string: a parsed, positive
/// number; anything malformed, zero or negative degrades to the default
/// size. A page size of zero is not a valid state.
pub open spec fn amount_value(s: Seq<char>) -> int {
    match parse_i64_spec(s) {
        Some(n) => if n > 0 {
            n as int
        } else {
            10
        },
        None => 10,
    }
}

/// Strip every leading "/?", as the parser does before matching a key.
pub open spec fn trim_query_marks(s: Seq<char>) -> Seq<char>
    decreases s.len(),
{
    if s.len() >= 2 && s[0] == '/' && s[1] == '?' {
        trim_query_marks(s.skip(2))
    } else {
        s
    }
}

/// One `key=value` pair applied to the state; pairs without '=' and
/// unknown keys are ignored, and a malformed or out-of-domain value
/// falls back to its field's default.
pub open spec fn apply_param_spec(v: PaginationView, part: Seq<char>) -> PaginationView {
    let i = find_char(part, '=');
    if i < 0 {
        v
    } else {
        let key = trim_query_marks(part.take(i));
        let value = part.skip(i + 1);
        if key == "tag"@ {
            with_tag(v, value)
        } else if key == "my_feed"@ {
            with_my_feed(v, bool_or_default(value))
        } else if key == "page"@ {
            with_page(v, page_value(value))
        } else if key == "amount"@ {
            with_amount(v, amount_value(value))
        } else if key == "favourites"@ {
            with_favourites(v, bool_or_default(value))
        } else {
            v
        }
    }
}

pub open spec fn fold_params(v: PaginationView, parts: Seq<Seq<char>>) -> PaginationView
    decreases parts.len(),
{
    if parts.len() == 0 {
        v
    } else {
        fold_params(apply_param_spec(v, parts[0]), parts.drop_first())
    }
}

/// The tolerant parse of a whole query string: split on '&', start from
/// the defaults, apply each pair. Never fails.
pub open spec fn parse_spec(url: Seq<char>) -> PaginationView {
    fold_params(default_view(), split_char(url, '&'))
}

impl Pagination {
    /// Render this state as its canonical query string.
    pub fn serialize(&self) -> (r: String)
        ensures
            r@ == serialize_spec(self@),
    {
        let mut s = "/?tag=".to_owned();
        s.append(self.tag.as_str());
        s.append("&my_feed=");
        s.append(bool_to_str(self.my_feed));
        s.append("&page=");
        s.append(i64_to_dec(self.page).as_str());
        s.append("&amount=");
        s.append(i64_to_dec(self.amount).as_str());
        s.append("&favourites=");
        s.append(bool_to_str(self.favourites));
        s
    }

    /// Parse a query string, tolerantly: unknown keys are ignored,
    /// missing keys keep their defaults, and malformed or out-of-domain
    /// values fall back to the default for their field, so every parsed
    /// state has a non-negative page and a positive page size.
    pub fn parse(url: &str) -> (r: Pagination)
        ensures
            r@ == parse_spec(url@),
    {
        let p = Pagination::default();
        proof {
            assert(url@.skip(0) =~= url@);
        }
        parse_params(p, url, 0)
    }
}

fn apply_param(p: Pagination, part: &str) -> (r: Pagination)
    ensures
        r@ == apply_param_spec(p@, part@),
{
    let n = part.unicode_len();
    proof {
        assert(part@.skip(0) =~= part@);
    }
    match find_char_from(part, 0, '=') {
        None => p,
        Some(i) => {
            let key_raw = part.substring_char(0, i);
            let value = part.substring_char(i + 1, n);
            proof {
                assert(key_raw@ =~= part@.take(i as int));
                assert(value@ =~= part@.skip(i as int + 1));
            }
            let key = trim_marks(key_raw);
            if str_eq(key, "tag") {
                Pagination { tag: value.to_owned(), ..p }
            } else if str_eq(key, "my_feed") {
                Pagination { my_feed: bool_value_or_default(value), ..p }
            } else if str_eq(key, "page") {
                Pagination { page: page_value_exec(value), ..p }
            } else if str_eq(key, "amount") {
                Pagination { amount: amount_value_exec(value), ..p }
            } else if str_eq(key, "favourites") {
                Pagination { favourites: bool_value_or_default(value), ..p }
            } else {
                p
            }
        },
    }
}

fn bool_value_or_default(value: &str) -> (r: bool)
    ensures
        r == bool_or_default(value@),
{
    match parse_bool(value) {
        Some(b) => b,
        None => false,
    }
}

fn page_value_exec(value: &str) -> (r: i64)
    ensures
        r as int == page_value(value@),
{
    match parse_i64(value) {
        Some(n) => if n >= 0 {
            n
        } else {
            0
        },
        None => 0,
    }
}

fn amount_value_exec(value: &str) -> (r: i64)
    ensures
        r as int == amount_value(value@),
{
    match parse_i64(value) {
        Some(n) => if n > 0 {
            n
        } else {
            10
        },
        None => 10,
    }
}

fn trim_marks(s: &str) -> (r: &str)
    ensures
        r@ == trim_query_marks(s@),
    decreases s@.len(),
{
    let n = s.unicode_len();
    if n >= 2 && s.get_char(0) == '/' && s.get_char(1) == '?' {
        let rest = s.substring_char(2, n);
        proof {
            assert(rest@ =~= s@.skip(2));
        }
        trim_marks(rest)
    } else {
        s
    }
}

/// The items-per-page selector's reading of its form value: a positive
/// decimal number, falling back to the default page size otherwise — a
/// page size of zero or less is never a valid state.
pub fn page_amount_choice(value: &str) -> (r: i64)
    ensures
        r as int == (match parse_i64_spec(value@) {
            Some(n) => if n > 0 {
                n as int
            } else {
                10int
            },
            None => 10int,
        }),
{
    match parse_i64(value) {
        Some(n) => if n > 0 {
            n
        } else {
            10
        },
        None => 10,
    }
}

/// Every parsed state keeps the data-model invariant, whatever the query
/// string held: the page is never negative and the page size is always
/// positive.
pub proof fn lemma_parse_keeps_invariant(url: Seq<char>)
    ensures
        parse_spec(url).page >= 0,
        parse_spec(url).amount > 0,
{
    lemma_fold_keeps_invariant(default_view(), split_char(url, '&'));
}

proof fn lemma_fold_keeps_invariant(v: PaginationView, parts: Seq<Seq<char>>)
    requires
        v.page >= 0,
        v.amount > 0,
    ensures
        fold_params(v, parts).page >= 0,
        fold_params(v, parts).amount > 0,
    decreases parts.len(),
{
    if parts.len() > 0 {
        let w = apply_param_spec(v, parts[0]);
        assert(w.page >= 0 && w.amount > 0);
        lemma_fold_keeps_invariant(w, parts.drop_first());
    }
}

/// Changing a filter dimension and then resetting always lands on page 0,
/// whatever page was current before: a narrowed filter can never leave the
/// user on a stale page.
pub proof fn lemma_filter_change_then_reset(
    v: PaginationView,
    tag: Seq<char>,
    amount: int,
    my_feed: bool,
    favourites: bool,
)
    ensures
        with_page(with_tag(v, tag), 0).page == 0,
        with_page(with_amount(v, amount), 0).page == 0,
        with_page(with_my_feed(v, my_feed), 0).page == 0,
        with_page(with_favourites(v, favourites), 0).page == 0,
{
}

/// Moving back from page 0 stays on page 0; moving forward from any page
/// below the maximum advances by exactly one, and only the page changes.
pub proof fn lemma_page_navigation(v: PaginationView)
    ensures
        v.page == 0 ==> previous_page_spec(v).page == 0,
        v.page < i64::MAX ==> next_page_spec(v).page == v.page + 1,
        next_page_spec(v) == with_page(v, next_page_spec(v).page),
        previous_page_spec(v) == with_page(v, previous_page_spec(v).page),
{
}

proof fn lemma_no_amp_no_find(s: Seq<char>)
    requires
        forall|i: int| 0 <= i < s.len() ==> s[i] != '&',
    ensures
        find_char(s, '&') == -1,
{
    crate::text::lemma_find_char_none(s, '&');
}

proof fn lemma_bool_rep_chars(b: bool)
    ensures
        forall|i: int| 0 <= i < bool_rep(b).len() ==> bool_rep(b)[i] != '&' && bool_rep(b)[i]
            != '=',
{
    reveal_strlit("true");
    reveal_strlit("false");
}

proof fn lemma_int_rep_no_delims(n: int)
    ensures
        forall|i: int| 0 <= i < int_rep(n).len() ==> int_rep(n)[i] != '&' && int_rep(n)[i] != '=',
{
    crate::num::lemma_int_rep_chars(n);
    assert(forall|i: int|
        0 <= i < int_rep(n).len() ==> (crate::num::is_digit(#[trigger] int_rep(n)[i]) || int_rep(
            n,
        )[i] == '-'));
}

/// Round trip: parsing a serialized state restores it exactly, for every
/// state whose tag is free of the pair separator '&'. A tag holding '&'
/// would be cut at the separator, so such states are excluded.
#[verifier::rlimit(100)]
#[verifier::spinoff_prover]
pub proof fn lemma_parse_serialize_roundtrip(v: PaginationView)
    requires
        forall|i: int| 0 <= i < v.tag.len() ==> v.tag[i] != '&',
        0 <= v.page <= i64::MAX,
        0 < v.amount <= i64::MAX,
    ensures
        parse_spec(serialize_spec(v)) == v,
{
    reveal_strlit("/?tag=");
    reveal_strlit("&my_feed=");
    reveal_strlit("&page=");
    reveal_strlit("&amount=");
    reveal_strlit("&favourites=");
    reveal_strlit("my_feed=");
    reveal_strlit("page=");
    reveal_strlit("amount=");
    reveal_strlit("favourites=");
    reveal_strlit("tag");
    reveal_strlit("my_feed");
    reveal_strlit("page");
    reveal_strlit("amount");
    reveal_strlit("favourites");
    reveal_strlit("true");
    reveal_strlit("false");
    let amp = seq!['&'];
    let q0 = "/?tag="@ + v.tag;
    let q1 = "my_feed="@ + bool_rep(v.my_feed);
    let q2 = "page="@ + int_rep(v.page);
    let q3 = "amount="@ + int_rep(v.amount);
    let q4 = "favourites="@ + bool_rep(v.favourites);
    let s3 = q3 + amp + q4;
    let s2 = q2 + amp + s3;
    let s1 = q1 + amp + s2;
    let s0 = q0 + amp + s1;
    assert(serialize_spec(v) =~= s0);
    lemma_bool_rep_chars(v.my_feed);
    lemma_bool_rep_chars(v.favourites);
    lemma_int_rep_no_delims(v.page);
    lemma_int_rep_no_delims(v.amount);
    assert(forall|i: int| 0 <= i < q0.len() ==> q0[i] != '&');
    assert(forall|i: int| 0 <= i < q1.len() ==> q1[i] != '&');
    assert(forall|i: int| 0 <= i < q2.len() ==> q2[i] != '&');
    assert(forall|i: int| 0 <= i < q3.len() ==> q3[i] != '&');
    assert(forall|i: int| 0 <= i < q4.len() ==> q4[i] != '&');
    lemma_no_amp_no_find(q0);
    lemma_no_amp_no_find(q1);
    lemma_no_amp_no_find(q2);
    lemma_no_amp_no_find(q3);
    lemma_no_amp_no_find(q4);
    crate::text::lemma_split_char_append(q0, s1, '&');
    crate::text::lemma_split_char_append(q1, s2, '&');
    crate::text::lemma_split_char_append(q2, s3, '&');
    crate::text::lemma_split_char_append(q3, q4, '&');
    crate::text::lemma_split_char_whole(q4, '&');
    assert(s3 =~= q3 + amp + q4);
    let parts = split_char(s0, '&');
    assert(parts =~~= seq![q0, q1, q2, q3, q4]);
    let v0 = default_view();
    let v1 = apply_param_spec(v0, q0);
    let v2 = apply_param_spec(v1, q1);
    let v3 = apply_param_spec(v2, q2);
    let v4 = apply_param_spec(v3, q3);
    let v5 = apply_param_spec(v4, q4);
    lemma_apply_tag(v0, v.tag);
    assert(v1 == with_tag(v0, v.tag));
    lemma_apply_my_feed(v1, v.my_feed);
    assert(v2 == with_my_feed(v1, v.my_feed));
    lemma_apply_page(v2, v.page);
    assert(v3 == with_page(v2, v.page));
    lemma_apply_amount(v3, v.amount);
    assert(v4 == with_amount(v3, v.amount));
    lemma_apply_favourites(v4, v.favourites);
    assert(v5 == with_favourites(v4, v.favourites));
    assert(fold_params(v0, parts) == v5) by {
        reveal_with_fuel(fold_params, 7);
        assert(parts.drop_first() =~~= seq![q1, q2, q3, q4]);
        assert(seq![q1, q2, q3, q4].drop_first() =~~= seq![q2, q3, q4]);
        assert(seq![q2, q3, q4].drop_first() =~~= seq![q3, q4]);
        assert(seq![q3, q4].drop_first() =~~= seq![q4]);
        assert(seq![q4].drop_first() =~~= Seq::<Seq<char>>::empty());
    }
    assert(v5 == v);
}

proof fn lemma_apply_tag(w: PaginationView, tag: Seq<char>)
    ensures
        apply_param_spec(w, "/?tag="@ + tag) == with_tag(w, tag),
{
    reveal_strlit("/?tag=");
    reveal_strlit("tag");
    let part = "/?tag="@ + tag;
    assert(part[5] == '=');
    assert(forall|k: int| 0 <= k < 5 ==> part[k] != '=');
    crate::text::lemma_find_char_is(part, '=', 5);
    let key_raw = part.take(5);
    assert(key_raw.len() == 5 && key_raw[0] == '/' && key_raw[1] == '?');
    assert(key_raw.skip(2) =~= "tag"@);
    assert(trim_query_marks(key_raw) == "tag"@) by {
        reveal_with_fuel(trim_query_marks, 3);
        assert("tag"@[0] != '/');
    }
    assert(part.skip(6) =~= tag);
}

proof fn lemma_apply_my_feed(w: PaginationView, b: bool)
    ensures
        apply_param_spec(w, "my_feed="@ + bool_rep(b)) == with_my_feed(w, b),
{
    reveal_strlit("my_feed=");
    reveal_strlit("my_feed");
    reveal_strlit("tag");
    reveal_strlit("true");
    reveal_strlit("false");
    let part = "my_feed="@ + bool_rep(b);
    assert(part[7] == '=');
    assert(forall|k: int| 0 <= k < 7 ==> part[k] != '=');
    crate::text::lemma_find_char_is(part, '=', 7);
    let key_raw = part.take(7);
    assert(key_raw =~= "my_feed"@);
    assert(trim_query_marks("my_feed"@) == "my_feed"@) by {
        reveal_with_fuel(trim_query_marks, 2);
    }
    assert("my_feed"@ != "tag"@);
    assert(part.skip(8) =~= bool_rep(b));
    assert(bool_or_default(bool_rep(b)) == b) by {
        assert("true"@ != "false"@);
    }
}

proof fn lemma_apply_page(w: PaginationView, n: int)
    requires
        0 <= n <= i64::MAX,
    ensures
        apply_param_spec(w, "page="@ + int_rep(n)) == with_page(w, n),
{
    reveal_strlit("page=");
    reveal_strlit("page");
    reveal_strlit("tag");
    reveal_strlit("my_feed");
    let part = "page="@ + int_rep(n);
    lemma_int_rep_no_delims(n);
    assert(part[4] == '=');
    assert(forall|k: int| 0 <= k < 4 ==> part[k] != '=');
    crate::text::lemma_find_char_is(part, '=', 4);
    let key_raw = part.take(4);
    assert(key_raw =~= "page"@);
    assert(trim_query_marks("page"@) == "page"@) by {
        reveal_with_fuel(trim_query_marks, 2);
    }
    assert("page"@ != "tag"@ && "page"@ != "my_feed"@);
    assert(part.skip(5) =~= int_rep(n));
    crate::num::lemma_parse_int_rep(n as i64);
    assert(int_rep(n as i64 as int) == int_rep(n));
    assert(page_value(int_rep(n)) == n);
}

proof fn lemma_apply_amount(w: PaginationView, n: int)
    requires
        0 < n <= i64::MAX,
    ensures
        apply_param_spec(w, "amount="@ + int_rep(n)) == with_amount(w, n),
{
    reveal_strlit("amount=");
    reveal_strlit("amount");
    reveal_strlit("tag");
    reveal_strlit("my_feed");
    reveal_strlit("page");
    let part = "amount="@ + int_rep(n);
    lemma_int_rep_no_delims(n);
    assert(part[6] == '=');
    assert(forall|k: int| 0 <= k < 6 ==> part[k] != '=');
    crate::text::lemma_find_char_is(part, '=', 6);
    let key_raw = part.take(6);
    assert(key_raw =~= "amount"@);
    assert(trim_query_marks("amount"@) == "amount"@) by {
        reveal_with_fuel(trim_query_marks, 2);
    }
    assert("amount"@ != "tag"@ && "amount"@ != "my_feed"@ && "amount"@ != "page"@);
    assert(part.skip(7) =~= int_rep(n));
    crate::num::lemma_parse_int_rep(n as i64);
    assert(int_rep(n as i64 as int) == int_rep(n));
    assert(amount_value(int_rep(n)) == n);
}

proof fn lemma_apply_favourites(w: PaginationView, b: bool)
    ensures
        apply_param_spec(w, "favourites="@ + bool_rep(b)) == with_favourites(w, b),
{
    reveal_strlit("favourites=");
    reveal_strlit("favourites");
    reveal_strlit("tag");
    reveal_strlit("my_feed");
    reveal_strlit("page");
    reveal_strlit("amount");
    reveal_strlit("true");
    reveal_strlit("false");
    let part = "favourites="@ + bool_rep(b);
    lemma_bool_rep_chars(b);
    assert(part[10] == '=');
    assert(forall|k: int| 0 <= k < 10 ==> part[k] != '=');
    crate::text::lemma_find_char_is(part, '=', 10);
    let key_raw = part.take(10);
    assert(key_raw =~= "favourites"@);
    assert(trim_query_marks("favourites"@) == "favourites"@) by {
        reveal_with_fuel(trim_query_marks, 2);
    }
    assert("favourites"@ != "tag"@ && "favourites"@ != "my_feed"@ && "favourites"@ != "page"@
        && "favourites"@ != "amount"@);
    assert(part.skip(11) =~= bool_rep(b));
    assert(bool_or_default(bool_rep(b)) == b) by {
        assert("true"@ != "false"@);
    }
}

fn parse_params(p: Pagination, url: &str, from: usize) -> (r: Pagination)
    requires
        from <= url@.len(),
    ensures
        r@ == fold_params(p@, split_char(url@.skip(from as int), '&')),
    decreases url@.len() - from,
{
    let n = url.unicode_len();
    let ghost suffix = url@.skip(from as int);
    match find_char_from(url, from, '&') {
        None => {
            let part = url.substring_char(from, n);
            proof {
                reveal_with_fuel(fold_params, 3);
                assert(part@ =~= suffix);
                assert(split_char(suffix, '&') == seq![suffix]);
                assert(split_char(suffix, '&').drop_first() =~~= Seq::<Seq<char>>::empty());
            }
            apply_param(p, part)
        },
        Some(i) => {
            let part = url.substring_char(from, i);
            let ghost k = i - from;
            proof {
                assert(find_char(suffix, '&') == k);
                assert(part@ =~= suffix.take(k as int));
                assert(suffix.skip(k + 1) =~= url@.skip(i as int + 1));
            }
            let p2 = apply_param(p, part);
            let r = parse_params(p2, url, i + 1);
            proof {
                let parts = split_char(suffix, '&');
                assert(parts == seq![suffix.take(k as int)] + split_char(suffix.skip(k + 1), '&'));
                assert(parts[0] == part@);
                assert(parts.drop_first() =~~= split_char(suffix.skip(k + 1), '&'));
                assert(split_char(suffix.skip(k + 1), '&') == split_char(
                    url@.skip(i as int + 1),
                    '&',
                ));
            }
            r
        },
    }
}

} // verus!
