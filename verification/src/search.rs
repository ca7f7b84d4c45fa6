//! Bounded text search: every place where a query stands in a text, letter
//! case ignored, each with a window of context, up to a limit.

use crate::chars::{
    chars_of, find_from, first_occurrence, lemma_first_occurrence, lowercase, string_of,
    to_lowercase,
};
use vstd::prelude::*;

verus! {

/// How many characters of context a match shows on either side.
pub const CONTEXT: usize = 50;

/// One place where the query was found.
#[derive(Debug)]
pub struct RenderSearchMatch {
    /// The page of the match, counted from 1.
    pub page: usize,
    /// The match with its context.
    pub text: String,
}

/// A match as plain values.
pub struct MatchView {
    pub page: usize,
    pub text: Seq<char>,
}

impl View for RenderSearchMatch {
    type V = MatchView;

    open spec fn view(&self) -> MatchView {
        MatchView { page: self.page, text: self.text@ }
    }
}

/// The views of a list of matches.
pub open spec fn match_views(list: Seq<RenderSearchMatch>) -> Seq<MatchView> {
    list.map_values(|m: RenderSearchMatch| m@)
}

/// Whether `c` is white space: a character with the Unicode property
/// `White_Space`.
pub open spec fn is_space(c: char) -> bool {
    let n = c as u32;
    ||| 0x09 <= n <= 0x0D
    ||| n == 0x20
    ||| n == 0x85
    ||| n == 0xA0
    ||| n == 0x1680
    ||| 0x2000 <= n <= 0x200A
    ||| n == 0x2028
    ||| n == 0x2029
    ||| n == 0x202F
    ||| n == 0x205F
    ||| n == 0x3000
}

/// The first position in `from..to` of a character of `s` that is no white
/// space, or `to`.
pub open spec fn skip_spaces(s: Seq<char>, from: int, to: int) -> int
    decreases to - from,
{
    if from < 0 || from >= to || to > s.len() {
        to
    } else if is_space(s[from]) {
        skip_spaces(s, from + 1, to)
    } else {
        from
    }
}

/// The end of `s[from..to]` without the white space at its end.
pub open spec fn drop_spaces(s: Seq<char>, from: int, to: int) -> int
    decreases to - from,
{
    if from < 0 || from >= to || to > s.len() {
        from
    } else if is_space(s[to - 1]) {
        drop_spaces(s, from, to - 1)
    } else {
        to
    }
}

/// `s[lo..hi]` without the white space at its start and at its end.
pub open spec fn trimmed_range(s: Seq<char>, lo: int, hi: int) -> Seq<char> {
    let a = skip_spaces(s, lo, hi);
    s.subrange(a, drop_spaces(s, a, hi))
}

/// `s` without the white space at its start and at its end.
pub open spec fn trimmed(s: Seq<char>) -> Seq<char> {
    trimmed_range(s, 0, s.len() as int)
}

/// Where the context of a match at `at` begins in a text of `len`
/// characters.
pub open spec fn window_start(len: int, at: int) -> int {
    if at - CONTEXT < 0 {
        0
    } else if at - CONTEXT > len {
        len
    } else {
        at - CONTEXT
    }
}

/// Where the context of a match at `at` of a query of `query_len`
/// characters ends in a text of `len` characters.
pub open spec fn window_end(len: int, at: int, query_len: int) -> int {
    if at + query_len + CONTEXT > len {
        len
    } else if at + query_len + CONTEXT < window_start(len, at) {
        window_start(len, at)
    } else {
        at + query_len + CONTEXT
    }
}

/// What a match at position `at` shows of `text`: the characters from 50
/// before the match to 50 behind it, cut off at the ends of the text, and
/// without the white space at both ends where `trim` is set.
pub open spec fn snippet(text: Seq<char>, at: int, query_len: int, trim: bool) -> Seq<char> {
    let lo = window_start(text.len() as int, at);
    let hi = window_end(text.len() as int, at, query_len);
    if trim {
        trimmed_range(text, lo, hi)
    } else {
        text.subrange(lo, hi)
    }
}

/// The first `room` matches of `needle` in `lowered` at or after `from`, in
/// order, each with its context from `text`. Overlapping matches count: the
/// search goes on one character behind each match.
pub open spec fn page_matches(
    text: Seq<char>,
    lowered: Seq<char>,
    needle: Seq<char>,
    query_len: int,
    page: usize,
    from: int,
    room: nat,
    trim: bool,
) -> Seq<MatchView>
    decreases room,
{
    if room == 0 {
        Seq::empty()
    } else {
        match first_occurrence(lowered, needle, from) {
            None => Seq::empty(),
            Some(at) => seq![MatchView { page, text: snippet(text, at, query_len, trim) }]
                + page_matches(
                text,
                lowered,
                needle,
                query_len,
                page,
                at + 1,
                (room - 1) as nat,
                trim,
            ),
        }
    }
}

/// A page never gives more matches than there is room for.
pub proof fn lemma_page_matches_bounded(
    text: Seq<char>,
    lowered: Seq<char>,
    needle: Seq<char>,
    query_len: int,
    page: usize,
    from: int,
    room: nat,
    trim: bool,
)
    ensures
        page_matches(text, lowered, needle, query_len, page, from, room, trim).len() <= room,
    decreases room,
{
    if room > 0 {
        match first_occurrence(lowered, needle, from) {
            None => {},
            Some(at) => {
                lemma_page_matches_bounded(
                    text,
                    lowered,
                    needle,
                    query_len,
                    page,
                    at + 1,
                    (room - 1) as nat,
                    trim,
                );
            },
        }
    }
}

/// Tests `is_space`.
pub fn is_space_char(c: char) -> (out: bool)
    ensures
        out == is_space(c),
{
    let n = c as u32;
    (0x09 <= n && n <= 0x0D) || n == 0x20 || n == 0x85 || n == 0xA0 || n == 0x1680 || (0x2000 <= n
        && n <= 0x200A) || n == 0x2028 || n == 0x2029 || n == 0x202F || n == 0x205F || n == 0x3000
}

/// The string of `text[lo..hi]`, without the white space at both ends where
/// `trim` is set.
pub fn cut(text: &Vec<char>, lo: usize, hi: usize, trim: bool) -> (out: String)
    requires
        lo <= hi <= text@.len(),
    ensures
        out@ == if trim {
            trimmed_range(text@, lo as int, hi as int)
        } else {
            text@.subrange(lo as int, hi as int)
        },
{
    if !trim {
        return string_of(text, lo, hi);
    }
    let mut a: usize = lo;
    while a < hi && is_space_char(text[a])
        invariant
            lo <= a <= hi <= text@.len(),
            skip_spaces(text@, lo as int, hi as int) == skip_spaces(text@, a as int, hi as int),
        decreases hi - a,
    {
        a += 1;
    }
    let mut b: usize = hi;
    while b > a && is_space_char(text[b - 1])
        invariant
            a <= b <= hi <= text@.len(),
            drop_spaces(text@, a as int, hi as int) == drop_spaces(text@, a as int, b as int),
        decreases b - a,
    {
        b -= 1;
    }
    string_of(text, a, b)
}

/// Appends to `out` the matches of `needle` in `lowered`, each with its
/// context from `text`, until `out` holds `limit` matches or the page is
/// exhausted.
#[verifier::loop_isolation(false)]
pub fn search_lowered(
    text: &Vec<char>,
    lowered: &Vec<char>,
    needle: &Vec<char>,
    query_len: usize,
    page: usize,
    limit: usize,
    trim: bool,
    out: &mut Vec<RenderSearchMatch>,
)
    ensures
        match_views(final(out)@) == match_views(old(out)@) + page_matches(
            text@,
            lowered@,
            needle@,
            query_len as int,
            page,
            0,
            if limit >= old(out)@.len() {
                (limit - old(out)@.len()) as nat
            } else {
                0
            },
            trim,
        ),
{
    let ghost start = match_views(out@);
    let ghost room0: nat = if limit >= out@.len() {
        (limit - out@.len()) as nat
    } else {
        0
    };
    let ghost goal = start + page_matches(
        text@,
        lowered@,
        needle@,
        query_len as int,
        page,
        0,
        room0,
        trim,
    );
    let mut from: usize = 0;
    assert(match_views(out@) + page_matches(
        text@,
        lowered@,
        needle@,
        query_len as int,
        page,
        0,
        room0,
        trim,
    ) == goal);
    while out.len() < limit
        invariant
            from <= lowered@.len() + 1,
            out@.len() <= limit ==> match_views(out@) + page_matches(
                text@,
                lowered@,
                needle@,
                query_len as int,
                page,
                from as int,
                (limit - out@.len()) as nat,
                trim,
            ) == goal,
            out@.len() > limit ==> match_views(out@) == goal,
        decreases limit - out@.len(),
    {
        if from > lowered.len() {
            assert(match_views(out@) + Seq::<MatchView>::empty() =~= match_views(out@));
            return ;
        }
        let found = find_from(lowered, needle, from);
        let at = match found {
            Some(at) => at,
            None => {
                assert(match_views(out@) + Seq::<MatchView>::empty() =~= match_views(out@));
                return ;
            },
        };
        proof {
            lemma_first_occurrence(lowered@, needle@, from as int);
        }
        let len = text.len();
        let lo: usize = if at < CONTEXT {
            0
        } else if at - CONTEXT > len {
            len
        } else {
            at - CONTEXT
        };
        let far: u128 = at as u128 + query_len as u128 + CONTEXT as u128;
        let hi: usize = if far > len as u128 {
            len
        } else if far < lo as u128 {
            lo
        } else {
            far as usize
        };
        let piece = cut(text, lo, hi, trim);
        let ghost before = match_views(out@);
        let ghost rest = page_matches(
            text@,
            lowered@,
            needle@,
            query_len as int,
            page,
            at + 1,
            (limit - out@.len() - 1) as nat,
            trim,
        );
        out.push(RenderSearchMatch { page, text: piece });
        assert(match_views(out@) =~= before + seq![MatchView { page, text: piece@ }]);
        assert(before + (seq![MatchView { page, text: piece@ }] + rest) =~= before + seq![
            MatchView { page, text: piece@ },
        ] + rest);
        if at >= lowered.len() {
            assert(rest =~= Seq::<MatchView>::empty());
            return ;
        }
        from = at + 1;
    }
    proof {
        if out@.len() <= limit {
            assert(page_matches(
                text@,
                lowered@,
                needle@,
                query_len as int,
                page,
                from as int,
                0,
                trim,
            ) =~= Seq::<MatchView>::empty());
            assert(match_views(out@) + Seq::<MatchView>::empty() =~= match_views(out@));
        }
    }
}

/// Appends to `out` the places where `query` stands in `text`, letter case
/// ignored, each with its context, until `out` holds `limit` matches or the
/// page is exhausted. An empty query matches nowhere.
pub fn search_page(
    text: &str,
    query: &str,
    page: usize,
    limit: usize,
    trim: bool,
    out: &mut Vec<RenderSearchMatch>,
)
    ensures
        match_views(final(out)@) == match_views(old(out)@) + text_matches(
            text@,
            query@,
            page,
            if limit >= old(out)@.len() {
                (limit - old(out)@.len()) as nat
            } else {
                0
            },
            trim,
        ),
{
    let q = chars_of(query);
    if q.len() == 0 {
        assert(match_views(out@) + Seq::<MatchView>::empty() =~= match_views(out@));
        return ;
    }
    let t = chars_of(text);
    let lowered = chars_of(to_lowercase(text).as_str());
    let needle = chars_of(to_lowercase(query).as_str());
    search_lowered(&t, &lowered, &needle, q.len(), page, limit, trim, out);
}

/// The first `room` places where `query` stands in `text`, letter case
/// ignored, as matches on the page `page`; none for an empty query.
pub open spec fn text_matches(text: Seq<char>, query: Seq<char>, page: usize, room: nat, trim: bool) -> Seq<
    MatchView,
> {
    if query.len() == 0 {
        Seq::empty()
    } else {
        page_matches(
            text,
            lowercase(text),
            lowercase(query),
            query.len() as int,
            page,
            0,
            room,
            trim,
        )
    }
}

/// A search of a page gives at most `room` matches, and none for an empty
/// query.
pub proof fn law_search_is_bounded(text: Seq<char>, query: Seq<char>, page: usize, room: nat, trim: bool)
    ensures
        text_matches(text, query, page, room, trim).len() <= room,
        query.len() == 0 ==> text_matches(text, query, page, room, trim).len() == 0,
{
    lemma_page_matches_bounded(
        text,
        lowercase(text),
        lowercase(query),
        query.len() as int,
        page,
        0,
        room,
        trim,
    );
}

/// The characters of each text of a list, `None` for a page without text.
pub open spec fn page_texts(pages: Seq<Option<String>>) -> Seq<Option<Seq<char>>> {
    pages.map_values(
        |p: Option<String>|
            match p {
                Some(t) => Some(t@),
                None => None,
            },
    )
}

/// The first `room` places where `query` stands in the pages from the
/// index `done` on, page by page in order. The page with the index `i` has
/// the number `i + 1`; a page without text has no match.
pub open spec fn document_matches(
    pages: Seq<Option<Seq<char>>>,
    query: Seq<char>,
    done: int,
    room: nat,
    trim: bool,
) -> Seq<MatchView>
    decreases pages.len() - done,
{
    if done < 0 || done >= pages.len() {
        Seq::empty()
    } else {
        let here = match pages[done] {
            Some(text) => text_matches(text, query, (done + 1) as usize, room, trim),
            None => Seq::empty(),
        };
        here + document_matches(pages, query, done + 1, (room - here.len()) as nat, trim)
    }
}

/// A search of a document gives at most `room` matches, and none for an
/// empty query.
pub proof fn law_document_search_is_bounded(
    pages: Seq<Option<Seq<char>>>,
    query: Seq<char>,
    done: int,
    room: nat,
    trim: bool,
)
    ensures
        document_matches(pages, query, done, room, trim).len() <= room,
        query.len() == 0 ==> document_matches(pages, query, done, room, trim).len() == 0,
    decreases pages.len() - done,
{
    if 0 <= done < pages.len() {
        let here = match pages[done] {
            Some(text) => text_matches(text, query, (done + 1) as usize, room, trim),
            None => Seq::empty(),
        };
        if pages[done] is Some {
            law_search_is_bounded(pages[done]->0, query, (done + 1) as usize, room, trim);
        }
        law_document_search_is_bounded(pages, query, done + 1, (room - here.len()) as nat, trim);
    }
}

/// Searches the pages of a document in order for `query`, letter case
/// ignored, and stops at `limit` matches.
pub fn search_pages(pages: &Vec<Option<String>>, query: &str, limit: usize, trim: bool) -> (out: Vec<
    RenderSearchMatch,
>)
    ensures
        match_views(out@) == document_matches(page_texts(pages@), query@, 0, limit as nat, trim),
        out@.len() <= limit,
        query@.len() == 0 ==> out@.len() == 0,
{
    let ghost texts = page_texts(pages@);
    let ghost goal = document_matches(texts, query@, 0, limit as nat, trim);
    let mut out: Vec<RenderSearchMatch> = Vec::new();
    let mut i: usize = 0;
    assert(match_views(out@) + goal =~= goal);
    while i < pages.len()
        invariant
            i <= pages@.len(),
            texts == page_texts(pages@),
            out@.len() <= limit,
            match_views(out@) + document_matches(
                texts,
                query@,
                i as int,
                (limit - out@.len()) as nat,
                trim,
            ) == goal,
        decreases pages@.len() - i,
    {
        let ghost before = match_views(out@);
        let ghost room = (limit - out@.len()) as nat;
        match &pages[i] {
            Some(text) => {
                proof {
                    law_search_is_bounded(text@, query@, (i + 1) as usize, room, trim);
                }
                search_page(text.as_str(), query, i + 1, limit, trim, &mut out);
            },
            None => {
                assert(match_views(out@) =~= before + Seq::<MatchView>::empty());
            },
        }
        proof {
            let here = match texts[i as int] {
                Some(text) => text_matches(text, query@, (i + 1) as usize, room, trim),
                None => Seq::empty(),
            };
            assert(match_views(out@) == before + here);
            assert(match_views(out@).len() == out@.len());
            let rest = document_matches(texts, query@, i + 1, (room - here.len()) as nat, trim);
            assert(before + (here + rest) =~= before + here + rest);
        }
        i += 1;
    }
    proof {
        assert(match_views(out@) + Seq::<MatchView>::empty() =~= match_views(out@));
        law_document_search_is_bounded(texts, query@, 0, limit as nat, trim);
        assert(match_views(out@).len() == out@.len());
    }
    out
}

} // verus!
