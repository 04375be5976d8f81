//! Search: turning what a user typed into a request to the full-text
//! engine, and the rows that the engine returns into results.
//!
//! The engine matches, ranks and cuts excerpts; the library states what it is
//! asked and what is made of its answer.

use crate::table::lemma_filter_members;
use crate::text::{chars_of, copy_text, is_white_space, join, joined, texts_of};
use vstd::seq_lib::*;
use vstd::prelude::*;

verus! {

/// How many results a search returns when the caller names no limit.
pub const DEFAULT_LIMIT: u64 = 50;

/// The number of characters before the first whitespace of `s`.
pub open spec fn leading_word_len(s: Seq<char>) -> nat
    decreases s.len(),
{
    if s.len() == 0 || is_white_space(s[0]) {
        0
    } else {
        1 + leading_word_len(s.drop_first())
    }
}

/// The words of `s`: its maximal runs of characters that are not whitespace,
/// from left to right.
pub open spec fn words(s: Seq<char>) -> Seq<Seq<char>>
    decreases s.len(),
{
    if s.len() == 0 {
        Seq::empty()
    } else if is_white_space(s[0]) {
        words(s.drop_first())
    } else {
        let n = leading_word_len(s);
        if 0 < n <= s.len() {
            seq![s.take(n as int)] + words(s.skip(n as int))
        } else {
            Seq::empty()
        }
    }
}

/// A word without its double quotes.
pub open spec fn without_quotes(word: Seq<char>) -> Seq<char> {
    word.filter(|c: char| c != '"')
}

/// The term that matches every token starting with `word`: the word without
/// its quotes, followed by the wildcard.
pub open spec fn prefix_term(word: Seq<char>) -> Seq<char> {
    without_quotes(word).push('*')
}

/// The prefix terms of a list of words.
pub open spec fn prefix_terms(list: Seq<Seq<char>>) -> Seq<Seq<char>> {
    list.map_values(|w: Seq<char>| prefix_term(w))
}

/// The match expression for a query: the prefix term of each of its words,
/// with single spaces between them.
pub open spec fn fts_query(query: Seq<char>) -> Seq<char> {
    joined(prefix_terms(words(query)), " "@)
}

/// A run of `n` characters without whitespace that ends the text or is
/// followed by whitespace is the leading word.
proof fn lemma_leading_word(s: Seq<char>, n: nat)
    requires
        n <= s.len(),
        forall|k: int| 0 <= k < n ==> !is_white_space(#[trigger] s[k]),
        n == s.len() || is_white_space(s[n as int]),
    ensures
        leading_word_len(s) == n,
    decreases n,
{
    if n > 0 {
        let rest = s.drop_first();
        assert forall|k: int| 0 <= k < n - 1 implies !is_white_space(#[trigger] rest[k]) by {
            assert(rest[k] == s[k + 1]);
        }
        lemma_leading_word(rest, (n - 1) as nat);
    }
}

/// The leading word is never longer than the text.
proof fn lemma_leading_word_bound(s: Seq<char>)
    ensures
        leading_word_len(s) <= s.len(),
    decreases s.len(),
{
    if s.len() > 0 && !is_white_space(s[0]) {
        lemma_leading_word_bound(s.drop_first());
    }
}

/// Builds the match expression for what the user typed: splits on
/// whitespace, drops double quotes from each word, appends the wildcard to
/// each, and joins the terms with single spaces.
pub fn build_fts_query(query: &str) -> (out: String)
    ensures
        out@ == fts_query(query@),
{
    let cs = chars_of(query);
    let mut terms: Vec<String> = Vec::new();
    let ghost mut seen: Seq<Seq<char>> = Seq::empty();
    let mut i: usize = 0;
    proof {
        assert(cs@.skip(0) == cs@);
        assert(seen + words(cs@.skip(0)) == words(cs@));
        assert(texts_of(terms@) =~= prefix_terms(seen));
    }
    while i < cs.len()
        invariant
            i <= cs.len(),
            cs@ == query@,
            words(cs@) == seen + words(cs@.skip(i as int)),
            texts_of(terms@) == prefix_terms(seen),
        decreases cs.len() - i,
    {
        let ghost rest = cs@.skip(i as int);
        proof {
            assert(rest.len() > 0);
            assert(rest[0] == cs@[i as int]);
            assert(rest.drop_first() == cs@.skip(i + 1));
        }
        if cs[i].is_whitespace() {
            i += 1;
        } else {
            let start = i;
            let mut term = String::new();
            proof {
                assert(cs@.subrange(start as int, i as int) =~= Seq::<char>::empty());
                reveal(Seq::filter);
                assert(without_quotes(Seq::<char>::empty()) =~= Seq::<char>::empty());
            }
            while i < cs.len() && !cs[i].is_whitespace()
                invariant
                    start <= i <= cs.len(),
                    forall|k: int| start <= k < i ==> !is_white_space(#[trigger] cs@[k]),
                    term@ == without_quotes(cs@.subrange(start as int, i as int)),
                decreases cs.len() - i,
            {
                let c = cs[i];
                proof {
                    let word = cs@.subrange(start as int, i as int);
                    assert(cs@.subrange(start as int, i + 1) == word.push(c));
                    word.lemma_filter_push(c, |c: char| c != '"');
                }
                if c != '"' {
                    term.push(c);
                }
                i += 1;
            }
            let ghost word = cs@.subrange(start as int, i as int);
            proof {
                let n = (i - start) as nat;
                assert forall|k: int| 0 <= k < n implies !is_white_space(#[trigger] rest[k]) by {
                    assert(rest[k] == cs@[start + k]);
                }
                if i < cs.len() {
                    assert(rest[n as int] == cs@[i as int]);
                }
                lemma_leading_word(rest, n);
                assert(rest.take(n as int) == word);
                assert(rest.skip(n as int) == cs@.skip(i as int));
                assert(words(rest) == seq![word] + words(cs@.skip(i as int)));
                assert(seen + (seq![word] + words(cs@.skip(i as int))) == seen.push(word) + words(
                    cs@.skip(i as int),
                ));
            }
            term.push('*');
            let ghost old_terms = terms@;
            terms.push(term);
            proof {
                assert(texts_of(terms@) =~= texts_of(old_terms).push(prefix_term(word)));
                assert(
                    prefix_terms(seen.push(word)) =~= prefix_terms(seen).push(prefix_term(word))
                );
                seen = seen.push(word);
            }
        }
    }
    proof {
        assert(cs@.skip(cs@.len() as int) =~= Seq::<char>::empty());
        assert(seen + Seq::<Seq<char>>::empty() == seen);
    }
    join(&terms, " ")
}

/// The number of results to return: the limit asked for, or the default
/// where none was.
pub open spec fn limit_or_default(limit: Option<u64>) -> u64 {
    match limit {
        Some(n) => n,
        None => DEFAULT_LIMIT,
    }
}

/// Decides [`limit_or_default`].
pub fn effective_limit(limit: Option<u64>) -> (n: u64)
    ensures
        n == limit_or_default(limit),
{
    match limit {
        Some(n) => n,
        None => DEFAULT_LIMIT,
    }
}

/// What the full-text engine is asked.
#[derive(Debug)]
pub struct SearchRequest {
    /// The match expression.
    pub match_expression: String,
    /// The campaign whose entries may be returned.
    pub campaign_id: String,
    /// The number of results that may be returned at most.
    pub limit: u64,
}

/// The request for a search in the campaign `campaign_id` for what the user
/// typed. `entity_types` is accepted and has no effect: results are not
/// restricted by kind.
pub fn search_request(
    campaign_id: String,
    query: String,
    entity_types: Option<Vec<String>>,
    limit: Option<u64>,
) -> (request: SearchRequest)
    ensures
        request.match_expression@ == fts_query(query@),
        request.campaign_id == campaign_id,
        request.limit == limit_or_default(limit),
{
    SearchRequest {
        match_expression: build_fts_query(query.as_str()),
        campaign_id,
        limit: effective_limit(limit),
    }
}

/// One row as the engine returned it; a column that could not be read is
/// `None`.
#[derive(Debug)]
pub struct SearchRow {
    pub entity_type: Option<String>,
    pub entity_id: Option<String>,
    pub campaign_id: Option<String>,
    pub name: Option<String>,
    pub snippet: Option<String>,
    /// The relevance score, as the bits of its double-precision number.
    pub rank_bits: Option<u64>,
}

/// One result of a search.
#[derive(Debug)]
pub struct SearchResult {
    pub entity_type: String,
    pub entity_id: String,
    pub name: String,
    /// An excerpt of the searchable text with the matches marked.
    pub snippet: Option<String>,
    /// The relevance score, as the bits of its double-precision number; the
    /// engine returns the best match first.
    pub rank_bits: u64,
}

/// The result that a row gives: none where the kind, the identifier, the
/// name or the score could not be read; the excerpt may be missing.
pub open spec fn result_of(row: SearchRow) -> Option<SearchResult> {
    match (row.entity_type, row.entity_id, row.name, row.rank_bits) {
        (Some(entity_type), Some(entity_id), Some(name), Some(rank_bits)) => Some(
            SearchResult { entity_type, entity_id, name, snippet: row.snippet, rank_bits },
        ),
        _ => None,
    }
}

/// The test that a row belongs to the campaign `campaign`.
pub open spec fn is_row_of(campaign: Seq<char>) -> spec_fn(SearchRow) -> bool {
    |row: SearchRow| row.campaign_id matches Some(c) && c@ == campaign
}

/// The results of rows, in the order of the rows; a row that gives no
/// result is left out.
pub open spec fn results_of(rows: Seq<SearchRow>) -> Seq<SearchResult> {
    rows.filter_map(|row: SearchRow| result_of(row))
}

/// The first `limit` of `results`, or all of them where they are fewer.
pub open spec fn at_most(results: Seq<SearchResult>, limit: u64) -> Seq<SearchResult> {
    if results.len() <= limit {
        results
    } else {
        results.take(limit as int)
    }
}

/// What a search returns of the rows that the engine found: the results of
/// the rows of the campaign, in the order of the rows, and no more than
/// `limit` of them.
pub open spec fn selected(rows: Seq<SearchRow>, campaign: Seq<char>, limit: u64) -> Seq<
    SearchResult,
> {
    at_most(results_of(rows.filter(is_row_of(campaign))), limit)
}

/// Decides [`result_of`].
fn to_result(row: &SearchRow) -> (r: Option<SearchResult>)
    ensures
        r == result_of(*row),
{
    match (&row.entity_type, &row.entity_id, &row.name, &row.rank_bits) {
        (Some(entity_type), Some(entity_id), Some(name), Some(rank_bits)) => Some(
            SearchResult {
                entity_type: entity_type.clone(),
                entity_id: entity_id.clone(),
                name: name.clone(),
                snippet: copy_text(&row.snippet),
                rank_bits: *rank_bits,
            },
        ),
        _ => None,
    }
}

/// The results of a search, made of the rows that the engine returned: a row
/// of another campaign and a row that gives no result are left out, the
/// order of the rows is kept, and there are no more than `limit` results,
/// whatever the engine returned.
pub fn collect_results(rows: Vec<SearchRow>, campaign_id: &String, limit: u64) -> (out: Vec<
    SearchResult,
>)
    ensures
        out@ == selected(rows@, campaign_id@, limit),
{
    let mut out: Vec<SearchResult> = Vec::new();
    let mut i: usize = 0;
    let ghost pred = is_row_of(campaign_id@);
    proof {
        reveal(Seq::filter);
        assert(rows@.take(0) =~= Seq::<SearchRow>::empty());
        assert(results_of(rows@.take(0).filter(pred)) =~= Seq::<SearchResult>::empty());
    }
    while i < rows.len()
        invariant
            i <= rows.len(),
            pred == is_row_of(campaign_id@),
            out@ == at_most(results_of(rows@.take(i as int).filter(pred)), limit),
        decreases rows.len() - i,
    {
        let ghost kept = rows@.take(i as int).filter(pred);
        let ghost before = out@;
        proof {
            assert(rows@.take(i + 1) == rows@.take(i as int).push(rows@[i as int]));
            rows@.take(i as int).lemma_filter_push(rows@[i as int], pred);
            lemma_results_push(kept, rows@[i as int]);
        }
        let within = match &rows[i].campaign_id {
            Some(c) => *c == *campaign_id,
            None => false,
        };
        if within {
            match to_result(&rows[i]) {
                Some(result) => {
                    if (out.len() as u64) < limit {
                        out.push(result);
                        assert(out@ =~= at_most(results_of(kept).push(result), limit));
                    } else {
                        assert(out@ =~= at_most(results_of(kept).push(result), limit));
                    }
                },
                None => {},
            }
        }
        i += 1;
    }
    proof {
        assert(rows@.take(rows@.len() as int) == rows@);
    }
    out
}

/// The results of rows with one more row are the results of the rows,
/// followed by the result of that row where it gives one.
proof fn lemma_results_push(rows: Seq<SearchRow>, row: SearchRow)
    ensures
        results_of(rows.push(row)) == match result_of(row) {
            Some(result) => results_of(rows).push(result),
            None => results_of(rows),
        },
{
    assert(rows.push(row).drop_last() == rows);
    match result_of(row) {
        Some(result) => {
            assert(results_of(rows) + seq![result] =~= results_of(rows).push(result));
        },
        None => {},
    }
}

/// Search is scoped and bounded: there are no more results than the limit,
/// and each is the result of a row of the campaign that was searched.
pub proof fn law_results_are_scoped_and_bounded(
    rows: Seq<SearchRow>,
    campaign: Seq<char>,
    limit: u64,
    k: int,
)
    requires
        0 <= k < selected(rows, campaign, limit).len(),
    ensures
        selected(rows, campaign, limit).len() <= limit,
        selected(rows, campaign, limit).len() <= rows.len(),
        exists|j: int|
            0 <= j < rows.len() && is_row_of(campaign)(#[trigger] rows[j]) && result_of(rows[j])
                == Some(selected(rows, campaign, limit)[k]),
{
    let kept = rows.filter(is_row_of(campaign));
    let results = results_of(kept);
    let f = |row: SearchRow| result_of(row);
    lemma_filter_members(rows, is_row_of(campaign));
    rows.lemma_filter_len(is_row_of(campaign));
    lemma_results_from_rows(kept);
    assert(selected(rows, campaign, limit)[k] == results[k]);
    let i = choose|i: int| 0 <= i < kept.len() && result_of(#[trigger] kept[i]) == Some(results[k]);
    assert(kept.contains(kept[i]));
    assert(rows.contains(kept[i]));
    let j = choose|j: int| 0 <= j < rows.len() && rows[j] == kept[i];
    assert(is_row_of(campaign)(rows[j]));
}

/// Every result is the result of one of the rows, and there are no more
/// results than rows.
proof fn lemma_results_from_rows(rows: Seq<SearchRow>)
    ensures
        results_of(rows).len() <= rows.len(),
        forall|k: int|
            0 <= k < results_of(rows).len() ==> exists|i: int|
                0 <= i < rows.len() && result_of(#[trigger] rows[i]) == Some(
                    #[trigger] results_of(rows)[k],
                ),
    decreases rows.len(),
{
    if rows.len() > 0 {
        let init = rows.drop_last();
        lemma_results_from_rows(init);
        assert(init.push(rows.last()) == rows);
        lemma_results_push(init, rows.last());
        assert forall|k: int| 0 <= k < results_of(rows).len() implies exists|i: int|
            0 <= i < rows.len() && result_of(#[trigger] rows[i]) == Some(
                #[trigger] results_of(rows)[k],
            ) by {
            if k < results_of(init).len() {
                let i = choose|i: int|
                    0 <= i < init.len() && result_of(#[trigger] init[i]) == Some(
                        results_of(init)[k],
                    );
                assert(rows[i] == init[i]);
                assert(result_of(rows[i]) == Some(results_of(rows)[k]));
            } else {
                assert(result_of(rows[rows.len() - 1]) == Some(results_of(rows)[k]));
            }
        }
    }
}

} // verus!
