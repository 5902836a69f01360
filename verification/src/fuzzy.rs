//! Fuzzy ranking of catalog records against a live search pattern.
//!
//! Every record is matched against its composite match string. On the empty
//! pattern every record passes with the fixed minimal score 1, in catalog
//! order. On a non-empty pattern the skim matcher scores each record, entries
//! at or below the threshold are discarded as noise, and the rest are sorted
//! by score descending with ties keeping catalog order.

use vstd::prelude::*;

use fuzzy_matcher::FuzzyMatcher;

use crate::command_scores::{
    score_contains_id, score_unique_ids, score_views_of, CommandScore, CommandScoreV,
    CommandScores,
};
use crate::crow_commands::{
    contains_id, match_str_spec, unique_ids, views_of, CrowCommand, CrowCommandV, Id,
};

verus! {

/// Entries scoring at or below this are discarded from search results: a
/// deliberate precision filter against noise matches.
pub const SCORE_THRESHOLD: i64 = 50;

/// What the skim fuzzy matcher returns for a candidate and a pattern: the
/// score and the matched character offsets, or nothing when the pattern does
/// not match at all. Uninterpreted: the matcher's scoring algorithm is relied
/// on, not restated.
pub uninterp spec fn fuzzy_match_of(candidate: Seq<char>, pattern: Seq<char>) -> Option<
    (int, Seq<usize>),
>;

/// Relies on `fuzzy_matcher::skim::SkimMatcherV2::fuzzy_indices` under the
/// matcher's default configuration: the score and matched indices it returns
/// depend on the candidate and the pattern alone.
#[verifier::external_body]
fn skim_fuzzy_indices(candidate: &str, pattern: &str) -> (r: Option<(i64, Vec<usize>)>)
    ensures
        match r {
            Some(m) => fuzzy_match_of(candidate@, pattern@) == Some((m.0 as int, m.1@)),
            None => fuzzy_match_of(candidate@, pattern@) is None,
        },
{
    let matcher = fuzzy_matcher::skim::SkimMatcherV2::default();
    matcher.fuzzy_indices(candidate, pattern)
}

/// The score entry a record gets on the empty pattern: the fixed minimal
/// score 1 and no matched offsets.
pub open spec fn empty_pattern_entry(c: CrowCommandV) -> CommandScoreV {
    CommandScoreV { score: 1, indices: Seq::empty(), command_id: c.id }
}

/// Entries of the empty-pattern search: one per record, in catalog order.
pub open spec fn empty_pattern_scores(s: Seq<CrowCommandV>) -> Seq<CommandScoreV> {
    s.map_values(|c: CrowCommandV| empty_pattern_entry(c))
}

/// What one record contributes on a non-empty pattern: its entry when the
/// matcher scores it above the threshold, nothing otherwise.
pub open spec fn match_entry(c: CrowCommandV, pattern: Seq<char>) -> Seq<CommandScoreV> {
    match fuzzy_match_of(match_str_spec(c), pattern) {
        Some(m) => if m.0 > SCORE_THRESHOLD as int {
            seq![CommandScoreV { score: m.0, indices: m.1, command_id: c.id }]
        } else {
            Seq::empty()
        },
        None => Seq::empty(),
    }
}

/// The surviving entries of a non-empty pattern before ranking, in catalog
/// order.
pub open spec fn scored_entries(s: Seq<CrowCommandV>, pattern: Seq<char>) -> Seq<CommandScoreV>
    decreases s.len(),
{
    if s.len() == 0 {
        Seq::empty()
    } else {
        scored_entries(s.drop_last(), pattern) + match_entry(s.last(), pattern)
    }
}

/// Inserts an entry into a ranked list: after every entry scoring at least as
/// high (so ties keep their earlier position), before the first scoring
/// lower.
pub open spec fn insert_desc(s: Seq<CommandScoreV>, x: CommandScoreV) -> Seq<CommandScoreV>
    decreases s.len(),
{
    if s.len() == 0 {
        seq![x]
    } else if s[0].score >= x.score {
        seq![s[0]] + insert_desc(s.skip(1), x)
    } else {
        seq![x] + s
    }
}

/// Stable descending sort by score: entries are inserted in encounter order,
/// each behind all entries ranked at least as high.
pub open spec fn sort_desc(s: Seq<CommandScoreV>) -> Seq<CommandScoreV>
    decreases s.len(),
{
    if s.len() == 0 {
        Seq::empty()
    } else {
        insert_desc(sort_desc(s.drop_last()), s.last())
    }
}

/// Scores never increase along the list.
pub open spec fn sorted_desc(s: Seq<CommandScoreV>) -> bool {
    forall|i: int, j: int| 0 <= i < j < s.len() ==> s[i].score >= s[j].score
}

/// The whole ranking: the full catalog with score 1 on the empty pattern,
/// otherwise the thresholded entries sorted by score descending.
pub open spec fn search_spec(s: Seq<CrowCommandV>, pattern: Seq<char>) -> Seq<CommandScoreV> {
    if pattern.len() == 0 {
        empty_pattern_scores(s)
    } else {
        sort_desc(scored_entries(s, pattern))
    }
}

/// Every element of an insertion is the inserted entry or one of the list's.
pub proof fn lemma_insert_desc_contents(s: Seq<CommandScoreV>, x: CommandScoreV)
    ensures
        insert_desc(s, x).len() == s.len() + 1,
        forall|i: int|
            0 <= i < insert_desc(s, x).len() ==> insert_desc(s, x)[i] == x || exists|j: int|
                0 <= j < s.len() && insert_desc(s, x)[i] == s[j],
    decreases s.len(),
{
    if s.len() == 0 {
    } else if s[0].score >= x.score {
        lemma_insert_desc_contents(s.skip(1), x);
        let t = insert_desc(s, x);
        assert forall|i: int| 0 <= i < t.len() implies t[i] == x || exists|j: int|
            0 <= j < s.len() && t[i] == s[j] by {
            if i == 0 {
                assert(t[0] == s[0]);
            } else {
                let u = insert_desc(s.skip(1), x);
                assert(t[i] == u[i - 1]);
                if u[i - 1] != x {
                    let j = choose|j: int| 0 <= j < s.skip(1).len() && u[i - 1] == s.skip(1)[j];
                    assert(t[i] == s[j + 1]);
                }
            }
        }
    }
}

/// Inserting into a ranked list keeps it ranked.
pub proof fn lemma_insert_desc_sorted(s: Seq<CommandScoreV>, x: CommandScoreV)
    requires
        sorted_desc(s),
    ensures
        sorted_desc(insert_desc(s, x)),
    decreases s.len(),
{
    if s.len() == 0 {
    } else if s[0].score >= x.score {
        assert(sorted_desc(s.skip(1)));
        lemma_insert_desc_sorted(s.skip(1), x);
        lemma_insert_desc_contents(s.skip(1), x);
        let t = insert_desc(s, x);
        let u = insert_desc(s.skip(1), x);
        assert forall|i: int, j: int| 0 <= i < j < t.len() implies t[i].score
            >= t[j].score by {
            if i == 0 {
                assert(t[j] == u[j - 1]);
                if u[j - 1] != x {
                    let k = choose|k: int|
                        0 <= k < s.skip(1).len() && u[j - 1] == s.skip(1)[k];
                    assert(s[0].score >= s.skip(1)[k].score);
                }
            } else {
                assert(t[i] == u[i - 1] && t[j] == u[j - 1]);
            }
        }
    }
}

/// The ranked image of a list is ranked.
pub proof fn lemma_sort_desc_sorted(s: Seq<CommandScoreV>)
    ensures
        sorted_desc(sort_desc(s)),
        sort_desc(s).len() == s.len(),
        forall|i: int|
            0 <= i < sort_desc(s).len() ==> exists|j: int|
                0 <= j < s.len() && #[trigger] sort_desc(s)[i] == s[j],
    decreases s.len(),
{
    if s.len() > 0 {
        lemma_sort_desc_sorted(s.drop_last());
        lemma_insert_desc_sorted(sort_desc(s.drop_last()), s.last());
        lemma_insert_desc_contents(sort_desc(s.drop_last()), s.last());
        let t = sort_desc(s);
        assert forall|i: int| 0 <= i < t.len() implies exists|j: int|
            0 <= j < s.len() && #[trigger] t[i] == s[j] by {
            if t[i] == s.last() {
                assert(t[i] == s[s.len() - 1]);
            } else {
                let k = choose|k: int|
                    0 <= k < sort_desc(s.drop_last()).len() && t[i] == sort_desc(
                        s.drop_last(),
                    )[k];
                let j = choose|j: int|
                    0 <= j < s.drop_last().len() && sort_desc(s.drop_last())[k]
                        == s.drop_last()[j];
                assert(t[i] == s[j]);
            }
        }
    }
}

/// Every surviving entry of a non-empty pattern scores above the threshold.
pub proof fn lemma_scored_entries_above(s: Seq<CrowCommandV>, pattern: Seq<char>)
    ensures
        forall|i: int|
            0 <= i < scored_entries(s, pattern).len() ==> scored_entries(s, pattern)[i].score
                > SCORE_THRESHOLD as int,
    decreases s.len(),
{
    if s.len() > 0 {
        lemma_scored_entries_above(s.drop_last(), pattern);
        let t = scored_entries(s, pattern);
        let a = scored_entries(s.drop_last(), pattern);
        let b = match_entry(s.last(), pattern);
        assert forall|i: int| 0 <= i < t.len() implies t[i].score > SCORE_THRESHOLD as int by {
            if i < a.len() {
                assert(t[i] == a[i]);
            } else {
                assert(t[i] == b[i - a.len()]);
            }
        }
    }
}

/// Insertion carries exactly the record ids of the list plus the entry's.
pub proof fn lemma_insert_desc_ids(s: Seq<CommandScoreV>, x: CommandScoreV)
    ensures
        forall|id: Seq<char>|
            #[trigger] score_contains_id(insert_desc(s, x), id) <==> (score_contains_id(s, id)
                || id == x.command_id),
    decreases s.len(),
{
    lemma_insert_desc_contents(s, x);
    let t = insert_desc(s, x);
    assert forall|id: Seq<char>| score_contains_id(t, id) implies (score_contains_id(s, id)
        || id == x.command_id) by {
        let i = choose|i: int| 0 <= i < t.len() && t[i].command_id == id;
        if t[i] != x {
            let j = choose|j: int| 0 <= j < s.len() && t[i] == s[j];
            assert(s[j].command_id == id);
        }
    }
    assert forall|id: Seq<char>| score_contains_id(s, id) || id == x.command_id implies
        score_contains_id(t, id) by {
        if s.len() == 0 {
            assert(t[0].command_id == x.command_id);
        } else if s[0].score >= x.score {
            lemma_insert_desc_ids(s.skip(1), x);
            lemma_insert_desc_contents(s.skip(1), x);
            let u = insert_desc(s.skip(1), x);
            assert(t == seq![s[0]] + u);
            if id == x.command_id || (score_contains_id(s, id) && s[0].command_id != id) {
                if score_contains_id(s, id) && s[0].command_id != id {
                    let i = choose|i: int| 0 <= i < s.len() && s[i].command_id == id;
                    assert(s.skip(1)[i - 1].command_id == id);
                    assert(score_contains_id(s.skip(1), id));
                }
                assert(score_contains_id(u, id));
                let i = choose|i: int| 0 <= i < u.len() && u[i].command_id == id;
                assert(t.len() == u.len() + 1);
                assert((seq![s[0]] + u)[i + 1] == u[i]);
                assert(t[i + 1].command_id == id);
            } else {
                assert(t[0].command_id == id);
            }
        } else {
            if id == x.command_id {
                assert(t[0].command_id == id);
            } else {
                let i = choose|i: int| 0 <= i < s.len() && s[i].command_id == id;
                assert(t[i + 1] == s[i]);
            }
        }
    }
}

/// Inserting an entry whose record no entry scores yet keeps record ids
/// unique.
pub proof fn lemma_insert_desc_unique(s: Seq<CommandScoreV>, x: CommandScoreV)
    requires
        score_unique_ids(s),
        !score_contains_id(s, x.command_id),
    ensures
        score_unique_ids(insert_desc(s, x)),
    decreases s.len(),
{
    if s.len() == 0 {
    } else if s[0].score >= x.score {
        assert(score_unique_ids(s.skip(1)));
        assert(!score_contains_id(s.skip(1), x.command_id)) by {
            if score_contains_id(s.skip(1), x.command_id) {
                let i = choose|i: int|
                    0 <= i < s.skip(1).len() && s.skip(1)[i].command_id == x.command_id;
                assert(s[i + 1].command_id == x.command_id);
            }
        }
        lemma_insert_desc_unique(s.skip(1), x);
        lemma_insert_desc_ids(s.skip(1), x);
        let t = insert_desc(s, x);
        let u = insert_desc(s.skip(1), x);
        assert forall|i: int, j: int| 0 <= i < j < t.len() implies t[i].command_id
            != t[j].command_id by {
            if i == 0 {
                assert(t[j] == u[j - 1]);
                assert(score_contains_id(u, u[j - 1].command_id));
                if s[0].command_id == u[j - 1].command_id {
                    if score_contains_id(s.skip(1), s[0].command_id) {
                        let k = choose|k: int|
                            0 <= k < s.skip(1).len() && s.skip(1)[k].command_id
                                == s[0].command_id;
                        assert(s[k + 1].command_id == s[0].command_id);
                    }
                }
            } else {
                assert(t[i] == u[i - 1] && t[j] == u[j - 1]);
            }
        }
    } else {
        let t = insert_desc(s, x);
        assert forall|i: int, j: int| 0 <= i < j < t.len() implies t[i].command_id
            != t[j].command_id by {
            if i == 0 {
                assert(t[j] == s[j - 1]);
            } else {
                assert(t[i] == s[i - 1] && t[j] == s[j - 1]);
            }
        }
    }
}

/// Ranking keeps record ids unique, and carries exactly the ids it was
/// given.
pub proof fn lemma_sort_desc_unique(s: Seq<CommandScoreV>)
    requires
        score_unique_ids(s),
    ensures
        score_unique_ids(sort_desc(s)),
        forall|id: Seq<char>|
            #[trigger] score_contains_id(sort_desc(s), id) <==> score_contains_id(s, id),
    decreases s.len(),
{
    if s.len() > 0 {
        assert(score_unique_ids(s.drop_last())) by {
            assert(forall|i: int, j: int|
                0 <= i < j < s.drop_last().len() ==> s.drop_last()[i] == s[i]
                    && s.drop_last()[j] == s[j]);
        }
        lemma_sort_desc_unique(s.drop_last());
        assert(!score_contains_id(sort_desc(s.drop_last()), s.last().command_id)) by {
            if score_contains_id(s.drop_last(), s.last().command_id) {
                let i = choose|i: int|
                    0 <= i < s.drop_last().len() && s.drop_last()[i].command_id
                        == s.last().command_id;
                assert(s[i].command_id == s[s.len() - 1].command_id);
            }
        }
        lemma_insert_desc_unique(sort_desc(s.drop_last()), s.last());
        lemma_insert_desc_ids(sort_desc(s.drop_last()), s.last());
        let u = insert_desc(sort_desc(s.drop_last()), s.last());
        assert(sort_desc(s) == u);
        assert forall|id: Seq<char>| score_contains_id(s, id) implies score_contains_id(
            sort_desc(s),
            id,
        ) by {
            let i = choose|i: int| 0 <= i < s.len() && s[i].command_id == id;
            if i < s.len() - 1 {
                assert(s.drop_last()[i].command_id == id);
                assert(score_contains_id(sort_desc(s.drop_last()), id));
            } else {
                assert(id == s.last().command_id);
            }
            assert(score_contains_id(u, id));
        }
        assert forall|id: Seq<char>| score_contains_id(sort_desc(s), id) implies
            score_contains_id(s, id) by {
            assert(score_contains_id(u, id));
            if score_contains_id(s.drop_last(), id) {
                let i = choose|i: int|
                    0 <= i < s.drop_last().len() && s.drop_last()[i].command_id == id;
                assert(s[i].command_id == id);
            } else {
                assert(id == s.last().command_id);
                assert(s[s.len() - 1].command_id == id);
            }
        }
    }
}

/// On a unique-id catalog the surviving entries score distinct records, each
/// a record of the catalog.
pub proof fn lemma_scored_entries_unique(s: Seq<CrowCommandV>, pattern: Seq<char>)
    requires
        unique_ids(s),
    ensures
        score_unique_ids(scored_entries(s, pattern)),
        forall|id: Seq<char>|
            score_contains_id(scored_entries(s, pattern), id) ==> contains_id(s, id),
    decreases s.len(),
{
    if s.len() > 0 {
        assert(unique_ids(s.drop_last())) by {
            assert(forall|i: int, j: int|
                0 <= i < j < s.drop_last().len() ==> s.drop_last()[i] == s[i]
                    && s.drop_last()[j] == s[j]);
        }
        lemma_scored_entries_unique(s.drop_last(), pattern);
        let t = scored_entries(s, pattern);
        let a = scored_entries(s.drop_last(), pattern);
        let b = match_entry(s.last(), pattern);
        assert forall|id: Seq<char>| score_contains_id(t, id) implies contains_id(s, id) by {
            let i = choose|i: int| 0 <= i < t.len() && t[i].command_id == id;
            if i < a.len() {
                assert(a[i].command_id == id);
                assert(contains_id(s.drop_last(), id));
                let j = choose|j: int|
                    0 <= j < s.drop_last().len() && s.drop_last()[j].id == id;
                assert(s[j].id == id);
            } else {
                assert(t[i] == b[i - a.len()]);
                assert(s[s.len() - 1].id == id);
            }
        }
        assert forall|i: int, j: int| 0 <= i < j < t.len() implies t[i].command_id
            != t[j].command_id by {
            if j < a.len() {
                assert(t[i] == a[i] && t[j] == a[j]);
            } else {
                assert(t[j] == b[j - a.len()]);
                assert(t[j].command_id == s[s.len() - 1].id);
                assert(t[i] == a[i]);
                assert(score_contains_id(a, a[i].command_id));
                assert(contains_id(s.drop_last(), a[i].command_id));
                let k = choose|k: int|
                    0 <= k < s.drop_last().len() && s.drop_last()[k].id == a[i].command_id;
                assert(s[k].id == a[i].command_id);
            }
        }
    }
}

/// On a unique-id catalog every search result scores distinct records.
pub proof fn lemma_search_unique(s: Seq<CrowCommandV>, pattern: Seq<char>)
    requires
        unique_ids(s),
    ensures
        score_unique_ids(search_spec(s, pattern)),
{
    if pattern.len() == 0 {
        let t = empty_pattern_scores(s);
        assert forall|i: int, j: int| 0 <= i < j < t.len() implies t[i].command_id
            != t[j].command_id by {
            assert(t[i].command_id == s[i].id);
            assert(t[j].command_id == s[j].id);
        }
    } else {
        lemma_scored_entries_unique(s, pattern);
        lemma_sort_desc_unique(scored_entries(s, pattern));
    }
}

/// Where an insertion point splits a list, the insertion is exactly the
/// prefix, the entry, then the suffix.
pub proof fn lemma_insert_desc_at(s: Seq<CommandScoreV>, x: CommandScoreV, p: int)
    requires
        0 <= p <= s.len(),
        forall|j: int| 0 <= j < p ==> s[j].score >= x.score,
        p < s.len() ==> s[p].score < x.score,
    ensures
        insert_desc(s, x) == s.subrange(0, p) + seq![x] + s.subrange(p, s.len() as int),
    decreases s.len(),
{
    if s.len() == 0 {
        assert(insert_desc(s, x) =~= s.subrange(0, p) + seq![x] + s.subrange(
            p,
            s.len() as int,
        ));
    } else if p == 0 {
        assert(insert_desc(s, x) =~= s.subrange(0, 0) + seq![x] + s.subrange(
            0,
            s.len() as int,
        ));
    } else {
        assert(s[0].score >= x.score);
        assert(forall|j: int| 0 <= j < p - 1 ==> s.skip(1)[j].score >= x.score);
        lemma_insert_desc_at(s.skip(1), x, p - 1);
        assert(insert_desc(s, x) =~= s.subrange(0, p) + seq![x] + s.subrange(
            p,
            s.len() as int,
        ));
    }
}

/// Inserts a score entry into a ranked vector, behind every entry ranked at
/// least as high.
fn insert_score_desc(out: &mut Vec<CommandScore>, x: CommandScore)
    ensures
        score_views_of(final(out)@) == insert_desc(score_views_of(old(out)@), x@),
{
    let mut p: usize = 0;
    while p < out.len() && out[p].score() >= x.score()
        invariant
            p <= out@.len(),
            *out == *old(out),
            forall|j: int| 0 <= j < p ==> score_views_of(out@)[j].score >= x@.score,
        decreases out@.len() - p,
    {
        p += 1;
    }
    proof {
        lemma_insert_desc_at(score_views_of(out@), x@, p as int);
    }
    out.insert(p, x);
    proof {
        assert(score_views_of(out@) =~= insert_desc(score_views_of(old(out)@), x@));
    }
}

/// Stable descending sort of score entries by score.
fn sort_scores_desc(scores: Vec<CommandScore>) -> (r: Vec<CommandScore>)
    ensures
        score_views_of(r@) == sort_desc(score_views_of(scores@)),
{
    let n = scores.len();
    let mut out: Vec<CommandScore> = Vec::new();
    let mut i: usize = 0;
    proof {
        assert(score_views_of(scores@.subrange(0, 0)) =~= Seq::<CommandScoreV>::empty());
    }
    while i < n
        invariant
            n == scores@.len(),
            i <= n,
            score_views_of(out@) == sort_desc(score_views_of(scores@.subrange(0, i as int))),
        decreases n - i,
    {
        let x = scores[i].clone();
        proof {
            let pre = scores@.subrange(0, i as int);
            let cur = scores@.subrange(0, i + 1);
            assert(score_views_of(cur).drop_last() =~= score_views_of(pre));
            assert(score_views_of(cur).last() == scores@[i as int]@);
        }
        insert_score_desc(&mut out, x);
        i += 1;
    }
    proof {
        assert(scores@.subrange(0, n as int) =~= scores@);
    }
    out
}

/// Filters and ranks the catalog's records against a pattern.
///
/// On the empty pattern every record passes with score 1 and no matched
/// offsets, in catalog order. On a non-empty pattern each record's match
/// string is scored by the fuzzy matcher; records the matcher rejects or
/// scores at or below the threshold contribute nothing, and the rest come
/// back sorted by score descending, ties keeping catalog order. An empty
/// catalog always gives an empty result.
pub fn fuzzy_search_commands(commands: Vec<CrowCommand>, pattern: &str) -> (r: Vec<
    CommandScore,
>)
    ensures
        score_views_of(r@) == search_spec(views_of(commands@), pattern@),
        sorted_desc(score_views_of(r@)),
        forall|i: int|
            0 <= i < r@.len() ==> if pattern@.len() == 0 {
                score_views_of(r@)[i].score == 1
            } else {
                score_views_of(r@)[i].score > SCORE_THRESHOLD as int
            },
        commands@.len() == 0 ==> r@.len() == 0,
{
    let n = commands.len();
    if pattern.is_empty() {
        let mut out: Vec<CommandScore> = Vec::new();
        let mut i: usize = 0;
        proof {
            assert(score_views_of(out@) =~= empty_pattern_scores(
                views_of(commands@.subrange(0, 0)),
            ));
        }
        while i < n
            invariant
                n == commands@.len(),
                i <= n,
                score_views_of(out@) =~= empty_pattern_scores(
                    views_of(commands@.subrange(0, i as int)),
                ),
            decreases n - i,
        {
            let e = CommandScore::new(1, Vec::new(), commands[i].id.clone());
            proof {
                let pre = out@;
                assert(e@ == empty_pattern_entry(commands@[i as int]@));
                assert(score_views_of(pre.push(e)) =~= score_views_of(pre).push(e@));
            }
            out.push(e);
            i += 1;
            proof {
                let cur = views_of(commands@.subrange(0, i as int));
                assert(cur.drop_last() =~= views_of(commands@.subrange(0, i - 1)));
                assert(cur.last() == commands@[i - 1]@);
                assert(score_views_of(out@) =~= empty_pattern_scores(cur));
            }
        }
        proof {
            assert(commands@.subrange(0, n as int) =~= commands@);
            assert(score_views_of(out@) =~= empty_pattern_scores(views_of(commands@)));
        }
        return out;
    }
    let mut entries: Vec<CommandScore> = Vec::new();
    let mut i: usize = 0;
    proof {
        assert(score_views_of(entries@) =~= scored_entries(
            views_of(commands@.subrange(0, 0)),
            pattern@,
        ));
    }
    while i < n
        invariant
            n == commands@.len(),
            i <= n,
            pattern@.len() > 0,
            score_views_of(entries@) == scored_entries(
                views_of(commands@.subrange(0, i as int)),
                pattern@,
            ),
        decreases n - i,
    {
        let ms = commands[i].match_str();
        proof {
            let pre = views_of(commands@.subrange(0, i as int));
            let cur = views_of(commands@.subrange(0, i + 1));
            assert(cur.drop_last() =~= pre);
            assert(cur.last() == commands@[i as int]@);
        }
        match skim_fuzzy_indices(ms.as_str(), pattern) {
            Some(m) => {
                if m.0 > SCORE_THRESHOLD {
                    let entry = CommandScore::new(m.0, m.1, commands[i].id.clone());
                    entries.push(entry);
                    proof {
                        assert(score_views_of(entries@) =~= scored_entries(
                            views_of(commands@.subrange(0, i + 1)),
                            pattern@,
                        ));
                    }
                } else {
                    proof {
                        assert(score_views_of(entries@) =~= scored_entries(
                            views_of(commands@.subrange(0, i + 1)),
                            pattern@,
                        ));
                    }
                }
            },
            None => {
                proof {
                    assert(score_views_of(entries@) =~= scored_entries(
                        views_of(commands@.subrange(0, i + 1)),
                        pattern@,
                    ));
                }
            },
        }
        i += 1;
    }
    proof {
        assert(commands@.subrange(0, n as int) =~= commands@);
        lemma_scored_entries_above(views_of(commands@), pattern@);
        lemma_sort_desc_sorted(score_views_of(entries@));
    }
    sort_scores_desc(entries)
}

/// The ranked outcome of one search: the id-keyed score entries beside the
/// ids in rank order.
#[derive(Debug, PartialEq)]
pub struct FuzzResult {
    scores: CommandScores,
    command_ids: Vec<Id>,
}

impl FuzzResult {
    /// View of the entry set.
    pub closed spec fn spec_scores(&self) -> Seq<CommandScoreV> {
        self.scores@
    }

    /// View of the rank-ordered id list.
    pub closed spec fn spec_command_ids(&self) -> Seq<Seq<char>> {
        self.command_ids@.map_values(|id: Id| id@)
    }

    /// The id list names exactly the entries, in rank order.
    pub open spec fn wf(&self) -> bool {
        self.spec_command_ids() == self.spec_scores().map_values(
            |c: CommandScoreV| c.command_id,
        )
    }

    /// Couples an entry set with its rank-ordered id list.
    pub fn new(scores: CommandScores, command_ids: Vec<Id>) -> (r: Self)
        ensures
            r.spec_scores() == scores@,
            r.spec_command_ids() == command_ids@.map_values(|id: Id| id@),
    {
        Self { scores, command_ids }
    }

    /// The entry set.
    pub fn scores(&self) -> (r: &CommandScores)
        ensures
            r@ == self.spec_scores(),
    {
        &self.scores
    }

    /// The rank-ordered id list.
    pub fn _command_ids(&self) -> (r: &Vec<Id>)
        ensures
            r@.map_values(|id: Id| id@) == self.spec_command_ids(),
    {
        &self.command_ids
    }
}

impl Default for FuzzResult {
    /// The result before any search has run: no entries, no ids.
    fn default() -> (r: Self)
        ensures
            r.spec_scores() == Seq::<CommandScoreV>::empty(),
            r.spec_command_ids() == Seq::<Seq<char>>::empty(),
            r.wf(),
    {
        let r = Self { scores: CommandScores::default(), command_ids: Vec::new() };
        proof {
            assert(r.spec_command_ids() =~= Seq::<Seq<char>>::empty());
            assert(r.spec_command_ids() =~= r.spec_scores().map_values(
                |c: CommandScoreV| c.command_id,
            ));
        }
        r
    }
}

} // verus!
