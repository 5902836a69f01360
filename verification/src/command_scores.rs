//! Score entries produced by a fuzzy search over the catalog.
//!
//! A [`CommandScore`] names a record by id and carries the match score and
//! the matched character offsets. [`CommandScores`] is the id-keyed set of
//! entries of one search, kept as an ordered list with unique ids so that
//! rank order survives normalization.

use vstd::prelude::*;

use crate::crow_commands::Id;
use crate::text::str_eq;

verus! {

/// One record's fuzzy-match result: the score, the offsets of the matched
/// characters in the record's match string, and the id of the record the
/// entry scores (non-owning).
#[derive(Debug, PartialEq)]
pub struct CommandScore {
    score: i64,
    indices: Vec<usize>,
    command_id: Id,
}

/// Mathematical image of a [`CommandScore`].
pub ghost struct CommandScoreV {
    /// The match score.
    pub score: int,
    /// Offsets of the matched characters.
    pub indices: Seq<usize>,
    /// View of the scored record's id.
    pub command_id: Seq<char>,
}

impl View for CommandScore {
    type V = CommandScoreV;

    closed spec fn view(&self) -> CommandScoreV {
        CommandScoreV {
            score: self.score as int,
            indices: self.indices@,
            command_id: self.command_id@,
        }
    }
}

impl Clone for CommandScore {
    fn clone(&self) -> (r: Self)
        ensures
            r@ == self@,
    {
        let mut indices: Vec<usize> = Vec::new();
        let mut i: usize = 0;
        while i < self.indices.len()
            invariant
                i <= self.indices@.len(),
                indices@ =~= self.indices@.subrange(0, i as int),
            decreases self.indices@.len() - i,
        {
            indices.push(self.indices[i]);
            i += 1;
        }
        proof {
            assert(indices@ =~= self.indices@);
        }
        CommandScore { score: self.score, indices, command_id: self.command_id.clone() }
    }
}

impl CommandScore {
    /// Builds one score entry.
    pub fn new(score: i64, indices: Vec<usize>, command_id: Id) -> (r: Self)
        ensures
            r@ == (CommandScoreV {
                score: score as int,
                indices: indices@,
                command_id: command_id@,
            }),
    {
        Self { score, indices, command_id }
    }

    /// The entry's score.
    pub fn score(&self) -> (r: i64)
        ensures
            r as int == self@.score,
    {
        self.score
    }

    /// The matched character offsets.
    pub fn indices(&self) -> (r: &Vec<usize>)
        ensures
            r@ == self@.indices,
    {
        &self.indices
    }

    /// The id of the scored record.
    pub fn command_id(&self) -> (r: &Id)
        ensures
            r@ == self@.command_id,
    {
        &self.command_id
    }

    /// Replaces the entry's score.
    pub fn _set_score(&mut self, score: i64)
        ensures
            final(self)@ == (CommandScoreV { score: score as int, ..old(self)@ }),
    {
        self.score = score;
    }
}

/// Views of a sequence of score entries.
pub open spec fn score_views_of(s: Seq<CommandScore>) -> Seq<CommandScoreV> {
    s.map_values(|c: CommandScore| c@)
}

/// No two entries of `s` score the same record.
pub open spec fn score_unique_ids(s: Seq<CommandScoreV>) -> bool {
    forall|i: int, j: int| 0 <= i < j < s.len() ==> s[i].command_id != s[j].command_id
}

/// Some entry of `s` scores the record carrying the id.
pub open spec fn score_contains_id(s: Seq<CommandScoreV>, id: Seq<char>) -> bool {
    exists|i: int| 0 <= i < s.len() && s[i].command_id == id
}

/// Offset of the first entry of `s` scoring the id (meaningful only when the
/// id occurs).
pub open spec fn score_index_of_id(s: Seq<CommandScoreV>, id: Seq<char>) -> int
    decreases s.len(),
{
    if s.len() == 0 {
        0
    } else if s[0].command_id == id {
        0
    } else {
        1 + score_index_of_id(s.skip(1), id)
    }
}

/// When the id occurs in `s`, `score_index_of_id` is its first occurrence.
pub proof fn lemma_score_index_of_id(s: Seq<CommandScoreV>, id: Seq<char>)
    requires
        score_contains_id(s, id),
    ensures
        0 <= score_index_of_id(s, id) < s.len(),
        s[score_index_of_id(s, id)].command_id == id,
        forall|j: int| 0 <= j < score_index_of_id(s, id) ==> s[j].command_id != id,
    decreases s.len(),
{
    if s.len() > 0 && s[0].command_id != id {
        assert(score_contains_id(s.skip(1), id)) by {
            let i = choose|i: int| 0 <= i < s.len() && s[i].command_id == id;
            assert(s.skip(1)[i - 1] == s[i]);
        }
        lemma_score_index_of_id(s.skip(1), id);
        assert forall|j: int| 0 <= j < score_index_of_id(s, id) implies s[j].command_id
            != id by {
            if j > 0 {
                assert(s.skip(1)[j - 1] == s[j]);
            }
        }
    }
}

/// One step of normalization over score entries: an entry replaces the one
/// already scoring its record, keeping that one's position, or else joins the
/// end.
pub open spec fn score_upsert(s: Seq<CommandScoreV>, c: CommandScoreV) -> Seq<CommandScoreV> {
    if score_contains_id(s, c.command_id) {
        s.update(score_index_of_id(s, c.command_id), c)
    } else {
        s.push(c)
    }
}

/// Normalization of a flat entry list: one entry per record id, standing
/// where the id first occurred, holding the entry that occurred last.
pub open spec fn score_normalize_spec(s: Seq<CommandScoreV>) -> Seq<CommandScoreV>
    decreases s.len(),
{
    if s.len() == 0 {
        Seq::empty()
    } else {
        score_upsert(score_normalize_spec(s.drop_last()), s.last())
    }
}

/// Upserting keeps record ids unique.
pub proof fn lemma_score_upsert_unique(s: Seq<CommandScoreV>, c: CommandScoreV)
    requires
        score_unique_ids(s),
    ensures
        score_unique_ids(score_upsert(s, c)),
{
    if score_contains_id(s, c.command_id) {
        lemma_score_index_of_id(s, c.command_id);
    }
}

/// Normalizing an entry list whose record ids are already unique gives the
/// list back unchanged.
pub proof fn lemma_score_normalize_of_unique(s: Seq<CommandScoreV>)
    requires
        score_unique_ids(s),
    ensures
        score_normalize_spec(s) == s,
    decreases s.len(),
{
    if s.len() > 0 {
        assert(score_unique_ids(s.drop_last())) by {
            assert(forall|i: int, j: int|
                0 <= i < j < s.drop_last().len() ==> s.drop_last()[i] == s[i]
                    && s.drop_last()[j] == s[j]);
        }
        lemma_score_normalize_of_unique(s.drop_last());
        assert(!score_contains_id(s.drop_last(), s.last().command_id)) by {
            if score_contains_id(s.drop_last(), s.last().command_id) {
                let i = choose|i: int|
                    0 <= i < s.drop_last().len() && s.drop_last()[i].command_id
                        == s.last().command_id;
                assert(s[i].command_id == s[s.len() - 1].command_id);
            }
        }
        assert(score_normalize_spec(s) =~= s);
    }
}

/// The id-keyed entries of one search, kept as an ordered list with unique
/// record ids: the list order is the rank order.
#[derive(Debug, PartialEq)]
pub struct CommandScores {
    entries: Vec<CommandScore>,
}

impl View for CommandScores {
    type V = Seq<CommandScoreV>;

    closed spec fn view(&self) -> Seq<CommandScoreV> {
        score_views_of(self.entries@)
    }
}

impl Clone for CommandScores {
    fn clone(&self) -> (r: Self)
        ensures
            r@ == self@,
    {
        CommandScores { entries: clone_scores(&self.entries) }
    }
}

impl Default for CommandScores {
    /// An empty entry set.
    fn default() -> (r: Self)
        ensures
            r@ == Seq::<CommandScoreV>::empty(),
    {
        let r = CommandScores { entries: Vec::new() };
        proof {
            assert(r@ =~= Seq::<CommandScoreV>::empty());
        }
        r
    }
}

/// Element-wise copy of an entry list.
pub fn clone_scores(entries: &Vec<CommandScore>) -> (r: Vec<CommandScore>)
    ensures
        score_views_of(r@) == score_views_of(entries@),
{
    let mut out: Vec<CommandScore> = Vec::new();
    let mut i: usize = 0;
    while i < entries.len()
        invariant
            i <= entries@.len(),
            score_views_of(out@) =~= score_views_of(entries@.subrange(0, i as int)),
        decreases entries@.len() - i,
    {
        let c = entries[i].clone();
        proof {
            let pre = out@;
            assert(score_views_of(pre.push(c)) =~= score_views_of(pre).push(c@));
        }
        out.push(c);
        i += 1;
        proof {
            assert(score_views_of(entries@.subrange(0, i as int)).drop_last()
                =~= score_views_of(entries@.subrange(0, i - 1)));
            assert(score_views_of(out@) =~= score_views_of(entries@.subrange(0, i as int)));
        }
    }
    proof {
        assert(entries@.subrange(0, entries@.len() as int) =~= entries@);
        assert(score_views_of(out@) =~= score_views_of(entries@));
    }
    out
}

impl CommandScores {
    /// Builds the id-keyed entry set from a flat list; a later entry scoring
    /// an already-seen record overwrites the earlier one in place.
    pub fn normalize(scores: &[CommandScore]) -> (r: Self)
        ensures
            r@ == score_normalize_spec(score_views_of(scores@)),
            score_unique_ids(r@),
    {
        let mut entries: Vec<CommandScore> = Vec::new();
        let n = scores.len();
        let mut i: usize = 0;
        proof {
            assert(score_views_of(scores@.subrange(0, 0)) =~= Seq::<CommandScoreV>::empty());
        }
        while i < n
            invariant
                n == scores@.len(),
                i <= n,
                score_views_of(entries@) == score_normalize_spec(
                    score_views_of(scores@.subrange(0, i as int)),
                ),
                score_unique_ids(score_views_of(entries@)),
            decreases n - i,
        {
            let c = scores[i].clone();
            proof {
                let pre = scores@.subrange(0, i as int);
                let cur = scores@.subrange(0, i + 1);
                assert(score_views_of(cur).drop_last() =~= score_views_of(pre));
                assert(score_views_of(cur).last() == scores@[i as int]@);
                lemma_score_upsert_unique(score_views_of(entries@), scores@[i as int]@);
            }
            upsert_score(&mut entries, c);
            i += 1;
        }
        proof {
            assert(scores@.subrange(0, n as int) =~= scores@);
        }
        CommandScores { entries }
    }

    /// Denormalizes back to a flat list, in rank order.
    pub fn denormalize(&self) -> (r: Vec<CommandScore>)
        ensures
            score_views_of(r@) == self@,
    {
        clone_scores(&self.entries)
    }

    /// The entry scoring `id`, if one is held.
    pub fn get(&self, id: &str) -> (r: Option<&CommandScore>)
        ensures
            match r {
                Some(c) => score_contains_id(self@, id@) && c@ == self@[score_index_of_id(
                    self@,
                    id@,
                )] && c@.command_id == id@,
                None => !score_contains_id(self@, id@),
            },
    {
        let n = self.entries.len();
        let mut i: usize = 0;
        while i < n
            invariant
                n == self.entries@.len(),
                i <= n,
                forall|j: int| 0 <= j < i ==> self@[j].command_id != id@,
            decreases n - i,
        {
            if str_eq(self.entries[i].command_id.as_str(), id) {
                proof {
                    assert(self@[i as int].command_id == id@);
                    lemma_score_index_of_id(self@, id@);
                    let k = score_index_of_id(self@, id@);
                    if k < i as int {
                        assert(self@[k].command_id != id@);
                    }
                    if k > i as int {
                        assert(self@[i as int].command_id != id@);
                    }
                }
                return Some(&self.entries[i]);
            }
            i += 1;
        }
        None
    }

    /// Whether the entry set is empty.
    pub fn is_empty(&self) -> (r: bool)
        ensures
            r == (self@.len() == 0),
    {
        self.entries.len() == 0
    }
}

/// Replaces an existing entry scoring the same record in place, or pushes the
/// entry at the end.
fn upsert_score(entries: &mut Vec<CommandScore>, c: CommandScore)
    requires
        score_unique_ids(score_views_of(old(entries)@)),
    ensures
        score_views_of(final(entries)@) == score_upsert(score_views_of(old(entries)@), c@),
{
    let n = entries.len();
    let mut i: usize = 0;
    while i < n
        invariant
            n == entries@.len(),
            *entries == *old(entries),
            i <= n,
            forall|j: int| 0 <= j < i ==> score_views_of(entries@)[j].command_id != c@.command_id,
        decreases n - i,
    {
        if str_eq(entries[i].command_id.as_str(), c.command_id.as_str()) {
            proof {
                let s = score_views_of(entries@);
                assert(s[i as int].command_id == c@.command_id);
                lemma_score_index_of_id(s, c@.command_id);
                let k = score_index_of_id(s, c@.command_id);
                if k < i as int {
                    assert(s[k].command_id != c@.command_id);
                }
                if k > i as int {
                    assert(s[i as int].command_id != c@.command_id);
                }
            }
            entries.set(i, c);
            proof {
                assert(score_views_of(entries@) =~= score_upsert(
                    score_views_of(old(entries)@),
                    c@,
                ));
            }
            return ;
        }
        i += 1;
    }
    entries.push(c);
    proof {
        assert(score_views_of(entries@) =~= score_upsert(score_views_of(old(entries)@), c@));
    }
}

} // verus!
