//! Score entries that own their record.
//!
//! A [`ScoredCommand`] carries a whole [`CrowCommand`] beside its score and
//! matched offsets. [`ScoredCommands`] is the id-keyed set of such entries,
//! kept as an ordered list with unique record ids.

use vstd::prelude::*;

use crate::crow_commands::{CrowCommand, CrowCommandV};
use crate::text::str_eq;

verus! {

/// One record's fuzzy-match result carrying the record itself beside the
/// score and the matched character offsets.
#[derive(Debug, PartialEq)]
pub struct ScoredCommand {
    score: i64,
    indices: Vec<usize>,
    command: CrowCommand,
}

/// Mathematical image of a [`ScoredCommand`].
pub ghost struct ScoredCommandV {
    /// The match score.
    pub score: int,
    /// Offsets of the matched characters.
    pub indices: Seq<usize>,
    /// View of the scored record.
    pub command: CrowCommandV,
}

impl View for ScoredCommand {
    type V = ScoredCommandV;

    closed spec fn view(&self) -> ScoredCommandV {
        ScoredCommandV { score: self.score as int, indices: self.indices@, command: self.command@ }
    }
}

impl Clone for ScoredCommand {
    fn clone(&self) -> (r: Self)
        ensures
            r@ == self@,
    {
        let mut indices: Vec<usize> = Vec::new();
        let mut i: usize = 0;
        while i < self.indices.len()
            invariant
                i <= self.indices@.len(),
                indices@ =~= self.indices@.subrange(0, i as int),
            decreases self.indices@.len() - i,
        {
            indices.push(self.indices[i]);
            i += 1;
        }
        proof {
            assert(indices@ =~= self.indices@);
        }
        ScoredCommand { score: self.score, indices, command: self.command.clone() }
    }
}

impl ScoredCommand {
    /// Builds one owning score entry.
    pub fn new(score: i64, indices: Vec<usize>, command: CrowCommand) -> (r: Self)
        ensures
            r@ == (ScoredCommandV { score: score as int, indices: indices@, command: command@ }),
    {
        Self { score, indices, command }
    }

    /// The entry's score.
    pub fn score(&self) -> (r: i64)
        ensures
            r as int == self@.score,
    {
        self.score
    }

    /// The matched character offsets.
    pub fn indices(&self) -> (r: &Vec<usize>)
        ensures
            r@ == self@.indices,
    {
        &self.indices
    }

    /// The scored record.
    pub fn command(&self) -> (r: &CrowCommand)
        ensures
            r@ == self@.command,
    {
        &self.command
    }

    /// Replaces the entry's score.
    pub fn _set_score(&mut self, score: i64)
        ensures
            final(self)@ == (ScoredCommandV { score: score as int, ..old(self)@ }),
    {
        self.score = score;
    }
}

/// Views of a sequence of owning score entries.
pub open spec fn scored_views_of(s: Seq<ScoredCommand>) -> Seq<ScoredCommandV> {
    s.map_values(|c: ScoredCommand| c@)
}

/// No two entries of `s` score the same record.
pub open spec fn scored_unique_ids(s: Seq<ScoredCommandV>) -> bool {
    forall|i: int, j: int| 0 <= i < j < s.len() ==> s[i].command.id != s[j].command.id
}

/// Some entry of `s` scores the record carrying the id.
pub open spec fn scored_contains_id(s: Seq<ScoredCommandV>, id: Seq<char>) -> bool {
    exists|i: int| 0 <= i < s.len() && s[i].command.id == id
}

/// Offset of the first entry of `s` scoring the id (meaningful only when the
/// id occurs).
pub open spec fn scored_index_of_id(s: Seq<ScoredCommandV>, id: Seq<char>) -> int
    decreases s.len(),
{
    if s.len() == 0 {
        0
    } else if s[0].command.id == id {
        0
    } else {
        1 + scored_index_of_id(s.skip(1), id)
    }
}

/// When the id occurs in `s`, `scored_index_of_id` is its first occurrence.
pub proof fn lemma_scored_index_of_id(s: Seq<ScoredCommandV>, id: Seq<char>)
    requires
        scored_contains_id(s, id),
    ensures
        0 <= scored_index_of_id(s, id) < s.len(),
        s[scored_index_of_id(s, id)].command.id == id,
        forall|j: int| 0 <= j < scored_index_of_id(s, id) ==> s[j].command.id != id,
    decreases s.len(),
{
    if s.len() > 0 && s[0].command.id != id {
        assert(scored_contains_id(s.skip(1), id)) by {
            let i = choose|i: int| 0 <= i < s.len() && s[i].command.id == id;
            assert(s.skip(1)[i - 1] == s[i]);
        }
        lemma_scored_index_of_id(s.skip(1), id);
        assert forall|j: int| 0 <= j < scored_index_of_id(s, id) implies s[j].command.id
            != id by {
            if j > 0 {
                assert(s.skip(1)[j - 1] == s[j]);
            }
        }
    }
}

/// One step of normalization over owning entries: an entry replaces the one
/// already scoring its record, keeping that one's position, or else joins the
/// end.
pub open spec fn scored_upsert(s: Seq<ScoredCommandV>, c: ScoredCommandV) -> Seq<ScoredCommandV> {
    if scored_contains_id(s, c.command.id) {
        s.update(scored_index_of_id(s, c.command.id), c)
    } else {
        s.push(c)
    }
}

/// Normalization of a flat entry list: one entry per record id, standing
/// where the id first occurred, holding the entry that occurred last.
pub open spec fn scored_normalize_spec(s: Seq<ScoredCommandV>) -> Seq<ScoredCommandV>
    decreases s.len(),
{
    if s.len() == 0 {
        Seq::empty()
    } else {
        scored_upsert(scored_normalize_spec(s.drop_last()), s.last())
    }
}

/// Upserting keeps record ids unique.
pub proof fn lemma_scored_upsert_unique(s: Seq<ScoredCommandV>, c: ScoredCommandV)
    requires
        scored_unique_ids(s),
    ensures
        scored_unique_ids(scored_upsert(s, c)),
{
    if scored_contains_id(s, c.command.id) {
        lemma_scored_index_of_id(s, c.command.id);
    }
}

/// The id-keyed set of owning score entries, kept as an ordered list with
/// unique record ids.
#[derive(Debug, PartialEq)]
pub struct ScoredCommands {
    entries: Vec<ScoredCommand>,
}

impl View for ScoredCommands {
    type V = Seq<ScoredCommandV>;

    closed spec fn view(&self) -> Seq<ScoredCommandV> {
        scored_views_of(self.entries@)
    }
}

impl Clone for ScoredCommands {
    fn clone(&self) -> (r: Self)
        ensures
            r@ == self@,
    {
        ScoredCommands { entries: clone_scored(&self.entries) }
    }
}

impl Default for ScoredCommands {
    /// An empty entry set.
    fn default() -> (r: Self)
        ensures
            r@ == Seq::<ScoredCommandV>::empty(),
    {
        let r = ScoredCommands { entries: Vec::new() };
        proof {
            assert(r@ =~= Seq::<ScoredCommandV>::empty());
        }
        r
    }
}

/// Element-wise copy of an owning entry list.
pub fn clone_scored(entries: &Vec<ScoredCommand>) -> (r: Vec<ScoredCommand>)
    ensures
        scored_views_of(r@) == scored_views_of(entries@),
{
    let mut out: Vec<ScoredCommand> = Vec::new();
    let mut i: usize = 0;
    while i < entries.len()
        invariant
            i <= entries@.len(),
            scored_views_of(out@) =~= scored_views_of(entries@.subrange(0, i as int)),
        decreases entries@.len() - i,
    {
        let c = entries[i].clone();
        proof {
            let pre = out@;
            assert(scored_views_of(pre.push(c)) =~= scored_views_of(pre).push(c@));
        }
        out.push(c);
        i += 1;
        proof {
            assert(scored_views_of(entries@.subrange(0, i as int)).drop_last()
                =~= scored_views_of(entries@.subrange(0, i - 1)));
            assert(scored_views_of(out@) =~= scored_views_of(entries@.subrange(0, i as int)));
        }
    }
    proof {
        assert(entries@.subrange(0, entries@.len() as int) =~= entries@);
        assert(scored_views_of(out@) =~= scored_views_of(entries@));
    }
    out
}

impl ScoredCommands {
    /// Builds the id-keyed entry set from a flat list; a later entry scoring
    /// an already-seen record overwrites the earlier one in place.
    pub fn normalize(commands: &[ScoredCommand]) -> (r: Self)
        ensures
            r@ == scored_normalize_spec(scored_views_of(commands@)),
            scored_unique_ids(r@),
    {
        let mut entries: Vec<ScoredCommand> = Vec::new();
        let n = commands.len();
        let mut i: usize = 0;
        proof {
            assert(scored_views_of(commands@.subrange(0, 0)) =~= Seq::<ScoredCommandV>::empty());
        }
        while i < n
            invariant
                n == commands@.len(),
                i <= n,
                scored_views_of(entries@) == scored_normalize_spec(
                    scored_views_of(commands@.subrange(0, i as int)),
                ),
                scored_unique_ids(scored_views_of(entries@)),
            decreases n - i,
        {
            let c = commands[i].clone();
            proof {
                let pre = commands@.subrange(0, i as int);
                let cur = commands@.subrange(0, i + 1);
                assert(scored_views_of(cur).drop_last() =~= scored_views_of(pre));
                assert(scored_views_of(cur).last() == commands@[i as int]@);
                lemma_scored_upsert_unique(scored_views_of(entries@), commands@[i as int]@);
            }
            upsert_scored(&mut entries, c);
            i += 1;
        }
        proof {
            assert(commands@.subrange(0, n as int) =~= commands@);
        }
        ScoredCommands { entries }
    }

    /// Denormalizes back to a flat list, in insertion order.
    pub fn denormalize(&self) -> (r: Vec<ScoredCommand>)
        ensures
            scored_views_of(r@) == self@,
    {
        clone_scored(&self.entries)
    }

    /// The entry scoring `id`, if one is held.
    pub fn get(&self, id: &str) -> (r: Option<&ScoredCommand>)
        ensures
            match r {
                Some(c) => scored_contains_id(self@, id@) && c@ == self@[scored_index_of_id(
                    self@,
                    id@,
                )] && c@.command.id == id@,
                None => !scored_contains_id(self@, id@),
            },
    {
        let n = self.entries.len();
        let mut i: usize = 0;
        while i < n
            invariant
                n == self.entries@.len(),
                i <= n,
                forall|j: int| 0 <= j < i ==> self@[j].command.id != id@,
            decreases n - i,
        {
            if str_eq(self.entries[i].command.id.as_str(), id) {
                proof {
                    assert(self@[i as int].command.id == id@);
                    lemma_scored_index_of_id(self@, id@);
                    let k = scored_index_of_id(self@, id@);
                    if k < i as int {
                        assert(self@[k].command.id != id@);
                    }
                    if k > i as int {
                        assert(self@[i as int].command.id != id@);
                    }
                }
                return Some(&self.entries[i]);
            }
            i += 1;
        }
        None
    }

    /// Whether the entry set is empty.
    pub fn is_empty(&self) -> (r: bool)
        ensures
            r == (self@.len() == 0),
    {
        self.entries.len() == 0
    }
}

/// Replaces an existing entry scoring the same record in place, or pushes the
/// entry at the end.
fn upsert_scored(entries: &mut Vec<ScoredCommand>, c: ScoredCommand)
    requires
        scored_unique_ids(scored_views_of(old(entries)@)),
    ensures
        scored_views_of(final(entries)@) == scored_upsert(scored_views_of(old(entries)@), c@),
{
    let n = entries.len();
    let mut i: usize = 0;
    while i < n
        invariant
            n == entries@.len(),
            *entries == *old(entries),
            i <= n,
            forall|j: int|
                0 <= j < i ==> scored_views_of(entries@)[j].command.id != c@.command.id,
        decreases n - i,
    {
        if str_eq(entries[i].command.id.as_str(), c.command.id.as_str()) {
            proof {
                let s = scored_views_of(entries@);
                assert(s[i as int].command.id == c@.command.id);
                lemma_scored_index_of_id(s, c@.command.id);
                let k = scored_index_of_id(s, c@.command.id);
                if k < i as int {
                    assert(s[k].command.id != c@.command.id);
                }
                if k > i as int {
                    assert(s[i as int].command.id != c@.command.id);
                }
            }
            entries.set(i, c);
            proof {
                assert(scored_views_of(entries@) =~= scored_upsert(
                    scored_views_of(old(entries)@),
                    c@,
                ));
            }
            return ;
        }
        i += 1;
    }
    entries.push(c);
    proof {
        assert(scored_views_of(entries@) =~= scored_upsert(scored_views_of(old(entries)@), c@));
    }
}

} // verus!
