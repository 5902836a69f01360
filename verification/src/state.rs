//! The one long-lived session state and its invariants.
//!
//! [`State`] owns the catalog, the live query string, the current search
//! result, the selection, the active mode and the detail scroll offset. The
//! selection is a cached projection: it is always re-derived from the list
//! index against the currently visible list, which is the ranked search
//! result when one is live and the full catalog otherwise. [`state_wf`] is
//! the session invariant every mutation preserves: id lists agree with their
//! collections, and the selection resolves to a visible entry whenever the
//! visible list is non-empty.

use vstd::prelude::*;

use crate::command_scores::{
    lemma_score_normalize_of_unique, score_normalize_spec, score_views_of, CommandScore,
    CommandScoreV, CommandScores,
};
use crate::crow_commands::{
    contains_id, index_of_id, lemma_index_of_id, lemma_normalize_unique, normalize_spec,
    remove_id_spec, unique_ids, views_of, Commands, CrowCommand, CrowCommandV, CrowCommands, Id,
};
use crate::crow_db::FilePath;
use crate::fuzzy::{empty_pattern_scores, fuzzy_search_commands, FuzzResult};

verus! {

/// Which of the picker's modes is active. Quitting is a transition out, not
/// a resting mode.
#[derive(Copy, Clone, Debug, PartialEq, Eq, Structural)]
pub enum MenuItem {
    /// Typing narrows the search; the selection navigates the result list.
    Find,
    /// The selected record's fields can be handed to the external editor.
    Edit,
    /// The selected record can be removed after confirmation.
    Delete,
}

impl From<MenuItem> for usize {
    /// The menu tab a mode is drawn on.
    fn from(input: MenuItem) -> (r: usize) {
        match input {
            MenuItem::Find => 0,
            MenuItem::Edit => 1,
            MenuItem::Delete => 2,
        }
    }
}

impl vstd::std_specs::convert::FromSpecImpl<MenuItem> for usize {
    open spec fn obeys_from_spec() -> bool {
        true
    }

    open spec fn from_spec(t: MenuItem) -> usize {
        match t {
            MenuItem::Find => 0,
            MenuItem::Edit => 1,
            MenuItem::Delete => 2,
        }
    }
}

impl Default for MenuItem {
    /// The picker starts out finding.
    fn default() -> (r: MenuItem)
        ensures
            r == MenuItem::Find,
    {
        MenuItem::Find
    }
}

/// The picker's cursor over the visible list: which row is highlighted, if
/// any. Stands in for the terminal list widget's selection state.
#[derive(Copy, Clone, Debug, PartialEq)]
pub struct ListSelection {
    selected: Option<usize>,
}

impl View for ListSelection {
    type V = Option<usize>;

    closed spec fn view(&self) -> Option<usize> {
        self.selected
    }
}

impl Default for ListSelection {
    /// No row highlighted yet.
    fn default() -> (r: Self)
        ensures
            r@ is None,
    {
        ListSelection { selected: None }
    }
}

impl ListSelection {
    /// Highlights the given row, or none.
    pub fn select(&mut self, index: Option<usize>)
        ensures
            final(self)@ == index,
    {
        self.selected = index;
    }

    /// The highlighted row.
    pub fn selected(&self) -> (r: Option<usize>)
        ensures
            r == self@,
    {
        self.selected
    }
}

/// Mathematical image of the whole session state.
pub ghost struct StateV {
    /// View of the store document path.
    pub db_file_path: Seq<char>,
    /// View of the live query string.
    pub input: Seq<char>,
    /// The highlighted row of the visible list.
    pub list_index: Option<usize>,
    /// The catalog's records, in insertion order.
    pub commands: Seq<CrowCommandV>,
    /// The catalog's id list.
    pub command_ids: Seq<Seq<char>>,
    /// The live search result's entries, in rank order.
    pub fuzz_scores: Seq<CommandScoreV>,
    /// The live search result's id list, in rank order.
    pub fuzz_ids: Seq<Seq<char>>,
    /// The id the selection resolves to.
    pub selected_id: Option<Seq<char>>,
    /// The active mode.
    pub mode: MenuItem,
    /// The detail view's vertical scroll offset.
    pub scroll: int,
}

/// The list the picker shows: the live search result when one is live (a
/// non-empty result, or a non-empty query that legitimately found nothing),
/// otherwise the full catalog as score-1 entries.
pub open spec fn visible_scores(s: StateV) -> Seq<CommandScoreV> {
    if s.fuzz_scores.len() > 0 || s.input.len() > 0 {
        s.fuzz_scores
    } else {
        empty_pattern_scores(s.commands)
    }
}

/// The state after the lazily-computed full-catalog result is cached: a
/// no-op when a search result is already live.
pub open spec fn cache_full(s: StateV) -> StateV {
    if s.fuzz_scores.len() > 0 || s.input.len() > 0 {
        s
    } else {
        StateV {
            fuzz_scores: empty_pattern_scores(s.commands),
            fuzz_ids: empty_pattern_scores(s.commands).map_values(
                |c: CommandScoreV| c.command_id,
            ),
            ..s
        }
    }
}

/// The state after row `index` is selected: the full-catalog result is
/// cached if none is live, the row is highlighted, and the selection becomes
/// the id of the visible entry there, or none when the row is out of range.
pub open spec fn spec_select(s: StateV, index: int) -> StateV {
    let s1 = cache_full(s);
    let vis = visible_scores(s1);
    StateV {
        list_index: Some(index as usize),
        selected_id: if 0 <= index < vis.len() {
            Some(vis[index].command_id)
        } else {
            None
        },
        ..s1
    }
}

/// The selection resolves: on a non-empty visible list the highlighted row
/// is in range and the selected id is that row's; on an empty one nothing is
/// selected.
pub open spec fn selection_ok(s: StateV) -> bool {
    let vis = visible_scores(s);
    if vis.len() > 0 {
        match s.list_index {
            Some(i) => (i as int) < vis.len() && s.selected_id == Some(
                vis[i as int].command_id,
            ),
            None => false,
        }
    } else {
        s.selected_id is None
    }
}

/// The session invariant: the catalog's ids are unique, both id lists agree
/// with their collections, and the selection resolves against the visible
/// list.
pub open spec fn state_wf(s: StateV) -> bool {
    &&& unique_ids(s.commands)
    &&& s.command_ids == s.commands.map_values(|c: CrowCommandV| c.id)
    &&& s.fuzz_ids == s.fuzz_scores.map_values(|c: CommandScoreV| c.command_id)
    &&& selection_ok(s)
}

/// Caching the full-catalog result moves neither the visible list nor the
/// invariant.
pub proof fn lemma_cache_full_wf(s: StateV)
    requires
        state_wf(s),
    ensures
        state_wf(cache_full(s)),
        visible_scores(cache_full(s)) == visible_scores(s),
{
    if !(s.fuzz_scores.len() > 0 || s.input.len() > 0) {
        let t = cache_full(s);
        if t.fuzz_scores.len() > 0 {
            assert(visible_scores(t) == empty_pattern_scores(s.commands));
        }
    }
}

/// Selecting a row that an entry stands on (or any row of an empty list)
/// repairs the selection: the invariant holds afterwards whatever the
/// selection was before.
pub proof fn lemma_spec_select_wf(s: StateV, index: int)
    requires
        unique_ids(s.commands),
        s.command_ids == s.commands.map_values(|c: CrowCommandV| c.id),
        s.fuzz_ids == s.fuzz_scores.map_values(|c: CommandScoreV| c.command_id),
        0 <= index <= usize::MAX,
        visible_scores(s).len() > 0 ==> index < visible_scores(s).len(),
    ensures
        state_wf(spec_select(s, index)),
        visible_scores(spec_select(s, index)) == visible_scores(s),
{
    let s1 = cache_full(s);
    let t = spec_select(s, index);
    if !(s.fuzz_scores.len() > 0 || s.input.len() > 0) {
        if s1.fuzz_scores.len() > 0 {
            assert(visible_scores(s1) == empty_pattern_scores(s.commands));
        }
    }
    assert(visible_scores(t) == visible_scores(s1));
}

/// A mutation that leaves every record's id in place (an edit of a command
/// or a description) leaves the whole session invariant in place.
pub proof fn lemma_update_keeps_wf(s: StateV, t: StateV)
    requires
        state_wf(s),
        t.commands.len() == s.commands.len(),
        forall|i: int| 0 <= i < s.commands.len() ==> t.commands[i].id == s.commands[i].id,
        t.command_ids == s.command_ids,
        t.fuzz_scores == s.fuzz_scores,
        t.fuzz_ids == s.fuzz_ids,
        t.input == s.input,
        t.list_index == s.list_index,
        t.selected_id == s.selected_id,
    ensures
        state_wf(t),
{
    assert(t.commands.map_values(|c: CrowCommandV| c.id) =~= s.commands.map_values(
        |c: CrowCommandV| c.id,
    ));
    assert(empty_pattern_scores(t.commands) =~= empty_pattern_scores(s.commands));
    assert(visible_scores(t) == visible_scores(s));
}

/// The one long-lived session state.
#[derive(Debug)]
pub struct State {
    db_file_path: FilePath,
    input: String,
    command_list_state: ListSelection,
    crow_commands: CrowCommands,
    fuzz_result: FuzzResult,
    selected_command_id: Option<Id>,
    active_menu_item: MenuItem,
    detail_scroll_position: u16,
}

impl View for State {
    type V = StateV;

    closed spec fn view(&self) -> StateV {
        StateV {
            db_file_path: self.db_file_path@,
            input: self.input@,
            list_index: self.command_list_state@,
            commands: self.crow_commands.spec_commands(),
            command_ids: self.crow_commands.spec_command_ids(),
            fuzz_scores: self.fuzz_result.spec_scores(),
            fuzz_ids: self.fuzz_result.spec_command_ids(),
            selected_id: match self.selected_command_id {
                Some(id) => Some(id@),
                None => None,
            },
            mode: self.active_menu_item,
            scroll: self.detail_scroll_position as int,
        }
    }
}

impl Default for State {
    /// The blank session: empty path, empty query, nothing selected, empty
    /// catalog, no search run, mode Find, no scrolling.
    fn default() -> (r: Self)
        ensures
            r@ == (StateV {
                db_file_path: Seq::<char>::empty(),
                input: Seq::<char>::empty(),
                list_index: None,
                commands: Seq::<CrowCommandV>::empty(),
                command_ids: Seq::<Seq<char>>::empty(),
                fuzz_scores: Seq::<CommandScoreV>::empty(),
                fuzz_ids: Seq::<Seq<char>>::empty(),
                selected_id: None,
                mode: MenuItem::Find,
                scroll: 0,
            }),
            state_wf(r@),
    {
        let r = State {
            db_file_path: FilePath::from_string(String::new()),
            input: String::new(),
            command_list_state: ListSelection::default(),
            crow_commands: CrowCommands::default(),
            fuzz_result: FuzzResult::default(),
            selected_command_id: None,
            active_menu_item: MenuItem::Find,
            detail_scroll_position: 0,
        };
        proof {
            assert(empty_pattern_scores(r@.commands) =~= Seq::<CommandScoreV>::empty());
        }
        r
    }
}

impl State {
    /// Builds the session state over the records the storage collaborator
    /// read: the catalog is normalized from them, the id list follows the
    /// catalog's order, and the first visible row is selected. Without a
    /// path the state keeps an empty one; resolving a default location is
    /// the caller's business.
    pub fn new(db_file_path: Option<FilePath>, records: Vec<CrowCommand>) -> (r: State)
        ensures
            r@ == spec_select(
                StateV {
                    db_file_path: match db_file_path {
                        Some(p) => p@,
                        None => Seq::<char>::empty(),
                    },
                    input: Seq::<char>::empty(),
                    list_index: None,
                    commands: normalize_spec(views_of(records@)),
                    command_ids: normalize_spec(views_of(records@)).map_values(
                        |c: CrowCommandV| c.id,
                    ),
                    fuzz_scores: Seq::<CommandScoreV>::empty(),
                    fuzz_ids: Seq::<Seq<char>>::empty(),
                    selected_id: None,
                    mode: MenuItem::Find,
                    scroll: 0,
                },
                0,
            ),
            state_wf(r@),
    {
        let mut state = State::default();
        match db_file_path {
            Some(path) => {
                state.set_db_file_path(path);
            },
            None => {},
        }
        let catalog = Commands::normalize(records.as_slice());
        let ordered = catalog.denormalize();
        let ids = crate::crow_commands::collect_ids(&ordered);
        state.crow_commands.set_command_ids(ids);
        state.crow_commands.set_commands(catalog);
        proof {
            lemma_normalize_unique(views_of(records@));
        }
        state.select_command(0);
        state
    }

    /// The live query string.
    pub fn input(&self) -> (r: &String)
        ensures
            r@ == self@.input,
    {
        &self.input
    }

    /// The active mode.
    pub fn active_menu_item(&self) -> (r: &MenuItem)
        ensures
            *r == self@.mode,
    {
        &self.active_menu_item
    }

    /// The picker's cursor state.
    pub fn command_list_state(&self) -> (r: &ListSelection)
        ensures
            r@ == self@.list_index,
    {
        &self.command_list_state
    }

    /// Switches the active mode.
    pub fn set_active_menu_item(&mut self, item: MenuItem)
        ensures
            final(self)@ == (StateV { mode: item, ..old(self)@ }),
    {
        self.active_menu_item = item;
    }

    /// Replaces the live search result with the given ranked entries: the
    /// entry set is normalized by record id, the id list keeps the entries'
    /// rank order.
    pub fn set_fuzz_result(&mut self, command_scores: Vec<CommandScore>)
        ensures
            final(self)@ == (StateV {
                fuzz_scores: score_normalize_spec(score_views_of(command_scores@)),
                fuzz_ids: score_views_of(command_scores@).map_values(
                    |c: CommandScoreV| c.command_id,
                ),
                ..old(self)@
            }),
    {
        let mut ids: Vec<Id> = Vec::new();
        let mut i: usize = 0;
        while i < command_scores.len()
            invariant
                i <= command_scores@.len(),
                ids@.map_values(|id: Id| id@) =~= score_views_of(command_scores@).map_values(
                    |c: CommandScoreV| c.command_id,
                ).subrange(0, i as int),
            decreases command_scores@.len() - i,
        {
            let x = command_scores[i].command_id().clone();
            let ghost pre = ids@;
            ids.push(x);
            i += 1;
            proof {
                assert(pre.map_values(|id: Id| id@).len() == pre.len());
                let lhs = ids@.map_values(|id: Id| id@);
                let rhs = score_views_of(command_scores@).map_values(
                    |c: CommandScoreV| c.command_id,
                ).subrange(0, i as int);
                assert(lhs.len() == i);
                assert(rhs.len() == i);
                assert forall|j: int| 0 <= j < lhs.len() implies lhs[j] == rhs[j] by {
                    assert(lhs[j] == ids@[j]@);
                    assert(rhs[j] == score_views_of(command_scores@)[j].command_id);
                    if j < i - 1 {
                        assert(pre.map_values(|id: Id| id@)[j] == pre[j]@);
                        assert(ids@[j] == pre[j]);
                    } else {
                        assert(ids@[j] == x);
                    }
                }
                assert(lhs =~= rhs);
            }
        }
        proof {
            assert(score_views_of(command_scores@).map_values(
                |c: CommandScoreV| c.command_id,
            ).subrange(0, command_scores@.len() as int) =~= score_views_of(
                command_scores@,
            ).map_values(|c: CommandScoreV| c.command_id));
        }
        let scores = CommandScores::normalize(command_scores.as_slice());
        self.fuzz_result = FuzzResult::new(scores, ids);
    }

    /// The ranked entries the picker should render: the live search result,
    /// or the lazily computed and cached full-catalog result when no search
    /// has run and the query is empty.
    pub fn fuzz_result_or_all(&mut self) -> (r: Vec<CommandScore>)
        requires
            unique_ids(old(self)@.commands),
        ensures
            final(self)@ == cache_full(old(self)@),
            score_views_of(r@) == visible_scores(old(self)@),
    {
        proof {
            reveal_strlit("");
        }
        if !self.fuzz_result.scores().is_empty() || !self.input.as_str().is_empty() {
            self.fuzz_result.scores().denormalize()
        } else {
            let records = self.crow_commands.commands().denormalize();
            let found = fuzzy_search_commands(records, "");
            proof {
                let fv = score_views_of(found@);
                let cmds = old(self)@.commands;
                assert forall|i: int, j: int| 0 <= i < j < fv.len() implies fv[i].command_id
                    != fv[j].command_id by {
                    assert(fv[i] == empty_pattern_scores(cmds)[i]);
                    assert(empty_pattern_scores(cmds)[i].command_id == cmds[i].id);
                    assert(fv[j] == empty_pattern_scores(cmds)[j]);
                    assert(empty_pattern_scores(cmds)[j].command_id == cmds[j].id);
                }
                lemma_score_normalize_of_unique(fv);
            }
            let cloned = crate::command_scores::clone_scores(&found);
            self.set_fuzz_result(cloned);
            found
        }
    }

    /// Replaces the selection cache.
    pub fn set_selected_command_id(&mut self, id: Option<Id>)
        ensures
            final(self)@ == (StateV {
                selected_id: match id {
                    Some(i) => Some(i@),
                    None => None,
                },
                ..old(self)@
            }),
    {
        self.selected_command_id = id;
    }

    /// The record the selection resolves to in the catalog, if any.
    pub fn selected_crow_command(&self) -> (r: Option<&CrowCommand>)
        ensures
            match r {
                Some(c) => self@.selected_id == Some(c@.id) && contains_id(
                    self@.commands,
                    c@.id,
                ) && c@ == self@.commands[index_of_id(self@.commands, c@.id)],
                None => match self@.selected_id {
                    Some(id) => !contains_id(self@.commands, id),
                    None => true,
                },
            },
    {
        match &self.selected_command_id {
            Some(id) => self.crow_commands.commands().get(id.as_str()),
            None => None,
        }
    }

    /// Highlights the row at `index` and re-derives the selection from the
    /// visible list: the entry's id there, or none past the end.
    pub fn select_command(&mut self, index: usize)
        requires
            unique_ids(old(self)@.commands),
        ensures
            final(self)@ == spec_select(old(self)@, index as int),
    {
        self.command_list_state.select(Some(index));
        let scores = self.fuzz_result_or_all();
        let selected_command_id: Option<Id> = if index < scores.len() {
            Some(scores[index].command_id().clone())
        } else {
            None
        };
        self.set_selected_command_id(selected_command_id);
    }

    /// Replaces the live query string.
    pub fn set_input(&mut self, input: String)
        ensures
            final(self)@ == (StateV { input: input@, ..old(self)@ }),
    {
        self.input = input;
    }

    /// Sets the detail view's scroll offset.
    pub fn set_detail_scroll_position(&mut self, detail_scroll_position: u16)
        ensures
            final(self)@ == (StateV {
                scroll: detail_scroll_position as int,
                ..old(self)@
            }),
    {
        self.detail_scroll_position = detail_scroll_position;
    }

    /// The detail view's scroll offset.
    pub fn detail_scroll_position(&self) -> (r: u16)
        ensures
            r as int == self@.scroll,
    {
        self.detail_scroll_position
    }

    /// Whether the catalog holds any records at all.
    pub fn has_crow_commands(&self) -> (r: bool)
        ensures
            r == (self@.commands.len() > 0),
    {
        !self.crow_commands.commands().is_empty()
    }

    /// The live search result.
    pub fn fuzz_result(&self) -> (r: &FuzzResult)
        ensures
            r.spec_scores() == self@.fuzz_scores,
            r.spec_command_ids() == self@.fuzz_ids,
    {
        &self.fuzz_result
    }

    /// The catalog beside its id list.
    pub fn crow_commands(&self) -> (r: &CrowCommands)
        ensures
            r.spec_commands() == self@.commands,
            r.spec_command_ids() == self@.command_ids,
    {
        &self.crow_commands
    }

    /// The store document path.
    pub fn db_file_path(&self) -> (r: &FilePath)
        ensures
            r@ == self@.db_file_path,
    {
        &self.db_file_path
    }

    /// Replaces the store document path.
    pub fn set_db_file_path(&mut self, db_file_path: FilePath)
        ensures
            final(self)@ == (StateV { db_file_path: db_file_path@, ..old(self)@ }),
    {
        self.db_file_path = db_file_path;
    }

    /// Replaces the description of the record carrying `command_id` in the
    /// catalog; an absent id is a silent no-op. Nothing else moves, and the
    /// session invariant survives, since ids do not change.
    pub fn update_command_description(&mut self, command_id: Id, description: &str)
        ensures
            final(self)@ == (StateV {
                commands: Commands::update_description_spec(
                    old(self)@.commands,
                    command_id@,
                    description@,
                ),
                ..old(self)@
            }),
            state_wf(old(self)@) ==> state_wf(final(self)@),
    {
        self.crow_commands.update_description(command_id, description);
        proof {
            if state_wf(old(self)@) {
                let sc = old(self)@.commands;
                if contains_id(sc, command_id@) {
                    lemma_index_of_id(sc, command_id@);
                }
                lemma_update_keeps_wf(old(self)@, self@);
            }
        }
    }

    /// Replaces the command text of the record carrying `command_id` in the
    /// catalog; an absent id is a silent no-op. Nothing else moves, and the
    /// session invariant survives, since ids do not change.
    pub fn update_command_command(&mut self, command_id: Id, command: &str)
        ensures
            final(self)@ == (StateV {
                commands: Commands::update_command_spec(
                    old(self)@.commands,
                    command_id@,
                    command@,
                ),
                ..old(self)@
            }),
            state_wf(old(self)@) ==> state_wf(final(self)@),
    {
        self.crow_commands.update_command(command_id, command);
        proof {
            if state_wf(old(self)@) {
                let sc = old(self)@.commands;
                if contains_id(sc, command_id@) {
                    lemma_index_of_id(sc, command_id@);
                }
                lemma_update_keeps_wf(old(self)@, self@);
            }
        }
    }

    /// Removes the record the selection resolves to from the catalog, clears
    /// the search result and the query, falls back to Find mode and repairs
    /// the selection onto the first row of what is left. A selection that
    /// resolves to nothing is a silent no-op. Tells the caller whether the
    /// catalog changed and wants persisting.
    pub fn delete_selected_command(&mut self) -> (deleted: bool)
        requires
            state_wf(old(self)@),
        ensures
            state_wf(final(self)@),
            match old(self)@.selected_id {
                Some(id) => if contains_id(old(self)@.commands, id) {
                    deleted && final(self)@ == spec_select(
                        StateV {
                            commands: remove_id_spec(old(self)@.commands, id),
                            command_ids: remove_id_spec(old(self)@.commands, id).map_values(
                                |c: CrowCommandV| c.id,
                            ),
                            fuzz_scores: Seq::<CommandScoreV>::empty(),
                            fuzz_ids: Seq::<Seq<char>>::empty(),
                            input: Seq::<char>::empty(),
                            mode: MenuItem::Find,
                            ..old(self)@
                        },
                        0,
                    )
                } else {
                    !deleted && final(self)@ == old(self)@
                },
                None => !deleted && final(self)@ == old(self)@,
            },
    {
        let target: Option<Id> = match self.selected_crow_command() {
            Some(c) => Some(c.id.clone()),
            None => None,
        };
        match target {
            Some(id) => {
                proof {
                    crate::crow_commands::lemma_remove_id_unique(self@.commands, id@);
                }
                self.crow_commands.remove_by_id(id.as_str());
                self.set_fuzz_result(Vec::new());
                proof {
                    assert(self@.fuzz_scores =~= Seq::<CommandScoreV>::empty());
                    assert(self@.fuzz_ids =~= Seq::<Seq<char>>::empty());
                }
                self.set_input(String::new());
                self.set_active_menu_item(MenuItem::Find);
                proof {
                    assert(self@.fuzz_ids =~= self@.fuzz_scores.map_values(
                        |c: CommandScoreV| c.command_id,
                    ));
                    lemma_spec_select_wf(self@, 0);
                }
                self.select_command(0);
                true
            },
            None => false,
        }
    }

    /// The selection cache itself.
    pub fn _selected_command_id(&self) -> (r: Option<&String>)
        ensures
            match r {
                Some(id) => self@.selected_id == Some(id@),
                None => self@.selected_id is None,
            },
    {
        self.selected_command_id.as_ref()
    }
}

} // verus!
