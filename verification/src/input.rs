//! The input state machine: how one terminal event moves the session.
//!
//! Global transitions (quit, mode switch) are handled first, then the event
//! goes to the handler of the mode that is now active. Each handler mutates
//! the session state through its exact contract and tells the caller what
//! outside work is owed: put text on the clipboard and quit, open the
//! external editor over a field, or persist the catalog after a deletion.

use vstd::prelude::*;

use crate::command_scores::CommandScoreV;
use crate::crow_commands::{
    contains_id, index_of_id, remove_id_spec, Commands, CrowCommandV, Id,
};
use crate::events::{CliEvent, InputEvent, KeyCode, MouseEventKind, TermEvent};
use crate::fuzzy::{fuzzy_search_commands, search_spec};
use crate::state::{cache_full, spec_select, state_wf, visible_scores, MenuItem, State, StateV};
use crate::text::{string_pop_char, string_push_char};

verus! {

/// The event that ends the session from any mode.
pub open spec fn is_quit_event(e: TermEvent) -> bool {
    match e {
        TermEvent::Key(k) => k.ctrl && k.code == KeyCode::Char('q'),
        _ => false,
    }
}

/// The mode after the global mode-switch keys are handled: a designated
/// switch always transitions, whatever mode was active; everything else
/// leaves the mode alone.
pub open spec fn general_mode(e: TermEvent, m: MenuItem) -> MenuItem {
    match e {
        TermEvent::Key(k) => if k.ctrl {
            match k.code {
                KeyCode::Char(c) => if c == 'f' {
                    MenuItem::Find
                } else if c == 'e' {
                    MenuItem::Edit
                } else if c == 'd' {
                    MenuItem::Delete
                } else {
                    m
                },
                _ => m,
            }
        } else {
            m
        },
        _ => m,
    }
}

/// The state after the global transitions of one event.
pub open spec fn after_general(s: StateV, e: TermEvent) -> StateV {
    StateV { mode: general_mode(e, s.mode), ..s }
}

/// Handles the input available in every mode: quitting, and switching mode.
pub fn handle_general(event: &TermEvent, state: &mut State) -> (r: InputEvent)
    ensures
        r == (if is_quit_event(*event) {
            InputEvent::Quit
        } else {
            InputEvent::Continue
        }),
        final(state)@ == after_general(old(state)@, *event),
        state_wf(old(state)@) ==> state_wf(final(state)@),
{
    match event {
        TermEvent::Key(k) => {
            if k.ctrl {
                match k.code {
                    KeyCode::Char(c) => {
                        if c == 'q' {
                            return InputEvent::Quit;
                        } else if c == 'f' {
                            state.set_active_menu_item(MenuItem::Find);
                        } else if c == 'e' {
                            state.set_active_menu_item(MenuItem::Edit);
                        } else if c == 'd' {
                            state.set_active_menu_item(MenuItem::Delete);
                        }
                    },
                    _ => {},
                }
            }
        },
        _ => {},
    }
    InputEvent::Continue
}

/// The state after the query becomes `input` and the search re-runs over the
/// catalog: the ranked result replaces the old one wholesale.
pub open spec fn spec_run_search(s: StateV, input: Seq<char>) -> StateV {
    let found = search_spec(s.commands, input);
    StateV {
        input,
        fuzz_scores: found,
        fuzz_ids: found.map_values(|c: CommandScoreV| c.command_id),
        ..s
    }
}

/// Typing a character: it joins the query, the search re-runs, and the first
/// row is selected.
pub open spec fn spec_type_char(s: StateV, c: char) -> StateV {
    spec_select(spec_run_search(s, s.input.push(c)), 0)
}

/// Backspace: the query loses its last character (an empty query stays
/// empty), the search re-runs, and the first row is selected.
pub open spec fn spec_backspace(s: StateV) -> StateV {
    let input = if s.input.len() > 0 {
        s.input.drop_last()
    } else {
        s.input
    };
    spec_select(spec_run_search(s, input), 0)
}

/// Down: the next row, wrapping past the last to the first; a no-op on an
/// empty list or when no row is highlighted.
pub open spec fn spec_nav_down(s: StateV) -> StateV {
    let len = visible_scores(s).len();
    match s.list_index {
        Some(i) => if len == 0 {
            s
        } else if i as int >= len - 1 {
            spec_select(s, 0)
        } else {
            spec_select(s, i as int + 1)
        },
        None => s,
    }
}

/// Up: the previous row, wrapping before the first to the last; a no-op on
/// an empty list or when no row is highlighted.
pub open spec fn spec_nav_up(s: StateV) -> StateV {
    let len = visible_scores(s).len();
    match s.list_index {
        Some(i) => if len == 0 {
            s
        } else if i as int > 0 {
            spec_select(s, i as int - 1)
        } else {
            spec_select(s, len - 1)
        },
        None => s,
    }
}

/// Wheel up: the detail view scrolls back, never below the top.
pub open spec fn spec_scroll_up(s: StateV) -> StateV {
    StateV {
        scroll: if s.scroll == 0 {
            0
        } else {
            s.scroll - 1
        },
        ..s
    }
}

/// Wheel down: the detail view scrolls on, held at the offset's largest
/// representable value.
pub open spec fn spec_scroll_down(s: StateV) -> StateV {
    StateV {
        scroll: if s.scroll < 65535 {
            s.scroll + 1
        } else {
            s.scroll
        },
        ..s
    }
}

/// How one event moves a state in Find mode, the full-catalog result already
/// cached.
pub open spec fn spec_find_state(s: StateV, e: TermEvent) -> StateV {
    match e {
        TermEvent::Key(k) => match k.code {
            KeyCode::Down => spec_nav_down(s),
            KeyCode::Up => spec_nav_up(s),
            KeyCode::Enter => s,
            KeyCode::Char(c) => if !k.ctrl {
                spec_type_char(s, c)
            } else {
                s
            },
            KeyCode::Backspace => if !k.ctrl {
                spec_backspace(s)
            } else {
                s
            },
            KeyCode::Other => s,
        },
        TermEvent::Mouse(m) => match m {
            MouseEventKind::ScrollUp => spec_scroll_up(s),
            MouseEventKind::ScrollDown => spec_scroll_down(s),
            MouseEventKind::Other => s,
        },
        TermEvent::Other => s,
    }
}

/// The command text that confirm in Find mode copies out: the selected
/// record's, when plain enter comes and the selection resolves.
pub open spec fn spec_find_copy(s: StateV, e: TermEvent) -> Option<Seq<char>> {
    match e {
        TermEvent::Key(k) => if k.code == KeyCode::Enter && !k.ctrl {
            match s.selected_id {
                Some(id) => if contains_id(s.commands, id) {
                    Some(s.commands[index_of_id(s.commands, id)].command)
                } else {
                    None
                },
                None => None,
            }
        } else {
            None
        },
        _ => None,
    }
}

/// What one Find-mode event asks of the caller: go on, or copy the text to
/// the clipboard and end the session.
pub enum FindOutcome {
    /// Keep handling input.
    Continue,
    /// Put the text on the clipboard, then quit.
    CopyAndQuit(String),
}

/// Handles input in Find mode: navigation over the visible list with
/// wraparound, query editing with a fresh search and selection reset on
/// every change, detail scrolling, and confirm, which hands the selected
/// command text out for the clipboard and ends the session.
pub fn handle_find(event: &TermEvent, state: &mut State) -> (r: FindOutcome)
    requires
        state_wf(old(state)@),
    ensures
        state_wf(final(state)@),
        final(state)@ == spec_find_state(cache_full(old(state)@), *event),
        match r {
            FindOutcome::Continue => spec_find_copy(cache_full(old(state)@), *event) is None,
            FindOutcome::CopyAndQuit(text) => spec_find_copy(cache_full(old(state)@), *event)
                == Some(text@),
        },
{
    proof {
        crate::state::lemma_cache_full_wf(old(state)@);
    }
    let visible = state.fuzz_result_or_all();
    let fuzz_result_count = visible.len();
    proof {
        assert(crate::command_scores::score_views_of(visible@).len() == visible@.len());
    }
    let ghost s1 = state@;
    match event {
        TermEvent::Key(k) => {
            match k.code {
                KeyCode::Down => {
                    match state.command_list_state().selected() {
                        Some(selected) => {
                            if fuzz_result_count > 0 {
                                let selected_index = if selected >= fuzz_result_count - 1 {
                                    0
                                } else {
                                    selected + 1
                                };
                                proof {
                                    crate::state::lemma_spec_select_wf(
                                        s1,
                                        selected_index as int,
                                    );
                                }
                                state.select_command(selected_index);
                            }
                        },
                        None => {},
                    }
                },
                KeyCode::Up => {
                    match state.command_list_state().selected() {
                        Some(selected) => {
                            if fuzz_result_count > 0 {
                                let selected_index = if selected > 0 {
                                    selected - 1
                                } else {
                                    fuzz_result_count - 1
                                };
                                proof {
                                    crate::state::lemma_spec_select_wf(
                                        s1,
                                        selected_index as int,
                                    );
                                }
                                state.select_command(selected_index);
                            }
                        },
                        None => {},
                    }
                },
                KeyCode::Enter => {
                    if !k.ctrl {
                        match state.selected_crow_command() {
                            Some(c) => {
                                let text = c.command.clone();
                                return FindOutcome::CopyAndQuit(text);
                            },
                            None => {},
                        }
                    }
                },
                KeyCode::Char(c) => {
                    if !k.ctrl {
                        let mut input = state.input().clone();
                        string_push_char(&mut input, c);
                        state.set_input(input);
                        run_search_and_reset(state);
                    }
                },
                KeyCode::Backspace => {
                    if !k.ctrl {
                        let mut input = state.input().clone();
                        string_pop_char(&mut input);
                        state.set_input(input);
                        run_search_and_reset(state);
                    }
                },
                KeyCode::Other => {},
            }
        },
        TermEvent::Mouse(m) => {
            match m {
                MouseEventKind::ScrollUp => {
                    let pos = state.detail_scroll_position();
                    let new_scroll_value = if pos == 0 {
                        0
                    } else {
                        pos - 1
                    };
                    state.set_detail_scroll_position(new_scroll_value);
                },
                MouseEventKind::ScrollDown => {
                    let pos = state.detail_scroll_position();
                    let new_scroll_value = if pos < 65535 {
                        pos + 1
                    } else {
                        pos
                    };
                    state.set_detail_scroll_position(new_scroll_value);
                },
                MouseEventKind::Other => {},
            }
        },
        TermEvent::Other => {},
    }
    FindOutcome::Continue
}

/// The confirm input of Delete mode.
pub open spec fn is_delete_confirm(e: TermEvent) -> bool {
    match e {
        TermEvent::Key(k) => !k.ctrl && k.code == KeyCode::Char('y'),
        _ => false,
    }
}

/// The inputs that leave Delete mode without touching anything.
pub open spec fn is_delete_cancel(e: TermEvent) -> bool {
    match e {
        TermEvent::Key(k) => !k.ctrl && (k.code == KeyCode::Enter || k.code == KeyCode::Char(
            'n',
        )),
        _ => false,
    }
}

/// The state after a confirmed deletion: the selected record leaves the
/// catalog, the search result and the query are cleared, the mode falls back
/// to Find and the selection is repaired onto the first remaining row. A
/// selection that resolves to nothing makes the whole thing a no-op.
pub open spec fn spec_confirm_delete(s: StateV) -> StateV {
    match s.selected_id {
        Some(id) => if contains_id(s.commands, id) {
            spec_select(
                StateV {
                    commands: remove_id_spec(s.commands, id),
                    command_ids: remove_id_spec(s.commands, id).map_values(
                        |c: CrowCommandV| c.id,
                    ),
                    fuzz_scores: Seq::<CommandScoreV>::empty(),
                    fuzz_ids: Seq::<Seq<char>>::empty(),
                    input: Seq::<char>::empty(),
                    mode: MenuItem::Find,
                    ..s
                },
                0,
            )
        } else {
            s
        },
        None => s,
    }
}

/// How one event moves a state in Delete mode.
pub open spec fn spec_delete_state(s: StateV, e: TermEvent) -> StateV {
    if is_delete_confirm(e) {
        spec_confirm_delete(s)
    } else if is_delete_cancel(e) {
        StateV { mode: MenuItem::Find, ..s }
    } else {
        s
    }
}

/// Whether the event removed a record, so that the catalog wants persisting.
pub open spec fn spec_delete_persists(s: StateV, e: TermEvent) -> bool {
    is_delete_confirm(e) && match s.selected_id {
        Some(id) => contains_id(s.commands, id),
        None => false,
    }
}

/// Handles input in Delete mode: confirm removes the selected record and
/// falls back to Find; cancel (or plain enter) falls back to Find without
/// touching anything. Tells the caller whether the catalog changed and wants
/// persisting.
pub fn handle_delete(event: &TermEvent, state: &mut State) -> (persist: bool)
    requires
        state_wf(old(state)@),
    ensures
        state_wf(final(state)@),
        final(state)@ == spec_delete_state(old(state)@, *event),
        persist == spec_delete_persists(old(state)@, *event),
{
    match event {
        TermEvent::Key(k) => {
            if !k.ctrl {
                match k.code {
                    KeyCode::Char(c) => {
                        if c == 'y' {
                            return state.delete_selected_command();
                        } else if c == 'n' {
                            state.set_active_menu_item(MenuItem::Find);
                        }
                    },
                    KeyCode::Enter => {
                        state.set_active_menu_item(MenuItem::Find);
                    },
                    _ => {},
                }
            }
        },
        _ => {},
    }
    false
}

/// Which of a record's two editable fields the external editor is opened
/// over.
#[derive(Copy, Clone, Debug, PartialEq, Eq, Structural)]
pub enum EditField {
    /// The free-form description.
    Description,
    /// The command text itself.
    Command,
}

/// What Edit mode asks the caller to do: open the external editor over the
/// named record's field, pre-filled with its current value, and hand the
/// outcome back through [`apply_edit`].
pub struct EditRequest {
    /// The id of the record to edit.
    pub command_id: Id,
    /// Which field to edit.
    pub field: EditField,
    /// The field's current value, to pre-fill the editor with.
    pub prefill: String,
}

/// The edit one event in Edit mode asks for: the field, the selected
/// record's id and the pre-fill value, when the key names a field and the
/// selection resolves.
pub open spec fn spec_edit_request(s: StateV, e: TermEvent) -> Option<
    (EditField, Seq<char>, Seq<char>),
> {
    match e {
        TermEvent::Key(k) => if !k.ctrl {
            match k.code {
                KeyCode::Char(c) => if c == 'd' || c == 'c' {
                    match s.selected_id {
                        Some(id) => if contains_id(s.commands, id) {
                            let rec = s.commands[index_of_id(s.commands, id)];
                            if c == 'd' {
                                Some((EditField::Description, id, rec.description))
                            } else {
                                Some((EditField::Command, id, rec.command))
                            }
                        } else {
                            None
                        },
                        None => None,
                    }
                } else {
                    None
                },
                _ => None,
            }
        } else {
            None
        },
        _ => None,
    }
}

/// Handles input in Edit mode: the designated keys ask for the external
/// editor over the selected record's description or command text. The state
/// itself does not move here; the edit lands through [`apply_edit`] once the
/// editor returns.
pub fn handle_edit(event: &TermEvent, state: &State) -> (r: Option<EditRequest>)
    ensures
        match r {
            Some(req) => spec_edit_request(state@, *event) == Some(
                (req.field, req.command_id@, req.prefill@),
            ),
            None => spec_edit_request(state@, *event) is None,
        },
{
    match state.selected_crow_command() {
        Some(c) => {
            match event {
                TermEvent::Key(k) => {
                    if !k.ctrl {
                        match k.code {
                            KeyCode::Char(ch) => {
                                if ch == 'd' {
                                    return Some(
                                        EditRequest {
                                            command_id: c.id.clone(),
                                            field: EditField::Description,
                                            prefill: c.description.clone(),
                                        },
                                    );
                                } else if ch == 'c' {
                                    return Some(
                                        EditRequest {
                                            command_id: c.id.clone(),
                                            field: EditField::Command,
                                            prefill: c.command.clone(),
                                        },
                                    );
                                }
                            },
                            _ => {},
                        }
                    }
                },
                _ => {},
            }
            None
        },
        None => None,
    }
}

/// The text an aborted editor invocation leaves behind: the empty string,
/// never an unset field.
pub open spec fn edited_text(edited: Option<String>) -> Seq<char> {
    match edited {
        Some(t) => t@,
        None => Seq::<char>::empty(),
    }
}

/// Lands the external editor's outcome on the catalog: the named record's
/// field becomes the edited text, or the empty string when the editor was
/// aborted. The caller persists the catalog afterwards.
pub fn apply_edit(state: &mut State, command_id: Id, field: EditField, edited: Option<String>)
    ensures
        final(state)@ == (StateV {
            commands: match field {
                EditField::Description => Commands::update_description_spec(
                    old(state)@.commands,
                    command_id@,
                    edited_text(edited),
                ),
                EditField::Command => Commands::update_command_spec(
                    old(state)@.commands,
                    command_id@,
                    edited_text(edited),
                ),
            },
            ..old(state)@
        }),
        state_wf(old(state)@) ==> state_wf(final(state)@),
{
    let text = match edited {
        Some(t) => t,
        None => String::new(),
    };
    match field {
        EditField::Description => {
            state.update_command_description(command_id, text.as_str());
        },
        EditField::Command => {
            state.update_command_command(command_id, text.as_str());
        },
    }
}

/// What the session loop owes its collaborators after one event.
pub enum Outcome {
    /// Keep handling input.
    Continue,
    /// End the session.
    Quit,
    /// Put the text on the clipboard, then end the session.
    CopyAndQuit(String),
    /// Open the external editor as asked, land the result through
    /// [`apply_edit`], persist the catalog, and resume input capture.
    Edit(EditRequest),
    /// The catalog changed: persist it.
    Persist,
}

/// Dispatches one event: the global transitions first (quit ends the session
/// at once; a mode switch takes effect immediately), then the handler of the
/// mode now active. A tick moves nothing.
pub fn handle_input(event: &CliEvent<TermEvent>, state: &mut State) -> (r: Outcome)
    requires
        state_wf(old(state)@),
    ensures
        state_wf(final(state)@),
        match *event {
            CliEvent::Tick => final(state)@ == old(state)@ && r is Continue,
            CliEvent::Input(e) => if is_quit_event(e) {
                final(state)@ == old(state)@ && r is Quit
            } else {
                let s1 = after_general(old(state)@, e);
                match s1.mode {
                    MenuItem::Find => final(state)@ == spec_find_state(cache_full(s1), e)
                        && match r {
                        Outcome::Continue => spec_find_copy(cache_full(s1), e) is None,
                        Outcome::CopyAndQuit(text) => spec_find_copy(cache_full(s1), e)
                            == Some(text@),
                        _ => false,
                    },
                    MenuItem::Edit => final(state)@ == s1 && match r {
                        Outcome::Edit(req) => spec_edit_request(s1, e) == Some(
                            (req.field, req.command_id@, req.prefill@),
                        ),
                        Outcome::Continue => spec_edit_request(s1, e) is None,
                        _ => false,
                    },
                    MenuItem::Delete => final(state)@ == spec_delete_state(s1, e) && match r {
                        Outcome::Persist => spec_delete_persists(s1, e),
                        Outcome::Continue => !spec_delete_persists(s1, e),
                        _ => false,
                    },
                }
            },
        },
{
    match event {
        CliEvent::Input(e) => {
            match handle_general(e, state) {
                InputEvent::Quit => {
                    return Outcome::Quit;
                },
                InputEvent::Continue => {},
            }
            match *state.active_menu_item() {
                MenuItem::Find => {
                    match handle_find(e, state) {
                        FindOutcome::Continue => Outcome::Continue,
                        FindOutcome::CopyAndQuit(text) => Outcome::CopyAndQuit(text),
                    }
                },
                MenuItem::Edit => {
                    match handle_edit(e, state) {
                        Some(req) => Outcome::Edit(req),
                        None => Outcome::Continue,
                    }
                },
                MenuItem::Delete => {
                    if handle_delete(e, state) {
                        Outcome::Persist
                    } else {
                        Outcome::Continue
                    }
                },
            }
        },
        CliEvent::Tick => Outcome::Continue,
    }
}

/// Re-runs the search over the catalog with the live query and selects the
/// first row: what every query change does.
fn run_search_and_reset(state: &mut State)
    requires
        crate::crow_commands::unique_ids(old(state)@.commands),
        old(state)@.command_ids == old(state)@.commands.map_values(|c: CrowCommandV| c.id),
    ensures
        state_wf(final(state)@),
        final(state)@ == spec_select(spec_run_search(old(state)@, old(state)@.input), 0),
{
    let pattern = state.input().clone();
    let records = state.crow_commands().commands().denormalize();
    let found = fuzzy_search_commands(records, pattern.as_str());
    proof {
        crate::fuzzy::lemma_search_unique(state@.commands, pattern@);
        crate::command_scores::lemma_score_normalize_of_unique(
            crate::command_scores::score_views_of(found@),
        );
    }
    state.set_fuzz_result(found);
    proof {
        crate::state::lemma_spec_select_wf(state@, 0);
    }
    state.select_command(0);
}

} // verus!
