//! Command records and the normalized in-memory catalog.
//!
//! A [`CrowCommand`] is one saved shell command with a unique id and a
//! description. [`Commands`] is the catalog: an id-keyed collection kept as an
//! ordered list whose ids are unique, so that lookup order and render order
//! always agree. [`CrowCommands`] couples the catalog with the list of all
//! command ids in their insertion order.

use vstd::prelude::*;

use crate::text::str_eq;

verus! {

/// Identifier of a stored command.
pub type Id = String;

/// One saved command: an opaque unique id, the command text, and a free-form
/// description. Identity is the id; two records with equal content but
/// different ids stay distinguishable.
#[derive(Debug, PartialEq)]
pub struct CrowCommand {
    /// Unique identifier of the record.
    pub id: Id,
    /// The shell command itself.
    pub command: String,
    /// A free-form description of what the command does.
    pub description: String,
}

/// Mathematical image of a [`CrowCommand`]: its three fields as character
/// sequences.
pub ghost struct CrowCommandV {
    /// View of the record id.
    pub id: Seq<char>,
    /// View of the command text.
    pub command: Seq<char>,
    /// View of the description.
    pub description: Seq<char>,
}

impl View for CrowCommand {
    type V = CrowCommandV;

    open spec fn view(&self) -> CrowCommandV {
        CrowCommandV { id: self.id@, command: self.command@, description: self.description@ }
    }
}

impl Clone for CrowCommand {
    fn clone(&self) -> (r: Self)
        ensures
            r == *self,
    {
        CrowCommand {
            id: self.id.clone(),
            command: self.command.clone(),
            description: self.description.clone(),
        }
    }
}

/// The string a record is fuzzy-matched against: command, separator, then
/// description, so that descriptions are searchable too.
pub open spec fn match_str_spec(c: CrowCommandV) -> Seq<char> {
    c.command + seq![':', ' '] + c.description
}

impl CrowCommand {
    /// Builds the composite string used for fuzzy matching: the command and
    /// the description joined by `": "`.
    pub fn match_str(&self) -> (r: String)
        ensures
            r@ == match_str_spec(self@),
    {
        proof {
            reveal_strlit(": ");
        }
        let mut s = self.command.clone();
        s.append(": ");
        s.append(self.description.as_str());
        proof {
            assert(s@ =~= match_str_spec(self@));
        }
        s
    }
}

/// Views of a sequence of records.
pub open spec fn views_of(s: Seq<CrowCommand>) -> Seq<CrowCommandV> {
    s.map_values(|c: CrowCommand| c@)
}

/// No two records of `s` share an id.
pub open spec fn unique_ids(s: Seq<CrowCommandV>) -> bool {
    forall|i: int, j: int| 0 <= i < j < s.len() ==> s[i].id != s[j].id
}

/// Some record of `s` carries the id.
pub open spec fn contains_id(s: Seq<CrowCommandV>, id: Seq<char>) -> bool {
    exists|i: int| 0 <= i < s.len() && s[i].id == id
}

/// Offset of the first record of `s` carrying the id (meaningful only when
/// the id occurs).
pub open spec fn index_of_id(s: Seq<CrowCommandV>, id: Seq<char>) -> int
    decreases s.len(),
{
    if s.len() == 0 {
        0
    } else if s[0].id == id {
        0
    } else {
        1 + index_of_id(s.skip(1), id)
    }
}

/// When the id occurs in `s`, `index_of_id` is its first occurrence.
pub proof fn lemma_index_of_id(s: Seq<CrowCommandV>, id: Seq<char>)
    requires
        contains_id(s, id),
    ensures
        0 <= index_of_id(s, id) < s.len(),
        s[index_of_id(s, id)].id == id,
        forall|j: int| 0 <= j < index_of_id(s, id) ==> s[j].id != id,
    decreases s.len(),
{
    if s.len() > 0 && s[0].id != id {
        assert(contains_id(s.skip(1), id)) by {
            let i = choose|i: int| 0 <= i < s.len() && s[i].id == id;
            assert(s.skip(1)[i - 1] == s[i]);
        }
        lemma_index_of_id(s.skip(1), id);
        assert forall|j: int| 0 <= j < index_of_id(s, id) implies s[j].id != id by {
            if j > 0 {
                assert(s.skip(1)[j - 1] == s[j]);
            }
        }
    }
}

/// One step of normalization: a record replaces the entry already holding its
/// id, keeping that entry's position, or else joins the end of the list.
pub open spec fn upsert(s: Seq<CrowCommandV>, c: CrowCommandV) -> Seq<CrowCommandV> {
    if contains_id(s, c.id) {
        s.update(index_of_id(s, c.id), c)
    } else {
        s.push(c)
    }
}

/// Normalization of a flat record list: one entry per id, standing where the
/// id first occurred, holding the record that occurred last (later duplicates
/// overwrite earlier ones).
pub open spec fn normalize_spec(s: Seq<CrowCommandV>) -> Seq<CrowCommandV>
    decreases s.len(),
{
    if s.len() == 0 {
        Seq::empty()
    } else {
        upsert(normalize_spec(s.drop_last()), s.last())
    }
}

/// Upserting keeps ids unique.
pub proof fn lemma_upsert_unique(s: Seq<CrowCommandV>, c: CrowCommandV)
    requires
        unique_ids(s),
    ensures
        unique_ids(upsert(s, c)),
        forall|id: Seq<char>|
            contains_id(upsert(s, c), id) <==> (contains_id(s, id) || id == c.id),
{
    if contains_id(s, c.id) {
        lemma_index_of_id(s, c.id);
        let t = s.update(index_of_id(s, c.id), c);
        assert forall|id: Seq<char>| contains_id(t, id) implies (contains_id(s, id) || id
            == c.id) by {
            let i = choose|i: int| 0 <= i < t.len() && t[i].id == id;
            if i != index_of_id(s, c.id) {
                assert(s[i].id == id);
            }
        }
        assert forall|id: Seq<char>| contains_id(s, id) || id == c.id implies contains_id(
            t,
            id,
        ) by {
            if id == c.id {
                assert(t[index_of_id(s, c.id)].id == id);
            } else {
                let i = choose|i: int| 0 <= i < s.len() && s[i].id == id;
                assert(t[i].id == id);
            }
        }
    } else {
        let t = s.push(c);
        assert forall|id: Seq<char>| contains_id(t, id) implies (contains_id(s, id) || id
            == c.id) by {
            let i = choose|i: int| 0 <= i < t.len() && t[i].id == id;
            if i < s.len() {
                assert(s[i].id == id);
            }
        }
        assert forall|id: Seq<char>| contains_id(s, id) || id == c.id implies contains_id(
            t,
            id,
        ) by {
            if id == c.id {
                assert(t[s.len() as int].id == id);
            } else {
                let i = choose|i: int| 0 <= i < s.len() && s[i].id == id;
                assert(t[i].id == id);
            }
        }
    }
}

/// A normalized list has unique ids, and carries exactly the ids of its
/// input.
pub proof fn lemma_normalize_unique(s: Seq<CrowCommandV>)
    ensures
        unique_ids(normalize_spec(s)),
        forall|id: Seq<char>| contains_id(normalize_spec(s), id) <==> contains_id(s, id),
    decreases s.len(),
{
    if s.len() == 0 {
    } else {
        lemma_normalize_unique(s.drop_last());
        lemma_upsert_unique(normalize_spec(s.drop_last()), s.last());
        assert forall|id: Seq<char>| contains_id(s, id) implies (contains_id(
            s.drop_last(),
            id,
        ) || id == s.last().id) by {
            let i = choose|i: int| 0 <= i < s.len() && s[i].id == id;
            if i < s.len() - 1 {
                assert(s.drop_last()[i].id == id);
            }
        }
        assert forall|id: Seq<char>| contains_id(s.drop_last(), id) implies contains_id(
            s,
            id,
        ) by {
            let i = choose|i: int| 0 <= i < s.drop_last().len() && s.drop_last()[i].id == id;
            assert(s[i].id == id);
        }
    }
}

/// Normalizing a list whose ids are already unique gives the list back
/// unchanged: this is the store round trip, since denormalization hands the
/// entries out in exactly this order.
pub proof fn lemma_normalize_of_unique(s: Seq<CrowCommandV>)
    requires
        unique_ids(s),
    ensures
        normalize_spec(s) == s,
    decreases s.len(),
{
    if s.len() > 0 {
        assert(unique_ids(s.drop_last())) by {
            assert(forall|i: int, j: int|
                0 <= i < j < s.drop_last().len() ==> s.drop_last()[i] == s[i]
                    && s.drop_last()[j] == s[j]);
        }
        lemma_normalize_of_unique(s.drop_last());
        assert(!contains_id(s.drop_last(), s.last().id)) by {
            if contains_id(s.drop_last(), s.last().id) {
                let i = choose|i: int|
                    0 <= i < s.drop_last().len() && s.drop_last()[i].id == s.last().id;
                assert(s[i].id == s[s.len() - 1].id);
            }
        }
        assert(normalize_spec(s) =~= s);
    }
}

/// The normalized, id-keyed catalog of records. Kept as an ordered list whose
/// ids are unique: the list is both the lookup structure and the full
/// unfiltered order.
#[derive(Debug, PartialEq)]
pub struct Commands {
    records: Vec<CrowCommand>,
}

impl View for Commands {
    type V = Seq<CrowCommandV>;

    closed spec fn view(&self) -> Seq<CrowCommandV> {
        views_of(self.records@)
    }
}

impl Clone for Commands {
    fn clone(&self) -> (r: Self)
        ensures
            r@ == self@,
    {
        Commands { records: clone_records(&self.records) }
    }
}

impl Default for Commands {
    /// An empty catalog.
    fn default() -> (r: Self)
        ensures
            r@ == Seq::<CrowCommandV>::empty(),
    {
        Commands { records: Vec::new() }
    }
}

/// Element-wise copy of a record list.
pub fn clone_records(records: &Vec<CrowCommand>) -> (r: Vec<CrowCommand>)
    ensures
        r@ == records@,
{
    let mut out: Vec<CrowCommand> = Vec::new();
    let mut i: usize = 0;
    while i < records.len()
        invariant
            i <= records@.len(),
            out@ =~= records@.subrange(0, i as int),
        decreases records@.len() - i,
    {
        out.push(records[i].clone());
        i += 1;
    }
    proof {
        assert(out@ =~= records@);
    }
    out
}

impl Commands {
    /// Builds the catalog from a flat record list; a later record with an
    /// already-seen id overwrites the earlier one in place.
    pub fn normalize(commands: &[CrowCommand]) -> (r: Self)
        ensures
            r@ == normalize_spec(views_of(commands@)),
            unique_ids(r@),
    {
        let mut records: Vec<CrowCommand> = Vec::new();
        let n = commands.len();
        let mut i: usize = 0;
        proof {
            assert(views_of(commands@.subrange(0, 0)) =~= Seq::<CrowCommandV>::empty());
        }
        while i < n
            invariant
                n == commands@.len(),
                i <= n,
                views_of(records@) == normalize_spec(views_of(commands@.subrange(0, i as int))),
                unique_ids(views_of(records@)),
            decreases n - i,
        {
            let c = commands[i].clone();
            proof {
                let pre = commands@.subrange(0, i as int);
                let cur = commands@.subrange(0, i + 1);
                assert(views_of(cur).drop_last() =~= views_of(pre));
                assert(views_of(cur).last() == commands@[i as int]@);
                lemma_upsert_unique(views_of(records@), commands@[i as int]@);
            }
            upsert_record(&mut records, c);
            i += 1;
        }
        proof {
            assert(commands@.subrange(0, n as int) =~= commands@);
        }
        Commands { records }
    }

    /// Denormalizes back to a flat list, in the catalog's insertion order.
    pub fn denormalize(&self) -> (r: Vec<CrowCommand>)
        ensures
            views_of(r@) == self@,
    {
        let r = clone_records(&self.records);
        proof {
            assert(views_of(r@) =~= views_of(self.records@));
        }
        r
    }

    /// The record carrying `id`, if the catalog holds it.
    pub fn get(&self, id: &str) -> (r: Option<&CrowCommand>)
        ensures
            match r {
                Some(c) => contains_id(self@, id@) && 0 <= index_of_id(self@, id@)
                    < self@.len() && c@ == self@[index_of_id(self@, id@)] && c@.id == id@,
                None => !contains_id(self@, id@),
            },
    {
        let n = self.records.len();
        let mut i: usize = 0;
        while i < n
            invariant
                n == self.records@.len(),
                i <= n,
                forall|j: int| 0 <= j < i ==> self@[j].id != id@,
            decreases n - i,
        {
            if str_eq(self.records[i].id.as_str(), id) {
                proof {
                    assert(self@[i as int].id == id@);
                    lemma_index_of_id(self@, id@);
                    let k = index_of_id(self@, id@);
                    if k < i as int {
                        assert(self@[k].id != id@);
                    }
                    if k > i as int {
                        assert(self@[i as int].id != id@);
                    }
                }
                return Some(&self.records[i]);
            }
            i += 1;
        }
        None
    }

    /// Whether the catalog holds no records at all.
    pub fn is_empty(&self) -> (r: bool)
        ensures
            r == (self@.len() == 0),
    {
        self.records.len() == 0
    }

    /// How the catalog looks after the command text of the record carrying
    /// `id` is replaced: unchanged when the id is absent.
    pub open spec fn update_command_spec(
        s: Seq<CrowCommandV>,
        id: Seq<char>,
        command: Seq<char>,
    ) -> Seq<CrowCommandV> {
        if contains_id(s, id) {
            let i = index_of_id(s, id);
            s.update(i, CrowCommandV { command, ..s[i] })
        } else {
            s
        }
    }

    /// How the catalog looks after the description of the record carrying
    /// `id` is replaced: unchanged when the id is absent.
    pub open spec fn update_description_spec(
        s: Seq<CrowCommandV>,
        id: Seq<char>,
        description: Seq<char>,
    ) -> Seq<CrowCommandV> {
        if contains_id(s, id) {
            let i = index_of_id(s, id);
            s.update(i, CrowCommandV { description, ..s[i] })
        } else {
            s
        }
    }

    /// Replaces the command text of the record carrying `command_id`; editing
    /// a vanished record is a silent no-op, never an error.
    pub fn update_command(&mut self, command_id: Id, command: &str)
        ensures
            final(self)@ == Self::update_command_spec(old(self)@, command_id@, command@),
    {
        let n = self.records.len();
        let mut i: usize = 0;
        while i < n
            invariant
                n == self.records@.len(),
                *self == *old(self),
                i <= n,
                forall|j: int| 0 <= j < i ==> self@[j].id != command_id@,
            decreases n - i,
        {
            if str_eq(self.records[i].id.as_str(), command_id.as_str()) {
                proof {
                    assert(self@[i as int].id == command_id@);
                    lemma_index_of_id(self@, command_id@);
                    let k = index_of_id(self@, command_id@);
                    if k < i as int {
                        assert(self@[k].id != command_id@);
                    }
                    if k > i as int {
                        assert(self@[i as int].id != command_id@);
                    }
                }
                let old_rec = &self.records[i];
                let new_rec = CrowCommand {
                    id: old_rec.id.clone(),
                    command: command.to_owned(),
                    description: old_rec.description.clone(),
                };
                self.records.set(i, new_rec);
                proof {
                    assert(self@ =~= Self::update_command_spec(
                        old(self)@,
                        command_id@,
                        command@,
                    ));
                }
                return ;
            }
            i += 1;
        }
    }

    /// Replaces the description of the record carrying `command_id`; editing
    /// a vanished record is a silent no-op, never an error.
    pub fn update_description(&mut self, command_id: Id, description: &str)
        ensures
            final(self)@ == Self::update_description_spec(
                old(self)@,
                command_id@,
                description@,
            ),
    {
        let n = self.records.len();
        let mut i: usize = 0;
        while i < n
            invariant
                n == self.records@.len(),
                *self == *old(self),
                i <= n,
                forall|j: int| 0 <= j < i ==> self@[j].id != command_id@,
            decreases n - i,
        {
            if str_eq(self.records[i].id.as_str(), command_id.as_str()) {
                proof {
                    assert(self@[i as int].id == command_id@);
                    lemma_index_of_id(self@, command_id@);
                    let k = index_of_id(self@, command_id@);
                    if k < i as int {
                        assert(self@[k].id != command_id@);
                    }
                    if k > i as int {
                        assert(self@[i as int].id != command_id@);
                    }
                }
                let old_rec = &self.records[i];
                let new_rec = CrowCommand {
                    id: old_rec.id.clone(),
                    command: old_rec.command.clone(),
                    description: description.to_owned(),
                };
                self.records.set(i, new_rec);
                proof {
                    assert(self@ =~= Self::update_description_spec(
                        old(self)@,
                        command_id@,
                        description@,
                    ));
                }
                return ;
            }
            i += 1;
        }
    }

    /// Removes the record carrying `id`, keeping every other record in order;
    /// removing a vanished record is a silent no-op.
    pub fn remove_by_id(&mut self, id: &str)
        ensures
            final(self)@ == remove_id_spec(old(self)@, id@),
    {
        let n = self.records.len();
        let mut i: usize = 0;
        while i < n
            invariant
                n == self.records@.len(),
                *self == *old(self),
                i <= n,
                forall|j: int| 0 <= j < i ==> self@[j].id != id@,
            decreases n - i,
        {
            if str_eq(self.records[i].id.as_str(), id) {
                proof {
                    assert(self@[i as int].id == id@);
                    lemma_index_of_id(self@, id@);
                    let k = index_of_id(self@, id@);
                    if k < i as int {
                        assert(self@[k].id != id@);
                    }
                    if k > i as int {
                        assert(self@[i as int].id != id@);
                    }
                }
                self.records.remove(i);
                proof {
                    assert(self@ =~= remove_id_spec(old(self)@, id@));
                }
                return ;
            }
            i += 1;
        }
    }
}

/// How a list looks after the first record carrying `id` is removed:
/// unchanged when the id is absent.
pub open spec fn remove_id_spec(s: Seq<CrowCommandV>, id: Seq<char>) -> Seq<CrowCommandV> {
    if contains_id(s, id) {
        s.remove(index_of_id(s, id))
    } else {
        s
    }
}

/// The catalog beside the list of all command ids in insertion order: the
/// normalized view of the stored records that one interactive session works
/// on.
#[derive(Debug, PartialEq)]
pub struct CrowCommands {
    commands: Commands,
    command_ids: Vec<Id>,
}

/// Views of a list of ids.
pub open spec fn id_views_of(s: Seq<Id>) -> Seq<Seq<char>> {
    s.map_values(|id: Id| id@)
}

impl CrowCommands {
    /// View of the catalog.
    pub closed spec fn spec_commands(&self) -> Seq<CrowCommandV> {
        self.commands@
    }

    /// View of the id list.
    pub closed spec fn spec_command_ids(&self) -> Seq<Seq<char>> {
        id_views_of(self.command_ids@)
    }

    /// The id list names exactly the catalog's records, in the catalog's
    /// order.
    pub open spec fn wf(&self) -> bool {
        &&& self.spec_command_ids() == self.spec_commands().map_values(
            |c: CrowCommandV| c.id,
        )
        &&& unique_ids(self.spec_commands())
    }

    /// Couples a catalog with a command-id list.
    pub fn _new(commands: Commands, command_ids: Vec<Id>) -> (r: Self)
        ensures
            r.spec_commands() == commands@,
            r.spec_command_ids() == id_views_of(command_ids@),
    {
        CrowCommands { commands, command_ids }
    }

    /// The catalog itself.
    pub fn commands(&self) -> (r: &Commands)
        ensures
            r@ == self.spec_commands(),
    {
        &self.commands
    }

    /// Replaces the command-id list.
    pub fn set_command_ids(&mut self, command_ids: Vec<Id>)
        ensures
            final(self).spec_commands() == old(self).spec_commands(),
            final(self).spec_command_ids() == id_views_of(command_ids@),
    {
        self.command_ids = command_ids;
    }

    /// Replaces the catalog.
    pub fn set_commands(&mut self, commands: Commands)
        ensures
            final(self).spec_commands() == commands@,
            final(self).spec_command_ids() == old(self).spec_command_ids(),
    {
        self.commands = commands;
    }

    /// Replaces the command text of the record carrying `command_id` in the
    /// catalog; the id list needs no change, since ids never change.
    pub fn update_command(&mut self, command_id: Id, command: &str)
        ensures
            final(self).spec_commands() == Commands::update_command_spec(
                old(self).spec_commands(),
                command_id@,
                command@,
            ),
            final(self).spec_command_ids() == old(self).spec_command_ids(),
    {
        self.commands.update_command(command_id, command);
    }

    /// Replaces the description of the record carrying `command_id` in the
    /// catalog; the id list needs no change, since ids never change.
    pub fn update_description(&mut self, command_id: Id, description: &str)
        ensures
            final(self).spec_commands() == Commands::update_description_spec(
                old(self).spec_commands(),
                command_id@,
                description@,
            ),
            final(self).spec_command_ids() == old(self).spec_command_ids(),
    {
        self.commands.update_description(command_id, description);
    }

    /// Removes the record carrying `id` from the catalog and the id list in
    /// the same mutation, so that the two never disagree.
    pub fn remove_by_id(&mut self, id: &str)
        ensures
            final(self).spec_commands() == remove_id_spec(old(self).spec_commands(), id@),
            final(self).spec_command_ids() == final(self).spec_commands().map_values(
                |c: CrowCommandV| c.id,
            ),
    {
        self.commands.remove_by_id(id);
        let ordered = self.commands.denormalize();
        self.command_ids = collect_ids(&ordered);
        proof {
            assert(id_views_of(self.command_ids@) =~= self.commands@.map_values(
                |c: CrowCommandV| c.id,
            ));
        }
    }
}

/// The ids of a record list, in its order.
pub fn collect_ids(records: &Vec<CrowCommand>) -> (r: Vec<Id>)
    ensures
        id_views_of(r@) == views_of(records@).map_values(|c: CrowCommandV| c.id),
{
    let mut ids: Vec<Id> = Vec::new();
    let mut i: usize = 0;
    while i < records.len()
        invariant
            i <= records@.len(),
            id_views_of(ids@) =~= views_of(records@).map_values(
                |c: CrowCommandV| c.id,
            ).subrange(0, i as int),
        decreases records@.len() - i,
    {
        let x = records[i].id.clone();
        let ghost pre = ids@;
        ids.push(x);
        i += 1;
        proof {
            assert(pre.map_values(|id: Id| id@).len() == pre.len());
            let lhs = id_views_of(ids@);
            let rhs = views_of(records@).map_values(|c: CrowCommandV| c.id).subrange(
                0,
                i as int,
            );
            assert(lhs.len() == i);
            assert(rhs.len() == i);
            assert forall|j: int| 0 <= j < lhs.len() implies lhs[j] == rhs[j] by {
                assert(lhs[j] == ids@[j]@);
                assert(rhs[j] == views_of(records@)[j].id);
                if j < i - 1 {
                    assert(pre.map_values(|id: Id| id@)[j] == pre[j]@);
                    assert(ids@[j] == pre[j]);
                } else {
                    assert(ids@[j] == x);
                }
            }
            assert(lhs =~= rhs);
        }
    }
    proof {
        assert(views_of(records@).map_values(|c: CrowCommandV| c.id).subrange(
            0,
            records@.len() as int,
        ) =~= views_of(records@).map_values(|c: CrowCommandV| c.id));
    }
    ids
}

/// Removing an id keeps the remaining ids unique, and brings no id in.
pub proof fn lemma_remove_id_unique(s: Seq<CrowCommandV>, id: Seq<char>)
    requires
        unique_ids(s),
    ensures
        unique_ids(remove_id_spec(s, id)),
        forall|x: Seq<char>| contains_id(remove_id_spec(s, id), x) ==> contains_id(s, x),
{
    if contains_id(s, id) {
        lemma_index_of_id(s, id);
        let k = index_of_id(s, id);
        let t = s.remove(k);
        assert forall|i: int, j: int| 0 <= i < j < t.len() implies t[i].id != t[j].id by {
            let i0 = if i < k {
                i
            } else {
                i + 1
            };
            let j0 = if j < k {
                j
            } else {
                j + 1
            };
            assert(t[i] == s[i0] && t[j] == s[j0]);
        }
        assert forall|x: Seq<char>| contains_id(t, x) implies contains_id(s, x) by {
            let i = choose|i: int| 0 <= i < t.len() && t[i].id == x;
            let i0 = if i < k {
                i
            } else {
                i + 1
            };
            assert(s[i0].id == x);
        }
    }
}

impl Clone for CrowCommands {
    fn clone(&self) -> (r: Self)
        ensures
            r.spec_commands() == self.spec_commands(),
            r.spec_command_ids() == self.spec_command_ids(),
    {
        let mut ids: Vec<Id> = Vec::new();
        let mut i: usize = 0;
        while i < self.command_ids.len()
            invariant
                i <= self.command_ids@.len(),
                ids@ =~= self.command_ids@.subrange(0, i as int),
            decreases self.command_ids@.len() - i,
        {
            ids.push(self.command_ids[i].clone());
            i += 1;
        }
        proof {
            assert(ids@ =~= self.command_ids@);
        }
        CrowCommands { commands: self.commands.clone(), command_ids: ids }
    }
}

impl Default for CrowCommands {
    /// An empty catalog with an empty id list.
    fn default() -> (r: Self)
        ensures
            r.spec_commands() == Seq::<CrowCommandV>::empty(),
            r.spec_command_ids() == Seq::<Seq<char>>::empty(),
            r.wf(),
    {
        let r = CrowCommands { commands: Commands::default(), command_ids: Vec::new() };
        proof {
            assert(id_views_of(r.command_ids@) =~= Seq::<Seq<char>>::empty());
            assert(id_views_of(r.command_ids@) =~= r.commands@.map_values(
                |c: CrowCommandV| c.id,
            ));
        }
        r
    }
}

/// Replaces an existing record with the same id in place, or pushes the
/// record at the end.
fn upsert_record(records: &mut Vec<CrowCommand>, c: CrowCommand)
    requires
        unique_ids(views_of(old(records)@)),
    ensures
        views_of(final(records)@) == upsert(views_of(old(records)@), c@),
{
    let n = records.len();
    let mut i: usize = 0;
    while i < n
        invariant
            n == records@.len(),
            *records == *old(records),
            i <= n,
            forall|j: int| 0 <= j < i ==> views_of(records@)[j].id != c@.id,
        decreases n - i,
    {
        if str_eq(records[i].id.as_str(), c.id.as_str()) {
            proof {
                let s = views_of(records@);
                assert(s[i as int].id == c@.id);
                lemma_index_of_id(s, c@.id);
                let k = index_of_id(s, c@.id);
                if k < i as int {
                    assert(s[k].id != c@.id);
                }
                if k > i as int {
                    assert(s[i as int].id != c@.id);
                }
            }
            records.set(i, c);
            proof {
                assert(views_of(records@) =~= upsert(views_of(old(records)@), c@));
            }
            return ;
        }
        i += 1;
    }
    records.push(c);
    proof {
        assert(views_of(records@) =~= upsert(views_of(old(records)@), c@));
    }
}

} // verus!
