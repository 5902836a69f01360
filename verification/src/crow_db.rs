//! The in-memory side of the record store.
//!
//! [`FilePath`] models the location of the backing JSON document as a plain
//! path string. [`CrowDBConnection`] holds the flat record list of one store
//! beside its path; reading and writing the document itself is the storage
//! collaborator's job, which hands record lists in and out of this type.

use vstd::prelude::*;

use crate::crow_commands::{views_of, CrowCommand, CrowCommandV};

verus! {

use vstd::string::{StrSliceExecFns, StringExecFns};

/// A directory and file name joined into one path: the directory, a `/`
/// separator unless the directory already ends with one, then the file name.
pub open spec fn join_path_spec(dir: Seq<char>, file: Seq<char>) -> Seq<char> {
    if dir.len() > 0 && dir.last() == '/' {
        dir + file
    } else {
        dir + seq!['/'] + file
    }
}

/// Location of the backing store document, as a plain path string.
#[derive(Debug, PartialEq)]
pub struct FilePath {
    path: String,
}

impl View for FilePath {
    type V = Seq<char>;

    closed spec fn view(&self) -> Seq<char> {
        self.path@
    }
}

impl Clone for FilePath {
    fn clone(&self) -> (r: Self)
        ensures
            r@ == self@,
    {
        FilePath { path: self.path.clone() }
    }
}

impl FilePath {
    /// Joins a directory (tilde expansion and directory creation are the
    /// caller's business) with a file name; without one, the store's usual
    /// file name `crow_db.json` is taken.
    pub fn new(path: &str, file_name: Option<&str>) -> (r: Self)
        ensures
            r@ == join_path_spec(
                path@,
                match file_name {
                    Some(f) => f@,
                    None => "crow_db.json"@,
                },
            ),
    {
        proof {
            reveal_strlit("/");
        }
        let n = path.unicode_len();
        let mut p = String::from_str(path);
        if !(n > 0 && path.get_char(n - 1) == '/') {
            p.append("/");
        }
        let file = match file_name {
            Some(f) => f,
            None => "crow_db.json",
        };
        p.append(file);
        FilePath { path: p }
    }

    /// Wraps an already-joined path string.
    pub fn from_string(path: String) -> (r: Self)
        ensures
            r@ == path@,
    {
        FilePath { path }
    }

    /// The path as a string slice, when one can be had; here always.
    pub fn to_str(&self) -> (r: Option<&str>)
        ensures
            match r {
                Some(s) => s@ == self@,
                None => false,
            },
    {
        Some(self.path.as_str())
    }

    /// The path as a string slice.
    pub fn as_str(&self) -> (r: &str)
        ensures
            r@ == self@,
    {
        self.path.as_str()
    }
}

/// `s` without any record carrying `id`, order otherwise kept.
pub open spec fn without_id(s: Seq<CrowCommandV>, id: Seq<char>) -> Seq<CrowCommandV>
    decreases s.len(),
{
    if s.len() == 0 {
        Seq::empty()
    } else {
        without_id(s.drop_last(), id) + (if s.last().id == id {
            Seq::<CrowCommandV>::empty()
        } else {
            seq![s.last()]
        })
    }
}

/// One store's flat record list beside the path of its document. A fresh
/// connection holds no records; the storage collaborator reads the document
/// and hands the list in through [`CrowDBConnection::set_commands`].
#[derive(Debug, PartialEq)]
pub struct CrowDBConnection {
    commands: Vec<CrowCommand>,
    path: FilePath,
}

impl CrowDBConnection {
    /// View of the held record list.
    pub closed spec fn spec_commands(&self) -> Seq<CrowCommandV> {
        views_of(self.commands@)
    }

    /// View of the document path.
    pub closed spec fn spec_path(&self) -> Seq<char> {
        self.path@
    }

    /// A connection for the given path, holding no records yet.
    pub fn new(file_path: FilePath) -> (r: Self)
        ensures
            r.spec_commands() == Seq::<CrowCommandV>::empty(),
            r.spec_path() == file_path@,
    {
        let r = CrowDBConnection { commands: Vec::new(), path: file_path };
        proof {
            assert(r.spec_commands() =~= Seq::<CrowCommandV>::empty());
        }
        r
    }

    /// The held records.
    pub fn commands(&self) -> (r: &Vec<CrowCommand>)
        ensures
            views_of(r@) == self.spec_commands(),
    {
        &self.commands
    }

    /// Appends a record to the held list.
    pub fn add_command(&mut self, command: CrowCommand)
        ensures
            final(self).spec_commands() == old(self).spec_commands().push(command@),
            final(self).spec_path() == old(self).spec_path(),
    {
        self.commands.push(command);
        proof {
            assert(self.spec_commands() =~= old(self).spec_commands().push(command@));
        }
    }

    /// Drops every held record whose id is the given record's; removal goes
    /// by id alone, never by content.
    pub fn remove_command(&mut self, command: &CrowCommand)
        ensures
            final(self).spec_commands() == without_id(old(self).spec_commands(), command@.id),
            final(self).spec_path() == old(self).spec_path(),
    {
        let n = self.commands.len();
        let mut kept: Vec<CrowCommand> = Vec::new();
        let mut i: usize = 0;
        proof {
            assert(views_of(kept@) =~= without_id(
                views_of(self.commands@.subrange(0, 0)),
                command@.id,
            ));
        }
        while i < n
            invariant
                n == self.commands@.len(),
                *self == *old(self),
                i <= n,
                views_of(kept@) == without_id(
                    views_of(self.commands@.subrange(0, i as int)),
                    command@.id,
                ),
            decreases n - i,
        {
            proof {
                let pre = views_of(self.commands@.subrange(0, i as int));
                let cur = views_of(self.commands@.subrange(0, i + 1));
                assert(cur.drop_last() =~= pre);
                assert(cur.last() == self.commands@[i as int]@);
            }
            if !crate::text::str_eq(self.commands[i].id.as_str(), command.id.as_str()) {
                let c = self.commands[i].clone();
                kept.push(c);
                proof {
                    assert(views_of(kept@) =~= without_id(
                        views_of(self.commands@.subrange(0, i + 1)),
                        command@.id,
                    ));
                }
            } else {
                proof {
                    assert(views_of(kept@) =~= without_id(
                        views_of(self.commands@.subrange(0, i + 1)),
                        command@.id,
                    ));
                }
            }
            i += 1;
        }
        proof {
            assert(self.commands@.subrange(0, n as int) =~= self.commands@);
        }
        self.commands = kept;
    }

    /// Replaces the held record list.
    pub fn set_commands(self, commands: Vec<CrowCommand>) -> (r: Self)
        ensures
            r.spec_commands() == views_of(commands@),
            r.spec_path() == self.spec_path(),
    {
        CrowDBConnection { commands, path: self.path }
    }

    /// The document path.
    pub fn path(&self) -> (r: &FilePath)
        ensures
            r@ == self.spec_path(),
    {
        &self.path
    }
}

} // verus!
