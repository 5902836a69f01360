//! Shell detection and shell-history cleanup.
//!
//! [`Shell`] tells which shell a path names and where that shell keeps its
//! history. A zsh history line carries a leading `: <seconds>:<elapsed>;`
//! stamp before the command; [`clean_history_command`] removes the first such
//! stamp, leaving a bash line untouched. Reading the history file itself is
//! the caller's business: [`last_history_command`] works on the lines it is
//! handed.

use vstd::prelude::*;

use crate::text::{contains_seq, str_contains};

verus! {

use vstd::string::{StrSliceExecFns, StringExecFns};

/// A supported user shell.
#[derive(Copy, Clone, Debug, PartialEq, Eq, Structural)]
pub enum Shell {
    /// The Z shell.
    Zsh,
    /// The Bourne-again shell.
    Bash,
}

impl Shell {
    /// Which shell a path such as `/bin/zsh` names: the first of `zsh` and
    /// `bash` that occurs in the path wins, and a path naming neither is no
    /// supported shell.
    pub fn from_path(shell_path: String) -> (r: Option<Shell>)
        ensures
            r == if contains_seq(shell_path@, "zsh"@) {
                Some(Shell::Zsh)
            } else if contains_seq(shell_path@, "bash"@) {
                Some(Shell::Bash)
            } else {
                None::<Shell>
            },
    {
        if str_contains(shell_path.as_str(), "zsh") {
            Some(Shell::Zsh)
        } else if str_contains(shell_path.as_str(), "bash") {
            Some(Shell::Bash)
        } else {
            None
        }
    }

    /// The name of the shell's history file in the user's home directory.
    pub fn history_file_name(&self) -> (r: &'static str)
        ensures
            *self is Zsh ==> r@ == ".zsh_history"@,
            *self is Bash ==> r@ == ".bash_history"@,
    {
        match self {
            Self::Zsh => ".zsh_history",
            Self::Bash => ".bash_history",
        }
    }
}

/// A decimal digit.
pub open spec fn is_digit(c: char) -> bool {
    '0' <= c && c <= '9'
}

/// Length of the run of digits in `s` starting at `i`.
pub open spec fn digit_run(s: Seq<char>, i: int) -> int
    decreases s.len() - i,
{
    if 0 <= i && i < s.len() && is_digit(s[i]) {
        1 + digit_run(s, i + 1)
    } else {
        0
    }
}

/// A zsh history stamp `: <digits>:<digit>;` stands in `s` at offset `i`,
/// the digit run being maximal.
pub open spec fn ts_match_at(s: Seq<char>, i: int) -> bool {
    let d = digit_run(s, i + 2);
    &&& 0 <= i
    &&& i + 4 + d < s.len()
    &&& s[i] == ':'
    &&& s[i + 1] == ' '
    &&& s[i + 2 + d] == ':'
    &&& is_digit(s[i + 3 + d])
    &&& s[i + 4 + d] == ';'
}

/// Length of the stamp standing at `i`.
pub open spec fn ts_len_at(s: Seq<char>, i: int) -> int {
    digit_run(s, i + 2) + 5
}

/// Offset of the first stamp at or after `i`, or the length of `s` when none
/// stands there.
pub open spec fn first_ts_from(s: Seq<char>, i: int) -> int
    decreases s.len() - i,
{
    if i < 0 || i >= s.len() {
        s.len() as int
    } else if ts_match_at(s, i) {
        i
    } else {
        first_ts_from(s, i + 1)
    }
}

/// When no stamp stands in `[a, b)`, the search from `a` and from `b` agree.
proof fn lemma_first_ts_skip(s: Seq<char>, a: int, b: int)
    requires
        0 <= a <= b <= s.len(),
        forall|j: int| a <= j < b ==> !ts_match_at(s, j),
    ensures
        first_ts_from(s, a) == first_ts_from(s, b),
    decreases b - a,
{
    if a < b {
        lemma_first_ts_skip(s, a + 1, b);
    }
}

/// A history line with its first zsh stamp removed; a line without one stays
/// as it is.
pub open spec fn strip_ts_spec(s: Seq<char>) -> Seq<char> {
    let i = first_ts_from(s, 0);
    if i < s.len() {
        s.subrange(0, i) + s.subrange(i + ts_len_at(s, i), s.len() as int)
    } else {
        s
    }
}

/// Whether a zsh stamp stands at `i`, and how long it is.
fn ts_match_len(s: &str, i: usize) -> (r: Option<usize>)
    requires
        i < s@.len(),
    ensures
        match r {
            Some(l) => ts_match_at(s@, i as int) && l as int == ts_len_at(s@, i as int),
            None => !ts_match_at(s@, i as int),
        },
{
    let n = s.unicode_len();
    if s.get_char(i) != ':' {
        return None;
    }
    if i + 1 >= n {
        return None;
    }
    if s.get_char(i + 1) != ' ' {
        return None;
    }
    let mut j = i + 2;
    while j < n && s.get_char(j) >= '0' && s.get_char(j) <= '9'
        invariant
            n == s@.len(),
            i + 2 <= j <= n,
            digit_run(s@, i + 2) == (j - i - 2) + digit_run(s@, j as int),
            forall|k: int| i + 2 <= k < j ==> is_digit(s@[k]),
        decreases n - j,
    {
        j += 1;
    }
    proof {
        assert(digit_run(s@, j as int) == 0);
        assert(digit_run(s@, i + 2) == j - i - 2);
    }
    if n - j < 3 {
        return None;
    }
    if s.get_char(j) != ':' {
        return None;
    }
    let c = s.get_char(j + 1);
    if !(c >= '0' && c <= '9') {
        return None;
    }
    if s.get_char(j + 2) != ';' {
        return None;
    }
    Some(j + 3 - i)
}

/// Removes the first zsh history stamp from a line; a line without one (a
/// bash line, say) comes back unchanged.
pub fn clean_history_command(line: &str) -> (r: String)
    ensures
        r@ == strip_ts_spec(line@),
{
    let n = line.unicode_len();
    let mut i: usize = 0;
    while i < n
        invariant
            n == line@.len(),
            i <= n,
            forall|j: int| 0 <= j < i ==> !ts_match_at(line@, j),
        decreases n - i,
    {
        match ts_match_len(line, i) {
            Some(l) => {
                proof {
                    lemma_first_ts_skip(line@, 0, i as int);
                    assert(first_ts_from(line@, i as int) == i as int);
                }
                let head = line.substring_char(0, i);
                let tail = line.substring_char(i + l, n);
                let mut out = String::from_str(head);
                out.append(tail);
                return out;
            },
            None => {
                i += 1;
            },
        }
    }
    proof {
        lemma_first_ts_skip(line@, 0, n as int);
        assert(first_ts_from(line@, 0) == n as int);
    }
    line.to_owned()
}

/// The command most recently entered before the current one: history lines
/// end with the command now running, so the line before the last one is
/// taken, cleaned of any zsh stamp.
pub fn last_history_command(lines: &Vec<String>) -> (r: String)
    requires
        lines@.len() >= 2,
    ensures
        r@ == strip_ts_spec(lines@[lines@.len() - 2]@),
{
    let line = &lines[lines.len() - 2];
    clean_history_command(line.as_str())
}

} // verus!
