use vstd::prelude::*;

use crate::text::{
    chars_of, first_index, is_ws, is_ws_char, lemma_first_index, slice_of, string_of, trim,
    trim_chars,
};

verus! {

/// What remains to decide whether a command line can plausibly be run.
#[derive(Debug)]
pub enum ExecCheck {
    /// Empty: it cannot.
    Invalid,
    /// A bare command name, found through the search path at launch: it can.
    Valid,
    /// An absolute path: it can if this path exists.
    MustExist(String),
    /// Quotes or backslashes: the trimmed line must first be split into words
    /// by shell rules.
    NeedsShellSplit(String),
}

pub enum ExecCheckModel {
    Invalid,
    Valid,
    MustExist(Seq<char>),
    NeedsShellSplit(Seq<char>),
}

impl View for ExecCheck {
    type V = ExecCheckModel;

    open spec fn view(&self) -> ExecCheckModel {
        match self {
            ExecCheck::Invalid => ExecCheckModel::Invalid,
            ExecCheck::Valid => ExecCheckModel::Valid,
            ExecCheck::MustExist(p) => ExecCheckModel::MustExist(p@),
            ExecCheck::NeedsShellSplit(t) => ExecCheckModel::NeedsShellSplit(t@),
        }
    }
}

pub open spec fn is_shell_char(c: char) -> bool {
    c == '"' || c == '\'' || c == '\\'
}

/// Whether a command line holds a quote or a backslash.
pub open spec fn has_shell_syntax(t: Seq<char>) -> bool {
    exists|i: int| 0 <= i < t.len() && is_shell_char(#[trigger] t[i])
}

/// The first whitespace-delimited word of `t`, which starts with no whitespace.
pub open spec fn first_word(t: Seq<char>) -> Seq<char> {
    t.take(first_index(t, |c: char| is_ws(c)))
}

/// How a candidate command is judged: an absolute path must exist, anything
/// else is accepted.
pub open spec fn command_check(cmd: Seq<char>) -> ExecCheckModel {
    if cmd.len() > 0 && cmd[0] == '/' {
        ExecCheckModel::MustExist(cmd)
    } else {
        ExecCheckModel::Valid
    }
}

/// The check owed to the command line `exec`.
pub open spec fn exec_check_of(exec: Seq<char>) -> ExecCheckModel {
    let t = trim(exec);
    if t.len() == 0 {
        ExecCheckModel::Invalid
    } else if !has_shell_syntax(t) {
        command_check(first_word(t))
    } else {
        ExecCheckModel::NeedsShellSplit(t)
    }
}

/// The check owed once the line was split into `words` by shell rules (`None`:
/// the split failed, and the line is accepted).
pub open spec fn words_check(words: Option<Seq<Seq<char>>>) -> ExecCheckModel {
    match words {
        None => ExecCheckModel::Valid,
        Some(w) => if w.len() == 0 {
            ExecCheckModel::Valid
        } else {
            command_check(w[0])
        },
    }
}

fn command_check_exec(cmd: Vec<char>) -> (r: ExecCheck)
    ensures
        r@ == command_check(cmd@),
{
    if cmd.len() > 0 && cmd[0] == '/' {
        ExecCheck::MustExist(string_of(&cmd))
    } else {
        ExecCheck::Valid
    }
}

/// Decides what running `exec` depends on. Empty (after trimming) is invalid.
/// Without quotes or backslashes, the first word is the command: an absolute
/// path must exist, a bare name is valid. Otherwise the line needs a shell split.
pub fn exec_check(exec: &str) -> (r: ExecCheck)
    ensures
        r@ == exec_check_of(exec@),
{
    let t = trim_chars(&chars_of(exec));
    let n = t.len();
    if n == 0 {
        return ExecCheck::Invalid;
    }
    let mut i: usize = 0;
    while i < n
        invariant
            n == t.len(),
            t@ == trim(exec@),
            i <= n,
            forall|k: int| 0 <= k < i ==> !is_shell_char(t@[k]),
        decreases n - i,
    {
        if t[i] == '"' || t[i] == '\'' || t[i] == '\\' {
            assert(is_shell_char(t@[i as int]));
            return ExecCheck::NeedsShellSplit(string_of(&t));
        }
        i = i + 1;
    }
    let mut e: usize = 0;
    while e < n && !is_ws_char(t[e])
        invariant
            n == t.len(),
            t@ == trim(exec@),
            forall|k: int| 0 <= k < n ==> !is_shell_char(t@[k]),
            e <= n,
            forall|k: int| 0 <= k < e ==> !is_ws(t@[k]),
        decreases n - e,
    {
        e = e + 1;
    }
    proof {
        lemma_first_index(t@, |c: char| is_ws(c), e as int);
    }
    command_check_exec(slice_of(&t, 0, e))
}

/// Decides what running a line depends on, from its shell split: `None` when
/// the split failed (the line is then accepted), else its words.
pub fn exec_check_from_words(words: Option<Vec<String>>) -> (r: ExecCheck)
    ensures
        r@ == words_check(
            match words {
                Some(w) => Some(w@.map_values(|s: String| s@)),
                None => None,
            },
        ),
{
    match words {
        None => ExecCheck::Valid,
        Some(w) => if w.len() == 0 {
            ExecCheck::Valid
        } else {
            command_check_exec(chars_of(w[0].as_str()))
        },
    }
}

/// Relies on `Path::exists`: whether the path names something on the
/// filesystem. The answer depends on the disk, so nothing is promised of it.
#[verifier::external_body]
fn path_exists(p: &str) -> bool {
    std::path::Path::new(p).exists()
}

/// The verdict of a check: invalid is false, valid is true, an absolute path
/// is valid when it exists. A line still waiting for its shell split is
/// accepted, as when the split fails.
pub fn exec_verdict(check: &ExecCheck) -> (r: bool)
    ensures
        check@ is Invalid ==> !r,
        check@ is Valid ==> r,
        check@ is NeedsShellSplit ==> r,
{
    match check {
        ExecCheck::Invalid => false,
        ExecCheck::Valid => true,
        ExecCheck::MustExist(p) => path_exists(p.as_str()),
        ExecCheck::NeedsShellSplit(_) => true,
    }
}

} // verus!
