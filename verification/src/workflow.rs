//! The mass and quick per-repository workflows: the confirmation gates, the
//! parsing of prompt answers, the loop control of the per-repository driver,
//! and the exact command sequences a confirmed repository runs.

use vstd::prelude::*;
use crate::strutil::{chars_to_string, str_eq, str_to_string, strings_view, to_chars};

verus! {

/// What the per-repository driver does after the confirmation step: run the
/// workflow on the item, move past it, or stop the remaining loop.
#[derive(Clone, Copy, Debug, PartialEq, Eq, Structural)]
pub enum LoopControl {
    Execute,
    SkipItem,
    Stop,
}

/// The loop step of the per-repository driver: a confirmed repository is
/// executed, a declined one is skipped, and a cancelled prompt stops the
/// remaining loop while completed work stands.
pub fn process_step(confirmation: Option<bool>) -> (r: LoopControl)
    ensures
        confirmation == Some(true) ==> r == LoopControl::Execute,
        confirmation == Some(false) ==> r == LoopControl::SkipItem,
        confirmation is None ==> r == LoopControl::Stop,
{
    match confirmation {
        Some(true) => LoopControl::Execute,
        Some(false) => LoopControl::SkipItem,
        None => LoopControl::Stop,
    }
}

/// A valid answer to the mass prompt: yes or no, in either case. Any other
/// text is invalid and makes the prompt ask again.
pub fn parse_mass_answer(input: &str) -> (r: Option<bool>)
    ensures
        r == Some(true) <==> (input@ == "y"@ || input@ == "Y"@),
        r == Some(false) <==> (input@ == "n"@ || input@ == "N"@),
{
    proof {
        reveal_strlit("y");
        reveal_strlit("Y");
        reveal_strlit("n");
        reveal_strlit("N");
        assert("y"@[0] == 'y' && "Y"@[0] == 'Y' && "n"@[0] == 'n' && "N"@[0] == 'N');
    }
    if str_eq(input, "y") || str_eq(input, "Y") {
        Some(true)
    } else if str_eq(input, "n") || str_eq(input, "N") {
        Some(false)
    } else {
        None
    }
}

/// An answer to the quick prompt: proceed, skip, or show more information
/// and ask again.
#[derive(Clone, Copy, Debug, PartialEq, Eq, Structural)]
pub enum QuickAnswer {
    Proceed,
    Skip,
    More,
}

/// A valid answer to the quick prompt: yes, no, or more, in either case.
/// Any other text is invalid and makes the prompt ask again.
pub fn parse_quick_answer(input: &str) -> (r: Option<QuickAnswer>)
    ensures
        r == Some(QuickAnswer::Proceed) <==> (input@ == "y"@ || input@ == "Y"@),
        r == Some(QuickAnswer::Skip) <==> (input@ == "n"@ || input@ == "N"@),
        r == Some(QuickAnswer::More) <==> (input@ == "m"@ || input@ == "M"@),
{
    proof {
        reveal_strlit("y");
        reveal_strlit("Y");
        reveal_strlit("n");
        reveal_strlit("N");
        reveal_strlit("m");
        reveal_strlit("M");
        assert("y"@[0] == 'y' && "Y"@[0] == 'Y' && "n"@[0] == 'n' && "N"@[0] == 'N');
        assert("m"@[0] == 'm' && "M"@[0] == 'M');
    }
    if str_eq(input, "y") || str_eq(input, "Y") {
        Some(QuickAnswer::Proceed)
    } else if str_eq(input, "n") || str_eq(input, "N") {
        Some(QuickAnswer::Skip)
    } else if str_eq(input, "m") || str_eq(input, "M") {
        Some(QuickAnswer::More)
    } else {
        None
    }
}

/// What the quick workflow does with one repository before any prompt.
#[derive(Clone, Copy, Debug, PartialEq, Eq, Structural)]
pub enum QuickGate {
    /// No uncommitted changes: the repository is passed over with no prompt
    /// and no git mutation.
    SkipSilently,
    /// Changes are present and prompts are bypassed: proceed at once.
    Proceed,
    /// Changes are present: ask the operator.
    Prompt,
}

/// The quick workflow's gate: a repository with a clean working tree is
/// skipped silently, whatever the interactivity setting; one with changes
/// proceeds at once under skip-interactive and is prompted for otherwise.
pub fn quick_gate(has_changes: bool, skip_interactive: bool) -> (r: QuickGate)
    ensures
        !has_changes ==> r == QuickGate::SkipSilently,
        has_changes && skip_interactive ==> r == QuickGate::Proceed,
        has_changes && !skip_interactive ==> r == QuickGate::Prompt,
{
    if !has_changes {
        QuickGate::SkipSilently
    } else if skip_interactive {
        QuickGate::Proceed
    } else {
        QuickGate::Prompt
    }
}

/// Whitespace for the purpose of splitting a command line into words.
pub open spec fn is_ws(c: char) -> bool {
    c == ' ' || c == '\t' || c == '\n' || c == '\r'
}

/// The first position at or after `i` that holds whitespace or ends `s`.
pub open spec fn word_end(s: Seq<char>, i: int) -> int
    decreases s.len() - i,
{
    if 0 <= i && i < s.len() && !is_ws(s[i]) {
        word_end(s, i + 1)
    } else {
        i
    }
}

/// `word_end` stays within `s` and never moves backwards.
pub proof fn lemma_word_end_bounds(s: Seq<char>, i: int)
    requires
        0 <= i <= s.len(),
    ensures
        i <= word_end(s, i) <= s.len(),
    decreases s.len() - i,
{
    if i < s.len() && !is_ws(s[i]) {
        lemma_word_end_bounds(s, i + 1);
    }
}

/// The whitespace-separated words of `s` from position `i` on.
pub open spec fn split_ws_from(s: Seq<char>, i: int) -> Seq<Seq<char>>
    decreases s.len() - i,
    via split_ws_from_decreases
{
    if !(0 <= i < s.len()) {
        Seq::empty()
    } else if is_ws(s[i]) {
        split_ws_from(s, i + 1)
    } else {
        seq![s.subrange(i, word_end(s, i))] + split_ws_from(s, word_end(s, i))
    }
}

#[via_fn]
proof fn split_ws_from_decreases(s: Seq<char>, i: int) {
    if 0 <= i < s.len() && !is_ws(s[i]) {
        lemma_word_end_bounds(s, i + 1);
        assert(word_end(s, i) == word_end(s, i + 1));
    }
}

/// The whitespace-separated words of `s`.
pub open spec fn split_ws(s: Seq<char>) -> Seq<Seq<char>> {
    split_ws_from(s, 0)
}

/// The words of a user-supplied git command line, split on whitespace. They
/// follow the `git -C <path>` prefix of the mass invocation.
pub fn mass_command_args(command: &str) -> (r: Vec<String>)
    ensures
        strings_view(r@) == split_ws(command@),
{
    let cs = to_chars(command);
    let n = cs.len();
    let mut r: Vec<String> = Vec::new();
    let mut i: usize = 0;
    proof {
        assert(strings_view(r@) =~= Seq::<Seq<char>>::empty());
    }
    while i < n
        invariant
            cs@ == command@,
            n == cs@.len(),
            i <= n,
            strings_view(r@) + split_ws_from(command@, i as int) == split_ws(command@),
        decreases n - i,
    {
        let c = cs[i];
        if c == ' ' || c == '\t' || c == '\n' || c == '\r' {
            proof {
                assert(split_ws_from(command@, i as int) == split_ws_from(command@, i + 1 as int));
            }
            i += 1;
        } else {
            let start = i;
            let mut word: Vec<char> = Vec::new();
            proof {
                assert(word@ =~= command@.subrange(start as int, i as int));
            }
            while i < n && !(cs[i] == ' ' || cs[i] == '\t' || cs[i] == '\n' || cs[i] == '\r')
                invariant
                    cs@ == command@,
                    n == cs@.len(),
                    start <= i <= n,
                    word@ == command@.subrange(start as int, i as int),
                    forall|k: int| start <= k < i ==> !is_ws(#[trigger] command@[k]),
                decreases n - i,
            {
                word.push(cs[i]);
                proof {
                    assert(word@ =~= command@.subrange(start as int, i + 1 as int));
                }
                i += 1;
            }
            proof {
                lemma_word_end_is(command@, start as int, i as int);
                assert(split_ws_from(command@, start as int) == seq![
                    command@.subrange(start as int, word_end(command@, start as int)),
                ] + split_ws_from(command@, word_end(command@, start as int)));
            }
            let ghost pre = strings_view(r@);
            let ghost wv = command@.subrange(start as int, i as int);
            r.push(chars_to_string(&word));
            proof {
                assert(strings_view(r@) =~= pre.push(wv));
                assert(pre.push(wv) + split_ws_from(command@, i as int) =~= pre + split_ws_from(
                    command@,
                    start as int,
                ));
            }
        }
    }
    proof {
        assert(strings_view(r@) + split_ws_from(command@, n as int) =~= strings_view(r@));
    }
    r
}

/// `word_end` is the position where the scan stopped: everything from `a`
/// to `j` is non-whitespace and `j` ends the string or holds whitespace.
proof fn lemma_word_end_is(s: Seq<char>, a: int, j: int)
    requires
        0 <= a <= j <= s.len(),
        forall|k: int| a <= k < j ==> !is_ws(s[k]),
        j == s.len() || is_ws(s[j]),
    ensures
        word_end(s, a) == j,
    decreases j - a,
{
    if a < j {
        lemma_word_end_is(s, a + 1, j);
    }
}

/// The push invocation: `push origin <branch>`, with `--set-upstream` added
/// exactly when the branch is absent from the remote.
pub fn create_push_request_args(branch: &str, set_upstream: bool) -> (r: Vec<String>)
    ensures
        !set_upstream ==> strings_view(r@) == seq!["push"@, "origin"@, branch@],
        set_upstream ==> strings_view(r@) == seq!["push"@, "origin"@, branch@, "--set-upstream"@],
{
    let mut r: Vec<String> = Vec::new();
    r.push(str_to_string("push"));
    r.push(str_to_string("origin"));
    r.push(str_to_string(branch));
    if set_upstream {
        r.push(str_to_string("--set-upstream"));
        proof {
            assert(strings_view(r@) =~= seq!["push"@, "origin"@, branch@, "--set-upstream"@]);
        }
    } else {
        proof {
            assert(strings_view(r@) =~= seq!["push"@, "origin"@, branch@]);
        }
    }
    r
}

/// Whether the push must set an upstream: exactly when the remote-heads
/// query for the branch came back empty.
pub fn needs_upstream(ls_remote_output: &str) -> (r: bool)
    ensures
        r == (ls_remote_output@.len() == 0),
{
    ls_remote_output.is_empty()
}

/// The git invocations, in order, that quicken one confirmed repository up
/// to the push: rebase onto the remote, set the commit identity from the
/// chosen profile, stage everything, and commit with the given message. The
/// push follows separately once the current branch is known.
pub fn execute_quick_actions(username: &str, email: &str, message: &str) -> (r: Vec<Vec<String>>)
    ensures
        r@.len() == 5,
        strings_view(r@[0]@) == seq!["pull"@, "--rebase"@],
        strings_view(r@[1]@) == seq!["config"@, "user.name"@, username@],
        strings_view(r@[2]@) == seq!["config"@, "user.email"@, email@],
        strings_view(r@[3]@) == seq!["add"@, "."@],
        strings_view(r@[4]@) == seq!["commit"@, "-m"@, message@],
{
    let mut r: Vec<Vec<String>> = Vec::new();

    let mut pull_rebase: Vec<String> = Vec::new();
    pull_rebase.push(str_to_string("pull"));
    pull_rebase.push(str_to_string("--rebase"));
    proof {
        assert(strings_view(pull_rebase@) =~= seq!["pull"@, "--rebase"@]);
    }
    r.push(pull_rebase);

    let mut set_name: Vec<String> = Vec::new();
    set_name.push(str_to_string("config"));
    set_name.push(str_to_string("user.name"));
    set_name.push(str_to_string(username));
    proof {
        assert(strings_view(set_name@) =~= seq!["config"@, "user.name"@, username@]);
    }
    r.push(set_name);

    let mut set_email: Vec<String> = Vec::new();
    set_email.push(str_to_string("config"));
    set_email.push(str_to_string("user.email"));
    set_email.push(str_to_string(email));
    proof {
        assert(strings_view(set_email@) =~= seq!["config"@, "user.email"@, email@]);
    }
    r.push(set_email);

    let mut add_all: Vec<String> = Vec::new();
    add_all.push(str_to_string("add"));
    add_all.push(str_to_string("."));
    proof {
        assert(strings_view(add_all@) =~= seq!["add"@, "."@]);
    }
    r.push(add_all);

    let mut commit: Vec<String> = Vec::new();
    commit.push(str_to_string("commit"));
    commit.push(str_to_string("-m"));
    commit.push(str_to_string(message));
    proof {
        assert(strings_view(commit@) =~= seq!["commit"@, "-m"@, message@]);
    }
    r.push(commit);

    r
}

/// Which profile quickens a repository: the single profile whose provider
/// matches the remote URL is used silently; any other count means the
/// operator is prompted, with the active profile as the fallback when the
/// prompt is cancelled.
pub fn select_profile(matching: &Vec<String>) -> (r: Option<usize>)
    ensures
        matching@.len() == 1 ==> r == Some(0usize),
        matching@.len() != 1 ==> r is None,
{
    if matching.len() == 1 {
        Some(0)
    } else {
        None
    }
}

} // verus!
