//! The command model: the closed set of commands the tool runs, the shared
//! pattern-filter arguments, and the alias translation that turns a trailing
//! git command line into a mass invocation.

use vstd::prelude::*;
use vstd::string::StringExecFns;
use crate::strutil::{str_eq, str_to_string, strings_view};

verus! {

/// The pattern-filter pair of arguments every filtering command takes: a
/// pattern to select repositories, or a pattern to exclude them.
pub struct Regex {
    pub regex: Option<String>,
    pub rev_regex: Option<String>,
}

impl Regex {
    /// The pattern to use and whether its sense is reversed: an exclusion
    /// pattern wins, then a selection pattern, then the default.
    pub fn get_regex_args(&self, default: &str) -> (r: (String, bool))
        ensures
            self.rev_regex matches Some(s) ==> (r.0@ == s@ && r.1 == true),
            self.rev_regex is None ==> (match self.regex {
                Some(s) => r.0@ == s@ && r.1 == false,
                None => r.0@ == default@ && r.1 == false,
            }),
    {
        match &self.rev_regex {
            Some(rev) => (rev.clone(), true),
            None => match &self.regex {
                Some(re) => (re.clone(), false),
                None => (str_to_string(default), false),
            },
        }
    }
}

/// The commands the tool runs; each carries exactly the data its workflow
/// needs.
pub enum Commands {
    Clone {
        directory: String,
        force: bool,
        user: bool,
        branch: String,
        regex_args: Regex,
        dry_run: bool,
    },
    Quick {
        message: String,
        force: bool,
        regex_args: Regex,
        skip_interactive: bool,
        dry_run: bool,
    },
    Mass { command: String, regex_args: Regex, skip_interactive: bool, dry_run: bool },
    Profile { sub: ProfileCommands },
    Alias { command: Vec<String> },
    Update,
}

/// The profile-management subcommands.
pub enum ProfileCommands {
    Activate,
    Add,
    Delete,
    Show { all: bool },
}

/// An argument the alias translation passes through unchanged.
pub open spec fn is_passthrough_flag(a: Seq<char>) -> bool {
    a == "-s"@ || a == "--skip-interactive"@ || a == "--dry-run"@
}

/// An argument that names a pattern flag, whose following argument is the
/// pattern itself.
pub open spec fn is_pattern_flag(a: Seq<char>) -> bool {
    a == "--regex"@ || a == "--rev-regex"@
}

/// The flag arguments the alias translation keeps, from position `i` on: a
/// pattern flag carries its following argument along with it.
pub open spec fn alias_flags_from(vs: Seq<Seq<char>>, i: int) -> Seq<Seq<char>>
    decreases vs.len() - i,
{
    if !(0 <= i < vs.len()) {
        Seq::empty()
    } else if is_passthrough_flag(vs[i]) {
        seq![vs[i]] + alias_flags_from(vs, i + 1)
    } else if is_pattern_flag(vs[i]) {
        if i + 1 < vs.len() {
            seq![vs[i], vs[i + 1]] + alias_flags_from(vs, i + 2)
        } else {
            seq![vs[i]]
        }
    } else {
        alias_flags_from(vs, i + 1)
    }
}

/// The non-flag arguments, from position `i` on: the words of the git
/// command the alias stands for.
pub open spec fn alias_words_from(vs: Seq<Seq<char>>, i: int) -> Seq<Seq<char>>
    decreases vs.len() - i,
{
    if !(0 <= i < vs.len()) {
        Seq::empty()
    } else if is_passthrough_flag(vs[i]) {
        alias_words_from(vs, i + 1)
    } else if is_pattern_flag(vs[i]) {
        if i + 1 < vs.len() {
            alias_words_from(vs, i + 2)
        } else {
            Seq::empty()
        }
    } else {
        seq![vs[i]] + alias_words_from(vs, i + 1)
    }
}

/// The command words joined by single spaces; empty words add no separator,
/// exactly as appending to a still-empty line adds none.
pub open spec fn joined_words(ws: Seq<Seq<char>>) -> Seq<char>
    decreases ws.len(),
{
    if ws.len() == 0 {
        Seq::empty()
    } else {
        let pre = joined_words(ws.drop_last());
        if pre.len() == 0 {
            ws.last()
        } else {
            pre + seq![' '] + ws.last()
        }
    }
}

/// Turns a trailing git command line into a mass invocation: the recognized
/// flags pass through behind the joined command words, which stand as the
/// one mass command argument.
pub fn alias(command: Vec<String>) -> (r: Vec<String>)
    ensures
        strings_view(r@) == seq!["grgry"@, "mass"@, joined_words(
            alias_words_from(strings_view(command@), 0),
        )] + alias_flags_from(strings_view(command@), 0),
{
    let ghost vs = strings_view(command@);
    let n = command.len();
    let mut flags: Vec<String> = Vec::new();
    let mut mass_command: String = String::new();
    let ghost mut words: Seq<Seq<char>> = Seq::empty();
    let mut i: usize = 0;
    proof {
        assert(strings_view(flags@) =~= Seq::<Seq<char>>::empty());
        assert(Seq::<Seq<char>>::empty() + alias_flags_from(vs, 0) =~= alias_flags_from(vs, 0));
        assert(Seq::<Seq<char>>::empty() + alias_words_from(vs, 0) =~= alias_words_from(vs, 0));
    }
    while i < n
        invariant
            vs == strings_view(command@),
            n == command@.len(),
            i <= n,
            strings_view(flags@) + alias_flags_from(vs, i as int) == alias_flags_from(vs, 0),
            words + alias_words_from(vs, i as int) == alias_words_from(vs, 0),
            mass_command@ == joined_words(words),
        decreases n - i,
    {
        proof {
            assert(vs[i as int] == command@[i as int]@);
        }
        let arg = &command[i];
        let a = arg.as_str();
        if str_eq(a, "-s") || str_eq(a, "--skip-interactive") || str_eq(a, "--dry-run") {
            let ghost pre = strings_view(flags@);
            flags.push(arg.clone());
            proof {
                assert(strings_view(flags@) =~= pre.push(vs[i as int]));
                assert(pre.push(vs[i as int]) + alias_flags_from(vs, i + 1 as int) =~= pre + (seq![
                    vs[i as int],
                ] + alias_flags_from(vs, i + 1 as int)));
            }
            i += 1;
        } else if str_eq(a, "--regex") || str_eq(a, "--rev-regex") {
            let ghost pre = strings_view(flags@);
            flags.push(arg.clone());
            if i + 1 < n {
                flags.push(command[i + 1].clone());
                proof {
                    assert(strings_view(flags@) =~= pre.push(vs[i as int]).push(
                        vs[i + 1 as int],
                    ));
                    assert(pre.push(vs[i as int]).push(vs[i + 1 as int]) + alias_flags_from(
                        vs,
                        i + 2 as int,
                    ) =~= pre + (seq![vs[i as int], vs[i + 1 as int]] + alias_flags_from(
                        vs,
                        i + 2 as int,
                    )));
                }
                i += 2;
            } else {
                proof {
                    assert(strings_view(flags@) =~= pre.push(vs[i as int]));
                    assert(alias_flags_from(vs, i + 1 as int) =~= Seq::<Seq<char>>::empty());
                    assert(alias_words_from(vs, i + 1 as int) =~= Seq::<Seq<char>>::empty());
                    assert(pre.push(vs[i as int]) + alias_flags_from(vs, i + 1 as int) =~= pre
                        + seq![vs[i as int]]);
                }
                i += 1;
            }
        } else {
            proof {
                assert(words.push(vs[i as int]) + alias_words_from(vs, i + 1 as int) =~= words + (
                seq![vs[i as int]] + alias_words_from(vs, i + 1 as int)));
                assert(words.push(vs[i as int]).drop_last() =~= words);
                assert(words.push(vs[i as int]).last() == vs[i as int]);
            }
            if !mass_command.as_str().is_empty() {
                mass_command.append(" ");
                proof {
                    reveal_strlit(" ");
                    assert(mass_command@ =~= joined_words(words) + seq![' ']);
                }
            }
            mass_command.append(a);
            proof {
                let neww = words.push(vs[i as int]);
                assert(mass_command@ =~= joined_words(neww));
                words = neww;
            }
            i += 1;
        }
    }
    proof {
        assert(strings_view(flags@) + Seq::<Seq<char>>::empty() =~= strings_view(flags@));
        assert(words + Seq::<Seq<char>>::empty() =~= words);
    }
    let mut r: Vec<String> = Vec::new();
    r.push(str_to_string("grgry"));
    r.push(str_to_string("mass"));
    r.push(mass_command);
    proof {
        assert(strings_view(r@) =~= seq!["grgry"@, "mass"@, joined_words(words)]);
    }
    let ghost base = strings_view(r@);
    let mut j: usize = 0;
    let fn_len = flags.len();
    while j < fn_len
        invariant
            fn_len == flags@.len(),
            j <= fn_len,
            strings_view(r@) == base + strings_view(flags@).take(j as int),
        decreases fn_len - j,
    {
        let ghost pre = strings_view(r@);
        r.push(flags[j].clone());
        proof {
            assert(strings_view(r@) =~= pre.push(strings_view(flags@)[j as int]));
            assert(base + strings_view(flags@).take(j + 1 as int) =~= pre.push(
                strings_view(flags@)[j as int],
            ));
        }
        j += 1;
    }
    proof {
        assert(strings_view(flags@).take(fn_len as int) =~= strings_view(flags@));
    }
    r
}

} // verus!
