//! The provider capability model: the closed set of provider kinds and, for
//! each kind, endpoint construction, authentication headers, base query
//! parameters, and the parsing of its pagination signal.

use vstd::prelude::*;
use crate::strutil::{
    all_dec_digits, dec_digit, dec_val, digit_val, escape_slashes, escape_slashes_seq, is_dec_digit,
    join_path, parse_dec_u32, str_concat, str_eq, str_to_string, to_chars,
};

verus! {

/// The page size every listing request asks for.
pub const PER_PAGE: u32 = 100;

/// The closed set of hosted-platform kinds this tool can list.
#[derive(Clone, Copy, Debug, PartialEq, Eq, Structural)]
pub enum ProviderKind {
    Github,
    Gitlab,
}

impl ProviderKind {
    /// The provider kind a profile names, `None` for an unsupported name;
    /// the caller treats `None` as a fatal configuration error.
    pub fn from_name(name: &str) -> (r: Option<ProviderKind>)
        ensures
            r == Some(ProviderKind::Github) <==> name@ == "github"@,
            r == Some(ProviderKind::Gitlab) <==> name@ == "gitlab"@,
            r is None <==> name@ != "github"@ && name@ != "gitlab"@,
    {
        proof {
            reveal_strlit("github");
            reveal_strlit("gitlab");
            assert("github"@[3] == 'h');
            assert("gitlab"@[3] == 'l');
            assert("github"@ != "gitlab"@);
        }
        if str_eq(name, "github") {
            Some(ProviderKind::Github)
        } else if str_eq(name, "gitlab") {
            Some(ProviderKind::Gitlab)
        } else {
            None
        }
    }

    /// The name of the header that carries the token for this kind.
    pub open spec fn auth_header_name(self) -> Seq<char> {
        match self {
            ProviderKind::Github => "Authorization"@,
            ProviderKind::Gitlab => "Private-Token"@,
        }
    }

    /// The authentication headers of a listing request: the kind's token
    /// header and a fixed user agent when a token is present, none otherwise.
    pub fn auth_headers(&self, token: Option<&str>) -> (r: Vec<(String, String)>)
        ensures
            token is None ==> r@.len() == 0,
            token matches Some(t) ==> r@.len() == 2 && r@[0].0@ == self.auth_header_name()
                && r@[0].1@ == t@ && r@[1].0@ == "User-Agent"@ && r@[1].1@ == "grgry"@,
    {
        match token {
            None => Vec::new(),
            Some(t) => {
                let name: String = match self {
                    ProviderKind::Github => str_to_string("Authorization"),
                    ProviderKind::Gitlab => str_to_string("Private-Token"),
                };
                proof {
                    assert(name@ =~= self.auth_header_name());
                }
                let mut v: Vec<(String, String)> = Vec::new();
                v.push((name, str_to_string(t)));
                v.push((str_to_string("User-Agent"), str_to_string("grgry")));
                v
            },
        }
    }

    /// The query parameters every listing request of this kind carries,
    /// before the page number is added.
    pub fn base_query(&self) -> (r: Vec<(String, String)>)
        ensures
            *self == ProviderKind::Github ==> r@.len() == 1 && r@[0].0@ == "per_page"@
                && r@[0].1@ == "100"@,
            *self == ProviderKind::Gitlab ==> r@.len() == 3 && r@[0].0@ == "include_subgroups"@
                && r@[0].1@ == "true"@ && r@[1].0@ == "simple"@ && r@[1].1@ == "true"@
                && r@[2].0@ == "per_page"@ && r@[2].1@ == "100"@,
    {
        let mut v: Vec<(String, String)> = Vec::new();
        match self {
            ProviderKind::Github => {
                v.push((str_to_string("per_page"), str_to_string("100")));
            },
            ProviderKind::Gitlab => {
                v.push((str_to_string("include_subgroups"), str_to_string("true")));
                v.push((str_to_string("simple"), str_to_string("true")));
                v.push((str_to_string("per_page"), str_to_string("100")));
            },
        }
        v
    }
}

/// The GitHub-shaped provider: repositories live under an organization or
/// user segment, and the page count is referenced from a link-style header.
pub struct Github;

/// The GitLab-shaped provider: repositories live under a group or user
/// segment with escaped path separators, and the page count stands in an
/// explicit total-page-count header.
pub struct Gitlab;

/// The path segment under which a GitHub-shaped collection is listed: the
/// bare authenticated user, a named user, or an organization.
pub open spec fn github_collection_segment(
    collection: Seq<char>,
    user: bool,
    username: Seq<char>,
    token: Seq<char>,
) -> Seq<char> {
    if user {
        if username == collection && token.len() > 0 {
            "user"@
        } else {
            "users/"@ + collection
        }
    } else {
        "orgs/"@ + collection
    }
}

impl Github {
    /// The listing endpoint for a collection on a GitHub-shaped provider.
    pub fn get_repos_endpoint(
        &self,
        base: &str,
        collection: &str,
        user: bool,
        username: &str,
        token: &str,
    ) -> (r: String)
        ensures
            r@ == base@ + "/"@ + github_collection_segment(collection@, user, username@, token@)
                + "/repos"@,
    {
        let segment: String = if user {
            if str_eq(username, collection) && !token.is_empty() {
                str_to_string("user")
            } else {
                str_concat("users/", collection)
            }
        } else {
            str_concat("orgs/", collection)
        };
        proof {
            assert(segment@ =~= github_collection_segment(collection@, user, username@, token@));
        }
        let with_base = join_path(base, segment.as_str());
        let r = str_concat(with_base.as_str(), "/repos");
        proof {
            assert(r@ =~= base@ + "/"@ + segment@ + "/repos"@);
        }
        r
    }

    /// The number of pages a GitHub-shaped listing response announces: the
    /// highest page number referenced in the link-style header, one page
    /// when the header is absent or references none.
    pub fn get_page_number(&self, link: Option<&str>) -> (r: u32)
        ensures
            link is None ==> r == 1,
            link matches Some(h) ==> r as nat == link_page_count(h@),
    {
        let h: &str = match link {
            None => { return 1; },
            Some(h) => h,
        };
        let cs = to_chars(h);
        let n = cs.len();
        let mut best: u32 = 0;
        let mut i: usize = 0;
        while i < n
            invariant
                cs@ == h@,
                n == cs@.len(),
                i <= n,
                best as nat == clamp_u32(max_page_ref_upto(h@, i as int)),
            decreases n - i,
        {
            let boundary = i == 0 || !name_char(cs[i - 1]);
            let matched = boundary && n - i > 5 && cs[i] == 'p' && cs[i + 1] == 'a' && cs[i + 2]
                == 'g' && cs[i + 3] == 'e' && cs[i + 4] == '=' && dec_digit(cs[i + 5]);
            proof {
                if matched {
                    assert(h@.subrange(i as int, i + 5 as int) =~= page_key());
                    assert(has_page_ref_at(h@, i as int));
                }
                if has_page_ref_at(h@, i as int) {
                    assert(h@.subrange(i as int, i + 5 as int)[0] == h@[i as int]);
                    assert(h@.subrange(i as int, i + 5 as int)[1] == h@[i + 1 as int]);
                    assert(h@.subrange(i as int, i + 5 as int)[2] == h@[i + 2 as int]);
                    assert(h@.subrange(i as int, i + 5 as int)[3] == h@[i + 3 as int]);
                    assert(h@.subrange(i as int, i + 5 as int)[4] == h@[i + 4 as int]);
                    assert(matched);
                }
            }
            if matched {
                let start = i + 5;
                let mut j = start;
                let mut acc: u32 = 0;
                while j < n && dec_digit(cs[j])
                    invariant
                        cs@ == h@,
                        n == cs@.len(),
                        start <= j <= n,
                        start == i + 5,
                        i + 5 < n,
                        forall|k: int| start <= k < j ==> is_dec_digit(h@[k]),
                        acc as nat == clamp_u32(dec_val(h@.subrange(start as int, j as int))),
                    decreases n - j,
                {
                    let cv = cs[j] as u32;
                    let d: u32 = cv - 48;
                    let ghost run = h@.subrange(start as int, j as int);
                    let ghost run2 = h@.subrange(start as int, j + 1 as int);
                    proof {
                        assert(run2.drop_last() =~= run);
                        assert(run2.last() == h@[j as int]);
                        assert(dec_val(run2) == 10 * dec_val(run) + digit_val(h@[j as int]));
                        assert(digit_val(h@[j as int]) == d as nat);
                    }
                    let wide: u64 = acc as u64 * 10 + d as u64;
                    if wide > u32::MAX as u64 {
                        acc = u32::MAX;
                    } else {
                        acc = wide as u32;
                    }
                    j += 1;
                }
                proof {
                    lemma_digit_run_end(h@, start as int, j as int);
                    assert(acc as nat == clamp_u32(page_ref_val(h@, i as int)));
                }
                if acc > best {
                    best = acc;
                }
            }
            i += 1;
            proof {
                lemma_clamp_max(max_page_ref_upto(h@, i as int - 1), if has_page_ref_at(h@, i as int - 1) {
                    page_ref_val(h@, i as int - 1)
                } else {
                    0nat
                });
            }
        }
        if best == 0 {
            1
        } else {
            best
        }
    }
}

impl Gitlab {
    /// The listing endpoint for a collection on a GitLab-shaped provider;
    /// path separators inside the collection path are escaped.
    pub fn get_repos_endpoint(&self, base: &str, collection: &str, user: bool) -> (r: String)
        ensures
            r@ == base@ + "/api/v4/"@ + (if user {
                "users"@
            } else {
                "groups"@
            }) + "/"@ + escape_slashes_seq(collection@) + "/projects"@,
    {
        let kind: String = if user {
            str_to_string("users")
        } else {
            str_to_string("groups")
        };
        let escaped = escape_slashes(collection);
        let a = str_concat(base, "/api/v4/");
        let b = str_concat(a.as_str(), kind.as_str());
        let c = join_path(b.as_str(), escaped.as_str());
        let r = str_concat(c.as_str(), "/projects");
        proof {
            assert(r@ =~= base@ + "/api/v4/"@ + (if user {
                "users"@
            } else {
                "groups"@
            }) + "/"@ + escape_slashes_seq(collection@) + "/projects"@);
        }
        r
    }

    /// The number of pages a GitLab-shaped listing response announces. The
    /// total-page-count header must be present and hold a decimal number;
    /// `None` is the fatal decode error the original stops on.
    pub fn get_page_number(&self, total_pages: Option<&str>) -> (r: Option<u32>)
        ensures
            r is Some <==> (total_pages matches Some(h) && h@.len() > 0 && all_dec_digits(h@)
                && dec_val(h@) <= u32::MAX),
            r matches Some(n) ==> (total_pages matches Some(h) && n as nat == dec_val(h@)),
    {
        match total_pages {
            None => None,
            Some(h) => {
                let cs = to_chars(h);
                parse_dec_u32(&cs)
            },
        }
    }
}

/// The literal that announces a page reference inside a link-style header.
pub open spec fn page_key() -> Seq<char> {
    seq!['p', 'a', 'g', 'e', '=']
}

/// A character that can continue a parameter name; a page reference must
/// not be the tail of a longer name such as `per_page`.
pub open spec fn is_name_char(c: char) -> bool {
    (97 <= c as u32 <= 122) || (65 <= c as u32 <= 90) || (48 <= c as u32 <= 57) || c == '_' || c
        == '-'
}

/// A page reference stands at `i`: the key, not preceded by a name
/// character, followed by at least one digit.
pub open spec fn has_page_ref_at(s: Seq<char>, i: int) -> bool {
    0 <= i && i + 5 < s.len() && s.subrange(i, i + 5) == page_key() && is_dec_digit(s[i + 5]) && (i
        == 0 || !is_name_char(s[i - 1]))
}

/// The first position at or after `j` that does not hold a digit.
pub open spec fn digit_run_end(s: Seq<char>, j: int) -> int
    decreases s.len() - j,
{
    if 0 <= j && j < s.len() && is_dec_digit(s[j]) {
        digit_run_end(s, j + 1)
    } else {
        j
    }
}

/// The value of the page reference standing at `i`.
pub open spec fn page_ref_val(s: Seq<char>, i: int) -> nat {
    dec_val(s.subrange(i + 5, digit_run_end(s, i + 5)))
}

/// The largest page reference value among those starting before `n`.
pub open spec fn max_page_ref_upto(s: Seq<char>, n: int) -> nat
    decreases n,
{
    if n <= 0 {
        0
    } else {
        let prev = max_page_ref_upto(s, n - 1);
        let here = if has_page_ref_at(s, n - 1) {
            page_ref_val(s, n - 1)
        } else {
            0
        };
        if here > prev {
            here
        } else {
            prev
        }
    }
}

/// The largest page reference value anywhere in the header.
pub open spec fn max_page_ref(s: Seq<char>) -> nat {
    max_page_ref_upto(s, s.len() as int)
}

pub open spec fn clamp_u32(m: nat) -> nat {
    if m > u32::MAX {
        u32::MAX as nat
    } else {
        m
    }
}

/// The page count a link-style header announces: its largest page
/// reference, one when it references none, capped at `u32::MAX`.
pub open spec fn link_page_count(s: Seq<char>) -> nat {
    let m = max_page_ref(s);
    if m == 0 {
        1
    } else {
        clamp_u32(m)
    }
}

/// A digit run that is known to stop at `j` ends at `j`.
proof fn lemma_digit_run_end(s: Seq<char>, a: int, j: int)
    requires
        0 <= a <= j <= s.len(),
        forall|k: int| a <= k < j ==> is_dec_digit(s[k]),
        j == s.len() || !is_dec_digit(s[j]),
    ensures
        digit_run_end(s, a) == j,
    decreases j - a,
{
    if a < j {
        lemma_digit_run_end(s, a + 1, j);
    }
}

/// Whether `c` can continue a parameter name.
fn name_char(c: char) -> (r: bool)
    ensures
        r == is_name_char(c),
{
    let v = c as u32;
    (97 <= v && v <= 122) || (65 <= v && v <= 90) || (48 <= v && v <= 57) || c == '_' || c == '-'
}

/// Clamping commutes with taking the larger of two values.
proof fn lemma_clamp_max(a: nat, b: nat)
    ensures
        clamp_u32(if b > a {
            b
        } else {
            a
        }) == (if clamp_u32(b) > clamp_u32(a) {
            clamp_u32(b)
        } else {
            clamp_u32(a)
        }),
        (clamp_u32(if b > a {
            b
        } else {
            a
        }) == 0) == (if b > a {
            b
        } else {
            a
        } == 0),
{
}

} // verus!
