//! The profile configuration the tool reads at start and mutates only in
//! the sequential profile-management operations: a named set of provider
//! profiles, of which at most one is active.

use vstd::prelude::*;
use crate::strutil::{contains_sub, str_contains, str_eq, strings_view};

verus! {

/// One named bundle of credentials and preferences for a provider account.
#[derive(Clone, Debug)]
pub struct Profile {
    pub active: bool,
    pub pulloption: String,
    pub username: String,
    pub email: String,
    pub baseaddress: String,
    pub provider: String,
    pub token: String,
    pub targetbasepath: String,
}

impl Profile {
    /// A copy equal to this profile.
    pub fn duplicate(&self) -> (r: Profile)
        ensures
            r == *self,
    {
        Profile {
            active: self.active,
            pulloption: self.pulloption.clone(),
            username: self.username.clone(),
            email: self.email.clone(),
            baseaddress: self.baseaddress.clone(),
            provider: self.provider.clone(),
            token: self.token.clone(),
            targetbasepath: self.targetbasepath.clone(),
        }
    }
}

/// `p` with its active flag set to `b` and every other field kept.
pub open spec fn with_active(p: Profile, b: bool) -> Profile {
    Profile { active: b, ..p }
}

/// The profile set, keyed by profile name. Loading it from disk and saving
/// it back are the caller's business; within a command invocation it is
/// read-only.
pub struct Config {
    pub profiles: Vec<(String, Profile)>,
}

/// At most one profile is active.
pub open spec fn at_most_one_active(entries: Seq<(String, Profile)>) -> bool {
    forall|i: int, j: int|
        0 <= i < entries.len() && 0 <= j < entries.len() && (#[trigger] entries[i]).1.active && (
        #[trigger] entries[j]).1.active ==> i == j
}

/// No two entries share a profile name.
pub open spec fn distinct_keys(entries: Seq<(String, Profile)>) -> bool {
    forall|i: int, j: int|
        0 <= i < entries.len() && 0 <= j < entries.len() && i != j ==> (
        #[trigger] entries[i]).0@ != (#[trigger] entries[j]).0@
}

/// The entries of `entries` whose key is not `choice`, in order.
pub open spec fn without_key(entries: Seq<(String, Profile)>, choice: Seq<char>) -> Seq<
    (String, Profile),
>
    decreases entries.len(),
{
    if entries.len() == 0 {
        Seq::empty()
    } else {
        let rest = without_key(entries.drop_last(), choice);
        if entries.last().0@ == choice {
            rest
        } else {
            rest.push(entries.last())
        }
    }
}

/// The keys of the profiles whose provider name stands inside the remote
/// URL, in order.
pub open spec fn matching_profile_keys(entries: Seq<(String, Profile)>, url: Seq<char>) -> Seq<
    Seq<char>,
>
    decreases entries.len(),
{
    if entries.len() == 0 {
        Seq::empty()
    } else {
        let rest = matching_profile_keys(entries.drop_last(), url);
        if contains_sub(url, entries.last().1.provider@) {
            rest.push(entries.last().0@)
        } else {
            rest
        }
    }
}

impl Config {
    /// An empty profile set; the caller fills it from its storage.
    pub fn new() -> (r: Config)
        ensures
            r.profiles@.len() == 0,
    {
        Config { profiles: Vec::new() }
    }

    /// Replaces the profile set with a freshly loaded one.
    pub fn reload(&mut self, profiles: Vec<(String, Profile)>)
        ensures
            final (self).profiles@ == profiles@,
    {
        self.profiles = profiles;
    }

    /// Makes `choice` the one active profile: every entry whose name is
    /// `choice` becomes active and every other entry inactive. With distinct
    /// names at most one profile is active afterwards.
    pub fn activate_profile(&mut self, choice: &str)
        ensures
            final (self).profiles@.len() == old(self).profiles@.len(),
            forall|i: int|
                0 <= i < old(self).profiles@.len() ==> #[trigger] final (self).profiles@[i] == (
                old(self).profiles@[i].0,
                with_active(old(self).profiles@[i].1, old(self).profiles@[i].0@ == choice@),
                ),
            distinct_keys(old(self).profiles@) ==> at_most_one_active(final (self).profiles@),
    {
        let n = self.profiles.len();
        let mut updated: Vec<(String, Profile)> = Vec::new();
        let mut i: usize = 0;
        while i < n
            invariant
                n == self.profiles@.len(),
                i <= n,
                updated@.len() == i as nat,
                forall|j: int|
                    0 <= j < i as int ==> #[trigger] updated@[j] == (
                    self.profiles@[j].0,
                    with_active(self.profiles@[j].1, self.profiles@[j].0@ == choice@),
                    ),
            decreases n - i,
        {
            let key = self.profiles[i].0.clone();
            let selected = str_eq(key.as_str(), choice);
            let p = self.profiles[i].1.duplicate();
            let q = Profile {
                active: selected,
                pulloption: p.pulloption,
                username: p.username,
                email: p.email,
                baseaddress: p.baseaddress,
                provider: p.provider,
                token: p.token,
                targetbasepath: p.targetbasepath,
            };
            proof {
                assert(q == with_active(self.profiles@[i as int].1, selected));
            }
            updated.push((key, q));
            i += 1;
        }
        self.profiles = updated;
    }

    /// Removes every profile named `choice`; the rest keep their order.
    pub fn delete_profile(&mut self, choice: &str)
        ensures
            final (self).profiles@ == without_key(old(self).profiles@, choice@),
    {
        let n = self.profiles.len();
        let mut kept: Vec<(String, Profile)> = Vec::new();
        let mut i: usize = 0;
        while i < n
            invariant
                n == self.profiles@.len(),
                i <= n,
                kept@ == without_key(self.profiles@.take(i as int), choice@),
            decreases n - i,
        {
            proof {
                assert(self.profiles@.take(i + 1 as int).drop_last() =~= self.profiles@.take(
                    i as int,
                ));
                assert(self.profiles@.take(i + 1 as int).last() == self.profiles@[i as int]);
            }
            let key = self.profiles[i].0.clone();
            if !str_eq(key.as_str(), choice) {
                kept.push((key, self.profiles[i].1.duplicate()));
            }
            i += 1;
        }
        proof {
            assert(self.profiles@.take(n as int) =~= self.profiles@);
        }
        self.profiles = kept;
    }

    /// The first active profile, `None` when no profile is active; the
    /// caller treats `None` as a fatal configuration error.
    pub fn active_profile(&self) -> (r: Option<&Profile>)
        ensures
            r is Some <==> exists|i: int|
                0 <= i < self.profiles@.len() && (#[trigger] self.profiles@[i]).1.active,
            r matches Some(p) ==> exists|i: int|
                0 <= i < self.profiles@.len() && (#[trigger] self.profiles@[i]).1 == *p && p.active
                    && (forall|j: int| 0 <= j < i ==> !(#[trigger] self.profiles@[j]).1.active),
    {
        let n = self.profiles.len();
        let mut i: usize = 0;
        while i < n
            invariant
                n == self.profiles@.len(),
                i <= n,
                forall|j: int| 0 <= j < i as int ==> !(#[trigger] self.profiles@[j]).1.active,
            decreases n - i,
        {
            if self.profiles[i].1.active {
                return Some(&self.profiles[i].1);
            }
            i += 1;
        }
        None
    }

    /// The names of the profiles whose provider name stands inside the
    /// repository's remote URL, in order.
    pub fn find_profiles_by_provider(&self, remote_origin_url: &str) -> (r: Vec<String>)
        ensures
            strings_view(r@) == matching_profile_keys(self.profiles@, remote_origin_url@),
    {
        let n = self.profiles.len();
        let mut r: Vec<String> = Vec::new();
        let mut i: usize = 0;
        while i < n
            invariant
                n == self.profiles@.len(),
                i <= n,
                strings_view(r@) == matching_profile_keys(
                    self.profiles@.take(i as int),
                    remote_origin_url@,
                ),
            decreases n - i,
        {
            proof {
                assert(self.profiles@.take(i + 1 as int).drop_last() =~= self.profiles@.take(
                    i as int,
                ));
                assert(self.profiles@.take(i + 1 as int).last() == self.profiles@[i as int]);
            }
            if str_contains(remote_origin_url, self.profiles[i].1.provider.as_str()) {
                let ghost pre = strings_view(r@);
                r.push(self.profiles[i].0.clone());
                proof {
                    assert(strings_view(r@) =~= pre.push(self.profiles@[i as int].0@));
                }
            }
            i += 1;
        }
        proof {
            assert(self.profiles@.take(n as int) =~= self.profiles@);
        }
        r
    }
}

} // verus!
