//! The configuration of the client: defaults and named profiles.

use crate::client::{pair_views, set_header, with_header, HeaderPair};
use crate::text::{
    chars_of, find_char, first_index_of, owned, parse_u64, parsed_u64, push_str,
    str_equal, string_of, trim_range, trimmed, views,
};
use vstd::prelude::*;

verus! {

/// A named set of options. In a configuration no two profiles have the same
/// name.
#[derive(Debug, Clone)]
pub struct Profile {
    pub name: String,
    pub base_url: Option<String>,
    pub headers: Vec<(String, String)>,
    pub timeout: Option<u64>,
    pub follow_redirects: bool,
}

/// The configuration. Default headers and profiles are kept in the order in
/// which they were first set.
#[derive(Debug, Clone)]
pub struct Config {
    pub default_timeout: u64,
    pub default_user_agent: String,
    pub max_redirects: usize,
    pub default_headers: Vec<(String, String)>,
    pub profiles: Vec<Profile>,
}

/// Why a configuration value was not set.
#[derive(Debug, Clone, Copy, PartialEq, Eq, Structural)]
pub enum ConfigError {
    /// The value is no number that the key can hold.
    InvalidNumber,
}

/// The index of the first profile of that name, or the number of profiles.
pub open spec fn profile_position(profiles: Seq<Profile>, name: Seq<char>) -> int
    decreases profiles.len(),
{
    if profiles.len() == 0 {
        0
    } else if profiles[0].name@ == name {
        0
    } else {
        1 + profile_position(profiles.drop_first(), name)
    }
}

/// No two profiles have the same name.
pub open spec fn names_unique(profiles: Seq<Profile>) -> bool {
    forall|i: int, j: int|
        0 <= i < j < profiles.len() ==> (#[trigger] profiles[i]).name@ != (
        #[trigger] profiles[j]).name@
}

/// Whether a profile of that name is there.
pub open spec fn has_profile(profiles: Seq<Profile>, name: Seq<char>) -> bool {
    exists|i: int| 0 <= i < profiles.len() && (#[trigger] profiles[i]).name@ == name
}

proof fn lemma_profile_position(profiles: Seq<Profile>, name: Seq<char>)
    ensures
        0 <= profile_position(profiles, name) <= profiles.len(),
        profile_position(profiles, name) < profiles.len() ==> profiles[profile_position(
            profiles,
            name,
        )].name@ == name,
        forall|k: int|
            0 <= k < profile_position(profiles, name) ==> (#[trigger] profiles[k]).name@ != name,
        profile_position(profiles, name) < profiles.len() <==> has_profile(profiles, name),
    decreases profiles.len(),
{
    if profiles.len() > 0 && profiles[0].name@ != name {
        let rest = profiles.drop_first();
        lemma_profile_position(rest, name);
        assert forall|k: int| 0 <= k < profile_position(profiles, name) implies (
        #[trigger] profiles[k]).name@ != name by {
            if k > 0 {
                assert(profiles[k] == rest[k - 1]);
            }
        }
        if has_profile(profiles, name) {
            let i = choose|i: int| 0 <= i < profiles.len() && (#[trigger] profiles[i]).name@ == name;
            assert(rest[i - 1] == profiles[i]);
        }
        if has_profile(rest, name) {
            let i = choose|i: int| 0 <= i < rest.len() && (#[trigger] rest[i]).name@ == name;
            assert(profiles[i + 1] == rest[i]);
        }
    } else if profiles.len() > 0 {
        assert(profiles[0].name@ == name);
    }
}

proof fn lemma_profile_position_is_first(profiles: Seq<Profile>, name: Seq<char>, at: int)
    requires
        0 <= at <= profiles.len(),
        at < profiles.len() ==> profiles[at].name@ == name,
        forall|k: int| 0 <= k < at ==> (#[trigger] profiles[k]).name@ != name,
    ensures
        profile_position(profiles, name) == at,
        at < profiles.len() <==> has_profile(profiles, name),
{
    lemma_profile_position(profiles, name);
    let p = profile_position(profiles, name);
    if p < at {
        assert(profiles[p].name@ != name);
    } else if at < p {
        assert(profiles[at].name@ != name);
    }
}

/// The profiles with one more set: it takes the place of the first profile of
/// its name where there is one, else it is added at the end.
pub open spec fn with_profile(profiles: Seq<Profile>, profile: Profile) -> Seq<Profile> {
    let at = profile_position(profiles, profile.name@);
    if at < profiles.len() {
        profiles.update(at, profile)
    } else {
        profiles.push(profile)
    }
}

/// The profiles without the first one of that name.
pub open spec fn without_profile(profiles: Seq<Profile>, name: Seq<char>) -> Seq<Profile> {
    let at = profile_position(profiles, name);
    if at < profiles.len() {
        profiles.remove(at)
    } else {
        profiles
    }
}

/// Setting a profile keeps the names unique, and afterwards the profile of
/// that name is the one that was set.
pub proof fn lemma_with_profile(profiles: Seq<Profile>, profile: Profile)
    requires
        names_unique(profiles),
    ensures
        names_unique(with_profile(profiles, profile)),
        has_profile(with_profile(profiles, profile), profile.name@),
        with_profile(profiles, profile)[profile_position(
            with_profile(profiles, profile),
            profile.name@,
        )] == profile,
{
    lemma_profile_position(profiles, profile.name@);
    let at = profile_position(profiles, profile.name@);
    let after = with_profile(profiles, profile);
    assert(after[at] == profile);
    assert forall|i: int, j: int| 0 <= i < j < after.len() implies (#[trigger] after[i]).name@ != (
    #[trigger] after[j]).name@ by {
        if at < profiles.len() {
            if i == at {
                assert(profiles[at].name@ != profiles[j].name@);
            } else if j == at {
                assert(profiles[i].name@ != profiles[at].name@);
            } else {
                assert(profiles[i].name@ != profiles[j].name@);
            }
        } else {
            if j == at {
                assert(profiles[i].name@ != profile.name@);
            } else {
                assert(profiles[i].name@ != profiles[j].name@);
            }
        }
    }
    assert forall|k: int| 0 <= k < at implies (#[trigger] after[k]).name@ != profile.name@ by {
        assert(after[k] == profiles[k]);
    }
    lemma_profile_position_is_first(after, profile.name@, at);
}

/// Removing a profile keeps the names unique, and afterwards no profile of
/// that name is left.
pub proof fn lemma_without_profile(profiles: Seq<Profile>, name: Seq<char>)
    requires
        names_unique(profiles),
    ensures
        names_unique(without_profile(profiles, name)),
        !has_profile(without_profile(profiles, name), name),
{
    lemma_profile_position(profiles, name);
    let at = profile_position(profiles, name);
    let after = without_profile(profiles, name);
    if at < profiles.len() {
        assert forall|i: int| 0 <= i < after.len() implies (#[trigger] after[i]).name@ != name by {
            if i < at {
                assert(after[i] == profiles[i]);
            } else {
                assert(after[i] == profiles[i + 1]);
                assert(profiles[at].name@ != profiles[i + 1].name@);
            }
        }
        assert forall|i: int, j: int| 0 <= i < j < after.len() implies (#[trigger] after[i]).name@
            != (#[trigger] after[j]).name@ by {
            let a = if i < at {
                i
            } else {
                i + 1
            };
            let b = if j < at {
                j
            } else {
                j + 1
            };
            assert(after[i] == profiles[a]);
            assert(after[j] == profiles[b]);
            assert(profiles[a].name@ != profiles[b].name@);
        }
    }
}

/// What a line says that is split at its first colon: what stands before
/// and after it, both without the white space around them. A line without a
/// colon says nothing.
pub open spec fn split_line(line: Seq<char>) -> Option<HeaderPair> {
    let colon = first_index_of(line, ':', 0);
    if colon >= line.len() {
        None
    } else {
        Some(
            (
                trimmed(line.subrange(0, colon)),
                trimmed(line.subrange(colon + 1, line.len() as int)),
            ),
        )
    }
}

/// The headers after the lines were laid over them: each line that holds a
/// colon sets the header of its name.
pub open spec fn overlaid(base: Seq<HeaderPair>, lines: Seq<Seq<char>>) -> Seq<HeaderPair>
    decreases lines.len(),
{
    if lines.len() == 0 {
        base
    } else {
        match split_line(lines.last()) {
            Some((name, value)) => with_header(overlaid(base, lines.drop_last()), name, value),
            None => overlaid(base, lines.drop_last()),
        }
    }
}

/// A header as the line `name: value`.
pub open spec fn header_line(pair: HeaderPair) -> Seq<char> {
    pair.0 + ": "@ + pair.1
}

/// Splits a line at its first colon.
pub fn split_header_line(line: &str) -> (r: Option<(String, String)>)
    ensures
        r is Some <==> split_line(line@) is Some,
        r matches Some(pair) ==> split_line(line@) == Some((pair.0@, pair.1@)),
{
    let chars = chars_of(line);
    let colon = find_char(&chars, ':');
    if colon >= chars.len() {
        return None;
    }
    let name = trim_range(&chars, 0, colon);
    let value = trim_range(&chars, colon + 1, chars.len());
    Some((string_of(&name), string_of(&value)))
}

/// A copy of a list of headers.
pub fn clone_headers(list: &Vec<(String, String)>) -> (r: Vec<(String, String)>)
    ensures
        pair_views(r@) == pair_views(list@),
{
    let mut out: Vec<(String, String)> = Vec::new();
    let mut i: usize = 0;
    while i < list.len()
        invariant
            i <= list.len(),
            out.len() == i,
            forall|k: int| 0 <= k < i ==> out@[k].0@ == list@[k].0@ && out@[k].1@ == list@[k].1@,
        decreases list.len() - i,
    {
        out.push((list[i].0.clone(), list[i].1.clone()));
        i = i + 1;
    }
    assert(pair_views(out@) =~= pair_views(list@));
    out
}

/// Lays header lines over a list of headers.
pub fn overlay_headers(base: &Vec<(String, String)>, lines: &Vec<String>) -> (r: Vec<
    (String, String),
>)
    ensures
        pair_views(r@) == overlaid(pair_views(base@), views(lines@)),
{
    let mut out = clone_headers(base);
    let mut i: usize = 0;
    assert(views(lines@).take(0) =~= Seq::<Seq<char>>::empty());
    while i < lines.len()
        invariant
            i <= lines.len(),
            pair_views(out@) == overlaid(pair_views(base@), views(lines@).take(i as int)),
        decreases lines.len() - i,
    {
        let ghost before = views(lines@).take(i as int);
        let ghost after = views(lines@).take(i + 1);
        assert(after.drop_last() =~= before);
        assert(after.last() == lines@[i as int]@);
        match split_header_line(lines[i].as_str()) {
            Some((name, value)) => {
                set_header(&mut out, name, value);
            },
            None => {},
        }
        i = i + 1;
    }
    assert(views(lines@).take(lines.len() as int) =~= views(lines@));
    out
}

/// The headers as lines of the form `name: value`.
pub fn header_lines(headers: &Vec<(String, String)>) -> (r: Vec<String>)
    ensures
        views(r@) == pair_views(headers@).map_values(|p: HeaderPair| header_line(p)),
{
    let mut out: Vec<String> = Vec::new();
    let mut i: usize = 0;
    while i < headers.len()
        invariant
            i <= headers.len(),
            out.len() == i,
            forall|k: int|
                0 <= k < i ==> out@[k]@ == header_line((headers@[k].0@, headers@[k].1@)),
        decreases headers.len() - i,
    {
        let mut line: Vec<char> = Vec::new();
        push_str(&mut line, headers[i].0.as_str());
        push_str(&mut line, ": ");
        push_str(&mut line, headers[i].1.as_str());
        assert(line@ =~= header_line((headers@[i as int].0@, headers@[i as int].1@)));
        out.push(string_of(&line));
        i = i + 1;
    }
    assert(views(out@) =~= pair_views(headers@).map_values(|p: HeaderPair| header_line(p)));
    out
}

impl Config {
    /// The configuration that is used where none was saved.
    pub open spec fn default_spec(self) -> bool {
        &&& self.default_timeout == 30
        &&& self.default_user_agent@ == "surf/0.2.1"@
        &&& self.max_redirects == 10
        &&& pair_views(self.default_headers@) == seq![("User-Agent"@, "surf/0.2.1"@)]
        &&& self.profiles@ == Seq::<Profile>::empty()
    }

    /// No two profiles have the same name.
    pub open spec fn wf(self) -> bool {
        names_unique(self.profiles@)
    }

    /// The profile of that name, if there is one.
    pub fn get_profile(&self, name: &str) -> (r: Option<&Profile>)
        ensures
            r is Some <==> has_profile(self.profiles@, name@),
            r matches Some(profile) ==> *profile == self.profiles@[profile_position(
                self.profiles@,
                name@,
            )] && profile.name@ == name@,
    {
        let mut i: usize = 0;
        while i < self.profiles.len()
            invariant
                i <= self.profiles.len(),
                forall|k: int| 0 <= k < i ==> (#[trigger] self.profiles@[k]).name@ != name@,
            decreases self.profiles.len() - i,
        {
            if str_equal(self.profiles[i].name.as_str(), name) {
                proof {
                    lemma_profile_position_is_first(self.profiles@, name@, i as int);
                }
                return Some(&self.profiles[i]);
            }
            i = i + 1;
        }
        proof {
            lemma_profile_position_is_first(self.profiles@, name@, self.profiles.len() as int);
        }
        None
    }

    /// Sets a profile under its name: it takes the place of the profile of
    /// that name where there is one, else it is added.
    pub fn add_profile(&mut self, profile: Profile)
        ensures
            final(self).profiles@ == with_profile(old(self).profiles@, profile),
            final(self).default_timeout == old(self).default_timeout,
            final(self).default_user_agent == old(self).default_user_agent,
            final(self).max_redirects == old(self).max_redirects,
            final(self).default_headers == old(self).default_headers,
            old(self).wf() ==> final(self).wf(),
    {
        proof {
            if old(self).wf() {
                lemma_with_profile(old(self).profiles@, profile);
            }
        }
        let mut i: usize = 0;
        while i < self.profiles.len()
            invariant
                i <= self.profiles.len(),
                *self == *old(self),
                forall|k: int| 0 <= k < i ==> (#[trigger] self.profiles@[k]).name@ != profile.name@,
            decreases self.profiles.len() - i,
        {
            if str_equal(self.profiles[i].name.as_str(), profile.name.as_str()) {
                proof {
                    lemma_profile_position_is_first(self.profiles@, profile.name@, i as int);
                }
                self.profiles.set(i, profile);
                return ;
            }
            i = i + 1;
        }
        proof {
            lemma_profile_position_is_first(
                self.profiles@,
                profile.name@,
                self.profiles.len() as int,
            );
        }
        self.profiles.push(profile);
    }

    /// Removes the profile of that name and says whether there was one.
    pub fn remove_profile(&mut self, name: &str) -> (removed: bool)
        ensures
            removed == has_profile(old(self).profiles@, name@),
            final(self).profiles@ == without_profile(old(self).profiles@, name@),
            final(self).default_timeout == old(self).default_timeout,
            final(self).default_user_agent == old(self).default_user_agent,
            final(self).max_redirects == old(self).max_redirects,
            final(self).default_headers == old(self).default_headers,
            old(self).wf() ==> final(self).wf() && !has_profile(final(self).profiles@, name@),
    {
        proof {
            if old(self).wf() {
                lemma_without_profile(old(self).profiles@, name@);
            }
        }
        let mut i: usize = 0;
        while i < self.profiles.len()
            invariant
                i <= self.profiles.len(),
                *self == *old(self),
                forall|k: int| 0 <= k < i ==> (#[trigger] self.profiles@[k]).name@ != name@,
            decreases self.profiles.len() - i,
        {
            if str_equal(self.profiles[i].name.as_str(), name) {
                proof {
                    lemma_profile_position_is_first(self.profiles@, name@, i as int);
                }
                let _ = self.profiles.remove(i);
                return true;
            }
            i = i + 1;
        }
        proof {
            lemma_profile_position_is_first(self.profiles@, name@, self.profiles.len() as int);
        }
        false
    }

    /// The timeout of a profile: its own where it has one, else the default
    /// of the configuration.
    pub fn profile_timeout(&self, profile: &Profile) -> (secs: u64)
        ensures
            secs == match profile.timeout {
                Some(t) => t,
                None => self.default_timeout,
            },
    {
        match profile.timeout {
            Some(t) => t,
            None => self.default_timeout,
        }
    }

    /// The configuration after the value of a key was set.
    pub open spec fn set_spec(self, after: Config, key: Seq<char>, value: Seq<char>) -> bool {
        if key == "timeout"@ {
            parsed_u64(value) matches Some(n) && after.default_timeout == n
                && after.default_user_agent == self.default_user_agent && after.max_redirects
                == self.max_redirects && after.default_headers == self.default_headers
                && after.profiles == self.profiles
        } else if key == "user_agent"@ {
            after.default_timeout == self.default_timeout && after.default_user_agent@ == value
                && after.max_redirects == self.max_redirects && pair_views(after.default_headers@)
                == with_header(pair_views(self.default_headers@), "User-Agent"@, value)
                && after.profiles == self.profiles
        } else if key == "max_redirects"@ {
            parsed_u64(value) matches Some(n) && n <= usize::MAX && after.max_redirects == n
                && after.default_timeout == self.default_timeout && after.default_user_agent
                == self.default_user_agent && after.default_headers == self.default_headers
                && after.profiles == self.profiles
        } else {
            after == self
        }
    }

    /// Whether a key names a value that can be set.
    pub open spec fn known_key(key: Seq<char>) -> bool {
        key == "timeout"@ || key == "user_agent"@ || key == "max_redirects"@
    }

    /// Whether a value can be set under a key: the two numbers must be
    /// decimal numbers that their fields can hold.
    pub open spec fn acceptable(key: Seq<char>, value: Seq<char>) -> bool {
        if key == "timeout"@ {
            parsed_u64(value) is Some
        } else if key == "max_redirects"@ {
            parsed_u64(value) matches Some(n) && n <= usize::MAX
        } else {
            true
        }
    }

    /// Sets the value of a key: `timeout`, `user_agent` (which also sets the
    /// `User-Agent` default header) or `max_redirects`. The result is
    /// `Ok(false)` for any other key, and an error for a number that cannot
    /// be read; in both cases nothing changes.
    pub fn set_value(&mut self, key: &str, value: &str) -> (r: Result<bool, ConfigError>)
        ensures
            r is Err <==> !Self::acceptable(key@, value@),
            r matches Err(e) ==> e == ConfigError::InvalidNumber && *final(self) == *old(self),
            r matches Ok(known) ==> known == Self::known_key(key@) && old(self).set_spec(
                *final(self),
                key@,
                value@,
            ),
    {
        proof {
            reveal_strlit("timeout");
            reveal_strlit("user_agent");
            reveal_strlit("max_redirects");
            assert("timeout"@.len() == 7);
            assert("user_agent"@.len() == 10);
            assert("max_redirects"@.len() == 13);
        }
        if str_equal(key, "timeout") {
            match parse_u64(value) {
                Some(n) => {
                    self.default_timeout = n;
                    Ok(true)
                },
                None => Err(ConfigError::InvalidNumber),
            }
        } else if str_equal(key, "user_agent") {
            self.default_user_agent = owned(value);
            set_header(&mut self.default_headers, owned("User-Agent"), owned(value));
            Ok(true)
        } else if str_equal(key, "max_redirects") {
            match parse_u64(value) {
                Some(n) => {
                    if n <= usize::MAX as u64 {
                        self.max_redirects = n as usize;
                        Ok(true)
                    } else {
                        Err(ConfigError::InvalidNumber)
                    }
                },
                None => Err(ConfigError::InvalidNumber),
            }
        } else {
            Ok(false)
        }
    }
}

impl Default for Config {
    fn default() -> (c: Self)
        ensures
            c.default_spec(),
            c.wf(),
    {
        let mut default_headers: Vec<(String, String)> = Vec::new();
        default_headers.push((owned("User-Agent"), owned("surf/0.2.1")));
        let c = Config {
            default_timeout: 30,
            default_user_agent: owned("surf/0.2.1"),
            max_redirects: 10,
            default_headers,
            profiles: Vec::new(),
        };
        assert(pair_views(c.default_headers@) =~= seq![("User-Agent"@, "surf/0.2.1"@)]);
        c
    }
}

} // verus!
