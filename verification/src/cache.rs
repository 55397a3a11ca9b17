//! The options of the last run, kept so that a later run can take them over:
//! conflicts between kept and given options, their merge, and their display.

use crate::text::{
    bool_word, clone_strings, decimal, push_bool, push_chars, push_decimal, push_str,
    string_lists_equal, string_of, views,
};
use vstd::prelude::*;

verus! {

/// The options of the last run. An option that was never given is `None`.
#[derive(Debug, Clone)]
pub struct CachedConfig {
    pub parallel: Option<usize>,
    pub continue_download: Option<bool>,
    pub idle_timeout: Option<u64>,
    pub http3: Option<bool>,
    pub include_headers: Option<bool>,
    pub location: Option<bool>,
    pub headers: Option<Vec<String>>,
    pub connect_timeout: Option<u64>,
    pub verbose: Option<bool>,
    pub json: Option<bool>,
    pub analyze: Option<bool>,
    pub save_history: Option<bool>,
    pub requests: Option<usize>,
    pub concurrency: Option<usize>,
    pub no_color: Option<bool>,
    pub profile: Option<String>,
}

/// How std writes a list of strings for debugging: the result of
/// `format!("{:?}", list)`.
pub uninterp spec fn debug_text(list: Seq<Seq<char>>) -> Seq<char>;

/// `format!` with `{:?}` on a list of strings: the list as std writes it for
/// debugging, which depends on the strings alone.
#[verifier::external_body]
fn debug_string_list(list: &Vec<String>) -> (r: String)
    ensures
        r@ == debug_text(views(list@)),
{
    format!("{:?}", list)
}

/// A kept and a given number as they are compared.
pub open spec fn as_nat(value: Option<u64>) -> Option<nat> {
    match value {
        Some(n) => Some(n as nat),
        None => None,
    }
}

/// A kept and a given count as they are compared.
pub open spec fn count_as_nat(value: Option<usize>) -> Option<nat> {
    match value {
        Some(n) => Some(n as nat),
        None => None,
    }
}

/// The line that reports two values that differ.
pub open spec fn conflict_line(label: Seq<char>, cached: Seq<char>, provided: Seq<char>) -> Seq<
    char,
> {
    label + ": cached="@ + cached + ", provided="@ + provided
}

/// The conflict between a kept and a given number: one line where both are
/// there and differ, else none. `unit` follows each number.
pub open spec fn number_conflict(
    label: Seq<char>,
    cached: Option<nat>,
    provided: Option<nat>,
    unit: Seq<char>,
) -> Seq<Seq<char>> {
    match (cached, provided) {
        (Some(c), Some(p)) => if c != p {
            seq![conflict_line(label, decimal(c) + unit, decimal(p) + unit)]
        } else {
            Seq::empty()
        },
        _ => Seq::empty(),
    }
}

/// The conflict between a kept and a given flag.
pub open spec fn flag_conflict(label: Seq<char>, cached: Option<bool>, provided: Option<bool>) -> Seq<
    Seq<char>,
> {
    match (cached, provided) {
        (Some(c), Some(p)) => if c != p {
            seq![conflict_line(label, bool_word(c), bool_word(p))]
        } else {
            Seq::empty()
        },
        _ => Seq::empty(),
    }
}

/// The views of an optional list of strings.
pub open spec fn list_views(list: Option<Vec<String>>) -> Option<Seq<Seq<char>>> {
    match list {
        Some(l) => Some(views(l@)),
        None => None,
    }
}

/// The conflict between kept and given header lines.
pub open spec fn list_conflict(
    label: Seq<char>,
    cached: Option<Seq<Seq<char>>>,
    provided: Option<Seq<Seq<char>>>,
) -> Seq<Seq<char>> {
    match (cached, provided) {
        (Some(c), Some(p)) => if c != p {
            seq![conflict_line(label, debug_text(c), debug_text(p))]
        } else {
            Seq::empty()
        },
        _ => Seq::empty(),
    }
}

/// The line that reports two values that differ.
pub fn format_conflict(label: &str, cached: &Vec<char>, provided: &Vec<char>) -> (r: String)
    ensures
        r@ == conflict_line(label@, cached@, provided@),
{
    let mut out: Vec<char> = Vec::new();
    push_str(&mut out, label);
    push_str(&mut out, ": cached=");
    push_chars(&mut out, cached);
    push_str(&mut out, ", provided=");
    push_chars(&mut out, provided);
    assert(out@ =~= conflict_line(label@, cached@, provided@));
    string_of(&out)
}

fn number_text(n: u64, unit: &str) -> (r: Vec<char>)
    ensures
        r@ == decimal(n as nat) + unit@,
{
    let mut out: Vec<char> = Vec::new();
    push_decimal(&mut out, n);
    push_str(&mut out, unit);
    assert(out@ =~= decimal(n as nat) + unit@);
    out
}

fn flag_text(b: bool) -> (r: Vec<char>)
    ensures
        r@ == bool_word(b),
{
    let mut out: Vec<char> = Vec::new();
    push_bool(&mut out, b);
    assert(out@ =~= bool_word(b));
    out
}

fn widen(value: Option<usize>) -> (r: Option<u64>)
    ensures
        as_nat(r) == count_as_nat(value),
{
    match value {
        Some(n) => Some(n as u64),
        None => None,
    }
}

fn add_line(out: &mut Vec<String>, line: String)
    ensures
        views(final(out)@) == views(old(out)@) + seq![line@],
{
    out.push(line);
    assert(views(out@) =~= views(old(out)@) + seq![line@]);
}

fn add_number_conflict(
    out: &mut Vec<String>,
    label: &str,
    cached: Option<u64>,
    provided: Option<u64>,
    unit: &str,
)
    ensures
        views(final(out)@) == views(old(out)@) + number_conflict(
            label@,
            as_nat(cached),
            as_nat(provided),
            unit@,
        ),
{
    match (cached, provided) {
        (Some(c), Some(p)) => {
            if c != p {
                let line = format_conflict(label, &number_text(c, unit), &number_text(p, unit));
                add_line(out, line);
                return ;
            }
        },
        _ => {},
    }
    assert(views(out@) =~= views(old(out)@) + Seq::<Seq<char>>::empty());
}

fn add_flag_conflict(out: &mut Vec<String>, label: &str, cached: Option<bool>, provided: Option<bool>)
    ensures
        views(final(out)@) == views(old(out)@) + flag_conflict(label@, cached, provided),
{
    match (cached, provided) {
        (Some(c), Some(p)) => {
            if c != p {
                let line = format_conflict(label, &flag_text(c), &flag_text(p));
                add_line(out, line);
                return ;
            }
        },
        _ => {},
    }
    assert(views(out@) =~= views(old(out)@) + Seq::<Seq<char>>::empty());
}

fn add_list_conflict(
    out: &mut Vec<String>,
    label: &str,
    cached: &Option<Vec<String>>,
    provided: &Option<Vec<String>>,
)
    ensures
        views(final(out)@) == views(old(out)@) + list_conflict(
            label@,
            list_views(*cached),
            list_views(*provided),
        ),
{
    match (cached, provided) {
        (Some(c), Some(p)) => {
            if !string_lists_equal(c, p) {
                let kept = debug_string_list(c);
                let given = debug_string_list(p);
                let line = format_conflict(
                    label,
                    &crate::text::chars_of(kept.as_str()),
                    &crate::text::chars_of(given.as_str()),
                );
                add_line(out, line);
                return ;
            }
        },
        _ => {},
    }
    assert(views(out@) =~= views(old(out)@) + Seq::<Seq<char>>::empty());
}

/// The given value where there is one, else the kept one, else the default.
pub open spec fn merged<T>(provided: Option<T>, cached: Option<T>, default: T) -> T {
    match provided {
        Some(v) => v,
        None => match cached {
            Some(v) => v,
            None => default,
        },
    }
}

fn merge<T: Copy>(provided: Option<T>, cached: Option<T>, default: T) -> (r: T)
    ensures
        r == merged(provided, cached, default),
{
    match provided {
        Some(v) => v,
        None => match cached {
            Some(v) => v,
            None => default,
        },
    }
}

/// A line of the display for a number, where there is one.
pub open spec fn number_line(label: Seq<char>, value: Option<nat>, unit: Seq<char>) -> Seq<char> {
    match value {
        Some(n) => "  "@ + label + ": "@ + decimal(n) + unit + "\n"@,
        None => Seq::empty(),
    }
}

/// A line of the display for a flag, where there is one.
pub open spec fn flag_line(label: Seq<char>, value: Option<bool>) -> Seq<char> {
    match value {
        Some(b) => "  "@ + label + ": "@ + bool_word(b) + "\n"@,
        None => Seq::empty(),
    }
}

/// A line of the display for a text, where there is one.
pub open spec fn text_line(label: Seq<char>, value: Option<Seq<char>>) -> Seq<char> {
    match value {
        Some(t) => "  "@ + label + ": "@ + t + "\n"@,
        None => Seq::empty(),
    }
}

/// The view of an optional string.
pub open spec fn text_view(value: Option<String>) -> Option<Seq<char>> {
    match value {
        Some(t) => Some(t@),
        None => None,
    }
}

/// The debug text of an optional list of strings.
pub open spec fn list_text(value: Option<Vec<String>>) -> Option<Seq<char>> {
    match value {
        Some(l) => Some(debug_text(views(l@))),
        None => None,
    }
}

fn show_number(out: &mut Vec<char>, label: &str, value: Option<u64>, unit: &str)
    ensures
        final(out)@ == old(out)@ + number_line(label@, as_nat(value), unit@),
{
    match value {
        Some(n) => {
            push_str(out, "  ");
            push_str(out, label);
            push_str(out, ": ");
            push_decimal(out, n);
            push_str(out, unit);
            push_str(out, "\n");
            assert(out@ =~= old(out)@ + number_line(label@, as_nat(value), unit@));
        },
        None => {
            assert(out@ =~= old(out)@ + Seq::<char>::empty());
        },
    }
}

fn show_flag(out: &mut Vec<char>, label: &str, value: Option<bool>)
    ensures
        final(out)@ == old(out)@ + flag_line(label@, value),
{
    match value {
        Some(b) => {
            push_str(out, "  ");
            push_str(out, label);
            push_str(out, ": ");
            push_bool(out, b);
            push_str(out, "\n");
            assert(out@ =~= old(out)@ + flag_line(label@, value));
        },
        None => {
            assert(out@ =~= old(out)@ + Seq::<char>::empty());
        },
    }
}

/// Appends a line of the display for a text that is there.
pub fn show_text(out: &mut Vec<char>, label: &str, text: &str)
    ensures
        final(out)@ == old(out)@ + text_line(label@, Some(text@)),
{
    push_str(out, "  ");
    push_str(out, label);
    push_str(out, ": ");
    push_str(out, text);
    push_str(out, "\n");
    assert(out@ =~= old(out)@ + text_line(label@, Some(text@)));
}

impl CachedConfig {
    /// No option was ever given.
    pub open spec fn empty() -> CachedConfig {
        CachedConfig {
            parallel: None,
            continue_download: None,
            idle_timeout: None,
            http3: None,
            include_headers: None,
            location: None,
            headers: None,
            connect_timeout: None,
            verbose: None,
            json: None,
            analyze: None,
            save_history: None,
            requests: None,
            concurrency: None,
            no_color: None,
            profile: None,
        }
    }

    /// Whether no option is kept.
    pub open spec fn is_empty_spec(self) -> bool {
        &&& self.parallel is None
        &&& self.continue_download is None
        &&& self.idle_timeout is None
        &&& self.http3 is None
        &&& self.include_headers is None
        &&& self.location is None
        &&& self.headers is None
        &&& self.connect_timeout is None
        &&& self.verbose is None
        &&& self.json is None
        &&& self.analyze is None
        &&& self.save_history is None
        &&& self.requests is None
        &&& self.concurrency is None
        &&& self.no_color is None
        &&& self.profile is None
    }

    /// The kept header lines: none where the given list is empty.
    pub open spec fn kept_headers(headers: Vec<String>) -> Option<Vec<String>> {
        if headers@.len() == 0 {
            None
        } else {
            Some(headers)
        }
    }

    /// A configuration that keeps nothing.
    pub fn new() -> (c: Self)
        ensures
            c == Self::empty(),
            c.is_empty_spec(),
    {
        CachedConfig {
            parallel: None,
            continue_download: None,
            idle_timeout: None,
            http3: None,
            include_headers: None,
            location: None,
            headers: None,
            connect_timeout: None,
            verbose: None,
            json: None,
            analyze: None,
            save_history: None,
            requests: None,
            concurrency: None,
            no_color: None,
            profile: None,
        }
    }

    /// What a download keeps.
    pub fn from_download(
        parallel: usize,
        continue_download: bool,
        idle_timeout: u64,
        http3: bool,
        no_color: bool,
        profile: Option<String>,
    ) -> (c: Self)
        ensures
            c == (CachedConfig {
                parallel: Some(parallel),
                continue_download: Some(continue_download),
                idle_timeout: Some(idle_timeout),
                http3: Some(http3),
                no_color: Some(no_color),
                profile,
                ..Self::empty()
            }),
    {
        let mut c = Self::new();
        c.update_with_download(parallel, continue_download, idle_timeout, http3, no_color, profile);
        c
    }

    /// What a plain request keeps. An empty list of header lines is kept as
    /// no list.
    pub fn from_get(
        include_headers: bool,
        location: bool,
        headers: Vec<String>,
        connect_timeout: u64,
        verbose: bool,
        http3: bool,
        json: bool,
        analyze: bool,
        save_history: bool,
        no_color: bool,
        profile: Option<String>,
    ) -> (c: Self)
        ensures
            c == (CachedConfig {
                include_headers: Some(include_headers),
                location: Some(location),
                headers: Self::kept_headers(headers),
                connect_timeout: Some(connect_timeout),
                verbose: Some(verbose),
                http3: Some(http3),
                json: Some(json),
                analyze: Some(analyze),
                save_history: Some(save_history),
                no_color: Some(no_color),
                profile,
                ..Self::empty()
            }),
    {
        let mut c = Self::new();
        c.update_with_get(
            include_headers,
            location,
            headers,
            connect_timeout,
            verbose,
            http3,
            json,
            analyze,
            save_history,
            no_color,
            profile,
        );
        c
    }

    /// What a benchmark keeps.
    pub fn from_bench(
        requests: usize,
        concurrency: usize,
        connect_timeout: u64,
        http3: bool,
        no_color: bool,
        profile: Option<String>,
    ) -> (c: Self)
        ensures
            c == (CachedConfig {
                requests: Some(requests),
                concurrency: Some(concurrency),
                connect_timeout: Some(connect_timeout),
                http3: Some(http3),
                no_color: Some(no_color),
                profile,
                ..Self::empty()
            }),
    {
        let mut c = Self::new();
        c.update_with_bench(requests, concurrency, connect_timeout, http3, no_color, profile);
        c
    }

    /// The conflicts between the kept options of a download and the given
    /// ones.
    #[verifier::opaque]
    pub open spec fn download_conflicts(
        self,
        parallel: Option<usize>,
        continue_download: Option<bool>,
        idle_timeout: Option<u64>,
        http3: Option<bool>,
    ) -> Seq<Seq<char>> {
        number_conflict(
            "parallel"@,
            count_as_nat(self.parallel),
            count_as_nat(parallel),
            Seq::empty(),
        ) + flag_conflict("continue_download"@, self.continue_download, continue_download)
            + number_conflict(
            "idle_timeout"@,
            as_nat(self.idle_timeout),
            as_nat(idle_timeout),
            "s"@,
        ) + flag_conflict("http3"@, self.http3, http3)
    }

    /// One line for each option of a download that is both kept and given
    /// with different values, in the order parallel, continue_download,
    /// idle_timeout, http3.
    pub fn detect_conflicts_download(
        &self,
        parallel: Option<usize>,
        continue_download: Option<bool>,
        idle_timeout: Option<u64>,
        http3: Option<bool>,
    ) -> (conflicts: Vec<String>)
        ensures
            views(conflicts@) == self.download_conflicts(
                parallel,
                continue_download,
                idle_timeout,
                http3,
            ),
    {
        proof {
            reveal(CachedConfig::download_conflicts);
        }
        let mut conflicts: Vec<String> = Vec::new();
        assert(views(conflicts@) =~= Seq::<Seq<char>>::empty());
        proof {
            reveal_strlit("");
        }
        add_number_conflict(&mut conflicts, "parallel", widen(self.parallel), widen(parallel), "");
        add_flag_conflict(
            &mut conflicts,
            "continue_download",
            self.continue_download,
            continue_download,
        );
        add_number_conflict(&mut conflicts, "idle_timeout", self.idle_timeout, idle_timeout, "s");
        add_flag_conflict(&mut conflicts, "http3", self.http3, http3);
        assert(views(conflicts@) =~= self.download_conflicts(
            parallel,
            continue_download,
            idle_timeout,
            http3,
        )) by {
            assert(""@ =~= Seq::<char>::empty());
        }
        conflicts
    }

    /// The conflicts between the kept options of a plain request and the
    /// given ones.
    #[verifier::opaque]
    pub open spec fn get_conflicts(
        self,
        include_headers: Option<bool>,
        location: Option<bool>,
        headers: Option<Vec<String>>,
        connect_timeout: Option<u64>,
        verbose: Option<bool>,
        http3: Option<bool>,
        json: Option<bool>,
        analyze: Option<bool>,
        save_history: Option<bool>,
    ) -> Seq<Seq<char>> {
        flag_conflict("include"@, self.include_headers, include_headers) + flag_conflict(
            "location"@,
            self.location,
            location,
        ) + list_conflict("headers"@, list_views(self.headers), list_views(headers))
            + number_conflict(
            "connect_timeout"@,
            as_nat(self.connect_timeout),
            as_nat(connect_timeout),
            "s"@,
        ) + flag_conflict("verbose"@, self.verbose, verbose) + flag_conflict(
            "http3"@,
            self.http3,
            http3,
        ) + flag_conflict("json"@, self.json, json) + flag_conflict(
            "analyze"@,
            self.analyze,
            analyze,
        ) + flag_conflict("save_history"@, self.save_history, save_history)
    }

    /// One line for each option of a plain request that is both kept and
    /// given with different values.
    pub fn detect_conflicts_get(
        &self,
        include_headers: Option<bool>,
        location: Option<bool>,
        headers: &Option<Vec<String>>,
        connect_timeout: Option<u64>,
        verbose: Option<bool>,
        http3: Option<bool>,
        json: Option<bool>,
        analyze: Option<bool>,
        save_history: Option<bool>,
    ) -> (conflicts: Vec<String>)
        ensures
            views(conflicts@) == self.get_conflicts(
                include_headers,
                location,
                *headers,
                connect_timeout,
                verbose,
                http3,
                json,
                analyze,
                save_history,
            ),
    {
        proof {
            reveal(CachedConfig::get_conflicts);
        }
        let mut conflicts: Vec<String> = Vec::new();
        assert(views(conflicts@) =~= Seq::<Seq<char>>::empty());
        add_flag_conflict(&mut conflicts, "include", self.include_headers, include_headers);
        add_flag_conflict(&mut conflicts, "location", self.location, location);
        add_list_conflict(&mut conflicts, "headers", &self.headers, headers);
        add_number_conflict(
            &mut conflicts,
            "connect_timeout",
            self.connect_timeout,
            connect_timeout,
            "s",
        );
        add_flag_conflict(&mut conflicts, "verbose", self.verbose, verbose);
        add_flag_conflict(&mut conflicts, "http3", self.http3, http3);
        add_flag_conflict(&mut conflicts, "json", self.json, json);
        add_flag_conflict(&mut conflicts, "analyze", self.analyze, analyze);
        add_flag_conflict(&mut conflicts, "save_history", self.save_history, save_history);
        assert(views(conflicts@) =~= self.get_conflicts(
            include_headers,
            location,
            *headers,
            connect_timeout,
            verbose,
            http3,
            json,
            analyze,
            save_history,
        ));
        conflicts
    }

    /// The conflicts between the kept options of a benchmark and the given
    /// ones.
    #[verifier::opaque]
    pub open spec fn bench_conflicts(
        self,
        requests: Option<usize>,
        concurrency: Option<usize>,
        connect_timeout: Option<u64>,
        http3: Option<bool>,
    ) -> Seq<Seq<char>> {
        number_conflict(
            "requests"@,
            count_as_nat(self.requests),
            count_as_nat(requests),
            Seq::empty(),
        ) + number_conflict(
            "concurrency"@,
            count_as_nat(self.concurrency),
            count_as_nat(concurrency),
            Seq::empty(),
        ) + number_conflict(
            "connect_timeout"@,
            as_nat(self.connect_timeout),
            as_nat(connect_timeout),
            "s"@,
        ) + flag_conflict("http3"@, self.http3, http3)
    }

    /// One line for each option of a benchmark that is both kept and given
    /// with different values.
    pub fn detect_conflicts_bench(
        &self,
        requests: Option<usize>,
        concurrency: Option<usize>,
        connect_timeout: Option<u64>,
        http3: Option<bool>,
    ) -> (conflicts: Vec<String>)
        ensures
            views(conflicts@) == self.bench_conflicts(
                requests,
                concurrency,
                connect_timeout,
                http3,
            ),
    {
        proof {
            reveal(CachedConfig::bench_conflicts);
        }
        let mut conflicts: Vec<String> = Vec::new();
        assert(views(conflicts@) =~= Seq::<Seq<char>>::empty());
        proof {
            reveal_strlit("");
        }
        add_number_conflict(&mut conflicts, "requests", widen(self.requests), widen(requests), "");
        add_number_conflict(
            &mut conflicts,
            "concurrency",
            widen(self.concurrency),
            widen(concurrency),
            "",
        );
        add_number_conflict(
            &mut conflicts,
            "connect_timeout",
            self.connect_timeout,
            connect_timeout,
            "s",
        );
        add_flag_conflict(&mut conflicts, "http3", self.http3, http3);
        assert(views(conflicts@) =~= self.bench_conflicts(
            requests,
            concurrency,
            connect_timeout,
            http3,
        )) by {
            assert(""@ =~= Seq::<char>::empty());
        }
        conflicts
    }

    /// The options of a download: for each the given value, else the kept
    /// one, else its default (4 connections, no resuming, 30 seconds, no
    /// alternate protocol).
    pub fn merge_download_config(
        &self,
        parallel: Option<usize>,
        continue_download: Option<bool>,
        idle_timeout: Option<u64>,
        http3: Option<bool>,
    ) -> (r: (usize, bool, u64, bool))
        ensures
            r.0 == merged(parallel, self.parallel, 4usize),
            r.1 == merged(continue_download, self.continue_download, false),
            r.2 == merged(idle_timeout, self.idle_timeout, 30u64),
            r.3 == merged(http3, self.http3, false),
    {
        (
            merge(parallel, self.parallel, 4),
            merge(continue_download, self.continue_download, false),
            merge(idle_timeout, self.idle_timeout, 30),
            merge(http3, self.http3, false),
        )
    }

    /// The header lines of a plain request: the given ones, else the kept
    /// ones, else none.
    pub open spec fn merged_headers(self, headers: Option<Vec<String>>) -> Seq<Seq<char>> {
        match headers {
            Some(given) => views(given@),
            None => match self.headers {
                Some(kept) => views(kept@),
                None => Seq::empty(),
            },
        }
    }

    /// The options of a plain request: for each the given value, else the
    /// kept one, else its default (10 seconds to connect, history saved,
    /// every other flag off, no header lines).
    pub fn merge_get_config(
        &self,
        include_headers: Option<bool>,
        location: Option<bool>,
        headers: Option<Vec<String>>,
        connect_timeout: Option<u64>,
        verbose: Option<bool>,
        http3: Option<bool>,
        json: Option<bool>,
        analyze: Option<bool>,
        save_history: Option<bool>,
    ) -> (r: (bool, bool, Vec<String>, u64, bool, bool, bool, bool, bool))
        ensures
            r.0 == merged(include_headers, self.include_headers, false),
            r.1 == merged(location, self.location, false),
            views(r.2@) == self.merged_headers(headers),
            r.3 == merged(connect_timeout, self.connect_timeout, 10u64),
            r.4 == merged(verbose, self.verbose, false),
            r.5 == merged(http3, self.http3, false),
            r.6 == merged(json, self.json, false),
            r.7 == merged(analyze, self.analyze, false),
            r.8 == merged(save_history, self.save_history, true),
    {
        let merged_headers: Vec<String> = match headers {
            Some(given) => given,
            None => match &self.headers {
                Some(kept) => clone_strings(kept),
                None => {
                    let none: Vec<String> = Vec::new();
                    assert(views(none@) =~= Seq::<Seq<char>>::empty());
                    none
                },
            },
        };
        (
            merge(include_headers, self.include_headers, false),
            merge(location, self.location, false),
            merged_headers,
            merge(connect_timeout, self.connect_timeout, 10),
            merge(verbose, self.verbose, false),
            merge(http3, self.http3, false),
            merge(json, self.json, false),
            merge(analyze, self.analyze, false),
            merge(save_history, self.save_history, true),
        )
    }

    /// The options of a benchmark: for each the given value, else the kept
    /// one, else its default (100 requests, 10 at once, 5 seconds to
    /// connect, no alternate protocol).
    pub fn merge_bench_config(
        &self,
        requests: Option<usize>,
        concurrency: Option<usize>,
        connect_timeout: Option<u64>,
        http3: Option<bool>,
    ) -> (r: (usize, usize, u64, bool))
        ensures
            r.0 == merged(requests, self.requests, 100usize),
            r.1 == merged(concurrency, self.concurrency, 10usize),
            r.2 == merged(connect_timeout, self.connect_timeout, 5u64),
            r.3 == merged(http3, self.http3, false),
    {
        (
            merge(requests, self.requests, 100),
            merge(concurrency, self.concurrency, 10),
            merge(connect_timeout, self.connect_timeout, 5),
            merge(http3, self.http3, false),
        )
    }

    /// Keeps the options of a download; the others stay as they are.
    pub fn update_with_download(
        &mut self,
        parallel: usize,
        continue_download: bool,
        idle_timeout: u64,
        http3: bool,
        no_color: bool,
        profile: Option<String>,
    )
        ensures
            *final(self) == (CachedConfig {
                parallel: Some(parallel),
                continue_download: Some(continue_download),
                idle_timeout: Some(idle_timeout),
                http3: Some(http3),
                no_color: Some(no_color),
                profile,
                ..*old(self)
            }),
    {
        self.parallel = Some(parallel);
        self.continue_download = Some(continue_download);
        self.idle_timeout = Some(idle_timeout);
        self.http3 = Some(http3);
        self.no_color = Some(no_color);
        self.profile = profile;
    }

    /// Keeps the options of a plain request; the others stay as they are.
    pub fn update_with_get(
        &mut self,
        include_headers: bool,
        location: bool,
        headers: Vec<String>,
        connect_timeout: u64,
        verbose: bool,
        http3: bool,
        json: bool,
        analyze: bool,
        save_history: bool,
        no_color: bool,
        profile: Option<String>,
    )
        ensures
            *final(self) == (CachedConfig {
                include_headers: Some(include_headers),
                location: Some(location),
                headers: Self::kept_headers(headers),
                connect_timeout: Some(connect_timeout),
                verbose: Some(verbose),
                http3: Some(http3),
                json: Some(json),
                analyze: Some(analyze),
                save_history: Some(save_history),
                no_color: Some(no_color),
                profile,
                ..*old(self)
            }),
    {
        self.include_headers = Some(include_headers);
        self.location = Some(location);
        self.headers = if headers.len() == 0 {
            None
        } else {
            Some(headers)
        };
        self.connect_timeout = Some(connect_timeout);
        self.verbose = Some(verbose);
        self.http3 = Some(http3);
        self.json = Some(json);
        self.analyze = Some(analyze);
        self.save_history = Some(save_history);
        self.no_color = Some(no_color);
        self.profile = profile;
    }

    /// Keeps the options of a benchmark; the others stay as they are.
    pub fn update_with_bench(
        &mut self,
        requests: usize,
        concurrency: usize,
        connect_timeout: u64,
        http3: bool,
        no_color: bool,
        profile: Option<String>,
    )
        ensures
            *final(self) == (CachedConfig {
                requests: Some(requests),
                concurrency: Some(concurrency),
                connect_timeout: Some(connect_timeout),
                http3: Some(http3),
                no_color: Some(no_color),
                profile,
                ..*old(self)
            }),
    {
        self.requests = Some(requests);
        self.concurrency = Some(concurrency);
        self.connect_timeout = Some(connect_timeout);
        self.http3 = Some(http3);
        self.no_color = Some(no_color);
        self.profile = profile;
    }

    /// Whether no option is kept.
    pub fn is_empty(&self) -> (r: bool)
        ensures
            r == self.is_empty_spec(),
    {
        self.parallel.is_none() && self.continue_download.is_none() && self.idle_timeout.is_none()
            && self.http3.is_none() && self.include_headers.is_none() && self.location.is_none()
            && self.headers.is_none() && self.connect_timeout.is_none() && self.verbose.is_none()
            && self.json.is_none() && self.analyze.is_none() && self.save_history.is_none()
            && self.requests.is_none() && self.concurrency.is_none() && self.no_color.is_none()
            && self.profile.is_none()
    }

    /// The text that shows the kept options: a heading, then one line for
    /// each option that is kept, then a note where none is.
    pub open spec fn display_spec(self) -> Seq<char> {
        "Cached configuration:\n"@ + number_line(
            "parallel"@,
            count_as_nat(self.parallel),
            Seq::empty(),
        ) + flag_line("continue_download"@, self.continue_download) + number_line(
            "idle_timeout"@,
            as_nat(self.idle_timeout),
            "s"@,
        ) + flag_line("include"@, self.include_headers) + flag_line("location"@, self.location)
            + text_line("headers"@, list_text(self.headers)) + number_line(
            "connect_timeout"@,
            as_nat(self.connect_timeout),
            "s"@,
        ) + flag_line("verbose"@, self.verbose) + flag_line("json"@, self.json) + flag_line(
            "analyze"@,
            self.analyze,
        ) + flag_line("save_history"@, self.save_history) + number_line(
            "requests"@,
            count_as_nat(self.requests),
            Seq::empty(),
        ) + number_line("concurrency"@, count_as_nat(self.concurrency), Seq::empty())
            + flag_line("http3"@, self.http3) + flag_line("no_color"@, self.no_color) + text_line(
            "profile"@,
            text_view(self.profile),
        ) + if self.is_empty_spec() {
            "  (no cached configuration)\n"@
        } else {
            Seq::empty()
        }
    }

    /// The text that shows the kept options.
    pub fn display_cached_config(&self) -> (r: String)
        ensures
            r@ == self.display_spec(),
    {
        let mut out: Vec<char> = Vec::new();
        proof {
            reveal_strlit("");
        }
        push_str(&mut out, "Cached configuration:\n");
        show_number(&mut out, "parallel", widen(self.parallel), "");
        show_flag(&mut out, "continue_download", self.continue_download);
        show_number(&mut out, "idle_timeout", self.idle_timeout, "s");
        show_flag(&mut out, "include", self.include_headers);
        show_flag(&mut out, "location", self.location);
        match &self.headers {
            Some(list) => {
                let text = debug_string_list(list);
                show_text(&mut out, "headers", text.as_str());
            },
            None => {
                assert(out@ =~= out@ + Seq::<char>::empty());
            },
        }
        show_number(&mut out, "connect_timeout", self.connect_timeout, "s");
        show_flag(&mut out, "verbose", self.verbose);
        show_flag(&mut out, "json", self.json);
        show_flag(&mut out, "analyze", self.analyze);
        show_flag(&mut out, "save_history", self.save_history);
        show_number(&mut out, "requests", widen(self.requests), "");
        show_number(&mut out, "concurrency", widen(self.concurrency), "");
        show_flag(&mut out, "http3", self.http3);
        show_flag(&mut out, "no_color", self.no_color);
        match &self.profile {
            Some(name) => {
                show_text(&mut out, "profile", name.as_str());
            },
            None => {
                assert(out@ =~= out@ + Seq::<char>::empty());
            },
        }
        if self.is_empty() {
            push_str(&mut out, "  (no cached configuration)\n");
        } else {
            assert(out@ =~= out@ + Seq::<char>::empty());
        }
        assert(out@ =~= self.display_spec()) by {
            assert(""@ =~= Seq::<char>::empty());
        }
        string_of(&out)
    }
}

impl Default for CachedConfig {
    fn default() -> (c: Self)
        ensures
            c == CachedConfig::empty(),
    {
        CachedConfig::new()
    }
}

/// What a run does that takes over the kept options.
#[derive(Debug)]
pub enum CachedRun<T> {
    /// Nothing is kept: there is nothing to take over.
    NoCache,
    /// Given options contradict kept ones; each line names one.
    Conflicts(Vec<String>),
    /// The run goes ahead with these options. `updated` says whether an
    /// option was given, so that the kept options were brought up to the
    /// merged ones and are to be saved.
    Run { options: T, updated: bool },
}

/// A flag counts as given only where it is set.
pub open spec fn given_flag(value: bool) -> Option<bool> {
    if value {
        Some(true)
    } else {
        None
    }
}

/// A flag whose default is set counts as given only where it is not set.
pub open spec fn given_unless_set(value: bool) -> Option<bool> {
    if value {
        None
    } else {
        Some(false)
    }
}

/// A number counts as given only where it differs from its default.
pub open spec fn given_number(value: u64, default: u64) -> Option<u64> {
    if value != default {
        Some(value)
    } else {
        None
    }
}

/// A count counts as given only where it differs from its default.
pub open spec fn given_count(value: usize, default: usize) -> Option<usize> {
    if value != default {
        Some(value)
    } else {
        None
    }
}

/// Header lines count as given only where there are any.
pub open spec fn given_lines(lines: Vec<String>) -> Option<Vec<String>> {
    if lines@.len() > 0 {
        Some(lines)
    } else {
        None
    }
}

fn flag_if_set(value: bool) -> (r: Option<bool>)
    ensures
        r == given_flag(value),
{
    if value {
        Some(true)
    } else {
        None
    }
}

fn number_unless(value: u64, default: u64) -> (r: Option<u64>)
    ensures
        r == given_number(value, default),
{
    if value != default {
        Some(value)
    } else {
        None
    }
}

fn count_unless(value: usize, default: usize) -> (r: Option<usize>)
    ensures
        r == given_count(value, default),
{
    if value != default {
        Some(value)
    } else {
        None
    }
}

impl CachedConfig {
    /// Decides a download that takes over the kept options. The options on
    /// the command line count as given where they differ from their
    /// defaults (4 connections, 30 seconds) or, for flags, where they are
    /// set.
    pub fn resolve_download(
        &mut self,
        parallel: usize,
        continue_download: bool,
        idle_timeout: u64,
        http3: bool,
        no_color: bool,
        profile: Option<String>,
    ) -> (r: CachedRun<(usize, bool, u64, bool)>)
        ensures
            ({
                let before = *old(self);
                let p = given_count(parallel, 4);
                let c = given_flag(continue_download);
                let t = given_number(idle_timeout, 30);
                let h = given_flag(http3);
                let conflicts = before.download_conflicts(p, c, t, h);
                let options = (
                    merged(p, before.parallel, 4usize),
                    merged(c, before.continue_download, false),
                    merged(t, before.idle_timeout, 30u64),
                    merged(h, before.http3, false),
                );
                let any = p is Some || c is Some || t is Some || h is Some;
                if before.is_empty_spec() {
                    r is NoCache && *final(self) == before
                } else if conflicts.len() > 0 {
                    r matches CachedRun::Conflicts(lines) && views(lines@) == conflicts && *final(self) == before
                } else {
                    &&& r == CachedRun::Run { options, updated: any }
                    &&& any ==> *final(self) == (CachedConfig {
                        parallel: Some(options.0),
                        continue_download: Some(options.1),
                        idle_timeout: Some(options.2),
                        http3: Some(options.3),
                        no_color: Some(no_color),
                        profile,
                        ..before
                    })
                    &&& !any ==> *final(self) == before
                }
            }),
    {
        if self.is_empty() {
            return CachedRun::NoCache;
        }
        let p = count_unless(parallel, 4);
        let c = flag_if_set(continue_download);
        let t = number_unless(idle_timeout, 30);
        let h = flag_if_set(http3);
        let conflicts = self.detect_conflicts_download(p, c, t, h);
        if conflicts.len() > 0 {
            return CachedRun::Conflicts(conflicts);
        }
        let options = self.merge_download_config(p, c, t, h);
        let any = p.is_some() || c.is_some() || t.is_some() || h.is_some();
        if any {
            self.update_with_download(
                options.0,
                options.1,
                options.2,
                options.3,
                no_color,
                profile,
            );
        }
        CachedRun::Run { options, updated: any }
    }

    /// Decides a benchmark that takes over the kept options. The options on
    /// the command line count as given where they differ from their
    /// defaults (100 requests, 10 at once, 5 seconds) or, for the flag,
    /// where it is set.
    pub fn resolve_bench(
        &mut self,
        requests: usize,
        concurrency: usize,
        connect_timeout: u64,
        http3: bool,
        no_color: bool,
        profile: Option<String>,
    ) -> (r: CachedRun<(usize, usize, u64, bool)>)
        ensures
            ({
                let before = *old(self);
                let n = given_count(requests, 100);
                let c = given_count(concurrency, 10);
                let t = given_number(connect_timeout, 5);
                let h = given_flag(http3);
                let conflicts = before.bench_conflicts(n, c, t, h);
                let options = (
                    merged(n, before.requests, 100usize),
                    merged(c, before.concurrency, 10usize),
                    merged(t, before.connect_timeout, 5u64),
                    merged(h, before.http3, false),
                );
                let any = n is Some || c is Some || t is Some || h is Some;
                if before.is_empty_spec() {
                    r is NoCache && *final(self) == before
                } else if conflicts.len() > 0 {
                    r matches CachedRun::Conflicts(lines) && views(lines@) == conflicts && *final(self) == before
                } else {
                    &&& r == CachedRun::Run { options, updated: any }
                    &&& any ==> *final(self) == (CachedConfig {
                        requests: Some(options.0),
                        concurrency: Some(options.1),
                        connect_timeout: Some(options.2),
                        http3: Some(options.3),
                        no_color: Some(no_color),
                        profile,
                        ..before
                    })
                    &&& !any ==> *final(self) == before
                }
            }),
    {
        if self.is_empty() {
            return CachedRun::NoCache;
        }
        let n = count_unless(requests, 100);
        let c = count_unless(concurrency, 10);
        let t = number_unless(connect_timeout, 5);
        let h = flag_if_set(http3);
        let conflicts = self.detect_conflicts_bench(n, c, t, h);
        if conflicts.len() > 0 {
            return CachedRun::Conflicts(conflicts);
        }
        let options = self.merge_bench_config(n, c, t, h);
        let any = n.is_some() || c.is_some() || t.is_some() || h.is_some();
        if any {
            self.update_with_bench(options.0, options.1, options.2, options.3, no_color, profile);
        }
        CachedRun::Run { options, updated: any }
    }

    /// Decides a plain request that takes over the kept options. The
    /// options on the command line count as given where they differ from
    /// their defaults (10 seconds, history saved) or, for the other flags,
    /// where they are set; header lines where there are any.
    #[verifier::rlimit(60)]
    pub fn resolve_get(
        &mut self,
        include_headers: bool,
        location: bool,
        headers: Vec<String>,
        connect_timeout: u64,
        verbose: bool,
        http3: bool,
        json: bool,
        analyze: bool,
        save_history: bool,
        no_color: bool,
        profile: Option<String>,
    ) -> (r: CachedRun<(bool, bool, Vec<String>, u64, bool, bool, bool, bool, bool)>)
        ensures
            ({
                let before = *old(self);
                let i = given_flag(include_headers);
                let l = given_flag(location);
                let hs = given_lines(headers);
                let t = given_number(connect_timeout, 10);
                let v = given_flag(verbose);
                let h = given_flag(http3);
                let j = given_flag(json);
                let a = given_flag(analyze);
                let s = given_unless_set(save_history);
                let conflicts = before.get_conflicts(i, l, hs, t, v, h, j, a, s);
                let any = i is Some || l is Some || hs is Some || t is Some || v is Some || h
                    is Some || j is Some || a is Some || s is Some;
                if before.is_empty_spec() {
                    r is NoCache && *final(self) == before
                } else if conflicts.len() > 0 {
                    r matches CachedRun::Conflicts(lines) && views(lines@) == conflicts && *final(self) == before
                } else {
                    &&& r matches CachedRun::Run { options, updated }
                    &&& updated == any
                    &&& options.0 == merged(i, before.include_headers, false)
                    &&& options.1 == merged(l, before.location, false)
                    &&& views(options.2@) == before.merged_headers(hs)
                    &&& options.3 == merged(t, before.connect_timeout, 10u64)
                    &&& options.4 == merged(v, before.verbose, false)
                    &&& options.5 == merged(h, before.http3, false)
                    &&& options.6 == merged(j, before.json, false)
                    &&& options.7 == merged(a, before.analyze, false)
                    &&& options.8 == merged(s, before.save_history, true)
                    &&& !any ==> *final(self) == before
                    &&& any ==> {
                        &&& final(self).include_headers == Some(options.0)
                        &&& final(self).location == Some(options.1)
                        &&& list_views(final(self).headers) == if options.2@.len() == 0 {
                            None
                        } else {
                            Some(views(options.2@))
                        }
                        &&& final(self).connect_timeout == Some(options.3)
                        &&& final(self).verbose == Some(options.4)
                        &&& final(self).http3 == Some(options.5)
                        &&& final(self).json == Some(options.6)
                        &&& final(self).analyze == Some(options.7)
                        &&& final(self).save_history == Some(options.8)
                        &&& final(self).no_color == Some(no_color)
                        &&& final(self).profile == profile
                        &&& final(self).parallel == before.parallel
                        &&& final(self).continue_download == before.continue_download
                        &&& final(self).idle_timeout == before.idle_timeout
                        &&& final(self).requests == before.requests
                        &&& final(self).concurrency == before.concurrency
                    }
                }
            }),
    {
        if self.is_empty() {
            return CachedRun::NoCache;
        }
        let i = flag_if_set(include_headers);
        let l = flag_if_set(location);
        let hs: Option<Vec<String>> = if headers.len() > 0 {
            Some(headers)
        } else {
            None
        };
        let t = number_unless(connect_timeout, 10);
        let v = flag_if_set(verbose);
        let h = flag_if_set(http3);
        let j = flag_if_set(json);
        let a = flag_if_set(analyze);
        let s: Option<bool> = if save_history {
            None
        } else {
            Some(false)
        };
        let conflicts = self.detect_conflicts_get(i, l, &hs, t, v, h, j, a, s);
        if conflicts.len() > 0 {
            return CachedRun::Conflicts(conflicts);
        }
        let any = i.is_some() || l.is_some() || hs.is_some() || t.is_some() || v.is_some()
            || h.is_some() || j.is_some() || a.is_some() || s.is_some();
        let options = self.merge_get_config(i, l, hs, t, v, h, j, a, s);
        if any {
            let kept = clone_strings(&options.2);
            assert(kept@.len() == options.2@.len()) by {
                assert(views(kept@).len() == views(options.2@).len());
            }
            self.update_with_get(
                options.0,
                options.1,
                kept,
                options.3,
                options.4,
                options.5,
                options.6,
                options.7,
                options.8,
                no_color,
                profile,
            );
        }
        CachedRun::Run { options, updated: any }
    }
}

} // verus!
