//! The history of requests: a bounded list of entries, newest last.

use crate::text::{
    chars_of, contains, decimal, occurs_in, owned, push_decimal, push_str, slice_chars, str_equal,
    string_of,
};
use vstd::prelude::*;
use vstd::slice::slice_subrange;

verus! {

/// One request and what became of it.
#[derive(Debug, Clone)]
pub struct HistoryEntry {
    pub id: String,
    /// Seconds since the Unix epoch, in UTC.
    pub timestamp_secs: i64,
    /// The nanoseconds within the second.
    pub timestamp_nanos: u32,
    pub method: String,
    pub url: String,
    pub headers: Vec<(String, String)>,
    pub status_code: Option<u16>,
    /// In milliseconds.
    pub response_time: Option<u64>,
    /// In bytes.
    pub response_size: Option<u64>,
    pub success: bool,
    pub error_message: Option<String>,
}

/// The history. It holds at most `max_entries` entries once an entry was
/// added.
#[derive(Debug, Clone)]
pub struct RequestHistory {
    pub entries: Vec<HistoryEntry>,
    pub max_entries: usize,
}

/// `Uuid::new_v4` of the uuid crate, written out with its hyphens: a fresh
/// random identifier, always 36 characters long.
#[verifier::external_body]
fn fresh_id() -> (id: String)
    ensures
        id@.len() == 36,
{
    uuid::Uuid::new_v4().to_string()
}

/// `Utc::now` of the chrono crate: the time of the call as seconds since the
/// Unix epoch and the nanoseconds within the second.
#[verifier::external_body]
fn utc_now() -> (now: (i64, u32)) {
    let now = chrono::Utc::now();
    (now.timestamp(), now.timestamp_subsec_nanos())
}

/// A response succeeded if and only if its status lies in `[200, 400)`.
pub open spec fn status_ok(status_code: u16) -> bool {
    200 <= status_code < 400
}

/// Whether the query occurs in the URL, the method or the error message of
/// the entry.
pub open spec fn entry_matches(entry: HistoryEntry, query: Seq<char>) -> bool {
    ||| occurs_in(query, entry.url@)
    ||| occurs_in(query, entry.method@)
    ||| entry.error_message matches Some(message) && occurs_in(query, message@)
}

/// The entries that match the query, in their order.
pub open spec fn matching(entries: Seq<HistoryEntry>, query: Seq<char>) -> Seq<HistoryEntry>
    decreases entries.len(),
{
    if entries.len() == 0 {
        Seq::empty()
    } else if entry_matches(entries.last(), query) {
        matching(entries.drop_last(), query).push(entries.last())
    } else {
        matching(entries.drop_last(), query)
    }
}

/// The entries behind a list of references.
pub open spec fn referred(list: Seq<&HistoryEntry>) -> Seq<HistoryEntry> {
    list.map_values(|e: &HistoryEntry| *e)
}

/// The last `limit` of the entries, or all of them where there are fewer.
pub open spec fn newest(entries: Seq<HistoryEntry>, limit: int) -> Seq<HistoryEntry> {
    if entries.len() > limit {
        entries.subrange(entries.len() - limit, entries.len() as int)
    } else {
        entries
    }
}

/// The index of the first entry with that identifier, or the number of
/// entries.
pub open spec fn id_position(entries: Seq<HistoryEntry>, id: Seq<char>) -> int
    decreases entries.len(),
{
    if entries.len() == 0 {
        0
    } else if entries[0].id@ == id {
        0
    } else {
        1 + id_position(entries.drop_first(), id)
    }
}

proof fn lemma_id_position_is_first(entries: Seq<HistoryEntry>, id: Seq<char>, at: int)
    requires
        0 <= at <= entries.len(),
        at < entries.len() ==> entries[at].id@ == id,
        forall|k: int| 0 <= k < at ==> (#[trigger] entries[k]).id@ != id,
    ensures
        id_position(entries, id) == at,
    decreases entries.len(),
{
    if entries.len() > 0 && at > 0 {
        let rest = entries.drop_first();
        assert(entries[0].id@ != id);
        assert forall|k: int| 0 <= k < at - 1 implies (#[trigger] rest[k]).id@ != id by {
            assert(rest[k] == entries[k + 1]);
        }
        lemma_id_position_is_first(rest, id, at - 1);
    }
}

impl HistoryEntry {
    /// An entry for a request that has not been answered yet, with the
    /// identifier and the time that are given.
    pub fn with_identity(
        id: String,
        timestamp_secs: i64,
        timestamp_nanos: u32,
        method: &str,
        url: &str,
        headers: Vec<(String, String)>,
    ) -> (e: Self)
        ensures
            e.id == id,
            e.timestamp_secs == timestamp_secs,
            e.timestamp_nanos == timestamp_nanos,
            e.method@ == method@,
            e.url@ == url@,
            e.headers == headers,
            e.status_code is None,
            e.response_time is None,
            e.response_size is None,
            !e.success,
            e.error_message is None,
    {
        HistoryEntry {
            id,
            timestamp_secs,
            timestamp_nanos,
            method: owned(method),
            url: owned(url),
            headers,
            status_code: None,
            response_time: None,
            response_size: None,
            success: false,
            error_message: None,
        }
    }

    /// An entry for a request that has not been answered yet, with a fresh
    /// identifier and the time of the call.
    pub fn new(method: &str, url: &str, headers: Vec<(String, String)>) -> (e: Self)
        ensures
            e.id@.len() == 36,
            e.method@ == method@,
            e.url@ == url@,
            e.headers == headers,
            e.status_code is None,
            e.response_time is None,
            e.response_size is None,
            !e.success,
            e.error_message is None,
    {
        let id = fresh_id();
        let (secs, nanos) = utc_now();
        Self::with_identity(id, secs, nanos, method, url, headers)
    }

    /// The entry with its response: status, time in milliseconds and size
    /// in bytes. It counts as a success if the status lies in `[200, 400)`.
    pub fn with_response(self, status_code: u16, response_time: u64, response_size: u64) -> (e:
        Self)
        ensures
            e == (HistoryEntry {
                status_code: Some(status_code),
                response_time: Some(response_time),
                response_size: Some(response_size),
                success: status_ok(status_code),
                ..self
            }),
    {
        let mut e = self;
        e.status_code = Some(status_code);
        e.response_time = Some(response_time);
        e.response_size = Some(response_size);
        e.success = status_code >= 200 && status_code < 400;
        e
    }

    /// The entry with the error that ended its request; it is no success.
    pub fn with_error(self, error_message: String) -> (e: Self)
        ensures
            e == (HistoryEntry { error_message: Some(error_message), success: false, ..self }),
    {
        let mut e = self;
        e.error_message = Some(error_message);
        e.success = false;
        e
    }

    /// Whether the query occurs in the URL, the method or the error message.
    pub fn matches_query(&self, query: &str) -> (r: bool)
        ensures
            r == entry_matches(*self, query@),
    {
        if contains(self.url.as_str(), query) {
            return true;
        }
        if contains(self.method.as_str(), query) {
            return true;
        }
        match &self.error_message {
            Some(message) => contains(message.as_str(), query),
            None => false,
        }
    }

    /// How the outcome is shown in a list: the status with a check mark for
    /// a success and a cross for a failure, or `Error` without a status.
    pub open spec fn status_label_spec(self) -> Seq<char> {
        match self.status_code {
            Some(status) => decimal(status as nat) + if self.success {
                " ✓"@
            } else {
                " ✗"@
            },
            None => "Error"@,
        }
    }

    /// How the outcome is shown in a list.
    pub fn status_label(&self) -> (r: String)
        ensures
            r@ == self.status_label_spec(),
    {
        let mut out: Vec<char> = Vec::new();
        match self.status_code {
            Some(status) => {
                push_decimal(&mut out, status as u64);
                if self.success {
                    push_str(&mut out, " ✓");
                } else {
                    push_str(&mut out, " ✗");
                }
            },
            None => {
                push_str(&mut out, "Error");
            },
        }
        assert(out@ =~= self.status_label_spec());
        string_of(&out)
    }

    /// How the response time is shown in a list: in milliseconds, or `N/A`
    /// where there is none.
    pub open spec fn time_label_spec(self) -> Seq<char> {
        match self.response_time {
            Some(millis) => decimal(millis as nat) + "ms"@,
            None => "N/A"@,
        }
    }

    /// How the response time is shown in a list.
    pub fn time_label(&self) -> (r: String)
        ensures
            r@ == self.time_label_spec(),
    {
        let mut out: Vec<char> = Vec::new();
        match self.response_time {
            Some(millis) => {
                push_decimal(&mut out, millis);
                push_str(&mut out, "ms");
            },
            None => {
                push_str(&mut out, "N/A");
            },
        }
        assert(out@ =~= self.time_label_spec());
        string_of(&out)
    }

    /// The first eight characters of the identifier, or all of it where it
    /// is shorter.
    pub fn short_id(&self) -> (r: String)
        ensures
            r@ == if self.id@.len() >= 8 {
                self.id@.subrange(0, 8)
            } else {
                self.id@
            },
    {
        let chars = chars_of(self.id.as_str());
        if chars.len() >= 8 {
            let head = slice_chars(&chars, 0, 8);
            string_of(&head)
        } else {
            string_of(&chars)
        }
    }
}

impl RequestHistory {
    /// Appends an entry, then drops the oldest entries until at most
    /// `max_entries` are left.
    pub fn add_entry(&mut self, entry: HistoryEntry)
        ensures
            final(self).max_entries == old(self).max_entries,
            final(self).entries@ == newest(
                old(self).entries@.push(entry),
                old(self).max_entries as int,
            ),
            final(self).entries@.len() <= old(self).max_entries,
    {
        self.entries.push(entry);
        let len = self.entries.len();
        if len > self.max_entries {
            let tail = self.entries.split_off(len - self.max_entries);
            self.entries = tail;
        }
    }

    /// The last `limit` entries, oldest first.
    pub fn get_recent(&self, limit: usize) -> (r: &[HistoryEntry])
        ensures
            r@ == newest(self.entries@, limit as int),
    {
        let len = self.entries.len();
        let start: usize = if len > limit {
            len - limit
        } else {
            0
        };
        let r = slice_subrange(self.entries.as_slice(), start, len);
        assert(r@ =~= newest(self.entries@, limit as int));
        r
    }

    /// The entries in which the query occurs, in their order.
    pub fn search(&self, query: &str) -> (r: Vec<&HistoryEntry>)
        ensures
            referred(r@) == matching(self.entries@, query@),
    {
        let mut out: Vec<&HistoryEntry> = Vec::new();
        let mut i: usize = 0;
        assert(self.entries@.take(0) =~= Seq::<HistoryEntry>::empty());
        assert(referred(out@) =~= Seq::<HistoryEntry>::empty());
        while i < self.entries.len()
            invariant
                i <= self.entries.len(),
                referred(out@) == matching(self.entries@.take(i as int), query@),
            decreases self.entries.len() - i,
        {
            let ghost before = self.entries@.take(i as int);
            let ghost after = self.entries@.take(i + 1);
            assert(after.drop_last() =~= before);
            assert(after.last() == self.entries@[i as int]);
            let ghost seen = referred(out@);
            if self.entries[i].matches_query(query) {
                out.push(&self.entries[i]);
                assert(referred(out@) =~= seen.push(self.entries@[i as int]));
            }
            i = i + 1;
        }
        assert(self.entries@.take(self.entries.len() as int) =~= self.entries@);
        out
    }

    /// The first entry with that identifier, if there is one.
    pub fn get_by_id(&self, id: &str) -> (r: Option<&HistoryEntry>)
        ensures
            r is Some <==> id_position(self.entries@, id@) < self.entries@.len(),
            r matches Some(entry) ==> *entry == self.entries@[id_position(self.entries@, id@)]
                && entry.id@ == id@,
    {
        let mut i: usize = 0;
        while i < self.entries.len()
            invariant
                i <= self.entries.len(),
                forall|k: int| 0 <= k < i ==> (#[trigger] self.entries@[k]).id@ != id@,
            decreases self.entries.len() - i,
        {
            if str_equal(self.entries[i].id.as_str(), id) {
                proof {
                    lemma_id_position_is_first(self.entries@, id@, i as int);
                }
                return Some(&self.entries[i]);
            }
            i = i + 1;
        }
        proof {
            lemma_id_position_is_first(self.entries@, id@, self.entries.len() as int);
        }
        None
    }

    /// Drops every entry.
    pub fn clear(&mut self)
        ensures
            final(self).entries@ == Seq::<HistoryEntry>::empty(),
            final(self).max_entries == old(self).max_entries,
    {
        self.entries.clear();
    }
}

impl Default for RequestHistory {
    fn default() -> (h: Self)
        ensures
            h.entries@ == Seq::<HistoryEntry>::empty(),
            h.max_entries == 1000,
    {
        RequestHistory { entries: Vec::new(), max_entries: 1000 }
    }
}

} // verus!
