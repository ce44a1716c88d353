//! Settings of the reporter and the per-machine setup limits.

use vstd::prelude::*;

verus! {

/// Where the setup records are read from.
#[derive(Clone, Debug)]
pub struct DatabaseSettings {
    pub host: String,
    pub username: String,
    pub password: String,
    pub database: String,
}

/// The mail server and the addresses of the report.
#[derive(Clone, Debug)]
pub struct SmtpSettings {
    pub server: String,
    pub port: u16,
    pub username: String,
    pub password: String,
    pub from: String,
    pub to: Vec<String>,
}

/// When the report goes out and the limit for machines without one of their own.
#[derive(Clone, Debug)]
pub struct ReportSettings {
    /// Wall-clock time of the daily report, written `HH:MM`.
    pub send_time: String,
    /// Setup limit in minutes for a machine that `Settings::limits` lacks.
    pub default_setup_limit: i32,
}

#[derive(Clone, Debug)]
pub struct GeneralSettings {
    pub log_level: String,
    /// Seconds to wait after the send time is reached.
    pub send_delay: i32,
}

/// One snapshot of the reporter's configuration.
#[derive(Clone, Debug)]
pub struct Settings {
    pub database: DatabaseSettings,
    pub smtp: SmtpSettings,
    pub report: ReportSettings,
    pub general: GeneralSettings,
    /// Setup limits in minutes, keyed by lowercased machine identifier.
    pub limits: Vec<(String, i32)>,
}

/// What `str::to_lowercase` makes of a string.
pub uninterp spec fn lower_of(s: Seq<char>) -> Seq<char>;

/// Relies on `str::to_lowercase`, whose result depends on the characters
/// alone.
#[verifier::external_body]
fn lowercase(s: &str) -> (r: String)
    ensures
        r@ == lower_of(s@),
{
    s.to_lowercase()
}

/// The limit of the first entry whose key is `key`.
pub open spec fn limit_lookup(entries: Seq<(String, i32)>, key: Seq<char>) -> Option<i32>
    decreases entries.len(),
{
    if entries.len() == 0 {
        None
    } else if entries[0].0@ == key {
        Some(entries[0].1)
    } else {
        limit_lookup(entries.drop_first(), key)
    }
}

/// Every key of the limits is lowercase and no key appears twice.
pub open spec fn limits_wf(entries: Seq<(String, i32)>) -> bool {
    &&& forall|i: int| 0 <= i < entries.len() ==> lower_of(#[trigger] entries[i].0@) == entries[i].0@
    &&& forall|i: int, j: int|
        0 <= i < j < entries.len() ==> (#[trigger] entries[i]).0@ != (#[trigger] entries[j]).0@
}

impl Settings {
    /// The limits form a table keyed by lowercased machine identifier.
    pub open spec fn wf(&self) -> bool {
        limits_wf(self.limits@)
    }

    /// Whether every limit key is lowercase and unique.
    pub fn has_canonical_limits(&self) -> (r: bool)
        ensures
            r == self.wf(),
    {
        let ghost entries = self.limits@;
        let mut i: usize = 0;
        while i < self.limits.len()
            invariant
                entries == self.limits@,
                0 <= i <= entries.len(),
                forall|k: int| 0 <= k < i ==> lower_of(#[trigger] entries[k].0@) == entries[k].0@,
                forall|k: int, l: int|
                    0 <= k < l < i ==> (#[trigger] entries[k]).0@ != (#[trigger] entries[l]).0@,
            decreases entries.len() - i,
        {
            let lowered = lowercase(self.limits[i].0.as_str());
            if lowered != self.limits[i].0 {
                return false;
            }
            let mut j: usize = 0;
            while j < i
                invariant
                    entries == self.limits@,
                    0 <= j <= i < entries.len(),
                    forall|k: int| 0 <= k < j ==> (#[trigger] entries[k]).0@ != entries[i as int].0@,
                decreases i - j,
            {
                if self.limits[j].0 == self.limits[i].0 {
                    assert(entries[j as int].0@ == entries[i as int].0@);
                    return false;
                }
                j = j + 1;
            }
            i = i + 1;
        }
        true
    }

    /// The limit stored under `key`, or the default limit where none is.
    pub open spec fn limit_for(&self, key: Seq<char>) -> i32 {
        match limit_lookup(self.limits@, key) {
            Some(limit) => limit,
            None => self.report.default_setup_limit,
        }
    }

    /// The setup limit of a machine, looked up by its lowercased identifier.
    pub open spec fn setup_limit(&self, machine: Seq<char>) -> i32 {
        self.limit_for(lower_of(machine))
    }

    /// Takes a reloaded snapshot where there is one; after a failed reload the
    /// current settings stay in effect and the error is handed back.
    pub fn update<E>(&mut self, reloaded: Result<Settings, E>) -> (r: Result<(), E>)
        ensures
            match reloaded {
                Ok(s) => *final(self) == s && r is Ok,
                Err(e) => *final(self) == *old(self) && r == Err::<(), E>(e),
            },
    {
        match reloaded {
            Ok(s) => {
                *self = s;
                Ok(())
            },
            Err(e) => Err(e),
        }
    }

    /// The limit stored under `key` exactly as written, or the default limit.
    pub fn limit_for_key(&self, key: &str) -> (r: i32)
        ensures
            r == self.limit_for(key@),
    {
        let wanted = key.to_owned();
        let ghost entries = self.limits@;
        let mut i: usize = 0;
        assert(entries.subrange(0, entries.len() as int) =~= entries);
        while i < self.limits.len()
            invariant
                entries == self.limits@,
                wanted@ == key@,
                0 <= i <= entries.len(),
                limit_lookup(entries.subrange(i as int, entries.len() as int), key@)
                    == limit_lookup(entries, key@),
            decreases entries.len() - i,
        {
            assert(entries.subrange(i as int, entries.len() as int).drop_first()
                =~= entries.subrange(i + 1, entries.len() as int));
            if self.limits[i].0 == wanted {
                return self.limits[i].1;
            }
            i = i + 1;
        }
        assert(entries.subrange(i as int, entries.len() as int) =~= Seq::<(String, i32)>::empty());
        self.report.default_setup_limit
    }

    /// The setup limit of a machine; the identifier is compared lowercased.
    pub fn get_setup_limit(&self, machine: &str) -> (r: i32)
        ensures
            r == self.setup_limit(machine@),
    {
        let key = lowercase(machine);
        self.limit_for_key(key.as_str())
    }
}

/// In a table without repeated keys, looking up a key finds its entry
/// wherever the entry stands.
pub proof fn lemma_lookup_finds_entry(entries: Seq<(String, i32)>, i: int)
    requires
        limits_wf(entries),
        0 <= i < entries.len(),
    ensures
        limit_lookup(entries, entries[i].0@) == Some(entries[i].1),
    decreases i,
{
    if i > 0 {
        let rest = entries.drop_first();
        assert(rest[i - 1] == entries[i]);
        assert forall|a: int, b: int| 0 <= a < b < rest.len() implies (#[trigger] rest[a]).0@
            != (#[trigger] rest[b]).0@ by {
            assert(rest[a] == entries[a + 1] && rest[b] == entries[b + 1]);
        }
        assert forall|a: int| 0 <= a < rest.len() implies lower_of(#[trigger] rest[a].0@)
            == rest[a].0@ by {
            assert(rest[a] == entries[a + 1]);
        }
        assert(entries[0].0@ != entries[i].0@);
        lemma_lookup_finds_entry(rest, i - 1);
    }
}

/// Machine identifiers that lowercase alike get the same limit.
pub proof fn lemma_limit_ignores_case(settings: &Settings, a: Seq<char>, b: Seq<char>)
    requires
        lower_of(a) == lower_of(b),
    ensures
        settings.setup_limit(a) == settings.setup_limit(b),
{
}

/// A machine whose lowercased identifier the limits lack is held to the
/// default limit.
pub proof fn lemma_absent_machine_gets_default(settings: &Settings, machine: Seq<char>)
    requires
        limit_lookup(settings.limits@, lower_of(machine)) is None,
    ensures
        settings.setup_limit(machine) == settings.report.default_setup_limit,
{
}

} // verus!
