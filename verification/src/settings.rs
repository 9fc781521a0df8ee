use vstd::prelude::*;
use vstd::string::*;
use crate::text;

verus! {

pub open spec fn retention_key() -> Seq<char> {
    seq!['r', 'e', 't', 'e', 'n', 't', 'i', 'o', 'n', '_', 'd', 'a', 'y', 's']
}

pub open spec fn storage_cap_key() -> Seq<char> {
    seq!['s', 't', 'o', 'r', 'a', 'g', 'e', '_', 'c', 'a', 'p', '_', 'm', 'b']
}

pub open spec fn autostart_key() -> Seq<char> {
    seq!['a', 'u', 't', 'o', 's', 't', 'a', 'r', 't']
}

/// A stored number as the settings reader takes it: the parsed value, or
/// `fallback` where the value is missing or does not parse as a `u32`.
pub open spec fn stored_u32(v: Option<Seq<char>>, fallback: u32) -> u32 {
    match v {
        Some(t) => match text::parse_unsigned(t, u32::MAX as nat) {
            Some(x) => x as u32,
            None => fallback,
        },
        None => fallback,
    }
}

/// A stored flag as the settings reader takes it.
pub open spec fn stored_bool(v: Option<Seq<char>>, fallback: bool) -> bool {
    match v {
        Some(t) => match text::parse_bool_text(t) {
            Some(b) => b,
            None => fallback,
        },
        None => fallback,
    }
}

/// User preferences.
#[derive(Debug, Clone, Copy, PartialEq, Eq, Structural)]
pub struct Settings {
    pub retention_days: u32,
    pub storage_cap_mb: u32,
    pub autostart: bool,
}

/// One stored setting: its key and its text value.
#[derive(Debug, Clone)]
pub struct SettingEntry {
    pub key: String,
    pub value: String,
}

impl Settings {
    pub open spec fn spec_default() -> Settings {
        Settings { retention_days: 30, storage_cap_mb: 500, autostart: false }
    }

    /// The settings read from the three stored values, each falling back to
    /// its default where it is missing or malformed.
    pub open spec fn spec_from_stored(
        retention: Option<Seq<char>>,
        storage_cap: Option<Seq<char>>,
        autostart: Option<Seq<char>>,
    ) -> Settings {
        Settings {
            retention_days: stored_u32(retention, 30),
            storage_cap_mb: stored_u32(storage_cap, 500),
            autostart: stored_bool(autostart, false),
        }
    }

    /// Builds the settings from the stored values of `retention_days`,
    /// `storage_cap_mb` and `autostart` (`None` where the value could not be read).
    pub fn from_stored(
        retention: Option<String>,
        storage_cap: Option<String>,
        autostart: Option<String>,
    ) -> (r: Settings)
        ensures
            r == Settings::spec_from_stored(
                text::opt_text(retention),
                text::opt_text(storage_cap),
                text::opt_text(autostart),
            ),
    {
        let retention_days = match &retention {
            Some(t) => match text::parse_u32(t.as_str()) {
                Some(x) => x,
                None => 30,
            },
            None => 30,
        };
        let storage_cap_mb = match &storage_cap {
            Some(t) => match text::parse_u32(t.as_str()) {
                Some(x) => x,
                None => 500,
            },
            None => 500,
        };
        let autostart = match &autostart {
            Some(t) => match text::parse_bool(t.as_str()) {
                Some(b) => b,
                None => false,
            },
            None => false,
        };
        Settings { retention_days, storage_cap_mb, autostart }
    }

    /// The key/value pairs under which these settings are stored, in the order
    /// `retention_days`, `storage_cap_mb`, `autostart`.
    pub fn stored_entries(&self) -> (r: Vec<SettingEntry>)
        ensures
            r@.len() == 3,
            r@[0].key@ == retention_key(),
            r@[0].value@ == text::decimal(self.retention_days as nat),
            r@[1].key@ == storage_cap_key(),
            r@[1].value@ == text::decimal(self.storage_cap_mb as nat),
            r@[2].key@ == autostart_key(),
            r@[2].value@ == text::bool_text(self.autostart),
    {
        proof {
            reveal_strlit("retention_days");
            reveal_strlit("storage_cap_mb");
            reveal_strlit("autostart");
        }
        assert("retention_days"@ =~= retention_key());
        assert("storage_cap_mb"@ =~= storage_cap_key());
        assert("autostart"@ =~= autostart_key());
        let mut r: Vec<SettingEntry> = Vec::new();
        r.push(
            SettingEntry {
                key: String::from_str("retention_days"),
                value: text::decimal_string(self.retention_days as u64),
            },
        );
        r.push(
            SettingEntry {
                key: String::from_str("storage_cap_mb"),
                value: text::decimal_string(self.storage_cap_mb as u64),
            },
        );
        r.push(
            SettingEntry { key: String::from_str("autostart"), value: text::bool_string(self.autostart) },
        );
        r
    }

    /// Whether the age-based sweep runs.
    pub fn retention_enabled(&self) -> (r: bool)
        ensures
            r == (self.retention_days > 0),
    {
        self.retention_days > 0
    }

    /// The storage cap in bytes.
    pub fn storage_cap_bytes(&self) -> (r: u64)
        ensures
            r == self.storage_cap_mb as int * 1048576,
    {
        self.storage_cap_mb as u64 * 1024 * 1024
    }
}

impl Default for Settings {
    fn default() -> (r: Settings)
        ensures
            r == Settings::spec_default(),
    {
        Settings { retention_days: 30, storage_cap_mb: 500, autostart: false }
    }
}

/// Whether the main window is shown at start-up: it stays in the tray only
/// when the settings could be read and ask for start-at-login mode.
pub fn show_window_at_startup(settings: Option<Settings>) -> (r: bool)
    ensures
        r == match settings {
            Some(s) => !s.autostart,
            None => true,
        },
{
    match settings {
        Some(s) => !s.autostart,
        None => true,
    }
}

/// Reading back what was written: the settings read from the values that
/// `stored_entries` writes are the settings that were written.
pub proof fn lemma_settings_round_trip(s: Settings)
    ensures
        Settings::spec_from_stored(
            Some(text::decimal(s.retention_days as nat)),
            Some(text::decimal(s.storage_cap_mb as nat)),
            Some(text::bool_text(s.autostart)),
        ) == s,
{
    text::lemma_u32_text_round_trip(s.retention_days);
    text::lemma_u32_text_round_trip(s.storage_cap_mb);
    text::lemma_bool_text_round_trip(s.autostart);
}

/// A store with nothing readable gives the default settings.
pub proof fn lemma_missing_values_give_defaults()
    ensures
        Settings::spec_from_stored(None, None, None) == (Settings {
            retention_days: 30,
            storage_cap_mb: 500,
            autostart: false,
        }),
        Settings::spec_default() == (Settings {
            retention_days: 30,
            storage_cap_mb: 500,
            autostart: false,
        }),
{
}

} // verus!
