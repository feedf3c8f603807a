//! A configuration of named settings, and the checks run over it.

use vstd::prelude::*;
use vstd::string::StringExecFns;
use crate::parse::{parse_i32, parse_i32_spec, parse_bool, parse_bool_spec};

verus! {

/// One named setting.
#[derive(Debug)]
pub struct Setting {
    /// The setting's name, unique within a configuration.
    pub name: String,
    /// The setting's raw textual value.
    pub value: String,
}

/// The value of the first setting carrying a name, scanning from the front.
pub open spec fn setting_lookup(settings: Seq<Setting>, name: Seq<char>) -> Option<Seq<char>>
    decreases settings.len(),
{
    if settings.len() == 0 {
        None
    } else if settings[0].name@ == name {
        Some(settings[0].value@)
    } else {
        setting_lookup(settings.drop_first(), name)
    }
}

/// Looking a name up in an extended store: an entry appended at the end is
/// seen only where no earlier entry carries the name.
proof fn lemma_setting_lookup_push(settings: Seq<Setting>, entry: Setting, name: Seq<char>)
    ensures
        setting_lookup(settings.push(entry), name) == (match setting_lookup(settings, name) {
            Some(v) => Some(v),
            None => if entry.name@ == name {
                Some(entry.value@)
            } else {
                None
            },
        }),
    decreases settings.len(),
{
    if settings.len() == 0 {
        assert(settings.push(entry)[0] == entry);
        assert(settings.push(entry).drop_first() =~= Seq::<Setting>::empty());
    } else {
        assert(settings.push(entry)[0] == settings[0]);
        assert(settings.push(entry).drop_first() =~= settings.drop_first().push(entry));
        lemma_setting_lookup_push(settings.drop_first(), entry, name);
    }
}

/// Configuration data: named settings, one entry per name.
pub struct Configuration {
    settings: Vec<Setting>,
}

impl Configuration {
    /// The settings in insertion order.
    pub closed spec fn settings(&self) -> Seq<Setting> {
        self.settings@
    }

    /// Well-formedness: setting names are unique.
    pub open spec fn inv(&self) -> bool {
        forall|i: int, j: int|
            0 <= i < j < self.settings().len() ==> (#[trigger] self.settings()[i]).name@ != (
            #[trigger] self.settings()[j]).name@
    }

    /// Creates an empty configuration.
    pub fn new() -> (r: Configuration)
        ensures
            r.settings().len() == 0,
            r.inv(),
    {
        Configuration { settings: Vec::new() }
    }

    /// The position of the setting carrying a name, if one exists.
    fn find_index(&self, name: &String) -> (r: Option<usize>)
        ensures
            match r {
                Some(i) => i < self.settings().len() && setting_lookup(self.settings(), name@)
                    == Some(self.settings()[i as int].value@) && self.settings()[i as int].name@
                    == name@,
                None => setting_lookup(self.settings(), name@) is None,
            },
    {
        let n = self.settings.len();
        let mut i: usize = 0;
        proof {
            assert(self.settings().skip(0) =~= self.settings());
        }
        while i < n
            invariant
                n == self.settings().len(),
                0 <= i <= n,
                setting_lookup(self.settings(), name@) == setting_lookup(
                    self.settings().skip(i as int),
                    name@,
                ),
            decreases n - i,
        {
            if self.settings[i].name.eq(name) {
                proof {
                    assert(self.settings().skip(i as int)[0] == self.settings()[i as int]);
                }
                return Some(i);
            }
            proof {
                assert(self.settings().skip(i as int).drop_first() =~= self.settings().skip(i + 1));
            }
            i = i + 1;
        }
        proof {
            assert(self.settings().skip(n as int) =~= Seq::<Setting>::empty());
        }
        None
    }

    /// Stores a setting, replacing any value the name already has.
    pub fn set_setting(&mut self, name: &str, value: &str)
        requires
            old(self).inv(),
        ensures
            final(self).inv(),
            forall|probe: Seq<char>|
                #![trigger setting_lookup(final(self).settings(), probe)]
                setting_lookup(final(self).settings(), probe) == (if probe == name@ {
                    Some(value@)
                } else {
                    setting_lookup(old(self).settings(), probe)
                }),
    {
        let owned_name = name.to_owned();
        let entry = Setting { name: name.to_owned(), value: value.to_owned() };
        match self.find_index(&owned_name) {
            Some(i) => {
                self.settings.remove(i);
                self.settings.insert(i, entry);
                proof {
                    assert forall|a: int, b: int|
                        0 <= a < b < self.settings().len() implies (#[trigger] self.settings()[a]).name@
                        != (#[trigger] self.settings()[b]).name@ by {
                        if a != i && b != i {
                            assert(self.settings()[a] == old(self).settings()[a]);
                            assert(self.settings()[b] == old(self).settings()[b]);
                        } else if a == i {
                            assert(self.settings()[b] == old(self).settings()[b]);
                            assert(old(self).settings()[i as int].name@ == name@);
                        } else {
                            assert(self.settings()[a] == old(self).settings()[a]);
                            assert(old(self).settings()[i as int].name@ == name@);
                        }
                    }
                    assert forall|probe: Seq<char>|
                        #![trigger setting_lookup(self.settings(), probe)]
                        setting_lookup(self.settings(), probe) == (if probe == name@ {
                            Some(value@)
                        } else {
                            setting_lookup(old(self).settings(), probe)
                        }) by {
                        lemma_setting_lookup_replace(
                            old(self).settings(),
                            self.settings(),
                            i as int,
                            probe,
                        );
                    }
                }
            },
            None => {
                proof {
                    lemma_setting_lookup_no_entry(self.settings(), owned_name@);
                }
                self.settings.push(entry);
                proof {
                    assert forall|a: int, b: int|
                        0 <= a < b < self.settings().len() implies (#[trigger] self.settings()[a]).name@
                        != (#[trigger] self.settings()[b]).name@ by {
                        if b < self.settings().len() - 1 {
                            assert(self.settings()[a] == old(self).settings()[a]);
                            assert(self.settings()[b] == old(self).settings()[b]);
                        } else {
                            assert(self.settings()[a] == old(self).settings()[a]);
                        }
                    }
                    assert forall|probe: Seq<char>|
                        #![trigger setting_lookup(self.settings(), probe)]
                        setting_lookup(self.settings(), probe) == (if probe == name@ {
                            Some(value@)
                        } else {
                            setting_lookup(old(self).settings(), probe)
                        }) by {
                        lemma_setting_lookup_push(old(self).settings(), self.settings().last(), probe);
                    }
                }
            },
        }
    }

    /// Clears all settings in the configuration.
    pub fn clear_settings(&mut self)
        ensures
            final(self).settings().len() == 0,
            final(self).inv(),
    {
        self.settings.clear();
    }

    /// Checks if a setting exists in the configuration.
    pub fn has_setting(&self, name: &str) -> (r: bool)
        ensures
            r == (setting_lookup(self.settings(), name@) is Some),
    {
        let owned = name.to_owned();
        self.find_index(&owned).is_some()
    }

    /// Gets all settings in the configuration, in insertion order.
    pub fn get_all_settings(&self) -> (r: &Vec<Setting>)
        ensures
            r@ == self.settings(),
    {
        &self.settings
    }

    /// Gets the number of settings in the configuration.
    pub fn len(&self) -> (r: usize)
        ensures
            r == self.settings().len(),
    {
        self.settings.len()
    }

    /// The raw value of a setting, if it exists.
    pub fn get_setting(&self, name: &str) -> (r: Option<&String>)
        ensures
            match r {
                Some(v) => setting_lookup(self.settings(), name@) == Some(v@),
                None => setting_lookup(self.settings(), name@) is None,
            },
    {
        let owned = name.to_owned();
        match self.find_index(&owned) {
            Some(i) => Some(&self.settings[i].value),
            None => None,
        }
    }

    /// Merges another configuration into this one: on names both hold, the
    /// other's value wins.
    pub fn merge(&mut self, other: &Configuration)
        requires
            old(self).inv(),
            other.inv(),
        ensures
            final(self).inv(),
            forall|probe: Seq<char>|
                #![trigger setting_lookup(final(self).settings(), probe)]
                setting_lookup(final(self).settings(), probe) == (match setting_lookup(
                    other.settings(),
                    probe,
                ) {
                    Some(v) => Some(v),
                    None => setting_lookup(old(self).settings(), probe),
                }),
    {
        let n = other.settings.len();
        let mut i: usize = 0;
        proof {
            assert(other.settings().take(0) =~= Seq::<Setting>::empty());
        }
        while i < n
            invariant
                self.inv(),
                other.inv(),
                n == other.settings().len(),
                0 <= i <= n,
                forall|probe: Seq<char>|
                    #![trigger setting_lookup(self.settings(), probe)]
                    setting_lookup(self.settings(), probe) == (match setting_lookup(
                        other.settings().take(i as int),
                        probe,
                    ) {
                        Some(v) => Some(v),
                        None => setting_lookup(old(self).settings(), probe),
                    }),
            decreases n - i,
        {
            let entry = &other.settings[i];
            let ghost before = self.settings();
            self.set_setting(entry.name.as_str(), entry.value.as_str());
            proof {
                assert forall|probe: Seq<char>|
                    #![trigger setting_lookup(self.settings(), probe)]
                    setting_lookup(self.settings(), probe) == (match setting_lookup(
                        other.settings().take(i + 1 as int),
                        probe,
                    ) {
                        Some(v) => Some(v),
                        None => setting_lookup(old(self).settings(), probe),
                    }) by {
                    lemma_setting_lookup_push(
                        other.settings().take(i as int),
                        other.settings()[i as int],
                        probe,
                    );
                    assert(other.settings().take(i + 1 as int) =~= other.settings().take(
                        i as int,
                    ).push(other.settings()[i as int]));
                    if probe == other.settings()[i as int].name@ {
                        lemma_unique_names_prefix_misses(other.settings(), i as int);
                    }
                }
            }
            i = i + 1;
        }
        proof {
            assert(other.settings().take(n as int) =~= other.settings());
        }
    }

    /// Validates the configuration; every stored setting is acceptable as
    /// raw text.
    pub fn validate(&self) -> (r: bool)
        ensures
            r,
    {
        true
    }

    /// Applies the configuration to the surrounding system; the values are
    /// read by the callers that hold them, so nothing is recorded here.
    pub fn apply(&self) {
    }

    /// Parses a configuration setting as an integer.
    pub fn parse_int(&self, name: &str) -> (r: Option<i32>)
        ensures
            r == (match setting_lookup(self.settings(), name@) {
                Some(v) => parse_i32_spec(v),
                None => None,
            }),
    {
        match self.get_setting(name) {
            Some(value) => parse_i32(value.as_str()),
            None => None,
        }
    }

    /// Parses a configuration setting as a boolean.
    pub fn parse_bool(&self, name: &str) -> (r: Option<bool>)
        ensures
            r == (match setting_lookup(self.settings(), name@) {
                Some(v) => parse_bool_spec(v),
                None => None,
            }),
    {
        match self.get_setting(name) {
            Some(value) => parse_bool(value.as_str()),
            None => None,
        }
    }
}

/// A failure while reading or checking a configuration.
#[derive(Debug)]
pub enum ConfigurationError {
    /// A setting whose value does not parse; carries the raw value.
    InvalidValue(String),
    /// A setting that the configuration does not hold; carries its name.
    MissingSetting(String),
    /// A failure of the surrounding file layer, described in words.
    FileError(String),
    /// A validation that failed; carries the reason.
    ValidationFailed(String),
}

/// Parses a setting value as an integer, reporting the offending value on
/// failure.
pub fn parse_setting(value: &str) -> (r: Result<i32, ConfigurationError>)
    ensures
        r matches Ok(v) ==> parse_i32_spec(value@) == Some(v),
        r is Err <==> parse_i32_spec(value@) is None,
        r matches Err(e) ==> (e matches ConfigurationError::InvalidValue(m) && m@ == value@),
{
    match parse_i32(value) {
        Some(v) => Ok(v),
        None => Err(ConfigurationError::InvalidValue(value.to_owned())),
    }
}

/// Validates a configuration: if it holds a port setting, that setting
/// must parse as an integer.
pub fn validate_configuration(config: &Configuration) -> (r: Result<(), ConfigurationError>)
    ensures
        r is Ok <==> (match setting_lookup(config.settings(), "port"@) {
            Some(v) => parse_i32_spec(v) is Some,
            None => true,
        }),
        r matches Err(e) ==> (e matches ConfigurationError::ValidationFailed(m) && m@
            == "Invalid port value"@),
{
    match config.get_setting("port") {
        Some(value) => {
            match parse_setting(value.as_str()) {
                Ok(_) => Ok(()),
                Err(_) => Err(
                    ConfigurationError::ValidationFailed(String::from_str("Invalid port value")),
                ),
            }
        },
        None => Ok(()),
    }
}

/// If the scan finds nothing, no entry carries the name.
proof fn lemma_setting_lookup_no_entry(settings: Seq<Setting>, name: Seq<char>)
    requires
        setting_lookup(settings, name) is None,
    ensures
        forall|j: int| 0 <= j < settings.len() ==> (#[trigger] settings[j]).name@ != name,
    decreases settings.len(),
{
    if settings.len() > 0 {
        lemma_setting_lookup_no_entry(settings.drop_first(), name);
        assert forall|j: int| 0 <= j < settings.len() implies (#[trigger] settings[j]).name@
            != name by {
            if j > 0 {
                assert(settings[j] == settings.drop_first()[j - 1]);
            }
        }
    }
}

/// With unique names, no entry before position `i` carries the name of the
/// entry at `i`.
proof fn lemma_unique_names_prefix_misses(settings: Seq<Setting>, i: int)
    requires
        0 <= i < settings.len(),
        forall|a: int, b: int|
            0 <= a < b < settings.len() ==> (#[trigger] settings[a]).name@ != (
            #[trigger] settings[b]).name@,
    ensures
        setting_lookup(settings.take(i), settings[i].name@) is None,
    decreases i,
{
    if i > 0 {
        assert(settings.take(i)[0] == settings[0]);
        assert(settings[0].name@ != settings[i].name@);
        assert(settings.take(i).drop_first() =~= settings.drop_first().take(i - 1));
        assert forall|a: int, b: int|
            0 <= a < b < settings.drop_first().len() implies (#[trigger] settings.drop_first()[a]).name@
            != (#[trigger] settings.drop_first()[b]).name@ by {
            assert(settings.drop_first()[a] == settings[a + 1]);
            assert(settings.drop_first()[b] == settings[b + 1]);
        }
        assert(settings.drop_first()[i - 1] == settings[i]);
        lemma_unique_names_prefix_misses(settings.drop_first(), i - 1);
    } else {
        assert(settings.take(0) =~= Seq::<Setting>::empty());
    }
}

/// Replacing the entry at `i` with one carrying the same name changes the
/// scan only on that name.
proof fn lemma_setting_lookup_replace(
    before: Seq<Setting>,
    after: Seq<Setting>,
    i: int,
    probe: Seq<char>,
)
    requires
        0 <= i < before.len(),
        after.len() == before.len(),
        after[i].name@ == before[i].name@,
        forall|j: int| 0 <= j < before.len() && j != i ==> #[trigger] after[j] == before[j],
        forall|a: int, b: int|
            0 <= a < b < before.len() ==> (#[trigger] before[a]).name@ != (#[trigger] before[b]).name@,
    ensures
        setting_lookup(after, probe) == (if probe == before[i].name@ {
            Some(after[i].value@)
        } else {
            setting_lookup(before, probe)
        }),
    decreases i,
{
    if before.len() > 0 {
        if i == 0 {
            assert(after[0].name@ == before[0].name@);
            if probe == before[0].name@ {
            } else {
                assert(after.drop_first() =~= before.drop_first());
            }
        } else {
            assert(after[0] == before[0]);
            if probe == before[0].name@ {
                assert(before[0].name@ != before[i].name@);
            } else {
                assert forall|j: int|
                    0 <= j < before.drop_first().len() && j != i - 1 implies #[trigger] after.drop_first()[j]
                    == before.drop_first()[j] by {
                    assert(after.drop_first()[j] == after[j + 1]);
                    assert(before.drop_first()[j] == before[j + 1]);
                }
                assert forall|a: int, b: int|
                    0 <= a < b < before.drop_first().len() implies (#[trigger] before.drop_first()[a]).name@
                    != (#[trigger] before.drop_first()[b]).name@ by {
                    assert(before.drop_first()[a] == before[a + 1]);
                    assert(before.drop_first()[b] == before[b + 1]);
                }
                assert(after.drop_first()[i - 1].name@ == before.drop_first()[i - 1].name@);
                lemma_setting_lookup_replace(
                    before.drop_first(),
                    after.drop_first(),
                    i - 1,
                    probe,
                );
                assert(before.drop_first()[i - 1] == before[i]);
            }
        }
    }
}

} // verus!
