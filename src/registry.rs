//! The signature registry: for each translation function, the argument
//! positions that hold the message text, its context and its plural form.
use vstd::prelude::*;

verus! {

/// Where the fields of a message stand among a translation function's arguments.
#[derive(Clone, Copy, Debug, PartialEq, Eq)]
pub struct Function {
    /// Position of the message text; always configured.
    pub text: usize,
    /// Position of the disambiguation context, if the function takes one.
    pub context: Option<usize>,
    /// Position of the plural form, if the function takes one.
    pub plural: Option<usize>,
}

/// Why a configured table of functions could not be loaded.
#[derive(Debug, PartialEq, Eq)]
pub enum ConfigError {
    /// The entry of the named function gives no text position.
    MissingText(String),
    /// The document has no `functions` object.
    MissingFunctions,
    /// The named pattern list is missing or is no array.
    MissingPatterns(String),
    /// The document has no `base` string.
    MissingBase,
}

/// An immutable table from function name to signature.
pub struct Registry {
    pub entries: Vec<(String, Function)>,
}

/// One entry of a configuration table before validation: a function name and
/// the text, context and plural positions, each possibly absent.
pub type ConfigEntry = (String, Option<usize>, Option<usize>, Option<usize>);

/// The signature registered under `name`; a later entry for the same name
/// replaces an earlier one.
pub open spec fn lookup_in(entries: Seq<(String, Function)>, name: Seq<char>) -> Option<Function>
    decreases entries.len(),
{
    if entries.len() == 0 {
        None
    } else if entries.last().0@ == name {
        Some(entries.last().1)
    } else {
        lookup_in(entries.drop_last(), name)
    }
}

/// The signature that a validated configuration entry stands for.
pub open spec fn entry_function(e: ConfigEntry) -> Function {
    Function { text: e.1.unwrap(), context: e.2, plural: e.3 }
}

/// Whether a sequence of configuration entries all give a text position.
pub open spec fn config_valid(entries: Seq<ConfigEntry>) -> bool {
    forall|i: int| 0 <= i < entries.len() ==> (#[trigger] entries[i]).1 is Some
}

impl Registry {
    pub open spec fn lookup_spec(&self, name: Seq<char>) -> Option<Function> {
        lookup_in(self.entries@, name)
    }

    /// The built-in table: `gettext`, `ngettext`, `pgettext` and `npgettext`.
    pub fn defaults() -> (r: Registry)
        ensures
            r.entries@.len() == 4,
            r.entries@[0].0@ == "gettext"@,
            r.entries@[0].1 == (Function { text: 0, context: None, plural: None }),
            r.entries@[1].0@ == "ngettext"@,
            r.entries@[1].1 == (Function { text: 0, context: None, plural: Some(1) }),
            r.entries@[2].0@ == "pgettext"@,
            r.entries@[2].1 == (Function { text: 1, context: Some(0), plural: None }),
            r.entries@[3].0@ == "npgettext"@,
            r.entries@[3].1 == (Function { text: 1, context: Some(0), plural: Some(2) }),
    {
        let mut entries: Vec<(String, Function)> = Vec::new();
        entries.push(("gettext".to_owned(), Function { text: 0, context: None, plural: None }));
        entries.push(
            ("ngettext".to_owned(), Function { text: 0, context: None, plural: Some(1) }),
        );
        entries.push(
            ("pgettext".to_owned(), Function { text: 1, context: Some(0), plural: None }),
        );
        entries.push(
            ("npgettext".to_owned(), Function { text: 1, context: Some(0), plural: Some(2) }),
        );
        Registry { entries }
    }

    /// Loads a configured table, which replaces the defaults wholesale. Fails
    /// on the first entry that gives no text position.
    pub fn from_config(config: Vec<ConfigEntry>) -> (r: Result<Registry, ConfigError>)
        ensures
            match r {
                Ok(reg) => config_valid(config@) && reg.entries@.len() == config@.len() && (
                forall|i: int|
                    0 <= i < config@.len() ==> {
                        &&& (#[trigger] reg.entries@[i]).0 == config@[i].0
                        &&& reg.entries@[i].1 == entry_function(config@[i])
                    }),
                Err(ConfigError::MissingText(name)) => exists|i: int|
                    0 <= i < config@.len() && (#[trigger] config@[i]).1 is None && config@[i].0@
                        == name@ && config_valid(config@.take(i)),
                Err(_) => false,
            },
    {
        let mut entries: Vec<(String, Function)> = Vec::new();
        let mut i: usize = 0;
        while i < config.len()
            invariant
                i <= config@.len(),
                entries@.len() == i,
                config_valid(config@.take(i as int)),
                forall|j: int|
                    0 <= j < i ==> {
                        &&& (#[trigger] entries@[j]).0 == config@[j].0
                        &&& entries@[j].1 == entry_function(config@[j])
                    },
            decreases config@.len() - i,
        {
            let name = config[i].0.clone();
            match config[i].1 {
                Some(text) => {
                    entries.push((name, Function { text, context: config[i].2, plural: config[i].3 }));
                },
                None => {
                    return Err(ConfigError::MissingText(name));
                },
            }
            assert(config@.take(i + 1) =~= config@.take(i as int).push(config@[i as int]));
            i = i + 1;
        }
        assert(config@.take(i as int) =~= config@);
        Ok(Registry { entries })
    }

    /// The signature registered under `name`, if any.
    pub fn lookup(&self, name: &String) -> (r: Option<Function>)
        ensures
            r == self.lookup_spec(name@),
    {
        let mut r: Option<Function> = None;
        let mut i: usize = 0;
        while i < self.entries.len()
            invariant
                i <= self.entries@.len(),
                r == lookup_in(self.entries@.take(i as int), name@),
            decreases self.entries@.len() - i,
        {
            assert(self.entries@.take(i + 1).drop_last() =~= self.entries@.take(i as int));
            if self.entries[i].0 == *name {
                r = Some(self.entries[i].1);
            }
            i = i + 1;
        }
        assert(self.entries@.take(i as int) =~= self.entries@);
        r
    }
}

} // verus!
