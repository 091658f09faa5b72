//! The traversal driver: one parsed file at a time into the shared catalog.
use vstd::prelude::*;
use crate::config::{
    config_of, function_entries, functions_of, get_field, get_pattern_vec, json_field, pattern_vec,
    patterns_of,
    Json, WalkerPatterns,
};
use crate::registry::{config_valid, entry_function, ConfigError, Registry};
use crate::visitor::strings_view;
use crate::syntax::{CallSite, Module};
use crate::visitor::Visitor;

verus! {

/// Drives extraction over a sequence of parsed files.
pub struct Navigator {
    pub visitor: Visitor,
}

impl Navigator {
    /// A driver with an empty catalog, dispatching on `functions`.
    pub fn new(functions: Registry) -> (r: Navigator)
        ensures
            r.visitor@ == crate::model::VisitorModel::empty(),
            r.visitor.functions == functions,
            r.visitor@.inv(),
    {
        Navigator { visitor: Visitor::new(functions) }
    }

    /// Reads a configuration document: installs its function table, which
    /// replaces the current one wholesale, and returns the base directory and
    /// the string items of the pattern lists named by `pattern_keys`, in key
    /// order. The function table, each pattern list and the `base` are
    /// checked in that order, and the first that is missing or malformed is
    /// the error; on an error the driver is left as it was.
    pub fn get_walker_config(&mut self, json: &Json, pattern_keys: &Vec<String>) -> (r: Result<
        WalkerPatterns,
        ConfigError,
    >)
        ensures
            final(self).visitor@ == old(self).visitor@,
            match r {
                Ok(p) => {
                    &&& functions_of(*json) is Some
                    &&& config_valid(config_of(functions_of(*json).unwrap()))
                    &&& final(self).visitor.functions.entries@.len() == functions_of(
                        *json,
                    ).unwrap().len()
                    &&& forall|i: int|
                        0 <= i < functions_of(*json).unwrap().len() ==> {
                            &&& (#[trigger] final(self).visitor.functions.entries@[i]).0
                                == functions_of(*json).unwrap()[i].0
                            &&& final(self).visitor.functions.entries@[i].1 == entry_function(
                                config_of(functions_of(*json).unwrap())[i],
                            )
                        }
                    &&& patterns_of(*json, strings_view(pattern_keys@)) == Some(
                        strings_view(p.patterns@),
                    )
                    &&& json_field(*json, "base"@) == Some(Json::Str(p.base))
                },
                Err(e) => {
                    &&& final(self).visitor.functions == old(self).visitor.functions
                    &&& match e {
                        ConfigError::MissingFunctions => functions_of(*json) is None,
                        ConfigError::MissingText(name) => {
                            &&& functions_of(*json) is Some
                            &&& exists|i: int|
                                0 <= i < functions_of(*json).unwrap().len() && (
                                #[trigger] config_of(functions_of(*json).unwrap())[i]).1 is None
                                    && functions_of(*json).unwrap()[i].0@ == name@
                                    && config_valid(
                                    config_of(functions_of(*json).unwrap()).take(i),
                                )
                        },
                        ConfigError::MissingPatterns(key) => {
                            &&& functions_of(*json) is Some
                            &&& config_valid(config_of(functions_of(*json).unwrap()))
                            &&& exists|i: int|
                                0 <= i < pattern_keys@.len() && patterns_of(
                                    *json,
                                    strings_view(pattern_keys@).take(i),
                                ) is Some && pattern_vec(*json, #[trigger] pattern_keys@[i]@)
                                    is None && pattern_keys@[i]@ == key@
                        },
                        ConfigError::MissingBase => {
                            &&& functions_of(*json) is Some
                            &&& config_valid(config_of(functions_of(*json).unwrap()))
                            &&& patterns_of(*json, strings_view(pattern_keys@)) is Some
                            &&& !(json_field(*json, "base"@) matches Some(Json::Str(_)))
                        },
                    }
                },
            },
    {
        let members = match get_field(json, "functions") {
            Some(Json::Object(members)) => members,
            _ => {
                return Err(ConfigError::MissingFunctions);
            },
        };
        let functions = match Registry::from_config(function_entries(members)) {
            Ok(functions) => functions,
            Err(e) => {
                return Err(e);
            },
        };
        assert forall|i: int| 0 <= i < members@.len() implies (
        #[trigger] functions.entries@[i]).0 == members@[i].0 by {
            assert(config_of(members@)[i].0 == members@[i].0);
        }
        let ghost keys = strings_view(pattern_keys@);
        let mut patterns: Vec<String> = Vec::new();
        let mut k: usize = 0;
        assert(keys.take(0) =~= Seq::<Seq<char>>::empty());
        assert(strings_view(patterns@) =~= Seq::<Seq<char>>::empty());
        while k < pattern_keys.len()
            invariant
                k <= pattern_keys@.len(),
                keys == strings_view(pattern_keys@),
                patterns_of(*json, keys.take(k as int)) == Some(strings_view(patterns@)),
                self.visitor == old(self).visitor,
                functions_of(*json) == Some(members@),
                config_valid(config_of(members@)),
                functions.entries@.len() == members@.len(),
                forall|i: int|
                    0 <= i < members@.len() ==> {
                        &&& (#[trigger] functions.entries@[i]).0 == members@[i].0
                        &&& functions.entries@[i].1 == entry_function(config_of(members@)[i])
                    },
            decreases pattern_keys@.len() - k,
        {
            assert(keys.take(k + 1).drop_last() =~= keys.take(k as int));
            assert(keys.take(k + 1).last() == pattern_keys@[k as int]@);
            let mut items = match get_pattern_vec(json, pattern_keys[k].as_str()) {
                Some(items) => items,
                None => {
                    return Err(ConfigError::MissingPatterns(pattern_keys[k].clone()));
                },
            };
            let ghost front = patterns@;
            let ghost last = items@;
            patterns.append(&mut items);
            assert(strings_view(patterns@) =~= strings_view(front) + strings_view(last));
            k = k + 1;
        }
        assert(keys.take(k as int) =~= keys);
        let base = match get_field(json, "base") {
            Some(Json::Str(b)) => b.clone(),
            _ => {
                return Err(ConfigError::MissingBase);
            },
        };
        self.visitor.functions = functions;
        Ok(WalkerPatterns { base, patterns })
    }

    /// Configuration from the command line: installs the default function
    /// table and returns the base directory with the selecting patterns
    /// followed by the excluding ones.
    pub fn get_walker_config_from_args(
        &mut self,
        base: String,
        selected: Vec<String>,
        excluded: Vec<String>,
    ) -> (r: WalkerPatterns)
        ensures
            final(self).visitor@ == old(self).visitor@,
            final(self).visitor.functions.entries@.len() == 4,
            final(self).visitor.functions.entries@[0].0@ == "gettext"@,
            final(self).visitor.functions.entries@[1].0@ == "ngettext"@,
            final(self).visitor.functions.entries@[2].0@ == "pgettext"@,
            final(self).visitor.functions.entries@[3].0@ == "npgettext"@,
            r.base == base,
            strings_view(r.patterns@) == strings_view(selected@) + strings_view(excluded@),
    {
        let mut patterns = selected;
        let mut excluded = excluded;
        let ghost front = patterns@;
        let ghost last = excluded@;
        patterns.append(&mut excluded);
        assert(strings_view(patterns@) =~= strings_view(front) + strings_view(last));
        self.visitor.functions = Registry::defaults();
        WalkerPatterns { base, patterns }
    }

    /// Processes one parsed file found at `path`: counts it as parsed, makes
    /// it the current file, and evaluates its call nodes in walk order.
    pub fn parse(&mut self, module: &Module, path: String)
        requires
            old(self).visitor@.inv(),
            old(self).visitor.stats.files_parsed < usize::MAX,
            old(self).visitor.stats.usages + module.calls@.len() <= usize::MAX,
        ensures
            final(self).visitor@ == old(self).visitor@.parse_file(
                module.calls@,
                path@,
                old(self).visitor.functions,
            ),
            final(self).visitor.functions == old(self).visitor.functions,
            final(self).visitor@.inv(),
    {
        let ghost reg = self.visitor.functions;
        let ghost calls: Seq<CallSite> = module.calls@;
        self.visitor.stats.files_parsed = self.visitor.stats.files_parsed + 1;
        self.visitor.current_file = path;
        let ghost start = self.visitor@;
        let ghost start_usages = self.visitor.stats.usages;
        let mut i: usize = 0;
        assert(calls.take(0) =~= Seq::<CallSite>::empty());
        while i < module.calls.len()
            invariant
                i <= calls.len(),
                calls == module.calls@,
                self.visitor.functions == reg,
                self.visitor@.inv(),
                self.visitor@ == start.visit_calls(calls.take(i as int), reg),
                self.visitor.stats.usages <= start_usages + i,
                start_usages + calls.len() <= usize::MAX,
            decreases calls.len() - i,
        {
            assert(calls.take(i + 1).drop_last() =~= calls.take(i as int));
            assert(calls.take(i + 1).last() == calls[i as int]);
            self.visitor.visit_call_expr(&module.calls[i]);
            i = i + 1;
        }
        assert(calls.take(i as int) =~= calls);
    }
}

} // verus!
