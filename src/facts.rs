//! Properties of every extraction run, proved over the model.
use vstd::prelude::*;
use crate::model::{catalog_insert, has_key, keys_unique, MessageView, VisitorModel};
use crate::registry::Registry;
use crate::syntax::{argument_at, CallSite};

verus! {

/// What every run keeps: unique keys, a message count equal to the number of
/// entries, and no more entries than accepted calls.
pub open spec fn run_facts(m: VisitorModel) -> bool {
    &&& keys_unique(m.catalog)
    &&& m.stats.messages == m.catalog.len()
    &&& m.stats.messages <= m.stats.usages
}

/// Whether a call is accepted under `reg`: its callee resolves to a
/// registered name and its text argument is a string literal.
pub open spec fn call_accepted(call: CallSite, reg: Registry) -> bool {
    match call.callee_name_spec() {
        Some(name) => match reg.lookup_spec(name) {
            Some(fun) => argument_at(call.args@, Some(fun.text)) is Some,
            None => false,
        },
        None => false,
    }
}

proof fn lemma_catalog_insert(
    cat: Seq<MessageView>,
    text: Seq<char>,
    plural: Option<Seq<char>>,
    context: Seq<char>,
    file: Seq<char>,
)
    requires
        keys_unique(cat),
    ensures
        keys_unique(catalog_insert(cat, text, plural, context, file)),
        catalog_insert(cat, text, plural, context, file).len() == if has_key(cat, context, text) {
            cat.len()
        } else {
            cat.len() + 1
        },
{
    let r = catalog_insert(cat, text, plural, context, file);
    if has_key(cat, context, text) {
        let i = choose|i: int|
            0 <= i < cat.len() && #[trigger] cat[i].context == context && cat[i].text == text;
        assert forall|a: int| 0 <= a < r.len() implies #[trigger] r[a].context == cat[a].context
            && r[a].text == cat[a].text by {}
    } else {
        assert forall|a: int, b: int|
            0 <= a < r.len() && 0 <= b < r.len() && a != b implies !(#[trigger] r[a].context
                == #[trigger] r[b].context && r[a].text == r[b].text) by {
            if a == cat.len() {
                assert(!(cat[b].context == context && cat[b].text == text));
            } else if b == cat.len() {
                assert(!(cat[a].context == context && cat[a].text == text));
            }
        }
    }
}

proof fn lemma_visit_call(m: VisitorModel, call: CallSite, reg: Registry)
    requires
        run_facts(m),
    ensures
        run_facts(m.visit_call(call, reg)),
        !call_accepted(call, reg) ==> m.visit_call(call, reg) == m,
{
    if let Some(name) = call.callee_name_spec() {
        if let Some(fun) = reg.lookup_spec(name) {
            if let Some(text) = argument_at(call.args@, Some(fun.text)) {
                let context = match argument_at(call.args@, fun.context) {
                    Some(c) => c,
                    None => Seq::empty(),
                };
                lemma_catalog_insert(
                    m.catalog,
                    text,
                    argument_at(call.args@, fun.plural),
                    context,
                    m.current_file,
                );
            }
        }
    }
}

proof fn lemma_visit_calls(m: VisitorModel, calls: Seq<CallSite>, reg: Registry)
    requires
        run_facts(m),
    ensures
        run_facts(m.visit_calls(calls, reg)),
        (forall|i: int| 0 <= i < calls.len() ==> !call_accepted(#[trigger] calls[i], reg))
            ==> m.visit_calls(calls, reg) == m,
    decreases calls.len(),
{
    if calls.len() > 0 {
        let prefix = calls.drop_last();
        lemma_visit_calls(m, prefix, reg);
        lemma_visit_call(m.visit_calls(prefix, reg), calls.last(), reg);
        if forall|i: int| 0 <= i < calls.len() ==> !call_accepted(#[trigger] calls[i], reg) {
            assert forall|i: int| 0 <= i < prefix.len() implies !call_accepted(
                #[trigger] prefix[i],
                reg,
            ) by {
                assert(prefix[i] == calls[i]);
            }
            assert(!call_accepted(calls[calls.len() - 1], reg));
        }
    }
}

proof fn lemma_parse_files(
    m: VisitorModel,
    files: Seq<(Seq<CallSite>, Seq<char>)>,
    reg: Registry,
)
    requires
        run_facts(m),
    ensures
        run_facts(m.parse_files(files, reg)),
    decreases files.len(),
{
    if files.len() > 0 {
        lemma_parse_files(m, files.drop_last(), reg);
        let before = m.parse_files(files.drop_last(), reg);
        let start = VisitorModel {
            current_file: files.last().1,
            stats: crate::model::StatsView {
                files_parsed: before.stats.files_parsed + 1,
                ..before.stats
            },
            ..before
        };
        lemma_visit_calls(start, files.last().0, reg);
    }
}

/// Over any run from the empty state, the number of accepted calls is at
/// least the number of catalog entries.
pub proof fn lemma_usages_cover_messages(files: Seq<(Seq<CallSite>, Seq<char>)>, reg: Registry)
    ensures
        VisitorModel::empty().parse_files(files, reg).stats.usages
            >= VisitorModel::empty().parse_files(files, reg).stats.messages,
{
    lemma_parse_files(VisitorModel::empty(), files, reg);
}

/// Over any run from the empty state, no two catalog entries share their
/// (context, text) pair.
pub proof fn lemma_catalog_keys_unique(files: Seq<(Seq<CallSite>, Seq<char>)>, reg: Registry)
    ensures
        keys_unique(VisitorModel::empty().parse_files(files, reg).catalog),
{
    lemma_parse_files(VisitorModel::empty(), files, reg);
}

/// A file none of whose calls is accepted is counted as parsed, and leaves
/// the catalog, the files with messages and every other count unchanged.
pub proof fn lemma_file_without_matches(
    m: VisitorModel,
    calls: Seq<CallSite>,
    path: Seq<char>,
    reg: Registry,
)
    requires
        run_facts(m),
        forall|i: int| 0 <= i < calls.len() ==> !call_accepted(#[trigger] calls[i], reg),
    ensures
        m.parse_file(calls, path, reg).stats.files_parsed == m.stats.files_parsed + 1,
        m.parse_file(calls, path, reg).stats.files_with_messages == m.stats.files_with_messages,
        m.parse_file(calls, path, reg).visited == m.visited,
        m.parse_file(calls, path, reg).catalog == m.catalog,
        m.parse_file(calls, path, reg).stats.usages == m.stats.usages,
{
    let start = VisitorModel {
        current_file: path,
        stats: crate::model::StatsView { files_parsed: m.stats.files_parsed + 1, ..m.stats },
        ..m
    };
    lemma_visit_calls(start, calls, reg);
}

/// Two runs from the empty state over the same registry and the same
/// sequence of files end in the same catalog and statistics.
pub proof fn lemma_runs_deterministic(
    files1: Seq<(Seq<CallSite>, Seq<char>)>,
    files2: Seq<(Seq<CallSite>, Seq<char>)>,
    reg: Registry,
)
    requires
        files1 == files2,
    ensures
        VisitorModel::empty().parse_files(files1, reg) == VisitorModel::empty().parse_files(
            files2,
            reg,
        ),
{
}

} // verus!
