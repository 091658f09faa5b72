//! The mathematical model of the catalog and its statistics, and the
//! transitions that extraction makes on it.
use vstd::prelude::*;
use crate::registry::{Function, Registry};
use crate::syntax::{argument_at, CallSite};

verus! {

/// A catalog entry: its text, plural form, context, and the files that
/// reference it, each listed once, in order of first reference.
pub struct MessageView {
    pub text: Seq<char>,
    pub plural: Option<Seq<char>>,
    pub context: Seq<char>,
    pub references: Seq<Seq<char>>,
}

/// The statistics kept beside the catalog.
pub struct StatsView {
    pub messages: nat,
    pub plural: nat,
    pub usages: nat,
    pub context: nat,
    pub files_parsed: nat,
    pub files_with_messages: nat,
    /// Accepted calls per function name, each name listed once.
    pub usage_breakdown: Seq<(Seq<char>, nat)>,
}

/// The whole extraction state: the catalog in order of first insertion, the
/// contexts in order of first use, the file being walked, the files that
/// produced at least one message, and the statistics.
pub struct VisitorModel {
    pub catalog: Seq<MessageView>,
    pub contexts: Seq<Seq<char>>,
    pub current_file: Seq<char>,
    pub visited: Seq<Seq<char>>,
    pub stats: StatsView,
}

/// Whether the catalog holds an entry with this context and text.
pub open spec fn has_key(cat: Seq<MessageView>, context: Seq<char>, text: Seq<char>) -> bool {
    exists|i: int| 0 <= i < cat.len() && #[trigger] cat[i].context == context && cat[i].text == text
}

/// Whether some entry of the catalog has this context.
pub open spec fn context_used(cat: Seq<MessageView>, context: Seq<char>) -> bool {
    exists|i: int| 0 <= i < cat.len() && #[trigger] cat[i].context == context
}

/// No two entries of the catalog share their (context, text) pair.
pub open spec fn keys_unique(cat: Seq<MessageView>) -> bool {
    forall|i: int, j: int|
        0 <= i < cat.len() && 0 <= j < cat.len() && i != j ==> !(#[trigger] cat[i].context
            == #[trigger] cat[j].context && cat[i].text == cat[j].text)
}

/// No element occurs twice.
pub open spec fn distinct<T>(s: Seq<T>) -> bool {
    forall|i: int, j: int| 0 <= i < s.len() && 0 <= j < s.len() && i != j ==> s[i] != s[j]
}

/// A set-like list with `x` added where it was missing.
pub open spec fn add_reference(refs: Seq<Seq<char>>, x: Seq<char>) -> Seq<Seq<char>> {
    if refs.contains(x) {
        refs
    } else {
        refs.push(x)
    }
}

/// Merges a candidate into the catalog: a new (context, text) pair becomes a
/// new entry referenced by `file`; an existing one only gains the reference,
/// and keeps the plural form of its first insertion.
pub open spec fn catalog_insert(
    cat: Seq<MessageView>,
    text: Seq<char>,
    plural: Option<Seq<char>>,
    context: Seq<char>,
    file: Seq<char>,
) -> Seq<MessageView> {
    if has_key(cat, context, text) {
        let i = choose|i: int| 0 <= i < cat.len() && #[trigger] cat[i].context == context && cat[i].text == text;
        cat.update(i, MessageView { references: add_reference(cat[i].references, file), ..cat[i] })
    } else {
        cat.push(MessageView { text, plural, context, references: seq![file] })
    }
}

/// Whether the breakdown holds a count for `name`.
pub open spec fn has_usage(b: Seq<(Seq<char>, nat)>, name: Seq<char>) -> bool {
    exists|i: int| 0 <= i < b.len() && #[trigger] b[i].0 == name
}

/// The position of `name` in a breakdown that holds it.
pub open spec fn usage_index(b: Seq<(Seq<char>, nat)>, name: Seq<char>) -> int {
    choose|i: int| 0 <= i < b.len() && #[trigger] b[i].0 == name
}

/// The breakdown with the count of `name` raised by one (from zero where absent).
pub open spec fn bump_usage(b: Seq<(Seq<char>, nat)>, name: Seq<char>) -> Seq<(Seq<char>, nat)> {
    if has_usage(b, name) {
        let i = usage_index(b, name);
        b.update(i, (name, (b[i].1 + 1) as nat))
    } else {
        b.push((name, 1nat))
    }
}

/// The count of `name` in a breakdown, zero where it is absent.
pub open spec fn usage_count(b: Seq<(Seq<char>, nat)>, name: Seq<char>) -> nat {
    if has_usage(b, name) {
        b[usage_index(b, name)].1
    } else {
        0
    }
}

/// The number of catalog entries that carry a plural form.
pub open spec fn plural_count(cat: Seq<MessageView>) -> nat
    decreases cat.len(),
{
    if cat.len() == 0 {
        0
    } else {
        plural_count(cat.drop_last()) + if cat.last().plural is Some {
            1nat
        } else {
            0nat
        }
    }
}

/// The sum of the counts of a breakdown.
pub open spec fn usage_total(b: Seq<(Seq<char>, nat)>) -> nat
    decreases b.len(),
{
    if b.len() == 0 {
        0
    } else {
        usage_total(b.drop_last()) + b.last().1
    }
}

/// Replacing an entry by one that has a plural form exactly when it had
/// one keeps the plural count.
pub proof fn lemma_plural_count_update(cat: Seq<MessageView>, i: int, m: MessageView)
    requires
        0 <= i < cat.len(),
        (m.plural is Some) == (cat[i].plural is Some),
    ensures
        plural_count(cat.update(i, m)) == plural_count(cat),
    decreases cat.len(),
{
    let u = cat.update(i, m);
    if i == cat.len() - 1 {
        assert(u.drop_last() =~= cat.drop_last());
    } else {
        assert(u.drop_last() =~= cat.drop_last().update(i, m));
        lemma_plural_count_update(cat.drop_last(), i, m);
    }
}

/// Adding an entry adds one to the plural count exactly when it has a plural form.
pub proof fn lemma_plural_count_push(cat: Seq<MessageView>, m: MessageView)
    ensures
        plural_count(cat.push(m)) == plural_count(cat) + if m.plural is Some {
            1nat
        } else {
            0nat
        },
{
    assert(cat.push(m).drop_last() =~= cat);
}

/// Raising one count by one raises the total by one.
pub proof fn lemma_usage_total_bump(b: Seq<(Seq<char>, nat)>, name: Seq<char>)
    ensures
        usage_total(bump_usage(b, name)) == usage_total(b) + 1,
{
    if has_usage(b, name) {
        lemma_usage_total_update(b, usage_index(b, name), name);
    } else {
        assert(bump_usage(b, name) == b.push((name, 1nat)));
        assert(b.push((name, 1nat)).drop_last() =~= b);
    }
}

proof fn lemma_usage_total_update(b: Seq<(Seq<char>, nat)>, i: int, name: Seq<char>)
    requires
        0 <= i < b.len(),
    ensures
        usage_total(b.update(i, (name, (b[i].1 + 1) as nat))) == usage_total(b) + 1,
    decreases b.len(),
{
    let u = b.update(i, (name, (b[i].1 + 1) as nat));
    if i == b.len() - 1 {
        assert(u.drop_last() =~= b.drop_last());
    } else {
        assert(u.drop_last() =~= b.drop_last().update(i, (name, (b[i].1 + 1) as nat)));
        lemma_usage_total_update(b.drop_last(), i, name);
    }
}

/// The names of a breakdown.
pub open spec fn usage_names(b: Seq<(Seq<char>, nat)>) -> Seq<Seq<char>> {
    b.map_values(|p: (Seq<char>, nat)| p.0)
}

impl VisitorModel {
    /// The state before any file: empty catalog and zero counts.
    pub open spec fn empty() -> VisitorModel {
        VisitorModel {
            catalog: Seq::empty(),
            contexts: Seq::empty(),
            current_file: Seq::empty(),
            visited: Seq::empty(),
            stats: StatsView {
                messages: 0,
                plural: 0,
                usages: 0,
                context: 0,
                files_parsed: 0,
                files_with_messages: 0,
                usage_breakdown: Seq::empty(),
            },
        }
    }

    /// The consistency of the catalog and the statistics kept beside it.
    pub open spec fn wf(self) -> bool {
        &&& keys_unique(self.catalog)
        &&& forall|i: int|
            0 <= i < self.catalog.len() ==> distinct((#[trigger] self.catalog[i]).references)
        &&& distinct(self.contexts)
        &&& forall|i: int|
            0 <= i < self.catalog.len() ==> self.contexts.contains(
                (#[trigger] self.catalog[i]).context,
            )
        &&& forall|k: int|
            0 <= k < self.contexts.len() ==> context_used(self.catalog, #[trigger] self.contexts[k])
        &&& distinct(self.visited)
        &&& distinct(usage_names(self.stats.usage_breakdown))
        &&& self.stats.messages == self.catalog.len()
        &&& self.stats.plural <= self.stats.messages
        &&& self.stats.plural == plural_count(self.catalog)
        &&& self.stats.usages == usage_total(self.stats.usage_breakdown)
        &&& self.stats.context == self.contexts.len()
        &&& self.stats.files_with_messages == self.visited.len()
        &&& forall|i: int|
            0 <= i < self.stats.usage_breakdown.len() ==> (
            #[trigger] self.stats.usage_breakdown[i]).1 <= self.stats.usages
    }

    /// `wf`, and no more messages than accepted calls.
    pub open spec fn inv(self) -> bool {
        self.wf() && self.stats.messages <= self.stats.usages
    }

    /// The catalog step of one accepted candidate, attributed to the current file.
    pub open spec fn insert_message(
        self,
        text: Seq<char>,
        plural: Option<Seq<char>>,
        context: Seq<char>,
    ) -> VisitorModel {
        let is_new = !has_key(self.catalog, context, text);
        let context_new = !self.contexts.contains(context);
        VisitorModel {
            catalog: catalog_insert(self.catalog, text, plural, context, self.current_file),
            contexts: if context_new {
                self.contexts.push(context)
            } else {
                self.contexts
            },
            stats: StatsView {
                messages: if is_new {
                    self.stats.messages + 1
                } else {
                    self.stats.messages
                },
                plural: if is_new && plural is Some {
                    self.stats.plural + 1
                } else {
                    self.stats.plural
                },
                context: if context_new {
                    self.stats.context + 1
                } else {
                    self.stats.context
                },
                ..self.stats
            },
            ..self
        }
    }

    /// One matched call of the function `name` with signature `fun`: rejected
    /// unchanged unless its text argument is a string literal; otherwise the
    /// usage is counted and the candidate merged into the catalog.
    pub open spec fn accept_call(self, name: Seq<char>, fun: Function, args: Seq<crate::syntax::Argument>) -> VisitorModel {
        match argument_at(args, Some(fun.text)) {
            None => self,
            Some(text) => {
                let visited = add_reference(self.visited, self.current_file);
                let counted = VisitorModel {
                    visited,
                    stats: StatsView {
                        usages: self.stats.usages + 1,
                        usage_breakdown: bump_usage(self.stats.usage_breakdown, name),
                        files_with_messages: visited.len(),
                        ..self.stats
                    },
                    ..self
                };
                counted.insert_message(
                    text,
                    argument_at(args, fun.plural),
                    match argument_at(args, fun.context) {
                        Some(c) => c,
                        None => Seq::empty(),
                    },
                )
            },
        }
    }

    /// One call node: dispatched on its resolved callee name, if registered.
    pub open spec fn visit_call(self, call: CallSite, reg: Registry) -> VisitorModel {
        match call.callee_name_spec() {
            Some(name) => match reg.lookup_spec(name) {
                Some(fun) => self.accept_call(name, fun, call.args@),
                None => self,
            },
            None => self,
        }
    }

    /// The call nodes of a file, in order.
    pub open spec fn visit_calls(self, calls: Seq<CallSite>, reg: Registry) -> VisitorModel
        decreases calls.len(),
    {
        if calls.len() == 0 {
            self
        } else {
            self.visit_calls(calls.drop_last(), reg).visit_call(calls.last(), reg)
        }
    }

    /// One parsed file at `path`: counted as parsed, then walked.
    pub open spec fn parse_file(self, calls: Seq<CallSite>, path: Seq<char>, reg: Registry) -> VisitorModel {
        VisitorModel {
            current_file: path,
            stats: StatsView { files_parsed: self.stats.files_parsed + 1, ..self.stats },
            ..self
        }.visit_calls(calls, reg)
    }

    /// A sequence of parsed files, each a list of call nodes and a path.
    pub open spec fn parse_files(self, files: Seq<(Seq<CallSite>, Seq<char>)>, reg: Registry) -> VisitorModel
        decreases files.len(),
    {
        if files.len() == 0 {
            self
        } else {
            self.parse_files(files.drop_last(), reg).parse_file(files.last().0, files.last().1, reg)
        }
    }
}

} // verus!
