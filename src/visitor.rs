//! The catalog, its statistics, and the visitor that feeds them from the call
//! sites of parsed files.
use vstd::prelude::*;
use crate::model::{
    add_reference, bump_usage, context_used, distinct, has_key, has_usage, lemma_plural_count_push, lemma_plural_count_update,
    lemma_usage_total_bump, usage_count, usage_names, MessageView, StatsView,
    VisitorModel,
};
use crate::registry::{Function, Registry};
use crate::syntax::{string_from_option, CallSite};

verus! {

/// A unique catalog entry, identified by its context and text.
pub struct Message {
    pub text: String,
    pub text_plural: Option<String>,
    pub context: String,
    /// The files that reference the entry, each once.
    pub references: Vec<String>,
}

/// Counters kept in step with the catalog.
pub struct Stats {
    /// Distinct (context, text) pairs.
    pub messages: usize,
    /// Distinct pairs whose first insertion carried a plural form.
    pub plural: usize,
    /// Accepted calls, counting duplicates.
    pub usages: usize,
    /// Distinct contexts.
    pub context: usize,
    /// Files handed to the driver.
    pub files_parsed: usize,
    /// Distinct files with at least one accepted call.
    pub files_with_messages: usize,
    /// Accepted calls per function name, each name once.
    pub usage_breakdown: Vec<(String, usize)>,
}

/// The extraction state: the catalog, the contexts seen, the file being
/// walked, the files with messages, the statistics and the registry.
pub struct Visitor {
    pub catalog: Vec<Message>,
    pub contexts: Vec<String>,
    pub current_file: String,
    pub visited_files_with_messages: Vec<String>,
    pub stats: Stats,
    pub functions: Registry,
}

pub open spec fn strings_view(v: Seq<String>) -> Seq<Seq<char>> {
    v.map_values(|s: String| s@)
}

pub open spec fn opt_view(o: Option<String>) -> Option<Seq<char>> {
    match o {
        Some(s) => Some(s@),
        None => None,
    }
}

pub open spec fn catalog_view(v: Seq<Message>) -> Seq<MessageView> {
    v.map_values(|m: Message| m@)
}

pub open spec fn breakdown_view(v: Seq<(String, usize)>) -> Seq<(Seq<char>, nat)> {
    v.map_values(|p: (String, usize)| (p.0@, p.1 as nat))
}

impl View for Message {
    type V = MessageView;

    open spec fn view(&self) -> MessageView {
        MessageView {
            text: self.text@,
            plural: opt_view(self.text_plural),
            context: self.context@,
            references: strings_view(self.references@),
        }
    }
}

impl View for Stats {
    type V = StatsView;

    open spec fn view(&self) -> StatsView {
        StatsView {
            messages: self.messages as nat,
            plural: self.plural as nat,
            usages: self.usages as nat,
            context: self.context as nat,
            files_parsed: self.files_parsed as nat,
            files_with_messages: self.files_with_messages as nat,
            usage_breakdown: breakdown_view(self.usage_breakdown@),
        }
    }
}

impl View for Visitor {
    type V = VisitorModel;

    open spec fn view(&self) -> VisitorModel {
        VisitorModel {
            catalog: catalog_view(self.catalog@),
            contexts: strings_view(self.contexts@),
            current_file: self.current_file@,
            visited: strings_view(self.visited_files_with_messages@),
            stats: self.stats@,
        }
    }
}

/// The position of `s` in `v`, if it occurs there.
fn position_of(v: &Vec<String>, s: &String) -> (r: Option<usize>)
    ensures
        match r {
            Some(i) => i < v@.len() && v@[i as int]@ == s@,
            None => !strings_view(v@).contains(s@),
        },
{
    let mut i: usize = 0;
    while i < v.len()
        invariant
            i <= v@.len(),
            forall|j: int| 0 <= j < i ==> v@[j]@ != s@,
        decreases v@.len() - i,
    {
        if v[i] == *s {
            return Some(i);
        }
        i = i + 1;
    }
    assert forall|j: int| 0 <= j < strings_view(v@).len() implies strings_view(v@)[j] != s@ by {
        assert(v@[j]@ != s@);
    }
    None
}

/// Adds `x` to a list of distinct strings where it is missing.
fn add_reference_to(refs: &mut Vec<String>, x: &String)
    requires
        distinct(strings_view(old(refs)@)),
    ensures
        strings_view(final(refs)@) == add_reference(strings_view(old(refs)@), x@),
        distinct(strings_view(final(refs)@)),
{
    match position_of(refs, x) {
        Some(i) => {
            assert(strings_view(refs@)[i as int] == x@);
        },
        None => {
            refs.push(x.clone());
            assert(strings_view(refs@) =~= strings_view(old(refs)@).push(x@));
        },
    }
}

/// The position of the catalog entry with this context and text, if any.
fn find_message(cat: &Vec<Message>, context: &String, text: &String) -> (r: Option<usize>)
    ensures
        match r {
            Some(i) => i < cat@.len() && cat@[i as int].context@ == context@ && cat@[i as int].text@
                == text@,
            None => !has_key(catalog_view(cat@), context@, text@),
        },
{
    let mut i: usize = 0;
    while i < cat.len()
        invariant
            i <= cat@.len(),
            forall|j: int|
                0 <= j < i ==> !(cat@[j].context@ == context@ && cat@[j].text@ == text@),
        decreases cat@.len() - i,
    {
        if cat[i].context == *context && cat[i].text == *text {
            return Some(i);
        }
        i = i + 1;
    }
    assert forall|j: int| 0 <= j < catalog_view(cat@).len() implies !(
    #[trigger] catalog_view(cat@)[j].context == context@ && catalog_view(cat@)[j].text == text@) by {
        assert(!(cat@[j].context@ == context@ && cat@[j].text@ == text@));
    }
    None
}

/// Raises the count of `name` by one, adding it with a count of one where absent.
fn bump_usage_in(b: &mut Vec<(String, usize)>, name: &String, bound: usize)
    requires
        bound < usize::MAX,
        distinct(usage_names(breakdown_view(old(b)@))),
        forall|i: int| 0 <= i < old(b)@.len() ==> (#[trigger] old(b)@[i]).1 <= bound,
    ensures
        breakdown_view(final(b)@) == bump_usage(breakdown_view(old(b)@), name@),
        distinct(usage_names(breakdown_view(final(b)@))),
        forall|i: int| 0 <= i < final(b)@.len() ==> (#[trigger] final(b)@[i]).1 <= bound + 1,
{
    let ghost bv = breakdown_view(b@);
    let mut i: usize = 0;
    while i < b.len()
        invariant
            i <= b@.len(),
            b@ == old(b)@,
            bv == breakdown_view(old(b)@),
            bound < usize::MAX,
            distinct(usage_names(bv)),
            forall|j: int| 0 <= j < b@.len() ==> (#[trigger] b@[j]).1 <= bound,
            forall|j: int| 0 <= j < i ==> b@[j].0@ != name@,
        decreases b@.len() - i,
    {
        if b[i].0 == *name {
            assert(bv[i as int].0 == name@);
            assert(has_usage(bv, name@));
            let ghost k = choose|k: int| 0 <= k < bv.len() && #[trigger] bv[k].0 == name@;
            assert(usage_names(bv)[k] == usage_names(bv)[i as int]);
            assert(k == i);
            let c = b[i].1;
            b[i].1 = c + 1;
            assert(breakdown_view(b@) =~= bv.update(i as int, (name@, bv[i as int].1 + 1)));
            assert(usage_names(breakdown_view(b@)) =~= usage_names(bv));
            return;
        }
        i = i + 1;
    }
    assert forall|j: int| 0 <= j < bv.len() implies #[trigger] bv[j].0 != name@ by {
        assert(b@[j].0@ != name@);
    }
    b.push((name.clone(), 1));
    assert(breakdown_view(b@) =~= bv.push((name@, 1)));
    assert(usage_names(breakdown_view(b@)) =~= usage_names(bv).push(name@));
}

/// Counts never increase along the sequence.
pub open spec fn sorted_by_count_desc(s: Seq<(Seq<char>, nat)>) -> bool {
    forall|a: int, b: int| 0 <= a < b < s.len() ==> s[a].1 >= s[b].1
}

impl Stats {
    /// The usage breakdown ordered from the most used function to the least.
    pub fn sorted_usage(&self) -> (r: Vec<(String, usize)>)
        ensures
            breakdown_view(r@).to_multiset() == self@.usage_breakdown.to_multiset(),
            sorted_by_count_desc(breakdown_view(r@)),
    {
        let ghost bv = self@.usage_breakdown;
        let mut r: Vec<(String, usize)> = Vec::new();
        let mut i: usize = 0;
        assert(bv.take(0) =~= Seq::<(Seq<char>, nat)>::empty());
        assert(breakdown_view(r@) =~= Seq::<(Seq<char>, nat)>::empty());
        while i < self.usage_breakdown.len()
            invariant
                i <= self.usage_breakdown@.len(),
                bv == breakdown_view(self.usage_breakdown@),
                sorted_by_count_desc(breakdown_view(r@)),
                breakdown_view(r@).to_multiset() == bv.take(i as int).to_multiset(),
            decreases self.usage_breakdown@.len() - i,
        {
            let count = self.usage_breakdown[i].1;
            let mut j: usize = 0;
            while j < r.len() && r[j].1 >= count
                invariant
                    j <= r@.len(),
                    forall|k: int| 0 <= k < j ==> (#[trigger] r@[k]).1 >= count,
                decreases r@.len() - j,
            {
                j = j + 1;
            }
            let ghost rv = breakdown_view(r@);
            let ghost x = (self.usage_breakdown@[i as int].0@, count as nat);
            assert forall|k: int| j <= k < rv.len() implies (#[trigger] rv[k]).1 < count by {
                assert(rv[j as int].1 < count);
            }
            assert forall|k: int| 0 <= k < j implies (#[trigger] rv[k]).1 >= count by {
                assert(rv[k].1 == r@[k].1);
            }
            r.insert(j, (self.usage_breakdown[i].0.clone(), count));
            assert(breakdown_view(r@) =~= rv.insert(j as int, x));
            assert(bv.take(i + 1) =~= bv.take(i as int).push(bv[i as int]));
            assert(bv[i as int] == x);
            proof {
                vstd::seq_lib::to_multiset_insert(rv, j as int, x);
                vstd::seq_lib::to_multiset_build(bv.take(i as int), x);
            }
            i = i + 1;
        }
        assert(bv.take(i as int) =~= bv);
        r
    }
    /// The number of accepted calls of the function `name`.
    pub fn usage_of(&self, name: &String) -> (r: usize)
        requires
            distinct(usage_names(self@.usage_breakdown)),
        ensures
            r == usage_count(self@.usage_breakdown, name@),
    {
        let ghost bv = self@.usage_breakdown;
        let mut i: usize = 0;
        while i < self.usage_breakdown.len()
            invariant
                i <= self.usage_breakdown@.len(),
                bv == breakdown_view(self.usage_breakdown@),
                distinct(usage_names(bv)),
                forall|j: int| 0 <= j < i ==> self.usage_breakdown@[j].0@ != name@,
            decreases self.usage_breakdown@.len() - i,
        {
            if self.usage_breakdown[i].0 == *name {
                assert(bv[i as int].0 == name@);
                let ghost k = choose|k: int| 0 <= k < bv.len() && #[trigger] bv[k].0 == name@;
                assert(usage_names(bv)[k] == usage_names(bv)[i as int]);
                return self.usage_breakdown[i].1;
            }
            i = i + 1;
        }
        assert forall|j: int| 0 <= j < bv.len() implies #[trigger] bv[j].0 != name@ by {
            assert(self.usage_breakdown@[j].0@ != name@);
        }
        0
    }
}

impl Visitor {
    /// The catalog entry with this context and text, if any.
    pub fn message(&self, context: &String, text: &String) -> (r: Option<&Message>)
        ensures
            match r {
                Some(m) => m@.context == context@ && m@.text == text@ && exists|i: int|
                    0 <= i < self.catalog@.len() && self.catalog@[i] == *m,
                None => !has_key(self@.catalog, context@, text@),
            },
    {
        match find_message(&self.catalog, context, text) {
            Some(i) => Some(&self.catalog[i]),
            None => None,
        }
    }

    /// An empty catalog with zero counts, dispatching on `functions`.
    pub fn new(functions: Registry) -> (r: Visitor)
        ensures
            r@ == VisitorModel::empty(),
            r.functions == functions,
            r@.inv(),
    {
        let r = Visitor {
            catalog: Vec::new(),
            contexts: Vec::new(),
            current_file: String::new(),
            visited_files_with_messages: Vec::new(),
            stats: Stats {
                messages: 0,
                plural: 0,
                usages: 0,
                context: 0,
                files_parsed: 0,
                files_with_messages: 0,
                usage_breakdown: Vec::new(),
            },
            functions,
        };
        assert(r@.catalog =~= Seq::<MessageView>::empty());
        assert(r@.contexts =~= Seq::<Seq<char>>::empty());
        assert(r@.visited =~= Seq::<Seq<char>>::empty());
        assert(r@.stats.usage_breakdown =~= Seq::<(Seq<char>, nat)>::empty());
        assert(usage_names(r@.stats.usage_breakdown) =~= Seq::<Seq<char>>::empty());
        r
    }

    /// Merges a candidate into the catalog, attributed to the current file:
    /// a new (context, text) pair becomes an entry with the candidate's plural
    /// form; an existing entry only gains the file as a reference. The
    /// message, context and plural counts follow.
    pub fn add_to_catalog(&mut self, message: Message)
        requires
            old(self)@.wf(),
        ensures
            final(self)@ == old(self)@.insert_message(
                message.text@,
                opt_view(message.text_plural),
                message.context@,
            ),
            final(self).functions == old(self).functions,
            final(self)@.wf(),
    {
        let ghost m0 = self@;
        let Message { text, text_plural, context, .. } = message;
        let is_plural = text_plural.is_some();
        let ghost context_new = !m0.contexts.contains(context@);
        match position_of(&self.contexts, &context) {
            Some(k) => {
                assert(m0.contexts[k as int] == context@);
            },
            None => {
                self.contexts.push(context.clone());
                self.stats.context = self.contexts.len();
                assert(strings_view(self.contexts@) =~= m0.contexts.push(context@));
            },
        }
        match find_message(&self.catalog, &context, &text) {
            Some(i) => {
                let ghost cv = m0.catalog;
                assert(cv[i as int].context == context@ && cv[i as int].text == text@);
                assert(has_key(cv, context@, text@));
                let ghost k = choose|k: int|
                    0 <= k < cv.len() && #[trigger] cv[k].context == context@ && cv[k].text
                        == text@;
                assert(k == i);
                let file = self.current_file.clone();
                add_reference_to(&mut self.catalog[i].references, &file);
                assert(catalog_view(self.catalog@) =~= cv.update(
                    i as int,
                    MessageView { references: add_reference(cv[i as int].references, file@), ..cv[i as int] },
                ));
                proof {
                    lemma_plural_count_update(
                        cv,
                        i as int,
                        MessageView { references: add_reference(cv[i as int].references, file@), ..cv[i as int] },
                    );
                }
            },
            None => {
                let mut references: Vec<String> = Vec::new();
                references.push(self.current_file.clone());
                assert(strings_view(references@) =~= seq![self.current_file@]);
                self.catalog.push(Message { text, text_plural, context, references });
                self.stats.messages = self.catalog.len();
                if is_plural {
                    self.stats.plural = self.stats.plural + 1;
                }
                let ghost added = MessageView {
                    text: text@,
                    plural: opt_view(text_plural),
                    context: context@,
                    references: seq![m0.current_file],
                };
                assert(catalog_view(self.catalog@) =~= m0.catalog.push(added));
                proof {
                    lemma_plural_count_push(m0.catalog, added);
                }
            },
        }
        let ghost m1 = self@;
        assert forall|k: int| 0 <= k < m1.contexts.len() implies context_used(
            m1.catalog,
            #[trigger] m1.contexts[k],
        ) by {
            if k < m0.contexts.len() {
                assert(context_used(m0.catalog, m0.contexts[k]));
                let i = choose|i: int|
                    0 <= i < m0.catalog.len() && #[trigger] m0.catalog[i].context == m0.contexts[k];
                assert(m1.catalog[i].context == m1.contexts[k]);
            } else {
                assert(m1.catalog[m1.catalog.len() - 1].context == m1.contexts[k]);
            }
        }
        assert(m1 =~= m0.insert_message(text@, opt_view(text_plural), context@));
        assert forall|i: int| 0 <= i < m1.catalog.len() implies m1.contexts.contains(
            (#[trigger] m1.catalog[i]).context,
        ) by {
            let c = m1.catalog[i].context;
            if i < m0.catalog.len() {
                assert(c == m0.catalog[i].context);
                assert(m0.contexts.contains(c));
            } else {
                assert(c == context@);
            }
            if m0.contexts.contains(c) {
                let j = choose|j: int| 0 <= j < m0.contexts.len() && m0.contexts[j] == c;
                assert(m1.contexts[j] == c);
            } else {
                assert(m1.contexts[m1.contexts.len() - 1] == c);
            }
        }
    }

    /// Counts one matched call of the function `key` with signature `fun` and
    /// merges its candidate into the catalog; does nothing where the text
    /// argument is missing or not a string literal.
    pub fn add_message(&mut self, key: &String, fun: Function, node: &CallSite)
        requires
            old(self)@.inv(),
            old(self).stats.usages < usize::MAX,
        ensures
            final(self)@ == old(self)@.accept_call(key@, fun, node.args@),
            final(self).functions == old(self).functions,
            final(self)@.inv(),
            final(self).stats.usages <= old(self).stats.usages + 1,
    {
        let ghost m0 = self@;
        if let Some(text) = string_from_option(node, Some(fun.text)) {
            let bound = self.stats.usages;
            assert forall|i: int| 0 <= i < self.stats.usage_breakdown@.len() implies (
            #[trigger] self.stats.usage_breakdown@[i]).1 <= bound by {
                assert(m0.stats.usage_breakdown[i].1 == self.stats.usage_breakdown@[i].1);
            }
            bump_usage_in(&mut self.stats.usage_breakdown, key, bound);
            proof {
                lemma_usage_total_bump(m0.stats.usage_breakdown, key@);
            }
            self.stats.usages = self.stats.usages + 1;
            let file = self.current_file.clone();
            add_reference_to(&mut self.visited_files_with_messages, &file);
            self.stats.files_with_messages = self.visited_files_with_messages.len();
            let text_plural = string_from_option(node, fun.plural);
            let context = match string_from_option(node, fun.context) {
                Some(c) => c,
                None => String::new(),
            };
            assert forall|i: int| 0 <= i < self@.stats.usage_breakdown.len() implies (
            #[trigger] self@.stats.usage_breakdown[i]).1 <= self@.stats.usages by {
                assert(self@.stats.usage_breakdown[i].1 == self.stats.usage_breakdown@[i].1);
            }
            let ghost m1 = self@;
            assert(m1.catalog == m0.catalog);
            assert(m1.contexts == m0.contexts);
            assert(self@.wf());
            self.add_to_catalog(Message { text, text_plural, context, references: Vec::new() });
        }
    }

    /// Dispatches a call on the resolved name `name`: a registered name hands
    /// the call to `add_message`; any other leaves the state unchanged.
    pub fn parse_gettext(&mut self, node: &CallSite, name: &String)
        requires
            old(self)@.inv(),
            old(self).stats.usages < usize::MAX,
        ensures
            final(self)@ == match old(self).functions.lookup_spec(name@) {
                Some(fun) => old(self)@.accept_call(name@, fun, node.args@),
                None => old(self)@,
            },
            final(self).functions == old(self).functions,
            final(self)@.inv(),
            final(self).stats.usages <= old(self).stats.usages + 1,
    {
        if let Some(fun) = self.functions.lookup(name) {
            self.add_message(name, fun, node);
        }
    }

    /// Evaluates one call node: resolves its callee name under the three
    /// call shapes and dispatches on it.
    pub fn visit_call_expr(&mut self, node: &CallSite)
        requires
            old(self)@.inv(),
            old(self).stats.usages < usize::MAX,
        ensures
            final(self)@ == old(self)@.visit_call(*node, old(self).functions),
            final(self).functions == old(self).functions,
            final(self)@.inv(),
            final(self).stats.usages <= old(self).stats.usages + 1,
    {
        if let Some(name) = node.callee_name() {
            self.parse_gettext(node, name);
        }
    }
}

} // verus!
