//! The whole rewrite of a text: one pass over the rule table, each rule
//! working on what the rule before it has written.
//!
//! Resolving a short link takes a request over the network, which is not made
//! here. [`replace_all`] therefore runs until it needs the target of a link
//! and hands back a [`Lookup`]; the caller makes the request and calls
//! [`Lookup::resume`] with the answer, until the rewrite is done or has failed.

use crate::link::{check_url, is_url};
use crate::rules::{
    find_links, lemma_links_guarded, links, no_match, substitute, substituted, trim_links,
    trimmed,
};
use crate::splice::{covered, replacements_bytes, slice, spans_fit, splice, spliced, Span};
use crate::table::{rule, rule_at, Action, ShortLink, RULES};
use vstd::prelude::*;
use vstd::string::*;
use vstd::utf8::*;

verus! {

/// A rewrite that waits for the target of one short link.
pub struct Lookup {
    text: String,
    index: usize,
    family: ShortLink,
    spans: Vec<Span>,
    found: Vec<Option<String>>,
}

/// What a [`Lookup`] holds: the text as the rule at `index` met it, the
/// family of the rule's links and where they lie in the text, and what was
/// found to stand for the first of them.
pub struct LookupView {
    pub text: Seq<char>,
    pub index: nat,
    pub family: ShortLink,
    pub spans: Seq<Span>,
    pub found: Seq<Option<Seq<char>>>,
}

/// What `span` covers of `text`, as a text.
pub open spec fn link_text(text: Seq<char>, span: Span) -> Seq<char> {
    decode_utf8(covered(encode_utf8(text), span))
}

impl LookupView {
    /// The rule resolves the short links of the family, these are its links
    /// in the text, and the first that is unresolved is a URL.
    pub open spec fn wf(self) -> bool {
        &&& self.index < RULES
        &&& rule_at(self.index as int).action == Action::Resolve(self.family)
        &&& self.spans == links(self.text, rule_at(self.index as int).pattern@)
        &&& self.found.len() < self.spans.len()
        &&& is_url(self.url())
    }

    /// The link whose target is asked for: the first that is unresolved.
    pub open spec fn url(self) -> Seq<char>
        recommends
            self.found.len() < self.spans.len(),
    {
        link_text(self.text, self.spans[self.found.len() as int])
    }
}

/// The UTF-8 bytes of each replacement in a list.
pub open spec fn found_bytes(found: Seq<Option<Seq<char>>>) -> Seq<Option<Seq<u8>>> {
    Seq::new(
        found.len(),
        |i: int|
            match found[i] {
                Some(text) => Some(encode_utf8(text)),
                None => None,
            },
    )
}

impl View for Lookup {
    type V = LookupView;

    closed spec fn view(&self) -> LookupView {
        LookupView {
            text: self.text@,
            index: self.index as nat,
            family: self.family,
            spans: self.spans@,
            found: self.found.deep_view(),
        }
    }
}

/// How far a rewrite has come.
pub enum Rewrite {
    /// The rewrite is complete: this is the text. It equals the text that came
    /// in exactly when no rule changed anything.
    Done(String),
    /// The target of a short link is needed to go on.
    Pending(Lookup),
    /// A lookup failed, for a link of this family: there is no result.
    Failed(ShortLink),
}

/// The mathematical content of a [`Rewrite`].
pub enum RewriteView {
    Done(Seq<char>),
    Pending(LookupView),
    Failed(ShortLink),
}

impl View for Rewrite {
    type V = RewriteView;

    open spec fn view(&self) -> RewriteView {
        match self {
            Rewrite::Done(text) => RewriteView::Done(text@),
            Rewrite::Pending(lookup) => RewriteView::Pending(lookup@),
            Rewrite::Failed(family) => RewriteView::Failed(*family),
        }
    }
}

/// Where a rewrite stands when `text` reaches the rule at `index`. A rule
/// that trims or rebuilds hands what it makes of the text to the next rule.
/// A rule that resolves short links goes through its links, see
/// [`advanced`]. After the last rule the rewrite is done.
pub open spec fn entered(text: Seq<char>, index: nat) -> RewriteView
    decreases RULES - index, 1nat, 0nat,
{
    if index >= RULES {
        RewriteView::Done(text)
    } else {
        let rule = rule_at(index as int);
        match rule.action {
            Action::Resolve(_) => advanced(text, index, Seq::empty()),
            Action::Trim(keys) => entered(trimmed(text, rule.pattern@, keys.set()), index + 1),
            Action::Rebuild(template) => entered(
                substituted(text, rule.pattern@, template@),
                index + 1,
            ),
        }
    }
}

/// Where a rewrite stands at a rule that resolves short links, once `found`
/// says what stands for the first of the rule's links in `text`. A link that
/// is no URL is passed over and stays as it is. At the first link that is a
/// URL the rewrite waits for its target. Once every link is dealt with they
/// are replaced together, and the text goes on to the next rule.
pub open spec fn advanced(text: Seq<char>, index: nat, found: Seq<Option<Seq<char>>>) -> RewriteView
    decreases RULES - index, 0nat, links(text, rule_at(index as int).pattern@).len() - found.len(),
{
    let rule = rule_at(index as int);
    let spans = links(text, rule.pattern@);
    if index >= RULES {
        RewriteView::Done(text)
    } else if found.len() >= spans.len() {
        entered(decode_utf8(spliced(encode_utf8(text), spans, found_bytes(found))), index + 1)
    } else if !is_url(link_text(text, spans[found.len() as int])) {
        advanced(text, index, found.push(None))
    } else {
        match rule.action {
            Action::Resolve(family) => RewriteView::Pending(
                LookupView { text, index, family, spans, found },
            ),
            _ => RewriteView::Done(text),
        }
    }
}

/// Where a rewrite stands after the answer to its lookup. A failed lookup
/// fails the rewrite. A target is noted as what replaces the link, and the
/// rewrite goes on with the links that are left.
pub open spec fn resumed(lookup: LookupView, answer: Option<Seq<char>>) -> RewriteView {
    match answer {
        None => RewriteView::Failed(lookup.family),
        Some(target) => advanced(
            lookup.text,
            lookup.index,
            lookup.found.push(lookup.family.spec_landing(target)),
        ),
    }
}

/// What the rule at `index`, taken by itself, makes of `text`; a rule that
/// resolves short links leaves a text alone in which it finds none.
pub open spec fn alone(text: Seq<char>, index: int) -> Seq<char> {
    let rule = rule_at(index);
    match rule.action {
        Action::Resolve(_) => text,
        Action::Trim(keys) => trimmed(text, rule.pattern@, keys.set()),
        Action::Rebuild(template) => substituted(text, rule.pattern@, template@),
    }
}

/// Every rule from the one at `index` on leaves `text` as it is: it holds
/// no short link, and each other rule, taken by itself, maps it to itself.
pub open spec fn settled_from(text: Seq<char>, index: nat) -> bool {
    forall|i: int|
        index <= i < RULES ==> {
            &&& #[trigger] alone(text, i) == text
            &&& rule_at(i).action is Resolve ==> links(text, rule_at(i).pattern@).len() == 0
        }
}

/// Every rule leaves `text` as it is.
pub open spec fn settled(text: Seq<char>) -> bool {
    settled_from(text, 0)
}

/// No rule from the one at `index` on finds a match in `text`.
pub open spec fn untouched_from(text: Seq<char>, index: nat) -> bool {
    forall|i: int| index <= i < RULES ==> no_match(text, #[trigger] rule_at(i).pattern@)
}

/// No rule at all finds a match in `text`.
pub open spec fn untouched(text: Seq<char>) -> bool {
    untouched_from(text, 0)
}

/// A rule that resolves short links passes a text on as it is in which it
/// finds none.
pub proof fn lemma_no_links(text: Seq<char>, index: nat)
    requires
        index < RULES,
        rule_at(index as int).action is Resolve,
        links(text, rule_at(index as int).pattern@).len() == 0,
    ensures
        entered(text, index) == entered(text, index + 1),
{
    encode_utf8_decode_utf8(text);
    assert(advanced(text, index, Seq::empty()) == entered(text, index + 1));
}

/// A text that every remaining rule leaves as it is goes through them unchanged.
pub proof fn lemma_settled_from(text: Seq<char>, index: nat)
    requires
        settled_from(text, index),
    ensures
        entered(text, index) == RewriteView::Done(text),
    decreases RULES - index,
{
    if index < RULES {
        assert(alone(text, index as int) == text);
        lemma_settled_from(text, index + 1);
        if rule_at(index as int).action is Resolve {
            lemma_no_links(text, index);
        }
    }
}

/// A text that every rule leaves as it is comes out of the whole rewrite as
/// it went in: what the rules have brought to its final form is a fixed
/// point, and a second pass over it changes nothing.
pub proof fn lemma_settled_is_fixed_point(text: Seq<char>)
    requires
        settled(text),
    ensures
        entered(text, 0) == RewriteView::Done(text),
{
    lemma_settled_from(text, 0);
}

impl Lookup {
    #[verifier::type_invariant]
    spec fn inv(self) -> bool {
        &&& self.index < RULES
        &&& rule_at(self.index as int).action == Action::Resolve(self.family)
        &&& self.spans@ == links(self.text@, rule_at(self.index as int).pattern@)
        &&& spans_fit(encode_utf8(self.text@), self.spans@)
        &&& self.found.len() < self.spans.len()
        &&& is_url(link_text(self.text@, self.spans@[self.found.len() as int]))
    }

    /// The family of the link whose target is asked for.
    pub fn family(&self) -> (family: ShortLink)
        ensures
            family == self@.family,
            self@.wf(),
    {
        proof {
            use_type_invariant(self);
        }
        self.family
    }

    /// The link whose target is asked for, as it stands in the text.
    pub fn url(&self) -> (url: String)
        ensures
            url@ == self@.url(),
            self@.wf(),
    {
        proof {
            use_type_invariant(self);
        }
        let found = slice(self.text.as_str(), self.spans[self.found.len()]);
        proof {
            encode_utf8_decode_utf8(found@);
        }
        found.to_owned()
    }

    /// Goes on with the answer to the lookup: the URL on which the request
    /// for [`Lookup::url`] ended, or `None` where the request failed.
    pub fn resume(self, answer: Option<String>) -> (next: Rewrite)
        ensures
            next@ == resumed(self@, answer.deep_view()),
    {
        proof {
            use_type_invariant(&self);
        }
        let Lookup { text, index, family, spans, found } = self;
        let mut found = found;
        match answer {
            None => Rewrite::Failed(family),
            Some(target) => {
                let ghost before = found.deep_view();
                let with = family.landing(target.as_str());
                found.push(with);
                assert(found.deep_view() =~= before.push(family.spec_landing(target@)));
                advance(text, index, family, spans, found)
            },
        }
    }
}

/// Goes through the links of the rule at `index` from the first that
/// `found` does not cover.
fn advance(
    text: String,
    index: usize,
    family: ShortLink,
    spans: Vec<Span>,
    found: Vec<Option<String>>,
) -> (next: Rewrite)
    requires
        index < RULES,
        rule_at(index as int).action == Action::Resolve(family),
        spans@ == links(text@, rule_at(index as int).pattern@),
        spans_fit(encode_utf8(text@), spans@),
        found.len() <= spans.len(),
    ensures
        next@ == advanced(text@, index as nat, found.deep_view()),
        spans.len() == 0 && untouched_from(text@, (index + 1) as nat) ==> next@ == RewriteView::Done(
            text@,
        ),
    decreases RULES - index, 0nat, spans.len() - found.len(),
{
    if found.len() >= spans.len() {
        assert(replacements_bytes(found@) =~= found_bytes(found.deep_view()));
        let out = splice(text.as_str(), &spans, &found);
        proof {
            encode_utf8_decode_utf8(out@);
            encode_utf8_decode_utf8(text@);
        }
        return enter(out, index + 1);
    }
    let link = slice(text.as_str(), spans[found.len()]);
    proof {
        encode_utf8_decode_utf8(link@);
    }
    if check_url(link) {
        Rewrite::Pending(Lookup { text, index, family, spans, found })
    } else {
        let ghost before = found.deep_view();
        let mut found = found;
        found.push(None);
        assert(found.deep_view() =~= before.push(None));
        advance(text, index, family, spans, found)
    }
}

/// Takes `text` through the rules from the one at `index` on, as far as it
/// gets without the target of a short link.
fn enter(text: String, index: usize) -> (next: Rewrite)
    requires
        index <= RULES,
    ensures
        next@ == entered(text@, index as nat),
        untouched_from(text@, index as nat) ==> next@ == RewriteView::Done(text@),
    decreases RULES - index, 1nat, 0nat,
{
    if index >= RULES {
        return Rewrite::Done(text);
    }
    let rule = rule(index);
    match rule.action {
        Action::Resolve(family) => {
            let spans = find_links(rule.pattern, text.as_str());
            proof {
                lemma_links_guarded(text@, rule.pattern@);
                if no_match(text@, rule.pattern@) {
                    lemma_no_links(text@, index as nat);
                    encode_utf8_decode_utf8(text@);
                }
            }
            let found: Vec<Option<String>> = Vec::new();
            assert(found.deep_view() =~= Seq::empty());
            advance(text, index, family, spans, found)
        },
        Action::Trim(keys) => {
            let names = keys.names();
            let out = trim_links(text.as_str(), rule.pattern, names.as_slice());
            enter(out, index + 1)
        },
        Action::Rebuild(template) => {
            let out = substitute(text.as_str(), rule.pattern, template);
            enter(out, index + 1)
        },
    }
}

/// Rewrites every link in `text` that a rule knows, in the order of the
/// rule table. The result is [`Rewrite::Done`] at once for a text without
/// short links, and otherwise waits for the target of the first of them. A
/// text in which no rule finds a match, or which every rule leaves as it is,
/// is done at once and comes out as it went in.
pub fn replace_all(text: &str) -> (next: Rewrite)
    ensures
        next@ == entered(text@, 0),
        untouched(text@) || settled(text@) ==> next@ == RewriteView::Done(text@),
{
    proof {
        if settled(text@) {
            lemma_settled_is_fixed_point(text@);
        }
    }
    enter(text.to_owned(), 0)
}

} // verus!
