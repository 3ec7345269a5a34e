//! A renamer: one regex that finds, and one template that replaces.

use crate::pattern::{captures, compiles, regex_captures, regex_compiles};
use crate::text::{decimal, occurs_at, replace, spec_contains, spec_decimal, spec_replace};
use vstd::prelude::*;

verus! {

/// The placeholder for capture group `idx` in a template: `$` and the number.
pub open spec fn placeholder(idx: nat) -> Seq<char> {
    seq!['$'] + spec_decimal(idx)
}

/// `template` with the placeholders resolved one after the other from group
/// `idx` on.  Resolution stops at the first group that does not exist or took
/// no part in the match, and at the first group whose placeholder is not in
/// the text as substituted so far; later groups are then left alone.
pub open spec fn substitute_from(
    template: Seq<char>,
    groups: Seq<Option<Seq<char>>>,
    idx: nat,
) -> Seq<char>
    decreases groups.len() - idx,
{
    if idx >= groups.len() {
        template
    } else {
        match groups[idx as int] {
            None => template,
            Some(text) => if spec_contains(template, placeholder(idx)) {
                substitute_from(spec_replace(template, placeholder(idx), text), groups, idx + 1)
            } else {
                template
            },
        }
    }
}

/// What a renamer makes of a match result: the template itself when there was
/// no match, else the template with its placeholders resolved from group 1 on.
pub open spec fn spec_substitute(
    template: Seq<char>,
    found: Option<Seq<Option<Seq<char>>>>,
) -> Seq<char> {
    match found {
        None => template,
        Some(groups) => substitute_from(template, groups, 1),
    }
}

/// What a renamer with the given finder and replacer makes of `input`.
pub open spec fn spec_process(finder: Seq<char>, replacer: Seq<char>, input: Seq<char>) -> Seq<
    char,
> {
    spec_substitute(replacer, regex_captures(finder, input))
}

/// With the template `$1`, a match with one capture group gives back the
/// text of that group unchanged, even where that text itself holds `$1` or
/// another placeholder: what a group brought in is not resolved again.  So a
/// finder whose only group spans the whole input maps every input to itself.
pub proof fn lemma_identity_template(finder: Seq<char>, input: Seq<char>)
    requires
        regex_captures(finder, input) matches Some(groups) && groups.len() == 2 && groups[1]
            == Some(input),
    ensures
        spec_process(finder, seq!['$', '1'], input) == input,
{
    let template = seq!['$', '1'];
    let groups = regex_captures(finder, input)->0;
    reveal_with_fuel(spec_decimal, 2);
    assert(placeholder(1) =~= template);
    assert(template.subrange(0, 2) =~= template);
    assert(occurs_at(template, template, 0));
    assert(spec_contains(template, placeholder(1)));
    assert(template.skip(2) =~= Seq::<char>::empty());
    assert(spec_replace(template.skip(2), template, input) == Seq::<char>::empty());
    assert(spec_replace(template, template, input) =~= input);
    assert(substitute_from(input, groups, 2) == input);
    assert(substitute_from(template, groups, 1) == substitute_from(input, groups, 2));
}

/// The renamer that `finder` and `replacer` make: there is one exactly when
/// the finder compiles.
pub open spec fn spec_renamer(finder: Seq<char>, replacer: Seq<char>) -> Option<RenamerView> {
    if regex_compiles(finder) {
        Some(RenamerView { finder, replacer })
    } else {
        None
    }
}

/// The placeholder for capture group `idx`.
fn placeholder_for(idx: usize) -> (token: String)
    ensures
        token@ == placeholder(idx as nat),
        token@.len() > 0,
{
    let digits = decimal(idx);
    let dollar = "$";
    proof {
        reveal_strlit("$");
        assert(dollar@ =~= seq!['$']);
    }
    String::from_str(dollar).concat(digits.as_str())
}

/// Fills the capture groups of a match into `template`; gives `template` back
/// as it is when there was no match.
pub fn substitute(template: &str, found: &Option<Vec<Option<String>>>) -> (out: String)
    ensures
        out@ == spec_substitute(template@, found.deep_view()),
{
    let mut replaced = String::from_str(template);
    let groups = match found {
        Some(groups) => groups,
        None => {
            return replaced;
        },
    };
    let mut idx: usize = 1;
    while idx < groups.len()
        invariant
            1 <= idx,
            found.deep_view() == Some(groups.deep_view()),
            substitute_from(template@, groups.deep_view(), 1) == substitute_from(
                replaced@,
                groups.deep_view(),
                idx as nat,
            ),
        decreases groups.len() - idx,
    {
        let token = placeholder_for(idx);
        match &groups[idx] {
            None => {
                return replaced;
            },
            Some(text) => {
                let (next, present) = replace(replaced.as_str(), token.as_str(), text.as_str());
                if !present {
                    return replaced;
                }
                replaced = next;
            },
        }
        idx = idx + 1;
    }
    replaced
}

/// The pair of pattern and template that a `Renamer` stands for.
pub struct RenamerView {
    pub finder: Seq<char>,
    pub replacer: Seq<char>,
}

/// A finder pattern that compiles, and a replacer template.
pub struct Renamer {
    finder: String,
    replacer: String,
}

impl View for Renamer {
    type V = RenamerView;

    closed spec fn view(&self) -> RenamerView {
        RenamerView { finder: self.finder@, replacer: self.replacer@ }
    }
}

impl DeepView for Renamer {
    type V = RenamerView;

    open spec fn deep_view(&self) -> RenamerView {
        self@
    }
}

impl Clone for Renamer {
    fn clone(&self) -> (copy: Self)
        ensures
            copy@ == self@,
    {
        proof {
            use_type_invariant(self);
        }
        Renamer { finder: self.finder.clone(), replacer: self.replacer.clone() }
    }
}

impl Renamer {
    #[verifier::type_invariant]
    spec fn finder_compiles(self) -> bool {
        regex_compiles(self.finder@)
    }

    /// A renamer exists for exactly the finders that compile; the replacer is
    /// taken as it is.
    pub fn new(finder: &str, replacer: &str) -> (made: Option<Renamer>)
        ensures
            made is Some <==> regex_compiles(finder@),
            made.deep_view() == spec_renamer(finder@, replacer@),
    {
        if compiles(finder) {
            Some(Renamer { finder: String::from_str(finder), replacer: String::from_str(replacer) })
        } else {
            None
        }
    }

    /// Matches the finder against `input` and fills the groups of the first
    /// match into the replacer.
    pub fn process(&self, input: &str) -> (out: String)
        ensures
            out@ == spec_process(self@.finder, self@.replacer, input@),
    {
        proof {
            use_type_invariant(self);
        }
        let found = captures(self.finder.as_str(), input);
        substitute(self.replacer.as_str(), &found)
    }
}

} // verus!
