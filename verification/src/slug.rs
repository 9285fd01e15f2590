//! The slug generator: from the title of a new set to an identifier that is
//! free in its namespace.
//!
//! The first candidate is the normalized title. While a candidate is taken
//! and attempts are left, the next candidate carries a numeric suffix, made
//! by the [`SuffixRule`] that the caller chose. When no attempt is left, a
//! random identifier stands in.

use crate::decimal::{
    count_trailing_digits, decimal, lemma_number_of_decimal, lemma_suffix_of_joined,
    lemma_trailing_digits, stem, successor, suffix, suffix_number, trailing_digits,
};
use crate::text::{chars_of, is_white_space, is_whitespace, push_chars, same_text, string_of};
use vstd::prelude::*;

verus! {

/// The attempts that a site grants a title beyond the first, unless it
/// has reason to grant more or fewer.
pub const DEFAULT_BUDGET: u32 = 10;

/// How the candidate that follows a taken one is made.
#[derive(Clone, Copy, Debug, PartialEq, Eq, Structural)]
pub enum SuffixRule {
    /// Append the digit `1`, whatever the candidate ends in: `vocab-1`
    /// is followed by `vocab-11`.
    AppendOne,
    /// Count up the number that the candidate ends in, and append `1` where
    /// it ends in none: `vocab-1` is followed by `vocab-2`, `vocab-9` by
    /// `vocab-10`, `vocab` by `vocab1`. The number is written anew, so
    /// leading zeros are lost: `vocab-007` is followed by `vocab-8`.
    Increment,
}

/// The text that `str::to_lowercase` makes of a text.
pub uninterp spec fn lowercase(text: Seq<char>) -> Seq<char>;

/// Lower-cases `text` with `str::to_lowercase`, which follows the Unicode
/// rules for whole strings. The result is a function of the text alone,
/// named [`lowercase`].
#[verifier::external_body]
fn to_lowercase(text: &str) -> (lowered: String)
    ensures
        lowered@ == lowercase(text@),
{
    text.to_lowercase()
}

/// `text` with each run of white space replaced by one hyphen.
pub open spec fn hyphenated(text: Seq<char>) -> Seq<char>
    decreases text.len(),
{
    if text.len() == 0 {
        Seq::empty()
    } else {
        let front = hyphenated(text.drop_last());
        if !is_white_space(text.last()) {
            front.push(text.last())
        } else if text.len() >= 2 && is_white_space(text[text.len() - 2]) {
            front
        } else {
            front.push('-')
        }
    }
}

/// The normalized form of a title: lower-cased, and each run of white space
/// replaced by one hyphen.
pub open spec fn normalized(title: Seq<char>) -> Seq<char> {
    hyphenated(lowercase(title))
}

/// Replaces each run of white space in `text` by one hyphen.
pub fn hyphenate(text: &str) -> (slug: String)
    ensures
        slug@ == hyphenated(text@),
{
    let v = chars_of(text);
    let mut slug = String::new();
    let mut in_run = false;
    let mut i: usize = 0;
    while i < v.len()
        invariant
            i <= v.len(),
            v@ == text@,
            slug@ == hyphenated(v@.take(i as int)),
            in_run == (i > 0 && is_white_space(v@[i - 1])),
        decreases v.len() - i,
    {
        let c = v[i];
        assert(v@.take(i + 1).drop_last() =~= v@.take(i as int));
        if !is_whitespace(c) {
            slug.push(c);
            in_run = false;
        } else {
            if !in_run {
                slug.push('-');
            }
            in_run = true;
        }
        i += 1;
    }
    assert(v@.take(v@.len() as int) =~= v@);
    slug
}

/// The normalized form of `title`.
pub fn normalize(title: &str) -> (slug: String)
    ensures
        slug@ == normalized(title@),
{
    let lowered = to_lowercase(title);
    hyphenate(lowered.as_str())
}

/// The candidate that follows `candidate`.
pub open spec fn next_candidate(candidate: Seq<char>, rule: SuffixRule) -> Seq<char> {
    match rule {
        SuffixRule::AppendOne => candidate.push('1'),
        SuffixRule::Increment => if trailing_digits(candidate) == 0 {
            candidate.push('1')
        } else {
            stem(candidate) + decimal(suffix_number(candidate) + 1)
        },
    }
}

/// The candidate that follows `candidate`.
pub fn next_slug(candidate: &str, rule: SuffixRule) -> (next: String)
    ensures
        next@ == next_candidate(candidate@, rule),
{
    let mut v = chars_of(candidate);
    let digits: usize = match rule {
        SuffixRule::AppendOne => 0,
        SuffixRule::Increment => count_trailing_digits(&v),
    };
    if digits == 0 {
        v.push('1');
        let next = string_of(&v, 0, v.len());
        next
    } else {
        proof {
            lemma_trailing_digits(v@);
        }
        let cut: usize = v.len() - digits;
        let numeral = successor(&v, cut);
        let mut next = string_of(&v, 0, cut);
        push_chars(&mut next, &numeral);
        next
    }
}

/// The `n`-th candidate that follows `candidate`; the candidate itself for
/// `n == 0`.
pub open spec fn candidate_at(candidate: Seq<char>, rule: SuffixRule, n: nat) -> Seq<char>
    decreases n,
{
    if n == 0 {
        candidate
    } else {
        candidate_at(next_candidate(candidate, rule), rule, (n - 1) as nat)
    }
}

/// How many candidates are taken before the first free one, where one of
/// `candidate` and the `budget` candidates that follow it is free.
pub open spec fn first_free(
    candidate: Seq<char>,
    taken: Set<Seq<char>>,
    budget: nat,
    rule: SuffixRule,
) -> Option<nat>
    decreases budget,
{
    if !taken.contains(candidate) {
        Some(0)
    } else if budget == 0 {
        None
    } else {
        match first_free(next_candidate(candidate, rule), taken, (budget - 1) as nat, rule) {
            Some(n) => Some(n + 1),
            None => None,
        }
    }
}

/// The first of `candidate` and the `budget` candidates that follow it
/// which is not taken; `None` where all of them are.
pub open spec fn resolved(
    candidate: Seq<char>,
    taken: Set<Seq<char>>,
    budget: nat,
    rule: SuffixRule,
) -> Option<Seq<char>> {
    match first_free(candidate, taken, budget, rule) {
        Some(n) => Some(candidate_at(candidate, rule, n)),
        None => None,
    }
}

/// Tells whether `c` is a digit or one of the letters `a` to `f`.
pub open spec fn is_lower_hex(c: char) -> bool {
    ('0' <= c && c <= '9') || ('a' <= c && c <= 'f')
}

/// The shape of a random identifier: 36 characters, hyphens at the
/// positions 8, 13, 18 and 23, lower-case hexadecimal digits elsewhere, of
/// which the one at position 14 is `4` and the one at position 19 is one of
/// `8`, `9`, `a` and `b`.
pub open spec fn is_random_identifier(id: Seq<char>) -> bool {
    &&& id.len() == 36
    &&& forall|i: int|
        0 <= i < 36 ==> if i == 8 || i == 13 || i == 18 || i == 23 {
            #[trigger] id[i] == '-'
        } else {
            is_lower_hex(id[i])
        }
    &&& id[14] == '4'
    &&& (id[19] == '8' || id[19] == '9' || id[19] == 'a' || id[19] == 'b')
}

/// Draws an identifier with `uuid::Uuid::new_v4` and writes it out as the
/// crate's `Display` does: hyphenated and in lower case. Of the 128 bits,
/// 122 are random; the others mark the version, 4, and the variant. Which
/// identifier comes back is not known; its shape is. The call fails only
/// where the system has no random numbers to give.
#[verifier::external_body]
pub(crate) fn random_identifier() -> (id: String)
    ensures
        is_random_identifier(id@),
{
    uuid::Uuid::new_v4().to_string()
}

/// The identifiers that are taken in one scope, such as the sets of one
/// subject.
#[derive(Clone, Debug, PartialEq, Eq)]
pub struct Namespace {
    pub name: String,
    pub slugs: Vec<String>,
}

impl Namespace {
    /// The identifiers that are taken.
    pub open spec fn taken(&self) -> Set<Seq<char>> {
        Set::new(|slug: Seq<char>| exists|i: int| 0 <= i < self.slugs.len() && self.slugs[i]@ == slug)
    }

    /// A namespace in which nothing is taken.
    pub fn new(name: &str) -> (namespace: Namespace)
        ensures
            namespace.name@ == name@,
            namespace.slugs@.len() == 0,
            namespace.taken() == Set::<Seq<char>>::empty(),
    {
        let namespace = Namespace { name: String::from_str(name), slugs: Vec::new() };
        namespace
    }

    /// Tells whether `slug` is taken.
    pub fn contains(&self, slug: &str) -> (found: bool)
        ensures
            found == self.taken().contains(slug@),
    {
        let mut i: usize = 0;
        while i < self.slugs.len()
            invariant
                i <= self.slugs.len(),
                forall|j: int| 0 <= j < i ==> self.slugs[j]@ != slug@,
            decreases self.slugs.len() - i,
        {
            if same_text(self.slugs[i].as_str(), slug) {
                return true;
            }
            i += 1;
        }
        false
    }

    /// Takes `slug`, unless it is taken already: then nothing changes, and
    /// `false` comes back.
    pub fn insert(&mut self, slug: String) -> (inserted: bool)
        ensures
            inserted == !old(self).taken().contains(slug@),
            final(self).taken() == old(self).taken().insert(slug@),
            final(self).name == old(self).name,
            inserted ==> final(self).slugs@ == old(self).slugs@.push(slug),
            !inserted ==> *final(self) == *old(self),
    {
        if self.contains(slug.as_str()) {
            false
        } else {
            let ghost before = *self;
            self.slugs.push(slug);
            assert(self.taken() =~= before.taken().insert(slug@)) by {
                assert forall|s: Seq<char>| before.taken().insert(slug@).contains(s) implies self.taken().contains(s) by {
                    if s == slug@ {
                        assert(self.slugs[self.slugs.len() - 1]@ == s);
                    } else {
                        let i = choose|i: int| 0 <= i < before.slugs.len() && before.slugs[i]@ == s;
                        assert(self.slugs[i]@ == s);
                    }
                }
            }
            true
        }
    }
}

/// What [`generate`] may return for a title: the first candidate that is
/// free, or, where the normalized title and the `budget` candidates that
/// follow it are all taken, any random identifier.
pub open spec fn generates(
    title: Seq<char>,
    taken: Set<Seq<char>>,
    budget: nat,
    rule: SuffixRule,
    slug: Seq<char>,
) -> bool {
    match resolved(normalized(title), taken, budget, rule) {
        Some(free) => slug == free,
        None => is_random_identifier(slug),
    }
}

/// An identifier for the set `title` that is free in `namespace`: the
/// normalized title or, while that is taken, one of at most `budget`
/// suffixed candidates; a random identifier when all of these are taken.
pub fn generate(title: &str, namespace: &Namespace, budget: u32, rule: SuffixRule) -> (slug: String)
    ensures
        generates(title@, namespace.taken(), budget as nat, rule, slug@),
        !namespace.taken().contains(normalized(title@)) ==> slug@ == normalized(title@),
        namespace.taken().contains(normalized(title@)) && budget == 0 ==> is_random_identifier(
            slug@,
        ),
        resolved(normalized(title@), namespace.taken(), budget as nat, rule) is Some
            ==> !namespace.taken().contains(slug@),
{
    let mut candidate = normalize(title);
    let mut left: u32 = budget;
    loop
        invariant
            resolved(normalized(title@), namespace.taken(), budget as nat, rule) == resolved(
                candidate@,
                namespace.taken(),
                left as nat,
                rule,
            ),
        decreases left,
    {
        if !namespace.contains(candidate.as_str()) {
            return candidate;
        }
        if left == 0 {
            return random_identifier();
        }
        candidate = next_slug(candidate.as_str(), rule);
        left -= 1;
    }
}

/// The next candidate keeps what stands before the digits and ends in a
/// greater number: in the next number under [`SuffixRule::Increment`], in
/// the number with one more digit `1` under [`SuffixRule::AppendOne`].
pub proof fn lemma_next_candidate(candidate: Seq<char>, rule: SuffixRule)
    ensures
        stem(next_candidate(candidate, rule)) == stem(candidate),
        suffix_number(next_candidate(candidate, rule)) > suffix_number(candidate),
        rule == SuffixRule::Increment ==> suffix_number(next_candidate(candidate, rule))
            == suffix_number(candidate) + 1,
        rule == SuffixRule::AppendOne ==> suffix_number(next_candidate(candidate, rule)) == 10
            * suffix_number(candidate) + 1,
        next_candidate(candidate, rule) != candidate,
{
    let front = stem(candidate);
    let digits = suffix(candidate);
    lemma_trailing_digits(candidate);
    if rule == SuffixRule::AppendOne || trailing_digits(candidate) == 0 {
        let longer = digits.push('1');
        lemma_suffix_of_joined(front, longer);
        assert(longer.drop_last() =~= digits);
    } else {
        lemma_number_of_decimal(suffix_number(candidate) + 1);
        lemma_suffix_of_joined(front, decimal(suffix_number(candidate) + 1));
    }
}

/// Every candidate of a chain keeps what stands before the digits, and the
/// `n`-th ends in a number that is greater by `n` at least.
pub proof fn lemma_candidate_at(candidate: Seq<char>, rule: SuffixRule, n: nat)
    ensures
        stem(candidate_at(candidate, rule, n)) == stem(candidate),
        suffix_number(candidate_at(candidate, rule, n)) >= suffix_number(candidate) + n,
        rule == SuffixRule::Increment ==> suffix_number(candidate_at(candidate, rule, n))
            == suffix_number(candidate) + n,
    decreases n,
{
    if n > 0 {
        lemma_next_candidate(candidate, rule);
        lemma_candidate_at(next_candidate(candidate, rule), rule, (n - 1) as nat);
    }
}

/// The candidates of a chain follow one another: the `m + k`-th is the
/// `k`-th after the `m`-th.
pub proof fn lemma_candidate_at_sum(candidate: Seq<char>, rule: SuffixRule, m: nat, k: nat)
    ensures
        candidate_at(candidate, rule, m + k) == candidate_at(
            candidate_at(candidate, rule, m),
            rule,
            k,
        ),
    decreases m,
{
    if m > 0 {
        lemma_candidate_at_sum(next_candidate(candidate, rule), rule, (m - 1) as nat, k);
    }
}

/// Two candidates of one chain differ, and the later one ends in the
/// greater number.
pub proof fn lemma_candidates_differ(candidate: Seq<char>, rule: SuffixRule, m: nat, n: nat)
    requires
        m < n,
    ensures
        suffix_number(candidate_at(candidate, rule, m)) < suffix_number(
            candidate_at(candidate, rule, n),
        ),
        candidate_at(candidate, rule, m) != candidate_at(candidate, rule, n),
{
    lemma_candidate_at_sum(candidate, rule, m, (n - m) as nat);
    lemma_candidate_at(candidate_at(candidate, rule, m), rule, (n - m) as nat);
}

/// What [`first_free`] finds is the first free candidate within the budget,
/// and it finds none only where all of them are taken.
pub proof fn lemma_first_free(
    candidate: Seq<char>,
    taken: Set<Seq<char>>,
    budget: nat,
    rule: SuffixRule,
)
    ensures
        match first_free(candidate, taken, budget, rule) {
            Some(n) => n <= budget && !taken.contains(candidate_at(candidate, rule, n))
                && forall|m: nat| m < n ==> taken.contains(#[trigger] candidate_at(candidate, rule, m)),
            None => forall|m: nat|
                m <= budget ==> taken.contains(#[trigger] candidate_at(candidate, rule, m)),
        },
    decreases budget,
{
    if taken.contains(candidate) && budget > 0 {
        let next = next_candidate(candidate, rule);
        lemma_first_free(next, taken, (budget - 1) as nat, rule);
        match first_free(next, taken, (budget - 1) as nat, rule) {
            Some(n) => {
                assert forall|m: nat| m < n + 1 implies taken.contains(
                    #[trigger] candidate_at(candidate, rule, m),
                ) by {
                    if m > 0 {
                        assert(candidate_at(candidate, rule, m) == candidate_at(
                            next,
                            rule,
                            (m - 1) as nat,
                        ));
                    }
                }
            },
            None => {
                assert forall|m: nat| m <= budget implies taken.contains(
                    #[trigger] candidate_at(candidate, rule, m),
                ) by {
                    if m > 0 {
                        assert(candidate_at(candidate, rule, m) == candidate_at(
                            next,
                            rule,
                            (m - 1) as nat,
                        ));
                    }
                }
            },
        }
    }
}

/// Tells whether no character of `text` is white space.
pub open spec fn has_no_white_space(text: Seq<char>) -> bool {
    forall|i: int| 0 <= i < text.len() ==> !is_white_space(#[trigger] text[i])
}

/// What [`hyphenated`] makes of a text holds no white space.
pub proof fn lemma_hyphenated_has_no_white_space(text: Seq<char>)
    ensures
        has_no_white_space(hyphenated(text)),
    decreases text.len(),
{
    if text.len() > 0 {
        lemma_hyphenated_has_no_white_space(text.drop_last());
    }
}

/// A candidate without white space is followed by one without.
pub proof fn lemma_next_candidate_has_no_white_space(candidate: Seq<char>, rule: SuffixRule)
    requires
        has_no_white_space(candidate),
    ensures
        has_no_white_space(next_candidate(candidate, rule)),
{
    if rule == SuffixRule::Increment && trailing_digits(candidate) > 0 {
        lemma_number_of_decimal(suffix_number(candidate) + 1);
        lemma_trailing_digits(candidate);
    }
}

/// Every candidate that follows one without white space has none.
pub proof fn lemma_candidate_at_has_no_white_space(
    candidate: Seq<char>,
    rule: SuffixRule,
    n: nat,
)
    requires
        has_no_white_space(candidate),
    ensures
        has_no_white_space(candidate_at(candidate, rule, n)),
    decreases n,
{
    if n > 0 {
        lemma_next_candidate_has_no_white_space(candidate, rule);
        lemma_candidate_at_has_no_white_space(
            next_candidate(candidate, rule),
            rule,
            (n - 1) as nat,
        );
    }
}

/// No slug holds white space, whichever way it was found.
pub proof fn lemma_slug_has_no_white_space(
    title: Seq<char>,
    taken: Set<Seq<char>>,
    budget: nat,
    rule: SuffixRule,
    slug: Seq<char>,
)
    requires
        generates(title, taken, budget, rule, slug),
    ensures
        has_no_white_space(slug),
{
    match first_free(normalized(title), taken, budget, rule) {
        Some(n) => {
            lemma_hyphenated_has_no_white_space(lowercase(title));
            lemma_candidate_at_has_no_white_space(normalized(title), rule, n);
        },
        None => {},
    }
}

/// A slug that is a candidate is free in the namespace that it was made
/// for. (Of a random identifier this is taken on trust in its 122 random
/// bits.)
pub proof fn lemma_slug_is_free(
    title: Seq<char>,
    taken: Set<Seq<char>>,
    budget: nat,
    rule: SuffixRule,
    slug: Seq<char>,
)
    requires
        resolved(normalized(title), taken, budget, rule) is Some,
        generates(title, taken, budget, rule, slug),
    ensures
        !taken.contains(slug),
{
    lemma_first_free(normalized(title), taken, budget, rule);
}

/// A title whose normalized form is free gets that form as its slug,
/// whatever the budget.
pub proof fn lemma_free_title_keeps_its_form(
    title: Seq<char>,
    taken: Set<Seq<char>>,
    budget: nat,
    rule: SuffixRule,
    slug: Seq<char>,
)
    requires
        !taken.contains(normalized(title)),
        generates(title, taken, budget, rule, slug),
    ensures
        slug == normalized(title),
{
}

/// A title whose normalized form is taken gets, with a budget of one or
/// more and a free candidate within it, a suffixed variant of that form:
/// one of the candidates that follow it, free, with the same stem and a
/// greater number at its end, and so another text than the taken one.
pub proof fn lemma_taken_title_gets_suffix(
    title: Seq<char>,
    taken: Set<Seq<char>>,
    budget: nat,
    rule: SuffixRule,
    slug: Seq<char>,
)
    requires
        taken.contains(normalized(title)),
        budget >= 1,
        resolved(normalized(title), taken, budget, rule) is Some,
        generates(title, taken, budget, rule, slug),
    ensures
        slug != normalized(title),
        !taken.contains(slug),
        stem(slug) == stem(normalized(title)),
        suffix_number(slug) > suffix_number(normalized(title)),
        exists|n: nat| 1 <= n <= budget && slug == candidate_at(normalized(title), rule, n),
        !taken.contains(next_candidate(normalized(title), rule)) ==> slug == next_candidate(
            normalized(title),
            rule,
        ),
{
    let first = normalized(title);
    lemma_first_free(first, taken, budget, rule);
    let n = first_free(first, taken, budget, rule).unwrap();
    lemma_candidates_differ(first, rule, 0, n);
    lemma_candidate_at(first, rule, n);
    let next = next_candidate(first, rule);
    assert(candidate_at(first, rule, 1) == next) by {
        assert(candidate_at(next, rule, 0) == next);
    }
}

/// Repeated collisions count up: once the slug of a title is taken too, the
/// slug that the same title gets next has the same stem and ends in a
/// greater number. Both calls are taken to find a free candidate within the
/// budget.
pub proof fn lemma_repeated_collisions_count_up(
    title: Seq<char>,
    taken: Set<Seq<char>>,
    budget: nat,
    rule: SuffixRule,
    first: Seq<char>,
    second: Seq<char>,
)
    requires
        resolved(normalized(title), taken, budget, rule) is Some,
        resolved(normalized(title), taken.insert(first), budget, rule) is Some,
        generates(title, taken, budget, rule, first),
        generates(title, taken.insert(first), budget, rule, second),
    ensures
        second != first,
        stem(second) == stem(first),
        suffix_number(second) > suffix_number(first),
{
    let start = normalized(title);
    let later = taken.insert(first);
    lemma_first_free(start, taken, budget, rule);
    lemma_first_free(start, later, budget, rule);
    let m = first_free(start, taken, budget, rule).unwrap();
    let n = first_free(start, later, budget, rule).unwrap();
    lemma_candidates_differ(start, rule, m, n);
    lemma_candidate_at(start, rule, m);
    lemma_candidate_at(start, rule, n);
}

/// With no budget, a title whose normalized form is taken gets a random
/// identifier; so its slug is another text than the taken form, unless that
/// form has the shape of a random identifier itself.
pub proof fn lemma_no_budget_falls_back(
    title: Seq<char>,
    taken: Set<Seq<char>>,
    rule: SuffixRule,
    slug: Seq<char>,
)
    requires
        taken.contains(normalized(title)),
        generates(title, taken, 0, rule, slug),
    ensures
        is_random_identifier(slug),
        !is_random_identifier(normalized(title)) ==> slug != normalized(title),
{
}

/// The same title, namespace, budget and rule give the same slug, as long
/// as a candidate within the budget is free. (Where none is, each call
/// draws a random identifier of its own.)
pub proof fn lemma_generate_is_repeatable(
    title: Seq<char>,
    taken: Set<Seq<char>>,
    budget: nat,
    rule: SuffixRule,
    once: Seq<char>,
    again: Seq<char>,
)
    requires
        resolved(normalized(title), taken, budget, rule) is Some,
        generates(title, taken, budget, rule, once),
        generates(title, taken, budget, rule, again),
    ensures
        once == again,
{
}

/// A slug is empty only where the normalized title is empty and free.
pub proof fn lemma_slug_is_not_empty(
    title: Seq<char>,
    taken: Set<Seq<char>>,
    budget: nat,
    rule: SuffixRule,
    slug: Seq<char>,
)
    requires
        generates(title, taken, budget, rule, slug),
        normalized(title).len() > 0 || taken.contains(normalized(title)),
    ensures
        slug.len() > 0,
{
    let start = normalized(title);
    lemma_first_free(start, taken, budget, rule);
    match first_free(start, taken, budget, rule) {
        Some(n) => {
            if n > 0 {
                lemma_candidate_at_sum(start, rule, (n - 1) as nat, 1);
                let before = candidate_at(start, rule, (n - 1) as nat);
                assert(candidate_at(before, rule, 1) == next_candidate(before, rule)) by {
                    assert(candidate_at(next_candidate(before, rule), rule, 0) == next_candidate(
                        before,
                        rule,
                    ));
                }
                lemma_next_candidate(before, rule);
                lemma_trailing_digits(slug);
            }
        },
        None => {},
    }
}

} // verus!
