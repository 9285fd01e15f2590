use flopcards::data::ResourceError;
use flopcards::search::{advance, advance_with, begin, Lookup, Progress, Search, SlugRequest};
use flopcards::slug::{generate, hyphenate, next_slug, normalize, Namespace, SuffixRule};

fn namespace(name: &str, slugs: &[&str]) -> Namespace {
    let mut namespace = Namespace::new(name);
    for slug in slugs {
        assert!(namespace.insert(slug.to_string()));
    }
    namespace
}

fn looks_random(id: &str) -> bool {
    let chars: Vec<char> = id.chars().collect();
    chars.len() == 36
        && chars.iter().enumerate().all(|(i, c)| match i {
            8 | 13 | 18 | 23 => *c == '-',
            _ => matches!(c, '0'..='9' | 'a'..='f'),
        })
        && chars[14] == '4'
        && matches!(chars[19], '8' | '9' | 'a' | 'b')
}

#[test]
fn titles_are_lower_cased_and_hyphenated() {
    assert_eq!(normalize("Vocab 1"), "vocab-1");
    assert_eq!(normalize("Los  Verbos\tIrregulares"), "los-verbos-irregulares");
    assert_eq!(normalize("ÉCOLE Été"), "école-été");
    assert_eq!(normalize(" padded "), "-padded-");
    assert_eq!(normalize("   "), "-");
    assert_eq!(normalize(""), "");
    assert_eq!(normalize("already-a-slug"), "already-a-slug");
    assert_eq!(normalize("A\u{a0}\u{2003}B"), "a-b");
    assert_eq!(normalize("line\r\nbreak"), "line-break");
}

#[test]
fn hyphenate_leaves_the_case() {
    assert_eq!(hyphenate("Vocab 1"), "Vocab-1");
    assert_eq!(hyphenate("a \t b"), "a-b");
    assert_eq!(hyphenate("a-b"), "a-b");
    assert_eq!(hyphenate("a - b"), "a---b");
    assert_eq!(hyphenate("zero\u{200b}width"), "zero\u{200b}width");
}

#[test]
fn append_rule_appends_one() {
    assert_eq!(next_slug("vocab-1", SuffixRule::AppendOne), "vocab-11");
    assert_eq!(next_slug("vocab", SuffixRule::AppendOne), "vocab1");
    assert_eq!(next_slug("vocab-9", SuffixRule::AppendOne), "vocab-91");
    assert_eq!(next_slug("", SuffixRule::AppendOne), "1");
}

#[test]
fn increment_rule_counts_up() {
    assert_eq!(next_slug("vocab-1", SuffixRule::Increment), "vocab-2");
    assert_eq!(next_slug("vocab", SuffixRule::Increment), "vocab1");
    assert_eq!(next_slug("vocab-", SuffixRule::Increment), "vocab-1");
    assert_eq!(next_slug("vocab-9", SuffixRule::Increment), "vocab-10");
    assert_eq!(next_slug("vocab-19", SuffixRule::Increment), "vocab-20");
    assert_eq!(next_slug("vocab-199", SuffixRule::Increment), "vocab-200");
    assert_eq!(next_slug("vocab-999", SuffixRule::Increment), "vocab-1000");
    assert_eq!(next_slug("vocab-0", SuffixRule::Increment), "vocab-1");
    assert_eq!(next_slug("", SuffixRule::Increment), "1");
    assert_eq!(next_slug("42", SuffixRule::Increment), "43");
    assert_eq!(next_slug("a1b2", SuffixRule::Increment), "a1b3");
}

#[test]
fn increment_rule_writes_the_number_anew() {
    assert_eq!(next_slug("vocab-007", SuffixRule::Increment), "vocab-8");
    assert_eq!(next_slug("vocab-000", SuffixRule::Increment), "vocab-1");
    assert_eq!(next_slug("vocab-099", SuffixRule::Increment), "vocab-100");
    assert_eq!(next_slug("vocab-0090", SuffixRule::Increment), "vocab-91");
}

#[test]
fn increment_rule_has_no_largest_number() {
    assert_eq!(
        next_slug("n18446744073709551615", SuffixRule::Increment),
        "n18446744073709551616"
    );
    assert_eq!(
        next_slug("n99999999999999999999999999999999999999999", SuffixRule::Increment),
        "n100000000000000000000000000000000000000000"
    );
}

#[test]
fn increment_rule_counts_ascii_digits_only() {
    assert_eq!(next_slug("vocab-\u{663}", SuffixRule::Increment), "vocab-\u{663}1");
}

#[test]
fn free_title_keeps_its_normalized_form() {
    let empty = Namespace::new("spanish-sets");
    for budget in [0, 1, 10, u32::MAX] {
        for rule in [SuffixRule::AppendOne, SuffixRule::Increment] {
            assert_eq!(generate("Vocab 1", &empty, budget, rule), "vocab-1");
        }
    }
    let other = namespace("spanish-sets", &["vocab-2", "vocab", "vocab-11"]);
    assert_eq!(generate("Vocab 1", &other, 0, SuffixRule::Increment), "vocab-1");
}

#[test]
fn second_set_of_a_title_gets_a_suffix() {
    let mut sets = Namespace::new("spanish-sets");
    assert_eq!(generate("Vocab 1", &sets, 10, SuffixRule::AppendOne), "vocab-1");
    assert!(sets.insert("vocab-1".to_string()));
    assert_eq!(generate("Vocab 1", &sets, 10, SuffixRule::AppendOne), "vocab-11");
    assert_eq!(generate("Vocab 1", &sets, 10, SuffixRule::Increment), "vocab-2");
}

#[test]
fn repeated_collisions_count_up() {
    let mut sets = Namespace::new("spanish-sets");
    let mut slugs = Vec::new();
    for _ in 0..5 {
        let slug = generate("Verbs", &sets, 10, SuffixRule::Increment);
        assert!(sets.insert(slug.clone()));
        slugs.push(slug);
    }
    assert_eq!(slugs, vec!["verbs", "verbs1", "verbs2", "verbs3", "verbs4"]);
    let mut sets = Namespace::new("spanish-sets");
    let mut slugs = Vec::new();
    for _ in 0..4 {
        let slug = generate("Verbs", &sets, 10, SuffixRule::AppendOne);
        assert!(sets.insert(slug.clone()));
        slugs.push(slug);
    }
    assert_eq!(slugs, vec!["verbs", "verbs1", "verbs11", "verbs111"]);
}

#[test]
fn taken_candidates_are_passed_over() {
    let sets = namespace("n", &["vocab-1", "vocab-2", "vocab-3", "vocab-5"]);
    assert_eq!(generate("Vocab 1", &sets, 10, SuffixRule::Increment), "vocab-4");
    assert_eq!(generate("Vocab 1", &sets, 3, SuffixRule::Increment), "vocab-4");
}

#[test]
fn exhausted_budget_gives_a_random_identifier() {
    let sets = namespace("n", &["vocab-1", "vocab-2", "vocab-3"]);
    let slug = generate("Vocab 1", &sets, 0, SuffixRule::Increment);
    assert!(looks_random(&slug), "{slug}");
    assert_ne!(slug, "vocab-1");
    let slug = generate("Vocab 1", &sets, 2, SuffixRule::Increment);
    assert!(looks_random(&slug), "{slug}");
    assert!(!sets.contains(&slug));
    let slug = generate("Vocab 1", &sets, 0, SuffixRule::AppendOne);
    assert!(looks_random(&slug), "{slug}");
}

#[test]
fn random_identifiers_differ_from_call_to_call() {
    let sets = namespace("n", &["t"]);
    let once = generate("T", &sets, 0, SuffixRule::Increment);
    let again = generate("T", &sets, 0, SuffixRule::Increment);
    assert_ne!(once, again);
}

#[test]
fn same_inputs_give_the_same_slug() {
    let sets = namespace("n", &["vocab-1", "vocab-2"]);
    let before = sets.clone();
    let once = generate("Vocab 1", &sets, 10, SuffixRule::Increment);
    let again = generate("Vocab 1", &sets, 10, SuffixRule::Increment);
    assert_eq!(once, "vocab-3");
    assert_eq!(once, again);
    assert_eq!(sets, before);
}

#[test]
fn empty_title_gets_an_empty_slug_once() {
    let mut sets = Namespace::new("n");
    assert_eq!(generate("", &sets, 10, SuffixRule::Increment), "");
    assert!(sets.insert(String::new()));
    assert_eq!(generate("", &sets, 10, SuffixRule::Increment), "1");
}

#[test]
fn namespace_refuses_what_is_taken() {
    let mut sets = Namespace::new("spanish-sets");
    assert_eq!(sets.name, "spanish-sets");
    assert!(!sets.contains("verbs"));
    assert!(sets.insert("verbs".to_string()));
    assert!(sets.contains("verbs"));
    assert!(!sets.contains("Verbs"));
    let before = sets.clone();
    assert!(!sets.insert("verbs".to_string()));
    assert_eq!(sets, before);
    assert_eq!(sets.slugs, vec!["verbs"]);
}

#[test]
fn search_begins_with_the_normalized_title() {
    let request =
        SlugRequest { title: "Vocab 1".to_string(), namespace: "spanish-sets".to_string(), budget: 10 };
    assert_eq!(
        begin(request, SuffixRule::Increment),
        Search {
            namespace: "spanish-sets".to_string(),
            candidate: "vocab-1".to_string(),
            budget: 10,
            rule: SuffixRule::Increment,
        }
    );
}

fn search(candidate: &str, budget: u32, rule: SuffixRule) -> Search {
    Search { namespace: "n".to_string(), candidate: candidate.to_string(), budget, rule }
}

#[test]
fn free_candidate_ends_the_search() {
    assert_eq!(
        advance(search("vocab-1", 3, SuffixRule::Increment), Lookup::Free),
        Progress::Found("vocab-1".to_string())
    );
    assert_eq!(
        advance(search("vocab-1", 0, SuffixRule::Increment), Lookup::Free),
        Progress::Found("vocab-1".to_string())
    );
}

#[test]
fn taken_candidate_costs_one_attempt() {
    assert_eq!(
        advance(search("vocab-1", 3, SuffixRule::Increment), Lookup::Taken),
        Progress::Ask(search("vocab-2", 2, SuffixRule::Increment))
    );
    assert_eq!(
        advance(search("vocab-1", 1, SuffixRule::AppendOne), Lookup::Taken),
        Progress::Ask(search("vocab-11", 0, SuffixRule::AppendOne))
    );
}

#[test]
fn unavailable_store_fails_the_search() {
    for budget in [0, 1, 10] {
        assert_eq!(
            advance(search("vocab-1", budget, SuffixRule::Increment), Lookup::Unavailable),
            Progress::Failed(ResourceError::StorageUnavailable)
        );
        assert_eq!(
            advance_with(
                search("vocab-1", budget, SuffixRule::Increment),
                Lookup::Unavailable,
                "fallback".to_string()
            ),
            Progress::Failed(ResourceError::StorageUnavailable)
        );
    }
}

#[test]
fn last_attempt_falls_back() {
    assert_eq!(
        advance_with(search("vocab-1", 0, SuffixRule::Increment), Lookup::Taken, "f".to_string()),
        Progress::Found("f".to_string())
    );
    match advance(search("vocab-1", 0, SuffixRule::Increment), Lookup::Taken) {
        Progress::Found(slug) => assert!(looks_random(&slug), "{slug}"),
        other => panic!("{other:?}"),
    }
}

#[test]
fn fallback_is_left_alone_while_attempts_are_left() {
    assert_eq!(
        advance_with(search("a", 1, SuffixRule::Increment), Lookup::Taken, "f".to_string()),
        Progress::Ask(search("a1", 0, SuffixRule::Increment))
    );
    assert_eq!(
        advance_with(search("a", 0, SuffixRule::Increment), Lookup::Free, "f".to_string()),
        Progress::Found("a".to_string())
    );
}

fn run(title: &str, sets: &Namespace, budget: u32, rule: SuffixRule) -> String {
    let request =
        SlugRequest { title: title.to_string(), namespace: sets.name.clone(), budget };
    let mut search = begin(request, rule);
    let mut asked = 0;
    loop {
        asked += 1;
        assert!(asked <= budget as u64 + 1);
        let lookup = if sets.contains(&search.candidate) { Lookup::Taken } else { Lookup::Free };
        match advance_with(search, lookup, "fallback".to_string()) {
            Progress::Ask(next) => search = next,
            Progress::Found(slug) => return slug,
            Progress::Failed(error) => panic!("{error:?}"),
        }
    }
}

#[test]
fn search_and_generate_agree() {
    let sets = namespace("n", &["vocab-1", "vocab-2", "vocab-11", "vocab-111"]);
    for rule in [SuffixRule::AppendOne, SuffixRule::Increment] {
        for budget in 0..6 {
            let searched = run("Vocab 1", &sets, budget, rule);
            let generated = generate("Vocab 1", &sets, budget, rule);
            if searched == "fallback" {
                assert!(looks_random(&generated));
            } else {
                assert_eq!(searched, generated);
            }
        }
    }
    assert_eq!(run("Vocab 1", &sets, 2, SuffixRule::Increment), "vocab-3");
    assert_eq!(run("Vocab 1", &sets, 3, SuffixRule::AppendOne), "vocab-1111");
    assert_eq!(run("Vocab 1", &sets, 2, SuffixRule::AppendOne), "fallback");
}
