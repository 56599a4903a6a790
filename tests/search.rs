use slatehub::{
    assemble_results, initial_letters_of, meets_floor, person_initials, prepare_query, rank_candidates, score,
    shape_people, Candidate, LocationHit, OrganizationHit, PersonHit, ProductionHit, RecordKind,
    RelevanceConvention, Scored, SearchError, SearchResult,
};

fn person(id: &str, name: &str) -> PersonHit {
    PersonHit {
        id: id.to_string(),
        name: name.to_string(),
        username: id.to_lowercase(),
        headline: None,
        location: None,
        skills: vec![],
        avatar_url: None,
    }
}

fn location(id: &str) -> LocationHit {
    LocationHit {
        id: id.to_string(),
        name: format!("Place {}", id),
        address: "1 Main St".to_string(),
        city: "Austin".to_string(),
        state: "TX".to_string(),
        description: None,
    }
}

fn organization(id: &str) -> OrganizationHit {
    OrganizationHit {
        id: id.to_string(),
        name: format!("Org {}", id),
        slug: id.to_string(),
        description: None,
        location: None,
        logo: None,
    }
}

fn production(id: &str) -> ProductionHit {
    ProductionHit {
        id: id.to_string(),
        title: format!("Show {}", id),
        status: "Casting".to_string(),
        description: None,
        location: None,
    }
}

fn candidate<T>(hit: T, relevance: i64, visible: bool) -> Candidate<T> {
    Candidate { hit, relevance, visible }
}

#[test]
fn distance_point_three_scores_seventy() {
    assert_eq!(score(RelevanceConvention::Distance, 300_000), 70);
    let kept = rank_candidates(
        RecordKind::Person,
        RelevanceConvention::Distance,
        vec![candidate(person("ann", "Ann Lee"), 300_000, false)],
    );
    assert_eq!(kept.len(), 1);
    assert_eq!(kept[0].score, 70);
    assert_eq!(kept[0].hit.id, "ann");
}

#[test]
fn distance_one_point_six_scores_zero_and_is_dropped() {
    assert_eq!(score(RelevanceConvention::Distance, 1_600_000), 0);
    let kept = rank_candidates(
        RecordKind::Person,
        RelevanceConvention::Distance,
        vec![candidate(person("ann", "Ann Lee"), 1_600_000, true)],
    );
    assert!(kept.is_empty());
}

#[test]
fn floor_is_exact_at_fifty() {
    assert_eq!(score(RelevanceConvention::Distance, 510_000), 49);
    assert_eq!(score(RelevanceConvention::Distance, 505_000), 50);
    assert!(!meets_floor(49));
    assert!(meets_floor(50));
    let kept = rank_candidates(
        RecordKind::Production,
        RelevanceConvention::Distance,
        vec![
            candidate(production("a"), 510_000, true),
            candidate(production("b"), 505_000, true),
        ],
    );
    assert_eq!(kept.len(), 1);
    assert_eq!(kept[0].hit.id, "b");
    assert_eq!(kept[0].score, 50);
}

#[test]
fn scores_are_monotonic() {
    let distances = [-500_000i64, 0, 100_000, 250_000, 495_000, 505_000, 999_999, 1_000_000, 2_000_000];
    for pair in distances.windows(2) {
        assert!(
            score(RelevanceConvention::Distance, pair[0])
                >= score(RelevanceConvention::Distance, pair[1])
        );
    }
    let similarities = [-1_000_000i64, 0, 4_999, 5_000, 500_000, 994_999, 995_000, 1_500_000];
    for pair in similarities.windows(2) {
        assert!(
            score(RelevanceConvention::Similarity, pair[0])
                <= score(RelevanceConvention::Similarity, pair[1])
        );
    }
}

#[test]
fn similarity_convention_values() {
    assert_eq!(score(RelevanceConvention::Similarity, 700_000), 70);
    assert_eq!(score(RelevanceConvention::Similarity, -300_000), 0);
    assert_eq!(score(RelevanceConvention::Similarity, 1_200_000), 100);
    assert_eq!(score(RelevanceConvention::Similarity, 4_999), 0);
    assert_eq!(score(RelevanceConvention::Similarity, 5_000), 1);
    assert_eq!(score(RelevanceConvention::Distance, -200_000), 100);
}

#[test]
fn invisible_locations_are_never_returned() {
    let kept = rank_candidates(
        RecordKind::Location,
        RelevanceConvention::Distance,
        vec![
            candidate(location("hidden"), 0, false),
            candidate(location("open"), 200_000, true),
            candidate(location("far"), 900_000, true),
        ],
    );
    assert_eq!(kept.len(), 1);
    assert_eq!(kept[0].hit.id, "open");
    assert_eq!(kept[0].score, 80);
}

#[test]
fn visibility_is_ignored_for_other_kinds() {
    let kept = rank_candidates(
        RecordKind::Organization,
        RelevanceConvention::Distance,
        vec![candidate(organization("o"), 0, false)],
    );
    assert_eq!(kept.len(), 1);
    assert_eq!(kept[0].score, 100);
}

#[test]
fn ranking_keeps_store_order() {
    let kept = rank_candidates(
        RecordKind::Person,
        RelevanceConvention::Distance,
        vec![
            candidate(person("a", "A"), 100_000, true),
            candidate(person("b", "B"), 700_000, true),
            candidate(person("c", "C"), 300_000, true),
        ],
    );
    let ids: Vec<&str> = kept.iter().map(|s| s.hit.id.as_str()).collect();
    assert_eq!(ids, vec!["a", "c"]);
    assert_eq!(kept[0].score, 90);
    assert_eq!(kept[1].score, 70);
}

#[test]
fn initials_take_two_words_upper_cased() {
    assert_eq!(person_initials("john doe"), "JD");
    assert_eq!(person_initials("  mary   ann smith "), "MA");
    assert_eq!(person_initials("cher"), "C");
    assert_eq!(person_initials(""), "");
    assert_eq!(person_initials("émile zola"), "ÉZ");
}

#[test]
fn empty_query_means_no_search() {
    assert!(prepare_query("").is_none());
    assert!(prepare_query("   \t\n").is_none());
    assert_eq!(prepare_query("  casting director  ").as_deref(), Some("casting director"));
    let result = SearchResult::no_query();
    assert!(!result.has_results);
    assert_eq!(result.total_results, 0);
    assert!(result.query.is_none());
    assert!(result.people.is_empty());
    assert!(result.organizations.is_empty());
    assert!(result.locations.is_empty());
    assert!(result.productions.is_empty());
}

#[test]
fn shaping_adds_initials() {
    let shaped = shape_people(vec![Scored { hit: person("p", "ann lee"), score: 88 }]);
    assert_eq!(shaped.len(), 1);
    assert_eq!(shaped[0].initials, "AL");
    assert_eq!(shaped[0].score, 88);
    assert_eq!(shaped[0].person.id, "p");
}

#[test]
fn one_failed_kind_leaves_the_others() {
    let result = assemble_results(
        "actor".to_string(),
        RelevanceConvention::Distance,
        Ok(vec![candidate(person("ann", "John Doe"), 300_000, true)]),
        Err("connection reset".to_string()),
        Ok(vec![candidate(location("l1"), 100_000, true)]),
        Ok(vec![candidate(production("x1"), 400_000, true)]),
    )
    .expect("three kinds succeeded");
    assert_eq!(result.query.as_deref(), Some("actor"));
    assert_eq!(result.people.len(), 1);
    assert_eq!(result.people[0].initials, "JD");
    assert_eq!(result.people[0].score, 70);
    assert!(result.organizations.is_empty());
    assert_eq!(result.locations.len(), 1);
    assert_eq!(result.productions.len(), 1);
    assert_eq!(result.total_results, 3);
    assert!(result.has_results);
    assert_eq!(result.unavailable, vec![RecordKind::Organization]);
}

#[test]
fn all_kinds_failing_is_a_failure() {
    let result = assemble_results(
        "actor".to_string(),
        RelevanceConvention::Distance,
        Err("a".to_string()),
        Err("b".to_string()),
        Err("c".to_string()),
        Err("d".to_string()),
    );
    match result {
        Err(SearchError::BackendUnavailable(messages)) => {
            assert_eq!(messages, vec!["a", "b", "c", "d"]);
        }
        other => panic!("expected a backend failure, got {:?}", other),
    }
}

#[test]
fn nothing_above_floor_is_zero_matches() {
    let result = assemble_results(
        "zzz".to_string(),
        RelevanceConvention::Distance,
        Ok(vec![candidate(person("p", "P"), 1_600_000, true)]),
        Ok(vec![]),
        Ok(vec![candidate(location("l"), 0, false)]),
        Ok(vec![]),
    )
    .expect("all kinds succeeded");
    assert_eq!(result.total_results, 0);
    assert!(!result.has_results);
    assert!(result.unavailable.is_empty());
    assert!(result.query.is_some());
}

#[test]
fn initial_letters_keep_case() {
    assert_eq!(initial_letters_of("john doe"), "jd");
    assert_eq!(initial_letters_of("\tVan der Berg"), "Vd");
    assert_eq!(initial_letters_of("   "), "");
}
