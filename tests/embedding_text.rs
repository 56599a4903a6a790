use slatehub::{
    build_location_embedding_text, build_organization_embedding_text,
    build_organization_embedding_text_at, build_person_embedding_text,
    build_production_embedding_text,
};

#[test]
fn test_person_embedding_text() {
    let text = build_person_embedding_text(
        "John Doe",
        Some("Actor"),
        Some("Experienced theater performer"),
        &vec!["acting".to_string(), "singing".to_string()],
        Some("Los Angeles, CA"),
        Some((25, 35)),
        Some("male"),
        &vec!["caucasian".to_string()],
        Some(180),
        Some("athletic"),
        Some("brown"),
        Some("blue"),
        &vec!["English".to_string(), "Spanish".to_string()],
        &vec!["SAG-AFTRA".to_string()],
        &vec!["Broadway musical theater".to_string()],
    );

    assert!(text.contains("John Doe"));
    assert!(text.contains("Actor"));
    assert!(text.contains("male"));
    assert!(text.contains("25-35 years old"));
    assert!(text.contains("Los Angeles"));
    assert!(text.contains("acting, singing"));
}

#[test]
fn test_location_embedding_text() {
    let text = build_location_embedding_text(
        "Modern Office Space",
        Some("Bright, modern office with floor-to-ceiling windows and natural light"),
        "Los Angeles",
        "CA",
        "USA",
        &vec!["natural light".to_string(), "modern furniture".to_string()],
        &vec!["no smoking".to_string()],
        Some(50),
        Some("Street parking available"),
    );

    assert!(text.contains("Modern Office Space"));
    assert!(text.contains("Los Angeles, CA"));
    assert!(text.contains("natural light"));
    assert!(text.contains("50 people"));
}

#[test]
fn person_text_full_layout() {
    let text = build_person_embedding_text(
        "John Doe",
        Some("Actor"),
        Some("Experienced theater performer"),
        &vec!["acting".to_string(), "singing".to_string()],
        Some("Los Angeles, CA"),
        Some((25, 35)),
        Some("male"),
        &vec!["caucasian".to_string()],
        Some(180),
        Some("athletic"),
        Some("brown"),
        Some("blue"),
        &vec!["English".to_string(), "Spanish".to_string()],
        &vec!["SAG-AFTRA".to_string()],
        &vec!["Broadway musical theater".to_string(), "Film".to_string()],
    );
    assert_eq!(
        text,
        "Name: John Doe. Role: Actor. Gender: male. Age range: 25-35 years old. \
         Ethnicity: caucasian. Height: 180 cm (6'0\"). Build: athletic. Hair: brown. \
         Eyes: blue. Location: Los Angeles, CA. Skills and abilities: acting, singing. \
         Languages: English, Spanish. Union membership: SAG-AFTRA. \
         Background: Experienced theater performer. \
         Experience: Broadway musical theater. Film"
    );
}

#[test]
fn person_scenario_fragments() {
    let text = build_person_embedding_text(
        "John Doe",
        Some("Actor"),
        None,
        &vec!["acting".to_string(), "singing".to_string()],
        Some("Los Angeles, CA"),
        Some((25, 35)),
        None,
        &[],
        None,
        None,
        None,
        None,
        &[],
        &[],
        &[],
    );
    assert_eq!(
        text,
        "Name: John Doe. Role: Actor. Age range: 25-35 years old. \
         Location: Los Angeles, CA. Skills and abilities: acting, singing"
    );
}

#[test]
fn person_text_name_only_has_no_empty_labels() {
    let text = build_person_embedding_text(
        "Solo", None, None, &[], None, None, None, &[], None, None, None, None, &[], &[], &[],
    );
    assert_eq!(text, "Name: Solo");
    assert!(!text.contains("Role: "));
    assert!(!text.contains("Skills and abilities: "));
}

#[test]
fn person_height_conversion() {
    let text = build_person_embedding_text(
        "A", None, None, &[], None, None, None, &[], Some(175), None, None, None, &[], &[], &[],
    );
    assert_eq!(text, "Name: A. Height: 175 cm (5'10\")");
    let negative = build_person_embedding_text(
        "B", None, None, &[], None, None, None, &[], Some(-45), None, None, None, &[], &[], &[],
    );
    assert_eq!(negative, "Name: B. Height: -45 cm (-1'-6\")");
}

#[test]
fn person_text_is_deterministic() {
    let build = || {
        build_person_embedding_text(
            "Jane Roe",
            Some("Dancer"),
            None,
            &vec!["ballet".to_string()],
            None,
            Some((20, 30)),
            Some("female"),
            &[],
            Some(165),
            None,
            Some("black"),
            None,
            &[],
            &[],
            &[],
        )
    };
    assert_eq!(build(), build());
}

#[test]
fn location_text_full_layout() {
    let text = build_location_embedding_text(
        "Warehouse",
        None,
        "Austin",
        "TX",
        "USA",
        &[],
        &vec!["no pets".to_string(), "no drones".to_string()],
        Some(200),
        None,
    );
    assert_eq!(
        text,
        "Location: Warehouse. Located in Austin, TX, USA. Maximum capacity: 200 people. \
         Restrictions: no pets, no drones"
    );
}

#[test]
fn production_schedule_forms() {
    let both = build_production_embedding_text(
        "Night Shift",
        "Feature Film",
        "Pre-production",
        Some("A thriller"),
        Some("Vancouver"),
        Some("2025-01-10"),
        Some("2025-03-01"),
    );
    assert_eq!(
        both,
        "Production: Night Shift. Type: Feature Film. Status: Pre-production. \
         Scheduled from 2025-01-10 to 2025-03-01. Filming location: Vancouver. \
         Description: A thriller"
    );
    let start_only = build_production_embedding_text(
        "Pilot", "Series", "Casting", None, None, Some("2025-06-01"), None,
    );
    assert_eq!(
        start_only,
        "Production: Pilot. Type: Series. Status: Casting. Starts on 2025-06-01"
    );
    let end_only =
        build_production_embedding_text("Short", "Short", "Wrapped", None, None, None, Some("x"));
    assert_eq!(end_only, "Production: Short. Type: Short. Status: Wrapped");
}

#[test]
fn organization_text_at_year() {
    let text = build_organization_embedding_text_at(
        "Acme Casting",
        "Casting Agency",
        Some("Talent for film"),
        &vec!["casting".to_string(), "coaching".to_string()],
        Some("New York"),
        Some(2010),
        Some(25),
        2025,
    );
    assert_eq!(
        text,
        "Organization: Acme Casting. Type: Casting Agency. Location: New York. \
         Services: casting, coaching. Established 15 years ago (founded 2010). \
         medium company with 25 employees. Description: Talent for film"
    );
}

#[test]
fn organization_size_tiers() {
    let tier = |count: i32| {
        build_organization_embedding_text_at("O", "T", None, &[], None, None, Some(count), 2000)
    };
    assert_eq!(tier(0), "Organization: O. Type: T. small company with 0 employees");
    assert_eq!(tier(10), "Organization: O. Type: T. small company with 10 employees");
    assert_eq!(tier(11), "Organization: O. Type: T. medium company with 11 employees");
    assert_eq!(tier(50), "Organization: O. Type: T. medium company with 50 employees");
    assert_eq!(tier(51), "Organization: O. Type: T. large company with 51 employees");
    assert_eq!(tier(200), "Organization: O. Type: T. large company with 200 employees");
    assert_eq!(tier(201), "Organization: O. Type: T. enterprise company with 201 employees");
}

#[test]
fn organization_text_uses_a_year() {
    let text = build_organization_embedding_text("Studio", "Studio", None, &[], None, Some(2000), None);
    assert!(text.starts_with("Organization: Studio. Type: Studio. Established "));
    assert!(text.ends_with(" years ago (founded 2000)"));
}
