use vstd::prelude::*;
use vstd::string::*;
use chrono::Datelike;

use crate::text::{join_strings, seq_join, signed_text, views, decimal};

verus! {

/// A fragment `label` + `value` when the value is present, nothing when absent.
pub open spec fn opt_part(label: Seq<char>, value: Option<&str>) -> Seq<Seq<char>> {
    match value {
        Some(v) => seq![label + v@],
        None => Seq::empty(),
    }
}

/// A fragment `label` + the items joined with `sep`, nothing when the list is empty.
pub open spec fn list_part(label: Seq<char>, items: Seq<String>, sep: Seq<char>) -> Seq<Seq<char>> {
    if items.len() == 0 {
        Seq::empty()
    } else {
        seq![label + seq_join(views(items), sep)]
    }
}

/// The separator between the fragments of a canonical text.
pub open spec fn fragment_sep() -> Seq<char> {
    ". "@
}

/// Whole feet of a height in centimetres, at 30 cm to the foot, truncated toward zero.
pub open spec fn height_feet(h: int) -> int {
    if h >= 0 { h / 30 } else { -((-h) / 30) }
}

/// Inches left over after the whole feet, truncated toward zero.
pub open spec fn height_inches(h: int) -> int {
    if h >= 0 { (h % 30) * 12 / 30 } else { -(((-h) % 30) * 12 / 30) }
}

pub open spec fn age_part(age_range: Option<(i32, i32)>) -> Seq<Seq<char>> {
    match age_range {
        Some((lo, hi)) => seq![
            "Age range: "@ + decimal(lo as int) + "-"@ + decimal(hi as int) + " years old"@
        ],
        None => Seq::empty(),
    }
}

pub open spec fn height_part(height_cm: Option<i32>) -> Seq<Seq<char>> {
    match height_cm {
        Some(h) => seq![
            "Height: "@ + decimal(h as int) + " cm ("@ + decimal(height_feet(h as int)) + "'"@
                + decimal(height_inches(h as int)) + "\")"@
        ],
        None => Seq::empty(),
    }
}

/// The fragments of a person's canonical text, in order.
pub open spec fn person_parts(
    name: &str,
    headline: Option<&str>,
    bio: Option<&str>,
    skills: Seq<String>,
    location: Option<&str>,
    age_range: Option<(i32, i32)>,
    gender: Option<&str>,
    ethnicity: Seq<String>,
    height_cm: Option<i32>,
    body_type: Option<&str>,
    hair_color: Option<&str>,
    eye_color: Option<&str>,
    languages: Seq<String>,
    unions: Seq<String>,
    experience: Seq<String>,
) -> Seq<Seq<char>> {
    seq!["Name: "@ + name@]
        + opt_part("Role: "@, headline)
        + opt_part("Gender: "@, gender)
        + age_part(age_range)
        + list_part("Ethnicity: "@, ethnicity, ", "@)
        + height_part(height_cm)
        + opt_part("Build: "@, body_type)
        + opt_part("Hair: "@, hair_color)
        + opt_part("Eyes: "@, eye_color)
        + opt_part("Location: "@, location)
        + list_part("Skills and abilities: "@, skills, ", "@)
        + list_part("Languages: "@, languages, ", "@)
        + list_part("Union membership: "@, unions, ", "@)
        + opt_part("Background: "@, bio)
        + list_part("Experience: "@, experience, ". "@)
}

proof fn lemma_views_push(s: Seq<String>, x: String)
    ensures
        views(s.push(x)) == views(s).push(x@),
{
    assert(views(s.push(x)) =~= views(s).push(x@));
}

fn labeled(label: &str, value: &str) -> (r: String)
    ensures
        r@ == label@ + value@,
{
    String::from_str(label).concat(value)
}

fn push_part(parts: &mut Vec<String>, part: String)
    ensures
        views(final(parts)@) == views(old(parts)@) + seq![part@],
{
    proof {
        lemma_views_push(parts@, part);
    }
    let ghost before = parts@;
    parts.push(part);
    assert(views(before) + seq![part@] =~= views(before).push(part@));
}

fn push_opt(parts: &mut Vec<String>, label: &str, value: Option<&str>)
    ensures
        views(final(parts)@) == views(old(parts)@) + opt_part(label@, value),
{
    match value {
        Some(v) => {
            let part = labeled(label, v);
            push_part(parts, part);
        },
        None => {
            assert(views(parts@) + opt_part(label@, value) =~= views(parts@));
        },
    }
}

fn push_list(parts: &mut Vec<String>, label: &str, items: &[String], sep: &str)
    ensures
        views(final(parts)@) == views(old(parts)@) + list_part(label@, items@, sep@),
{
    if items.len() == 0 {
        assert(views(parts@) + list_part(label@, items@, sep@) =~= views(parts@));
    } else {
        let joined = join_strings(items, sep);
        let part = labeled(label, joined.as_str());
        push_part(parts, part);
    }
}

fn push_age(parts: &mut Vec<String>, age_range: Option<(i32, i32)>)
    ensures
        views(final(parts)@) == views(old(parts)@) + age_part(age_range),
{
    match age_range {
        Some((lo, hi)) => {
            let mut s = String::from_str("Age range: ");
            s.append(signed_text(lo as i64).as_str());
            s.append("-");
            s.append(signed_text(hi as i64).as_str());
            s.append(" years old");
            push_part(parts, s);
        },
        None => {
            assert(views(parts@) + age_part(age_range) =~= views(parts@));
        },
    }
}

fn push_height(parts: &mut Vec<String>, height_cm: Option<i32>)
    ensures
        views(final(parts)@) == views(old(parts)@) + height_part(height_cm),
{
    match height_cm {
        Some(h) => {
            let magnitude: u64 = if h >= 0 { h as u64 } else { (-(h as i64)) as u64 };
            let whole: i64 = (magnitude / 30) as i64;
            let rest: i64 = ((magnitude % 30) * 12 / 30) as i64;
            let feet: i64 = if h >= 0 { whole } else { -whole };
            let inches: i64 = if h >= 0 { rest } else { -rest };
            assert(feet == height_feet(h as int));
            assert(inches == height_inches(h as int));
            let mut s = String::from_str("Height: ");
            s.append(signed_text(h as i64).as_str());
            s.append(" cm (");
            s.append(signed_text(feet).as_str());
            s.append("'");
            s.append(signed_text(inches).as_str());
            s.append("\")");
            push_part(parts, s);
        },
        None => {
            assert(views(parts@) + height_part(height_cm) =~= views(parts@));
        },
    }
}

/// Canonical embedding text of a person: labelled fragments for the name and
/// each present attribute, in a fixed order, joined with ". ".
pub fn build_person_embedding_text(
    name: &str,
    headline: Option<&str>,
    bio: Option<&str>,
    skills: &[String],
    location: Option<&str>,
    age_range: Option<(i32, i32)>,
    gender: Option<&str>,
    ethnicity: &[String],
    height_cm: Option<i32>,
    body_type: Option<&str>,
    hair_color: Option<&str>,
    eye_color: Option<&str>,
    languages: &[String],
    unions: &[String],
    experience: &[String],
) -> (r: String)
    ensures
        r@ == seq_join(
            person_parts(
                name, headline, bio, skills@, location, age_range, gender, ethnicity@,
                height_cm, body_type, hair_color, eye_color, languages@, unions@, experience@,
            ),
            fragment_sep(),
        ),
{
    let mut parts: Vec<String> = Vec::new();
    assert(views(parts@) =~= Seq::<Seq<char>>::empty());
    push_part(&mut parts, labeled("Name: ", name));
    push_opt(&mut parts, "Role: ", headline);
    push_opt(&mut parts, "Gender: ", gender);
    push_age(&mut parts, age_range);
    push_list(&mut parts, "Ethnicity: ", ethnicity, ", ");
    push_height(&mut parts, height_cm);
    push_opt(&mut parts, "Build: ", body_type);
    push_opt(&mut parts, "Hair: ", hair_color);
    push_opt(&mut parts, "Eyes: ", eye_color);
    push_opt(&mut parts, "Location: ", location);
    push_list(&mut parts, "Skills and abilities: ", skills, ", ");
    push_list(&mut parts, "Languages: ", languages, ", ");
    push_list(&mut parts, "Union membership: ", unions, ", ");
    push_opt(&mut parts, "Background: ", bio);
    push_list(&mut parts, "Experience: ", experience, ". ");
    assert(views(parts@) =~= person_parts(
        name, headline, bio, skills@, location, age_range, gender, ethnicity@,
        height_cm, body_type, hair_color, eye_color, languages@, unions@, experience@,
    ));
    join_strings(parts.as_slice(), ". ")
}


/// The fragments of a location's canonical text, in order.
pub open spec fn location_parts(
    name: &str,
    description: Option<&str>,
    city: &str,
    state: &str,
    country: &str,
    amenities: Seq<String>,
    restrictions: Seq<String>,
    max_capacity: Option<i32>,
    parking_info: Option<&str>,
) -> Seq<Seq<char>> {
    seq![
        "Location: "@ + name@,
        "Located in "@ + city@ + ", "@ + state@ + ", "@ + country@
    ]
        + opt_part("Description: "@, description)
        + list_part("Amenities and features: "@, amenities, ", "@)
        + capacity_part(max_capacity)
        + opt_part("Parking: "@, parking_info)
        + list_part("Restrictions: "@, restrictions, ", "@)
}

pub open spec fn capacity_part(max_capacity: Option<i32>) -> Seq<Seq<char>> {
    match max_capacity {
        Some(c) => seq!["Maximum capacity: "@ + decimal(c as int) + " people"@],
        None => Seq::empty(),
    }
}

fn push_capacity(parts: &mut Vec<String>, max_capacity: Option<i32>)
    ensures
        views(final(parts)@) == views(old(parts)@) + capacity_part(max_capacity),
{
    match max_capacity {
        Some(c) => {
            let mut s = String::from_str("Maximum capacity: ");
            s.append(signed_text(c as i64).as_str());
            s.append(" people");
            push_part(parts, s);
        },
        None => {
            assert(views(parts@) + capacity_part(max_capacity) =~= views(parts@));
        },
    }
}

/// Canonical embedding text of a filming location: its name, its place, and
/// each present attribute, in a fixed order, joined with ". ".
pub fn build_location_embedding_text(
    name: &str,
    description: Option<&str>,
    city: &str,
    state: &str,
    country: &str,
    amenities: &[String],
    restrictions: &[String],
    max_capacity: Option<i32>,
    parking_info: Option<&str>,
) -> (r: String)
    ensures
        r@ == seq_join(
            location_parts(
                name, description, city, state, country, amenities@, restrictions@,
                max_capacity, parking_info,
            ),
            fragment_sep(),
        ),
{
    let mut parts: Vec<String> = Vec::new();
    assert(views(parts@) =~= Seq::<Seq<char>>::empty());
    push_part(&mut parts, labeled("Location: ", name));
    let mut place = String::from_str("Located in ");
    place.append(city);
    place.append(", ");
    place.append(state);
    place.append(", ");
    place.append(country);
    push_part(&mut parts, place);
    push_opt(&mut parts, "Description: ", description);
    push_list(&mut parts, "Amenities and features: ", amenities, ", ");
    push_capacity(&mut parts, max_capacity);
    push_opt(&mut parts, "Parking: ", parking_info);
    push_list(&mut parts, "Restrictions: ", restrictions, ", ");
    assert(views(parts@) =~= location_parts(
        name, description, city, state, country, amenities@, restrictions@, max_capacity,
        parking_info,
    ));
    join_strings(parts.as_slice(), ". ")
}

/// The scheduling fragment: both dates, the start alone, or nothing.
pub open spec fn schedule_part(start_date: Option<&str>, end_date: Option<&str>) -> Seq<Seq<char>> {
    match (start_date, end_date) {
        (Some(start), Some(end)) => seq!["Scheduled from "@ + start@ + " to "@ + end@],
        (Some(start), None) => seq!["Starts on "@ + start@],
        _ => Seq::empty(),
    }
}

/// The fragments of a production's canonical text, in order.
pub open spec fn production_parts(
    title: &str,
    production_type: &str,
    status: &str,
    description: Option<&str>,
    location: Option<&str>,
    start_date: Option<&str>,
    end_date: Option<&str>,
) -> Seq<Seq<char>> {
    seq!["Production: "@ + title@, "Type: "@ + production_type@, "Status: "@ + status@]
        + schedule_part(start_date, end_date)
        + opt_part("Filming location: "@, location)
        + opt_part("Description: "@, description)
}

fn push_schedule(parts: &mut Vec<String>, start_date: Option<&str>, end_date: Option<&str>)
    ensures
        views(final(parts)@) == views(old(parts)@) + schedule_part(start_date, end_date),
{
    match start_date {
        Some(start) => match end_date {
            Some(end) => {
                let mut s = String::from_str("Scheduled from ");
                s.append(start);
                s.append(" to ");
                s.append(end);
                push_part(parts, s);
            },
            None => {
                push_part(parts, labeled("Starts on ", start));
            },
        },
        None => {
            assert(views(parts@) + schedule_part(start_date, end_date) =~= views(parts@));
        },
    }
}

/// Canonical embedding text of a production: title, type, status, schedule,
/// filming location and description, each when present, joined with ". ".
pub fn build_production_embedding_text(
    title: &str,
    production_type: &str,
    status: &str,
    description: Option<&str>,
    location: Option<&str>,
    start_date: Option<&str>,
    end_date: Option<&str>,
) -> (r: String)
    ensures
        r@ == seq_join(
            production_parts(
                title, production_type, status, description, location, start_date, end_date,
            ),
            fragment_sep(),
        ),
{
    let mut parts: Vec<String> = Vec::new();
    assert(views(parts@) =~= Seq::<Seq<char>>::empty());
    push_part(&mut parts, labeled("Production: ", title));
    push_part(&mut parts, labeled("Type: ", production_type));
    push_part(&mut parts, labeled("Status: ", status));
    push_schedule(&mut parts, start_date, end_date);
    push_opt(&mut parts, "Filming location: ", location);
    push_opt(&mut parts, "Description: ", description);
    assert(views(parts@) =~= production_parts(
        title, production_type, status, description, location, start_date, end_date,
    ));
    join_strings(parts.as_slice(), ". ")
}

/// Size tier of an organization by head count; counts outside 0..=200 fall
/// into the last tier.
pub open spec fn size_tier(count: int) -> Seq<char> {
    if 0 <= count <= 10 {
        "small"@
    } else if 11 <= count <= 50 {
        "medium"@
    } else if 51 <= count <= 200 {
        "large"@
    } else {
        "enterprise"@
    }
}

pub open spec fn founded_part(founded_year: Option<i32>, current_year: int) -> Seq<Seq<char>> {
    match founded_year {
        Some(y) => seq![
            "Established "@ + decimal(current_year - y) + " years ago (founded "@ + decimal(y as int)
                + ")"@
        ],
        None => Seq::empty(),
    }
}

pub open spec fn size_part(employees_count: Option<i32>) -> Seq<Seq<char>> {
    match employees_count {
        Some(c) => seq![size_tier(c as int) + " company with "@ + decimal(c as int) + " employees"@],
        None => Seq::empty(),
    }
}

/// The fragments of an organization's canonical text, in order, as of `current_year`.
pub open spec fn organization_parts(
    name: &str,
    org_type: &str,
    description: Option<&str>,
    services: Seq<String>,
    location: Option<&str>,
    founded_year: Option<i32>,
    employees_count: Option<i32>,
    current_year: int,
) -> Seq<Seq<char>> {
    seq!["Organization: "@ + name@, "Type: "@ + org_type@]
        + opt_part("Location: "@, location)
        + list_part("Services: "@, services, ", "@)
        + founded_part(founded_year, current_year)
        + size_part(employees_count)
        + opt_part("Description: "@, description)
}

fn size_tier_text(count: i32) -> (r: &'static str)
    ensures
        r@ == size_tier(count as int),
{
    if 0 <= count && count <= 10 {
        "small"
    } else if 11 <= count && count <= 50 {
        "medium"
    } else if 51 <= count && count <= 200 {
        "large"
    } else {
        "enterprise"
    }
}

fn push_founded(parts: &mut Vec<String>, founded_year: Option<i32>, current_year: i32)
    ensures
        views(final(parts)@) == views(old(parts)@) + founded_part(founded_year, current_year as int),
{
    match founded_year {
        Some(y) => {
            let age: i64 = current_year as i64 - y as i64;
            let mut s = String::from_str("Established ");
            s.append(signed_text(age).as_str());
            s.append(" years ago (founded ");
            s.append(signed_text(y as i64).as_str());
            s.append(")");
            push_part(parts, s);
        },
        None => {
            assert(views(parts@) + founded_part(founded_year, current_year as int) =~= views(parts@));
        },
    }
}

fn push_size(parts: &mut Vec<String>, employees_count: Option<i32>)
    ensures
        views(final(parts)@) == views(old(parts)@) + size_part(employees_count),
{
    match employees_count {
        Some(c) => {
            let mut s = String::from_str(size_tier_text(c));
            s.append(" company with ");
            s.append(signed_text(c as i64).as_str());
            s.append(" employees");
            push_part(parts, s);
        },
        None => {
            assert(views(parts@) + size_part(employees_count) =~= views(parts@));
        },
    }
}

/// Canonical embedding text of an organization as of the given calendar year,
/// which dates the "founded N years ago" fragment.
pub fn build_organization_embedding_text_at(
    name: &str,
    org_type: &str,
    description: Option<&str>,
    services: &[String],
    location: Option<&str>,
    founded_year: Option<i32>,
    employees_count: Option<i32>,
    current_year: i32,
) -> (r: String)
    ensures
        r@ == seq_join(
            organization_parts(
                name, org_type, description, services@, location, founded_year, employees_count,
                current_year as int,
            ),
            fragment_sep(),
        ),
{
    let mut parts: Vec<String> = Vec::new();
    assert(views(parts@) =~= Seq::<Seq<char>>::empty());
    push_part(&mut parts, labeled("Organization: ", name));
    push_part(&mut parts, labeled("Type: ", org_type));
    push_opt(&mut parts, "Location: ", location);
    push_list(&mut parts, "Services: ", services, ", ");
    push_founded(&mut parts, founded_year, current_year);
    push_size(&mut parts, employees_count);
    push_opt(&mut parts, "Description: ", description);
    assert(views(parts@) =~= organization_parts(
        name, org_type, description, services@, location, founded_year, employees_count,
        current_year as int,
    ));
    join_strings(parts.as_slice(), ". ")
}

/// Relies on std's `SystemTime::now` and `SystemTime::duration_since`: the
/// whole seconds since the Unix epoch, or `None` when the clock reads before
/// the epoch or beyond what `i64` holds. It depends on the clock, so nothing
/// more is promised.
#[verifier::external_body]
fn clock_seconds() -> (r: Option<i64>) {
    match std::time::SystemTime::now().duration_since(std::time::UNIX_EPOCH) {
        Ok(d) => i64::try_from(d.as_secs()).ok(),
        Err(_) => None,
    }
}

/// Relies on chrono's `DateTime::from_timestamp` and its `Datelike::year`:
/// the UTC calendar year of a Unix time, `None` outside chrono's range.
#[verifier::external_body]
fn utc_year(seconds: i64) -> (r: Option<i32>) {
    match chrono::DateTime::from_timestamp(seconds, 0) {
        Some(t) => Some(t.year()),
        None => None,
    }
}

/// Canonical embedding text of an organization, dated by the current UTC
/// year. When the clock cannot be read, the "founded N years ago" fragment
/// is left out.
pub fn build_organization_embedding_text(
    name: &str,
    org_type: &str,
    description: Option<&str>,
    services: &[String],
    location: Option<&str>,
    founded_year: Option<i32>,
    employees_count: Option<i32>,
) -> (r: String)
    ensures
        (exists|year: i32|
            r@ == seq_join(
                #[trigger] organization_parts(
                    name, org_type, description, services@, location, founded_year,
                    employees_count, year as int,
                ),
                fragment_sep(),
            ))
        || r@ == seq_join(
            organization_parts(name, org_type, description, services@, location, None, employees_count, 0),
            fragment_sep(),
        ),
{
    let year = match clock_seconds() {
        Some(seconds) => utc_year(seconds),
        None => None,
    };
    match year {
        Some(y) => build_organization_embedding_text_at(
            name, org_type, description, services, location, founded_year, employees_count, y,
        ),
        None => build_organization_embedding_text_at(
            name, org_type, description, services, location, None, employees_count, 0,
        ),
    }
}

/// The first four characters of a text.
pub open spec fn head(s: Seq<char>) -> (char, char, char, char) {
    (s[0], s[1], s[2], s[3])
}

/// Whether `s` begins with `p`.
pub open spec fn has_prefix(s: Seq<char>, p: Seq<char>) -> bool {
    p.len() <= s.len() && s.subrange(0, p.len() as int) == p
}

/// No fragment begins with `label`.
#[verifier::opaque]
pub open spec fn no_fragment(parts: Seq<Seq<char>>, label: Seq<char>) -> bool {
    forall|i: int| 0 <= i < parts.len() ==> !has_prefix(#[trigger] parts[i], label)
}

/// Labels that no fragment can begin with both: their first four characters differ.
pub open spec fn distinct_labels(a: Seq<char>, b: Seq<char>) -> bool {
    a.len() >= 4 && b.len() >= 4 && head(a) != head(b)
}

proof fn lemma_fragment_avoids(label: Seq<char>, value: Seq<char>, other: Seq<char>)
    requires
        distinct_labels(label, other),
    ensures
        !has_prefix(label + value, other),
{
    if has_prefix(label + value, other) {
        let f = label + value;
        assert(f.subrange(0, other.len() as int)[0] == other[0]);
        assert(f.subrange(0, other.len() as int)[1] == other[1]);
        assert(f.subrange(0, other.len() as int)[2] == other[2]);
        assert(f.subrange(0, other.len() as int)[3] == other[3]);
    }
}

proof fn lemma_concat_avoids(a: Seq<Seq<char>>, b: Seq<Seq<char>>, label: Seq<char>)
    requires
        no_fragment(a, label),
        no_fragment(b, label),
    ensures
        no_fragment(a + b, label),
{
    reveal(no_fragment);
    assert forall|i: int| 0 <= i < (a + b).len() implies !has_prefix(#[trigger] (a + b)[i], label) by {
        if i >= a.len() {
            assert((a + b)[i] == b[i - a.len()]);
        }
    }
}

proof fn lemma_single_avoids(label: Seq<char>, value: Seq<char>, other: Seq<char>)
    requires
        distinct_labels(label, other),
    ensures
        no_fragment(seq![label + value], other),
{
    reveal(no_fragment);
    lemma_fragment_avoids(label, value, other);
}

proof fn lemma_opt_avoids(label: Seq<char>, value: Option<&str>, other: Seq<char>)
    requires
        value is None || distinct_labels(label, other),
    ensures
        no_fragment(opt_part(label, value), other),
{
    reveal(no_fragment);
    if let Some(v) = value {
        lemma_single_avoids(label, v@, other);
    }
}

proof fn lemma_list_avoids(label: Seq<char>, items: Seq<String>, sep: Seq<char>, other: Seq<char>)
    requires
        items.len() == 0 || distinct_labels(label, other),
    ensures
        no_fragment(list_part(label, items, sep), other),
{
    reveal(no_fragment);
    if items.len() > 0 {
        lemma_single_avoids(label, seq_join(views(items), sep), other);
    }
}

/// The attributes of a person, in the order of `build_person_embedding_text`'s parameters.
pub type PersonAttributes<'a> = (
    &'a str,
    Option<&'a str>,
    Option<&'a str>,
    Seq<String>,
    Option<&'a str>,
    Option<(i32, i32)>,
    Option<&'a str>,
    Seq<String>,
    Option<i32>,
    Option<&'a str>,
    Option<&'a str>,
    Option<&'a str>,
    Seq<String>,
    Seq<String>,
    Seq<String>,
);

/// No fragment of a person's text begins with `other` when each attribute
/// is absent or carries a label distinct from it.
#[verifier::spinoff_prover]
#[verifier::rlimit(40)]
proof fn lemma_person_avoids(a: PersonAttributes, other: Seq<char>)
    requires
        distinct_labels("Name: "@, other),
        a.1 is None || distinct_labels("Role: "@, other),
        a.6 is None || distinct_labels("Gender: "@, other),
        a.5 is None || distinct_labels("Age range: "@, other),
        a.7.len() == 0 || distinct_labels("Ethnicity: "@, other),
        a.8 is None || distinct_labels("Height: "@, other),
        a.9 is None || distinct_labels("Build: "@, other),
        a.10 is None || distinct_labels("Hair: "@, other),
        a.11 is None || distinct_labels("Eyes: "@, other),
        a.4 is None || distinct_labels("Location: "@, other),
        a.3.len() == 0 || distinct_labels("Skills and abilities: "@, other),
        a.12.len() == 0 || distinct_labels("Languages: "@, other),
        a.13.len() == 0 || distinct_labels("Union membership: "@, other),
        a.2 is None || distinct_labels("Background: "@, other),
        a.14.len() == 0 || distinct_labels("Experience: "@, other),
    ensures
        no_fragment(person_parts(a.0, a.1, a.2, a.3, a.4, a.5, a.6, a.7, a.8, a.9, a.10, a.11, a.12, a.13, a.14), other),
{
    let mut acc = seq!["Name: "@ + a.0@];
    lemma_single_avoids("Name: "@, a.0@, other);
    lemma_opt_avoids("Role: "@, a.1, other);
    lemma_concat_avoids(acc, opt_part("Role: "@, a.1), other);
    acc = acc + opt_part("Role: "@, a.1);
    lemma_opt_avoids("Gender: "@, a.6, other);
    lemma_concat_avoids(acc, opt_part("Gender: "@, a.6), other);
    acc = acc + opt_part("Gender: "@, a.6);
    lemma_age_avoids(a.5, other);
    lemma_concat_avoids(acc, age_part(a.5), other);
    acc = acc + age_part(a.5);
    lemma_list_avoids("Ethnicity: "@, a.7, ", "@, other);
    lemma_concat_avoids(acc, list_part("Ethnicity: "@, a.7, ", "@), other);
    acc = acc + list_part("Ethnicity: "@, a.7, ", "@);
    lemma_height_avoids(a.8, other);
    lemma_concat_avoids(acc, height_part(a.8), other);
    acc = acc + height_part(a.8);
    lemma_opt_avoids("Build: "@, a.9, other);
    lemma_concat_avoids(acc, opt_part("Build: "@, a.9), other);
    acc = acc + opt_part("Build: "@, a.9);
    lemma_opt_avoids("Hair: "@, a.10, other);
    lemma_concat_avoids(acc, opt_part("Hair: "@, a.10), other);
    acc = acc + opt_part("Hair: "@, a.10);
    lemma_opt_avoids("Eyes: "@, a.11, other);
    lemma_concat_avoids(acc, opt_part("Eyes: "@, a.11), other);
    acc = acc + opt_part("Eyes: "@, a.11);
    lemma_opt_avoids("Location: "@, a.4, other);
    lemma_concat_avoids(acc, opt_part("Location: "@, a.4), other);
    acc = acc + opt_part("Location: "@, a.4);
    lemma_list_avoids("Skills and abilities: "@, a.3, ", "@, other);
    lemma_concat_avoids(acc, list_part("Skills and abilities: "@, a.3, ", "@), other);
    acc = acc + list_part("Skills and abilities: "@, a.3, ", "@);
    lemma_list_avoids("Languages: "@, a.12, ", "@, other);
    lemma_concat_avoids(acc, list_part("Languages: "@, a.12, ", "@), other);
    acc = acc + list_part("Languages: "@, a.12, ", "@);
    lemma_list_avoids("Union membership: "@, a.13, ", "@, other);
    lemma_concat_avoids(acc, list_part("Union membership: "@, a.13, ", "@), other);
    acc = acc + list_part("Union membership: "@, a.13, ", "@);
    lemma_opt_avoids("Background: "@, a.2, other);
    lemma_concat_avoids(acc, opt_part("Background: "@, a.2), other);
    acc = acc + opt_part("Background: "@, a.2);
    lemma_list_avoids("Experience: "@, a.14, ". "@, other);
    lemma_concat_avoids(acc, list_part("Experience: "@, a.14, ". "@), other);
}

proof fn lemma_age_avoids(age_range: Option<(i32, i32)>, other: Seq<char>)
    requires
        age_range is None || distinct_labels("Age range: "@, other),
    ensures
        no_fragment(age_part(age_range), other),
{
    reveal(no_fragment);
    if let Some((lo, hi)) = age_range {
        let v = decimal(lo as int) + "-"@ + decimal(hi as int) + " years old"@;
        assert(age_part(age_range)[0] =~= "Age range: "@ + v);
        assert(age_part(age_range) =~= seq!["Age range: "@ + v]);
        lemma_single_avoids("Age range: "@, v, other);
    }
}

proof fn lemma_height_avoids(height_cm: Option<i32>, other: Seq<char>)
    requires
        height_cm is None || distinct_labels("Height: "@, other),
    ensures
        no_fragment(height_part(height_cm), other),
{
    reveal(no_fragment);
    if let Some(h) = height_cm {
        let v = decimal(h as int) + " cm ("@ + decimal(height_feet(h as int)) + "'"@
            + decimal(height_inches(h as int)) + "\")"@;
        assert(height_part(height_cm)[0] =~= "Height: "@ + v);
        assert(height_part(height_cm) =~= seq!["Height: "@ + v]);
        lemma_single_avoids("Height: "@, v, other);
    }
}

/// An absent attribute of a person leaves no fragment with its label: no
/// empty "Label: " ever appears.
pub proof fn lemma_person_absent_fields(
    name: &str,
    headline: Option<&str>,
    bio: Option<&str>,
    skills: Seq<String>,
    location: Option<&str>,
    age_range: Option<(i32, i32)>,
    gender: Option<&str>,
    ethnicity: Seq<String>,
    height_cm: Option<i32>,
    body_type: Option<&str>,
    hair_color: Option<&str>,
    eye_color: Option<&str>,
    languages: Seq<String>,
    unions: Seq<String>,
    experience: Seq<String>,
)
    ensures
        ({
            let parts = person_parts(
                name, headline, bio, skills, location, age_range, gender, ethnicity, height_cm,
                body_type, hair_color, eye_color, languages, unions, experience,
            );
            &&& headline is None ==> no_fragment(parts, "Role: "@)
            &&& gender is None ==> no_fragment(parts, "Gender: "@)
            &&& age_range is None ==> no_fragment(parts, "Age range: "@)
            &&& ethnicity.len() == 0 ==> no_fragment(parts, "Ethnicity: "@)
            &&& height_cm is None ==> no_fragment(parts, "Height: "@)
            &&& body_type is None ==> no_fragment(parts, "Build: "@)
            &&& hair_color is None ==> no_fragment(parts, "Hair: "@)
            &&& eye_color is None ==> no_fragment(parts, "Eyes: "@)
            &&& location is None ==> no_fragment(parts, "Location: "@)
            &&& skills.len() == 0 ==> no_fragment(parts, "Skills and abilities: "@)
            &&& languages.len() == 0 ==> no_fragment(parts, "Languages: "@)
            &&& unions.len() == 0 ==> no_fragment(parts, "Union membership: "@)
            &&& bio is None ==> no_fragment(parts, "Background: "@)
            &&& experience.len() == 0 ==> no_fragment(parts, "Experience: "@)
        }),
{
    reveal_strlit("Name: ");
    reveal_strlit("Role: ");
    reveal_strlit("Gender: ");
    reveal_strlit("Age range: ");
    reveal_strlit("Ethnicity: ");
    reveal_strlit("Height: ");
    reveal_strlit("Build: ");
    reveal_strlit("Hair: ");
    reveal_strlit("Eyes: ");
    reveal_strlit("Location: ");
    reveal_strlit("Skills and abilities: ");
    reveal_strlit("Languages: ");
    reveal_strlit("Union membership: ");
    reveal_strlit("Background: ");
    reveal_strlit("Experience: ");
    let parts = person_parts(
        name, headline, bio, skills, location, age_range, gender, ethnicity, height_cm, body_type,
        hair_color, eye_color, languages, unions, experience,
    );
    let args = (name, headline, bio, skills, location, age_range, gender, ethnicity, height_cm,
        body_type, hair_color, eye_color, languages, unions, experience);
    if headline is None {
        lemma_person_avoids(args, "Role: "@);
    }
    if gender is None {
        lemma_person_avoids(args, "Gender: "@);
    }
    if age_range is None {
        lemma_person_avoids(args, "Age range: "@);
    }
    if ethnicity.len() == 0 {
        lemma_person_avoids(args, "Ethnicity: "@);
    }
    if height_cm is None {
        lemma_person_avoids(args, "Height: "@);
    }
    if body_type is None {
        lemma_person_avoids(args, "Build: "@);
    }
    if hair_color is None {
        lemma_person_avoids(args, "Hair: "@);
    }
    if eye_color is None {
        lemma_person_avoids(args, "Eyes: "@);
    }
    if location is None {
        lemma_person_avoids(args, "Location: "@);
    }
    if skills.len() == 0 {
        lemma_person_avoids(args, "Skills and abilities: "@);
    }
    if languages.len() == 0 {
        lemma_person_avoids(args, "Languages: "@);
    }
    if unions.len() == 0 {
        lemma_person_avoids(args, "Union membership: "@);
    }
    if bio is None {
        lemma_person_avoids(args, "Background: "@);
    }
    if experience.len() == 0 {
        lemma_person_avoids(args, "Experience: "@);
    }
}


proof fn lemma_capacity_avoids(max_capacity: Option<i32>, other: Seq<char>)
    requires
        max_capacity is None || distinct_labels("Maximum capacity: "@, other),
    ensures
        no_fragment(capacity_part(max_capacity), other),
{
    reveal(no_fragment);
    if let Some(c) = max_capacity {
        let v = decimal(c as int) + " people"@;
        assert(capacity_part(max_capacity)[0] =~= "Maximum capacity: "@ + v);
        assert(capacity_part(max_capacity) =~= seq!["Maximum capacity: "@ + v]);
        lemma_single_avoids("Maximum capacity: "@, v, other);
    }
}

/// An absent attribute of a location leaves no fragment with its label.
pub proof fn lemma_location_absent_fields(
    name: &str,
    description: Option<&str>,
    city: &str,
    state: &str,
    country: &str,
    amenities: Seq<String>,
    restrictions: Seq<String>,
    max_capacity: Option<i32>,
    parking_info: Option<&str>,
)
    ensures
        ({
            let parts = location_parts(
                name, description, city, state, country, amenities, restrictions, max_capacity,
                parking_info,
            );
            &&& description is None ==> no_fragment(parts, "Description: "@)
            &&& amenities.len() == 0 ==> no_fragment(parts, "Amenities and features: "@)
            &&& max_capacity is None ==> no_fragment(parts, "Maximum capacity: "@)
            &&& parking_info is None ==> no_fragment(parts, "Parking: "@)
            &&& restrictions.len() == 0 ==> no_fragment(parts, "Restrictions: "@)
        }),
{
    reveal_strlit("Location: ");
    reveal_strlit("Located in ");
    reveal_strlit("Description: ");
    reveal_strlit("Amenities and features: ");
    reveal_strlit("Maximum capacity: ");
    reveal_strlit("Parking: ");
    reveal_strlit("Restrictions: ");
    let a = (name, description, city, state, country, amenities, restrictions, max_capacity,
        parking_info);
    if description is None {
        lemma_location_avoids(a, "Description: "@);
    }
    if amenities.len() == 0 {
        lemma_location_avoids(a, "Amenities and features: "@);
    }
    if max_capacity is None {
        lemma_location_avoids(a, "Maximum capacity: "@);
    }
    if parking_info is None {
        lemma_location_avoids(a, "Parking: "@);
    }
    if restrictions.len() == 0 {
        lemma_location_avoids(a, "Restrictions: "@);
    }
}

/// The attributes of a location, in the order of `build_location_embedding_text`'s parameters.
pub type LocationAttributes<'a> = (
    &'a str,
    Option<&'a str>,
    &'a str,
    &'a str,
    &'a str,
    Seq<String>,
    Seq<String>,
    Option<i32>,
    Option<&'a str>,
);

#[verifier::spinoff_prover]
#[verifier::rlimit(40)]
proof fn lemma_location_avoids(a: LocationAttributes, other: Seq<char>)
    requires
        distinct_labels("Location: "@, other),
        distinct_labels("Located in "@, other),
        a.1 is None || distinct_labels("Description: "@, other),
        a.5.len() == 0 || distinct_labels("Amenities and features: "@, other),
        a.7 is None || distinct_labels("Maximum capacity: "@, other),
        a.8 is None || distinct_labels("Parking: "@, other),
        a.6.len() == 0 || distinct_labels("Restrictions: "@, other),
    ensures
        no_fragment(location_parts(a.0, a.1, a.2, a.3, a.4, a.5, a.6, a.7, a.8), other),
{
    let place = a.2@ + ", "@ + a.3@ + ", "@ + a.4@;
    lemma_single_avoids("Location: "@, a.0@, other);
    lemma_single_avoids("Located in "@, place, other);
    lemma_concat_avoids(seq!["Location: "@ + a.0@], seq!["Located in "@ + place], other);
    let mut acc = seq!["Location: "@ + a.0@] + seq!["Located in "@ + place];
    assert(("Located in "@ + place) =~= "Located in "@ + a.2@ + ", "@ + a.3@ + ", "@ + a.4@);
    assert(acc =~= seq!["Location: "@ + a.0@, "Located in "@ + a.2@ + ", "@ + a.3@ + ", "@ + a.4@]);
    lemma_opt_avoids("Description: "@, a.1, other);
    lemma_concat_avoids(acc, opt_part("Description: "@, a.1), other);
    acc = acc + opt_part("Description: "@, a.1);
    lemma_list_avoids("Amenities and features: "@, a.5, ", "@, other);
    lemma_concat_avoids(acc, list_part("Amenities and features: "@, a.5, ", "@), other);
    acc = acc + list_part("Amenities and features: "@, a.5, ", "@);
    lemma_capacity_avoids(a.7, other);
    lemma_concat_avoids(acc, capacity_part(a.7), other);
    acc = acc + capacity_part(a.7);
    lemma_opt_avoids("Parking: "@, a.8, other);
    lemma_concat_avoids(acc, opt_part("Parking: "@, a.8), other);
    acc = acc + opt_part("Parking: "@, a.8);
    lemma_list_avoids("Restrictions: "@, a.6, ", "@, other);
    lemma_concat_avoids(acc, list_part("Restrictions: "@, a.6, ", "@), other);
}


proof fn lemma_schedule_avoids(start_date: Option<&str>, end_date: Option<&str>, other: Seq<char>)
    requires
        start_date is None || end_date is None || distinct_labels("Scheduled from "@, other),
        start_date is None || end_date is Some || distinct_labels("Starts on "@, other),
    ensures
        no_fragment(schedule_part(start_date, end_date), other),
{
    reveal(no_fragment);
    match (start_date, end_date) {
        (Some(start), Some(end)) => {
            let v = start@ + " to "@ + end@;
            assert(schedule_part(start_date, end_date)[0] =~= "Scheduled from "@ + v);
            assert(schedule_part(start_date, end_date) =~= seq!["Scheduled from "@ + v]);
            lemma_single_avoids("Scheduled from "@, v, other);
        },
        (Some(start), None) => {
            lemma_single_avoids("Starts on "@, start@, other);
        },
        _ => {},
    }
}

/// The attributes of a production, in the order of `build_production_embedding_text`'s parameters.
pub type ProductionAttributes<'a> = (
    &'a str,
    &'a str,
    &'a str,
    Option<&'a str>,
    Option<&'a str>,
    Option<&'a str>,
    Option<&'a str>,
);

#[verifier::spinoff_prover]
#[verifier::rlimit(40)]
proof fn lemma_production_avoids(a: ProductionAttributes, other: Seq<char>)
    requires
        distinct_labels("Production: "@, other),
        distinct_labels("Type: "@, other),
        distinct_labels("Status: "@, other),
        a.5 is None || a.6 is None || distinct_labels("Scheduled from "@, other),
        a.5 is None || a.6 is Some || distinct_labels("Starts on "@, other),
        a.4 is None || distinct_labels("Filming location: "@, other),
        a.3 is None || distinct_labels("Description: "@, other),
    ensures
        no_fragment(production_parts(a.0, a.1, a.2, a.3, a.4, a.5, a.6), other),
{
    lemma_single_avoids("Production: "@, a.0@, other);
    lemma_single_avoids("Type: "@, a.1@, other);
    lemma_single_avoids("Status: "@, a.2@, other);
    lemma_concat_avoids(seq!["Production: "@ + a.0@], seq!["Type: "@ + a.1@], other);
    let mut acc = seq!["Production: "@ + a.0@] + seq!["Type: "@ + a.1@];
    lemma_concat_avoids(acc, seq!["Status: "@ + a.2@], other);
    acc = acc + seq!["Status: "@ + a.2@];
    assert(acc =~= seq!["Production: "@ + a.0@, "Type: "@ + a.1@, "Status: "@ + a.2@]);
    lemma_schedule_avoids(a.5, a.6, other);
    lemma_concat_avoids(acc, schedule_part(a.5, a.6), other);
    acc = acc + schedule_part(a.5, a.6);
    lemma_opt_avoids("Filming location: "@, a.4, other);
    lemma_concat_avoids(acc, opt_part("Filming location: "@, a.4), other);
    acc = acc + opt_part("Filming location: "@, a.4);
    lemma_opt_avoids("Description: "@, a.3, other);
    lemma_concat_avoids(acc, opt_part("Description: "@, a.3), other);
}

/// An absent attribute of a production leaves no fragment with its label;
/// without both dates there is no "Scheduled from" fragment, and without a
/// start date no scheduling fragment at all.
pub proof fn lemma_production_absent_fields(
    title: &str,
    production_type: &str,
    status: &str,
    description: Option<&str>,
    location: Option<&str>,
    start_date: Option<&str>,
    end_date: Option<&str>,
)
    ensures
        ({
            let parts = production_parts(
                title, production_type, status, description, location, start_date, end_date,
            );
            &&& (start_date is None || end_date is None) ==> no_fragment(parts, "Scheduled from "@)
            &&& start_date is None ==> no_fragment(parts, "Starts on "@)
            &&& location is None ==> no_fragment(parts, "Filming location: "@)
            &&& description is None ==> no_fragment(parts, "Description: "@)
        }),
{
    reveal_strlit("Production: ");
    reveal_strlit("Type: ");
    reveal_strlit("Status: ");
    reveal_strlit("Scheduled from ");
    reveal_strlit("Starts on ");
    reveal_strlit("Filming location: ");
    reveal_strlit("Description: ");
    let a = (title, production_type, status, description, location, start_date, end_date);
    if start_date is None || end_date is None {
        lemma_production_avoids(a, "Scheduled from "@);
    }
    if start_date is None {
        lemma_production_avoids(a, "Starts on "@);
    }
    if location is None {
        lemma_production_avoids(a, "Filming location: "@);
    }
    if description is None {
        lemma_production_avoids(a, "Description: "@);
    }
}

proof fn lemma_founded_avoids(founded_year: Option<i32>, current_year: int, other: Seq<char>)
    requires
        founded_year is None || distinct_labels("Established "@, other),
    ensures
        no_fragment(founded_part(founded_year, current_year), other),
{
    reveal(no_fragment);
    if let Some(y) = founded_year {
        let v = decimal(current_year - y) + " years ago (founded "@ + decimal(y as int) + ")"@;
        assert(founded_part(founded_year, current_year)[0] =~= "Established "@ + v);
        assert(founded_part(founded_year, current_year) =~= seq!["Established "@ + v]);
        lemma_single_avoids("Established "@, v, other);
    }
}

proof fn lemma_size_avoids(employees_count: Option<i32>, other: Seq<char>)
    requires
        employees_count is None || distinct_labels(size_tier(employees_count->Some_0 as int), other),
    ensures
        no_fragment(size_part(employees_count), other),
{
    reveal(no_fragment);
    if let Some(c) = employees_count {
        let tier = size_tier(c as int);
        let v = " company with "@ + decimal(c as int) + " employees"@;
        assert(size_part(employees_count)[0] =~= tier + v);
        assert(size_part(employees_count) =~= seq![tier + v]);
        lemma_single_avoids(tier, v, other);
    }
}

/// The attributes of an organization and the year it is described in, in
/// the order of `build_organization_embedding_text_at`'s parameters.
pub type OrganizationAttributes<'a> = (
    &'a str,
    &'a str,
    Option<&'a str>,
    Seq<String>,
    Option<&'a str>,
    Option<i32>,
    Option<i32>,
    int,
);

#[verifier::spinoff_prover]
#[verifier::rlimit(40)]
proof fn lemma_organization_avoids(a: OrganizationAttributes, other: Seq<char>)
    requires
        distinct_labels("Organization: "@, other),
        distinct_labels("Type: "@, other),
        a.4 is None || distinct_labels("Location: "@, other),
        a.3.len() == 0 || distinct_labels("Services: "@, other),
        a.5 is None || distinct_labels("Established "@, other),
        a.6 is None || distinct_labels(size_tier(a.6->Some_0 as int), other),
        a.2 is None || distinct_labels("Description: "@, other),
    ensures
        no_fragment(organization_parts(a.0, a.1, a.2, a.3, a.4, a.5, a.6, a.7), other),
{
    lemma_single_avoids("Organization: "@, a.0@, other);
    lemma_single_avoids("Type: "@, a.1@, other);
    lemma_concat_avoids(seq!["Organization: "@ + a.0@], seq!["Type: "@ + a.1@], other);
    let mut acc = seq!["Organization: "@ + a.0@] + seq!["Type: "@ + a.1@];
    assert(acc =~= seq!["Organization: "@ + a.0@, "Type: "@ + a.1@]);
    lemma_opt_avoids("Location: "@, a.4, other);
    lemma_concat_avoids(acc, opt_part("Location: "@, a.4), other);
    acc = acc + opt_part("Location: "@, a.4);
    lemma_list_avoids("Services: "@, a.3, ", "@, other);
    lemma_concat_avoids(acc, list_part("Services: "@, a.3, ", "@), other);
    acc = acc + list_part("Services: "@, a.3, ", "@);
    lemma_founded_avoids(a.5, a.7, other);
    lemma_concat_avoids(acc, founded_part(a.5, a.7), other);
    acc = acc + founded_part(a.5, a.7);
    lemma_size_avoids(a.6, other);
    lemma_concat_avoids(acc, size_part(a.6), other);
    acc = acc + size_part(a.6);
    lemma_opt_avoids("Description: "@, a.2, other);
    lemma_concat_avoids(acc, opt_part("Description: "@, a.2), other);
}

/// An absent attribute of an organization leaves no fragment with its label.
pub proof fn lemma_organization_absent_fields(
    name: &str,
    org_type: &str,
    description: Option<&str>,
    services: Seq<String>,
    location: Option<&str>,
    founded_year: Option<i32>,
    employees_count: Option<i32>,
    current_year: int,
)
    ensures
        ({
            let parts = organization_parts(
                name, org_type, description, services, location, founded_year, employees_count,
                current_year,
            );
            &&& location is None ==> no_fragment(parts, "Location: "@)
            &&& services.len() == 0 ==> no_fragment(parts, "Services: "@)
            &&& founded_year is None ==> no_fragment(parts, "Established "@)
            &&& description is None ==> no_fragment(parts, "Description: "@)
        }),
{
    reveal_strlit("Organization: ");
    reveal_strlit("Type: ");
    reveal_strlit("Location: ");
    reveal_strlit("Services: ");
    reveal_strlit("Established ");
    reveal_strlit("Description: ");
    reveal_strlit("small");
    reveal_strlit("medium");
    reveal_strlit("large");
    reveal_strlit("enterprise");
    let a = (name, org_type, description, services, location, founded_year, employees_count,
        current_year);
    if location is None {
        lemma_organization_avoids(a, "Location: "@);
    }
    if services.len() == 0 {
        lemma_organization_avoids(a, "Services: "@);
    }
    if founded_year is None {
        lemma_organization_avoids(a, "Established "@);
    }
    if description is None {
        lemma_organization_avoids(a, "Description: "@);
    }
}


/// A person's canonical text depends on the attributes alone: two texts
/// built from the same attributes are identical, character for character.
pub proof fn lemma_person_text_deterministic(a: PersonAttributes, first: Seq<char>, second: Seq<char>)
    requires
        first == seq_join(
            person_parts(a.0, a.1, a.2, a.3, a.4, a.5, a.6, a.7, a.8, a.9, a.10, a.11, a.12, a.13, a.14),
            fragment_sep(),
        ),
        second == seq_join(
            person_parts(a.0, a.1, a.2, a.3, a.4, a.5, a.6, a.7, a.8, a.9, a.10, a.11, a.12, a.13, a.14),
            fragment_sep(),
        ),
    ensures
        first == second,
{
}

/// A location's canonical text depends on the attributes alone.
pub proof fn lemma_location_text_deterministic(a: LocationAttributes, first: Seq<char>, second: Seq<char>)
    requires
        first == seq_join(location_parts(a.0, a.1, a.2, a.3, a.4, a.5, a.6, a.7, a.8), fragment_sep()),
        second == seq_join(location_parts(a.0, a.1, a.2, a.3, a.4, a.5, a.6, a.7, a.8), fragment_sep()),
    ensures
        first == second,
{
}

/// A production's canonical text depends on the attributes alone.
pub proof fn lemma_production_text_deterministic(
    a: ProductionAttributes,
    first: Seq<char>,
    second: Seq<char>,
)
    requires
        first == seq_join(production_parts(a.0, a.1, a.2, a.3, a.4, a.5, a.6), fragment_sep()),
        second == seq_join(production_parts(a.0, a.1, a.2, a.3, a.4, a.5, a.6), fragment_sep()),
    ensures
        first == second,
{
}

/// An organization's canonical text depends on the attributes and the year
/// it is described in alone.
pub proof fn lemma_organization_text_deterministic(
    a: OrganizationAttributes,
    first: Seq<char>,
    second: Seq<char>,
)
    requires
        first == seq_join(organization_parts(a.0, a.1, a.2, a.3, a.4, a.5, a.6, a.7), fragment_sep()),
        second == seq_join(organization_parts(a.0, a.1, a.2, a.3, a.4, a.5, a.6, a.7), fragment_sep()),
    ensures
        first == second,
{
}

} // verus!
