use wedding_planner::codec::parse_plan;
use wedding_planner::codec::serialize_plan;
use wedding_planner::num::Number;
use wedding_planner::schema::Guest;
use wedding_planner::schema::RSVPStatus;
use wedding_planner::schema::Table;
use wedding_planner::schema::TableShape;
use wedding_planner::schema::TodoItem;
use wedding_planner::schema::WeddingPlan;

fn todo(id: i64, text: &str) -> TodoItem {
    TodoItem {
        id,
        text: String::from(text),
        completed: false,
        cost: None,
        budget: None,
        payment_status: None,
        due_date: None,
        vendor_name: None,
        vendor_contact: None,
        vendor_email: None,
        vendor_phone: None,
        notes: None,
        completion_date: None,
    }
}

#[test]
fn document_is_valid_json_under_the_wire_names() {
    let mut plan = WeddingPlan::default();
    plan.couple_name1 = String::from("Ada");
    plan.budget = Number { neg: false, whole: 25000, frac: vec![5] };
    plan.guests.push(Guest {
        id: String::from("g1"),
        name: String::from("Alex"),
        email: String::from(""),
        phone: String::from(""),
        rsvp_status: RSVPStatus::Attending,
        meal_preference: String::from(""),
        plus_ones: vec![],
        notes: String::from(""),
    });
    plan.tables.push(Table {
        id: String::from("t1"),
        name: String::from(""),
        capacity: 8,
        assigned_guests: vec![String::from("g1")],
        shape: TableShape::Round,
        x: Some(Number { neg: true, whole: 12, frac: vec![5] }),
        y: None,
        seat_assignments: vec![],
    });
    let text = serialize_plan(&plan);
    let v: serde_json::Value = serde_json::from_str(&text).unwrap();
    assert_eq!(v["coupleName1"].as_str().unwrap(), "Ada");
    assert_eq!(v["budget"].as_f64().unwrap(), 25000.5);
    assert_eq!(v["guests"][0]["rsvpStatus"].as_str().unwrap(), "attending");
    assert_eq!(v["guests"][0]["mealPreference"].as_str().unwrap(), "");
    assert_eq!(v["tables"][0]["assignedGuests"][0].as_str().unwrap(), "g1");
    assert_eq!(v["tables"][0]["capacity"].as_i64().unwrap(), 8);
    assert_eq!(v["tables"][0]["shape"].as_str().unwrap(), "round");
    assert_eq!(v["tables"][0]["x"].as_f64().unwrap(), -12.5);
    assert!(v["tables"][0]["y"].is_null());
}

#[test]
fn document_text_is_indented() {
    let mut plan = WeddingPlan::default();
    plan.todos.push(todo(1, "a"));
    let text = serialize_plan(&plan);
    assert!(text.starts_with("{\n  \"coupleName1\": \"\",\n"));
    assert!(text.contains("\n  \"todos\": [\n    {\n      \"id\": 1,\n"));
    assert!(text.ends_with("\n}"));
}

#[test]
fn short_escapes_and_unicode_escapes_are_read() {
    let text = "{\"coupleName1\": \"a\\nb\\t\\\"q\\\"\\\\\\u000fz\", \"coupleName2\": \"\", \
                \"weddingDate\": \"\", \"budget\": 0, \"todos\": []}";
    let plan = parse_plan(text).unwrap();
    assert_eq!(plan.couple_name1, "a\nb\t\"q\"\\\u{f}z");
}

#[test]
fn control_characters_survive_a_round_trip() {
    let mut plan = WeddingPlan::default();
    plan.couple_name1 = String::from("line1\nline2\ttab\u{1}\u{1f}end");
    plan.couple_name2 = String::from("q\"uote\\slash/π❤");
    let back = parse_plan(&serialize_plan(&plan)).unwrap();
    assert_eq!(back, plan);
}

#[test]
fn extreme_integers_round_trip() {
    let mut plan = WeddingPlan::default();
    plan.todos.push(todo(i64::MIN, "min"));
    plan.todos.push(todo(i64::MAX, "max"));
    plan.todos.push(todo(0, "zero"));
    let back = parse_plan(&serialize_plan(&plan)).unwrap();
    assert_eq!(back.todos[0].id, i64::MIN);
    assert_eq!(back.todos[1].id, i64::MAX);
    assert_eq!(back.todos[2].id, 0);
}

#[test]
fn fraction_digits_are_kept_exactly() {
    let mut plan = WeddingPlan::default();
    plan.budget = Number { neg: true, whole: 0, frac: vec![0, 7, 5] };
    let text = serialize_plan(&plan);
    let v: serde_json::Value = serde_json::from_str(&text).unwrap();
    assert_eq!(v["budget"].as_f64().unwrap(), -0.075);
    let back = parse_plan(&text).unwrap();
    assert_eq!(back.budget, Number { neg: true, whole: 0, frac: vec![0, 7, 5] });
}

#[test]
fn trailing_garbage_is_rejected() {
    assert!(parse_plan("{} tail").is_err());
    assert!(parse_plan("").is_err());
}

#[test]
fn exponents_and_leading_zeros_are_rejected() {
    let head = "{\"coupleName1\": \"\", \"coupleName2\": \"\", \"weddingDate\": \"\", \"todos\": [], \"budget\": ";
    assert!(parse_plan(&format!("{}1e5}}", head)).is_err());
    assert!(parse_plan(&format!("{}0123}}", head)).is_err());
    assert!(parse_plan(&format!("{}12.5}}", head)).is_ok());
}

#[test]
fn unknown_fields_are_ignored() {
    let text = "{\"coupleName1\": \"A\", \"coupleName2\": \"\", \"weddingDate\": \"\", \
                \"budget\": 0, \"todos\": [], \"somethingNew\": {\"deep\": [1, 2]}}";
    let plan = parse_plan(text).unwrap();
    assert_eq!(plan.couple_name1, "A");
}
