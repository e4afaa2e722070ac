use wedding_planner::num::Number;
use wedding_planner::schema::Guest;
use wedding_planner::schema::MediaCategory;
use wedding_planner::schema::MediaItem;
use wedding_planner::schema::MediaType;
use wedding_planner::schema::PlusOne;
use wedding_planner::schema::RSVPStatus;
use wedding_planner::schema::SeatAssignment;
use wedding_planner::schema::Table;
use wedding_planner::schema::TableShape;
use wedding_planner::schema::TodoItem;
use wedding_planner::schema::WeddingPlan;
use wedding_planner::schema::WishStatus;
use wedding_planner::schema::WishlistItem;
use wedding_planner::store::AppData;
use wedding_planner::StoreError;

fn num(neg: bool, whole: u64, frac: Vec<u8>) -> Number {
    Number { neg, whole, frac }
}

fn sample_plan() -> WeddingPlan {
    WeddingPlan {
        couple_name1: String::from("Ada"),
        couple_name2: String::from("Grace \"G\" Hopper\\Jones"),
        wedding_date: String::from("2031-07-14"),
        budget: num(false, 25000, vec![5, 0]),
        todos: vec![TodoItem {
            id: -3,
            text: String::from("book venue\nby June"),
            completed: true,
            cost: Some(num(false, 1200, vec![9, 9])),
            budget: None,
            payment_status: Some(String::from("paid")),
            due_date: None,
            vendor_name: Some(String::from("Müller & Söhne")),
            vendor_contact: None,
            vendor_email: None,
            vendor_phone: None,
            notes: None,
            completion_date: Some(String::from("2031-01-02")),
        }],
        guests: vec![Guest {
            id: String::from("g1"),
            name: String::from("Alex"),
            email: String::from("alex@example.com"),
            phone: String::from("+49 123"),
            rsvp_status: RSVPStatus::Attending,
            meal_preference: String::from("vegan"),
            plus_ones: vec![PlusOne {
                id: String::from("p1"),
                name: String::from("Sam"),
                meal_preference: String::from(""),
                notes: String::from("☺"),
            }],
            notes: String::from(""),
        }],
        tables: vec![Table {
            id: String::from("t1"),
            name: String::from("Head table"),
            capacity: 8,
            assigned_guests: vec![String::from("g1")],
            shape: TableShape::Rectangular,
            x: Some(num(true, 12, vec![5])),
            y: None,
            seat_assignments: vec![SeatAssignment {
                table_id: String::from("t1"),
                seat_number: 1,
                guest_id: String::from("g1"),
                guest_name: String::from("Alex"),
            }],
        }],
        wishlist: vec![WishlistItem {
            id: String::from("w1"),
            title: String::from("Toaster"),
            price: num(false, 89, vec![9, 5]),
            currency: String::from("EUR"),
            image_url: String::from("https://example.com/t.jpg"),
            product_url: String::from("https://example.com/t"),
            status: WishStatus::Reserved,
            reserved_by: Some(String::from("Sam")),
            reserved_at: None,
            notes: None,
        }],
        media: vec![MediaItem {
            id: String::from("m1"),
            filename: String::from("photo1.png"),
            original_name: String::from("IMG_0001.png"),
            media_type: MediaType::Image,
            category: MediaCategory::Ceremony,
            uploaded_at: String::from("2031-07-15T10:00:00Z"),
            uploaded_by: String::from("Ada"),
            caption: Some(String::from("First kiss")),
            tags: vec![String::from("ceremony"), String::from("kiss")],
            is_favorite: true,
            file_size: 123456,
            dimensions: None,
            duration: None,
            thumbnail_path: None,
        }],
    }
}

#[test]
fn save_then_load_reproduces_every_field() {
    let plan = sample_plan();
    let mut store = AppData::new();
    store.save_wedding_plan(&plan).unwrap();
    let back = store.load_wedding_plan().unwrap();
    assert_eq!(plan, back);
}

#[test]
fn load_without_document_returns_all_defaults() {
    let store = AppData::new();
    let plan = store.load_wedding_plan().unwrap();
    assert_eq!(plan.couple_name1, "");
    assert_eq!(plan.couple_name2, "");
    assert_eq!(plan.wedding_date, "");
    assert_eq!(plan.budget, Number { neg: false, whole: 0, frac: vec![] });
    assert!(plan.todos.is_empty());
    assert!(plan.guests.is_empty());
    assert!(plan.tables.is_empty());
    assert!(plan.wishlist.is_empty());
    assert!(plan.media.is_empty());
}

#[test]
fn older_document_with_fewer_fields_loads_with_defaults() {
    // a document written before guests, tables, wishlist and media existed
    let text = "{\"coupleName1\": \"Ada\", \"coupleName2\": \"Grace\", \
                \"weddingDate\": \"2031-07-14\", \"budget\": 100.25, \
                \"todos\": [{\"id\": 1, \"text\": \"invite\", \"completed\": false}]}";
    let plan = wedding_planner::codec::parse_plan(text).unwrap();
    assert_eq!(plan.couple_name1, "Ada");
    assert_eq!(plan.budget, Number { neg: false, whole: 100, frac: vec![2, 5] });
    assert_eq!(plan.todos.len(), 1);
    assert_eq!(plan.todos[0].id, 1);
    assert_eq!(plan.todos[0].cost, None);
    assert_eq!(plan.todos[0].vendor_name, None);
    assert!(plan.guests.is_empty());
    assert!(plan.tables.is_empty());
    assert!(plan.wishlist.is_empty());
    assert!(plan.media.is_empty());
}

#[test]
fn absent_enum_fields_take_their_defaults() {
    let text = "{\"coupleName1\": \"\", \"coupleName2\": \"\", \"weddingDate\": \"\", \
                \"budget\": 0, \"todos\": [], \
                \"guests\": [{\"id\": \"g1\", \"name\": \"Alex\", \"email\": \"\", \
                \"phone\": \"\", \"mealPreference\": \"\", \"notes\": \"\"}], \
                \"tables\": [{\"id\": \"t1\", \"name\": \"\", \"capacity\": 4}], \
                \"wishlist\": [{\"id\": \"w1\", \"title\": \"\", \"price\": 1, \
                \"currency\": \"\", \"imageUrl\": \"\", \"productUrl\": \"\"}]}";
    let plan = wedding_planner::codec::parse_plan(text).unwrap();
    assert_eq!(plan.guests[0].rsvp_status, RSVPStatus::Pending);
    assert!(plan.guests[0].plus_ones.is_empty());
    assert_eq!(plan.tables[0].shape, TableShape::Round);
    assert!(plan.tables[0].assigned_guests.is_empty());
    assert!(plan.tables[0].seat_assignments.is_empty());
    assert_eq!(plan.wishlist[0].status, WishStatus::Available);
}

#[test]
fn guest_and_table_scenario_round_trip() {
    let mut plan = WeddingPlan::default();
    plan.guests.push(Guest {
        id: String::from("g1"),
        name: String::from("Alex"),
        email: String::from(""),
        phone: String::from(""),
        rsvp_status: RSVPStatus::Attending,
        meal_preference: String::from(""),
        plus_ones: vec![],
        notes: String::from(""),
    });
    plan.tables.push(Table {
        id: String::from("t1"),
        name: String::from(""),
        capacity: 8,
        assigned_guests: vec![String::from("g1")],
        shape: TableShape::Round,
        x: None,
        y: None,
        seat_assignments: vec![],
    });
    let mut store = AppData::new();
    store.save_wedding_plan(&plan).unwrap();
    let back = store.load_wedding_plan().unwrap();
    assert_eq!(back.guests[0].rsvp_status, RSVPStatus::Attending);
    assert_eq!(back.tables[0].assigned_guests, vec![String::from("g1")]);
    assert_eq!(back.tables[0].capacity, 8);
}

#[test]
fn corrupt_document_is_a_format_error() {
    let mut store = AppData::new();
    store.plan_doc = Some(String::from("{\"coupleName1\": 7}"));
    assert_eq!(store.load_wedding_plan().unwrap_err(), StoreError::Format);

    store.plan_doc = Some(String::from("not json at all"));
    assert_eq!(store.load_wedding_plan().unwrap_err(), StoreError::Format);

    // a field whose stored type no longer matches the schema
    store.plan_doc = Some(String::from(
        "{\"coupleName1\": \"\", \"coupleName2\": \"\", \"weddingDate\": \"\", \
         \"budget\": 0, \"todos\": [], \"guests\": [{\"id\": 4, \"name\": \"Alex\", \
         \"email\": \"\", \"phone\": \"\", \"mealPreference\": \"\", \"notes\": \"\"}]}",
    ));
    assert_eq!(store.load_wedding_plan().unwrap_err(), StoreError::Format);
}

#[test]
fn saving_twice_keeps_the_last_document() {
    let mut store = AppData::new();
    let mut plan = WeddingPlan::default();
    store.save_wedding_plan(&plan).unwrap();
    plan.couple_name1 = String::from("Ada");
    store.save_wedding_plan(&plan).unwrap();
    let back = store.load_wedding_plan().unwrap();
    assert_eq!(back.couple_name1, "Ada");
}

#[test]
fn error_descriptions_are_fixed_texts() {
    assert_eq!(StoreError::NotFound.describe(), "File not found");
    assert_eq!(StoreError::Format.describe(), "Deserialization error");
    assert_eq!(StoreError::InvalidPlan.describe(), "Serialization error");
}

#[test]
fn a_plan_with_malformed_numbers_is_refused() {
    let mut store = AppData::new();
    let mut good = WeddingPlan::default();
    good.couple_name1 = String::from("Ada");
    store.save_wedding_plan(&good).unwrap();

    let mut bad = WeddingPlan::default();
    bad.budget = num(false, 1, vec![12]);
    assert_eq!(store.save_wedding_plan(&bad).unwrap_err(), StoreError::InvalidPlan);
    // the stored document is untouched
    assert_eq!(store.load_wedding_plan().unwrap().couple_name1, "Ada");
}
