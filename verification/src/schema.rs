//! The wedding-plan schema.
//!
//! One `WeddingPlan` document per installation: the couple, the budget,
//! to-dos, guests with plus-ones, tables with seat assignments, a wishlist
//! and a media gallery.  Every type has a ghost counterpart over character
//! sequences, which the contracts speak about.  Enum fields have a designated
//! default variant so that documents written by an older schema revision read
//! back with a safe value.

use vstd::prelude::*;

use crate::num::NumV;
use crate::num::Number;
use crate::num::num_wf;
use crate::num::u64_num;

verus! {

/// A guest's answer to the invitation.
#[derive(Clone, Copy, Debug, PartialEq, Eq, Structural)]
pub enum RSVPStatus {
    Pending,
    Attending,
    Declined,
}

impl Default for RSVPStatus {
    /// An unanswered invitation is pending.
    fn default() -> (r: RSVPStatus)
        ensures
            r == RSVPStatus::Pending,
    {
        RSVPStatus::Pending
    }
}

/// The shape of a reception table.
#[derive(Clone, Copy, Debug, PartialEq, Eq, Structural)]
pub enum TableShape {
    Round,
    Rectangular,
}

impl Default for TableShape {
    /// Tables are round unless said otherwise.
    fn default() -> (r: TableShape)
        ensures
            r == TableShape::Round,
    {
        TableShape::Round
    }
}

/// The state of a wishlist entry.
#[derive(Clone, Copy, Debug, PartialEq, Eq, Structural)]
pub enum WishStatus {
    Available,
    Reserved,
    Purchased,
}

impl Default for WishStatus {
    /// A wish nobody has claimed is available.
    fn default() -> (r: WishStatus)
        ensures
            r == WishStatus::Available,
    {
        WishStatus::Available
    }
}

/// What kind of media a gallery entry is.
#[derive(Clone, Copy, Debug, PartialEq, Eq, Structural)]
pub enum MediaType {
    Image,
    Video,
}

/// Which part of the wedding a gallery entry belongs to.
#[derive(Clone, Copy, Debug, PartialEq, Eq, Structural)]
pub enum MediaCategory {
    Ceremony,
    Reception,
    Preparation,
    Portraits,
    Party,
    Other,
}

/// A guest's companion.
#[derive(Clone, Debug, PartialEq)]
pub struct PlusOne {
    pub id: String,
    pub name: String,
    pub meal_preference: String,
    pub notes: String,
}

#[verifier::ext_equal]
pub struct PlusOneV {
    pub id: Seq<char>,
    pub name: Seq<char>,
    pub meal_preference: Seq<char>,
    pub notes: Seq<char>,
}

impl View for PlusOne {
    type V = PlusOneV;

    open spec fn view(&self) -> PlusOneV {
        PlusOneV {
            id: self.id@,
            name: self.name@,
            meal_preference: self.meal_preference@,
            notes: self.notes@,
        }
    }
}

/// The contents of a list of plus-ones.
pub open spec fn plus_ones_view(v: Seq<PlusOne>) -> Seq<PlusOneV> {
    Seq::new(v.len(), |i: int| v[i]@)
}

/// The contents of a list of strings.
pub open spec fn strings_view(v: Seq<String>) -> Seq<Seq<char>> {
    Seq::new(v.len(), |i: int| v[i]@)
}

/// An invited guest.
#[derive(Clone, Debug, PartialEq)]
pub struct Guest {
    pub id: String,
    pub name: String,
    pub email: String,
    pub phone: String,
    pub rsvp_status: RSVPStatus,
    pub meal_preference: String,
    pub plus_ones: Vec<PlusOne>,
    pub notes: String,
}

#[verifier::ext_equal]
pub struct GuestV {
    pub id: Seq<char>,
    pub name: Seq<char>,
    pub email: Seq<char>,
    pub phone: Seq<char>,
    pub rsvp_status: RSVPStatus,
    pub meal_preference: Seq<char>,
    pub plus_ones: Seq<PlusOneV>,
    pub notes: Seq<char>,
}

impl View for Guest {
    type V = GuestV;

    open spec fn view(&self) -> GuestV {
        GuestV {
            id: self.id@,
            name: self.name@,
            email: self.email@,
            phone: self.phone@,
            rsvp_status: self.rsvp_status,
            meal_preference: self.meal_preference@,
            plus_ones: plus_ones_view(self.plus_ones@),
            notes: self.notes@,
        }
    }
}

/// One seat of a table given to one guest.
#[derive(Clone, Debug, PartialEq)]
pub struct SeatAssignment {
    pub table_id: String,
    pub seat_number: i64,
    pub guest_id: String,
    pub guest_name: String,
}

#[verifier::ext_equal]
pub struct SeatAssignmentV {
    pub table_id: Seq<char>,
    pub seat_number: i64,
    pub guest_id: Seq<char>,
    pub guest_name: Seq<char>,
}

impl View for SeatAssignment {
    type V = SeatAssignmentV;

    open spec fn view(&self) -> SeatAssignmentV {
        SeatAssignmentV {
            table_id: self.table_id@,
            seat_number: self.seat_number,
            guest_id: self.guest_id@,
            guest_name: self.guest_name@,
        }
    }
}

/// The contents of a list of seat assignments.
pub open spec fn seats_view(v: Seq<SeatAssignment>) -> Seq<SeatAssignmentV> {
    Seq::new(v.len(), |i: int| v[i]@)
}

/// A reception table and who sits at it.
#[derive(Clone, Debug, PartialEq)]
pub struct Table {
    pub id: String,
    pub name: String,
    pub capacity: i32,
    pub assigned_guests: Vec<String>,
    pub shape: TableShape,
    pub x: Option<Number>,
    pub y: Option<Number>,
    pub seat_assignments: Vec<SeatAssignment>,
}

#[verifier::ext_equal]
pub struct TableV {
    pub id: Seq<char>,
    pub name: Seq<char>,
    pub capacity: i32,
    pub assigned_guests: Seq<Seq<char>>,
    pub shape: TableShape,
    pub x: Option<NumV>,
    pub y: Option<NumV>,
    pub seat_assignments: Seq<SeatAssignmentV>,
}

impl View for Table {
    type V = TableV;

    open spec fn view(&self) -> TableV {
        TableV {
            id: self.id@,
            name: self.name@,
            capacity: self.capacity,
            assigned_guests: strings_view(self.assigned_guests@),
            shape: self.shape,
            x: opt_num_view(self.x),
            y: opt_num_view(self.y),
            seat_assignments: seats_view(self.seat_assignments@),
        }
    }
}

/// The content of an optional number.
pub open spec fn opt_num_view(o: Option<Number>) -> Option<NumV> {
    match o {
        Some(n) => Some(n@),
        None => None,
    }
}

/// The content of an optional string.
pub open spec fn opt_str_view(o: Option<String>) -> Option<Seq<char>> {
    match o {
        Some(s) => Some(s@),
        None => None,
    }
}

/// A planning task, with optional vendor and payment detail.
#[derive(Clone, Debug, PartialEq)]
pub struct TodoItem {
    pub id: i64,
    pub text: String,
    pub completed: bool,
    pub cost: Option<Number>,
    pub budget: Option<Number>,
    pub payment_status: Option<String>,
    pub due_date: Option<String>,
    pub vendor_name: Option<String>,
    pub vendor_contact: Option<String>,
    pub vendor_email: Option<String>,
    pub vendor_phone: Option<String>,
    pub notes: Option<String>,
    pub completion_date: Option<String>,
}

#[verifier::ext_equal]
pub struct TodoItemV {
    pub id: i64,
    pub text: Seq<char>,
    pub completed: bool,
    pub cost: Option<NumV>,
    pub budget: Option<NumV>,
    pub payment_status: Option<Seq<char>>,
    pub due_date: Option<Seq<char>>,
    pub vendor_name: Option<Seq<char>>,
    pub vendor_contact: Option<Seq<char>>,
    pub vendor_email: Option<Seq<char>>,
    pub vendor_phone: Option<Seq<char>>,
    pub notes: Option<Seq<char>>,
    pub completion_date: Option<Seq<char>>,
}

impl View for TodoItem {
    type V = TodoItemV;

    open spec fn view(&self) -> TodoItemV {
        TodoItemV {
            id: self.id,
            text: self.text@,
            completed: self.completed,
            cost: opt_num_view(self.cost),
            budget: opt_num_view(self.budget),
            payment_status: opt_str_view(self.payment_status),
            due_date: opt_str_view(self.due_date),
            vendor_name: opt_str_view(self.vendor_name),
            vendor_contact: opt_str_view(self.vendor_contact),
            vendor_email: opt_str_view(self.vendor_email),
            vendor_phone: opt_str_view(self.vendor_phone),
            notes: opt_str_view(self.notes),
            completion_date: opt_str_view(self.completion_date),
        }
    }
}

/// The contents of a list of to-dos.
pub open spec fn todos_view(v: Seq<TodoItem>) -> Seq<TodoItemV> {
    Seq::new(v.len(), |i: int| v[i]@)
}

/// The contents of a list of guests.
pub open spec fn guests_view(v: Seq<Guest>) -> Seq<GuestV> {
    Seq::new(v.len(), |i: int| v[i]@)
}

/// The contents of a list of tables.
pub open spec fn tables_view(v: Seq<Table>) -> Seq<TableV> {
    Seq::new(v.len(), |i: int| v[i]@)
}

/// An entry of the gift wishlist.
#[derive(Clone, Debug, PartialEq)]
pub struct WishlistItem {
    pub id: String,
    pub title: String,
    pub price: Number,
    pub currency: String,
    pub image_url: String,
    pub product_url: String,
    pub status: WishStatus,
    pub reserved_by: Option<String>,
    pub reserved_at: Option<String>,
    pub notes: Option<String>,
}

#[verifier::ext_equal]
pub struct WishlistItemV {
    pub id: Seq<char>,
    pub title: Seq<char>,
    pub price: NumV,
    pub currency: Seq<char>,
    pub image_url: Seq<char>,
    pub product_url: Seq<char>,
    pub status: WishStatus,
    pub reserved_by: Option<Seq<char>>,
    pub reserved_at: Option<Seq<char>>,
    pub notes: Option<Seq<char>>,
}

impl View for WishlistItem {
    type V = WishlistItemV;

    open spec fn view(&self) -> WishlistItemV {
        WishlistItemV {
            id: self.id@,
            title: self.title@,
            price: self.price@,
            currency: self.currency@,
            image_url: self.image_url@,
            product_url: self.product_url@,
            status: self.status,
            reserved_by: opt_str_view(self.reserved_by),
            reserved_at: opt_str_view(self.reserved_at),
            notes: opt_str_view(self.notes),
        }
    }
}

/// The contents of a wishlist.
pub open spec fn wishes_view(v: Seq<WishlistItem>) -> Seq<WishlistItemV> {
    Seq::new(v.len(), |i: int| v[i]@)
}

/// Pixel dimensions of an image.
#[derive(Clone, Copy, Debug, PartialEq, Eq, Structural)]
pub struct MediaDimensions {
    pub width: u32,
    pub height: u32,
}

/// A photo or video of the gallery; the bytes live in the media store
/// under `filename`, this record holds the metadata.
#[derive(Clone, Debug, PartialEq)]
pub struct MediaItem {
    pub id: String,
    pub filename: String,
    pub original_name: String,
    pub media_type: MediaType,
    pub category: MediaCategory,
    pub uploaded_at: String,
    pub uploaded_by: String,
    pub caption: Option<String>,
    pub tags: Vec<String>,
    pub is_favorite: bool,
    pub file_size: u64,
    pub dimensions: Option<MediaDimensions>,
    pub duration: Option<Number>,
    pub thumbnail_path: Option<String>,
}

#[verifier::ext_equal]
pub struct MediaItemV {
    pub id: Seq<char>,
    pub filename: Seq<char>,
    pub original_name: Seq<char>,
    pub media_type: MediaType,
    pub category: MediaCategory,
    pub uploaded_at: Seq<char>,
    pub uploaded_by: Seq<char>,
    pub caption: Option<Seq<char>>,
    pub tags: Seq<Seq<char>>,
    pub is_favorite: bool,
    pub file_size: u64,
    pub dimensions: Option<MediaDimensions>,
    pub duration: Option<NumV>,
    pub thumbnail_path: Option<Seq<char>>,
}

impl View for MediaItem {
    type V = MediaItemV;

    open spec fn view(&self) -> MediaItemV {
        MediaItemV {
            id: self.id@,
            filename: self.filename@,
            original_name: self.original_name@,
            media_type: self.media_type,
            category: self.category,
            uploaded_at: self.uploaded_at@,
            uploaded_by: self.uploaded_by@,
            caption: opt_str_view(self.caption),
            tags: strings_view(self.tags@),
            is_favorite: self.is_favorite,
            file_size: self.file_size,
            dimensions: self.dimensions,
            duration: opt_num_view(self.duration),
            thumbnail_path: opt_str_view(self.thumbnail_path),
        }
    }
}

/// The contents of a media gallery.
pub open spec fn medias_view(v: Seq<MediaItem>) -> Seq<MediaItemV> {
    Seq::new(v.len(), |i: int| v[i]@)
}

/// The one document of the store: the whole plan.
#[derive(Clone, Debug, PartialEq)]
pub struct WeddingPlan {
    pub couple_name1: String,
    pub couple_name2: String,
    pub wedding_date: String,
    pub budget: Number,
    pub todos: Vec<TodoItem>,
    pub guests: Vec<Guest>,
    pub tables: Vec<Table>,
    pub wishlist: Vec<WishlistItem>,
    pub media: Vec<MediaItem>,
}

#[verifier::ext_equal]
pub struct WeddingPlanV {
    pub couple_name1: Seq<char>,
    pub couple_name2: Seq<char>,
    pub wedding_date: Seq<char>,
    pub budget: NumV,
    pub todos: Seq<TodoItemV>,
    pub guests: Seq<GuestV>,
    pub tables: Seq<TableV>,
    pub wishlist: Seq<WishlistItemV>,
    pub media: Seq<MediaItemV>,
}

impl View for WeddingPlan {
    type V = WeddingPlanV;

    open spec fn view(&self) -> WeddingPlanV {
        WeddingPlanV {
            couple_name1: self.couple_name1@,
            couple_name2: self.couple_name2@,
            wedding_date: self.wedding_date@,
            budget: self.budget@,
            todos: todos_view(self.todos@),
            guests: guests_view(self.guests@),
            tables: tables_view(self.tables@),
            wishlist: wishes_view(self.wishlist@),
            media: medias_view(self.media@),
        }
    }
}

/// The all-defaults plan: empty names and date, zero budget, every
/// collection empty.
pub open spec fn default_plan() -> WeddingPlanV {
    WeddingPlanV {
        couple_name1: Seq::empty(),
        couple_name2: Seq::empty(),
        wedding_date: Seq::empty(),
        budget: u64_num(0),
        todos: Seq::empty(),
        guests: Seq::empty(),
        tables: Seq::empty(),
        wishlist: Seq::empty(),
        media: Seq::empty(),
    }
}

impl Default for WeddingPlan {
    /// The plan before anything was entered.
    fn default() -> (r: WeddingPlan)
        ensures
            r@ == default_plan(),
    {
        let r = WeddingPlan {
            couple_name1: String::new(),
            couple_name2: String::new(),
            wedding_date: String::new(),
            budget: Number::from_u64(0),
            todos: Vec::new(),
            guests: Vec::new(),
            tables: Vec::new(),
            wishlist: Vec::new(),
            media: Vec::new(),
        };
        proof {
            assert(r@ =~= default_plan());
        }
        r
    }
}

/// The numbers of an optional value are well formed.
pub open spec fn opt_num_wf(o: Option<NumV>) -> bool {
    match o {
        Some(n) => num_wf(n),
        None => true,
    }
}

pub open spec fn todo_wf(t: TodoItemV) -> bool {
    opt_num_wf(t.cost) && opt_num_wf(t.budget)
}

pub open spec fn table_wf(t: TableV) -> bool {
    opt_num_wf(t.x) && opt_num_wf(t.y)
}

pub open spec fn wish_wf(w: WishlistItemV) -> bool {
    num_wf(w.price)
}

pub open spec fn media_wf(m: MediaItemV) -> bool {
    opt_num_wf(m.duration)
}

/// Every number of the plan has well-formed fraction digits; nothing else
/// is constrained.
pub open spec fn plan_wf(p: WeddingPlanV) -> bool {
    &&& num_wf(p.budget)
    &&& forall|i: int| 0 <= i < p.todos.len() ==> todo_wf(#[trigger] p.todos[i])
    &&& forall|i: int| 0 <= i < p.tables.len() ==> table_wf(#[trigger] p.tables[i])
    &&& forall|i: int| 0 <= i < p.wishlist.len() ==> wish_wf(#[trigger] p.wishlist[i])
    &&& forall|i: int| 0 <= i < p.media.len() ==> media_wf(#[trigger] p.media[i])
}

impl Number {
    /// Whether every fraction digit is a decimal digit.
    pub fn is_wf(&self) -> (r: bool)
        ensures
            r == num_wf(self@),
    {
        let mut k: usize = 0;
        while k < self.frac.len()
            invariant
                k <= self.frac@.len(),
                forall|i: int| 0 <= i < k ==> self.frac@[i] < 10,
            decreases self.frac@.len() - k,
        {
            if self.frac[k] >= 10 {
                proof {
                    assert(self@.frac[k as int] >= 10);
                }
                return false;
            }
            k = k + 1;
        }
        true
    }
}

fn opt_num_ok(o: &Option<Number>) -> (r: bool)
    ensures
        r == opt_num_wf(opt_num_view(*o)),
{
    match o {
        Some(n) => n.is_wf(),
        None => true,
    }
}

impl WeddingPlan {
    /// Every number of the plan has well-formed fraction digits.
    pub open spec fn wf(&self) -> bool {
        plan_wf(self@)
    }

    /// Whether the plan's numbers are all well formed; only such a plan
    /// can be serialized.
    pub fn is_wf(&self) -> (r: bool)
        ensures
            r == self.wf(),
    {
        if !self.budget.is_wf() {
            return false;
        }
        let mut k: usize = 0;
        while k < self.todos.len()
            invariant
                k <= self.todos@.len(),
                forall|i: int| 0 <= i < k ==> todo_wf(#[trigger] todos_view(self.todos@)[i]),
            decreases self.todos@.len() - k,
        {
            if !opt_num_ok(&self.todos[k].cost) || !opt_num_ok(&self.todos[k].budget) {
                proof {
                    assert(todos_view(self.todos@)[k as int] == self.todos@[k as int]@);
                    assert(!todo_wf(self@.todos[k as int]));
                }
                return false;
            }
            proof {
                assert(todos_view(self.todos@)[k as int] == self.todos@[k as int]@);
            }
            k = k + 1;
        }
        let mut k: usize = 0;
        while k < self.tables.len()
            invariant
                k <= self.tables@.len(),
                forall|i: int| 0 <= i < k ==> table_wf(#[trigger] tables_view(self.tables@)[i]),
            decreases self.tables@.len() - k,
        {
            if !opt_num_ok(&self.tables[k].x) || !opt_num_ok(&self.tables[k].y) {
                proof {
                    assert(tables_view(self.tables@)[k as int] == self.tables@[k as int]@);
                    assert(!table_wf(self@.tables[k as int]));
                }
                return false;
            }
            proof {
                assert(tables_view(self.tables@)[k as int] == self.tables@[k as int]@);
            }
            k = k + 1;
        }
        let mut k: usize = 0;
        while k < self.wishlist.len()
            invariant
                k <= self.wishlist@.len(),
                forall|i: int| 0 <= i < k ==> wish_wf(#[trigger] wishes_view(self.wishlist@)[i]),
            decreases self.wishlist@.len() - k,
        {
            if !self.wishlist[k].price.is_wf() {
                proof {
                    assert(wishes_view(self.wishlist@)[k as int] == self.wishlist@[k as int]@);
                    assert(!wish_wf(self@.wishlist[k as int]));
                }
                return false;
            }
            proof {
                assert(wishes_view(self.wishlist@)[k as int] == self.wishlist@[k as int]@);
            }
            k = k + 1;
        }
        let mut k: usize = 0;
        while k < self.media.len()
            invariant
                k <= self.media@.len(),
                forall|i: int| 0 <= i < k ==> media_wf(#[trigger] medias_view(self.media@)[i]),
            decreases self.media@.len() - k,
        {
            if !opt_num_ok(&self.media[k].duration) {
                proof {
                    assert(medias_view(self.media@)[k as int] == self.media@[k as int]@);
                    assert(!media_wf(self@.media[k as int]));
                }
                return false;
            }
            proof {
                assert(medias_view(self.media@)[k as int] == self.media@[k as int]@);
            }
            k = k + 1;
        }
        proof {
            assert(self@.todos == todos_view(self.todos@));
            assert(self@.tables == tables_view(self.tables@));
            assert(self@.wishlist == wishes_view(self.wishlist@));
            assert(self@.media == medias_view(self.media@));
        }
        true
    }
}

} // verus!
