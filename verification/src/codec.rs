//! The document codec: between schema values and JSON values.
//!
//! Each type of the schema has a fixed field list on the wire, in camel
//! case.  Writing always emits every field, with `null` for an absent
//! optional value.  Reading fills a declared default for what is absent:
//! collections become empty, `rsvpStatus` pending, `shape` round, a
//! wishlist `status` available; anything else absent or of the wrong
//! shape fails the read.

use vstd::prelude::*;

use crate::StoreError;
use crate::json::Json;
use crate::json::JsonV;
use crate::json::elems_view;
use crate::json::elems_view_from;
use crate::json::fields_view;
use crate::json::fields_view_from;
use crate::json::json_wf;
use crate::json::lemma_elems_view_from;
use crate::json::lemma_fields_view_from;
use crate::json::lookup;
use crate::json::lookup_from;
use crate::num::NumV;
use crate::num::Number;
use crate::num::i64_num;
use crate::num::num_as_i32;
use crate::num::num_as_i64;
use crate::num::num_as_u32;
use crate::num::num_as_u64;
use crate::num::num_wf;
use crate::num::u64_num;
use crate::parse::parse_doc;
use crate::parse::parse_json;
use crate::render::doc_text;
use crate::render::render_json;
use crate::roundtrip::lemma_doc_round_trip;
use crate::schema::Guest;
use crate::schema::GuestV;
use crate::schema::MediaCategory;
use crate::schema::MediaDimensions;
use crate::schema::MediaItem;
use crate::schema::MediaItemV;
use crate::schema::MediaType;
use crate::schema::PlusOne;
use crate::schema::PlusOneV;
use crate::schema::RSVPStatus;
use crate::schema::SeatAssignment;
use crate::schema::SeatAssignmentV;
use crate::schema::Table;
use crate::schema::TableShape;
use crate::schema::TableV;
use crate::schema::TodoItem;
use crate::schema::TodoItemV;
use crate::schema::WeddingPlan;
use crate::schema::WeddingPlanV;
use crate::schema::WishStatus;
use crate::schema::WishlistItem;
use crate::schema::WishlistItemV;
use crate::schema::default_plan;
use crate::schema::guests_view;
use crate::schema::media_wf;
use crate::schema::medias_view;
use crate::schema::opt_num_view;
use crate::schema::opt_num_wf;
use crate::schema::opt_str_view;
use crate::schema::plan_wf;
use crate::schema::plus_ones_view;
use crate::schema::seats_view;
use crate::schema::strings_view;
use crate::schema::table_wf;
use crate::schema::tables_view;
use crate::schema::todo_wf;
use crate::schema::todos_view;
use crate::schema::wish_wf;
use crate::schema::wishes_view;

verus! {

/// Characterwise string comparison.
pub(crate) fn str_eq(a: &str, b: &str) -> (r: bool)
    ensures
        r == (a@ == b@),
{
    let n = a.unicode_len();
    let m = b.unicode_len();
    if n != m {
        return false;
    }
    let mut i: usize = 0;
    while i < n
        invariant
            n == a@.len(),
            n == b@.len(),
            i <= n,
            forall|k: int| 0 <= k < i ==> a@[k] == b@[k],
        decreases n - i,
    {
        if a.get_char(i) != b.get_char(i) {
            return false;
        }
        i = i + 1;
    }
    proof {
        assert(a@ =~= b@);
    }
    true
}

/// Appending a field appends its view.
proof fn lemma_fields_view_push(fs: Seq<(String, Json)>, p: (String, Json))
    ensures
        fields_view(fs.push(p)) == fields_view(fs).push((p.0@, p.1@)),
{
    lemma_fields_view_from(fs.push(p), 0);
    lemma_fields_view_from(fs, 0);
    assert forall|i: int| 0 <= i < fs.len() + 1 implies fields_view(fs.push(p))[i] == fields_view(
        fs,
    ).push((p.0@, p.1@))[i] by {
        assert(fields_view_from(fs.push(p), 0)[i - 0] == ((fs.push(p))[i].0@, (fs.push(p))[i].1@));
        if i < fs.len() {
            assert(fs.push(p)[i] == fs[i]);
            assert(fields_view_from(fs, 0)[i - 0] == (fs[i].0@, fs[i].1@));
        } else {
            assert(fs.push(p)[i] == p);
        }
    }
    assert(fields_view(fs.push(p)) =~= fields_view(fs).push((p.0@, p.1@)));
}

/// Appending an element appends its view.
proof fn lemma_elems_view_push(es: Seq<Json>, j: Json)
    ensures
        elems_view(es.push(j)) == elems_view(es).push(j@),
{
    lemma_elems_view_from(es.push(j), 0);
    lemma_elems_view_from(es, 0);
    assert forall|i: int| 0 <= i < es.len() + 1 implies elems_view(es.push(j))[i] == elems_view(
        es,
    ).push(j@)[i] by {
        assert(elems_view_from(es.push(j), 0)[i - 0] == (es.push(j))[i]@);
        if i < es.len() {
            assert(es.push(j)[i] == es[i]);
            assert(elems_view_from(es, 0)[i - 0] == es[i]@);
        } else {
            assert(es.push(j)[i] == j);
        }
    }
    assert(elems_view(es.push(j)) =~= elems_view(es).push(j@));
}

/// Add one named field to a growing field list.
fn push_field(fs: &mut Vec<(String, Json)>, name: &str, v: Json)
    ensures
        fields_view(final(fs)@) == fields_view(old(fs)@).push((name@, v@)),
{
    let ghost oldfs = fs@;
    fs.push((String::from_str(name), v));
    proof {
        lemma_fields_view_push(oldfs, fs@.last());
        assert(fs@.drop_last() =~= oldfs);
        assert(fs@ =~= oldfs.push(fs@.last()));
    }
}

/// The first field of the given name, if any.
fn lookup_field<'a>(fs: &'a Vec<(String, Json)>, name: &str) -> (r: Option<&'a Json>)
    ensures
        match r {
            Some(j) => lookup(fields_view(fs@), name@) == Some(j@),
            None => lookup(fields_view(fs@), name@) is None,
        },
{
    proof {
        lemma_fields_view_from(fs@, 0);
    }
    let ghost fv = fields_view(fs@);
    let n = fs.len();
    let mut k: usize = 0;
    while k < n
        invariant
            n == fs@.len(),
            k <= n,
            fv == fields_view(fs@),
            fv.len() == n,
            forall|i: int| 0 <= i < n ==> fv[i] == (#[trigger] fs@[i].0@, fs@[i].1@),
            lookup_from(fv, k as int, name@) == lookup(fv, name@),
        decreases n - k,
    {
        if str_eq(fs[k].0.as_str(), name) {
            proof {
                assert(lookup_from(fv, k as int, name@) == Some(fv[k as int].1));
            }
            return Some(&fs[k].1);
        }
        k = k + 1;
    }
    None
}

/// A string stored under the name; anything else fails.
pub open spec fn req_str(fs: Seq<(Seq<char>, JsonV)>, name: Seq<char>) -> Option<Seq<char>> {
    match lookup(fs, name) {
        Some(JsonV::Str(s)) => Some(s),
        _ => None,
    }
}

/// An optional string: absent or null is none; anything else but a string
/// fails.
pub open spec fn opt_str(fs: Seq<(Seq<char>, JsonV)>, name: Seq<char>) -> Option<
    Option<Seq<char>>,
> {
    match lookup(fs, name) {
        None => Some(None),
        Some(JsonV::Null) => Some(None),
        Some(JsonV::Str(s)) => Some(Some(s)),
        Some(_) => None,
    }
}

/// A boolean stored under the name.
pub open spec fn req_bool(fs: Seq<(Seq<char>, JsonV)>, name: Seq<char>) -> Option<bool> {
    match lookup(fs, name) {
        Some(JsonV::Bool(b)) => Some(b),
        _ => None,
    }
}

/// A boolean that is false when absent.
pub open spec fn def_bool(fs: Seq<(Seq<char>, JsonV)>, name: Seq<char>) -> Option<bool> {
    match lookup(fs, name) {
        None => Some(false),
        Some(JsonV::Bool(b)) => Some(b),
        Some(_) => None,
    }
}

/// A number stored under the name.
pub open spec fn req_num(fs: Seq<(Seq<char>, JsonV)>, name: Seq<char>) -> Option<NumV> {
    match lookup(fs, name) {
        Some(JsonV::Num(n)) => Some(n),
        _ => None,
    }
}

/// An optional number: absent or null is none.
pub open spec fn opt_num(fs: Seq<(Seq<char>, JsonV)>, name: Seq<char>) -> Option<Option<NumV>> {
    match lookup(fs, name) {
        None => Some(None),
        Some(JsonV::Null) => Some(None),
        Some(JsonV::Num(n)) => Some(Some(n)),
        Some(_) => None,
    }
}

/// A signed integer stored under the name.
pub open spec fn req_i64(fs: Seq<(Seq<char>, JsonV)>, name: Seq<char>) -> Option<i64> {
    match req_num(fs, name) {
        Some(n) => num_as_i64(n),
        None => None,
    }
}

/// A signed 32-bit integer stored under the name.
pub open spec fn req_i32(fs: Seq<(Seq<char>, JsonV)>, name: Seq<char>) -> Option<i32> {
    match req_num(fs, name) {
        Some(n) => num_as_i32(n),
        None => None,
    }
}

/// An unsigned integer stored under the name.
pub open spec fn req_u64(fs: Seq<(Seq<char>, JsonV)>, name: Seq<char>) -> Option<u64> {
    match req_num(fs, name) {
        Some(n) => num_as_u64(n),
        None => None,
    }
}

/// An unsigned 32-bit integer stored under the name.
pub open spec fn req_u32(fs: Seq<(Seq<char>, JsonV)>, name: Seq<char>) -> Option<u32> {
    match req_num(fs, name) {
        Some(n) => num_as_u32(n),
        None => None,
    }
}

/// An array stored under the name, empty when absent.
pub open spec fn def_arr(fs: Seq<(Seq<char>, JsonV)>, name: Seq<char>) -> Option<Seq<JsonV>> {
    match lookup(fs, name) {
        None => Some(Seq::empty()),
        Some(JsonV::Arr(es)) => Some(es),
        Some(_) => None,
    }
}

/// An array stored under the name; absence fails.
pub open spec fn req_arr(fs: Seq<(Seq<char>, JsonV)>, name: Seq<char>) -> Option<Seq<JsonV>> {
    match lookup(fs, name) {
        Some(JsonV::Arr(es)) => Some(es),
        _ => None,
    }
}

/// An optional string on the wire: the string, or null.
pub open spec fn jnull_or_str(o: Option<Seq<char>>) -> JsonV {
    match o {
        Some(s) => JsonV::Str(s),
        None => JsonV::Null,
    }
}

/// An optional number on the wire: the number, or null.
pub open spec fn jnull_or_num(o: Option<NumV>) -> JsonV {
    match o {
        Some(n) => JsonV::Num(n),
        None => JsonV::Null,
    }
}

/// The number value, duplicated.
fn copy_number(n: &Number) -> (r: Number)
    ensures
        r@ == n@,
{
    let frac = vstd::slice::slice_to_vec(n.frac.as_slice());
    let r = Number { neg: n.neg, whole: n.whole, frac };
    proof {
        assert(r@ =~= n@);
    }
    r
}

fn opt_str_to_json(o: &Option<String>) -> (r: Json)
    ensures
        r@ == jnull_or_str(opt_str_view(*o)),
{
    match o {
        Some(s) => Json::Str(s.clone()),
        None => Json::Null,
    }
}

fn opt_num_to_json(o: &Option<Number>) -> (r: Json)
    ensures
        r@ == jnull_or_num(opt_num_view(*o)),
{
    match o {
        Some(n) => Json::Num(copy_number(n)),
        None => Json::Null,
    }
}

fn get_req_str(fs: &Vec<(String, Json)>, name: &str) -> (r: Option<String>)
    ensures
        match r {
            Some(s) => req_str(fields_view(fs@), name@) == Some(s@),
            None => req_str(fields_view(fs@), name@) is None,
        },
{
    match lookup_field(fs, name) {
        Some(Json::Str(s)) => Some(s.clone()),
        _ => None,
    }
}

fn get_opt_str(fs: &Vec<(String, Json)>, name: &str) -> (r: Option<Option<String>>)
    ensures
        match r {
            Some(o) => opt_str(fields_view(fs@), name@) == Some(opt_str_view(o)),
            None => opt_str(fields_view(fs@), name@) is None,
        },
{
    match lookup_field(fs, name) {
        None => Some(None),
        Some(Json::Null) => Some(None),
        Some(Json::Str(s)) => Some(Some(s.clone())),
        Some(_) => None,
    }
}

fn get_req_bool(fs: &Vec<(String, Json)>, name: &str) -> (r: Option<bool>)
    ensures
        r == req_bool(fields_view(fs@), name@),
{
    match lookup_field(fs, name) {
        Some(Json::Bool(b)) => Some(*b),
        _ => None,
    }
}

fn get_def_bool(fs: &Vec<(String, Json)>, name: &str) -> (r: Option<bool>)
    ensures
        r == def_bool(fields_view(fs@), name@),
{
    match lookup_field(fs, name) {
        None => Some(false),
        Some(Json::Bool(b)) => Some(*b),
        Some(_) => None,
    }
}

fn get_req_num(fs: &Vec<(String, Json)>, name: &str) -> (r: Option<Number>)
    ensures
        match r {
            Some(n) => req_num(fields_view(fs@), name@) == Some(n@),
            None => req_num(fields_view(fs@), name@) is None,
        },
{
    match lookup_field(fs, name) {
        Some(Json::Num(n)) => Some(copy_number(n)),
        _ => None,
    }
}

fn get_opt_num(fs: &Vec<(String, Json)>, name: &str) -> (r: Option<Option<Number>>)
    ensures
        match r {
            Some(o) => opt_num(fields_view(fs@), name@) == Some(opt_num_view(o)),
            None => opt_num(fields_view(fs@), name@) is None,
        },
{
    match lookup_field(fs, name) {
        None => Some(None),
        Some(Json::Null) => Some(None),
        Some(Json::Num(n)) => Some(Some(copy_number(n))),
        Some(_) => None,
    }
}

fn get_req_i64(fs: &Vec<(String, Json)>, name: &str) -> (r: Option<i64>)
    ensures
        r == req_i64(fields_view(fs@), name@),
{
    match lookup_field(fs, name) {
        Some(Json::Num(n)) => n.to_i64(),
        _ => None,
    }
}

fn get_req_i32(fs: &Vec<(String, Json)>, name: &str) -> (r: Option<i32>)
    ensures
        r == req_i32(fields_view(fs@), name@),
{
    match lookup_field(fs, name) {
        Some(Json::Num(n)) => n.to_i32(),
        _ => None,
    }
}

fn get_req_u64(fs: &Vec<(String, Json)>, name: &str) -> (r: Option<u64>)
    ensures
        r == req_u64(fields_view(fs@), name@),
{
    match lookup_field(fs, name) {
        Some(Json::Num(n)) => n.to_u64(),
        _ => None,
    }
}

fn get_req_u32(fs: &Vec<(String, Json)>, name: &str) -> (r: Option<u32>)
    ensures
        r == req_u32(fields_view(fs@), name@),
{
    match lookup_field(fs, name) {
        Some(Json::Num(n)) => n.to_u32(),
        _ => None,
    }
}

/// The wire word for a value of `RSVPStatus`.
pub open spec fn rsvp_json(r: RSVPStatus) -> JsonV {
    match r {
        RSVPStatus::Pending => JsonV::Str("pending"@),
        RSVPStatus::Attending => JsonV::Str("attending"@),
        RSVPStatus::Declined => JsonV::Str("declined"@),
    }
}

/// A `RSVPStatus` stored under the name; the default when absent.
pub open spec fn rsvp_of_json(fs: Seq<(Seq<char>, JsonV)>, name: Seq<char>) -> Option<RSVPStatus> {
    match lookup(fs, name) {
        None => Some(RSVPStatus::Pending),
        Some(JsonV::Str(s)) => if s == "pending"@ { Some(RSVPStatus::Pending) } else if s == "attending"@ { Some(RSVPStatus::Attending) } else if s == "declined"@ { Some(RSVPStatus::Declined) } else { None },
        Some(_) => None,
    }
}

fn rsvp_to_json(r: RSVPStatus) -> (j: Json)
    ensures
        j@ == rsvp_json(r),
{
    match r {
        RSVPStatus::Pending => Json::Str(String::from_str("pending")),
        RSVPStatus::Attending => Json::Str(String::from_str("attending")),
        RSVPStatus::Declined => Json::Str(String::from_str("declined")),
    }
}

fn get_rsvp(fs: &Vec<(String, Json)>, name: &str) -> (r: Option<RSVPStatus>)
    ensures
        r == rsvp_of_json(fields_view(fs@), name@),
{
    match lookup_field(fs, name) {
        None => Some(RSVPStatus::Pending),
        Some(Json::Str(s)) => if str_eq(s.as_str(), "pending") { Some(RSVPStatus::Pending) } else if str_eq(s.as_str(), "attending") { Some(RSVPStatus::Attending) } else if str_eq(s.as_str(), "declined") { Some(RSVPStatus::Declined) } else { None },
        Some(_) => None,
    }
}

/// Reading back the wire word gives the value.
proof fn lemma_rsvp_rt(fs: Seq<(Seq<char>, JsonV)>, name: Seq<char>, r: RSVPStatus)
    requires
        lookup(fs, name) == Some(rsvp_json(r)),
    ensures
        rsvp_of_json(fs, name) == Some(r),
{
    reveal_strlit("pending");
    reveal_strlit("attending");
    reveal_strlit("declined");
    match r {
        RSVPStatus::Pending => {
            assert(lookup(fs, name) == Some(JsonV::Str("pending"@)));
        },
        RSVPStatus::Attending => {
            assert(lookup(fs, name) == Some(JsonV::Str("attending"@)));
            assert("attending"@ != "pending"@) by { assert("attending"@.len() == 9); assert("pending"@.len() == 7); }
        },
        RSVPStatus::Declined => {
            assert(lookup(fs, name) == Some(JsonV::Str("declined"@)));
            assert("declined"@ != "pending"@) by { assert("declined"@.len() == 8); assert("pending"@.len() == 7); }
            assert("declined"@ != "attending"@) by { assert("declined"@.len() == 8); assert("attending"@.len() == 9); }
        },
    }
}

/// The wire word for a value of `TableShape`.
pub open spec fn shape_json(r: TableShape) -> JsonV {
    match r {
        TableShape::Round => JsonV::Str("round"@),
        TableShape::Rectangular => JsonV::Str("rectangular"@),
    }
}

/// A `TableShape` stored under the name; the default when absent.
pub open spec fn shape_of_json(fs: Seq<(Seq<char>, JsonV)>, name: Seq<char>) -> Option<TableShape> {
    match lookup(fs, name) {
        None => Some(TableShape::Round),
        Some(JsonV::Str(s)) => if s == "round"@ { Some(TableShape::Round) } else if s == "rectangular"@ { Some(TableShape::Rectangular) } else { None },
        Some(_) => None,
    }
}

fn shape_to_json(r: TableShape) -> (j: Json)
    ensures
        j@ == shape_json(r),
{
    match r {
        TableShape::Round => Json::Str(String::from_str("round")),
        TableShape::Rectangular => Json::Str(String::from_str("rectangular")),
    }
}

fn get_shape(fs: &Vec<(String, Json)>, name: &str) -> (r: Option<TableShape>)
    ensures
        r == shape_of_json(fields_view(fs@), name@),
{
    match lookup_field(fs, name) {
        None => Some(TableShape::Round),
        Some(Json::Str(s)) => if str_eq(s.as_str(), "round") { Some(TableShape::Round) } else if str_eq(s.as_str(), "rectangular") { Some(TableShape::Rectangular) } else { None },
        Some(_) => None,
    }
}

/// Reading back the wire word gives the value.
proof fn lemma_shape_rt(fs: Seq<(Seq<char>, JsonV)>, name: Seq<char>, r: TableShape)
    requires
        lookup(fs, name) == Some(shape_json(r)),
    ensures
        shape_of_json(fs, name) == Some(r),
{
    reveal_strlit("round");
    reveal_strlit("rectangular");
    match r {
        TableShape::Round => {
            assert(lookup(fs, name) == Some(JsonV::Str("round"@)));
        },
        TableShape::Rectangular => {
            assert(lookup(fs, name) == Some(JsonV::Str("rectangular"@)));
            assert("rectangular"@ != "round"@) by { assert("rectangular"@.len() == 11); assert("round"@.len() == 5); }
        },
    }
}

/// The wire word for a value of `WishStatus`.
pub open spec fn wish_status_json(r: WishStatus) -> JsonV {
    match r {
        WishStatus::Available => JsonV::Str("available"@),
        WishStatus::Reserved => JsonV::Str("reserved"@),
        WishStatus::Purchased => JsonV::Str("purchased"@),
    }
}

/// A `WishStatus` stored under the name; the default when absent.
pub open spec fn wish_status_of_json(fs: Seq<(Seq<char>, JsonV)>, name: Seq<char>) -> Option<WishStatus> {
    match lookup(fs, name) {
        None => Some(WishStatus::Available),
        Some(JsonV::Str(s)) => if s == "available"@ { Some(WishStatus::Available) } else if s == "reserved"@ { Some(WishStatus::Reserved) } else if s == "purchased"@ { Some(WishStatus::Purchased) } else { None },
        Some(_) => None,
    }
}

fn wish_status_to_json(r: WishStatus) -> (j: Json)
    ensures
        j@ == wish_status_json(r),
{
    match r {
        WishStatus::Available => Json::Str(String::from_str("available")),
        WishStatus::Reserved => Json::Str(String::from_str("reserved")),
        WishStatus::Purchased => Json::Str(String::from_str("purchased")),
    }
}

fn get_wish_status(fs: &Vec<(String, Json)>, name: &str) -> (r: Option<WishStatus>)
    ensures
        r == wish_status_of_json(fields_view(fs@), name@),
{
    match lookup_field(fs, name) {
        None => Some(WishStatus::Available),
        Some(Json::Str(s)) => if str_eq(s.as_str(), "available") { Some(WishStatus::Available) } else if str_eq(s.as_str(), "reserved") { Some(WishStatus::Reserved) } else if str_eq(s.as_str(), "purchased") { Some(WishStatus::Purchased) } else { None },
        Some(_) => None,
    }
}

/// Reading back the wire word gives the value.
proof fn lemma_wish_status_rt(fs: Seq<(Seq<char>, JsonV)>, name: Seq<char>, r: WishStatus)
    requires
        lookup(fs, name) == Some(wish_status_json(r)),
    ensures
        wish_status_of_json(fs, name) == Some(r),
{
    reveal_strlit("available");
    reveal_strlit("reserved");
    reveal_strlit("purchased");
    match r {
        WishStatus::Available => {
            assert(lookup(fs, name) == Some(JsonV::Str("available"@)));
        },
        WishStatus::Reserved => {
            assert(lookup(fs, name) == Some(JsonV::Str("reserved"@)));
            assert("reserved"@ != "available"@) by { assert("reserved"@.len() == 8); assert("available"@.len() == 9); }
        },
        WishStatus::Purchased => {
            assert(lookup(fs, name) == Some(JsonV::Str("purchased"@)));
            assert("purchased"@ != "available"@) by { assert("purchased"@[0] == 'p'); assert("available"@[0] == 'a'); }
            assert("purchased"@ != "reserved"@) by { assert("purchased"@.len() == 9); assert("reserved"@.len() == 8); }
        },
    }
}

/// The wire word for a value of `MediaType`.
pub open spec fn media_type_json(r: MediaType) -> JsonV {
    match r {
        MediaType::Image => JsonV::Str("image"@),
        MediaType::Video => JsonV::Str("video"@),
    }
}

/// A `MediaType` stored under the name.
pub open spec fn media_type_of_json(fs: Seq<(Seq<char>, JsonV)>, name: Seq<char>) -> Option<MediaType> {
    match lookup(fs, name) {
        None => None,
        Some(JsonV::Str(s)) => if s == "image"@ { Some(MediaType::Image) } else if s == "video"@ { Some(MediaType::Video) } else { None },
        Some(_) => None,
    }
}

fn media_type_to_json(r: MediaType) -> (j: Json)
    ensures
        j@ == media_type_json(r),
{
    match r {
        MediaType::Image => Json::Str(String::from_str("image")),
        MediaType::Video => Json::Str(String::from_str("video")),
    }
}

fn get_media_type(fs: &Vec<(String, Json)>, name: &str) -> (r: Option<MediaType>)
    ensures
        r == media_type_of_json(fields_view(fs@), name@),
{
    match lookup_field(fs, name) {
        None => None,
        Some(Json::Str(s)) => if str_eq(s.as_str(), "image") { Some(MediaType::Image) } else if str_eq(s.as_str(), "video") { Some(MediaType::Video) } else { None },
        Some(_) => None,
    }
}

/// Reading back the wire word gives the value.
proof fn lemma_media_type_rt(fs: Seq<(Seq<char>, JsonV)>, name: Seq<char>, r: MediaType)
    requires
        lookup(fs, name) == Some(media_type_json(r)),
    ensures
        media_type_of_json(fs, name) == Some(r),
{
    reveal_strlit("image");
    reveal_strlit("video");
    match r {
        MediaType::Image => {
            assert(lookup(fs, name) == Some(JsonV::Str("image"@)));
        },
        MediaType::Video => {
            assert(lookup(fs, name) == Some(JsonV::Str("video"@)));
            assert("video"@ != "image"@) by { assert("video"@[0] == 'v'); assert("image"@[0] == 'i'); }
        },
    }
}

/// The wire word for a value of `MediaCategory`.
pub open spec fn media_category_json(r: MediaCategory) -> JsonV {
    match r {
        MediaCategory::Ceremony => JsonV::Str("ceremony"@),
        MediaCategory::Reception => JsonV::Str("reception"@),
        MediaCategory::Preparation => JsonV::Str("preparation"@),
        MediaCategory::Portraits => JsonV::Str("portraits"@),
        MediaCategory::Party => JsonV::Str("party"@),
        MediaCategory::Other => JsonV::Str("other"@),
    }
}

/// A `MediaCategory` stored under the name.
pub open spec fn media_category_of_json(fs: Seq<(Seq<char>, JsonV)>, name: Seq<char>) -> Option<MediaCategory> {
    match lookup(fs, name) {
        None => None,
        Some(JsonV::Str(s)) => if s == "ceremony"@ { Some(MediaCategory::Ceremony) } else if s == "reception"@ { Some(MediaCategory::Reception) } else if s == "preparation"@ { Some(MediaCategory::Preparation) } else if s == "portraits"@ { Some(MediaCategory::Portraits) } else if s == "party"@ { Some(MediaCategory::Party) } else if s == "other"@ { Some(MediaCategory::Other) } else { None },
        Some(_) => None,
    }
}

fn media_category_to_json(r: MediaCategory) -> (j: Json)
    ensures
        j@ == media_category_json(r),
{
    match r {
        MediaCategory::Ceremony => Json::Str(String::from_str("ceremony")),
        MediaCategory::Reception => Json::Str(String::from_str("reception")),
        MediaCategory::Preparation => Json::Str(String::from_str("preparation")),
        MediaCategory::Portraits => Json::Str(String::from_str("portraits")),
        MediaCategory::Party => Json::Str(String::from_str("party")),
        MediaCategory::Other => Json::Str(String::from_str("other")),
    }
}

fn get_media_category(fs: &Vec<(String, Json)>, name: &str) -> (r: Option<MediaCategory>)
    ensures
        r == media_category_of_json(fields_view(fs@), name@),
{
    match lookup_field(fs, name) {
        None => None,
        Some(Json::Str(s)) => if str_eq(s.as_str(), "ceremony") { Some(MediaCategory::Ceremony) } else if str_eq(s.as_str(), "reception") { Some(MediaCategory::Reception) } else if str_eq(s.as_str(), "preparation") { Some(MediaCategory::Preparation) } else if str_eq(s.as_str(), "portraits") { Some(MediaCategory::Portraits) } else if str_eq(s.as_str(), "party") { Some(MediaCategory::Party) } else if str_eq(s.as_str(), "other") { Some(MediaCategory::Other) } else { None },
        Some(_) => None,
    }
}

/// Reading back the wire word gives the value.
proof fn lemma_media_category_rt(fs: Seq<(Seq<char>, JsonV)>, name: Seq<char>, r: MediaCategory)
    requires
        lookup(fs, name) == Some(media_category_json(r)),
    ensures
        media_category_of_json(fs, name) == Some(r),
{
    reveal_strlit("ceremony");
    reveal_strlit("reception");
    reveal_strlit("preparation");
    reveal_strlit("portraits");
    reveal_strlit("party");
    reveal_strlit("other");
    match r {
        MediaCategory::Ceremony => {
            assert(lookup(fs, name) == Some(JsonV::Str("ceremony"@)));
        },
        MediaCategory::Reception => {
            assert(lookup(fs, name) == Some(JsonV::Str("reception"@)));
            assert("reception"@ != "ceremony"@) by { assert("reception"@.len() == 9); assert("ceremony"@.len() == 8); }
        },
        MediaCategory::Preparation => {
            assert(lookup(fs, name) == Some(JsonV::Str("preparation"@)));
            assert("preparation"@ != "ceremony"@) by { assert("preparation"@.len() == 11); assert("ceremony"@.len() == 8); }
            assert("preparation"@ != "reception"@) by { assert("preparation"@.len() == 11); assert("reception"@.len() == 9); }
        },
        MediaCategory::Portraits => {
            assert(lookup(fs, name) == Some(JsonV::Str("portraits"@)));
            assert("portraits"@ != "ceremony"@) by { assert("portraits"@.len() == 9); assert("ceremony"@.len() == 8); }
            assert("portraits"@ != "reception"@) by { assert("portraits"@[0] == 'p'); assert("reception"@[0] == 'r'); }
            assert("portraits"@ != "preparation"@) by { assert("portraits"@.len() == 9); assert("preparation"@.len() == 11); }
        },
        MediaCategory::Party => {
            assert(lookup(fs, name) == Some(JsonV::Str("party"@)));
            assert("party"@ != "ceremony"@) by { assert("party"@.len() == 5); assert("ceremony"@.len() == 8); }
            assert("party"@ != "reception"@) by { assert("party"@.len() == 5); assert("reception"@.len() == 9); }
            assert("party"@ != "preparation"@) by { assert("party"@.len() == 5); assert("preparation"@.len() == 11); }
            assert("party"@ != "portraits"@) by { assert("party"@.len() == 5); assert("portraits"@.len() == 9); }
        },
        MediaCategory::Other => {
            assert(lookup(fs, name) == Some(JsonV::Str("other"@)));
            assert("other"@ != "ceremony"@) by { assert("other"@.len() == 5); assert("ceremony"@.len() == 8); }
            assert("other"@ != "reception"@) by { assert("other"@.len() == 5); assert("reception"@.len() == 9); }
            assert("other"@ != "preparation"@) by { assert("other"@.len() == 5); assert("preparation"@.len() == 11); }
            assert("other"@ != "portraits"@) by { assert("other"@.len() == 5); assert("portraits"@.len() == 9); }
            assert("other"@ != "party"@) by { assert("other"@[0] == 'o'); assert("party"@[0] == 'p'); }
        },
    }
}

/// Elementwise well-formedness makes an array value well formed.
proof fn lemma_json_wf_arr_intro(es: Seq<JsonV>)
    requires
        forall|i: int| 0 <= i < es.len() ==> json_wf(#[trigger] es[i]),
    ensures
        json_wf(JsonV::Arr(es)),
{
    let j = JsonV::Arr(es);
    match j {
        JsonV::Arr(es2) => {
            assert(es2 == es);
            assert forall|i: int| 0 <= i < es2.len() implies json_wf(#[trigger] es2[i]) by {
                assert(es2[i] == es[i]);
            }
        },
        _ => {},
    }
}

/// Fieldwise well-formedness makes an object value well formed.
proof fn lemma_json_wf_obj_intro(fs: Seq<(Seq<char>, JsonV)>)
    requires
        forall|i: int| 0 <= i < fs.len() ==> json_wf(#[trigger] fs[i].1),
    ensures
        json_wf(JsonV::Obj(fs)),
{
    let j = JsonV::Obj(fs);
    match j {
        JsonV::Obj(fs2) => {
            assert(fs2 == fs);
            assert forall|i: int| 0 <= i < fs2.len() implies json_wf(#[trigger] fs2[i].1) by {
                assert(fs2[i] == fs[i]);
            }
        },
        _ => {},
    }
}

/// A string array element.
pub open spec fn str_of_json(j: JsonV) -> Option<Seq<char>> {
    match j {
        JsonV::Str(s) => Some(s),
        _ => None,
    }
}

fn str_from_json(j: &Json) -> (r: Option<String>)
    ensures
        match r {
            Some(s) => str_of_json(j@) == Some(s@),
            None => str_of_json(j@) is None,
        },
{
    match j {
        Json::Str(s) => Some(s.clone()),
        _ => None,
    }
}

/// The wire form of a value of `PlusOne`.
pub open spec fn plus_one_json(x: PlusOneV) -> JsonV {
    JsonV::Obj(
        seq![
        ("id"@, JsonV::Str(x.id)),
        ("name"@, JsonV::Str(x.name)),
        ("mealPreference"@, JsonV::Str(x.meal_preference)),
        ("notes"@, JsonV::Str(x.notes))
    ],
    )
}

/// Reading a value of `PlusOne` back from a JSON value.
pub open spec fn plus_one_of_json(j: JsonV) -> Option<PlusOneV> {
    match j {
        JsonV::Obj(fs) => match req_str(fs, "id"@) {
            Some(id) => match req_str(fs, "name"@) {
                Some(name) => match req_str(fs, "mealPreference"@) {
                    Some(meal_preference) => match req_str(fs, "notes"@) {
                        Some(notes) => Some(PlusOneV {
                            id,
                            name,
                            meal_preference,
                            notes
                        }),
                        None => None,
                    },
                    None => None,
                },
                None => None,
            },
            None => None,
        },
        _ => None,
    }
}

fn plus_one_to_json(x: &PlusOne) -> (r: Json)
    ensures
        r@ == plus_one_json(x@),
{
    let mut fs: Vec<(String, Json)> = Vec::new();
    push_field(&mut fs, "id", Json::Str(x.id.clone()));
    push_field(&mut fs, "name", Json::Str(x.name.clone()));
    push_field(&mut fs, "mealPreference", Json::Str(x.meal_preference.clone()));
    push_field(&mut fs, "notes", Json::Str(x.notes.clone()));
    let r = Json::Obj(fs);
    proof {
        assert(fields_view(Seq::<(String, Json)>::empty()) =~= Seq::<(Seq<char>, JsonV)>::empty());
        assert(fields_view(fs@) =~= seq![
        ("id"@, JsonV::Str(x@.id)),
        ("name"@, JsonV::Str(x@.name)),
        ("mealPreference"@, JsonV::Str(x@.meal_preference)),
        ("notes"@, JsonV::Str(x@.notes))
    ]);
        assert(r@ == plus_one_json(x@));
    }
    r
}

fn plus_one_from_json(j: &Json) -> (r: Option<PlusOne>)
    ensures
        match r {
            Some(x) => plus_one_of_json(j@) == Some(x@),
            None => plus_one_of_json(j@) is None,
        },
{
    match j {
        Json::Obj(fs) => {
            let id = match get_req_str(fs, "id") { Some(v) => v, None => { return None; } };
            let name = match get_req_str(fs, "name") { Some(v) => v, None => { return None; } };
            let meal_preference = match get_req_str(fs, "mealPreference") { Some(v) => v, None => { return None; } };
            let notes = match get_req_str(fs, "notes") { Some(v) => v, None => { return None; } };
            let r = PlusOne { id, name, meal_preference, notes };
            proof {
                assert(plus_one_of_json(j@) is Some);
                assert(plus_one_of_json(j@)->0 =~= r@);
            }
            Some(r)
        },
        _ => None,
    }
}

/// Reading back the wire form of a value of `PlusOne` gives the value itself.
#[verifier::rlimit(100)]
pub proof fn lemma_plus_one_rt(x: PlusOneV)
    ensures
        plus_one_of_json(plus_one_json(x)) == Some(x),
{
    reveal_strlit("id");
    reveal_strlit("name");
    reveal_strlit("mealPreference");
    reveal_strlit("notes");
    let fs = seq![
        ("id"@, JsonV::Str(x.id)),
        ("name"@, JsonV::Str(x.name)),
        ("mealPreference"@, JsonV::Str(x.meal_preference)),
        ("notes"@, JsonV::Str(x.notes))
    ];
    assert(plus_one_json(x) == JsonV::Obj(fs));
    reveal_with_fuel(lookup_from, 20);
    assert("name"@ != "id"@) by { assert("name"@.len() == 4); assert("id"@.len() == 2); }
    assert("mealPreference"@ != "id"@) by { assert("mealPreference"@.len() == 14); assert("id"@.len() == 2); }
    assert("mealPreference"@ != "name"@) by { assert("mealPreference"@.len() == 14); assert("name"@.len() == 4); }
    assert("notes"@ != "id"@) by { assert("notes"@.len() == 5); assert("id"@.len() == 2); }
    assert("notes"@ != "name"@) by { assert("notes"@.len() == 5); assert("name"@.len() == 4); }
    assert("notes"@ != "mealPreference"@) by { assert("notes"@.len() == 5); assert("mealPreference"@.len() == 14); }
    assert(lookup(fs, "id"@) == Some(JsonV::Str(x.id)));
    assert(lookup(fs, "name"@) == Some(JsonV::Str(x.name)));
    assert(lookup(fs, "mealPreference"@) == Some(JsonV::Str(x.meal_preference)));
    assert(lookup(fs, "notes"@) == Some(JsonV::Str(x.notes)));

    assert(plus_one_of_json(plus_one_json(x)) is Some);
    assert(plus_one_of_json(plus_one_json(x))->0 =~= x);
}

proof fn lemma_plus_one_json_wf(x: PlusOneV)
    ensures
        json_wf(plus_one_json(x)),
{
    let fs = seq![
        ("id"@, JsonV::Str(x.id)),
        ("name"@, JsonV::Str(x.name)),
        ("mealPreference"@, JsonV::Str(x.meal_preference)),
        ("notes"@, JsonV::Str(x.notes))
    ];

    lemma_json_wf_obj_intro(fs);
    assert(plus_one_json(x) == JsonV::Obj(fs));
}

/// The wire form of a list: one JSON value per element.
pub open spec fn plus_ones_json(s: Seq<PlusOneV>) -> Seq<JsonV> {
    Seq::new(s.len(), |i: int| plus_one_json(s[i]))
}

/// Reading the elements back, from index `k` on.
pub open spec fn plus_ones_of_json(es: Seq<JsonV>, k: int) -> Option<Seq<PlusOneV>>
    decreases es.len() - k,
{
    if k < 0 {
        None
    } else if k >= es.len() {
        Some(Seq::empty())
    } else {
        match (plus_one_of_json(es[k]), plus_ones_of_json(es, k + 1)) {
            (Some(x), Some(rest)) => Some(seq![x] + rest),
            _ => None,
        }
    }
}

/// The list stored under a name: empty when absent.
pub open spec fn plus_ones_field(fs: Seq<(Seq<char>, JsonV)>, name: Seq<char>) -> Option<Seq<PlusOneV>> {
    match def_arr(fs, name) {
        Some(es) => plus_ones_of_json(es, 0),
        None => None,
    }
}

fn plus_ones_to_json(v: &Vec<PlusOne>) -> (r: Vec<Json>)
    ensures
        elems_view(r@) == plus_ones_json(plus_ones_view(v@)),
{
    let mut out: Vec<Json> = Vec::new();
    let n = v.len();
    let mut k: usize = 0;
    while k < n
        invariant
            n == v@.len(),
            k <= n,
            out@.len() == k,
            forall|i: int| 0 <= i < k ==> (#[trigger] out@[i])@ == plus_ones_json(plus_ones_view(v@))[i],
        decreases n - k,
    {
        out.push(plus_one_to_json(&v[k]));
        k = k + 1;
    }
    proof {
        lemma_elems_view_from(out@, 0);
        assert forall|i: int| 0 <= i < out@.len() implies elems_view(out@)[i] == plus_ones_json(
            plus_ones_view(v@),
        )[i] by {
            assert(elems_view_from(out@, 0)[i - 0] == out@[i]@);
        }
        assert(elems_view(out@) =~= plus_ones_json(plus_ones_view(v@)));
    }
    out
}

fn plus_ones_from_arr(es: &Vec<Json>) -> (r: Option<Vec<PlusOne>>)
    ensures
        match r {
            Some(v) => plus_ones_of_json(elems_view(es@), 0) == Some(plus_ones_view(v@)),
            None => plus_ones_of_json(elems_view(es@), 0) is None,
        },
{
    proof {
        lemma_elems_view_from(es@, 0);
    }
    let ghost esv = elems_view(es@);
    let n = es.len();
    let mut out: Vec<PlusOne> = Vec::new();
    let mut k: usize = 0;
    while k < n
        invariant
            n == es@.len(),
            k <= n,
            esv == elems_view(es@),
            esv.len() == n,
            forall|i: int| 0 <= i < n ==> esv[i] == #[trigger] es@[i]@,
            plus_ones_of_json(esv, 0) == (match plus_ones_of_json(esv, k as int) {
                Some(rest) => Some::<Seq<PlusOneV>>(plus_ones_view(out@) + rest),
                None => None::<Seq<PlusOneV>>,
            }),
        decreases n - k,
    {
        match plus_one_from_json(&es[k]) {
            None => {
                proof {
                    assert(plus_one_of_json(esv[k as int]) is None);
                    assert(plus_ones_of_json(esv, k as int) is None);
                }
                return None;
            },
            Some(x) => {
                let ghost gx = x@;
                let ghost oldout = out@;
                out.push(x);
                proof {
                    assert(plus_one_of_json(esv[k as int]) == Some(gx));
                    assert(plus_ones_view(out@) =~= plus_ones_view(oldout).push(gx));
                    let step = plus_ones_of_json(esv, k + 1);
                    if step is Some {
                        let rest = step->0;
                        assert(plus_ones_view(oldout).push(gx) + rest =~= plus_ones_view(oldout) + (seq![gx]
                            + rest));
                    }
                }
            },
        }
        k = k + 1;
    }
    proof {
        assert(plus_ones_of_json(esv, n as int) == Some(Seq::<PlusOneV>::empty()));
        assert(plus_ones_view(out@) + Seq::<PlusOneV>::empty() =~= plus_ones_view(out@));
    }
    Some(out)
}

proof fn lemma_plus_ones_rt_from(s: Seq<PlusOneV>, k: int)
    requires
        0 <= k <= s.len(),
    ensures
        plus_ones_of_json(plus_ones_json(s), k) == Some(s.subrange(k, s.len() as int)),
    decreases s.len() - k,
{
    let es = plus_ones_json(s);
    if k == s.len() {
        assert(s.subrange(k, s.len() as int) =~= Seq::<PlusOneV>::empty());
    } else {
        assert(es[k] == plus_one_json(s[k]));
        lemma_plus_one_rt(s[k]);
        lemma_plus_ones_rt_from(s, k + 1);
        assert(seq![s[k]] + s.subrange(k + 1, s.len() as int) =~= s.subrange(k, s.len() as int));
    }
}

/// A list read back from its wire form is the list itself.
pub proof fn lemma_plus_ones_rt(s: Seq<PlusOneV>)
    ensures
        plus_ones_of_json(plus_ones_json(s), 0) == Some(s),
{
    lemma_plus_ones_rt_from(s, 0);
    assert(s.subrange(0, s.len() as int) =~= s);
}

proof fn lemma_plus_ones_json_wf(s: Seq<PlusOneV>)

    ensures
        json_wf(JsonV::Arr(plus_ones_json(s))),
{
    assert forall|i: int| 0 <= i < plus_ones_json(s).len() implies json_wf(#[trigger] plus_ones_json(s)[i]) by {
        assert(plus_ones_json(s)[i] == plus_one_json(s[i]));
        lemma_plus_one_json_wf(s[i]);
    }
    lemma_json_wf_arr_intro(plus_ones_json(s));
}

fn get_plus_ones(fs: &Vec<(String, Json)>, name: &str) -> (r: Option<Vec<PlusOne>>)
    ensures
        match r {
            Some(v) => plus_ones_field(fields_view(fs@), name@) == Some(plus_ones_view(v@)),
            None => plus_ones_field(fields_view(fs@), name@) is None,
        },
{
    match lookup_field(fs, name) {
        None => {
            let v: Vec<PlusOne> = Vec::new();
            proof {
                assert(plus_ones_view(v@) =~= Seq::<PlusOneV>::empty());
                assert(plus_ones_of_json(Seq::<JsonV>::empty(), 0) == Some(Seq::<PlusOneV>::empty()));
            }
            Some(v)
        },
        Some(Json::Arr(es)) => plus_ones_from_arr(es),
        Some(_) => None,
    }
}

/// The wire form of a list: one JSON value per element.
pub open spec fn strings_json(s: Seq<Seq<char>>) -> Seq<JsonV> {
    Seq::new(s.len(), |i: int| JsonV::Str(s[i]))
}

/// Reading the elements back, from index `k` on.
pub open spec fn strings_of_json(es: Seq<JsonV>, k: int) -> Option<Seq<Seq<char>>>
    decreases es.len() - k,
{
    if k < 0 {
        None
    } else if k >= es.len() {
        Some(Seq::empty())
    } else {
        match (str_of_json(es[k]), strings_of_json(es, k + 1)) {
            (Some(x), Some(rest)) => Some(seq![x] + rest),
            _ => None,
        }
    }
}

/// The list stored under a name: empty when absent.
pub open spec fn strings_field(fs: Seq<(Seq<char>, JsonV)>, name: Seq<char>) -> Option<Seq<Seq<char>>> {
    match def_arr(fs, name) {
        Some(es) => strings_of_json(es, 0),
        None => None,
    }
}

fn strings_to_json(v: &Vec<String>) -> (r: Vec<Json>)
    ensures
        elems_view(r@) == strings_json(strings_view(v@)),
{
    let mut out: Vec<Json> = Vec::new();
    let n = v.len();
    let mut k: usize = 0;
    while k < n
        invariant
            n == v@.len(),
            k <= n,
            out@.len() == k,
            forall|i: int| 0 <= i < k ==> (#[trigger] out@[i])@ == strings_json(strings_view(v@))[i],
        decreases n - k,
    {
        out.push(Json::Str(v[k].clone()));
        k = k + 1;
    }
    proof {
        lemma_elems_view_from(out@, 0);
        assert forall|i: int| 0 <= i < out@.len() implies elems_view(out@)[i] == strings_json(
            strings_view(v@),
        )[i] by {
            assert(elems_view_from(out@, 0)[i - 0] == out@[i]@);
        }
        assert(elems_view(out@) =~= strings_json(strings_view(v@)));
    }
    out
}

fn strings_from_arr(es: &Vec<Json>) -> (r: Option<Vec<String>>)
    ensures
        match r {
            Some(v) => strings_of_json(elems_view(es@), 0) == Some(strings_view(v@)),
            None => strings_of_json(elems_view(es@), 0) is None,
        },
{
    proof {
        lemma_elems_view_from(es@, 0);
    }
    let ghost esv = elems_view(es@);
    let n = es.len();
    let mut out: Vec<String> = Vec::new();
    let mut k: usize = 0;
    while k < n
        invariant
            n == es@.len(),
            k <= n,
            esv == elems_view(es@),
            esv.len() == n,
            forall|i: int| 0 <= i < n ==> esv[i] == #[trigger] es@[i]@,
            strings_of_json(esv, 0) == (match strings_of_json(esv, k as int) {
                Some(rest) => Some::<Seq<Seq<char>>>(strings_view(out@) + rest),
                None => None::<Seq<Seq<char>>>,
            }),
        decreases n - k,
    {
        match str_from_json(&es[k]) {
            None => {
                proof {
                    assert(str_of_json(esv[k as int]) is None);
                    assert(strings_of_json(esv, k as int) is None);
                }
                return None;
            },
            Some(x) => {
                let ghost gx = x@;
                let ghost oldout = out@;
                out.push(x);
                proof {
                    assert(str_of_json(esv[k as int]) == Some(gx));
                    assert(strings_view(out@) =~= strings_view(oldout).push(gx));
                    let step = strings_of_json(esv, k + 1);
                    if step is Some {
                        let rest = step->0;
                        assert(strings_view(oldout).push(gx) + rest =~= strings_view(oldout) + (seq![gx]
                            + rest));
                    }
                }
            },
        }
        k = k + 1;
    }
    proof {
        assert(strings_of_json(esv, n as int) == Some(Seq::<Seq<char>>::empty()));
        assert(strings_view(out@) + Seq::<Seq<char>>::empty() =~= strings_view(out@));
    }
    Some(out)
}

proof fn lemma_strings_rt_from(s: Seq<Seq<char>>, k: int)
    requires
        0 <= k <= s.len(),
    ensures
        strings_of_json(strings_json(s), k) == Some(s.subrange(k, s.len() as int)),
    decreases s.len() - k,
{
    let es = strings_json(s);
    if k == s.len() {
        assert(s.subrange(k, s.len() as int) =~= Seq::<Seq<char>>::empty());
    } else {
        assert(es[k] == JsonV::Str(s[k]));

        lemma_strings_rt_from(s, k + 1);
        assert(seq![s[k]] + s.subrange(k + 1, s.len() as int) =~= s.subrange(k, s.len() as int));
    }
}

/// A list read back from its wire form is the list itself.
pub proof fn lemma_strings_rt(s: Seq<Seq<char>>)
    ensures
        strings_of_json(strings_json(s), 0) == Some(s),
{
    lemma_strings_rt_from(s, 0);
    assert(s.subrange(0, s.len() as int) =~= s);
}

proof fn lemma_strings_json_wf(s: Seq<Seq<char>>)

    ensures
        json_wf(JsonV::Arr(strings_json(s))),
{
    assert forall|i: int| 0 <= i < strings_json(s).len() implies json_wf(#[trigger] strings_json(s)[i]) by {
        assert(strings_json(s)[i] == JsonV::Str(s[i]));

    }
    lemma_json_wf_arr_intro(strings_json(s));
}

fn get_strings(fs: &Vec<(String, Json)>, name: &str) -> (r: Option<Vec<String>>)
    ensures
        match r {
            Some(v) => strings_field(fields_view(fs@), name@) == Some(strings_view(v@)),
            None => strings_field(fields_view(fs@), name@) is None,
        },
{
    match lookup_field(fs, name) {
        None => {
            let v: Vec<String> = Vec::new();
            proof {
                assert(strings_view(v@) =~= Seq::<Seq<char>>::empty());
                assert(strings_of_json(Seq::<JsonV>::empty(), 0) == Some(Seq::<Seq<char>>::empty()));
            }
            Some(v)
        },
        Some(Json::Arr(es)) => strings_from_arr(es),
        Some(_) => None,
    }
}

/// The wire form of a value of `Guest`.
pub open spec fn guest_json(x: GuestV) -> JsonV {
    JsonV::Obj(
        seq![
        ("id"@, JsonV::Str(x.id)),
        ("name"@, JsonV::Str(x.name)),
        ("email"@, JsonV::Str(x.email)),
        ("phone"@, JsonV::Str(x.phone)),
        ("rsvpStatus"@, rsvp_json(x.rsvp_status)),
        ("mealPreference"@, JsonV::Str(x.meal_preference)),
        ("plusOnes"@, JsonV::Arr(plus_ones_json(x.plus_ones))),
        ("notes"@, JsonV::Str(x.notes))
    ],
    )
}

/// Reading a value of `Guest` back from a JSON value.
pub open spec fn guest_of_json(j: JsonV) -> Option<GuestV> {
    match j {
        JsonV::Obj(fs) => match req_str(fs, "id"@) {
            Some(id) => match req_str(fs, "name"@) {
                Some(name) => match req_str(fs, "email"@) {
                    Some(email) => match req_str(fs, "phone"@) {
                        Some(phone) => match rsvp_of_json(fs, "rsvpStatus"@) {
                            Some(rsvp_status) => match req_str(fs, "mealPreference"@) {
                                Some(meal_preference) => match plus_ones_field(fs, "plusOnes"@) {
                                    Some(plus_ones) => match req_str(fs, "notes"@) {
                                        Some(notes) => Some(GuestV {
                                            id,
                                            name,
                                            email,
                                            phone,
                                            rsvp_status,
                                            meal_preference,
                                            plus_ones,
                                            notes
                                        }),
                                        None => None,
                                    },
                                    None => None,
                                },
                                None => None,
                            },
                            None => None,
                        },
                        None => None,
                    },
                    None => None,
                },
                None => None,
            },
            None => None,
        },
        _ => None,
    }
}

fn guest_to_json(x: &Guest) -> (r: Json)
    ensures
        r@ == guest_json(x@),
{
    let mut fs: Vec<(String, Json)> = Vec::new();
    push_field(&mut fs, "id", Json::Str(x.id.clone()));
    push_field(&mut fs, "name", Json::Str(x.name.clone()));
    push_field(&mut fs, "email", Json::Str(x.email.clone()));
    push_field(&mut fs, "phone", Json::Str(x.phone.clone()));
    push_field(&mut fs, "rsvpStatus", rsvp_to_json(x.rsvp_status));
    push_field(&mut fs, "mealPreference", Json::Str(x.meal_preference.clone()));
    push_field(&mut fs, "plusOnes", Json::Arr(plus_ones_to_json(&x.plus_ones)));
    push_field(&mut fs, "notes", Json::Str(x.notes.clone()));
    let r = Json::Obj(fs);
    proof {
        assert(fields_view(Seq::<(String, Json)>::empty()) =~= Seq::<(Seq<char>, JsonV)>::empty());
        assert(fields_view(fs@) =~= seq![
        ("id"@, JsonV::Str(x@.id)),
        ("name"@, JsonV::Str(x@.name)),
        ("email"@, JsonV::Str(x@.email)),
        ("phone"@, JsonV::Str(x@.phone)),
        ("rsvpStatus"@, rsvp_json(x@.rsvp_status)),
        ("mealPreference"@, JsonV::Str(x@.meal_preference)),
        ("plusOnes"@, JsonV::Arr(plus_ones_json(x@.plus_ones))),
        ("notes"@, JsonV::Str(x@.notes))
    ]);
        assert(r@ == guest_json(x@));
    }
    r
}

fn guest_from_json(j: &Json) -> (r: Option<Guest>)
    ensures
        match r {
            Some(x) => guest_of_json(j@) == Some(x@),
            None => guest_of_json(j@) is None,
        },
{
    match j {
        Json::Obj(fs) => {
            let id = match get_req_str(fs, "id") { Some(v) => v, None => { return None; } };
            let name = match get_req_str(fs, "name") { Some(v) => v, None => { return None; } };
            let email = match get_req_str(fs, "email") { Some(v) => v, None => { return None; } };
            let phone = match get_req_str(fs, "phone") { Some(v) => v, None => { return None; } };
            let rsvp_status = match get_rsvp(fs, "rsvpStatus") { Some(v) => v, None => { return None; } };
            let meal_preference = match get_req_str(fs, "mealPreference") { Some(v) => v, None => { return None; } };
            let plus_ones = match get_plus_ones(fs, "plusOnes") { Some(v) => v, None => { return None; } };
            let notes = match get_req_str(fs, "notes") { Some(v) => v, None => { return None; } };
            let r = Guest { id, name, email, phone, rsvp_status, meal_preference, plus_ones, notes };
            proof {
                assert(guest_of_json(j@) is Some);
                assert(guest_of_json(j@)->0 =~= r@);
            }
            Some(r)
        },
        _ => None,
    }
}

/// Reading back the wire form of a value of `Guest` gives the value itself.
#[verifier::rlimit(100)]
pub proof fn lemma_guest_rt(x: GuestV)
    ensures
        guest_of_json(guest_json(x)) == Some(x),
{
    reveal_strlit("id");
    reveal_strlit("name");
    reveal_strlit("email");
    reveal_strlit("phone");
    reveal_strlit("rsvpStatus");
    reveal_strlit("mealPreference");
    reveal_strlit("plusOnes");
    reveal_strlit("notes");
    let fs = seq![
        ("id"@, JsonV::Str(x.id)),
        ("name"@, JsonV::Str(x.name)),
        ("email"@, JsonV::Str(x.email)),
        ("phone"@, JsonV::Str(x.phone)),
        ("rsvpStatus"@, rsvp_json(x.rsvp_status)),
        ("mealPreference"@, JsonV::Str(x.meal_preference)),
        ("plusOnes"@, JsonV::Arr(plus_ones_json(x.plus_ones))),
        ("notes"@, JsonV::Str(x.notes))
    ];
    assert(guest_json(x) == JsonV::Obj(fs));
    reveal_with_fuel(lookup_from, 20);
    assert("name"@ != "id"@) by { assert("name"@.len() == 4); assert("id"@.len() == 2); }
    assert("email"@ != "id"@) by { assert("email"@.len() == 5); assert("id"@.len() == 2); }
    assert("email"@ != "name"@) by { assert("email"@.len() == 5); assert("name"@.len() == 4); }
    assert("phone"@ != "id"@) by { assert("phone"@.len() == 5); assert("id"@.len() == 2); }
    assert("phone"@ != "name"@) by { assert("phone"@.len() == 5); assert("name"@.len() == 4); }
    assert("phone"@ != "email"@) by { assert("phone"@[0] == 'p'); assert("email"@[0] == 'e'); }
    assert("rsvpStatus"@ != "id"@) by { assert("rsvpStatus"@.len() == 10); assert("id"@.len() == 2); }
    assert("rsvpStatus"@ != "name"@) by { assert("rsvpStatus"@.len() == 10); assert("name"@.len() == 4); }
    assert("rsvpStatus"@ != "email"@) by { assert("rsvpStatus"@.len() == 10); assert("email"@.len() == 5); }
    assert("rsvpStatus"@ != "phone"@) by { assert("rsvpStatus"@.len() == 10); assert("phone"@.len() == 5); }
    assert("mealPreference"@ != "id"@) by { assert("mealPreference"@.len() == 14); assert("id"@.len() == 2); }
    assert("mealPreference"@ != "name"@) by { assert("mealPreference"@.len() == 14); assert("name"@.len() == 4); }
    assert("mealPreference"@ != "email"@) by { assert("mealPreference"@.len() == 14); assert("email"@.len() == 5); }
    assert("mealPreference"@ != "phone"@) by { assert("mealPreference"@.len() == 14); assert("phone"@.len() == 5); }
    assert("mealPreference"@ != "rsvpStatus"@) by { assert("mealPreference"@.len() == 14); assert("rsvpStatus"@.len() == 10); }
    assert("plusOnes"@ != "id"@) by { assert("plusOnes"@.len() == 8); assert("id"@.len() == 2); }
    assert("plusOnes"@ != "name"@) by { assert("plusOnes"@.len() == 8); assert("name"@.len() == 4); }
    assert("plusOnes"@ != "email"@) by { assert("plusOnes"@.len() == 8); assert("email"@.len() == 5); }
    assert("plusOnes"@ != "phone"@) by { assert("plusOnes"@.len() == 8); assert("phone"@.len() == 5); }
    assert("plusOnes"@ != "rsvpStatus"@) by { assert("plusOnes"@.len() == 8); assert("rsvpStatus"@.len() == 10); }
    assert("plusOnes"@ != "mealPreference"@) by { assert("plusOnes"@.len() == 8); assert("mealPreference"@.len() == 14); }
    assert("notes"@ != "id"@) by { assert("notes"@.len() == 5); assert("id"@.len() == 2); }
    assert("notes"@ != "name"@) by { assert("notes"@.len() == 5); assert("name"@.len() == 4); }
    assert("notes"@ != "email"@) by { assert("notes"@[0] == 'n'); assert("email"@[0] == 'e'); }
    assert("notes"@ != "phone"@) by { assert("notes"@[0] == 'n'); assert("phone"@[0] == 'p'); }
    assert("notes"@ != "rsvpStatus"@) by { assert("notes"@.len() == 5); assert("rsvpStatus"@.len() == 10); }
    assert("notes"@ != "mealPreference"@) by { assert("notes"@.len() == 5); assert("mealPreference"@.len() == 14); }
    assert("notes"@ != "plusOnes"@) by { assert("notes"@.len() == 5); assert("plusOnes"@.len() == 8); }
    assert(lookup(fs, "id"@) == Some(JsonV::Str(x.id)));
    assert(lookup(fs, "name"@) == Some(JsonV::Str(x.name)));
    assert(lookup(fs, "email"@) == Some(JsonV::Str(x.email)));
    assert(lookup(fs, "phone"@) == Some(JsonV::Str(x.phone)));
    assert(lookup(fs, "rsvpStatus"@) == Some(rsvp_json(x.rsvp_status)));
    assert(lookup(fs, "mealPreference"@) == Some(JsonV::Str(x.meal_preference)));
    assert(lookup(fs, "plusOnes"@) == Some(JsonV::Arr(plus_ones_json(x.plus_ones))));
    assert(lookup(fs, "notes"@) == Some(JsonV::Str(x.notes)));
    lemma_rsvp_rt(fs, "rsvpStatus"@, x.rsvp_status);
    lemma_plus_ones_rt(x.plus_ones);
    assert(guest_of_json(guest_json(x)) is Some);
    assert(guest_of_json(guest_json(x))->0 =~= x);
}

proof fn lemma_guest_json_wf(x: GuestV)
    ensures
        json_wf(guest_json(x)),
{
    let fs = seq![
        ("id"@, JsonV::Str(x.id)),
        ("name"@, JsonV::Str(x.name)),
        ("email"@, JsonV::Str(x.email)),
        ("phone"@, JsonV::Str(x.phone)),
        ("rsvpStatus"@, rsvp_json(x.rsvp_status)),
        ("mealPreference"@, JsonV::Str(x.meal_preference)),
        ("plusOnes"@, JsonV::Arr(plus_ones_json(x.plus_ones))),
        ("notes"@, JsonV::Str(x.notes))
    ];
    assert(json_wf(rsvp_json(x.rsvp_status)));
    lemma_plus_ones_json_wf(x.plus_ones);
    lemma_json_wf_obj_intro(fs);
    assert(guest_json(x) == JsonV::Obj(fs));
}

/// The wire form of a list: one JSON value per element.
pub open spec fn guests_json(s: Seq<GuestV>) -> Seq<JsonV> {
    Seq::new(s.len(), |i: int| guest_json(s[i]))
}

/// Reading the elements back, from index `k` on.
pub open spec fn guests_of_json(es: Seq<JsonV>, k: int) -> Option<Seq<GuestV>>
    decreases es.len() - k,
{
    if k < 0 {
        None
    } else if k >= es.len() {
        Some(Seq::empty())
    } else {
        match (guest_of_json(es[k]), guests_of_json(es, k + 1)) {
            (Some(x), Some(rest)) => Some(seq![x] + rest),
            _ => None,
        }
    }
}

/// The list stored under a name: empty when absent.
pub open spec fn guests_field(fs: Seq<(Seq<char>, JsonV)>, name: Seq<char>) -> Option<Seq<GuestV>> {
    match def_arr(fs, name) {
        Some(es) => guests_of_json(es, 0),
        None => None,
    }
}

fn guests_to_json(v: &Vec<Guest>) -> (r: Vec<Json>)
    ensures
        elems_view(r@) == guests_json(guests_view(v@)),
{
    let mut out: Vec<Json> = Vec::new();
    let n = v.len();
    let mut k: usize = 0;
    while k < n
        invariant
            n == v@.len(),
            k <= n,
            out@.len() == k,
            forall|i: int| 0 <= i < k ==> (#[trigger] out@[i])@ == guests_json(guests_view(v@))[i],
        decreases n - k,
    {
        out.push(guest_to_json(&v[k]));
        k = k + 1;
    }
    proof {
        lemma_elems_view_from(out@, 0);
        assert forall|i: int| 0 <= i < out@.len() implies elems_view(out@)[i] == guests_json(
            guests_view(v@),
        )[i] by {
            assert(elems_view_from(out@, 0)[i - 0] == out@[i]@);
        }
        assert(elems_view(out@) =~= guests_json(guests_view(v@)));
    }
    out
}

fn guests_from_arr(es: &Vec<Json>) -> (r: Option<Vec<Guest>>)
    ensures
        match r {
            Some(v) => guests_of_json(elems_view(es@), 0) == Some(guests_view(v@)),
            None => guests_of_json(elems_view(es@), 0) is None,
        },
{
    proof {
        lemma_elems_view_from(es@, 0);
    }
    let ghost esv = elems_view(es@);
    let n = es.len();
    let mut out: Vec<Guest> = Vec::new();
    let mut k: usize = 0;
    while k < n
        invariant
            n == es@.len(),
            k <= n,
            esv == elems_view(es@),
            esv.len() == n,
            forall|i: int| 0 <= i < n ==> esv[i] == #[trigger] es@[i]@,
            guests_of_json(esv, 0) == (match guests_of_json(esv, k as int) {
                Some(rest) => Some::<Seq<GuestV>>(guests_view(out@) + rest),
                None => None::<Seq<GuestV>>,
            }),
        decreases n - k,
    {
        match guest_from_json(&es[k]) {
            None => {
                proof {
                    assert(guest_of_json(esv[k as int]) is None);
                    assert(guests_of_json(esv, k as int) is None);
                }
                return None;
            },
            Some(x) => {
                let ghost gx = x@;
                let ghost oldout = out@;
                out.push(x);
                proof {
                    assert(guest_of_json(esv[k as int]) == Some(gx));
                    assert(guests_view(out@) =~= guests_view(oldout).push(gx));
                    let step = guests_of_json(esv, k + 1);
                    if step is Some {
                        let rest = step->0;
                        assert(guests_view(oldout).push(gx) + rest =~= guests_view(oldout) + (seq![gx]
                            + rest));
                    }
                }
            },
        }
        k = k + 1;
    }
    proof {
        assert(guests_of_json(esv, n as int) == Some(Seq::<GuestV>::empty()));
        assert(guests_view(out@) + Seq::<GuestV>::empty() =~= guests_view(out@));
    }
    Some(out)
}

proof fn lemma_guests_rt_from(s: Seq<GuestV>, k: int)
    requires
        0 <= k <= s.len(),
    ensures
        guests_of_json(guests_json(s), k) == Some(s.subrange(k, s.len() as int)),
    decreases s.len() - k,
{
    let es = guests_json(s);
    if k == s.len() {
        assert(s.subrange(k, s.len() as int) =~= Seq::<GuestV>::empty());
    } else {
        assert(es[k] == guest_json(s[k]));
        lemma_guest_rt(s[k]);
        lemma_guests_rt_from(s, k + 1);
        assert(seq![s[k]] + s.subrange(k + 1, s.len() as int) =~= s.subrange(k, s.len() as int));
    }
}

/// A list read back from its wire form is the list itself.
pub proof fn lemma_guests_rt(s: Seq<GuestV>)
    ensures
        guests_of_json(guests_json(s), 0) == Some(s),
{
    lemma_guests_rt_from(s, 0);
    assert(s.subrange(0, s.len() as int) =~= s);
}

proof fn lemma_guests_json_wf(s: Seq<GuestV>)

    ensures
        json_wf(JsonV::Arr(guests_json(s))),
{
    assert forall|i: int| 0 <= i < guests_json(s).len() implies json_wf(#[trigger] guests_json(s)[i]) by {
        assert(guests_json(s)[i] == guest_json(s[i]));
        lemma_guest_json_wf(s[i]);
    }
    lemma_json_wf_arr_intro(guests_json(s));
}

fn get_guests(fs: &Vec<(String, Json)>, name: &str) -> (r: Option<Vec<Guest>>)
    ensures
        match r {
            Some(v) => guests_field(fields_view(fs@), name@) == Some(guests_view(v@)),
            None => guests_field(fields_view(fs@), name@) is None,
        },
{
    match lookup_field(fs, name) {
        None => {
            let v: Vec<Guest> = Vec::new();
            proof {
                assert(guests_view(v@) =~= Seq::<GuestV>::empty());
                assert(guests_of_json(Seq::<JsonV>::empty(), 0) == Some(Seq::<GuestV>::empty()));
            }
            Some(v)
        },
        Some(Json::Arr(es)) => guests_from_arr(es),
        Some(_) => None,
    }
}

/// The wire form of a value of `SeatAssignment`.
pub open spec fn seat_json(x: SeatAssignmentV) -> JsonV {
    JsonV::Obj(
        seq![
        ("tableId"@, JsonV::Str(x.table_id)),
        ("seatNumber"@, JsonV::Num(i64_num(x.seat_number))),
        ("guestId"@, JsonV::Str(x.guest_id)),
        ("guestName"@, JsonV::Str(x.guest_name))
    ],
    )
}

/// Reading a value of `SeatAssignment` back from a JSON value.
pub open spec fn seat_of_json(j: JsonV) -> Option<SeatAssignmentV> {
    match j {
        JsonV::Obj(fs) => match req_str(fs, "tableId"@) {
            Some(table_id) => match req_i64(fs, "seatNumber"@) {
                Some(seat_number) => match req_str(fs, "guestId"@) {
                    Some(guest_id) => match req_str(fs, "guestName"@) {
                        Some(guest_name) => Some(SeatAssignmentV {
                            table_id,
                            seat_number,
                            guest_id,
                            guest_name
                        }),
                        None => None,
                    },
                    None => None,
                },
                None => None,
            },
            None => None,
        },
        _ => None,
    }
}

fn seat_to_json(x: &SeatAssignment) -> (r: Json)
    ensures
        r@ == seat_json(x@),
{
    let mut fs: Vec<(String, Json)> = Vec::new();
    push_field(&mut fs, "tableId", Json::Str(x.table_id.clone()));
    push_field(&mut fs, "seatNumber", Json::Num(Number::from_i64(x.seat_number)));
    push_field(&mut fs, "guestId", Json::Str(x.guest_id.clone()));
    push_field(&mut fs, "guestName", Json::Str(x.guest_name.clone()));
    let r = Json::Obj(fs);
    proof {
        assert(fields_view(Seq::<(String, Json)>::empty()) =~= Seq::<(Seq<char>, JsonV)>::empty());
        assert(fields_view(fs@) =~= seq![
        ("tableId"@, JsonV::Str(x@.table_id)),
        ("seatNumber"@, JsonV::Num(i64_num(x@.seat_number))),
        ("guestId"@, JsonV::Str(x@.guest_id)),
        ("guestName"@, JsonV::Str(x@.guest_name))
    ]);
        assert(r@ == seat_json(x@));
    }
    r
}

fn seat_from_json(j: &Json) -> (r: Option<SeatAssignment>)
    ensures
        match r {
            Some(x) => seat_of_json(j@) == Some(x@),
            None => seat_of_json(j@) is None,
        },
{
    match j {
        Json::Obj(fs) => {
            let table_id = match get_req_str(fs, "tableId") { Some(v) => v, None => { return None; } };
            let seat_number = match get_req_i64(fs, "seatNumber") { Some(v) => v, None => { return None; } };
            let guest_id = match get_req_str(fs, "guestId") { Some(v) => v, None => { return None; } };
            let guest_name = match get_req_str(fs, "guestName") { Some(v) => v, None => { return None; } };
            let r = SeatAssignment { table_id, seat_number, guest_id, guest_name };
            proof {
                assert(seat_of_json(j@) is Some);
                assert(seat_of_json(j@)->0 =~= r@);
            }
            Some(r)
        },
        _ => None,
    }
}

/// Reading back the wire form of a value of `SeatAssignment` gives the value itself.
#[verifier::rlimit(100)]
pub proof fn lemma_seat_rt(x: SeatAssignmentV)
    ensures
        seat_of_json(seat_json(x)) == Some(x),
{
    reveal_strlit("tableId");
    reveal_strlit("seatNumber");
    reveal_strlit("guestId");
    reveal_strlit("guestName");
    let fs = seq![
        ("tableId"@, JsonV::Str(x.table_id)),
        ("seatNumber"@, JsonV::Num(i64_num(x.seat_number))),
        ("guestId"@, JsonV::Str(x.guest_id)),
        ("guestName"@, JsonV::Str(x.guest_name))
    ];
    assert(seat_json(x) == JsonV::Obj(fs));
    reveal_with_fuel(lookup_from, 20);
    assert("seatNumber"@ != "tableId"@) by { assert("seatNumber"@.len() == 10); assert("tableId"@.len() == 7); }
    assert("guestId"@ != "tableId"@) by { assert("guestId"@[0] == 'g'); assert("tableId"@[0] == 't'); }
    assert("guestId"@ != "seatNumber"@) by { assert("guestId"@.len() == 7); assert("seatNumber"@.len() == 10); }
    assert("guestName"@ != "tableId"@) by { assert("guestName"@.len() == 9); assert("tableId"@.len() == 7); }
    assert("guestName"@ != "seatNumber"@) by { assert("guestName"@.len() == 9); assert("seatNumber"@.len() == 10); }
    assert("guestName"@ != "guestId"@) by { assert("guestName"@.len() == 9); assert("guestId"@.len() == 7); }
    assert(lookup(fs, "tableId"@) == Some(JsonV::Str(x.table_id)));
    assert(lookup(fs, "seatNumber"@) == Some(JsonV::Num(i64_num(x.seat_number))));
    assert(lookup(fs, "guestId"@) == Some(JsonV::Str(x.guest_id)));
    assert(lookup(fs, "guestName"@) == Some(JsonV::Str(x.guest_name)));
    assert(num_as_i64(i64_num(x.seat_number)) == Some(x.seat_number));
    assert(seat_of_json(seat_json(x)) is Some);
    assert(seat_of_json(seat_json(x))->0 =~= x);
}

proof fn lemma_seat_json_wf(x: SeatAssignmentV)
    ensures
        json_wf(seat_json(x)),
{
    let fs = seq![
        ("tableId"@, JsonV::Str(x.table_id)),
        ("seatNumber"@, JsonV::Num(i64_num(x.seat_number))),
        ("guestId"@, JsonV::Str(x.guest_id)),
        ("guestName"@, JsonV::Str(x.guest_name))
    ];

    lemma_json_wf_obj_intro(fs);
    assert(seat_json(x) == JsonV::Obj(fs));
}

/// The wire form of a list: one JSON value per element.
pub open spec fn seats_json(s: Seq<SeatAssignmentV>) -> Seq<JsonV> {
    Seq::new(s.len(), |i: int| seat_json(s[i]))
}

/// Reading the elements back, from index `k` on.
pub open spec fn seats_of_json(es: Seq<JsonV>, k: int) -> Option<Seq<SeatAssignmentV>>
    decreases es.len() - k,
{
    if k < 0 {
        None
    } else if k >= es.len() {
        Some(Seq::empty())
    } else {
        match (seat_of_json(es[k]), seats_of_json(es, k + 1)) {
            (Some(x), Some(rest)) => Some(seq![x] + rest),
            _ => None,
        }
    }
}

/// The list stored under a name: empty when absent.
pub open spec fn seats_field(fs: Seq<(Seq<char>, JsonV)>, name: Seq<char>) -> Option<Seq<SeatAssignmentV>> {
    match def_arr(fs, name) {
        Some(es) => seats_of_json(es, 0),
        None => None,
    }
}

fn seats_to_json(v: &Vec<SeatAssignment>) -> (r: Vec<Json>)
    ensures
        elems_view(r@) == seats_json(seats_view(v@)),
{
    let mut out: Vec<Json> = Vec::new();
    let n = v.len();
    let mut k: usize = 0;
    while k < n
        invariant
            n == v@.len(),
            k <= n,
            out@.len() == k,
            forall|i: int| 0 <= i < k ==> (#[trigger] out@[i])@ == seats_json(seats_view(v@))[i],
        decreases n - k,
    {
        out.push(seat_to_json(&v[k]));
        k = k + 1;
    }
    proof {
        lemma_elems_view_from(out@, 0);
        assert forall|i: int| 0 <= i < out@.len() implies elems_view(out@)[i] == seats_json(
            seats_view(v@),
        )[i] by {
            assert(elems_view_from(out@, 0)[i - 0] == out@[i]@);
        }
        assert(elems_view(out@) =~= seats_json(seats_view(v@)));
    }
    out
}

fn seats_from_arr(es: &Vec<Json>) -> (r: Option<Vec<SeatAssignment>>)
    ensures
        match r {
            Some(v) => seats_of_json(elems_view(es@), 0) == Some(seats_view(v@)),
            None => seats_of_json(elems_view(es@), 0) is None,
        },
{
    proof {
        lemma_elems_view_from(es@, 0);
    }
    let ghost esv = elems_view(es@);
    let n = es.len();
    let mut out: Vec<SeatAssignment> = Vec::new();
    let mut k: usize = 0;
    while k < n
        invariant
            n == es@.len(),
            k <= n,
            esv == elems_view(es@),
            esv.len() == n,
            forall|i: int| 0 <= i < n ==> esv[i] == #[trigger] es@[i]@,
            seats_of_json(esv, 0) == (match seats_of_json(esv, k as int) {
                Some(rest) => Some::<Seq<SeatAssignmentV>>(seats_view(out@) + rest),
                None => None::<Seq<SeatAssignmentV>>,
            }),
        decreases n - k,
    {
        match seat_from_json(&es[k]) {
            None => {
                proof {
                    assert(seat_of_json(esv[k as int]) is None);
                    assert(seats_of_json(esv, k as int) is None);
                }
                return None;
            },
            Some(x) => {
                let ghost gx = x@;
                let ghost oldout = out@;
                out.push(x);
                proof {
                    assert(seat_of_json(esv[k as int]) == Some(gx));
                    assert(seats_view(out@) =~= seats_view(oldout).push(gx));
                    let step = seats_of_json(esv, k + 1);
                    if step is Some {
                        let rest = step->0;
                        assert(seats_view(oldout).push(gx) + rest =~= seats_view(oldout) + (seq![gx]
                            + rest));
                    }
                }
            },
        }
        k = k + 1;
    }
    proof {
        assert(seats_of_json(esv, n as int) == Some(Seq::<SeatAssignmentV>::empty()));
        assert(seats_view(out@) + Seq::<SeatAssignmentV>::empty() =~= seats_view(out@));
    }
    Some(out)
}

proof fn lemma_seats_rt_from(s: Seq<SeatAssignmentV>, k: int)
    requires
        0 <= k <= s.len(),
    ensures
        seats_of_json(seats_json(s), k) == Some(s.subrange(k, s.len() as int)),
    decreases s.len() - k,
{
    let es = seats_json(s);
    if k == s.len() {
        assert(s.subrange(k, s.len() as int) =~= Seq::<SeatAssignmentV>::empty());
    } else {
        assert(es[k] == seat_json(s[k]));
        lemma_seat_rt(s[k]);
        lemma_seats_rt_from(s, k + 1);
        assert(seq![s[k]] + s.subrange(k + 1, s.len() as int) =~= s.subrange(k, s.len() as int));
    }
}

/// A list read back from its wire form is the list itself.
pub proof fn lemma_seats_rt(s: Seq<SeatAssignmentV>)
    ensures
        seats_of_json(seats_json(s), 0) == Some(s),
{
    lemma_seats_rt_from(s, 0);
    assert(s.subrange(0, s.len() as int) =~= s);
}

proof fn lemma_seats_json_wf(s: Seq<SeatAssignmentV>)

    ensures
        json_wf(JsonV::Arr(seats_json(s))),
{
    assert forall|i: int| 0 <= i < seats_json(s).len() implies json_wf(#[trigger] seats_json(s)[i]) by {
        assert(seats_json(s)[i] == seat_json(s[i]));
        lemma_seat_json_wf(s[i]);
    }
    lemma_json_wf_arr_intro(seats_json(s));
}

fn get_seats(fs: &Vec<(String, Json)>, name: &str) -> (r: Option<Vec<SeatAssignment>>)
    ensures
        match r {
            Some(v) => seats_field(fields_view(fs@), name@) == Some(seats_view(v@)),
            None => seats_field(fields_view(fs@), name@) is None,
        },
{
    match lookup_field(fs, name) {
        None => {
            let v: Vec<SeatAssignment> = Vec::new();
            proof {
                assert(seats_view(v@) =~= Seq::<SeatAssignmentV>::empty());
                assert(seats_of_json(Seq::<JsonV>::empty(), 0) == Some(Seq::<SeatAssignmentV>::empty()));
            }
            Some(v)
        },
        Some(Json::Arr(es)) => seats_from_arr(es),
        Some(_) => None,
    }
}

/// The wire form of a value of `Table`.
pub open spec fn table_json(x: TableV) -> JsonV {
    JsonV::Obj(
        seq![
        ("id"@, JsonV::Str(x.id)),
        ("name"@, JsonV::Str(x.name)),
        ("capacity"@, JsonV::Num(i64_num(x.capacity as i64))),
        ("assignedGuests"@, JsonV::Arr(strings_json(x.assigned_guests))),
        ("shape"@, shape_json(x.shape)),
        ("x"@, jnull_or_num(x.x)),
        ("y"@, jnull_or_num(x.y)),
        ("seatAssignments"@, JsonV::Arr(seats_json(x.seat_assignments)))
    ],
    )
}

/// Reading a value of `Table` back from a JSON value.
pub open spec fn table_of_json(j: JsonV) -> Option<TableV> {
    match j {
        JsonV::Obj(fs) => match req_str(fs, "id"@) {
            Some(id) => match req_str(fs, "name"@) {
                Some(name) => match req_i32(fs, "capacity"@) {
                    Some(capacity) => match strings_field(fs, "assignedGuests"@) {
                        Some(assigned_guests) => match shape_of_json(fs, "shape"@) {
                            Some(shape) => match opt_num(fs, "x"@) {
                                Some(x) => match opt_num(fs, "y"@) {
                                    Some(y) => match seats_field(fs, "seatAssignments"@) {
                                        Some(seat_assignments) => Some(TableV {
                                            id,
                                            name,
                                            capacity,
                                            assigned_guests,
                                            shape,
                                            x,
                                            y,
                                            seat_assignments
                                        }),
                                        None => None,
                                    },
                                    None => None,
                                },
                                None => None,
                            },
                            None => None,
                        },
                        None => None,
                    },
                    None => None,
                },
                None => None,
            },
            None => None,
        },
        _ => None,
    }
}

fn table_to_json(x: &Table) -> (r: Json)
    ensures
        r@ == table_json(x@),
{
    let mut fs: Vec<(String, Json)> = Vec::new();
    push_field(&mut fs, "id", Json::Str(x.id.clone()));
    push_field(&mut fs, "name", Json::Str(x.name.clone()));
    push_field(&mut fs, "capacity", Json::Num(Number::from_i32(x.capacity)));
    push_field(&mut fs, "assignedGuests", Json::Arr(strings_to_json(&x.assigned_guests)));
    push_field(&mut fs, "shape", shape_to_json(x.shape));
    push_field(&mut fs, "x", opt_num_to_json(&x.x));
    push_field(&mut fs, "y", opt_num_to_json(&x.y));
    push_field(&mut fs, "seatAssignments", Json::Arr(seats_to_json(&x.seat_assignments)));
    let r = Json::Obj(fs);
    proof {
        assert(fields_view(Seq::<(String, Json)>::empty()) =~= Seq::<(Seq<char>, JsonV)>::empty());
        assert(fields_view(fs@) =~= seq![
        ("id"@, JsonV::Str(x@.id)),
        ("name"@, JsonV::Str(x@.name)),
        ("capacity"@, JsonV::Num(i64_num(x@.capacity as i64))),
        ("assignedGuests"@, JsonV::Arr(strings_json(x@.assigned_guests))),
        ("shape"@, shape_json(x@.shape)),
        ("x"@, jnull_or_num(x@.x)),
        ("y"@, jnull_or_num(x@.y)),
        ("seatAssignments"@, JsonV::Arr(seats_json(x@.seat_assignments)))
    ]);
        assert(r@ == table_json(x@));
    }
    r
}

fn table_from_json(j: &Json) -> (r: Option<Table>)
    ensures
        match r {
            Some(x) => table_of_json(j@) == Some(x@),
            None => table_of_json(j@) is None,
        },
{
    match j {
        Json::Obj(fs) => {
            let id = match get_req_str(fs, "id") { Some(v) => v, None => { return None; } };
            let name = match get_req_str(fs, "name") { Some(v) => v, None => { return None; } };
            let capacity = match get_req_i32(fs, "capacity") { Some(v) => v, None => { return None; } };
            let assigned_guests = match get_strings(fs, "assignedGuests") { Some(v) => v, None => { return None; } };
            let shape = match get_shape(fs, "shape") { Some(v) => v, None => { return None; } };
            let x = match get_opt_num(fs, "x") { Some(v) => v, None => { return None; } };
            let y = match get_opt_num(fs, "y") { Some(v) => v, None => { return None; } };
            let seat_assignments = match get_seats(fs, "seatAssignments") { Some(v) => v, None => { return None; } };
            let r = Table { id, name, capacity, assigned_guests, shape, x, y, seat_assignments };
            proof {
                assert(table_of_json(j@) is Some);
                assert(table_of_json(j@)->0 =~= r@);
            }
            Some(r)
        },
        _ => None,
    }
}

/// Reading back the wire form of a value of `Table` gives the value itself.
#[verifier::rlimit(100)]
pub proof fn lemma_table_rt(x: TableV)
    ensures
        table_of_json(table_json(x)) == Some(x),
{
    reveal_strlit("id");
    reveal_strlit("name");
    reveal_strlit("capacity");
    reveal_strlit("assignedGuests");
    reveal_strlit("shape");
    reveal_strlit("x");
    reveal_strlit("y");
    reveal_strlit("seatAssignments");
    let fs = seq![
        ("id"@, JsonV::Str(x.id)),
        ("name"@, JsonV::Str(x.name)),
        ("capacity"@, JsonV::Num(i64_num(x.capacity as i64))),
        ("assignedGuests"@, JsonV::Arr(strings_json(x.assigned_guests))),
        ("shape"@, shape_json(x.shape)),
        ("x"@, jnull_or_num(x.x)),
        ("y"@, jnull_or_num(x.y)),
        ("seatAssignments"@, JsonV::Arr(seats_json(x.seat_assignments)))
    ];
    assert(table_json(x) == JsonV::Obj(fs));
    reveal_with_fuel(lookup_from, 20);
    assert("name"@ != "id"@) by { assert("name"@.len() == 4); assert("id"@.len() == 2); }
    assert("capacity"@ != "id"@) by { assert("capacity"@.len() == 8); assert("id"@.len() == 2); }
    assert("capacity"@ != "name"@) by { assert("capacity"@.len() == 8); assert("name"@.len() == 4); }
    assert("assignedGuests"@ != "id"@) by { assert("assignedGuests"@.len() == 14); assert("id"@.len() == 2); }
    assert("assignedGuests"@ != "name"@) by { assert("assignedGuests"@.len() == 14); assert("name"@.len() == 4); }
    assert("assignedGuests"@ != "capacity"@) by { assert("assignedGuests"@.len() == 14); assert("capacity"@.len() == 8); }
    assert("shape"@ != "id"@) by { assert("shape"@.len() == 5); assert("id"@.len() == 2); }
    assert("shape"@ != "name"@) by { assert("shape"@.len() == 5); assert("name"@.len() == 4); }
    assert("shape"@ != "capacity"@) by { assert("shape"@.len() == 5); assert("capacity"@.len() == 8); }
    assert("shape"@ != "assignedGuests"@) by { assert("shape"@.len() == 5); assert("assignedGuests"@.len() == 14); }
    assert("x"@ != "id"@) by { assert("x"@.len() == 1); assert("id"@.len() == 2); }
    assert("x"@ != "name"@) by { assert("x"@.len() == 1); assert("name"@.len() == 4); }
    assert("x"@ != "capacity"@) by { assert("x"@.len() == 1); assert("capacity"@.len() == 8); }
    assert("x"@ != "assignedGuests"@) by { assert("x"@.len() == 1); assert("assignedGuests"@.len() == 14); }
    assert("x"@ != "shape"@) by { assert("x"@.len() == 1); assert("shape"@.len() == 5); }
    assert("y"@ != "id"@) by { assert("y"@.len() == 1); assert("id"@.len() == 2); }
    assert("y"@ != "name"@) by { assert("y"@.len() == 1); assert("name"@.len() == 4); }
    assert("y"@ != "capacity"@) by { assert("y"@.len() == 1); assert("capacity"@.len() == 8); }
    assert("y"@ != "assignedGuests"@) by { assert("y"@.len() == 1); assert("assignedGuests"@.len() == 14); }
    assert("y"@ != "shape"@) by { assert("y"@.len() == 1); assert("shape"@.len() == 5); }
    assert("y"@ != "x"@) by { assert("y"@[0] == 'y'); assert("x"@[0] == 'x'); }
    assert("seatAssignments"@ != "id"@) by { assert("seatAssignments"@.len() == 15); assert("id"@.len() == 2); }
    assert("seatAssignments"@ != "name"@) by { assert("seatAssignments"@.len() == 15); assert("name"@.len() == 4); }
    assert("seatAssignments"@ != "capacity"@) by { assert("seatAssignments"@.len() == 15); assert("capacity"@.len() == 8); }
    assert("seatAssignments"@ != "assignedGuests"@) by { assert("seatAssignments"@.len() == 15); assert("assignedGuests"@.len() == 14); }
    assert("seatAssignments"@ != "shape"@) by { assert("seatAssignments"@.len() == 15); assert("shape"@.len() == 5); }
    assert("seatAssignments"@ != "x"@) by { assert("seatAssignments"@.len() == 15); assert("x"@.len() == 1); }
    assert("seatAssignments"@ != "y"@) by { assert("seatAssignments"@.len() == 15); assert("y"@.len() == 1); }
    assert(lookup(fs, "id"@) == Some(JsonV::Str(x.id)));
    assert(lookup(fs, "name"@) == Some(JsonV::Str(x.name)));
    assert(lookup(fs, "capacity"@) == Some(JsonV::Num(i64_num(x.capacity as i64))));
    assert(lookup(fs, "assignedGuests"@) == Some(JsonV::Arr(strings_json(x.assigned_guests))));
    assert(lookup(fs, "shape"@) == Some(shape_json(x.shape)));
    assert(lookup(fs, "x"@) == Some(jnull_or_num(x.x)));
    assert(lookup(fs, "y"@) == Some(jnull_or_num(x.y)));
    assert(lookup(fs, "seatAssignments"@) == Some(JsonV::Arr(seats_json(x.seat_assignments))));
    assert(num_as_i32(i64_num(x.capacity as i64)) == Some(x.capacity));
    lemma_strings_rt(x.assigned_guests);
    lemma_shape_rt(fs, "shape"@, x.shape);
    lemma_seats_rt(x.seat_assignments);
    assert(table_of_json(table_json(x)) is Some);
    assert(table_of_json(table_json(x))->0 =~= x);
}

proof fn lemma_table_json_wf(x: TableV)
    requires
        table_wf(x),
    ensures
        json_wf(table_json(x)),
{
    let fs = seq![
        ("id"@, JsonV::Str(x.id)),
        ("name"@, JsonV::Str(x.name)),
        ("capacity"@, JsonV::Num(i64_num(x.capacity as i64))),
        ("assignedGuests"@, JsonV::Arr(strings_json(x.assigned_guests))),
        ("shape"@, shape_json(x.shape)),
        ("x"@, jnull_or_num(x.x)),
        ("y"@, jnull_or_num(x.y)),
        ("seatAssignments"@, JsonV::Arr(seats_json(x.seat_assignments)))
    ];
    lemma_strings_json_wf(x.assigned_guests);
    assert(json_wf(shape_json(x.shape)));
    assert(json_wf(jnull_or_num(x.x)));
    assert(json_wf(jnull_or_num(x.y)));
    lemma_seats_json_wf(x.seat_assignments);
    lemma_json_wf_obj_intro(fs);
    assert(table_json(x) == JsonV::Obj(fs));
}

/// The wire form of a list: one JSON value per element.
pub open spec fn tables_json(s: Seq<TableV>) -> Seq<JsonV> {
    Seq::new(s.len(), |i: int| table_json(s[i]))
}

/// Reading the elements back, from index `k` on.
pub open spec fn tables_of_json(es: Seq<JsonV>, k: int) -> Option<Seq<TableV>>
    decreases es.len() - k,
{
    if k < 0 {
        None
    } else if k >= es.len() {
        Some(Seq::empty())
    } else {
        match (table_of_json(es[k]), tables_of_json(es, k + 1)) {
            (Some(x), Some(rest)) => Some(seq![x] + rest),
            _ => None,
        }
    }
}

/// The list stored under a name: empty when absent.
pub open spec fn tables_field(fs: Seq<(Seq<char>, JsonV)>, name: Seq<char>) -> Option<Seq<TableV>> {
    match def_arr(fs, name) {
        Some(es) => tables_of_json(es, 0),
        None => None,
    }
}

fn tables_to_json(v: &Vec<Table>) -> (r: Vec<Json>)
    ensures
        elems_view(r@) == tables_json(tables_view(v@)),
{
    let mut out: Vec<Json> = Vec::new();
    let n = v.len();
    let mut k: usize = 0;
    while k < n
        invariant
            n == v@.len(),
            k <= n,
            out@.len() == k,
            forall|i: int| 0 <= i < k ==> (#[trigger] out@[i])@ == tables_json(tables_view(v@))[i],
        decreases n - k,
    {
        out.push(table_to_json(&v[k]));
        k = k + 1;
    }
    proof {
        lemma_elems_view_from(out@, 0);
        assert forall|i: int| 0 <= i < out@.len() implies elems_view(out@)[i] == tables_json(
            tables_view(v@),
        )[i] by {
            assert(elems_view_from(out@, 0)[i - 0] == out@[i]@);
        }
        assert(elems_view(out@) =~= tables_json(tables_view(v@)));
    }
    out
}

fn tables_from_arr(es: &Vec<Json>) -> (r: Option<Vec<Table>>)
    ensures
        match r {
            Some(v) => tables_of_json(elems_view(es@), 0) == Some(tables_view(v@)),
            None => tables_of_json(elems_view(es@), 0) is None,
        },
{
    proof {
        lemma_elems_view_from(es@, 0);
    }
    let ghost esv = elems_view(es@);
    let n = es.len();
    let mut out: Vec<Table> = Vec::new();
    let mut k: usize = 0;
    while k < n
        invariant
            n == es@.len(),
            k <= n,
            esv == elems_view(es@),
            esv.len() == n,
            forall|i: int| 0 <= i < n ==> esv[i] == #[trigger] es@[i]@,
            tables_of_json(esv, 0) == (match tables_of_json(esv, k as int) {
                Some(rest) => Some::<Seq<TableV>>(tables_view(out@) + rest),
                None => None::<Seq<TableV>>,
            }),
        decreases n - k,
    {
        match table_from_json(&es[k]) {
            None => {
                proof {
                    assert(table_of_json(esv[k as int]) is None);
                    assert(tables_of_json(esv, k as int) is None);
                }
                return None;
            },
            Some(x) => {
                let ghost gx = x@;
                let ghost oldout = out@;
                out.push(x);
                proof {
                    assert(table_of_json(esv[k as int]) == Some(gx));
                    assert(tables_view(out@) =~= tables_view(oldout).push(gx));
                    let step = tables_of_json(esv, k + 1);
                    if step is Some {
                        let rest = step->0;
                        assert(tables_view(oldout).push(gx) + rest =~= tables_view(oldout) + (seq![gx]
                            + rest));
                    }
                }
            },
        }
        k = k + 1;
    }
    proof {
        assert(tables_of_json(esv, n as int) == Some(Seq::<TableV>::empty()));
        assert(tables_view(out@) + Seq::<TableV>::empty() =~= tables_view(out@));
    }
    Some(out)
}

proof fn lemma_tables_rt_from(s: Seq<TableV>, k: int)
    requires
        0 <= k <= s.len(),
    ensures
        tables_of_json(tables_json(s), k) == Some(s.subrange(k, s.len() as int)),
    decreases s.len() - k,
{
    let es = tables_json(s);
    if k == s.len() {
        assert(s.subrange(k, s.len() as int) =~= Seq::<TableV>::empty());
    } else {
        assert(es[k] == table_json(s[k]));
        lemma_table_rt(s[k]);
        lemma_tables_rt_from(s, k + 1);
        assert(seq![s[k]] + s.subrange(k + 1, s.len() as int) =~= s.subrange(k, s.len() as int));
    }
}

/// A list read back from its wire form is the list itself.
pub proof fn lemma_tables_rt(s: Seq<TableV>)
    ensures
        tables_of_json(tables_json(s), 0) == Some(s),
{
    lemma_tables_rt_from(s, 0);
    assert(s.subrange(0, s.len() as int) =~= s);
}

proof fn lemma_tables_json_wf(s: Seq<TableV>)
    requires
        forall|i: int| 0 <= i < s.len() ==> table_wf(#[trigger] s[i]),
    ensures
        json_wf(JsonV::Arr(tables_json(s))),
{
    assert forall|i: int| 0 <= i < tables_json(s).len() implies json_wf(#[trigger] tables_json(s)[i]) by {
        assert(tables_json(s)[i] == table_json(s[i]));
        lemma_table_json_wf(s[i]);
    }
    lemma_json_wf_arr_intro(tables_json(s));
}

fn get_tables(fs: &Vec<(String, Json)>, name: &str) -> (r: Option<Vec<Table>>)
    ensures
        match r {
            Some(v) => tables_field(fields_view(fs@), name@) == Some(tables_view(v@)),
            None => tables_field(fields_view(fs@), name@) is None,
        },
{
    match lookup_field(fs, name) {
        None => {
            let v: Vec<Table> = Vec::new();
            proof {
                assert(tables_view(v@) =~= Seq::<TableV>::empty());
                assert(tables_of_json(Seq::<JsonV>::empty(), 0) == Some(Seq::<TableV>::empty()));
            }
            Some(v)
        },
        Some(Json::Arr(es)) => tables_from_arr(es),
        Some(_) => None,
    }
}

/// The wire form of a value of `TodoItem`.
pub open spec fn todo_json(x: TodoItemV) -> JsonV {
    JsonV::Obj(
        seq![
        ("id"@, JsonV::Num(i64_num(x.id))),
        ("text"@, JsonV::Str(x.text)),
        ("completed"@, JsonV::Bool(x.completed)),
        ("cost"@, jnull_or_num(x.cost)),
        ("budget"@, jnull_or_num(x.budget)),
        ("paymentStatus"@, jnull_or_str(x.payment_status)),
        ("dueDate"@, jnull_or_str(x.due_date)),
        ("vendorName"@, jnull_or_str(x.vendor_name)),
        ("vendorContact"@, jnull_or_str(x.vendor_contact)),
        ("vendorEmail"@, jnull_or_str(x.vendor_email)),
        ("vendorPhone"@, jnull_or_str(x.vendor_phone)),
        ("notes"@, jnull_or_str(x.notes)),
        ("completionDate"@, jnull_or_str(x.completion_date))
    ],
    )
}

/// Reading a value of `TodoItem` back from a JSON value.
pub open spec fn todo_of_json(j: JsonV) -> Option<TodoItemV> {
    match j {
        JsonV::Obj(fs) => match req_i64(fs, "id"@) {
            Some(id) => match req_str(fs, "text"@) {
                Some(text) => match req_bool(fs, "completed"@) {
                    Some(completed) => match opt_num(fs, "cost"@) {
                        Some(cost) => match opt_num(fs, "budget"@) {
                            Some(budget) => match opt_str(fs, "paymentStatus"@) {
                                Some(payment_status) => match opt_str(fs, "dueDate"@) {
                                    Some(due_date) => match opt_str(fs, "vendorName"@) {
                                        Some(vendor_name) => match opt_str(fs, "vendorContact"@) {
                                            Some(vendor_contact) => match opt_str(fs, "vendorEmail"@) {
                                                Some(vendor_email) => match opt_str(fs, "vendorPhone"@) {
                                                    Some(vendor_phone) => match opt_str(fs, "notes"@) {
                                                        Some(notes) => match opt_str(fs, "completionDate"@) {
                                                            Some(completion_date) => Some(TodoItemV {
                                                                id,
                                                                text,
                                                                completed,
                                                                cost,
                                                                budget,
                                                                payment_status,
                                                                due_date,
                                                                vendor_name,
                                                                vendor_contact,
                                                                vendor_email,
                                                                vendor_phone,
                                                                notes,
                                                                completion_date
                                                            }),
                                                            None => None,
                                                        },
                                                        None => None,
                                                    },
                                                    None => None,
                                                },
                                                None => None,
                                            },
                                            None => None,
                                        },
                                        None => None,
                                    },
                                    None => None,
                                },
                                None => None,
                            },
                            None => None,
                        },
                        None => None,
                    },
                    None => None,
                },
                None => None,
            },
            None => None,
        },
        _ => None,
    }
}

#[verifier::rlimit(100)]

fn todo_to_json(x: &TodoItem) -> (r: Json)
    ensures
        r@ == todo_json(x@),
{
    let mut fs: Vec<(String, Json)> = Vec::new();
    push_field(&mut fs, "id", Json::Num(Number::from_i64(x.id)));
    push_field(&mut fs, "text", Json::Str(x.text.clone()));
    push_field(&mut fs, "completed", Json::Bool(x.completed));
    push_field(&mut fs, "cost", opt_num_to_json(&x.cost));
    push_field(&mut fs, "budget", opt_num_to_json(&x.budget));
    push_field(&mut fs, "paymentStatus", opt_str_to_json(&x.payment_status));
    push_field(&mut fs, "dueDate", opt_str_to_json(&x.due_date));
    push_field(&mut fs, "vendorName", opt_str_to_json(&x.vendor_name));
    push_field(&mut fs, "vendorContact", opt_str_to_json(&x.vendor_contact));
    push_field(&mut fs, "vendorEmail", opt_str_to_json(&x.vendor_email));
    push_field(&mut fs, "vendorPhone", opt_str_to_json(&x.vendor_phone));
    push_field(&mut fs, "notes", opt_str_to_json(&x.notes));
    push_field(&mut fs, "completionDate", opt_str_to_json(&x.completion_date));
    let r = Json::Obj(fs);
    proof {
        assert(fields_view(Seq::<(String, Json)>::empty()) =~= Seq::<(Seq<char>, JsonV)>::empty());
        assert(fields_view(fs@) =~= seq![
        ("id"@, JsonV::Num(i64_num(x@.id))),
        ("text"@, JsonV::Str(x@.text)),
        ("completed"@, JsonV::Bool(x@.completed)),
        ("cost"@, jnull_or_num(x@.cost)),
        ("budget"@, jnull_or_num(x@.budget)),
        ("paymentStatus"@, jnull_or_str(x@.payment_status)),
        ("dueDate"@, jnull_or_str(x@.due_date)),
        ("vendorName"@, jnull_or_str(x@.vendor_name)),
        ("vendorContact"@, jnull_or_str(x@.vendor_contact)),
        ("vendorEmail"@, jnull_or_str(x@.vendor_email)),
        ("vendorPhone"@, jnull_or_str(x@.vendor_phone)),
        ("notes"@, jnull_or_str(x@.notes)),
        ("completionDate"@, jnull_or_str(x@.completion_date))
    ]);
        assert(r@ == todo_json(x@));
    }
    r
}

fn todo_from_json(j: &Json) -> (r: Option<TodoItem>)
    ensures
        match r {
            Some(x) => todo_of_json(j@) == Some(x@),
            None => todo_of_json(j@) is None,
        },
{
    match j {
        Json::Obj(fs) => {
            let id = match get_req_i64(fs, "id") { Some(v) => v, None => { return None; } };
            let text = match get_req_str(fs, "text") { Some(v) => v, None => { return None; } };
            let completed = match get_req_bool(fs, "completed") { Some(v) => v, None => { return None; } };
            let cost = match get_opt_num(fs, "cost") { Some(v) => v, None => { return None; } };
            let budget = match get_opt_num(fs, "budget") { Some(v) => v, None => { return None; } };
            let payment_status = match get_opt_str(fs, "paymentStatus") { Some(v) => v, None => { return None; } };
            let due_date = match get_opt_str(fs, "dueDate") { Some(v) => v, None => { return None; } };
            let vendor_name = match get_opt_str(fs, "vendorName") { Some(v) => v, None => { return None; } };
            let vendor_contact = match get_opt_str(fs, "vendorContact") { Some(v) => v, None => { return None; } };
            let vendor_email = match get_opt_str(fs, "vendorEmail") { Some(v) => v, None => { return None; } };
            let vendor_phone = match get_opt_str(fs, "vendorPhone") { Some(v) => v, None => { return None; } };
            let notes = match get_opt_str(fs, "notes") { Some(v) => v, None => { return None; } };
            let completion_date = match get_opt_str(fs, "completionDate") { Some(v) => v, None => { return None; } };
            let r = TodoItem { id, text, completed, cost, budget, payment_status, due_date, vendor_name, vendor_contact, vendor_email, vendor_phone, notes, completion_date };
            proof {
                assert(todo_of_json(j@) is Some);
                assert(todo_of_json(j@)->0 =~= r@);
            }
            Some(r)
        },
        _ => None,
    }
}

/// Reading back the wire form of a value of `TodoItem` gives the value itself.
#[verifier::rlimit(100)]
pub proof fn lemma_todo_rt(x: TodoItemV)
    ensures
        todo_of_json(todo_json(x)) == Some(x),
{
    reveal_strlit("id");
    reveal_strlit("text");
    reveal_strlit("completed");
    reveal_strlit("cost");
    reveal_strlit("budget");
    reveal_strlit("paymentStatus");
    reveal_strlit("dueDate");
    reveal_strlit("vendorName");
    reveal_strlit("vendorContact");
    reveal_strlit("vendorEmail");
    reveal_strlit("vendorPhone");
    reveal_strlit("notes");
    reveal_strlit("completionDate");
    let fs = seq![
        ("id"@, JsonV::Num(i64_num(x.id))),
        ("text"@, JsonV::Str(x.text)),
        ("completed"@, JsonV::Bool(x.completed)),
        ("cost"@, jnull_or_num(x.cost)),
        ("budget"@, jnull_or_num(x.budget)),
        ("paymentStatus"@, jnull_or_str(x.payment_status)),
        ("dueDate"@, jnull_or_str(x.due_date)),
        ("vendorName"@, jnull_or_str(x.vendor_name)),
        ("vendorContact"@, jnull_or_str(x.vendor_contact)),
        ("vendorEmail"@, jnull_or_str(x.vendor_email)),
        ("vendorPhone"@, jnull_or_str(x.vendor_phone)),
        ("notes"@, jnull_or_str(x.notes)),
        ("completionDate"@, jnull_or_str(x.completion_date))
    ];
    assert(todo_json(x) == JsonV::Obj(fs));
    reveal_with_fuel(lookup_from, 20);
    assert("text"@ != "id"@) by { assert("text"@.len() == 4); assert("id"@.len() == 2); }
    assert("completed"@ != "id"@) by { assert("completed"@.len() == 9); assert("id"@.len() == 2); }
    assert("completed"@ != "text"@) by { assert("completed"@.len() == 9); assert("text"@.len() == 4); }
    assert("cost"@ != "id"@) by { assert("cost"@.len() == 4); assert("id"@.len() == 2); }
    assert("cost"@ != "text"@) by { assert("cost"@[0] == 'c'); assert("text"@[0] == 't'); }
    assert("cost"@ != "completed"@) by { assert("cost"@.len() == 4); assert("completed"@.len() == 9); }
    assert("budget"@ != "id"@) by { assert("budget"@.len() == 6); assert("id"@.len() == 2); }
    assert("budget"@ != "text"@) by { assert("budget"@.len() == 6); assert("text"@.len() == 4); }
    assert("budget"@ != "completed"@) by { assert("budget"@.len() == 6); assert("completed"@.len() == 9); }
    assert("budget"@ != "cost"@) by { assert("budget"@.len() == 6); assert("cost"@.len() == 4); }
    assert("paymentStatus"@ != "id"@) by { assert("paymentStatus"@.len() == 13); assert("id"@.len() == 2); }
    assert("paymentStatus"@ != "text"@) by { assert("paymentStatus"@.len() == 13); assert("text"@.len() == 4); }
    assert("paymentStatus"@ != "completed"@) by { assert("paymentStatus"@.len() == 13); assert("completed"@.len() == 9); }
    assert("paymentStatus"@ != "cost"@) by { assert("paymentStatus"@.len() == 13); assert("cost"@.len() == 4); }
    assert("paymentStatus"@ != "budget"@) by { assert("paymentStatus"@.len() == 13); assert("budget"@.len() == 6); }
    assert("dueDate"@ != "id"@) by { assert("dueDate"@.len() == 7); assert("id"@.len() == 2); }
    assert("dueDate"@ != "text"@) by { assert("dueDate"@.len() == 7); assert("text"@.len() == 4); }
    assert("dueDate"@ != "completed"@) by { assert("dueDate"@.len() == 7); assert("completed"@.len() == 9); }
    assert("dueDate"@ != "cost"@) by { assert("dueDate"@.len() == 7); assert("cost"@.len() == 4); }
    assert("dueDate"@ != "budget"@) by { assert("dueDate"@.len() == 7); assert("budget"@.len() == 6); }
    assert("dueDate"@ != "paymentStatus"@) by { assert("dueDate"@.len() == 7); assert("paymentStatus"@.len() == 13); }
    assert("vendorName"@ != "id"@) by { assert("vendorName"@.len() == 10); assert("id"@.len() == 2); }
    assert("vendorName"@ != "text"@) by { assert("vendorName"@.len() == 10); assert("text"@.len() == 4); }
    assert("vendorName"@ != "completed"@) by { assert("vendorName"@.len() == 10); assert("completed"@.len() == 9); }
    assert("vendorName"@ != "cost"@) by { assert("vendorName"@.len() == 10); assert("cost"@.len() == 4); }
    assert("vendorName"@ != "budget"@) by { assert("vendorName"@.len() == 10); assert("budget"@.len() == 6); }
    assert("vendorName"@ != "paymentStatus"@) by { assert("vendorName"@.len() == 10); assert("paymentStatus"@.len() == 13); }
    assert("vendorName"@ != "dueDate"@) by { assert("vendorName"@.len() == 10); assert("dueDate"@.len() == 7); }
    assert("vendorContact"@ != "id"@) by { assert("vendorContact"@.len() == 13); assert("id"@.len() == 2); }
    assert("vendorContact"@ != "text"@) by { assert("vendorContact"@.len() == 13); assert("text"@.len() == 4); }
    assert("vendorContact"@ != "completed"@) by { assert("vendorContact"@.len() == 13); assert("completed"@.len() == 9); }
    assert("vendorContact"@ != "cost"@) by { assert("vendorContact"@.len() == 13); assert("cost"@.len() == 4); }
    assert("vendorContact"@ != "budget"@) by { assert("vendorContact"@.len() == 13); assert("budget"@.len() == 6); }
    assert("vendorContact"@ != "paymentStatus"@) by { assert("vendorContact"@[0] == 'v'); assert("paymentStatus"@[0] == 'p'); }
    assert("vendorContact"@ != "dueDate"@) by { assert("vendorContact"@.len() == 13); assert("dueDate"@.len() == 7); }
    assert("vendorContact"@ != "vendorName"@) by { assert("vendorContact"@.len() == 13); assert("vendorName"@.len() == 10); }
    assert("vendorEmail"@ != "id"@) by { assert("vendorEmail"@.len() == 11); assert("id"@.len() == 2); }
    assert("vendorEmail"@ != "text"@) by { assert("vendorEmail"@.len() == 11); assert("text"@.len() == 4); }
    assert("vendorEmail"@ != "completed"@) by { assert("vendorEmail"@.len() == 11); assert("completed"@.len() == 9); }
    assert("vendorEmail"@ != "cost"@) by { assert("vendorEmail"@.len() == 11); assert("cost"@.len() == 4); }
    assert("vendorEmail"@ != "budget"@) by { assert("vendorEmail"@.len() == 11); assert("budget"@.len() == 6); }
    assert("vendorEmail"@ != "paymentStatus"@) by { assert("vendorEmail"@.len() == 11); assert("paymentStatus"@.len() == 13); }
    assert("vendorEmail"@ != "dueDate"@) by { assert("vendorEmail"@.len() == 11); assert("dueDate"@.len() == 7); }
    assert("vendorEmail"@ != "vendorName"@) by { assert("vendorEmail"@.len() == 11); assert("vendorName"@.len() == 10); }
    assert("vendorEmail"@ != "vendorContact"@) by { assert("vendorEmail"@.len() == 11); assert("vendorContact"@.len() == 13); }
    assert("vendorPhone"@ != "id"@) by { assert("vendorPhone"@.len() == 11); assert("id"@.len() == 2); }
    assert("vendorPhone"@ != "text"@) by { assert("vendorPhone"@.len() == 11); assert("text"@.len() == 4); }
    assert("vendorPhone"@ != "completed"@) by { assert("vendorPhone"@.len() == 11); assert("completed"@.len() == 9); }
    assert("vendorPhone"@ != "cost"@) by { assert("vendorPhone"@.len() == 11); assert("cost"@.len() == 4); }
    assert("vendorPhone"@ != "budget"@) by { assert("vendorPhone"@.len() == 11); assert("budget"@.len() == 6); }
    assert("vendorPhone"@ != "paymentStatus"@) by { assert("vendorPhone"@.len() == 11); assert("paymentStatus"@.len() == 13); }
    assert("vendorPhone"@ != "dueDate"@) by { assert("vendorPhone"@.len() == 11); assert("dueDate"@.len() == 7); }
    assert("vendorPhone"@ != "vendorName"@) by { assert("vendorPhone"@.len() == 11); assert("vendorName"@.len() == 10); }
    assert("vendorPhone"@ != "vendorContact"@) by { assert("vendorPhone"@.len() == 11); assert("vendorContact"@.len() == 13); }
    assert("vendorPhone"@ != "vendorEmail"@) by { assert("vendorPhone"@[6] == 'P'); assert("vendorEmail"@[6] == 'E'); }
    assert("notes"@ != "id"@) by { assert("notes"@.len() == 5); assert("id"@.len() == 2); }
    assert("notes"@ != "text"@) by { assert("notes"@.len() == 5); assert("text"@.len() == 4); }
    assert("notes"@ != "completed"@) by { assert("notes"@.len() == 5); assert("completed"@.len() == 9); }
    assert("notes"@ != "cost"@) by { assert("notes"@.len() == 5); assert("cost"@.len() == 4); }
    assert("notes"@ != "budget"@) by { assert("notes"@.len() == 5); assert("budget"@.len() == 6); }
    assert("notes"@ != "paymentStatus"@) by { assert("notes"@.len() == 5); assert("paymentStatus"@.len() == 13); }
    assert("notes"@ != "dueDate"@) by { assert("notes"@.len() == 5); assert("dueDate"@.len() == 7); }
    assert("notes"@ != "vendorName"@) by { assert("notes"@.len() == 5); assert("vendorName"@.len() == 10); }
    assert("notes"@ != "vendorContact"@) by { assert("notes"@.len() == 5); assert("vendorContact"@.len() == 13); }
    assert("notes"@ != "vendorEmail"@) by { assert("notes"@.len() == 5); assert("vendorEmail"@.len() == 11); }
    assert("notes"@ != "vendorPhone"@) by { assert("notes"@.len() == 5); assert("vendorPhone"@.len() == 11); }
    assert("completionDate"@ != "id"@) by { assert("completionDate"@.len() == 14); assert("id"@.len() == 2); }
    assert("completionDate"@ != "text"@) by { assert("completionDate"@.len() == 14); assert("text"@.len() == 4); }
    assert("completionDate"@ != "completed"@) by { assert("completionDate"@.len() == 14); assert("completed"@.len() == 9); }
    assert("completionDate"@ != "cost"@) by { assert("completionDate"@.len() == 14); assert("cost"@.len() == 4); }
    assert("completionDate"@ != "budget"@) by { assert("completionDate"@.len() == 14); assert("budget"@.len() == 6); }
    assert("completionDate"@ != "paymentStatus"@) by { assert("completionDate"@.len() == 14); assert("paymentStatus"@.len() == 13); }
    assert("completionDate"@ != "dueDate"@) by { assert("completionDate"@.len() == 14); assert("dueDate"@.len() == 7); }
    assert("completionDate"@ != "vendorName"@) by { assert("completionDate"@.len() == 14); assert("vendorName"@.len() == 10); }
    assert("completionDate"@ != "vendorContact"@) by { assert("completionDate"@.len() == 14); assert("vendorContact"@.len() == 13); }
    assert("completionDate"@ != "vendorEmail"@) by { assert("completionDate"@.len() == 14); assert("vendorEmail"@.len() == 11); }
    assert("completionDate"@ != "vendorPhone"@) by { assert("completionDate"@.len() == 14); assert("vendorPhone"@.len() == 11); }
    assert("completionDate"@ != "notes"@) by { assert("completionDate"@.len() == 14); assert("notes"@.len() == 5); }
    assert(lookup(fs, "id"@) == Some(JsonV::Num(i64_num(x.id))));
    assert(lookup(fs, "text"@) == Some(JsonV::Str(x.text)));
    assert(lookup(fs, "completed"@) == Some(JsonV::Bool(x.completed)));
    assert(lookup(fs, "cost"@) == Some(jnull_or_num(x.cost)));
    assert(lookup(fs, "budget"@) == Some(jnull_or_num(x.budget)));
    assert(lookup(fs, "paymentStatus"@) == Some(jnull_or_str(x.payment_status)));
    assert(lookup(fs, "dueDate"@) == Some(jnull_or_str(x.due_date)));
    assert(lookup(fs, "vendorName"@) == Some(jnull_or_str(x.vendor_name)));
    assert(lookup(fs, "vendorContact"@) == Some(jnull_or_str(x.vendor_contact)));
    assert(lookup(fs, "vendorEmail"@) == Some(jnull_or_str(x.vendor_email)));
    assert(lookup(fs, "vendorPhone"@) == Some(jnull_or_str(x.vendor_phone)));
    assert(lookup(fs, "notes"@) == Some(jnull_or_str(x.notes)));
    assert(lookup(fs, "completionDate"@) == Some(jnull_or_str(x.completion_date)));
    assert(num_as_i64(i64_num(x.id)) == Some(x.id));
    assert(todo_of_json(todo_json(x)) is Some);
    assert(todo_of_json(todo_json(x))->0 =~= x);
}

proof fn lemma_todo_json_wf(x: TodoItemV)
    requires
        todo_wf(x),
    ensures
        json_wf(todo_json(x)),
{
    let fs = seq![
        ("id"@, JsonV::Num(i64_num(x.id))),
        ("text"@, JsonV::Str(x.text)),
        ("completed"@, JsonV::Bool(x.completed)),
        ("cost"@, jnull_or_num(x.cost)),
        ("budget"@, jnull_or_num(x.budget)),
        ("paymentStatus"@, jnull_or_str(x.payment_status)),
        ("dueDate"@, jnull_or_str(x.due_date)),
        ("vendorName"@, jnull_or_str(x.vendor_name)),
        ("vendorContact"@, jnull_or_str(x.vendor_contact)),
        ("vendorEmail"@, jnull_or_str(x.vendor_email)),
        ("vendorPhone"@, jnull_or_str(x.vendor_phone)),
        ("notes"@, jnull_or_str(x.notes)),
        ("completionDate"@, jnull_or_str(x.completion_date))
    ];
    assert(json_wf(jnull_or_num(x.cost)));
    assert(json_wf(jnull_or_num(x.budget)));
    lemma_json_wf_obj_intro(fs);
    assert(todo_json(x) == JsonV::Obj(fs));
}

/// The wire form of a list: one JSON value per element.
pub open spec fn todos_json(s: Seq<TodoItemV>) -> Seq<JsonV> {
    Seq::new(s.len(), |i: int| todo_json(s[i]))
}

/// Reading the elements back, from index `k` on.
pub open spec fn todos_of_json(es: Seq<JsonV>, k: int) -> Option<Seq<TodoItemV>>
    decreases es.len() - k,
{
    if k < 0 {
        None
    } else if k >= es.len() {
        Some(Seq::empty())
    } else {
        match (todo_of_json(es[k]), todos_of_json(es, k + 1)) {
            (Some(x), Some(rest)) => Some(seq![x] + rest),
            _ => None,
        }
    }
}

/// The list stored under a name: required.
pub open spec fn todos_field(fs: Seq<(Seq<char>, JsonV)>, name: Seq<char>) -> Option<Seq<TodoItemV>> {
    match req_arr(fs, name) {
        Some(es) => todos_of_json(es, 0),
        None => None,
    }
}

fn todos_to_json(v: &Vec<TodoItem>) -> (r: Vec<Json>)
    ensures
        elems_view(r@) == todos_json(todos_view(v@)),
{
    let mut out: Vec<Json> = Vec::new();
    let n = v.len();
    let mut k: usize = 0;
    while k < n
        invariant
            n == v@.len(),
            k <= n,
            out@.len() == k,
            forall|i: int| 0 <= i < k ==> (#[trigger] out@[i])@ == todos_json(todos_view(v@))[i],
        decreases n - k,
    {
        out.push(todo_to_json(&v[k]));
        k = k + 1;
    }
    proof {
        lemma_elems_view_from(out@, 0);
        assert forall|i: int| 0 <= i < out@.len() implies elems_view(out@)[i] == todos_json(
            todos_view(v@),
        )[i] by {
            assert(elems_view_from(out@, 0)[i - 0] == out@[i]@);
        }
        assert(elems_view(out@) =~= todos_json(todos_view(v@)));
    }
    out
}

fn todos_from_arr(es: &Vec<Json>) -> (r: Option<Vec<TodoItem>>)
    ensures
        match r {
            Some(v) => todos_of_json(elems_view(es@), 0) == Some(todos_view(v@)),
            None => todos_of_json(elems_view(es@), 0) is None,
        },
{
    proof {
        lemma_elems_view_from(es@, 0);
    }
    let ghost esv = elems_view(es@);
    let n = es.len();
    let mut out: Vec<TodoItem> = Vec::new();
    let mut k: usize = 0;
    while k < n
        invariant
            n == es@.len(),
            k <= n,
            esv == elems_view(es@),
            esv.len() == n,
            forall|i: int| 0 <= i < n ==> esv[i] == #[trigger] es@[i]@,
            todos_of_json(esv, 0) == (match todos_of_json(esv, k as int) {
                Some(rest) => Some::<Seq<TodoItemV>>(todos_view(out@) + rest),
                None => None::<Seq<TodoItemV>>,
            }),
        decreases n - k,
    {
        match todo_from_json(&es[k]) {
            None => {
                proof {
                    assert(todo_of_json(esv[k as int]) is None);
                    assert(todos_of_json(esv, k as int) is None);
                }
                return None;
            },
            Some(x) => {
                let ghost gx = x@;
                let ghost oldout = out@;
                out.push(x);
                proof {
                    assert(todo_of_json(esv[k as int]) == Some(gx));
                    assert(todos_view(out@) =~= todos_view(oldout).push(gx));
                    let step = todos_of_json(esv, k + 1);
                    if step is Some {
                        let rest = step->0;
                        assert(todos_view(oldout).push(gx) + rest =~= todos_view(oldout) + (seq![gx]
                            + rest));
                    }
                }
            },
        }
        k = k + 1;
    }
    proof {
        assert(todos_of_json(esv, n as int) == Some(Seq::<TodoItemV>::empty()));
        assert(todos_view(out@) + Seq::<TodoItemV>::empty() =~= todos_view(out@));
    }
    Some(out)
}

proof fn lemma_todos_rt_from(s: Seq<TodoItemV>, k: int)
    requires
        0 <= k <= s.len(),
    ensures
        todos_of_json(todos_json(s), k) == Some(s.subrange(k, s.len() as int)),
    decreases s.len() - k,
{
    let es = todos_json(s);
    if k == s.len() {
        assert(s.subrange(k, s.len() as int) =~= Seq::<TodoItemV>::empty());
    } else {
        assert(es[k] == todo_json(s[k]));
        lemma_todo_rt(s[k]);
        lemma_todos_rt_from(s, k + 1);
        assert(seq![s[k]] + s.subrange(k + 1, s.len() as int) =~= s.subrange(k, s.len() as int));
    }
}

/// A list read back from its wire form is the list itself.
pub proof fn lemma_todos_rt(s: Seq<TodoItemV>)
    ensures
        todos_of_json(todos_json(s), 0) == Some(s),
{
    lemma_todos_rt_from(s, 0);
    assert(s.subrange(0, s.len() as int) =~= s);
}

proof fn lemma_todos_json_wf(s: Seq<TodoItemV>)
    requires
        forall|i: int| 0 <= i < s.len() ==> todo_wf(#[trigger] s[i]),
    ensures
        json_wf(JsonV::Arr(todos_json(s))),
{
    assert forall|i: int| 0 <= i < todos_json(s).len() implies json_wf(#[trigger] todos_json(s)[i]) by {
        assert(todos_json(s)[i] == todo_json(s[i]));
        lemma_todo_json_wf(s[i]);
    }
    lemma_json_wf_arr_intro(todos_json(s));
}

fn get_todos(fs: &Vec<(String, Json)>, name: &str) -> (r: Option<Vec<TodoItem>>)
    ensures
        match r {
            Some(v) => todos_field(fields_view(fs@), name@) == Some(todos_view(v@)),
            None => todos_field(fields_view(fs@), name@) is None,
        },
{
    match lookup_field(fs, name) {
        None => {
            None
        },
        Some(Json::Arr(es)) => todos_from_arr(es),
        Some(_) => None,
    }
}

/// The wire form of a value of `WishlistItem`.
pub open spec fn wish_json(x: WishlistItemV) -> JsonV {
    JsonV::Obj(
        seq![
        ("id"@, JsonV::Str(x.id)),
        ("title"@, JsonV::Str(x.title)),
        ("price"@, JsonV::Num(x.price)),
        ("currency"@, JsonV::Str(x.currency)),
        ("imageUrl"@, JsonV::Str(x.image_url)),
        ("productUrl"@, JsonV::Str(x.product_url)),
        ("status"@, wish_status_json(x.status)),
        ("reservedBy"@, jnull_or_str(x.reserved_by)),
        ("reservedAt"@, jnull_or_str(x.reserved_at)),
        ("notes"@, jnull_or_str(x.notes))
    ],
    )
}

/// Reading a value of `WishlistItem` back from a JSON value.
pub open spec fn wish_of_json(j: JsonV) -> Option<WishlistItemV> {
    match j {
        JsonV::Obj(fs) => match req_str(fs, "id"@) {
            Some(id) => match req_str(fs, "title"@) {
                Some(title) => match req_num(fs, "price"@) {
                    Some(price) => match req_str(fs, "currency"@) {
                        Some(currency) => match req_str(fs, "imageUrl"@) {
                            Some(image_url) => match req_str(fs, "productUrl"@) {
                                Some(product_url) => match wish_status_of_json(fs, "status"@) {
                                    Some(status) => match opt_str(fs, "reservedBy"@) {
                                        Some(reserved_by) => match opt_str(fs, "reservedAt"@) {
                                            Some(reserved_at) => match opt_str(fs, "notes"@) {
                                                Some(notes) => Some(WishlistItemV {
                                                    id,
                                                    title,
                                                    price,
                                                    currency,
                                                    image_url,
                                                    product_url,
                                                    status,
                                                    reserved_by,
                                                    reserved_at,
                                                    notes
                                                }),
                                                None => None,
                                            },
                                            None => None,
                                        },
                                        None => None,
                                    },
                                    None => None,
                                },
                                None => None,
                            },
                            None => None,
                        },
                        None => None,
                    },
                    None => None,
                },
                None => None,
            },
            None => None,
        },
        _ => None,
    }
}

fn wish_to_json(x: &WishlistItem) -> (r: Json)
    ensures
        r@ == wish_json(x@),
{
    let mut fs: Vec<(String, Json)> = Vec::new();
    push_field(&mut fs, "id", Json::Str(x.id.clone()));
    push_field(&mut fs, "title", Json::Str(x.title.clone()));
    push_field(&mut fs, "price", Json::Num(copy_number(&x.price)));
    push_field(&mut fs, "currency", Json::Str(x.currency.clone()));
    push_field(&mut fs, "imageUrl", Json::Str(x.image_url.clone()));
    push_field(&mut fs, "productUrl", Json::Str(x.product_url.clone()));
    push_field(&mut fs, "status", wish_status_to_json(x.status));
    push_field(&mut fs, "reservedBy", opt_str_to_json(&x.reserved_by));
    push_field(&mut fs, "reservedAt", opt_str_to_json(&x.reserved_at));
    push_field(&mut fs, "notes", opt_str_to_json(&x.notes));
    let r = Json::Obj(fs);
    proof {
        assert(fields_view(Seq::<(String, Json)>::empty()) =~= Seq::<(Seq<char>, JsonV)>::empty());
        assert(fields_view(fs@) =~= seq![
        ("id"@, JsonV::Str(x@.id)),
        ("title"@, JsonV::Str(x@.title)),
        ("price"@, JsonV::Num(x@.price)),
        ("currency"@, JsonV::Str(x@.currency)),
        ("imageUrl"@, JsonV::Str(x@.image_url)),
        ("productUrl"@, JsonV::Str(x@.product_url)),
        ("status"@, wish_status_json(x@.status)),
        ("reservedBy"@, jnull_or_str(x@.reserved_by)),
        ("reservedAt"@, jnull_or_str(x@.reserved_at)),
        ("notes"@, jnull_or_str(x@.notes))
    ]);
        assert(r@ == wish_json(x@));
    }
    r
}

fn wish_from_json(j: &Json) -> (r: Option<WishlistItem>)
    ensures
        match r {
            Some(x) => wish_of_json(j@) == Some(x@),
            None => wish_of_json(j@) is None,
        },
{
    match j {
        Json::Obj(fs) => {
            let id = match get_req_str(fs, "id") { Some(v) => v, None => { return None; } };
            let title = match get_req_str(fs, "title") { Some(v) => v, None => { return None; } };
            let price = match get_req_num(fs, "price") { Some(v) => v, None => { return None; } };
            let currency = match get_req_str(fs, "currency") { Some(v) => v, None => { return None; } };
            let image_url = match get_req_str(fs, "imageUrl") { Some(v) => v, None => { return None; } };
            let product_url = match get_req_str(fs, "productUrl") { Some(v) => v, None => { return None; } };
            let status = match get_wish_status(fs, "status") { Some(v) => v, None => { return None; } };
            let reserved_by = match get_opt_str(fs, "reservedBy") { Some(v) => v, None => { return None; } };
            let reserved_at = match get_opt_str(fs, "reservedAt") { Some(v) => v, None => { return None; } };
            let notes = match get_opt_str(fs, "notes") { Some(v) => v, None => { return None; } };
            let r = WishlistItem { id, title, price, currency, image_url, product_url, status, reserved_by, reserved_at, notes };
            proof {
                assert(wish_of_json(j@) is Some);
                assert(wish_of_json(j@)->0 =~= r@);
            }
            Some(r)
        },
        _ => None,
    }
}

/// Reading back the wire form of a value of `WishlistItem` gives the value itself.
#[verifier::rlimit(100)]
pub proof fn lemma_wish_rt(x: WishlistItemV)
    ensures
        wish_of_json(wish_json(x)) == Some(x),
{
    reveal_strlit("id");
    reveal_strlit("title");
    reveal_strlit("price");
    reveal_strlit("currency");
    reveal_strlit("imageUrl");
    reveal_strlit("productUrl");
    reveal_strlit("status");
    reveal_strlit("reservedBy");
    reveal_strlit("reservedAt");
    reveal_strlit("notes");
    let fs = seq![
        ("id"@, JsonV::Str(x.id)),
        ("title"@, JsonV::Str(x.title)),
        ("price"@, JsonV::Num(x.price)),
        ("currency"@, JsonV::Str(x.currency)),
        ("imageUrl"@, JsonV::Str(x.image_url)),
        ("productUrl"@, JsonV::Str(x.product_url)),
        ("status"@, wish_status_json(x.status)),
        ("reservedBy"@, jnull_or_str(x.reserved_by)),
        ("reservedAt"@, jnull_or_str(x.reserved_at)),
        ("notes"@, jnull_or_str(x.notes))
    ];
    assert(wish_json(x) == JsonV::Obj(fs));
    reveal_with_fuel(lookup_from, 20);
    assert("title"@ != "id"@) by { assert("title"@.len() == 5); assert("id"@.len() == 2); }
    assert("price"@ != "id"@) by { assert("price"@.len() == 5); assert("id"@.len() == 2); }
    assert("price"@ != "title"@) by { assert("price"@[0] == 'p'); assert("title"@[0] == 't'); }
    assert("currency"@ != "id"@) by { assert("currency"@.len() == 8); assert("id"@.len() == 2); }
    assert("currency"@ != "title"@) by { assert("currency"@.len() == 8); assert("title"@.len() == 5); }
    assert("currency"@ != "price"@) by { assert("currency"@.len() == 8); assert("price"@.len() == 5); }
    assert("imageUrl"@ != "id"@) by { assert("imageUrl"@.len() == 8); assert("id"@.len() == 2); }
    assert("imageUrl"@ != "title"@) by { assert("imageUrl"@.len() == 8); assert("title"@.len() == 5); }
    assert("imageUrl"@ != "price"@) by { assert("imageUrl"@.len() == 8); assert("price"@.len() == 5); }
    assert("imageUrl"@ != "currency"@) by { assert("imageUrl"@[0] == 'i'); assert("currency"@[0] == 'c'); }
    assert("productUrl"@ != "id"@) by { assert("productUrl"@.len() == 10); assert("id"@.len() == 2); }
    assert("productUrl"@ != "title"@) by { assert("productUrl"@.len() == 10); assert("title"@.len() == 5); }
    assert("productUrl"@ != "price"@) by { assert("productUrl"@.len() == 10); assert("price"@.len() == 5); }
    assert("productUrl"@ != "currency"@) by { assert("productUrl"@.len() == 10); assert("currency"@.len() == 8); }
    assert("productUrl"@ != "imageUrl"@) by { assert("productUrl"@.len() == 10); assert("imageUrl"@.len() == 8); }
    assert("status"@ != "id"@) by { assert("status"@.len() == 6); assert("id"@.len() == 2); }
    assert("status"@ != "title"@) by { assert("status"@.len() == 6); assert("title"@.len() == 5); }
    assert("status"@ != "price"@) by { assert("status"@.len() == 6); assert("price"@.len() == 5); }
    assert("status"@ != "currency"@) by { assert("status"@.len() == 6); assert("currency"@.len() == 8); }
    assert("status"@ != "imageUrl"@) by { assert("status"@.len() == 6); assert("imageUrl"@.len() == 8); }
    assert("status"@ != "productUrl"@) by { assert("status"@.len() == 6); assert("productUrl"@.len() == 10); }
    assert("reservedBy"@ != "id"@) by { assert("reservedBy"@.len() == 10); assert("id"@.len() == 2); }
    assert("reservedBy"@ != "title"@) by { assert("reservedBy"@.len() == 10); assert("title"@.len() == 5); }
    assert("reservedBy"@ != "price"@) by { assert("reservedBy"@.len() == 10); assert("price"@.len() == 5); }
    assert("reservedBy"@ != "currency"@) by { assert("reservedBy"@.len() == 10); assert("currency"@.len() == 8); }
    assert("reservedBy"@ != "imageUrl"@) by { assert("reservedBy"@.len() == 10); assert("imageUrl"@.len() == 8); }
    assert("reservedBy"@ != "productUrl"@) by { assert("reservedBy"@[0] == 'r'); assert("productUrl"@[0] == 'p'); }
    assert("reservedBy"@ != "status"@) by { assert("reservedBy"@.len() == 10); assert("status"@.len() == 6); }
    assert("reservedAt"@ != "id"@) by { assert("reservedAt"@.len() == 10); assert("id"@.len() == 2); }
    assert("reservedAt"@ != "title"@) by { assert("reservedAt"@.len() == 10); assert("title"@.len() == 5); }
    assert("reservedAt"@ != "price"@) by { assert("reservedAt"@.len() == 10); assert("price"@.len() == 5); }
    assert("reservedAt"@ != "currency"@) by { assert("reservedAt"@.len() == 10); assert("currency"@.len() == 8); }
    assert("reservedAt"@ != "imageUrl"@) by { assert("reservedAt"@.len() == 10); assert("imageUrl"@.len() == 8); }
    assert("reservedAt"@ != "productUrl"@) by { assert("reservedAt"@[0] == 'r'); assert("productUrl"@[0] == 'p'); }
    assert("reservedAt"@ != "status"@) by { assert("reservedAt"@.len() == 10); assert("status"@.len() == 6); }
    assert("reservedAt"@ != "reservedBy"@) by { assert("reservedAt"@[8] == 'A'); assert("reservedBy"@[8] == 'B'); }
    assert("notes"@ != "id"@) by { assert("notes"@.len() == 5); assert("id"@.len() == 2); }
    assert("notes"@ != "title"@) by { assert("notes"@[0] == 'n'); assert("title"@[0] == 't'); }
    assert("notes"@ != "price"@) by { assert("notes"@[0] == 'n'); assert("price"@[0] == 'p'); }
    assert("notes"@ != "currency"@) by { assert("notes"@.len() == 5); assert("currency"@.len() == 8); }
    assert("notes"@ != "imageUrl"@) by { assert("notes"@.len() == 5); assert("imageUrl"@.len() == 8); }
    assert("notes"@ != "productUrl"@) by { assert("notes"@.len() == 5); assert("productUrl"@.len() == 10); }
    assert("notes"@ != "status"@) by { assert("notes"@.len() == 5); assert("status"@.len() == 6); }
    assert("notes"@ != "reservedBy"@) by { assert("notes"@.len() == 5); assert("reservedBy"@.len() == 10); }
    assert("notes"@ != "reservedAt"@) by { assert("notes"@.len() == 5); assert("reservedAt"@.len() == 10); }
    assert(lookup(fs, "id"@) == Some(JsonV::Str(x.id)));
    assert(lookup(fs, "title"@) == Some(JsonV::Str(x.title)));
    assert(lookup(fs, "price"@) == Some(JsonV::Num(x.price)));
    assert(lookup(fs, "currency"@) == Some(JsonV::Str(x.currency)));
    assert(lookup(fs, "imageUrl"@) == Some(JsonV::Str(x.image_url)));
    assert(lookup(fs, "productUrl"@) == Some(JsonV::Str(x.product_url)));
    assert(lookup(fs, "status"@) == Some(wish_status_json(x.status)));
    assert(lookup(fs, "reservedBy"@) == Some(jnull_or_str(x.reserved_by)));
    assert(lookup(fs, "reservedAt"@) == Some(jnull_or_str(x.reserved_at)));
    assert(lookup(fs, "notes"@) == Some(jnull_or_str(x.notes)));
    lemma_wish_status_rt(fs, "status"@, x.status);
    assert(wish_of_json(wish_json(x)) is Some);
    assert(wish_of_json(wish_json(x))->0 =~= x);
}

proof fn lemma_wish_json_wf(x: WishlistItemV)
    requires
        wish_wf(x),
    ensures
        json_wf(wish_json(x)),
{
    let fs = seq![
        ("id"@, JsonV::Str(x.id)),
        ("title"@, JsonV::Str(x.title)),
        ("price"@, JsonV::Num(x.price)),
        ("currency"@, JsonV::Str(x.currency)),
        ("imageUrl"@, JsonV::Str(x.image_url)),
        ("productUrl"@, JsonV::Str(x.product_url)),
        ("status"@, wish_status_json(x.status)),
        ("reservedBy"@, jnull_or_str(x.reserved_by)),
        ("reservedAt"@, jnull_or_str(x.reserved_at)),
        ("notes"@, jnull_or_str(x.notes))
    ];
    assert(json_wf(JsonV::Num(x.price)));
    assert(json_wf(wish_status_json(x.status)));
    lemma_json_wf_obj_intro(fs);
    assert(wish_json(x) == JsonV::Obj(fs));
}

/// The wire form of a list: one JSON value per element.
pub open spec fn wishes_json(s: Seq<WishlistItemV>) -> Seq<JsonV> {
    Seq::new(s.len(), |i: int| wish_json(s[i]))
}

/// Reading the elements back, from index `k` on.
pub open spec fn wishes_of_json(es: Seq<JsonV>, k: int) -> Option<Seq<WishlistItemV>>
    decreases es.len() - k,
{
    if k < 0 {
        None
    } else if k >= es.len() {
        Some(Seq::empty())
    } else {
        match (wish_of_json(es[k]), wishes_of_json(es, k + 1)) {
            (Some(x), Some(rest)) => Some(seq![x] + rest),
            _ => None,
        }
    }
}

/// The list stored under a name: empty when absent.
pub open spec fn wishes_field(fs: Seq<(Seq<char>, JsonV)>, name: Seq<char>) -> Option<Seq<WishlistItemV>> {
    match def_arr(fs, name) {
        Some(es) => wishes_of_json(es, 0),
        None => None,
    }
}

fn wishes_to_json(v: &Vec<WishlistItem>) -> (r: Vec<Json>)
    ensures
        elems_view(r@) == wishes_json(wishes_view(v@)),
{
    let mut out: Vec<Json> = Vec::new();
    let n = v.len();
    let mut k: usize = 0;
    while k < n
        invariant
            n == v@.len(),
            k <= n,
            out@.len() == k,
            forall|i: int| 0 <= i < k ==> (#[trigger] out@[i])@ == wishes_json(wishes_view(v@))[i],
        decreases n - k,
    {
        out.push(wish_to_json(&v[k]));
        k = k + 1;
    }
    proof {
        lemma_elems_view_from(out@, 0);
        assert forall|i: int| 0 <= i < out@.len() implies elems_view(out@)[i] == wishes_json(
            wishes_view(v@),
        )[i] by {
            assert(elems_view_from(out@, 0)[i - 0] == out@[i]@);
        }
        assert(elems_view(out@) =~= wishes_json(wishes_view(v@)));
    }
    out
}

fn wishes_from_arr(es: &Vec<Json>) -> (r: Option<Vec<WishlistItem>>)
    ensures
        match r {
            Some(v) => wishes_of_json(elems_view(es@), 0) == Some(wishes_view(v@)),
            None => wishes_of_json(elems_view(es@), 0) is None,
        },
{
    proof {
        lemma_elems_view_from(es@, 0);
    }
    let ghost esv = elems_view(es@);
    let n = es.len();
    let mut out: Vec<WishlistItem> = Vec::new();
    let mut k: usize = 0;
    while k < n
        invariant
            n == es@.len(),
            k <= n,
            esv == elems_view(es@),
            esv.len() == n,
            forall|i: int| 0 <= i < n ==> esv[i] == #[trigger] es@[i]@,
            wishes_of_json(esv, 0) == (match wishes_of_json(esv, k as int) {
                Some(rest) => Some::<Seq<WishlistItemV>>(wishes_view(out@) + rest),
                None => None::<Seq<WishlistItemV>>,
            }),
        decreases n - k,
    {
        match wish_from_json(&es[k]) {
            None => {
                proof {
                    assert(wish_of_json(esv[k as int]) is None);
                    assert(wishes_of_json(esv, k as int) is None);
                }
                return None;
            },
            Some(x) => {
                let ghost gx = x@;
                let ghost oldout = out@;
                out.push(x);
                proof {
                    assert(wish_of_json(esv[k as int]) == Some(gx));
                    assert(wishes_view(out@) =~= wishes_view(oldout).push(gx));
                    let step = wishes_of_json(esv, k + 1);
                    if step is Some {
                        let rest = step->0;
                        assert(wishes_view(oldout).push(gx) + rest =~= wishes_view(oldout) + (seq![gx]
                            + rest));
                    }
                }
            },
        }
        k = k + 1;
    }
    proof {
        assert(wishes_of_json(esv, n as int) == Some(Seq::<WishlistItemV>::empty()));
        assert(wishes_view(out@) + Seq::<WishlistItemV>::empty() =~= wishes_view(out@));
    }
    Some(out)
}

proof fn lemma_wishes_rt_from(s: Seq<WishlistItemV>, k: int)
    requires
        0 <= k <= s.len(),
    ensures
        wishes_of_json(wishes_json(s), k) == Some(s.subrange(k, s.len() as int)),
    decreases s.len() - k,
{
    let es = wishes_json(s);
    if k == s.len() {
        assert(s.subrange(k, s.len() as int) =~= Seq::<WishlistItemV>::empty());
    } else {
        assert(es[k] == wish_json(s[k]));
        lemma_wish_rt(s[k]);
        lemma_wishes_rt_from(s, k + 1);
        assert(seq![s[k]] + s.subrange(k + 1, s.len() as int) =~= s.subrange(k, s.len() as int));
    }
}

/// A list read back from its wire form is the list itself.
pub proof fn lemma_wishes_rt(s: Seq<WishlistItemV>)
    ensures
        wishes_of_json(wishes_json(s), 0) == Some(s),
{
    lemma_wishes_rt_from(s, 0);
    assert(s.subrange(0, s.len() as int) =~= s);
}

proof fn lemma_wishes_json_wf(s: Seq<WishlistItemV>)
    requires
        forall|i: int| 0 <= i < s.len() ==> wish_wf(#[trigger] s[i]),
    ensures
        json_wf(JsonV::Arr(wishes_json(s))),
{
    assert forall|i: int| 0 <= i < wishes_json(s).len() implies json_wf(#[trigger] wishes_json(s)[i]) by {
        assert(wishes_json(s)[i] == wish_json(s[i]));
        lemma_wish_json_wf(s[i]);
    }
    lemma_json_wf_arr_intro(wishes_json(s));
}

fn get_wishes(fs: &Vec<(String, Json)>, name: &str) -> (r: Option<Vec<WishlistItem>>)
    ensures
        match r {
            Some(v) => wishes_field(fields_view(fs@), name@) == Some(wishes_view(v@)),
            None => wishes_field(fields_view(fs@), name@) is None,
        },
{
    match lookup_field(fs, name) {
        None => {
            let v: Vec<WishlistItem> = Vec::new();
            proof {
                assert(wishes_view(v@) =~= Seq::<WishlistItemV>::empty());
                assert(wishes_of_json(Seq::<JsonV>::empty(), 0) == Some(Seq::<WishlistItemV>::empty()));
            }
            Some(v)
        },
        Some(Json::Arr(es)) => wishes_from_arr(es),
        Some(_) => None,
    }
}

/// The wire form of optional pixel dimensions.
pub open spec fn dims_json(o: Option<MediaDimensions>) -> JsonV {
    match o {
        Some(d) => JsonV::Obj(
            seq![
            ("width"@, JsonV::Num(u64_num(d.width as u64))),
            ("height"@, JsonV::Num(u64_num(d.height as u64))),
        ],
        ),
        None => JsonV::Null,
    }
}

/// Optional dimensions under a name: absent or null is none.
pub open spec fn dims_of(fs: Seq<(Seq<char>, JsonV)>, name: Seq<char>) -> Option<
    Option<MediaDimensions>,
> {
    match lookup(fs, name) {
        None => Some(None),
        Some(JsonV::Null) => Some(None),
        Some(JsonV::Obj(df)) => match (req_u32(df, "width"@), req_u32(df, "height"@)) {
            (Some(w), Some(h)) => Some(Some(MediaDimensions { width: w, height: h })),
            _ => None,
        },
        Some(_) => None,
    }
}

fn dims_to_json(o: &Option<MediaDimensions>) -> (r: Json)
    ensures
        r@ == dims_json(*o),
{
    match o {
        None => Json::Null,
        Some(d) => {
            let mut fs: Vec<(String, Json)> = Vec::new();
            push_field(&mut fs, "width", Json::Num(Number::from_u64(d.width as u64)));
            push_field(&mut fs, "height", Json::Num(Number::from_u64(d.height as u64)));
            let r = Json::Obj(fs);
            proof {
                assert(fields_view(Seq::<(String, Json)>::empty()) =~= Seq::<
                    (Seq<char>, JsonV),
                >::empty());
                assert(fields_view(fs@) =~= seq![
                    ("width"@, JsonV::Num(u64_num(d.width as u64))),
                    ("height"@, JsonV::Num(u64_num(d.height as u64))),
                ]);
                assert(r@ == dims_json(*o));
            }
            r
        },
    }
}

fn get_dims(fs: &Vec<(String, Json)>, name: &str) -> (r: Option<Option<MediaDimensions>>)
    ensures
        r == dims_of(fields_view(fs@), name@),
{
    match lookup_field(fs, name) {
        None => Some(None),
        Some(Json::Null) => Some(None),
        Some(Json::Obj(df)) => {
            let w = get_req_u32(df, "width");
            let h = get_req_u32(df, "height");
            match (w, h) {
                (Some(w), Some(h)) => Some(Some(MediaDimensions { width: w, height: h })),
                _ => None,
            }
        },
        Some(_) => None,
    }
}

/// Reading back stored dimensions gives them unchanged.
proof fn lemma_dims_rt(fs: Seq<(Seq<char>, JsonV)>, name: Seq<char>, o: Option<MediaDimensions>)
    requires
        lookup(fs, name) == Some(dims_json(o)),
    ensures
        dims_of(fs, name) == Some(o),
{
    match o {
        None => {},
        Some(d) => {
            reveal_strlit("width");
            reveal_strlit("height");
            let df = seq![
                ("width"@, JsonV::Num(u64_num(d.width as u64))),
                ("height"@, JsonV::Num(u64_num(d.height as u64))),
            ];
            reveal_with_fuel(lookup_from, 5);
            assert("height"@ != "width"@) by {
                assert("height"@.len() == 6);
                assert("width"@.len() == 5);
            }
            assert(lookup(df, "width"@) == Some(JsonV::Num(u64_num(d.width as u64))));
            assert(lookup(df, "height"@) == Some(JsonV::Num(u64_num(d.height as u64))));
            assert(num_as_u32(u64_num(d.width as u64)) == Some(d.width));
            assert(num_as_u32(u64_num(d.height as u64)) == Some(d.height));
        },
    }
}

proof fn lemma_dims_json_wf(o: Option<MediaDimensions>)
    ensures
        json_wf(dims_json(o)),
{
    match o {
        None => {},
        Some(d) => {
            let df = seq![
                ("width"@, JsonV::Num(u64_num(d.width as u64))),
                ("height"@, JsonV::Num(u64_num(d.height as u64))),
            ];
            lemma_json_wf_obj_intro(df);
        },
    }
}

/// The wire form of a value of `MediaItem`.
pub open spec fn media_item_json(x: MediaItemV) -> JsonV {
    JsonV::Obj(
        seq![
        ("id"@, JsonV::Str(x.id)),
        ("filename"@, JsonV::Str(x.filename)),
        ("originalName"@, JsonV::Str(x.original_name)),
        ("type"@, media_type_json(x.media_type)),
        ("category"@, media_category_json(x.category)),
        ("uploadedAt"@, JsonV::Str(x.uploaded_at)),
        ("uploadedBy"@, JsonV::Str(x.uploaded_by)),
        ("caption"@, jnull_or_str(x.caption)),
        ("tags"@, JsonV::Arr(strings_json(x.tags))),
        ("isFavorite"@, JsonV::Bool(x.is_favorite)),
        ("fileSize"@, JsonV::Num(u64_num(x.file_size))),
        ("dimensions"@, dims_json(x.dimensions)),
        ("duration"@, jnull_or_num(x.duration)),
        ("thumbnailPath"@, jnull_or_str(x.thumbnail_path))
    ],
    )
}

/// Reading a value of `MediaItem` back from a JSON value.
pub open spec fn media_item_of_json(j: JsonV) -> Option<MediaItemV> {
    match j {
        JsonV::Obj(fs) => match req_str(fs, "id"@) {
            Some(id) => match req_str(fs, "filename"@) {
                Some(filename) => match req_str(fs, "originalName"@) {
                    Some(original_name) => match media_type_of_json(fs, "type"@) {
                        Some(media_type) => match media_category_of_json(fs, "category"@) {
                            Some(category) => match req_str(fs, "uploadedAt"@) {
                                Some(uploaded_at) => match req_str(fs, "uploadedBy"@) {
                                    Some(uploaded_by) => match opt_str(fs, "caption"@) {
                                        Some(caption) => match strings_field(fs, "tags"@) {
                                            Some(tags) => match def_bool(fs, "isFavorite"@) {
                                                Some(is_favorite) => match req_u64(fs, "fileSize"@) {
                                                    Some(file_size) => match dims_of(fs, "dimensions"@) {
                                                        Some(dimensions) => match opt_num(fs, "duration"@) {
                                                            Some(duration) => match opt_str(fs, "thumbnailPath"@) {
                                                                Some(thumbnail_path) => Some(MediaItemV {
                                                                    id,
                                                                    filename,
                                                                    original_name,
                                                                    media_type,
                                                                    category,
                                                                    uploaded_at,
                                                                    uploaded_by,
                                                                    caption,
                                                                    tags,
                                                                    is_favorite,
                                                                    file_size,
                                                                    dimensions,
                                                                    duration,
                                                                    thumbnail_path
                                                                }),
                                                                None => None,
                                                            },
                                                            None => None,
                                                        },
                                                        None => None,
                                                    },
                                                    None => None,
                                                },
                                                None => None,
                                            },
                                            None => None,
                                        },
                                        None => None,
                                    },
                                    None => None,
                                },
                                None => None,
                            },
                            None => None,
                        },
                        None => None,
                    },
                    None => None,
                },
                None => None,
            },
            None => None,
        },
        _ => None,
    }
}

#[verifier::rlimit(100)]

fn media_item_to_json(x: &MediaItem) -> (r: Json)
    ensures
        r@ == media_item_json(x@),
{
    let mut fs: Vec<(String, Json)> = Vec::new();
    push_field(&mut fs, "id", Json::Str(x.id.clone()));
    push_field(&mut fs, "filename", Json::Str(x.filename.clone()));
    push_field(&mut fs, "originalName", Json::Str(x.original_name.clone()));
    push_field(&mut fs, "type", media_type_to_json(x.media_type));
    push_field(&mut fs, "category", media_category_to_json(x.category));
    push_field(&mut fs, "uploadedAt", Json::Str(x.uploaded_at.clone()));
    push_field(&mut fs, "uploadedBy", Json::Str(x.uploaded_by.clone()));
    push_field(&mut fs, "caption", opt_str_to_json(&x.caption));
    push_field(&mut fs, "tags", Json::Arr(strings_to_json(&x.tags)));
    push_field(&mut fs, "isFavorite", Json::Bool(x.is_favorite));
    push_field(&mut fs, "fileSize", Json::Num(Number::from_u64(x.file_size)));
    push_field(&mut fs, "dimensions", dims_to_json(&x.dimensions));
    push_field(&mut fs, "duration", opt_num_to_json(&x.duration));
    push_field(&mut fs, "thumbnailPath", opt_str_to_json(&x.thumbnail_path));
    let r = Json::Obj(fs);
    proof {
        assert(fields_view(Seq::<(String, Json)>::empty()) =~= Seq::<(Seq<char>, JsonV)>::empty());
        assert(fields_view(fs@) =~= seq![
        ("id"@, JsonV::Str(x@.id)),
        ("filename"@, JsonV::Str(x@.filename)),
        ("originalName"@, JsonV::Str(x@.original_name)),
        ("type"@, media_type_json(x@.media_type)),
        ("category"@, media_category_json(x@.category)),
        ("uploadedAt"@, JsonV::Str(x@.uploaded_at)),
        ("uploadedBy"@, JsonV::Str(x@.uploaded_by)),
        ("caption"@, jnull_or_str(x@.caption)),
        ("tags"@, JsonV::Arr(strings_json(x@.tags))),
        ("isFavorite"@, JsonV::Bool(x@.is_favorite)),
        ("fileSize"@, JsonV::Num(u64_num(x@.file_size))),
        ("dimensions"@, dims_json(x@.dimensions)),
        ("duration"@, jnull_or_num(x@.duration)),
        ("thumbnailPath"@, jnull_or_str(x@.thumbnail_path))
    ]);
        assert(r@ == media_item_json(x@));
    }
    r
}

fn media_item_from_json(j: &Json) -> (r: Option<MediaItem>)
    ensures
        match r {
            Some(x) => media_item_of_json(j@) == Some(x@),
            None => media_item_of_json(j@) is None,
        },
{
    match j {
        Json::Obj(fs) => {
            let id = match get_req_str(fs, "id") { Some(v) => v, None => { return None; } };
            let filename = match get_req_str(fs, "filename") { Some(v) => v, None => { return None; } };
            let original_name = match get_req_str(fs, "originalName") { Some(v) => v, None => { return None; } };
            let media_type = match get_media_type(fs, "type") { Some(v) => v, None => { return None; } };
            let category = match get_media_category(fs, "category") { Some(v) => v, None => { return None; } };
            let uploaded_at = match get_req_str(fs, "uploadedAt") { Some(v) => v, None => { return None; } };
            let uploaded_by = match get_req_str(fs, "uploadedBy") { Some(v) => v, None => { return None; } };
            let caption = match get_opt_str(fs, "caption") { Some(v) => v, None => { return None; } };
            let tags = match get_strings(fs, "tags") { Some(v) => v, None => { return None; } };
            let is_favorite = match get_def_bool(fs, "isFavorite") { Some(v) => v, None => { return None; } };
            let file_size = match get_req_u64(fs, "fileSize") { Some(v) => v, None => { return None; } };
            let dimensions = match get_dims(fs, "dimensions") { Some(v) => v, None => { return None; } };
            let duration = match get_opt_num(fs, "duration") { Some(v) => v, None => { return None; } };
            let thumbnail_path = match get_opt_str(fs, "thumbnailPath") { Some(v) => v, None => { return None; } };
            let r = MediaItem { id, filename, original_name, media_type, category, uploaded_at, uploaded_by, caption, tags, is_favorite, file_size, dimensions, duration, thumbnail_path };
            proof {
                assert(media_item_of_json(j@) is Some);
                assert(media_item_of_json(j@)->0 =~= r@);
            }
            Some(r)
        },
        _ => None,
    }
}

/// Reading back the wire form of a value of `MediaItem` gives the value itself.
#[verifier::rlimit(100)]
pub proof fn lemma_media_item_rt(x: MediaItemV)
    ensures
        media_item_of_json(media_item_json(x)) == Some(x),
{
    reveal_strlit("id");
    reveal_strlit("filename");
    reveal_strlit("originalName");
    reveal_strlit("type");
    reveal_strlit("category");
    reveal_strlit("uploadedAt");
    reveal_strlit("uploadedBy");
    reveal_strlit("caption");
    reveal_strlit("tags");
    reveal_strlit("isFavorite");
    reveal_strlit("fileSize");
    reveal_strlit("dimensions");
    reveal_strlit("duration");
    reveal_strlit("thumbnailPath");
    let fs = seq![
        ("id"@, JsonV::Str(x.id)),
        ("filename"@, JsonV::Str(x.filename)),
        ("originalName"@, JsonV::Str(x.original_name)),
        ("type"@, media_type_json(x.media_type)),
        ("category"@, media_category_json(x.category)),
        ("uploadedAt"@, JsonV::Str(x.uploaded_at)),
        ("uploadedBy"@, JsonV::Str(x.uploaded_by)),
        ("caption"@, jnull_or_str(x.caption)),
        ("tags"@, JsonV::Arr(strings_json(x.tags))),
        ("isFavorite"@, JsonV::Bool(x.is_favorite)),
        ("fileSize"@, JsonV::Num(u64_num(x.file_size))),
        ("dimensions"@, dims_json(x.dimensions)),
        ("duration"@, jnull_or_num(x.duration)),
        ("thumbnailPath"@, jnull_or_str(x.thumbnail_path))
    ];
    assert(media_item_json(x) == JsonV::Obj(fs));
    reveal_with_fuel(lookup_from, 20);
    assert("filename"@ != "id"@) by { assert("filename"@.len() == 8); assert("id"@.len() == 2); }
    assert("originalName"@ != "id"@) by { assert("originalName"@.len() == 12); assert("id"@.len() == 2); }
    assert("originalName"@ != "filename"@) by { assert("originalName"@.len() == 12); assert("filename"@.len() == 8); }
    assert("type"@ != "id"@) by { assert("type"@.len() == 4); assert("id"@.len() == 2); }
    assert("type"@ != "filename"@) by { assert("type"@.len() == 4); assert("filename"@.len() == 8); }
    assert("type"@ != "originalName"@) by { assert("type"@.len() == 4); assert("originalName"@.len() == 12); }
    assert("category"@ != "id"@) by { assert("category"@.len() == 8); assert("id"@.len() == 2); }
    assert("category"@ != "filename"@) by { assert("category"@[0] == 'c'); assert("filename"@[0] == 'f'); }
    assert("category"@ != "originalName"@) by { assert("category"@.len() == 8); assert("originalName"@.len() == 12); }
    assert("category"@ != "type"@) by { assert("category"@.len() == 8); assert("type"@.len() == 4); }
    assert("uploadedAt"@ != "id"@) by { assert("uploadedAt"@.len() == 10); assert("id"@.len() == 2); }
    assert("uploadedAt"@ != "filename"@) by { assert("uploadedAt"@.len() == 10); assert("filename"@.len() == 8); }
    assert("uploadedAt"@ != "originalName"@) by { assert("uploadedAt"@.len() == 10); assert("originalName"@.len() == 12); }
    assert("uploadedAt"@ != "type"@) by { assert("uploadedAt"@.len() == 10); assert("type"@.len() == 4); }
    assert("uploadedAt"@ != "category"@) by { assert("uploadedAt"@.len() == 10); assert("category"@.len() == 8); }
    assert("uploadedBy"@ != "id"@) by { assert("uploadedBy"@.len() == 10); assert("id"@.len() == 2); }
    assert("uploadedBy"@ != "filename"@) by { assert("uploadedBy"@.len() == 10); assert("filename"@.len() == 8); }
    assert("uploadedBy"@ != "originalName"@) by { assert("uploadedBy"@.len() == 10); assert("originalName"@.len() == 12); }
    assert("uploadedBy"@ != "type"@) by { assert("uploadedBy"@.len() == 10); assert("type"@.len() == 4); }
    assert("uploadedBy"@ != "category"@) by { assert("uploadedBy"@.len() == 10); assert("category"@.len() == 8); }
    assert("uploadedBy"@ != "uploadedAt"@) by { assert("uploadedBy"@[8] == 'B'); assert("uploadedAt"@[8] == 'A'); }
    assert("caption"@ != "id"@) by { assert("caption"@.len() == 7); assert("id"@.len() == 2); }
    assert("caption"@ != "filename"@) by { assert("caption"@.len() == 7); assert("filename"@.len() == 8); }
    assert("caption"@ != "originalName"@) by { assert("caption"@.len() == 7); assert("originalName"@.len() == 12); }
    assert("caption"@ != "type"@) by { assert("caption"@.len() == 7); assert("type"@.len() == 4); }
    assert("caption"@ != "category"@) by { assert("caption"@.len() == 7); assert("category"@.len() == 8); }
    assert("caption"@ != "uploadedAt"@) by { assert("caption"@.len() == 7); assert("uploadedAt"@.len() == 10); }
    assert("caption"@ != "uploadedBy"@) by { assert("caption"@.len() == 7); assert("uploadedBy"@.len() == 10); }
    assert("tags"@ != "id"@) by { assert("tags"@.len() == 4); assert("id"@.len() == 2); }
    assert("tags"@ != "filename"@) by { assert("tags"@.len() == 4); assert("filename"@.len() == 8); }
    assert("tags"@ != "originalName"@) by { assert("tags"@.len() == 4); assert("originalName"@.len() == 12); }
    assert("tags"@ != "type"@) by { assert("tags"@[1] == 'a'); assert("type"@[1] == 'y'); }
    assert("tags"@ != "category"@) by { assert("tags"@.len() == 4); assert("category"@.len() == 8); }
    assert("tags"@ != "uploadedAt"@) by { assert("tags"@.len() == 4); assert("uploadedAt"@.len() == 10); }
    assert("tags"@ != "uploadedBy"@) by { assert("tags"@.len() == 4); assert("uploadedBy"@.len() == 10); }
    assert("tags"@ != "caption"@) by { assert("tags"@.len() == 4); assert("caption"@.len() == 7); }
    assert("isFavorite"@ != "id"@) by { assert("isFavorite"@.len() == 10); assert("id"@.len() == 2); }
    assert("isFavorite"@ != "filename"@) by { assert("isFavorite"@.len() == 10); assert("filename"@.len() == 8); }
    assert("isFavorite"@ != "originalName"@) by { assert("isFavorite"@.len() == 10); assert("originalName"@.len() == 12); }
    assert("isFavorite"@ != "type"@) by { assert("isFavorite"@.len() == 10); assert("type"@.len() == 4); }
    assert("isFavorite"@ != "category"@) by { assert("isFavorite"@.len() == 10); assert("category"@.len() == 8); }
    assert("isFavorite"@ != "uploadedAt"@) by { assert("isFavorite"@[0] == 'i'); assert("uploadedAt"@[0] == 'u'); }
    assert("isFavorite"@ != "uploadedBy"@) by { assert("isFavorite"@[0] == 'i'); assert("uploadedBy"@[0] == 'u'); }
    assert("isFavorite"@ != "caption"@) by { assert("isFavorite"@.len() == 10); assert("caption"@.len() == 7); }
    assert("isFavorite"@ != "tags"@) by { assert("isFavorite"@.len() == 10); assert("tags"@.len() == 4); }
    assert("fileSize"@ != "id"@) by { assert("fileSize"@.len() == 8); assert("id"@.len() == 2); }
    assert("fileSize"@ != "filename"@) by { assert("fileSize"@[4] == 'S'); assert("filename"@[4] == 'n'); }
    assert("fileSize"@ != "originalName"@) by { assert("fileSize"@.len() == 8); assert("originalName"@.len() == 12); }
    assert("fileSize"@ != "type"@) by { assert("fileSize"@.len() == 8); assert("type"@.len() == 4); }
    assert("fileSize"@ != "category"@) by { assert("fileSize"@[0] == 'f'); assert("category"@[0] == 'c'); }
    assert("fileSize"@ != "uploadedAt"@) by { assert("fileSize"@.len() == 8); assert("uploadedAt"@.len() == 10); }
    assert("fileSize"@ != "uploadedBy"@) by { assert("fileSize"@.len() == 8); assert("uploadedBy"@.len() == 10); }
    assert("fileSize"@ != "caption"@) by { assert("fileSize"@.len() == 8); assert("caption"@.len() == 7); }
    assert("fileSize"@ != "tags"@) by { assert("fileSize"@.len() == 8); assert("tags"@.len() == 4); }
    assert("fileSize"@ != "isFavorite"@) by { assert("fileSize"@.len() == 8); assert("isFavorite"@.len() == 10); }
    assert("dimensions"@ != "id"@) by { assert("dimensions"@.len() == 10); assert("id"@.len() == 2); }
    assert("dimensions"@ != "filename"@) by { assert("dimensions"@.len() == 10); assert("filename"@.len() == 8); }
    assert("dimensions"@ != "originalName"@) by { assert("dimensions"@.len() == 10); assert("originalName"@.len() == 12); }
    assert("dimensions"@ != "type"@) by { assert("dimensions"@.len() == 10); assert("type"@.len() == 4); }
    assert("dimensions"@ != "category"@) by { assert("dimensions"@.len() == 10); assert("category"@.len() == 8); }
    assert("dimensions"@ != "uploadedAt"@) by { assert("dimensions"@[0] == 'd'); assert("uploadedAt"@[0] == 'u'); }
    assert("dimensions"@ != "uploadedBy"@) by { assert("dimensions"@[0] == 'd'); assert("uploadedBy"@[0] == 'u'); }
    assert("dimensions"@ != "caption"@) by { assert("dimensions"@.len() == 10); assert("caption"@.len() == 7); }
    assert("dimensions"@ != "tags"@) by { assert("dimensions"@.len() == 10); assert("tags"@.len() == 4); }
    assert("dimensions"@ != "isFavorite"@) by { assert("dimensions"@[0] == 'd'); assert("isFavorite"@[0] == 'i'); }
    assert("dimensions"@ != "fileSize"@) by { assert("dimensions"@.len() == 10); assert("fileSize"@.len() == 8); }
    assert("duration"@ != "id"@) by { assert("duration"@.len() == 8); assert("id"@.len() == 2); }
    assert("duration"@ != "filename"@) by { assert("duration"@[0] == 'd'); assert("filename"@[0] == 'f'); }
    assert("duration"@ != "originalName"@) by { assert("duration"@.len() == 8); assert("originalName"@.len() == 12); }
    assert("duration"@ != "type"@) by { assert("duration"@.len() == 8); assert("type"@.len() == 4); }
    assert("duration"@ != "category"@) by { assert("duration"@[0] == 'd'); assert("category"@[0] == 'c'); }
    assert("duration"@ != "uploadedAt"@) by { assert("duration"@.len() == 8); assert("uploadedAt"@.len() == 10); }
    assert("duration"@ != "uploadedBy"@) by { assert("duration"@.len() == 8); assert("uploadedBy"@.len() == 10); }
    assert("duration"@ != "caption"@) by { assert("duration"@.len() == 8); assert("caption"@.len() == 7); }
    assert("duration"@ != "tags"@) by { assert("duration"@.len() == 8); assert("tags"@.len() == 4); }
    assert("duration"@ != "isFavorite"@) by { assert("duration"@.len() == 8); assert("isFavorite"@.len() == 10); }
    assert("duration"@ != "fileSize"@) by { assert("duration"@[0] == 'd'); assert("fileSize"@[0] == 'f'); }
    assert("duration"@ != "dimensions"@) by { assert("duration"@.len() == 8); assert("dimensions"@.len() == 10); }
    assert("thumbnailPath"@ != "id"@) by { assert("thumbnailPath"@.len() == 13); assert("id"@.len() == 2); }
    assert("thumbnailPath"@ != "filename"@) by { assert("thumbnailPath"@.len() == 13); assert("filename"@.len() == 8); }
    assert("thumbnailPath"@ != "originalName"@) by { assert("thumbnailPath"@.len() == 13); assert("originalName"@.len() == 12); }
    assert("thumbnailPath"@ != "type"@) by { assert("thumbnailPath"@.len() == 13); assert("type"@.len() == 4); }
    assert("thumbnailPath"@ != "category"@) by { assert("thumbnailPath"@.len() == 13); assert("category"@.len() == 8); }
    assert("thumbnailPath"@ != "uploadedAt"@) by { assert("thumbnailPath"@.len() == 13); assert("uploadedAt"@.len() == 10); }
    assert("thumbnailPath"@ != "uploadedBy"@) by { assert("thumbnailPath"@.len() == 13); assert("uploadedBy"@.len() == 10); }
    assert("thumbnailPath"@ != "caption"@) by { assert("thumbnailPath"@.len() == 13); assert("caption"@.len() == 7); }
    assert("thumbnailPath"@ != "tags"@) by { assert("thumbnailPath"@.len() == 13); assert("tags"@.len() == 4); }
    assert("thumbnailPath"@ != "isFavorite"@) by { assert("thumbnailPath"@.len() == 13); assert("isFavorite"@.len() == 10); }
    assert("thumbnailPath"@ != "fileSize"@) by { assert("thumbnailPath"@.len() == 13); assert("fileSize"@.len() == 8); }
    assert("thumbnailPath"@ != "dimensions"@) by { assert("thumbnailPath"@.len() == 13); assert("dimensions"@.len() == 10); }
    assert("thumbnailPath"@ != "duration"@) by { assert("thumbnailPath"@.len() == 13); assert("duration"@.len() == 8); }
    assert(lookup(fs, "id"@) == Some(JsonV::Str(x.id)));
    assert(lookup(fs, "filename"@) == Some(JsonV::Str(x.filename)));
    assert(lookup(fs, "originalName"@) == Some(JsonV::Str(x.original_name)));
    assert(lookup(fs, "type"@) == Some(media_type_json(x.media_type)));
    assert(lookup(fs, "category"@) == Some(media_category_json(x.category)));
    assert(lookup(fs, "uploadedAt"@) == Some(JsonV::Str(x.uploaded_at)));
    assert(lookup(fs, "uploadedBy"@) == Some(JsonV::Str(x.uploaded_by)));
    assert(lookup(fs, "caption"@) == Some(jnull_or_str(x.caption)));
    assert(lookup(fs, "tags"@) == Some(JsonV::Arr(strings_json(x.tags))));
    assert(lookup(fs, "isFavorite"@) == Some(JsonV::Bool(x.is_favorite)));
    assert(lookup(fs, "fileSize"@) == Some(JsonV::Num(u64_num(x.file_size))));
    assert(lookup(fs, "dimensions"@) == Some(dims_json(x.dimensions)));
    assert(lookup(fs, "duration"@) == Some(jnull_or_num(x.duration)));
    assert(lookup(fs, "thumbnailPath"@) == Some(jnull_or_str(x.thumbnail_path)));
    lemma_media_type_rt(fs, "type"@, x.media_type);
    lemma_media_category_rt(fs, "category"@, x.category);
    lemma_strings_rt(x.tags);
    assert(num_as_u64(u64_num(x.file_size)) == Some(x.file_size));
    lemma_dims_rt(fs, "dimensions"@, x.dimensions);
    assert(media_item_of_json(media_item_json(x)) is Some);
    assert(media_item_of_json(media_item_json(x))->0 =~= x);
}

proof fn lemma_media_item_json_wf(x: MediaItemV)
    requires
        media_wf(x),
    ensures
        json_wf(media_item_json(x)),
{
    let fs = seq![
        ("id"@, JsonV::Str(x.id)),
        ("filename"@, JsonV::Str(x.filename)),
        ("originalName"@, JsonV::Str(x.original_name)),
        ("type"@, media_type_json(x.media_type)),
        ("category"@, media_category_json(x.category)),
        ("uploadedAt"@, JsonV::Str(x.uploaded_at)),
        ("uploadedBy"@, JsonV::Str(x.uploaded_by)),
        ("caption"@, jnull_or_str(x.caption)),
        ("tags"@, JsonV::Arr(strings_json(x.tags))),
        ("isFavorite"@, JsonV::Bool(x.is_favorite)),
        ("fileSize"@, JsonV::Num(u64_num(x.file_size))),
        ("dimensions"@, dims_json(x.dimensions)),
        ("duration"@, jnull_or_num(x.duration)),
        ("thumbnailPath"@, jnull_or_str(x.thumbnail_path))
    ];
    assert(json_wf(media_type_json(x.media_type)));
    assert(json_wf(media_category_json(x.category)));
    lemma_strings_json_wf(x.tags);
    lemma_dims_json_wf(x.dimensions);
    assert(json_wf(jnull_or_num(x.duration)));
    lemma_json_wf_obj_intro(fs);
    assert(media_item_json(x) == JsonV::Obj(fs));
}

/// The wire form of a list: one JSON value per element.
pub open spec fn medias_json(s: Seq<MediaItemV>) -> Seq<JsonV> {
    Seq::new(s.len(), |i: int| media_item_json(s[i]))
}

/// Reading the elements back, from index `k` on.
pub open spec fn medias_of_json(es: Seq<JsonV>, k: int) -> Option<Seq<MediaItemV>>
    decreases es.len() - k,
{
    if k < 0 {
        None
    } else if k >= es.len() {
        Some(Seq::empty())
    } else {
        match (media_item_of_json(es[k]), medias_of_json(es, k + 1)) {
            (Some(x), Some(rest)) => Some(seq![x] + rest),
            _ => None,
        }
    }
}

/// The list stored under a name: empty when absent.
pub open spec fn medias_field(fs: Seq<(Seq<char>, JsonV)>, name: Seq<char>) -> Option<Seq<MediaItemV>> {
    match def_arr(fs, name) {
        Some(es) => medias_of_json(es, 0),
        None => None,
    }
}

fn medias_to_json(v: &Vec<MediaItem>) -> (r: Vec<Json>)
    ensures
        elems_view(r@) == medias_json(medias_view(v@)),
{
    let mut out: Vec<Json> = Vec::new();
    let n = v.len();
    let mut k: usize = 0;
    while k < n
        invariant
            n == v@.len(),
            k <= n,
            out@.len() == k,
            forall|i: int| 0 <= i < k ==> (#[trigger] out@[i])@ == medias_json(medias_view(v@))[i],
        decreases n - k,
    {
        out.push(media_item_to_json(&v[k]));
        k = k + 1;
    }
    proof {
        lemma_elems_view_from(out@, 0);
        assert forall|i: int| 0 <= i < out@.len() implies elems_view(out@)[i] == medias_json(
            medias_view(v@),
        )[i] by {
            assert(elems_view_from(out@, 0)[i - 0] == out@[i]@);
        }
        assert(elems_view(out@) =~= medias_json(medias_view(v@)));
    }
    out
}

fn medias_from_arr(es: &Vec<Json>) -> (r: Option<Vec<MediaItem>>)
    ensures
        match r {
            Some(v) => medias_of_json(elems_view(es@), 0) == Some(medias_view(v@)),
            None => medias_of_json(elems_view(es@), 0) is None,
        },
{
    proof {
        lemma_elems_view_from(es@, 0);
    }
    let ghost esv = elems_view(es@);
    let n = es.len();
    let mut out: Vec<MediaItem> = Vec::new();
    let mut k: usize = 0;
    while k < n
        invariant
            n == es@.len(),
            k <= n,
            esv == elems_view(es@),
            esv.len() == n,
            forall|i: int| 0 <= i < n ==> esv[i] == #[trigger] es@[i]@,
            medias_of_json(esv, 0) == (match medias_of_json(esv, k as int) {
                Some(rest) => Some::<Seq<MediaItemV>>(medias_view(out@) + rest),
                None => None::<Seq<MediaItemV>>,
            }),
        decreases n - k,
    {
        match media_item_from_json(&es[k]) {
            None => {
                proof {
                    assert(media_item_of_json(esv[k as int]) is None);
                    assert(medias_of_json(esv, k as int) is None);
                }
                return None;
            },
            Some(x) => {
                let ghost gx = x@;
                let ghost oldout = out@;
                out.push(x);
                proof {
                    assert(media_item_of_json(esv[k as int]) == Some(gx));
                    assert(medias_view(out@) =~= medias_view(oldout).push(gx));
                    let step = medias_of_json(esv, k + 1);
                    if step is Some {
                        let rest = step->0;
                        assert(medias_view(oldout).push(gx) + rest =~= medias_view(oldout) + (seq![gx]
                            + rest));
                    }
                }
            },
        }
        k = k + 1;
    }
    proof {
        assert(medias_of_json(esv, n as int) == Some(Seq::<MediaItemV>::empty()));
        assert(medias_view(out@) + Seq::<MediaItemV>::empty() =~= medias_view(out@));
    }
    Some(out)
}

proof fn lemma_medias_rt_from(s: Seq<MediaItemV>, k: int)
    requires
        0 <= k <= s.len(),
    ensures
        medias_of_json(medias_json(s), k) == Some(s.subrange(k, s.len() as int)),
    decreases s.len() - k,
{
    let es = medias_json(s);
    if k == s.len() {
        assert(s.subrange(k, s.len() as int) =~= Seq::<MediaItemV>::empty());
    } else {
        assert(es[k] == media_item_json(s[k]));
        lemma_media_item_rt(s[k]);
        lemma_medias_rt_from(s, k + 1);
        assert(seq![s[k]] + s.subrange(k + 1, s.len() as int) =~= s.subrange(k, s.len() as int));
    }
}

/// A list read back from its wire form is the list itself.
pub proof fn lemma_medias_rt(s: Seq<MediaItemV>)
    ensures
        medias_of_json(medias_json(s), 0) == Some(s),
{
    lemma_medias_rt_from(s, 0);
    assert(s.subrange(0, s.len() as int) =~= s);
}

proof fn lemma_medias_json_wf(s: Seq<MediaItemV>)
    requires
        forall|i: int| 0 <= i < s.len() ==> media_wf(#[trigger] s[i]),
    ensures
        json_wf(JsonV::Arr(medias_json(s))),
{
    assert forall|i: int| 0 <= i < medias_json(s).len() implies json_wf(#[trigger] medias_json(s)[i]) by {
        assert(medias_json(s)[i] == media_item_json(s[i]));
        lemma_media_item_json_wf(s[i]);
    }
    lemma_json_wf_arr_intro(medias_json(s));
}

fn get_medias(fs: &Vec<(String, Json)>, name: &str) -> (r: Option<Vec<MediaItem>>)
    ensures
        match r {
            Some(v) => medias_field(fields_view(fs@), name@) == Some(medias_view(v@)),
            None => medias_field(fields_view(fs@), name@) is None,
        },
{
    match lookup_field(fs, name) {
        None => {
            let v: Vec<MediaItem> = Vec::new();
            proof {
                assert(medias_view(v@) =~= Seq::<MediaItemV>::empty());
                assert(medias_of_json(Seq::<JsonV>::empty(), 0) == Some(Seq::<MediaItemV>::empty()));
            }
            Some(v)
        },
        Some(Json::Arr(es)) => medias_from_arr(es),
        Some(_) => None,
    }
}

/// The wire form of a value of `WeddingPlan`.
pub open spec fn plan_json(x: WeddingPlanV) -> JsonV {
    JsonV::Obj(
        seq![
        ("coupleName1"@, JsonV::Str(x.couple_name1)),
        ("coupleName2"@, JsonV::Str(x.couple_name2)),
        ("weddingDate"@, JsonV::Str(x.wedding_date)),
        ("budget"@, JsonV::Num(x.budget)),
        ("todos"@, JsonV::Arr(todos_json(x.todos))),
        ("guests"@, JsonV::Arr(guests_json(x.guests))),
        ("tables"@, JsonV::Arr(tables_json(x.tables))),
        ("wishlist"@, JsonV::Arr(wishes_json(x.wishlist))),
        ("media"@, JsonV::Arr(medias_json(x.media)))
    ],
    )
}

/// Reading a value of `WeddingPlan` back from a JSON value.
pub open spec fn plan_of_json(j: JsonV) -> Option<WeddingPlanV> {
    match j {
        JsonV::Obj(fs) => match req_str(fs, "coupleName1"@) {
            Some(couple_name1) => match req_str(fs, "coupleName2"@) {
                Some(couple_name2) => match req_str(fs, "weddingDate"@) {
                    Some(wedding_date) => match req_num(fs, "budget"@) {
                        Some(budget) => match todos_field(fs, "todos"@) {
                            Some(todos) => match guests_field(fs, "guests"@) {
                                Some(guests) => match tables_field(fs, "tables"@) {
                                    Some(tables) => match wishes_field(fs, "wishlist"@) {
                                        Some(wishlist) => match medias_field(fs, "media"@) {
                                            Some(media) => Some(WeddingPlanV {
                                                couple_name1,
                                                couple_name2,
                                                wedding_date,
                                                budget,
                                                todos,
                                                guests,
                                                tables,
                                                wishlist,
                                                media
                                            }),
                                            None => None,
                                        },
                                        None => None,
                                    },
                                    None => None,
                                },
                                None => None,
                            },
                            None => None,
                        },
                        None => None,
                    },
                    None => None,
                },
                None => None,
            },
            None => None,
        },
        _ => None,
    }
}

#[verifier::rlimit(100)]

fn plan_to_json(x: &WeddingPlan) -> (r: Json)
    ensures
        r@ == plan_json(x@),
{
    let mut fs: Vec<(String, Json)> = Vec::new();
    push_field(&mut fs, "coupleName1", Json::Str(x.couple_name1.clone()));
    push_field(&mut fs, "coupleName2", Json::Str(x.couple_name2.clone()));
    push_field(&mut fs, "weddingDate", Json::Str(x.wedding_date.clone()));
    push_field(&mut fs, "budget", Json::Num(copy_number(&x.budget)));
    push_field(&mut fs, "todos", Json::Arr(todos_to_json(&x.todos)));
    push_field(&mut fs, "guests", Json::Arr(guests_to_json(&x.guests)));
    push_field(&mut fs, "tables", Json::Arr(tables_to_json(&x.tables)));
    push_field(&mut fs, "wishlist", Json::Arr(wishes_to_json(&x.wishlist)));
    push_field(&mut fs, "media", Json::Arr(medias_to_json(&x.media)));
    let r = Json::Obj(fs);
    proof {
        assert(fields_view(Seq::<(String, Json)>::empty()) =~= Seq::<(Seq<char>, JsonV)>::empty());
        assert(fields_view(fs@) =~= seq![
        ("coupleName1"@, JsonV::Str(x@.couple_name1)),
        ("coupleName2"@, JsonV::Str(x@.couple_name2)),
        ("weddingDate"@, JsonV::Str(x@.wedding_date)),
        ("budget"@, JsonV::Num(x@.budget)),
        ("todos"@, JsonV::Arr(todos_json(x@.todos))),
        ("guests"@, JsonV::Arr(guests_json(x@.guests))),
        ("tables"@, JsonV::Arr(tables_json(x@.tables))),
        ("wishlist"@, JsonV::Arr(wishes_json(x@.wishlist))),
        ("media"@, JsonV::Arr(medias_json(x@.media)))
    ]);
        assert(r@ == plan_json(x@));
    }
    r
}

fn plan_from_json(j: &Json) -> (r: Option<WeddingPlan>)
    ensures
        match r {
            Some(x) => plan_of_json(j@) == Some(x@),
            None => plan_of_json(j@) is None,
        },
{
    match j {
        Json::Obj(fs) => {
            let couple_name1 = match get_req_str(fs, "coupleName1") { Some(v) => v, None => { return None; } };
            let couple_name2 = match get_req_str(fs, "coupleName2") { Some(v) => v, None => { return None; } };
            let wedding_date = match get_req_str(fs, "weddingDate") { Some(v) => v, None => { return None; } };
            let budget = match get_req_num(fs, "budget") { Some(v) => v, None => { return None; } };
            let todos = match get_todos(fs, "todos") { Some(v) => v, None => { return None; } };
            let guests = match get_guests(fs, "guests") { Some(v) => v, None => { return None; } };
            let tables = match get_tables(fs, "tables") { Some(v) => v, None => { return None; } };
            let wishlist = match get_wishes(fs, "wishlist") { Some(v) => v, None => { return None; } };
            let media = match get_medias(fs, "media") { Some(v) => v, None => { return None; } };
            let r = WeddingPlan { couple_name1, couple_name2, wedding_date, budget, todos, guests, tables, wishlist, media };
            proof {
                assert(plan_of_json(j@) is Some);
                assert(plan_of_json(j@)->0 =~= r@);
            }
            Some(r)
        },
        _ => None,
    }
}

/// Reading back the wire form of a value of `WeddingPlan` gives the value itself.
#[verifier::rlimit(100)]
pub proof fn lemma_plan_rt(x: WeddingPlanV)
    ensures
        plan_of_json(plan_json(x)) == Some(x),
{
    reveal_strlit("coupleName1");
    reveal_strlit("coupleName2");
    reveal_strlit("weddingDate");
    reveal_strlit("budget");
    reveal_strlit("todos");
    reveal_strlit("guests");
    reveal_strlit("tables");
    reveal_strlit("wishlist");
    reveal_strlit("media");
    let fs = seq![
        ("coupleName1"@, JsonV::Str(x.couple_name1)),
        ("coupleName2"@, JsonV::Str(x.couple_name2)),
        ("weddingDate"@, JsonV::Str(x.wedding_date)),
        ("budget"@, JsonV::Num(x.budget)),
        ("todos"@, JsonV::Arr(todos_json(x.todos))),
        ("guests"@, JsonV::Arr(guests_json(x.guests))),
        ("tables"@, JsonV::Arr(tables_json(x.tables))),
        ("wishlist"@, JsonV::Arr(wishes_json(x.wishlist))),
        ("media"@, JsonV::Arr(medias_json(x.media)))
    ];
    assert(plan_json(x) == JsonV::Obj(fs));
    reveal_with_fuel(lookup_from, 20);
    assert("coupleName2"@ != "coupleName1"@) by { assert("coupleName2"@[10] == '2'); assert("coupleName1"@[10] == '1'); }
    assert("weddingDate"@ != "coupleName1"@) by { assert("weddingDate"@[0] == 'w'); assert("coupleName1"@[0] == 'c'); }
    assert("weddingDate"@ != "coupleName2"@) by { assert("weddingDate"@[0] == 'w'); assert("coupleName2"@[0] == 'c'); }
    assert("budget"@ != "coupleName1"@) by { assert("budget"@.len() == 6); assert("coupleName1"@.len() == 11); }
    assert("budget"@ != "coupleName2"@) by { assert("budget"@.len() == 6); assert("coupleName2"@.len() == 11); }
    assert("budget"@ != "weddingDate"@) by { assert("budget"@.len() == 6); assert("weddingDate"@.len() == 11); }
    assert("todos"@ != "coupleName1"@) by { assert("todos"@.len() == 5); assert("coupleName1"@.len() == 11); }
    assert("todos"@ != "coupleName2"@) by { assert("todos"@.len() == 5); assert("coupleName2"@.len() == 11); }
    assert("todos"@ != "weddingDate"@) by { assert("todos"@.len() == 5); assert("weddingDate"@.len() == 11); }
    assert("todos"@ != "budget"@) by { assert("todos"@.len() == 5); assert("budget"@.len() == 6); }
    assert("guests"@ != "coupleName1"@) by { assert("guests"@.len() == 6); assert("coupleName1"@.len() == 11); }
    assert("guests"@ != "coupleName2"@) by { assert("guests"@.len() == 6); assert("coupleName2"@.len() == 11); }
    assert("guests"@ != "weddingDate"@) by { assert("guests"@.len() == 6); assert("weddingDate"@.len() == 11); }
    assert("guests"@ != "budget"@) by { assert("guests"@[0] == 'g'); assert("budget"@[0] == 'b'); }
    assert("guests"@ != "todos"@) by { assert("guests"@.len() == 6); assert("todos"@.len() == 5); }
    assert("tables"@ != "coupleName1"@) by { assert("tables"@.len() == 6); assert("coupleName1"@.len() == 11); }
    assert("tables"@ != "coupleName2"@) by { assert("tables"@.len() == 6); assert("coupleName2"@.len() == 11); }
    assert("tables"@ != "weddingDate"@) by { assert("tables"@.len() == 6); assert("weddingDate"@.len() == 11); }
    assert("tables"@ != "budget"@) by { assert("tables"@[0] == 't'); assert("budget"@[0] == 'b'); }
    assert("tables"@ != "todos"@) by { assert("tables"@.len() == 6); assert("todos"@.len() == 5); }
    assert("tables"@ != "guests"@) by { assert("tables"@[0] == 't'); assert("guests"@[0] == 'g'); }
    assert("wishlist"@ != "coupleName1"@) by { assert("wishlist"@.len() == 8); assert("coupleName1"@.len() == 11); }
    assert("wishlist"@ != "coupleName2"@) by { assert("wishlist"@.len() == 8); assert("coupleName2"@.len() == 11); }
    assert("wishlist"@ != "weddingDate"@) by { assert("wishlist"@.len() == 8); assert("weddingDate"@.len() == 11); }
    assert("wishlist"@ != "budget"@) by { assert("wishlist"@.len() == 8); assert("budget"@.len() == 6); }
    assert("wishlist"@ != "todos"@) by { assert("wishlist"@.len() == 8); assert("todos"@.len() == 5); }
    assert("wishlist"@ != "guests"@) by { assert("wishlist"@.len() == 8); assert("guests"@.len() == 6); }
    assert("wishlist"@ != "tables"@) by { assert("wishlist"@.len() == 8); assert("tables"@.len() == 6); }
    assert("media"@ != "coupleName1"@) by { assert("media"@.len() == 5); assert("coupleName1"@.len() == 11); }
    assert("media"@ != "coupleName2"@) by { assert("media"@.len() == 5); assert("coupleName2"@.len() == 11); }
    assert("media"@ != "weddingDate"@) by { assert("media"@.len() == 5); assert("weddingDate"@.len() == 11); }
    assert("media"@ != "budget"@) by { assert("media"@.len() == 5); assert("budget"@.len() == 6); }
    assert("media"@ != "todos"@) by { assert("media"@[0] == 'm'); assert("todos"@[0] == 't'); }
    assert("media"@ != "guests"@) by { assert("media"@.len() == 5); assert("guests"@.len() == 6); }
    assert("media"@ != "tables"@) by { assert("media"@.len() == 5); assert("tables"@.len() == 6); }
    assert("media"@ != "wishlist"@) by { assert("media"@.len() == 5); assert("wishlist"@.len() == 8); }
    assert(lookup(fs, "coupleName1"@) == Some(JsonV::Str(x.couple_name1)));
    assert(lookup(fs, "coupleName2"@) == Some(JsonV::Str(x.couple_name2)));
    assert(lookup(fs, "weddingDate"@) == Some(JsonV::Str(x.wedding_date)));
    assert(lookup(fs, "budget"@) == Some(JsonV::Num(x.budget)));
    assert(lookup(fs, "todos"@) == Some(JsonV::Arr(todos_json(x.todos))));
    assert(lookup(fs, "guests"@) == Some(JsonV::Arr(guests_json(x.guests))));
    assert(lookup(fs, "tables"@) == Some(JsonV::Arr(tables_json(x.tables))));
    assert(lookup(fs, "wishlist"@) == Some(JsonV::Arr(wishes_json(x.wishlist))));
    assert(lookup(fs, "media"@) == Some(JsonV::Arr(medias_json(x.media))));
    lemma_todos_rt(x.todos);
    lemma_guests_rt(x.guests);
    lemma_tables_rt(x.tables);
    lemma_wishes_rt(x.wishlist);
    lemma_medias_rt(x.media);
    assert(plan_of_json(plan_json(x)) is Some);
    assert(plan_of_json(plan_json(x))->0 =~= x);
}

proof fn lemma_plan_json_wf_gen(x: WeddingPlanV)
    requires
        plan_wf(x),
    ensures
        json_wf(plan_json(x)),
{
    let fs = seq![
        ("coupleName1"@, JsonV::Str(x.couple_name1)),
        ("coupleName2"@, JsonV::Str(x.couple_name2)),
        ("weddingDate"@, JsonV::Str(x.wedding_date)),
        ("budget"@, JsonV::Num(x.budget)),
        ("todos"@, JsonV::Arr(todos_json(x.todos))),
        ("guests"@, JsonV::Arr(guests_json(x.guests))),
        ("tables"@, JsonV::Arr(tables_json(x.tables))),
        ("wishlist"@, JsonV::Arr(wishes_json(x.wishlist))),
        ("media"@, JsonV::Arr(medias_json(x.media)))
    ];
    assert(json_wf(JsonV::Num(x.budget)));
    lemma_todos_json_wf(x.todos);
    lemma_guests_json_wf(x.guests);
    lemma_tables_json_wf(x.tables);
    lemma_wishes_json_wf(x.wishlist);
    lemma_medias_json_wf(x.media);
    lemma_json_wf_obj_intro(fs);
    assert(plan_json(x) == JsonV::Obj(fs));
}

/// The document text a plan is saved as.
pub open spec fn spec_save(p: WeddingPlanV) -> Seq<char> {
    doc_text(plan_json(p))
}

/// What loading document text yields: the plan, or nothing for text that
/// does not parse against the schema.
pub open spec fn spec_load(s: Seq<char>) -> Option<WeddingPlanV> {
    match parse_doc(s) {
        Some(j) => plan_of_json(j),
        None => None,
    }
}

/// A well-formed plan renders to well-formed JSON.
pub proof fn lemma_plan_json_wf(p: WeddingPlanV)
    requires
        plan_wf(p),
    ensures
        json_wf(plan_json(p)),
{
    lemma_plan_json_wf_gen(p);
}

/// The document text of a plan.
pub fn serialize_plan(plan: &WeddingPlan) -> (r: String)
    requires
        plan.wf(),
    ensures
        r@ == spec_save(plan@),
{
    let j = plan_to_json(plan);
    proof {
        lemma_plan_json_wf(plan@);
    }
    render_json(&j)
}

/// Read a plan back from document text.  Text that does not parse against
/// the schema is a format failure; nothing else fails.
pub fn parse_plan(s: &str) -> (r: Result<WeddingPlan, StoreError>)
    ensures
        match r {
            Ok(p) => spec_load(s@) == Some(p@),
            Err(e) => spec_load(s@) is None && e == StoreError::Format,
        },
{
    match parse_json(s) {
        None => Err(StoreError::Format),
        Some(j) => match plan_from_json(&j) {
            Some(p) => Ok(p),
            None => Err(StoreError::Format),
        },
    }
}

/// Saving a plan and loading the text back reproduces every field of the
/// plan.
pub proof fn lemma_save_load_round_trip(p: WeddingPlanV)
    requires
        plan_wf(p),
    ensures
        spec_load(spec_save(p)) == Some(p),
{
    lemma_plan_json_wf(p);
    lemma_doc_round_trip(plan_json(p));
    lemma_plan_rt(p);
}

/// A document whose collections are absent loads them as empty: older
/// documents gain the new collections without failing.
pub proof fn lemma_missing_collections_default(fs: Seq<(Seq<char>, JsonV)>, p: WeddingPlanV)
    requires
        plan_of_json(JsonV::Obj(fs)) == Some(p),
    ensures
        lookup(fs, "guests"@) is None ==> p.guests == Seq::<GuestV>::empty(),
        lookup(fs, "tables"@) is None ==> p.tables == Seq::<TableV>::empty(),
        lookup(fs, "wishlist"@) is None ==> p.wishlist == Seq::<WishlistItemV>::empty(),
        lookup(fs, "media"@) is None ==> p.media == Seq::<MediaItemV>::empty(),
{
}

/// A document of an older schema revision — its required fields present
/// and valid, the later collections absent — loads without failing.
pub proof fn lemma_older_document_loads(fs: Seq<(Seq<char>, JsonV)>)
    requires
        req_str(fs, "coupleName1"@) is Some,
        req_str(fs, "coupleName2"@) is Some,
        req_str(fs, "weddingDate"@) is Some,
        req_num(fs, "budget"@) is Some,
        todos_field(fs, "todos"@) is Some,
        lookup(fs, "guests"@) is None,
        lookup(fs, "tables"@) is None,
        lookup(fs, "wishlist"@) is None,
        lookup(fs, "media"@) is None,
    ensures
        plan_of_json(JsonV::Obj(fs)) is Some,
        plan_of_json(JsonV::Obj(fs))->0.guests == Seq::<GuestV>::empty(),
        plan_of_json(JsonV::Obj(fs))->0.tables == Seq::<TableV>::empty(),
        plan_of_json(JsonV::Obj(fs))->0.wishlist == Seq::<WishlistItemV>::empty(),
        plan_of_json(JsonV::Obj(fs))->0.media == Seq::<MediaItemV>::empty(),
{
    assert(guests_of_json(Seq::<JsonV>::empty(), 0) == Some(Seq::<GuestV>::empty()));
    assert(tables_of_json(Seq::<JsonV>::empty(), 0) == Some(Seq::<TableV>::empty()));
    assert(wishes_of_json(Seq::<JsonV>::empty(), 0) == Some(Seq::<WishlistItemV>::empty()));
    assert(medias_of_json(Seq::<JsonV>::empty(), 0) == Some(Seq::<MediaItemV>::empty()));
}

/// A stored guest without an answer is pending.
pub proof fn lemma_rsvp_defaults_pending(fs: Seq<(Seq<char>, JsonV)>, g: GuestV)
    requires
        guest_of_json(JsonV::Obj(fs)) == Some(g),
        lookup(fs, "rsvpStatus"@) is None,
    ensures
        g.rsvp_status == RSVPStatus::Pending,
{
}

/// A stored table without a shape is round.
pub proof fn lemma_shape_defaults_round(fs: Seq<(Seq<char>, JsonV)>, t: TableV)
    requires
        table_of_json(JsonV::Obj(fs)) == Some(t),
        lookup(fs, "shape"@) is None,
    ensures
        t.shape == TableShape::Round,
{
}

/// A stored wish without a status is available.
pub proof fn lemma_wish_defaults_available(fs: Seq<(Seq<char>, JsonV)>, w: WishlistItemV)
    requires
        wish_of_json(JsonV::Obj(fs)) == Some(w),
        lookup(fs, "status"@) is None,
    ensures
        w.status == WishStatus::Available,
{
}

} // verus!
