use vstd::prelude::*;

use crate::projects::changes::{parse_i64, parse_i64_text};
use crate::text::chars_of;

verus! {

/// A field value of the editable tables, as far as the readers of ids look
/// into it; `Other` stands for every other kind of value.
pub enum CrudValue {
    I64(i64),
    I32(i32),
    I16(i16),
    I8(i8),
    U64(u64),
    U32(u32),
    U16(u16),
    U8(u8),
    Text(String),
    Null,
    Void,
    Other,
}

/// The integer a field value stands for: any integer that fits in `i64`, or a
/// text that parses as one.
pub open spec fn crud_value_i64(v: CrudValue) -> Option<i64> {
    match v {
        CrudValue::I64(x) => Some(x),
        CrudValue::I32(x) => Some(x as i64),
        CrudValue::I16(x) => Some(x as i64),
        CrudValue::I8(x) => Some(x as i64),
        CrudValue::U64(x) => if x <= i64::MAX {
            Some(x as i64)
        } else {
            None
        },
        CrudValue::U32(x) => Some(x as i64),
        CrudValue::U16(x) => Some(x as i64),
        CrudValue::U8(x) => Some(x as i64),
        CrudValue::Text(s) => parse_i64(s@),
        CrudValue::Null | CrudValue::Void | CrudValue::Other => None,
    }
}

/// The integer a field value stands for, if any.
pub fn value_to_optional_i64(value: &CrudValue) -> (r: Option<i64>)
    ensures
        r == crud_value_i64(*value),
{
    match value {
        CrudValue::I64(x) => Some(*x),
        CrudValue::I32(x) => Some(*x as i64),
        CrudValue::I16(x) => Some(*x as i64),
        CrudValue::I8(x) => Some(*x as i64),
        CrudValue::U64(x) => if *x <= 9223372036854775807u64 {
            Some(*x as i64)
        } else {
            None
        },
        CrudValue::U32(x) => Some(*x as i64),
        CrudValue::U16(x) => Some(*x as i64),
        CrudValue::U8(x) => Some(*x as i64),
        CrudValue::Text(s) => {
            let cs = chars_of(s.as_str());
            assert(cs@.skip(0) =~= s@);
            parse_i64_text(&cs, 0)
        },
        CrudValue::Null | CrudValue::Void | CrudValue::Other => None,
    }
}

/// The value of one part of a row id; `Other` stands for the kinds that are
/// no signed integer.
pub enum IdValue {
    I64(i64),
    I32(i32),
    I16(i16),
    I8(i8),
    Other,
}

/// One part of a row id: a field name and its value.
pub struct IdEntry {
    pub field_name: String,
    pub value: IdValue,
}

/// The signed integer an id value holds, widened to `i64`.
pub open spec fn id_value_i64(v: IdValue) -> Option<i64> {
    match v {
        IdValue::I64(x) => Some(x),
        IdValue::I32(x) => Some(x as i64),
        IdValue::I16(x) => Some(x as i64),
        IdValue::I8(x) => Some(x as i64),
        IdValue::Other => None,
    }
}

/// The first signed integer among the parts of an id.
pub open spec fn first_i64_id(s: Seq<IdEntry>) -> Option<i64>
    decreases s.len(),
{
    if s.len() == 0 {
        None
    } else if id_value_i64(s[0].value) is Some {
        id_value_i64(s[0].value)
    } else {
        first_i64_id(s.drop_first())
    }
}

/// The integer id of a row: the first part of its id that holds a signed
/// integer.
pub fn serializable_i64_id(id: &Vec<IdEntry>) -> (r: Option<i64>)
    ensures
        r == first_i64_id(id@),
{
    let mut i: usize = 0;
    assert(id@.skip(0) =~= id@);
    while i < id.len()
        invariant
            i <= id.len(),
            first_i64_id(id@) == first_i64_id(id@.skip(i as int)),
        decreases id.len() - i,
    {
        assert(id@.skip(i as int)[0] == id@[i as int]);
        let found = match &id[i].value {
            IdValue::I64(x) => Some(*x),
            IdValue::I32(x) => Some(*x as i64),
            IdValue::I16(x) => Some(*x as i64),
            IdValue::I8(x) => Some(*x as i64),
            IdValue::Other => None,
        };
        if found.is_some() {
            return found;
        }
        assert(id@.skip(i as int).drop_first() =~= id@.skip(i + 1));
        i = i + 1;
    }
    None
}

/// The id of a row whose id is the single field `id`.
pub fn crudkit_i64_id(id: i64) -> (r: Vec<IdEntry>)
    ensures
        r.len() == 1,
        r[0].field_name@ == "id"@,
        r[0].value == IdValue::I64(id),
{
    let mut v: Vec<IdEntry> = Vec::new();
    v.push(IdEntry { field_name: String::from_str("id"), value: IdValue::I64(id) });
    v
}

/// The integer id of a row made by `crudkit_i64_id` is the integer it was made from.
pub proof fn lemma_crudkit_id_round_trip(id: i64, entries: Seq<IdEntry>)
    requires
        entries.len() == 1,
        entries[0].value == IdValue::I64(id),
    ensures
        first_i64_id(entries) == Some(id),
{
}

/// What the table of a page shows: its list, the form for a new row, or one
/// row, read or edited.
pub enum CrudView {
    List,
    Create,
    Read(Vec<IdEntry>),
    Edit(Vec<IdEntry>),
}

/// The row that a table view has selected, by its integer id.
pub open spec fn selected_row_id(view: CrudView) -> Option<i64> {
    match view {
        CrudView::Read(id) | CrudView::Edit(id) => first_i64_id(id@),
        CrudView::List | CrudView::Create => None,
    }
}

/// The id of the trigger that a table view shows, if it shows one.
pub fn selected_trigger_id(view: &CrudView) -> (r: Option<i64>)
    ensures
        r == selected_row_id(*view),
{
    match view {
        CrudView::Read(id) | CrudView::Edit(id) => serializable_i64_id(id),
        CrudView::List | CrudView::Create => None,
    }
}

} // verus!
