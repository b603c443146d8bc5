use vstd::prelude::*;

use crate::filter::matching::{condition_holds, item_matches_condition, labels_view, ItemLabel};
use crate::filter::model::Condition;
use crate::text::{chars_of, str_eq};

verus! {

broadcast use vstd::std_specs::vec::group_vec_axioms;

/// `a` comes before `b` in the order `str` and `String` compare in: by
/// characters from the left (the order of their UTF-8 bytes), a proper
/// prefix first.
pub open spec fn lex_less(a: Seq<char>, b: Seq<char>) -> bool
    decreases a.len(),
{
    if a.len() == 0 {
        b.len() > 0
    } else if b.len() == 0 {
        false
    } else if a[0] != b[0] {
        a[0] < b[0]
    } else {
        lex_less(a.drop_first(), b.drop_first())
    }
}

/// Whether `a` comes before `b` in text order.
pub fn text_less(a: &Vec<char>, b: &Vec<char>) -> (r: bool)
    ensures
        r == lex_less(a@, b@),
{
    let mut i: usize = 0;
    assert(a@.skip(0) =~= a@);
    assert(b@.skip(0) =~= b@);
    while i < a.len() && i < b.len()
        invariant
            i <= a.len(),
            i <= b.len(),
            lex_less(a@, b@) == lex_less(a@.skip(i as int), b@.skip(i as int)),
        decreases a.len() - i,
    {
        let ghost sa = a@.skip(i as int);
        let ghost sb = b@.skip(i as int);
        assert(sa[0] == a@[i as int]);
        assert(sb[0] == b@[i as int]);
        if a[i] != b[i] {
            return a[i] < b[i];
        }
        assert(sa.drop_first() =~= a@.skip(i + 1));
        assert(sb.drop_first() =~= b@.skip(i + 1));
        i = i + 1;
    }
    i == a.len() && i < b.len()
}

/// `str::to_lowercase`: the Unicode lower case of a text.
pub uninterp spec fn lowercase(s: Seq<char>) -> Seq<char>;

/// `str::to_lowercase`: the full Unicode lower-case mapping; what it gives
/// for each text is left to the standard library and only named here.
#[verifier::external_body]
fn to_lowercase(s: &str) -> (r: String)
    ensures
        r@ == lowercase(s@),
{
    s.to_lowercase()
}

/// A work item as a board lane shows it.
#[derive(Clone, Debug)]
pub struct LaneItem {
    pub id: i64,
    pub title: String,
    pub created_at: String,
    pub updated_at: String,
    pub labels: Vec<ItemLabel>,
}

/// The mathematical value of a lane item.
pub struct LaneItemModel {
    pub id: i64,
    pub title: Seq<char>,
    pub created_at: Seq<char>,
    pub updated_at: Seq<char>,
    pub labels: Seq<(Seq<char>, Option<Seq<char>>)>,
}

impl View for LaneItem {
    type V = LaneItemModel;

    open spec fn view(&self) -> LaneItemModel {
        LaneItemModel {
            id: self.id,
            title: self.title@,
            created_at: self.created_at@,
            updated_at: self.updated_at@,
            labels: labels_view(self.labels@),
        }
    }
}

/// The mathematical values of lane items.
pub open spec fn lane_items_view(v: Seq<LaneItem>) -> Seq<LaneItemModel> {
    v.map_values(|x: LaneItem| x@)
}

/// The orders a swim lane can show its items in.
#[derive(Clone, Copy, Debug, PartialEq, Eq, Structural)]
pub enum LaneOrder {
    UpdatedDesc,
    UpdatedAsc,
    CreatedDesc,
    CreatedAsc,
    IdDesc,
    IdAsc,
    TitleAsc,
    TitleDesc,
}

/// The order a lane's stored order name stands for; unknown names sort by
/// most recently updated.
pub open spec fn lane_order_of(name: Seq<char>) -> LaneOrder {
    if name == "updated_asc"@ {
        LaneOrder::UpdatedAsc
    } else if name == "created_desc"@ {
        LaneOrder::CreatedDesc
    } else if name == "created_asc"@ {
        LaneOrder::CreatedAsc
    } else if name == "id_desc"@ {
        LaneOrder::IdDesc
    } else if name == "id_asc"@ {
        LaneOrder::IdAsc
    } else if name == "title_asc"@ {
        LaneOrder::TitleAsc
    } else if name == "title_desc"@ {
        LaneOrder::TitleDesc
    } else {
        LaneOrder::UpdatedDesc
    }
}

/// The order a lane's stored order name stands for.
pub fn parse_lane_order(name: &str) -> (o: LaneOrder)
    ensures
        o == lane_order_of(name@),
{
    if str_eq(name, "updated_asc") {
        LaneOrder::UpdatedAsc
    } else if str_eq(name, "created_desc") {
        LaneOrder::CreatedDesc
    } else if str_eq(name, "created_asc") {
        LaneOrder::CreatedAsc
    } else if str_eq(name, "id_desc") {
        LaneOrder::IdDesc
    } else if str_eq(name, "id_asc") {
        LaneOrder::IdAsc
    } else if str_eq(name, "title_asc") {
        LaneOrder::TitleAsc
    } else if str_eq(name, "title_desc") {
        LaneOrder::TitleDesc
    } else {
        LaneOrder::UpdatedDesc
    }
}

/// `(x, i)` before `(y, j)`: by the text, then by the id.
pub open spec fn key_less(x: Seq<char>, i: i64, y: Seq<char>, j: i64) -> bool {
    lex_less(x, y) || (x == y && i < j)
}

/// Whether item `a` goes strictly before item `b` in a lane sorted by `order`.
pub open spec fn item_less(order: LaneOrder, a: LaneItemModel, b: LaneItemModel) -> bool {
    match order {
        LaneOrder::UpdatedAsc => key_less(a.updated_at, a.id, b.updated_at, b.id),
        LaneOrder::UpdatedDesc => key_less(b.updated_at, b.id, a.updated_at, a.id),
        LaneOrder::CreatedAsc => key_less(a.created_at, a.id, b.created_at, b.id),
        LaneOrder::CreatedDesc => key_less(b.created_at, b.id, a.created_at, a.id),
        LaneOrder::IdAsc => a.id < b.id,
        LaneOrder::IdDesc => b.id < a.id,
        LaneOrder::TitleAsc => key_less(lowercase(a.title), a.id, lowercase(b.title), b.id),
        LaneOrder::TitleDesc => key_less(lowercase(b.title), b.id, lowercase(a.title), a.id),
    }
}

/// Where a stable insertion puts `x` into `s`: before the first item that
/// `x` goes strictly before, after every other.
pub open spec fn insert_index(order: LaneOrder, s: Seq<LaneItemModel>, x: LaneItemModel) -> int
    decreases s.len(),
{
    if s.len() == 0 {
        0
    } else if item_less(order, x, s[0]) {
        0
    } else {
        1 + insert_index(order, s.drop_first(), x)
    }
}

/// The items sorted by `order`, keeping the given order of items that
/// neither goes before the other (a stable sort).
pub open spec fn stable_sort(order: LaneOrder, s: Seq<LaneItemModel>) -> Seq<LaneItemModel>
    decreases s.len(),
{
    if s.len() == 0 {
        s
    } else {
        let sorted = stable_sort(order, s.drop_last());
        sorted.insert(insert_index(order, sorted, s.last()), s.last())
    }
}

proof fn lemma_insert_index_bounds(order: LaneOrder, s: Seq<LaneItemModel>, x: LaneItemModel)
    ensures
        0 <= insert_index(order, s, x) <= s.len(),
        forall|k: int| 0 <= k < insert_index(order, s, x) ==> !item_less(order, x, #[trigger] s[k]),
        insert_index(order, s, x) < s.len() ==> item_less(order, x, s[insert_index(order, s, x)]),
    decreases s.len(),
{
    if s.len() > 0 && !item_less(order, x, s[0]) {
        lemma_insert_index_bounds(order, s.drop_first(), x);
        assert forall|k: int| 0 <= k < insert_index(order, s, x) implies !item_less(order, x, #[trigger] s[k]) by {
            if k > 0 {
                assert(s[k] == s.drop_first()[k - 1]);
            }
        }
    }
}

/// Whether item `a` goes strictly before item `b`.
fn lane_item_less(order: LaneOrder, a: &LaneItem, b: &LaneItem) -> (r: bool)
    ensures
        r == item_less(order, a@, b@),
{
    match order {
        LaneOrder::IdAsc => a.id < b.id,
        LaneOrder::IdDesc => b.id < a.id,
        _ => {
            let (x, i, y, j) = match order {
                LaneOrder::UpdatedAsc => (chars_of(a.updated_at.as_str()), a.id, chars_of(b.updated_at.as_str()), b.id),
                LaneOrder::UpdatedDesc => (chars_of(b.updated_at.as_str()), b.id, chars_of(a.updated_at.as_str()), a.id),
                LaneOrder::CreatedAsc => (chars_of(a.created_at.as_str()), a.id, chars_of(b.created_at.as_str()), b.id),
                LaneOrder::CreatedDesc => (chars_of(b.created_at.as_str()), b.id, chars_of(a.created_at.as_str()), a.id),
                LaneOrder::TitleAsc => {
                    let la = to_lowercase(a.title.as_str());
                    let lb = to_lowercase(b.title.as_str());
                    (chars_of(la.as_str()), a.id, chars_of(lb.as_str()), b.id)
                },
                _ => {
                    let la = to_lowercase(a.title.as_str());
                    let lb = to_lowercase(b.title.as_str());
                    (chars_of(lb.as_str()), b.id, chars_of(la.as_str()), a.id)
                },
            };
            text_less(&x, &y) || (crate::text::chars_eq(&x, &y) && i < j)
        },
    }
}

fn copy_labels(ls: &Vec<ItemLabel>) -> (r: Vec<ItemLabel>)
    ensures
        labels_view(r@) == labels_view(ls@),
{
    let mut r: Vec<ItemLabel> = Vec::new();
    let mut i: usize = 0;
    while i < ls.len()
        invariant
            i <= ls.len(),
            labels_view(r@) == labels_view(ls@).take(i as int),
        decreases ls.len() - i,
    {
        let l = ItemLabel {
            key: crate::text::copy_string(&ls[i].key),
            value: match &ls[i].value {
                Some(v) => Some(crate::text::copy_string(v)),
                None => None,
            },
        };
        let ghost before = labels_view(r@);
        r.push(l);
        assert(labels_view(r@) =~= before.push(ls@[i as int]@));
        assert(labels_view(ls@).take(i + 1) =~= labels_view(ls@).take(i as int).push(ls@[i as int]@));
        i = i + 1;
    }
    assert(labels_view(ls@).take(ls.len() as int) =~= labels_view(ls@));
    r
}

} // verus!

verus! {

/// `insert_index` is the first position whose item `x` goes before.
proof fn lemma_insert_index_is_first(order: LaneOrder, s: Seq<LaneItemModel>, x: LaneItemModel, p: int)
    requires
        0 <= p <= s.len(),
        forall|q: int| 0 <= q < p ==> !item_less(order, x, #[trigger] s[q]),
        p < s.len() ==> item_less(order, x, s[p]),
    ensures
        insert_index(order, s, x) == p,
    decreases s.len(),
{
    if s.len() > 0 && p > 0 {
        assert(!item_less(order, x, s[0]));
        assert forall|q: int| 0 <= q < p - 1 implies !item_less(order, x, #[trigger] s.drop_first()[q]) by {
            assert(s.drop_first()[q] == s[q + 1]);
        }
        if p - 1 < s.drop_first().len() {
            assert(s.drop_first()[p - 1] == s[p]);
        }
        lemma_insert_index_is_first(order, s.drop_first(), x, p - 1);
    }
}

/// Sorts lane items by `order`, keeping the given order of items that
/// neither goes before the other.
pub fn sort_items_by(items: Vec<LaneItem>, order: LaneOrder) -> (r: Vec<LaneItem>)
    ensures
        lane_items_view(r@) == stable_sort(order, lane_items_view(items@)),
{
    let ghost orig = lane_items_view(items@);
    let mut rest = items;
    let mut out: Vec<LaneItem> = Vec::new();
    let ghost mut k: int = 0;
    assert(orig.take(0) =~= Seq::<LaneItemModel>::empty());
    assert(lane_items_view(out@) =~= Seq::<LaneItemModel>::empty());
    assert(orig.skip(0) =~= orig);
    while rest.len() > 0
        invariant
            0 <= k <= orig.len(),
            orig.len() == k + rest@.len(),
            lane_items_view(rest@) == orig.skip(k),
            lane_items_view(out@) == stable_sort(order, orig.take(k)),
        decreases rest.len(),
    {
        let ghost before = rest@;
        let x = rest.remove(0);
        assert(x == before[0]);
        assert(lane_items_view(before)[0] == before[0]@);
        assert(orig.skip(k)[0] == orig[k]);
        assert(x@ == orig[k]);
        assert(rest@ =~= before.subrange(1, before.len() as int));
        assert(lane_items_view(rest@) =~= orig.skip(k + 1)) by {
            assert forall|j: int| 0 <= j < rest@.len() implies lane_items_view(rest@)[j] == orig.skip(k + 1)[j] by {
                assert(rest@[j] == before[j + 1]);
                assert(lane_items_view(before)[j + 1] == before[j + 1]@);
                assert(orig.skip(k)[j + 1] == orig[k + 1 + j]);
            }
        }
        let ghost sorted = lane_items_view(out@);
        let mut p: usize = 0;
        while p < out.len() && !lane_item_less(order, &x, &out[p])
            invariant
                p <= out.len(),
                sorted == lane_items_view(out@),
                forall|q: int| 0 <= q < p ==> !item_less(order, x@, #[trigger] sorted[q]),
            decreases out.len() - p,
        {
            assert(sorted[p as int] == out@[p as int]@);
            p = p + 1;
        }
        proof {
            if p < out.len() {
                assert(sorted[p as int] == out@[p as int]@);
            }
            lemma_insert_index_is_first(order, sorted, x@, p as int);
            assert(orig.take(k + 1).drop_last() =~= orig.take(k));
            assert(orig.take(k + 1).last() == x@);
        }
        out.insert(p, x);
        proof {
            assert(lane_items_view(out@) =~= sorted.insert(p as int, x@));
            k = k + 1;
        }
    }
    assert(orig.take(k) =~= orig);
    out
}

/// Sorts the items of a lane by the lane's stored order name.
pub fn sort_lane_items(items: &mut Vec<LaneItem>, item_order: &str)
    ensures
        lane_items_view(final(items)@) == stable_sort(lane_order_of(item_order@), lane_items_view(old(items)@)),
{
    let order = parse_lane_order(item_order);
    let mut taken: Vec<LaneItem> = Vec::new();
    std::mem::swap(items, &mut taken);
    let sorted = sort_items_by(taken, order);
    *items = sorted;
}

/// The items whose labels meet `condition`, in the given order.
pub open spec fn matching_items(s: Seq<LaneItemModel>, condition: crate::filter::model::SpecCondition) -> Seq<LaneItemModel>
    decreases s.len(),
{
    if s.len() == 0 {
        s
    } else {
        let rest = matching_items(s.drop_last(), condition);
        if condition_holds(s.last().labels, condition) {
            rest.push(s.last())
        } else {
            rest
        }
    }
}

fn copy_lane_item(item: &LaneItem) -> (r: LaneItem)
    ensures
        r@ == item@,
{
    LaneItem {
        id: item.id,
        title: crate::text::copy_string(&item.title),
        created_at: crate::text::copy_string(&item.created_at),
        updated_at: crate::text::copy_string(&item.updated_at),
        labels: copy_labels(&item.labels),
    }
}

/// The items a swim lane shows: those whose labels meet the lane's filter,
/// sorted by the lane's order.
pub fn lane_items(items: &Vec<LaneItem>, filter: &Condition, item_order: &str) -> (r: Vec<LaneItem>)
    ensures
        lane_items_view(r@) == stable_sort(lane_order_of(item_order@), matching_items(lane_items_view(items@), filter@)),
{
    let ghost iv = lane_items_view(items@);
    let mut picked: Vec<LaneItem> = Vec::new();
    let mut i: usize = 0;
    while i < items.len()
        invariant
            i <= items.len(),
            iv == lane_items_view(items@),
            lane_items_view(picked@) == matching_items(iv.take(i as int), filter@),
        decreases items.len() - i,
    {
        assert(iv.take(i + 1).drop_last() =~= iv.take(i as int));
        assert(iv.take(i + 1).last() == items@[i as int]@);
        if item_matches_condition(&items[i].labels, filter) {
            let c = copy_lane_item(&items[i]);
            let ghost before = lane_items_view(picked@);
            picked.push(c);
            assert(lane_items_view(picked@) =~= before.push(items@[i as int]@));
        }
        i = i + 1;
    }
    assert(iv.take(items.len() as int) =~= iv);
    let order = parse_lane_order(item_order);
    sort_items_by(picked, order)
}

/// The board's warning about items in no swim lane.
pub open spec fn misconfigured_text(count: i64) -> Seq<char> {
    crate::text::int_text(count as int) + (if count == 1 { " item has"@ } else { " items have"@ })
        + " an unknown or missing state."@
}

/// The board's warning about items in no swim lane, where there are any.
pub fn misconfigured_items_message(count: i64) -> (r: Option<String>)
    ensures
        count > 0 ==> (r matches Some(m) && m@ == misconfigured_text(count)),
        count <= 0 ==> r is None,
{
    if count <= 0 {
        return None;
    }
    let mut s = String::new();
    crate::text::push_int(&mut s, count);
    if count == 1 {
        s.append(" item has");
    } else {
        s.append(" items have");
    }
    s.append(" an unknown or missing state.");
    Some(s)
}

} // verus!

verus! {

/// Text order is irreflexive, transitive and total.
pub proof fn lemma_lex_less_order(a: Seq<char>, b: Seq<char>, c: Seq<char>)
    ensures
        !lex_less(a, a),
        lex_less(a, b) && lex_less(b, c) ==> lex_less(a, c),
        a != b ==> lex_less(a, b) || lex_less(b, a),
        !(lex_less(a, b) && lex_less(b, a)),
    decreases a.len(),
{
    if a.len() > 0 {
        lemma_lex_less_order(a.drop_first(), a.drop_first(), a.drop_first());
        if b.len() > 0 {
            if c.len() > 0 {
                lemma_lex_less_order(a.drop_first(), b.drop_first(), c.drop_first());
            } else {
                lemma_lex_less_order(a.drop_first(), b.drop_first(), b.drop_first());
            }
            if a != b && a[0] == b[0] {
                assert(a.drop_first() != b.drop_first()) by {
                    if a.drop_first() == b.drop_first() {
                        assert(a =~= seq![a[0]] + a.drop_first());
                        assert(b =~= seq![b[0]] + b.drop_first());
                    }
                }
            }
        }
    } else if b.len() == 0 {
        assert(a =~= b);
    }
}

/// `key_less` is a strict total order on (text, id) pairs.
pub proof fn lemma_key_less_order(x: Seq<char>, i: i64, y: Seq<char>, j: i64, z: Seq<char>, k: i64)
    ensures
        !key_less(x, i, x, i),
        key_less(x, i, y, j) && key_less(y, j, z, k) ==> key_less(x, i, z, k),
        (x != y || i != j) ==> key_less(x, i, y, j) || key_less(y, j, x, i),
        !(key_less(x, i, y, j) && key_less(y, j, x, i)),
{
    lemma_lex_less_order(x, y, z);
    lemma_lex_less_order(y, x, z);
    lemma_lex_less_order(x, x, x);
}

/// The order of a lane is a strict weak order: irreflexive, transitive, and
/// items that neither goes before the other stay so along a chain.
pub proof fn lemma_item_less_weak_order(order: LaneOrder, a: LaneItemModel, b: LaneItemModel, c: LaneItemModel)
    ensures
        !item_less(order, a, a),
        item_less(order, a, b) && item_less(order, b, c) ==> item_less(order, a, c),
        !item_less(order, a, b) && !item_less(order, b, c) ==> !item_less(order, a, c),
{
    match order {
        LaneOrder::UpdatedAsc => {
            lemma_key_less_order(a.updated_at, a.id, b.updated_at, b.id, c.updated_at, c.id);
            lemma_key_less_order(c.updated_at, c.id, b.updated_at, b.id, a.updated_at, a.id);
            lemma_key_less_order(a.updated_at, a.id, c.updated_at, c.id, b.updated_at, b.id);
            lemma_key_less_order(b.updated_at, b.id, a.updated_at, a.id, c.updated_at, c.id);
            lemma_key_less_order(c.updated_at, c.id, a.updated_at, a.id, b.updated_at, b.id);
        },
        LaneOrder::UpdatedDesc => {
            lemma_key_less_order(a.updated_at, a.id, b.updated_at, b.id, c.updated_at, c.id);
            lemma_key_less_order(c.updated_at, c.id, b.updated_at, b.id, a.updated_at, a.id);
            lemma_key_less_order(a.updated_at, a.id, c.updated_at, c.id, b.updated_at, b.id);
            lemma_key_less_order(b.updated_at, b.id, a.updated_at, a.id, c.updated_at, c.id);
            lemma_key_less_order(c.updated_at, c.id, a.updated_at, a.id, b.updated_at, b.id);
        },
        LaneOrder::CreatedAsc => {
            lemma_key_less_order(a.created_at, a.id, b.created_at, b.id, c.created_at, c.id);
            lemma_key_less_order(c.created_at, c.id, b.created_at, b.id, a.created_at, a.id);
            lemma_key_less_order(a.created_at, a.id, c.created_at, c.id, b.created_at, b.id);
            lemma_key_less_order(b.created_at, b.id, a.created_at, a.id, c.created_at, c.id);
            lemma_key_less_order(c.created_at, c.id, a.created_at, a.id, b.created_at, b.id);
        },
        LaneOrder::CreatedDesc => {
            lemma_key_less_order(a.created_at, a.id, b.created_at, b.id, c.created_at, c.id);
            lemma_key_less_order(c.created_at, c.id, b.created_at, b.id, a.created_at, a.id);
            lemma_key_less_order(a.created_at, a.id, c.created_at, c.id, b.created_at, b.id);
            lemma_key_less_order(b.created_at, b.id, a.created_at, a.id, c.created_at, c.id);
            lemma_key_less_order(c.created_at, c.id, a.created_at, a.id, b.created_at, b.id);
        },
        LaneOrder::IdAsc => {},
        LaneOrder::IdDesc => {},
        LaneOrder::TitleAsc => {
            let (x, y, z) = (lowercase(a.title), lowercase(b.title), lowercase(c.title));
            lemma_key_less_order(x, a.id, y, b.id, z, c.id);
            lemma_key_less_order(z, c.id, y, b.id, x, a.id);
            lemma_key_less_order(x, a.id, z, c.id, y, b.id);
            lemma_key_less_order(y, b.id, x, a.id, z, c.id);
            lemma_key_less_order(z, c.id, x, a.id, y, b.id);
        },
        LaneOrder::TitleDesc => {
            let (x, y, z) = (lowercase(a.title), lowercase(b.title), lowercase(c.title));
            lemma_key_less_order(x, a.id, y, b.id, z, c.id);
            lemma_key_less_order(z, c.id, y, b.id, x, a.id);
            lemma_key_less_order(x, a.id, z, c.id, y, b.id);
            lemma_key_less_order(y, b.id, x, a.id, z, c.id);
            lemma_key_less_order(z, c.id, x, a.id, y, b.id);
        },
    }
}

/// No item of `s` goes before an earlier one.
pub open spec fn in_lane_order(order: LaneOrder, s: Seq<LaneItemModel>) -> bool {
    forall|i: int, j: int| 0 <= i < j < s.len() ==> !item_less(order, #[trigger] s[j], #[trigger] s[i])
}

proof fn lemma_insert_keeps_order(order: LaneOrder, s: Seq<LaneItemModel>, x: LaneItemModel)
    requires
        in_lane_order(order, s),
    ensures
        in_lane_order(order, s.insert(insert_index(order, s, x), x)),
{
    lemma_insert_index_bounds(order, s, x);
    let p = insert_index(order, s, x);
    let t = s.insert(p, x);
    assert forall|i: int, j: int| 0 <= i < j < t.len() implies !item_less(order, #[trigger] t[j], #[trigger] t[i]) by {
        if j < p {
            assert(t[i] == s[i] && t[j] == s[j]);
        } else if j == p {
            assert(t[i] == s[i]);
            assert(t[j] == x);
        } else if i == p {
            assert(t[j] == s[j - 1]);
            assert(item_less(order, x, s[p]));
            if item_less(order, s[j - 1], x) {
                lemma_item_less_weak_order(order, s[j - 1], x, s[p]);
                if j - 1 > p {
                    assert(!item_less(order, s[j - 1], s[p]));
                } else {
                    lemma_item_less_weak_order(order, x, x, x);
                    lemma_item_less_weak_order(order, s[p], x, s[p]);
                }
            }
        } else if i < p {
            assert(t[i] == s[i]);
            assert(t[j] == s[j - 1]);
        } else {
            assert(t[i] == s[i - 1]);
            assert(t[j] == s[j - 1]);
        }
    }
}

/// Law: a lane's items come out in the lane's order, and no item is gained
/// or lost.
pub proof fn lemma_stable_sort_sorted(order: LaneOrder, s: Seq<LaneItemModel>)
    ensures
        in_lane_order(order, stable_sort(order, s)),
        stable_sort(order, s).to_multiset() == s.to_multiset(),
    decreases s.len(),
{
    broadcast use vstd::seq_lib::group_to_multiset_ensures;
    if s.len() > 0 {
        let init = s.drop_last();
        lemma_stable_sort_sorted(order, init);
        let sorted = stable_sort(order, init);
        lemma_insert_keeps_order(order, sorted, s.last());
        lemma_insert_index_bounds(order, sorted, s.last());
        let p = insert_index(order, sorted, s.last());
        let t = sorted.insert(p, s.last());
        assert(t.remove(p) =~= sorted);
        assert(t[p] == s.last());
        assert(t.to_multiset().remove(s.last()) =~= sorted.to_multiset());
        assert(t.to_multiset().count(s.last()) > 0) by {
            assert(t.contains(s.last()));
        }
        assert(t.to_multiset() =~= sorted.to_multiset().insert(s.last()));
        assert(init.push(s.last()) =~= s);
        assert(s.to_multiset() =~= init.to_multiset().insert(s.last()));
    }
}

} // verus!

verus! {

/// Whether the texts of `v` are in strictly increasing text order.
pub open spec fn strictly_increasing_text(v: Seq<Seq<char>>) -> bool {
    forall|i: int, j: int| 0 <= i < j < v.len() ==> lex_less(#[trigger] v[i], #[trigger] v[j])
}

fn name_less(a: &String, b: &Vec<char>) -> (r: bool)
    ensures
        r == lex_less(a@, b@),
{
    let ac = chars_of(a.as_str());
    text_less(&ac, b)
}

/// Inserts `x` into the strictly increasing `v` unless it is there.
fn insert_name(v: &mut Vec<String>, x: String)
    requires
        strictly_increasing_text(crate::text::views(old(v)@)),
    ensures
        strictly_increasing_text(crate::text::views(final(v)@)),
        crate::text::views(final(v)@).to_set() == crate::text::views(old(v)@).to_set().insert(x@),
{
    let ghost before = crate::text::views(v@);
    let xc = chars_of(x.as_str());
    let mut i: usize = 0;
    while i < v.len() && name_less(&v[i], &xc)
        invariant
            i <= v.len(),
            before == crate::text::views(v@),
            xc@ == x@,
            strictly_increasing_text(before),
            forall|j: int| 0 <= j < i ==> lex_less(#[trigger] before[j], x@),
        decreases v.len() - i,
    {
        assert(before[i as int] == v@[i as int]@);
        i = i + 1;
    }
    if i < v.len() {
        let vc = chars_of(v[i].as_str());
        if crate::text::chars_eq(&vc, &xc) {
            assert(before[i as int] == x@);
            assert(before.to_set().insert(x@) =~= before.to_set());
            return;
        }
        proof {
            assert(before[i as int] == v@[i as int]@);
            lemma_lex_less_order(x@, before[i as int], x@);
            assert(lex_less(x@, before[i as int]));
        }
    }
    v.insert(i, x);
    let ghost after = crate::text::views(v@);
    assert(after =~= before.insert(i as int, xc@));
    assert forall|a: int, b: int| 0 <= a < b < after.len() implies lex_less(#[trigger] after[a], #[trigger] after[b]) by {
        if b < i {
        } else if b == i {
        } else if a == i {
            assert(after[b] == before[b - 1]);
            if b - 1 > i {
                lemma_lex_less_order(x@, before[i as int], before[b - 1]);
            }
        } else if a < i {
            assert(after[b] == before[b - 1]);
        } else {
            assert(after[a] == before[a - 1]);
            assert(after[b] == before[b - 1]);
        }
    }
    assert(after.to_set() =~= before.to_set().insert(x@)) by {
        assert forall|y: Seq<char>| after.to_set().contains(y) implies before.to_set().insert(x@).contains(y) by {
            let k = choose|k: int| 0 <= k < after.len() && after[k] == y;
            if k < i {
                assert(before[k] == y);
            } else if k > i {
                assert(before[k - 1] == y);
            }
        }
        assert forall|y: Seq<char>| before.to_set().insert(x@).contains(y) implies after.to_set().contains(y) by {
            if y == x@ {
                assert(after[i as int] == y);
            } else {
                let k = choose|k: int| 0 <= k < before.len() && before[k] == y;
                if k < i {
                    assert(after[k] == y);
                } else {
                    assert(after[k + 1] == y);
                }
            }
        }
    }
}

/// The names in increasing text order, each once.
pub fn sorted_unique_names(names: Vec<String>) -> (r: Vec<String>)
    ensures
        strictly_increasing_text(crate::text::views(r@)),
        crate::text::views(r@).to_set() == crate::text::views(names@).to_set(),
{
    let ghost nv = crate::text::views(names@);
    let mut rest = names;
    let mut out: Vec<String> = Vec::new();
    let ghost mut k: int = 0;
    assert(crate::text::views(out@).to_set() =~= nv.take(0).to_set());
    assert(nv.skip(0) =~= nv);
    while rest.len() > 0
        invariant
            0 <= k <= nv.len(),
            nv.len() == k + rest@.len(),
            crate::text::views(rest@) == nv.skip(k),
            strictly_increasing_text(crate::text::views(out@)),
            crate::text::views(out@).to_set() == nv.take(k).to_set(),
        decreases rest.len(),
    {
        let ghost before = rest@;
        let x = rest.remove(0);
        assert(x == before[0]);
        assert(crate::text::views(before)[0] == before[0]@);
        assert(nv.skip(k)[0] == nv[k]);
        assert(rest@ =~= before.subrange(1, before.len() as int));
        assert(crate::text::views(rest@) =~= nv.skip(k + 1)) by {
            assert forall|j: int| 0 <= j < rest@.len() implies crate::text::views(rest@)[j] == nv.skip(k + 1)[j] by {
                assert(rest@[j] == before[j + 1]);
                assert(crate::text::views(before)[j + 1] == before[j + 1]@);
                assert(nv.skip(k)[j + 1] == nv[k + 1 + j]);
            }
        }
        let ghost xv = x@;
        insert_name(&mut out, x);
        proof {
            assert(nv.take(k + 1) =~= nv.take(k).push(xv));
            assert(nv.take(k + 1).to_set() =~= nv.take(k).to_set().insert(xv)) by {
                let a = nv.take(k);
                let b = nv.take(k + 1);
                assert forall|y: Seq<char>| b.to_set().contains(y) implies a.to_set().insert(xv).contains(y) by {
                    let m = choose|m: int| 0 <= m < b.len() && b[m] == y;
                    if m < k {
                        assert(a[m] == y);
                    }
                }
                assert forall|y: Seq<char>| a.to_set().insert(xv).contains(y) implies b.to_set().contains(y) by {
                    if y == xv {
                        assert(b[k] == y);
                    } else {
                        let m = choose|m: int| 0 <= m < a.len() && a[m] == y;
                        assert(b[m] == y);
                    }
                }
            }
            k = k + 1;
        }
    }
    assert(nv.take(k) =~= nv);
    out
}

} // verus!

verus! {

/// The ids of `s` that are (`keep`) or are not among `among`, in order.
pub open spec fn ids_among(s: Seq<i64>, among: Seq<i64>, keep: bool) -> Seq<i64>
    decreases s.len(),
{
    if s.len() == 0 {
        s
    } else {
        let r = ids_among(s.drop_last(), among, keep);
        if among.contains(s.last()) == keep {
            r.push(s.last())
        } else {
            r
        }
    }
}

/// The ids of `active` that are not among `recent`, each once, in the order
/// they first come.
pub open spec fn new_active_ids(active: Seq<i64>, recent: Seq<i64>) -> Seq<i64>
    decreases active.len(),
{
    if active.len() == 0 {
        active
    } else {
        let r = new_active_ids(active.drop_last(), recent);
        if recent.contains(active.last()) || r.contains(active.last()) {
            r
        } else {
            r.push(active.last())
        }
    }
}

/// The order of the runs on the board: recent runs that are running, then
/// running runs that are not among the recent ones, then the other recent runs.
pub open spec fn board_run_order_spec(recent: Seq<i64>, active: Seq<i64>) -> Seq<i64> {
    ids_among(recent, active, true) + new_active_ids(active, recent) + ids_among(recent, active, false)
}

fn contains_id(v: &Vec<i64>, x: i64) -> (b: bool)
    ensures
        b == v@.contains(x),
{
    let mut i: usize = 0;
    while i < v.len()
        invariant
            i <= v.len(),
            forall|j: int| 0 <= j < i ==> v@[j] != x,
        decreases v.len() - i,
    {
        if v[i] == x {
            return true;
        }
        i = i + 1;
    }
    false
}

fn push_ids_among(out: &mut Vec<i64>, s: &Vec<i64>, among: &Vec<i64>, keep: bool)
    ensures
        final(out)@ == old(out)@ + ids_among(s@, among@, keep),
{
    let mut i: usize = 0;
    while i < s.len()
        invariant
            i <= s.len(),
            out@ == old(out)@ + ids_among(s@.take(i as int), among@, keep),
        decreases s.len() - i,
    {
        assert(s@.take(i + 1).drop_last() =~= s@.take(i as int));
        if contains_id(among, s[i]) == keep {
            out.push(s[i]);
        }
        assert(out@ =~= old(out)@ + ids_among(s@.take(i + 1), among@, keep));
        i = i + 1;
    }
    assert(s@.take(s.len() as int) =~= s@);
}

/// The order of the runs on the board, by run id.
pub fn board_run_order(recent: &Vec<i64>, active: &Vec<i64>) -> (r: Vec<i64>)
    ensures
        r@ == board_run_order_spec(recent@, active@),
{
    let mut out: Vec<i64> = Vec::new();
    push_ids_among(&mut out, recent, active, true);
    let ghost first = out@;
    let mut fresh: Vec<i64> = Vec::new();
    let mut i: usize = 0;
    while i < active.len()
        invariant
            i <= active.len(),
            fresh@ == new_active_ids(active@.take(i as int), recent@),
        decreases active.len() - i,
    {
        assert(active@.take(i + 1).drop_last() =~= active@.take(i as int));
        let x = active[i];
        if !contains_id(recent, x) && !contains_id(&fresh, x) {
            fresh.push(x);
        }
        i = i + 1;
    }
    assert(active@.take(active.len() as int) =~= active@);
    let mut j: usize = 0;
    while j < fresh.len()
        invariant
            j <= fresh.len(),
            out@ == first + fresh@.take(j as int),
        decreases fresh.len() - j,
    {
        out.push(fresh[j]);
        assert(out@ =~= first + fresh@.take(j + 1));
        j = j + 1;
    }
    assert(fresh@.take(fresh.len() as int) =~= fresh@);
    push_ids_among(&mut out, recent, active, false);
    out
}

} // verus!
