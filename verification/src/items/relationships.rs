use vstd::prelude::*;

use crate::text::{int_text, is_blank, push_int, trim, trim_str};

verus! {

broadcast use vstd::std_specs::vec::group_vec_axioms;

/// A stored relationship between two work items of a project.
#[derive(Clone, Debug)]
pub struct RelationshipRecord {
    pub id: i64,
    pub project_id: i64,
    pub kind: String,
    pub source_work_item_id: i64,
    pub target_work_item_id: i64,
    pub created_at: String,
    pub updated_at: String,
}

/// What a relationship view shows of a work item.
#[derive(Clone, Debug)]
pub struct ItemSummary {
    pub id: i64,
    pub title: String,
    pub state: Option<String>,
    pub version: i64,
}

/// A relationship with both of its work items.
#[derive(Clone, Debug)]
pub struct RelationshipView {
    pub id: i64,
    pub project_id: i64,
    pub kind: String,
    pub source_work_item_id: i64,
    pub target_work_item_id: i64,
    pub source: ItemSummary,
    pub target: ItemSummary,
    pub created_at: String,
    pub updated_at: String,
}

/// How a relationship stands to the item it is listed for.
#[derive(Clone, Copy, Debug, PartialEq, Eq, Structural)]
pub enum RelationshipDirection {
    Outgoing,
    Incoming,
}

/// Why a relationship operation was refused.
#[derive(Clone, Debug)]
pub enum RelationshipError {
    EmptyKind,
    SelfRelationship,
    /// A relationship with this source, target and kind exists already.
    Duplicate(i64, i64, String),
    /// The relationship (first) does not touch the item (second).
    NotTouching(i64, i64),
    /// The relationship (first) names a source item (second) that is missing.
    MissingSource(i64, i64),
    /// The relationship (first) names a target item (second) that is missing.
    MissingTarget(i64, i64),
    /// The work item is not one of the project's.
    ItemNotInProject(i64),
}

/// The message of a relationship error.
pub open spec fn relationship_error_text(e: RelationshipError) -> Seq<char> {
    match e {
        RelationshipError::EmptyKind => "relationship kind cannot be empty"@,
        RelationshipError::SelfRelationship => "relationship source and target work items must differ"@,
        RelationshipError::Duplicate(s, t, k) => "duplicate relationship already exists for source item "@ + int_text(s as int)
            + ", target item "@ + int_text(t as int) + ", and kind '"@ + k@ + "'"@,
        RelationshipError::NotTouching(r, i) => "relationship "@ + int_text(r as int) + " does not touch item "@ + int_text(i as int),
        RelationshipError::MissingSource(r, i) => "relationship "@ + int_text(r as int) + " references missing source item "@
            + int_text(i as int),
        RelationshipError::MissingTarget(r, i) => "relationship "@ + int_text(r as int) + " references missing target item "@
            + int_text(i as int),
        RelationshipError::ItemNotInProject(i) => "item "@ + int_text(i as int) + " does not exist in this project"@,
    }
}

impl RelationshipError {
    /// The message shown for this error.
    pub fn message(&self) -> (r: String)
        ensures
            r@ == relationship_error_text(*self),
    {
        let mut s = String::new();
        match self {
            RelationshipError::EmptyKind => s.append("relationship kind cannot be empty"),
            RelationshipError::SelfRelationship => s.append("relationship source and target work items must differ"),
            RelationshipError::Duplicate(src, tgt, k) => {
                s.append("duplicate relationship already exists for source item ");
                push_int(&mut s, *src);
                s.append(", target item ");
                push_int(&mut s, *tgt);
                s.append(", and kind '");
                s.append(k.as_str());
                s.append("'");
            },
            RelationshipError::NotTouching(r, i) => {
                s.append("relationship ");
                push_int(&mut s, *r);
                s.append(" does not touch item ");
                push_int(&mut s, *i);
            },
            RelationshipError::MissingSource(r, i) => {
                s.append("relationship ");
                push_int(&mut s, *r);
                s.append(" references missing source item ");
                push_int(&mut s, *i);
            },
            RelationshipError::MissingTarget(r, i) => {
                s.append("relationship ");
                push_int(&mut s, *r);
                s.append(" references missing target item ");
                push_int(&mut s, *i);
            },
            RelationshipError::ItemNotInProject(i) => {
                s.append("item ");
                push_int(&mut s, *i);
                s.append(" does not exist in this project");
            },
        }
        s
    }
}

/// A relationship kind, trimmed; a blank one is refused.
pub fn normalize_kind(kind: String) -> (r: Result<String, RelationshipError>)
    ensures
        trim(kind@).len() == 0 ==> (r matches Err(RelationshipError::EmptyKind)),
        trim(kind@).len() > 0 ==> (r matches Ok(k) && k@ == trim(kind@)),
{
    let k = trim_str(kind.as_str());
    proof {
        crate::display::labels::lemma_trim_idempotent(kind@);
    }
    if is_blank(k.as_str()) {
        Err(RelationshipError::EmptyKind)
    } else {
        Ok(k)
    }
}

/// A work item cannot be related to itself.
pub fn ensure_not_self(source_work_item_id: i64, target_work_item_id: i64) -> (r: Result<(), RelationshipError>)
    ensures
        (source_work_item_id == target_work_item_id) ==> (r matches Err(RelationshipError::SelfRelationship)),
        (source_work_item_id != target_work_item_id) ==> r is Ok,
{
    if source_work_item_id == target_work_item_id {
        Err(RelationshipError::SelfRelationship)
    } else {
        Ok(())
    }
}

/// Refuses a relationship that exists already (`exists`, as the store reports it).
pub fn ensure_no_duplicate(exists: bool, source_work_item_id: i64, target_work_item_id: i64, kind: &str) -> (r: Result<(), RelationshipError>)
    ensures
        exists ==> (r matches Err(RelationshipError::Duplicate(s, t, k)) && s == source_work_item_id && t == target_work_item_id
            && k@ == kind@),
        !exists ==> r is Ok,
{
    if exists {
        Err(RelationshipError::Duplicate(source_work_item_id, target_work_item_id, kind.to_string()))
    } else {
        Ok(())
    }
}

/// Checks a new relationship as creating one does, in order: the kind,
/// trimmed, may not be blank; the source must be an item of the project
/// (`source_in_project`); source and target must differ; the target must be
/// an item of the project (`target_in_project`); no relationship from the
/// source to the target with the trimmed kind may exist (`duplicate_exists`,
/// as the store reports it for the trimmed kind). Gives the trimmed kind.
pub fn check_new_relationship(
    kind: String,
    source_work_item_id: i64,
    target_work_item_id: i64,
    source_in_project: bool,
    target_in_project: bool,
    duplicate_exists: bool,
) -> (r: Result<String, RelationshipError>)
    ensures
        r is Ok <==> trim(kind@).len() > 0 && source_in_project && source_work_item_id != target_work_item_id
            && target_in_project && !duplicate_exists,
        r matches Ok(k) ==> k@ == trim(kind@),
        trim(kind@).len() == 0 ==> (r matches Err(RelationshipError::EmptyKind)),
        trim(kind@).len() > 0 && !source_in_project ==> (r matches Err(RelationshipError::ItemNotInProject(i))
            && i == source_work_item_id),
        trim(kind@).len() > 0 && source_in_project && source_work_item_id == target_work_item_id ==> (r matches Err(
            RelationshipError::SelfRelationship,
        )),
        trim(kind@).len() > 0 && source_in_project && source_work_item_id != target_work_item_id && !target_in_project
            ==> (r matches Err(RelationshipError::ItemNotInProject(i)) && i == target_work_item_id),
        trim(kind@).len() > 0 && source_in_project && source_work_item_id != target_work_item_id && target_in_project
            && duplicate_exists ==> (r matches Err(RelationshipError::Duplicate(s, t, k)) && s == source_work_item_id
            && t == target_work_item_id && k@ == trim(kind@)),
{
    let kind = match normalize_kind(kind) {
        Ok(k) => k,
        Err(e) => return Err(e),
    };
    if !source_in_project {
        return Err(RelationshipError::ItemNotInProject(source_work_item_id));
    }
    match ensure_not_self(source_work_item_id, target_work_item_id) {
        Ok(()) => {},
        Err(e) => return Err(e),
    }
    if !target_in_project {
        return Err(RelationshipError::ItemNotInProject(target_work_item_id));
    }
    match ensure_no_duplicate(duplicate_exists, source_work_item_id, target_work_item_id, kind.as_str()) {
        Ok(()) => {},
        Err(e) => return Err(e),
    }
    Ok(kind)
}

/// Where a change names an item, the relationship must start or end there.
pub fn ensure_requested_item_touches_relationship(requested_item_id: Option<i64>, relationship: &RelationshipRecord) -> (r: Result<(), RelationshipError>)
    ensures
        match requested_item_id {
            None => r is Ok,
            Some(item) => if relationship.source_work_item_id == item || relationship.target_work_item_id == item {
                r is Ok
            } else {
                r matches Err(RelationshipError::NotTouching(rid, i)) && rid == relationship.id && i == item
            },
        },
{
    match requested_item_id {
        None => Ok(()),
        Some(item) => {
            if relationship.source_work_item_id == item || relationship.target_work_item_id == item {
                Ok(())
            } else {
                Err(RelationshipError::NotTouching(relationship.id, item))
            }
        },
    }
}

/// How a relationship stands to `item_id`: outgoing where it starts there.
pub fn direction_for_item(relationship: &RelationshipRecord, item_id: i64) -> (d: RelationshipDirection)
    ensures
        d == (if relationship.source_work_item_id == item_id {
            RelationshipDirection::Outgoing
        } else {
            RelationshipDirection::Incoming
        }),
{
    if relationship.source_work_item_id == item_id {
        RelationshipDirection::Outgoing
    } else {
        RelationshipDirection::Incoming
    }
}

/// The items whose pages change with a relationship: the source, and the
/// target where it is another item.
pub fn touched_items(source_work_item_id: i64, target_work_item_id: i64) -> (r: Vec<i64>)
    ensures
        r@ == (if source_work_item_id == target_work_item_id {
            seq![source_work_item_id]
        } else {
            seq![source_work_item_id, target_work_item_id]
        }),
{
    let mut r: Vec<i64> = Vec::new();
    r.push(source_work_item_id);
    if target_work_item_id != source_work_item_id {
        r.push(target_work_item_id);
    }
    r
}

/// The event text on the source item of a new relationship.
pub open spec fn created_source_text(source: i64, kind: Seq<char>, target: i64) -> Seq<char> {
    "Created relationship #"@ + int_text(source as int) + " "@ + kind + " #"@ + int_text(target as int)
}

/// The event text on the target item of a new relationship.
pub open spec fn created_target_text(source: i64, kind: Seq<char>) -> Seq<char> {
    "Created incoming relationship from #"@ + int_text(source as int) + ": "@ + kind
}

/// The event text on both items when a relationship changes kind.
pub open spec fn updated_text(relationship_id: i64, kind: Seq<char>) -> Seq<char> {
    "Updated relationship #"@ + int_text(relationship_id as int) + " kind to "@ + kind
}

/// The event text on both items when a relationship is deleted.
pub open spec fn deleted_text(relationship_id: i64, source: i64, kind: Seq<char>, target: i64) -> Seq<char> {
    "Deleted relationship #"@ + int_text(relationship_id as int) + ": #"@ + int_text(source as int) + " "@ + kind + " #"@
        + int_text(target as int)
}

/// The event text on the source item of a new relationship.
pub fn created_source_event_body(source: i64, kind: &str, target: i64) -> (r: String)
    ensures
        r@ == created_source_text(source, kind@, target),
{
    let mut s = String::from_str("Created relationship #");
    push_int(&mut s, source);
    s.append(" ");
    s.append(kind);
    s.append(" #");
    push_int(&mut s, target);
    s
}

/// The event text on the target item of a new relationship.
pub fn created_target_event_body(source: i64, kind: &str) -> (r: String)
    ensures
        r@ == created_target_text(source, kind@),
{
    let mut s = String::from_str("Created incoming relationship from #");
    push_int(&mut s, source);
    s.append(": ");
    s.append(kind);
    s
}

/// The event text when a relationship changes kind.
pub fn updated_event_body(relationship_id: i64, kind: &str) -> (r: String)
    ensures
        r@ == updated_text(relationship_id, kind@),
{
    let mut s = String::from_str("Updated relationship #");
    push_int(&mut s, relationship_id);
    s.append(" kind to ");
    s.append(kind);
    s
}

/// The event text when a relationship is deleted.
pub fn deleted_event_body(relationship: &RelationshipRecord) -> (r: String)
    ensures
        r@ == deleted_text(relationship.id, relationship.source_work_item_id, relationship.kind@, relationship.target_work_item_id),
{
    let mut s = String::from_str("Deleted relationship #");
    push_int(&mut s, relationship.id);
    s.append(": #");
    push_int(&mut s, relationship.source_work_item_id);
    s.append(" ");
    s.append(relationship.kind.as_str());
    s.append(" #");
    push_int(&mut s, relationship.target_work_item_id);
    s
}

/// Whether `v` is in strictly increasing order.
pub open spec fn strictly_increasing(v: Seq<i64>) -> bool {
    forall|i: int, j: int| 0 <= i < j < v.len() ==> v[i] < v[j]
}

/// The ids of every item that some relationship starts or ends at.
pub open spec fn endpoint_ids(rels: Seq<RelationshipRecord>) -> Set<i64> {
    Set::new(|id: i64| exists|k: int| 0 <= k < rels.len() && (rels[k].source_work_item_id == id || rels[k].target_work_item_id == id))
}

/// Inserts `x` into the strictly increasing `v`, where it is not there yet.
fn insert_sorted(v: &mut Vec<i64>, x: i64)
    requires
        strictly_increasing(old(v)@),
    ensures
        strictly_increasing(final(v)@),
        final(v)@.to_set() == old(v)@.to_set().insert(x),
{
    let mut i: usize = 0;
    while i < v.len() && v[i] < x
        invariant
            i <= v.len(),
            v@ == old(v)@,
            strictly_increasing(v@),
            forall|j: int| 0 <= j < i ==> v@[j] < x,
        decreases v.len() - i,
    {
        i = i + 1;
    }
    if i < v.len() && v[i] == x {
        assert(old(v)@.to_set().insert(x) =~= old(v)@.to_set());
        return;
    }
    let ghost before = v@;
    v.insert(i, x);
    assert(v@ =~= before.subrange(0, i as int).push(x) + before.subrange(i as int, before.len() as int));
    assert forall|a: int, b: int| 0 <= a < b < v@.len() implies v@[a] < v@[b] by {
        if a < i && b == i {
        } else if a < i && b > i {
            assert(v@[b] == before[b - 1]);
        } else if a == i && b > i {
            assert(v@[b] == before[b - 1]);
        } else if a > i {
            assert(v@[a] == before[a - 1]);
            assert(v@[b] == before[b - 1]);
        }
    }
    assert(v@.to_set() =~= before.to_set().insert(x)) by {
        assert forall|y: i64| v@.to_set().contains(y) implies before.to_set().insert(x).contains(y) by {
            let k = choose|k: int| 0 <= k < v@.len() && v@[k] == y;
            if k < i {
                assert(before[k] == y);
            } else if k > i {
                assert(before[k - 1] == y);
            }
        }
        assert forall|y: i64| before.to_set().insert(x).contains(y) implies v@.to_set().contains(y) by {
            if y == x {
                assert(v@[i as int] == x);
            } else {
                let k = choose|k: int| 0 <= k < before.len() && before[k] == y;
                if k < i {
                    assert(v@[k] == y);
                } else {
                    assert(v@[k + 1] == y);
                }
            }
        }
    }
}

/// The ids of the items that the relationships start or end at, in
/// increasing order and each once.
pub fn relationship_item_ids(relationships: &Vec<RelationshipRecord>) -> (ids: Vec<i64>)
    ensures
        strictly_increasing(ids@),
        ids@.to_set() == endpoint_ids(relationships@),
{
    let mut ids: Vec<i64> = Vec::new();
    let mut i: usize = 0;
    while i < relationships.len()
        invariant
            i <= relationships.len(),
            strictly_increasing(ids@),
            ids@.to_set() == endpoint_ids(relationships@.take(i as int)),
        decreases relationships.len() - i,
    {
        let ghost before = ids@.to_set();
        insert_sorted(&mut ids, relationships[i].source_work_item_id);
        insert_sorted(&mut ids, relationships[i].target_work_item_id);
        proof {
            let r = relationships@[i as int];
            let pre = relationships@.take(i as int);
            let post = relationships@.take(i + 1);
            assert(ids@.to_set() =~= endpoint_ids(post)) by {
                assert forall|id: i64| endpoint_ids(post).contains(id) implies ids@.to_set().contains(id) by {
                    let k = choose|k: int| 0 <= k < post.len() && (post[k].source_work_item_id == id || post[k].target_work_item_id == id);
                    if k < i {
                        assert(pre[k] == post[k]);
                        assert(endpoint_ids(pre).contains(id));
                    }
                }
                assert forall|id: i64| ids@.to_set().contains(id) implies endpoint_ids(post).contains(id) by {
                    if before.contains(id) {
                        let k = choose|k: int| 0 <= k < pre.len() && (pre[k].source_work_item_id == id || pre[k].target_work_item_id == id);
                        assert(pre[k] == post[k]);
                    } else {
                        assert(post[i as int] == r);
                    }
                }
            }
        }
        i = i + 1;
    }
    assert(relationships@.take(relationships.len() as int) =~= relationships@);
    ids
}

} // verus!

verus! {

/// Whether some summary has id `id`.
pub open spec fn has_summary(sums: Seq<ItemSummary>, id: i64) -> bool {
    exists|k: int| 0 <= k < sums.len() && sums[k].id == id
}

/// The index of the last summary with id `id` (a map built from the list
/// keeps the last one of equal keys).
pub open spec fn last_summary_index(sums: Seq<ItemSummary>, id: i64) -> int {
    choose|k: int| 0 <= k < sums.len() && sums[k].id == id && forall|j: int| k < j < sums.len() ==> sums[j].id != id
}

/// `a` shows the same item as `b`.
pub open spec fn same_summary(a: ItemSummary, b: ItemSummary) -> bool {
    &&& a.id == b.id
    &&& a.title@ == b.title@
    &&& crate::items::updates::opt_seq(a.state) == crate::items::updates::opt_seq(b.state)
    &&& a.version == b.version
}

/// `v` shows the relationship `r` with the summaries of its two items.
pub open spec fn view_of_relationship(v: RelationshipView, r: RelationshipRecord, sums: Seq<ItemSummary>) -> bool {
    &&& v.id == r.id
    &&& v.project_id == r.project_id
    &&& v.kind@ == r.kind@
    &&& v.source_work_item_id == r.source_work_item_id
    &&& v.target_work_item_id == r.target_work_item_id
    &&& v.created_at@ == r.created_at@
    &&& v.updated_at@ == r.updated_at@
    &&& same_summary(v.source, sums[last_summary_index(sums, r.source_work_item_id)])
    &&& same_summary(v.target, sums[last_summary_index(sums, r.target_work_item_id)])
}

/// Whether both items of a relationship have summaries.
pub open spec fn endpoints_found(r: RelationshipRecord, sums: Seq<ItemSummary>) -> bool {
    has_summary(sums, r.source_work_item_id) && has_summary(sums, r.target_work_item_id)
}

fn copy_summary(s: &ItemSummary) -> (r: ItemSummary)
    ensures
        same_summary(r, *s),
{
    ItemSummary {
        id: s.id,
        title: crate::text::copy_string(&s.title),
        state: match &s.state {
            Some(t) => Some(crate::text::copy_string(t)),
            None => None,
        },
        version: s.version,
    }
}

/// The last summary with id `id`.
fn find_summary(sums: &Vec<ItemSummary>, id: i64) -> (r: Option<ItemSummary>)
    ensures
        match r {
            Some(s) => has_summary(sums@, id) && same_summary(s, sums@[last_summary_index(sums@, id)]),
            None => !has_summary(sums@, id),
        },
{
    let mut k: usize = sums.len();
    while k > 0
        invariant
            k <= sums.len(),
            forall|j: int| k <= j < sums.len() ==> sums@[j].id != id,
        decreases k,
    {
        if sums[k - 1].id == id {
            proof {
                let w = (k - 1) as int;
                assert(has_summary(sums@, id));
                let c = last_summary_index(sums@, id);
                if c != w {
                    if c < w {
                        assert(sums@[w].id == id);
                    } else {
                        assert(sums@[c].id != id);
                    }
                }
            }
            return Some(copy_summary(&sums[k - 1]));
        }
        k = k - 1;
    }
    None
}

/// The view of one relationship, or the error for its first missing item.
fn view_for(rel: &RelationshipRecord, summaries: &Vec<ItemSummary>) -> (r: Result<RelationshipView, RelationshipError>)
    ensures
        r is Ok <==> endpoints_found(*rel, summaries@),
        match r {
            Ok(v) => view_of_relationship(v, *rel, summaries@),
            Err(e) => if !has_summary(summaries@, rel.source_work_item_id) {
                e matches RelationshipError::MissingSource(rid, i) && rid == rel.id && i == rel.source_work_item_id
            } else {
                e matches RelationshipError::MissingTarget(rid, i) && rid == rel.id && i == rel.target_work_item_id
            },
        },
{
    let source = match find_summary(summaries, rel.source_work_item_id) {
        Some(s) => s,
        None => return Err(RelationshipError::MissingSource(rel.id, rel.source_work_item_id)),
    };
    let target = match find_summary(summaries, rel.target_work_item_id) {
        Some(s) => s,
        None => return Err(RelationshipError::MissingTarget(rel.id, rel.target_work_item_id)),
    };
    Ok(RelationshipView {
        id: rel.id,
        project_id: rel.project_id,
        kind: crate::text::copy_string(&rel.kind),
        source_work_item_id: rel.source_work_item_id,
        target_work_item_id: rel.target_work_item_id,
        source,
        target,
        created_at: crate::text::copy_string(&rel.created_at),
        updated_at: crate::text::copy_string(&rel.updated_at),
    })
}

/// The views of relationships, each with the summaries of its two items;
/// the first relationship (in order) that names an item without a summary is
/// refused, by its source where that is missing, else by its target.
pub fn relationships_to_views(relationships: &Vec<RelationshipRecord>, summaries: &Vec<ItemSummary>) -> (r: Result<Vec<RelationshipView>, RelationshipError>)
    ensures
        r is Ok <==> forall|k: int| 0 <= k < relationships@.len() ==> endpoints_found(#[trigger] relationships@[k], summaries@),
        match r {
            Ok(vs) => vs@.len() == relationships@.len() && forall|k: int| 0 <= k < vs@.len() ==> view_of_relationship(
                #[trigger] vs@[k],
                relationships@[k],
                summaries@,
            ),
            Err(e) => exists|k: int| 0 <= k < relationships@.len() && !endpoints_found(#[trigger] relationships@[k], summaries@)
                && (forall|j: int| 0 <= j < k ==> endpoints_found(#[trigger] relationships@[j], summaries@))
                && if !has_summary(summaries@, relationships@[k].source_work_item_id) {
                    e matches RelationshipError::MissingSource(rid, i) && rid == relationships@[k].id
                        && i == relationships@[k].source_work_item_id
                } else {
                    e matches RelationshipError::MissingTarget(rid, i) && rid == relationships@[k].id
                        && i == relationships@[k].target_work_item_id
                },
        },
{
    let mut out: Vec<RelationshipView> = Vec::new();
    let mut i: usize = 0;
    while i < relationships.len()
        invariant
            i <= relationships.len(),
            out@.len() == i,
            forall|k: int| 0 <= k < i ==> endpoints_found(#[trigger] relationships@[k], summaries@),
            forall|k: int| 0 <= k < i ==> view_of_relationship(#[trigger] out@[k], relationships@[k], summaries@),
        decreases relationships.len() - i,
    {
        match view_for(&relationships[i], summaries) {
            Ok(v) => {
                out.push(v);
            },
            Err(e) => {
                assert(!endpoints_found(relationships@[i as int], summaries@));
                return Err(e);
            },
        }
        i = i + 1;
    }
    Ok(out)
}

} // verus!
