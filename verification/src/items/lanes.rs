use vstd::prelude::*;

use crate::text::{int_text, is_blank, push_int, str_eq, trim, trim_str};

verus! {

broadcast use vstd::std_specs::vec::group_vec_axioms;

/// Why a swim lane or personality change was refused.
#[derive(Clone, Debug)]
pub enum LaneError {
    EmptyIdentifier,
    IdentifierWithEquals,
    EmptyLaneName,
    EmptyPersonalityName,
    /// The personality name is taken in the project.
    PersonalityNameTaken(String),
    /// The personality is not one of the project's.
    PersonalityNotInProject(i64),
    DefaultPersonalityDelete,
    /// The personality (first) is used by an automation trigger (second).
    PersonalityReferenced(String, String),
}

/// The message of a lane or personality error.
pub open spec fn lane_error_text(e: LaneError) -> Seq<char> {
    match e {
        LaneError::EmptyIdentifier => "swim-lane identifier cannot be empty"@,
        LaneError::IdentifierWithEquals => "swim-lane identifier cannot contain '='"@,
        LaneError::EmptyLaneName => "swim-lane name cannot be empty"@,
        LaneError::EmptyPersonalityName => "personality name cannot be empty"@,
        LaneError::PersonalityNameTaken(n) => "personality name '"@ + n@ + "' already exists in this project"@,
        LaneError::PersonalityNotInProject(id) => "personality "@ + int_text(id as int) + " does not exist in this project"@,
        LaneError::DefaultPersonalityDelete => "the Default personality cannot be deleted"@,
        LaneError::PersonalityReferenced(p, t) => "personality '"@ + p@ + "' is referenced by automation trigger '"@ + t@ + "'"@,
    }
}

impl LaneError {
    /// The message shown for this error.
    pub fn message(&self) -> (r: String)
        ensures
            r@ == lane_error_text(*self),
    {
        let mut s = String::new();
        match self {
            LaneError::EmptyIdentifier => s.append("swim-lane identifier cannot be empty"),
            LaneError::IdentifierWithEquals => s.append("swim-lane identifier cannot contain '='"),
            LaneError::EmptyLaneName => s.append("swim-lane name cannot be empty"),
            LaneError::EmptyPersonalityName => s.append("personality name cannot be empty"),
            LaneError::PersonalityNameTaken(n) => {
                s.append("personality name '");
                s.append(n.as_str());
                s.append("' already exists in this project");
            },
            LaneError::PersonalityNotInProject(id) => {
                s.append("personality ");
                push_int(&mut s, *id);
                s.append(" does not exist in this project");
            },
            LaneError::DefaultPersonalityDelete => s.append("the Default personality cannot be deleted"),
            LaneError::PersonalityReferenced(p, t) => {
                s.append("personality '");
                s.append(p.as_str());
                s.append("' is referenced by automation trigger '");
                s.append(t.as_str());
                s.append("'");
            },
        }
        s
    }
}

/// A swim lane's identifier, trimmed: not blank and without `=` (it stands
/// in `key=value` labels).
pub fn normalize_identifier(identifier: String) -> (r: Result<String, LaneError>)
    ensures
        trim(identifier@).len() == 0 ==> (r matches Err(LaneError::EmptyIdentifier)),
        trim(identifier@).len() > 0 && trim(identifier@).contains('=') ==> (r matches Err(LaneError::IdentifierWithEquals)),
        trim(identifier@).len() > 0 && !trim(identifier@).contains('=') ==> (r matches Ok(s) && s@ == trim(identifier@)),
{
    let t = trim_str(identifier.as_str());
    proof {
        crate::display::labels::lemma_trim_idempotent(identifier@);
    }
    if is_blank(t.as_str()) {
        return Err(LaneError::EmptyIdentifier);
    }
    let cs = crate::text::chars_of(t.as_str());
    let mut i: usize = 0;
    while i < cs.len()
        invariant
            i <= cs.len(),
            cs@ == t@,
            t@ == trim(identifier@),
            trim(identifier@).len() > 0,
            forall|j: int| 0 <= j < i ==> cs@[j] != '=',
        decreases cs.len() - i,
    {
        if cs[i] == '=' {
            assert(t@[i as int] == '=');
            return Err(LaneError::IdentifierWithEquals);
        }
        i = i + 1;
    }
    assert(!t@.contains('='));
    Ok(t)
}

/// A swim lane's display name, trimmed and not blank.
pub fn normalize_lane_name(name: String) -> (r: Result<String, LaneError>)
    ensures
        trim(name@).len() == 0 ==> (r matches Err(LaneError::EmptyLaneName)),
        trim(name@).len() > 0 ==> (r matches Ok(s) && s@ == trim(name@)),
{
    let t = trim_str(name.as_str());
    proof {
        crate::display::labels::lemma_trim_idempotent(name@);
    }
    if is_blank(t.as_str()) {
        Err(LaneError::EmptyLaneName)
    } else {
        Ok(t)
    }
}

/// A swim lane that every project starts with.
#[derive(Clone, Debug)]
pub struct DefaultLane {
    pub identifier: String,
    pub name: String,
    pub position: i64,
}

/// The swim lanes a project starts with, in order: Idea, Open, In progress, Done.
pub open spec fn default_lanes_spec() -> Seq<(Seq<char>, Seq<char>, i64)> {
    seq![("idea"@, "Idea"@, 10i64), ("open"@, "Open"@, 20i64), ("in_progress"@, "In progress"@, 30i64), ("done"@, "Done"@, 40i64)]
}

/// The swim lanes a project starts with.
pub fn default_swim_lanes() -> (r: Vec<DefaultLane>)
    ensures
        r@.len() == 4,
        forall|k: int| 0 <= k < 4 ==> (#[trigger] r@[k]).identifier@ == default_lanes_spec()[k].0
            && r@[k].name@ == default_lanes_spec()[k].1 && r@[k].position == default_lanes_spec()[k].2,
{
    let mut r: Vec<DefaultLane> = Vec::new();
    r.push(DefaultLane { identifier: String::from_str("idea"), name: String::from_str("Idea"), position: 10 });
    r.push(DefaultLane { identifier: String::from_str("open"), name: String::from_str("Open"), position: 20 });
    r.push(DefaultLane { identifier: String::from_str("in_progress"), name: String::from_str("In progress"), position: 30 });
    r.push(DefaultLane { identifier: String::from_str("done"), name: String::from_str("Done"), position: 40 });
    r
}

/// A personality's name, trimmed and not blank.
pub fn normalize_personality_name(name: String) -> (r: Result<String, LaneError>)
    ensures
        trim(name@).len() == 0 ==> (r matches Err(LaneError::EmptyPersonalityName)),
        trim(name@).len() > 0 ==> (r matches Ok(s) && s@ == trim(name@)),
{
    let t = trim_str(name.as_str());
    proof {
        crate::display::labels::lemma_trim_idempotent(name@);
    }
    if is_blank(t.as_str()) {
        Err(LaneError::EmptyPersonalityName)
    } else {
        Ok(t)
    }
}

/// The name of the personality that every project has.
pub open spec fn default_personality_name() -> Seq<char> {
    "Default"@
}

/// Whether a personality may be deleted: not the Default one, and not used
/// by an automation trigger (`referencing_trigger`, the first that uses it).
pub fn validate_personality_delete(name: &str, referencing_trigger: Option<&str>) -> (r: Result<(), LaneError>)
    ensures
        name@ == default_personality_name() ==> (r matches Err(LaneError::DefaultPersonalityDelete)),
        name@ != default_personality_name() ==> match referencing_trigger {
            Some(t) => r matches Err(LaneError::PersonalityReferenced(p, x)) && p@ == name@ && x@ == t@,
            None => r is Ok,
        },
{
    if str_eq(name, "Default") {
        return Err(LaneError::DefaultPersonalityDelete);
    }
    match referencing_trigger {
        Some(t) => Err(LaneError::PersonalityReferenced(name.to_string(), t.to_string())),
        None => Ok(()),
    }
}

/// Refuses a personality name that the project uses already (`taken`, as the store reports it).
pub fn ensure_personality_name_available(name: &str, taken: bool) -> (r: Result<(), LaneError>)
    ensures
        taken ==> (r matches Err(LaneError::PersonalityNameTaken(n)) && n@ == name@),
        !taken ==> r is Ok,
{
    if taken {
        Err(LaneError::PersonalityNameTaken(name.to_string()))
    } else {
        Ok(())
    }
}

/// The personality text given to an agent: none without a personality, the
/// description where it is not blank.
pub fn personality_description_for_prompt(description: Option<String>) -> (r: Option<String>)
    ensures
        match description {
            Some(d) => if trim(d@).len() > 0 { r matches Some(x) && x@ == d@ } else { r is None },
            None => r is None,
        },
{
    match description {
        Some(d) => if is_blank(d.as_str()) { None } else { Some(d) },
        None => None,
    }
}

} // verus!
