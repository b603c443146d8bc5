use vstd::prelude::*;

use crate::display::board::{sorted_unique_names, strictly_increasing_text};
use crate::text::{contains_str, copy_string, is_blank, push_char, str_eq, trim, trim_str, views};

verus! {

/// A label row that a new item is created with.
pub struct InitialLabelRow {
    pub key: String,
    pub value: String,
}

/// A label already used in the project, offered as a suggestion.
pub struct LabelSuggestion {
    pub key: String,
    pub value: Option<String>,
}

/// A state that a new item may start in.
pub struct StateOption {
    pub identifier: String,
    pub name: String,
}

/// One element of the stored JSON array of initial labels, as far as the
/// rows read it: an object, with its `key` and `value` members where they are
/// strings, or any other value.
pub enum JsonLabelEntry {
    Object { key: Option<String>, value: Option<String> },
    Other,
}

/// The characters of an optional string.
pub open spec fn opt_view(o: Option<String>) -> Option<Seq<char>> {
    match o {
        Some(s) => Some(s@),
        None => None,
    }
}

/// A row as its key and value.
pub open spec fn row_view(r: InitialLabelRow) -> (Seq<char>, Seq<char>) {
    (r.key@, r.value@)
}

pub open spec fn rows_view(s: Seq<InitialLabelRow>) -> Seq<(Seq<char>, Seq<char>)> {
    s.map_values(|r: InitialLabelRow| row_view(r))
}

/// The rows that the stored entries give: each object with a string `key`,
/// with its string `value` or the empty text; other entries are skipped.
pub open spec fn entry_rows(s: Seq<JsonLabelEntry>) -> Seq<(Seq<char>, Seq<char>)>
    decreases s.len(),
{
    if s.len() == 0 {
        Seq::empty()
    } else {
        let before = entry_rows(s.drop_last());
        match s.last() {
            JsonLabelEntry::Object { key: Some(k), value } => before.push(
                (
                    k@,
                    match value {
                        Some(v) => v@,
                        None => Seq::empty(),
                    },
                ),
            ),
            _ => before,
        }
    }
}

/// The initial label rows held by a stored value; `entries` is `None` where
/// the value is no JSON array.
pub fn initial_label_rows_from_entries(entries: Option<Vec<JsonLabelEntry>>) -> (r: Vec<InitialLabelRow>)
    ensures
        rows_view(r@) == match entries {
            Some(v) => entry_rows(v@),
            None => Seq::empty(),
        },
{
    let mut out: Vec<InitialLabelRow> = Vec::new();
    match entries {
        None => {
            assert(rows_view(out@) =~= Seq::empty());
            out
        },
        Some(v) => {
            let mut i: usize = 0;
            assert(rows_view(out@) =~= entry_rows(v@.take(0)));
            while i < v.len()
                invariant
                    i <= v.len(),
                    rows_view(out@) == entry_rows(v@.take(i as int)),
                decreases v.len() - i,
            {
                assert(v@.take(i + 1).drop_last() =~= v@.take(i as int));
                assert(v@.take(i + 1).last() == v@[i as int]);
                match &v[i] {
                    JsonLabelEntry::Object { key: Some(k), value } => {
                        let val = match value {
                            Some(x) => copy_string(x),
                            None => String::new(),
                        };
                        out.push(InitialLabelRow { key: copy_string(k), value: val });
                    },
                    _ => {},
                }
                assert(rows_view(out@) =~= entry_rows(v@.take(i + 1)));
                i = i + 1;
            }
            assert(v@.take(v.len() as int) =~= v@);
            out
        },
    }
}

/// What a row's value is stored as: nothing where it is blank, else the value.
pub open spec fn stored_value(v: Seq<char>) -> Option<Seq<char>> {
    if trim(v).len() == 0 {
        None
    } else {
        Some(v)
    }
}

/// The rows as key and optional value, in the form they are stored in.
pub fn initial_label_rows_for_storage(rows: &Vec<InitialLabelRow>) -> (r: Vec<(String, Option<String>)>)
    ensures
        r.len() == rows.len(),
        forall|i: int|
            0 <= i < rows.len() ==> r[i].0@ == rows[i].key@ && opt_view(r[i].1) == stored_value(
                rows[i].value@,
            ),
{
    let mut out: Vec<(String, Option<String>)> = Vec::new();
    let mut i: usize = 0;
    while i < rows.len()
        invariant
            i <= rows.len(),
            out.len() == i,
            forall|j: int|
                0 <= j < i ==> out[j].0@ == rows[j].key@ && opt_view(out[j].1) == stored_value(
                    rows[j].value@,
                ),
        decreases rows.len() - i,
    {
        let value = if is_blank(rows[i].value.as_str()) {
            None
        } else {
            Some(copy_string(&rows[i].value))
        };
        out.push((copy_string(&rows[i].key), value));
        i = i + 1;
    }
    out
}

/// What a stored row's value reads back as: the empty text for a blank value,
/// else the value.
pub open spec fn read_back_value(v: Seq<char>) -> Seq<char> {
    if trim(v).len() == 0 {
        Seq::empty()
    } else {
        v
    }
}

/// Whether `entries` are the stored form of `rows`: one object per row, with
/// its key and its stored value.
pub open spec fn stored_entries(entries: Seq<JsonLabelEntry>, rows: Seq<InitialLabelRow>) -> bool {
    &&& entries.len() == rows.len()
    &&& forall|i: int|
        0 <= i < rows.len() ==> (#[trigger] entries[i] matches JsonLabelEntry::Object { key: Some(k), value }
            && k@ == rows[i].key@ && opt_view(value) == stored_value(rows[i].value@))
}

/// Law: rows written in their stored form read back as the same rows, each
/// blank value as the empty text.
pub proof fn lemma_initial_labels_round_trip(rows: Seq<InitialLabelRow>, entries: Seq<JsonLabelEntry>)
    requires
        stored_entries(entries, rows),
    ensures
        entry_rows(entries) == rows_view(rows).map_values(
            |r: (Seq<char>, Seq<char>)| (r.0, read_back_value(r.1)),
        ),
    decreases rows.len(),
{
    let target = rows_view(rows).map_values(|r: (Seq<char>, Seq<char>)| (r.0, read_back_value(r.1)));
    if rows.len() == 0 {
        assert(target =~= Seq::<(Seq<char>, Seq<char>)>::empty());
    } else {
        let n = rows.len() - 1;
        let rs = rows.drop_last();
        let es = entries.drop_last();
        assert(stored_entries(es, rs)) by {
            assert forall|i: int| 0 <= i < rs.len() implies (#[trigger] es[i] matches JsonLabelEntry::Object { key: Some(k), value }
                && k@ == rs[i].key@ && opt_view(value) == stored_value(rs[i].value@)) by {
                assert(es[i] == entries[i]);
                assert(rs[i] == rows[i]);
            }
        }
        lemma_initial_labels_round_trip(rs, es);
        assert(entries[n] matches JsonLabelEntry::Object { key: Some(k), value }
            && k@ == rows[n].key@ && opt_view(value) == stored_value(rows[n].value@));
        let prev = rows_view(rs).map_values(|r: (Seq<char>, Seq<char>)| (r.0, read_back_value(r.1)));
        assert(target =~= prev.push((rows[n].key@, read_back_value(rows[n].value@))));
        match entries[n] {
            JsonLabelEntry::Object { key: Some(k), value } => {
                match value {
                    Some(v) => {
                        assert(v@ == rows[n].value@);
                    },
                    None => {},
                }
            },
            _ => {},
        }
    }
}

/// The text a row is shown with: its key alone where the value is blank, else
/// `key=value`.
pub open spec fn initial_label_text_of(key: Seq<char>, value: Seq<char>) -> Seq<char> {
    if trim(value).len() == 0 {
        key
    } else {
        key + seq!['='] + value
    }
}

/// The text a row is shown with.
pub fn initial_label_text(row: &InitialLabelRow) -> (r: String)
    ensures
        r@ == initial_label_text_of(row.key@, row.value@),
{
    let mut s = copy_string(&row.key);
    if !is_blank(row.value.as_str()) {
        push_char(&mut s, '=');
        s.append(row.value.as_str());
        assert(s@ =~= row.key@ + seq!['='] + row.value@);
    }
    s
}

/// Each text of `s` once, in the order of its first appearance.
pub open spec fn first_occurrences(s: Seq<Seq<char>>) -> Seq<Seq<char>>
    decreases s.len(),
{
    if s.len() == 0 {
        Seq::empty()
    } else {
        let before = first_occurrences(s.drop_last());
        if before.contains(s.last()) {
            before
        } else {
            before.push(s.last())
        }
    }
}

/// Taking each text once keeps exactly the texts of `s`, none twice.
pub proof fn lemma_first_occurrences(s: Seq<Seq<char>>)
    ensures
        first_occurrences(s).no_duplicates(),
        forall|x: Seq<char>| first_occurrences(s).contains(x) <==> s.contains(x),
    decreases s.len(),
{
    if s.len() > 0 {
        let t = s.drop_last();
        lemma_first_occurrences(t);
        let b = first_occurrences(t);
        assert(s =~= t.push(s.last()));
        let l = s.last();
        assert forall|x: Seq<char>| first_occurrences(s).contains(x) <==> s.contains(x) by {
            let f = first_occurrences(s);
            if s.contains(x) {
                let i = choose|i: int| 0 <= i < s.len() && s[i] == x;
                if i < s.len() - 1 {
                    assert(t[i] == x);
                    assert(t.contains(x));
                    assert(b.contains(x));
                    let k = choose|k: int| 0 <= k < b.len() && b[k] == x;
                    if !b.contains(l) {
                        assert(f[k] == x);
                    }
                    assert(f.contains(x));
                } else {
                    assert(x == l);
                    if !b.contains(l) {
                        assert(f[b.len() as int] == l);
                    }
                    assert(f.contains(x));
                }
            }
            if f.contains(x) {
                let k = choose|k: int| 0 <= k < f.len() && f[k] == x;
                if k < b.len() {
                    assert(b[k] == x);
                    assert(b.contains(x));
                    assert(t.contains(x));
                    let i = choose|i: int| 0 <= i < t.len() && t[i] == x;
                    assert(s[i] == x);
                } else {
                    assert(x == l);
                    assert(s[s.len() - 1] == x);
                }
                assert(s.contains(x));
            }
        }
        if !b.contains(s.last()) {
            let c = b.push(s.last());
            assert forall|i: int, j: int| 0 <= i < c.len() && 0 <= j < c.len() && i != j implies c[i]
                != c[j] by {
                if i == b.len() {
                    assert(b[j] == c[j]);
                } else if j == b.len() {
                    assert(b[i] == c[i]);
                } else {
                    assert(b[i] == c[i] && b[j] == c[j]);
                }
            }
        }
    }
}

/// The keys of the suggestions other than `excluded`, in order.
pub open spec fn keys_except(s: Seq<LabelSuggestion>, excluded: Seq<char>) -> Seq<Seq<char>>
    decreases s.len(),
{
    if s.len() == 0 {
        Seq::empty()
    } else {
        let before = keys_except(s.drop_last(), excluded);
        if s.last().key@ == excluded {
            before
        } else {
            before.push(s.last().key@)
        }
    }
}

/// The values of the suggestions with the key `key` that have one, in order.
pub open spec fn values_for_key(s: Seq<LabelSuggestion>, key: Seq<char>) -> Seq<Seq<char>>
    decreases s.len(),
{
    if s.len() == 0 {
        Seq::empty()
    } else {
        let before = values_for_key(s.drop_last(), key);
        if s.last().key@ == key && s.last().value is Some {
            before.push(s.last().value->0@)
        } else {
            before
        }
    }
}

/// Appends `x` to `out` unless `out` holds it already.
fn push_new(out: &mut Vec<String>, x: &String)
    ensures
        views(final(out)@) == if views(old(out)@).contains(x@) {
            views(old(out)@)
        } else {
            views(old(out)@).push(x@)
        },
{
    if !contains_str(out, x.as_str()) {
        out.push(copy_string(x));
        assert(views(out@) =~= views(old(out)@).push(x@));
    }
}

/// The keys offered for a new label: each suggested key once, in the order of
/// first appearance, without the key of the state label.
pub fn initial_label_key_options(suggestions: &Vec<LabelSuggestion>, state_key: &str) -> (r: Vec<String>)
    ensures
        views(r@) == first_occurrences(keys_except(suggestions@, state_key@)),
        views(r@).no_duplicates(),
        forall|k: Seq<char>|
            views(r@).contains(k) <==> keys_except(suggestions@, state_key@).contains(k),
{
    let mut out: Vec<String> = Vec::new();
    let mut i: usize = 0;
    assert(views(out@) =~= first_occurrences(keys_except(suggestions@.take(0), state_key@)));
    while i < suggestions.len()
        invariant
            i <= suggestions.len(),
            views(out@) == first_occurrences(keys_except(suggestions@.take(i as int), state_key@)),
        decreases suggestions.len() - i,
    {
        let ghost next = suggestions@.take(i + 1);
        assert(next.drop_last() =~= suggestions@.take(i as int));
        assert(next.last() == suggestions@[i as int]);
        let k = &suggestions[i].key;
        if !str_eq(k.as_str(), state_key) {
            let ghost ks = keys_except(next, state_key@);
            assert(ks.drop_last() =~= keys_except(suggestions@.take(i as int), state_key@));
            push_new(&mut out, k);
        }
        i = i + 1;
    }
    assert(suggestions@.take(suggestions.len() as int) =~= suggestions@);
    proof {
        lemma_first_occurrences(keys_except(suggestions@, state_key@));
    }
    out
}

/// The values suggested for the key `key`: each value that a suggestion with
/// that key has, once, in the order of first appearance.
pub fn suggested_label_values(suggestions: &Vec<LabelSuggestion>, key: &str) -> (r: Vec<String>)
    ensures
        views(r@) == first_occurrences(values_for_key(suggestions@, key@)),
        views(r@).no_duplicates(),
        forall|v: Seq<char>| views(r@).contains(v) <==> values_for_key(suggestions@, key@).contains(v),
{
    let mut out: Vec<String> = Vec::new();
    let mut i: usize = 0;
    assert(views(out@) =~= first_occurrences(values_for_key(suggestions@.take(0), key@)));
    while i < suggestions.len()
        invariant
            i <= suggestions.len(),
            views(out@) == first_occurrences(values_for_key(suggestions@.take(i as int), key@)),
        decreases suggestions.len() - i,
    {
        let ghost next = suggestions@.take(i + 1);
        assert(next.drop_last() =~= suggestions@.take(i as int));
        assert(next.last() == suggestions@[i as int]);
        let s = &suggestions[i];
        if str_eq(s.key.as_str(), key) {
            match &s.value {
                Some(v) => {
                    let ghost vs = values_for_key(next, key@);
                    assert(vs.drop_last() =~= values_for_key(suggestions@.take(i as int), key@));
                    push_new(&mut out, v);
                },
                None => {},
            }
        }
        i = i + 1;
    }
    assert(suggestions@.take(suggestions.len() as int) =~= suggestions@);
    proof {
        lemma_first_occurrences(values_for_key(suggestions@, key@));
    }
    out
}

/// A state option as its identifier and name.
pub open spec fn option_view(o: StateOption) -> (Seq<char>, Seq<char>) {
    (o.identifier@, o.name@)
}

pub open spec fn options_view(s: Seq<StateOption>) -> Seq<(Seq<char>, Seq<char>)> {
    s.map_values(|o: StateOption| option_view(o))
}

/// Whether one of the options has the identifier `id`.
pub open spec fn has_identifier(s: Seq<(Seq<char>, Seq<char>)>, id: Seq<char>) -> bool {
    exists|j: int| 0 <= j < s.len() && s[j].0 == id
}

/// The options with the first option of each identifier only, in order.
pub open spec fn distinct_options(s: Seq<(Seq<char>, Seq<char>)>) -> Seq<(Seq<char>, Seq<char>)>
    decreases s.len(),
{
    if s.len() == 0 {
        Seq::empty()
    } else {
        let before = distinct_options(s.drop_last());
        if has_identifier(before, s.last().0) {
            before
        } else {
            before.push(s.last())
        }
    }
}

/// Whether `v` holds an option with the identifier `id`.
fn holds_identifier(v: &Vec<StateOption>, id: &str) -> (b: bool)
    ensures
        b == has_identifier(options_view(v@), id@),
{
    let mut i: usize = 0;
    while i < v.len()
        invariant
            i <= v.len(),
            forall|j: int| 0 <= j < i ==> v@[j].identifier@ != id@,
        decreases v.len() - i,
    {
        if str_eq(v[i].identifier.as_str(), id) {
            assert(options_view(v@)[i as int].0 == id@);
            return true;
        }
        i = i + 1;
    }
    proof {
        if has_identifier(options_view(v@), id@) {
            let j = choose|j: int| 0 <= j < v.len() && options_view(v@)[j].0 == id@;
            assert(v@[j].identifier@ == id@);
        }
    }
    false
}

/// The state options offered as values of the state label: the first option
/// of each identifier, in order.
pub fn state_value_options(options: &Vec<StateOption>) -> (r: Vec<StateOption>)
    ensures
        options_view(r@) == distinct_options(options_view(options@)),
{
    let mut out: Vec<StateOption> = Vec::new();
    let mut i: usize = 0;
    assert(options_view(out@) =~= distinct_options(options_view(options@.take(0))));
    while i < options.len()
        invariant
            i <= options.len(),
            options_view(out@) == distinct_options(options_view(options@.take(i as int))),
        decreases options.len() - i,
    {
        let ghost next = options_view(options@.take(i + 1));
        assert(next.drop_last() =~= options_view(options@.take(i as int)));
        assert(next.last() == option_view(options@[i as int]));
        let o = &options[i];
        if !holds_identifier(&out, o.identifier.as_str()) {
            out.push(StateOption { identifier: copy_string(&o.identifier), name: copy_string(&o.name) });
            assert(options_view(out@) =~= distinct_options(next));
        }
        i = i + 1;
    }
    assert(options@.take(options.len() as int) =~= options@);
    out
}

/// The values offered for a new label's value.
pub enum LabelValueOptions {
    /// The key is that of the state label: the states an item may start in.
    States(Vec<StateOption>),
    /// Any other key: the values suggested for it.
    Values(Vec<String>),
}

/// The values offered for a new label with the key `key`: the state options
/// where the trimmed key is the state label's key `state_key`, else the values
/// suggested for the key as it stands.
pub fn initial_label_value_options(
    suggestions: &Vec<LabelSuggestion>,
    state_options: &Vec<StateOption>,
    key: &str,
    state_key: &str,
) -> (r: LabelValueOptions)
    ensures
        trim(key@) == state_key@ ==> (r matches LabelValueOptions::States(o) && options_view(o@)
            == distinct_options(options_view(state_options@))),
        trim(key@) != state_key@ ==> (r matches LabelValueOptions::Values(v) && views(v@)
            == first_occurrences(values_for_key(suggestions@, key@))),
{
    let trimmed = trim_str(key);
    if str_eq(trimmed.as_str(), state_key) {
        LabelValueOptions::States(state_value_options(state_options))
    } else {
        LabelValueOptions::Values(suggested_label_values(suggestions, key))
    }
}

/// The name of the first option with the identifier `current`, or `current`
/// itself where no option has it.
pub open spec fn state_display(s: Seq<(Seq<char>, Seq<char>)>, current: Seq<char>) -> Seq<char>
    decreases s.len(),
{
    if s.len() == 0 {
        current
    } else if s[0].0 == current {
        s[0].1
    } else {
        state_display(s.drop_first(), current)
    }
}

/// The text shown for the chosen state of a new item.
pub fn create_item_state_display(options: &Vec<StateOption>, current: &str) -> (r: String)
    ensures
        r@ == state_display(options_view(options@), current@),
{
    let ghost all = options_view(options@);
    let mut i: usize = 0;
    assert(all.skip(0) =~= all);
    while i < options.len()
        invariant
            i <= options.len(),
            all == options_view(options@),
            state_display(all, current@) == state_display(all.skip(i as int), current@),
        decreases options.len() - i,
    {
        assert(all.skip(i as int)[0] == option_view(options@[i as int]));
        if str_eq(options[i].identifier.as_str(), current) {
            return copy_string(&options[i].name);
        }
        assert(all.skip(i as int).drop_first() =~= all.skip(i + 1));
        i = i + 1;
    }
    assert(all.skip(i as int).len() == 0);
    current.to_string()
}

/// One choice of the state of a new item.
pub struct StateChoice {
    pub value: String,
    pub text: String,
    pub selected: bool,
}

/// The choices of the state of a new item: one per option, marked where it is
/// the selected state, or a single selected placeholder where there is none.
pub fn create_item_state_choices(options: &Vec<StateOption>, selected_state: &str) -> (r: Vec<StateChoice>)
    ensures
        options.len() == 0 ==> r.len() == 1 && r[0].value@ == Seq::<char>::empty() && r[0].text@
            == "No states available"@ && r[0].selected,
        options.len() > 0 ==> r.len() == options.len() && forall|i: int|
            0 <= i < options.len() ==> r[i].value@ == options[i].identifier@ && r[i].text@
                == options[i].name@ && r[i].selected == (options[i].identifier@ == selected_state@),
{
    let mut out: Vec<StateChoice> = Vec::new();
    if options.len() == 0 {
        out.push(
            StateChoice {
                value: String::new(),
                text: String::from_str("No states available"),
                selected: true,
            },
        );
        return out;
    }
    let mut i: usize = 0;
    while i < options.len()
        invariant
            i <= options.len(),
            out.len() == i,
            forall|j: int|
                0 <= j < i ==> out[j].value@ == options[j].identifier@ && out[j].text@
                    == options[j].name@ && out[j].selected == (options[j].identifier@
                    == selected_state@),
        decreases options.len() - i,
    {
        let o = &options[i];
        let selected = str_eq(o.identifier.as_str(), selected_state);
        out.push(StateChoice { value: copy_string(&o.identifier), text: copy_string(&o.name), selected });
        i = i + 1;
    }
    out
}

/// The keys of the suggestions, in order.
pub open spec fn suggestion_keys(s: Seq<LabelSuggestion>) -> Seq<Seq<char>> {
    s.map_values(|x: LabelSuggestion| x.key@)
}

/// The keys offered when a label is added to an item: every suggested key
/// once, in increasing order.
pub fn label_suggestion_keys(suggestions: &Vec<LabelSuggestion>) -> (r: Vec<String>)
    ensures
        strictly_increasing_text(views(r@)),
        views(r@).to_set() == suggestion_keys(suggestions@).to_set(),
{
    let mut keys: Vec<String> = Vec::new();
    let mut i: usize = 0;
    while i < suggestions.len()
        invariant
            i <= suggestions.len(),
            keys.len() == i,
            forall|j: int| 0 <= j < i ==> keys[j]@ == suggestions[j].key@,
        decreases suggestions.len() - i,
    {
        keys.push(copy_string(&suggestions[i].key));
        i = i + 1;
    }
    assert(views(keys@) =~= suggestion_keys(suggestions@));
    sorted_unique_names(keys)
}

/// The identifiers of the states, in order: the values suggested for the
/// state label.
pub fn state_suggestion_values(states: &Vec<StateOption>) -> (r: Vec<String>)
    ensures
        r.len() == states.len(),
        forall|i: int| 0 <= i < states.len() ==> r[i]@ == states[i].identifier@,
{
    let mut out: Vec<String> = Vec::new();
    let mut i: usize = 0;
    while i < states.len()
        invariant
            i <= states.len(),
            out.len() == i,
            forall|j: int| 0 <= j < i ==> out[j]@ == states[j].identifier@,
        decreases states.len() - i,
    {
        out.push(copy_string(&states[i].identifier));
        i = i + 1;
    }
    out
}

} // verus!
