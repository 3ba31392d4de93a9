//! Texts in JSON, taken apart one level at a time: the parts of a value are texts again.
use vstd::prelude::*;

use crate::text;

verus! {

/// A JSON value, one level deep. The values in a table or a list are written as JSON again, as is a
/// value that holds no other and is no string: with no white space, and no name twice.
pub enum Parts {
    Table(Vec<(String, String)>),
    List(Vec<String>),
    Text(String),
    Other(String),
}

/// The model of [`Parts`].
pub enum PartsView {
    Table(Seq<(Seq<char>, Seq<char>)>),
    List(Seq<Seq<char>>),
    Text(Seq<char>),
    Other(Seq<char>),
}

/// Entries, as models.
pub open spec fn entry_views(v: Seq<(String, String)>) -> Seq<(Seq<char>, Seq<char>)> {
    Seq::new(v.len(), |i: int| (v[i].0@, v[i].1@))
}

impl View for Parts {
    type V = PartsView;

    open spec fn view(&self) -> PartsView {
        match self {
            Parts::Table(v) => PartsView::Table(entry_views(v@)),
            Parts::List(v) => PartsView::List(text::views(v@)),
            Parts::Text(s) => PartsView::Text(s@),
            Parts::Other(s) => PartsView::Other(s@),
        }
    }
}

/// The result of taking a text apart, as a model.
pub open spec fn parts_view(r: Option<Parts>) -> Option<PartsView> {
    match r {
        Some(p) => Some(p@),
        None => None,
    }
}

/// The parts of the JSON value that a text holds; none where it holds no JSON value. Of two entries
/// with one name, the later counts.
pub uninterp spec fn parts(json: Seq<char>) -> Option<PartsView>;

/// `serde_json::from_str` for a `serde_json::Value`, taken apart by its variants, and
/// `serde_json::Value::to_string` for the values in it.
///
/// Claimed: the parts depend on the text alone.
#[verifier::external_body]
pub(crate) fn parts_of(json: &str) -> (r: Option<Parts>)
    ensures
        parts_view(r) == parts(json@),
{
    match serde_json::from_str::<serde_json::Value>(json).ok()? {
        serde_json::Value::Object(table) => Some(
            Parts::Table(table.into_iter().map(|(name, v)| (name, v.to_string())).collect()),
        ),
        serde_json::Value::Array(list) => Some(
            Parts::List(list.into_iter().map(|v| v.to_string()).collect()),
        ),
        serde_json::Value::String(s) => Some(Parts::Text(s)),
        other => Some(Parts::Other(other.to_string())),
    }
}

/// The entries of the JSON table in a text; none where the text holds no table.
pub open spec fn entries(json: Seq<char>) -> Option<Seq<(Seq<char>, Seq<char>)>> {
    match parts(json) {
        Some(PartsView::Table(list)) => Some(list),
        _ => None,
    }
}

/// The items of the JSON list in a text; none where the text holds no list.
pub open spec fn items(json: Seq<char>) -> Option<Seq<Seq<char>>> {
    match parts(json) {
        Some(PartsView::List(list)) => Some(list),
        _ => None,
    }
}

/// The characters of the JSON string in a text; none where the text holds no string.
pub open spec fn string(json: Seq<char>) -> Option<Seq<char>> {
    match parts(json) {
        Some(PartsView::Text(s)) => Some(s),
        _ => None,
    }
}

/// Entries that may be missing, as a model.
pub open spec fn table_view(r: Option<Vec<(String, String)>>) -> Option<
    Seq<(Seq<char>, Seq<char>)>,
> {
    match r {
        Some(v) => Some(entry_views(v@)),
        None => None,
    }
}

/// Items that may be missing, as a model.
pub open spec fn item_views(r: Option<Vec<String>>) -> Option<Seq<Seq<char>>> {
    match r {
        Some(v) => Some(text::views(v@)),
        None => None,
    }
}

/// A text that may be missing, as a model.
pub open spec fn string_view(r: Option<String>) -> Option<Seq<char>> {
    match r {
        Some(s) => Some(s@),
        None => None,
    }
}

/// The entries of the JSON table in a text.
pub fn entries_of(json: &str) -> (r: Option<Vec<(String, String)>>)
    ensures
        table_view(r) == entries(json@),
{
    match parts_of(json) {
        Some(Parts::Table(list)) => Some(list),
        _ => None,
    }
}

/// The items of the JSON list in a text.
pub fn items_of(json: &str) -> (r: Option<Vec<String>>)
    ensures
        item_views(r) == items(json@),
{
    match parts_of(json) {
        Some(Parts::List(list)) => Some(list),
        _ => None,
    }
}

/// The characters of the JSON string in a text.
pub fn string_of(json: &str) -> (r: Option<String>)
    ensures
        string_view(r) == string(json@),
{
    match parts_of(json) {
        Some(Parts::Text(s)) => Some(s),
        _ => None,
    }
}

/// The colons from `from` on that stand outside of strings; `inside` says whether `from` lies in a
/// string. In JSON there is one for each entry of a table.
pub open spec fn colons(s: Seq<char>, from: int, inside: bool) -> nat
    decreases s.len() - from,
{
    if from < 0 || from >= s.len() {
        0
    } else if inside && s[from] == '\\' && from + 1 < s.len() {
        colons(s, from + 2, true)
    } else if s[from] == '"' {
        colons(s, from + 1, !inside)
    } else if !inside && s[from] == ':' {
        1 + colons(s, from + 1, false)
    } else {
        colons(s, from + 1, inside)
    }
}

/// The number of colons in a text that stand outside of strings.
pub fn count_colons(s: &str) -> (r: usize)
    ensures
        r == colons(s@, 0, false),
{
    let chars: Vec<char> = text::chars_of(s);
    let mut count: usize = 0;
    let mut inside: bool = false;
    let mut i: usize = 0;
    while i < chars.len()
        invariant
            chars@ == s@,
            count <= i,
            i <= chars@.len(),
            count + colons(s@, i as int, inside) == colons(s@, 0, false),
        decreases chars@.len() - i,
    {
        let c: char = chars[i];
        if inside && c == '\\' && i + 1 < chars.len() {
            i = i + 2;
        } else {
            if c == '"' {
                inside = !inside;
            } else if !inside && c == ':' {
                count = count + 1;
            }
            i = i + 1;
        }
    }
    count
}

/// The entries in the entries of a table from `from` on, and those entries themselves.
pub open spec fn entry_colons(list: Seq<(Seq<char>, Seq<char>)>, from: int) -> nat
    decreases list.len() - from,
{
    if from < 0 || from >= list.len() {
        0
    } else {
        1 + colons(list[from].1, 0, false) + entry_colons(list, from + 1)
    }
}

/// Whether the JSON in a text is a table, and no table in it names an entry twice: it is written
/// with as many entries as it has.
pub open spec fn names_once(json: Seq<char>) -> bool {
    match entries(json) {
        Some(list) => colons(json, 0, false) == entry_colons(list, 0),
        None => false,
    }
}

/// Whether no table in a JSON table names an entry twice; `list` holds its entries.
pub fn has_names_once(json: &str, list: &Vec<(String, String)>) -> (r: bool)
    ensures
        r == (colons(json@, 0, false) == entry_colons(entry_views(list@), 0)),
{
    let ghost models = entry_views(list@);
    let ghost all = colons(json@, 0, false);
    let mut rest: usize = count_colons(json);
    let mut i: usize = 0;
    while i < list.len()
        invariant
            i <= list@.len(),
            models == entry_views(list@),
            all == colons(json@, 0, false),
            (rest == entry_colons(models, i as int)) == (all == entry_colons(models, 0)),
        decreases list@.len() - i,
    {
        assert(models[i as int] == (list@[i as int].0@, list@[i as int].1@));
        let inner: usize = count_colons(list[i].1.as_str());
        if rest <= inner {
            assert(entry_colons(models, i as int) > rest);
            return false;
        }
        rest = rest - inner - 1;
        i = i + 1;
    }
    rest == 0
}

/// The value of `name` among entries from `from` on.
pub open spec fn entry(list: Seq<(Seq<char>, Seq<char>)>, name: Seq<char>, from: int) -> Option<
    Seq<char>,
>
    decreases list.len() - from,
{
    if from < 0 || from >= list.len() {
        None
    } else if list[from].0 == name {
        Some(list[from].1)
    } else {
        entry(list, name, from + 1)
    }
}

/// The value of `name` in a table; none in any other value.
pub open spec fn field(json: Seq<char>, name: Seq<char>) -> Option<Seq<char>> {
    match entries(json) {
        Some(list) => entry(list, name, 0),
        None => None,
    }
}

/// The value of `name` in a table; none in any other value.
pub fn field_of(json: &str, name: &str) -> (r: Option<String>)
    ensures
        string_view(r) == field(json@, name@),
{
    let list: Vec<(String, String)> = match entries_of(json) {
        Some(list) => list,
        None => {
            return None;
        },
    };
    find_entry(&list, name)
}

/// The value of `name` among entries.
pub fn find_entry(list: &Vec<(String, String)>, name: &str) -> (r: Option<String>)
    ensures
        string_view(r) == entry(
            entry_views(list@),
            name@,
            0,
        ),
{
    let ghost models = entry_views(list@);
    let mut i: usize = 0;
    while i < list.len()
        invariant
            i <= list@.len(),
            models == entry_views(list@),
            entry(models, name@, i as int) == entry(models, name@, 0),
        decreases list@.len() - i,
    {
        assert(models[i as int] == (list@[i as int].0@, list@[i as int].1@));
        if text::same_text(list[i].0.as_str(), name) {
            return Some(list[i].1.clone());
        }
        i = i + 1;
    }
    None
}

/// The value of a name among entries is that of the first entry with the name, and there is none
/// where no entry has it.
pub proof fn law_entry_by_name(list: Seq<(Seq<char>, Seq<char>)>, name: Seq<char>, from: int)
    requires
        0 <= from <= list.len(),
    ensures
        entry(list, name, from) is Some <==> exists|i: int|
            from <= i < list.len() && (#[trigger] list[i]).0 == name,
        entry(list, name, from) matches Some(value) ==> exists|i: int|
            {
                &&& from <= i < list.len()
                &&& #[trigger] list[i] == (name, value)
                &&& forall|j: int| from <= j < i ==> (#[trigger] list[j]).0 != name
            },
    decreases list.len() - from,
{
    if from < list.len() {
        if list[from].0 == name {
            assert(list[from] == (name, list[from].1));
        } else {
            law_entry_by_name(list, name, from + 1);
            if let Some(value) = entry(list, name, from + 1) {
                let i = choose|i: int|
                    {
                        &&& from + 1 <= i < list.len()
                        &&& #[trigger] list[i] == (name, value)
                        &&& forall|j: int| from + 1 <= j < i ==> (#[trigger] list[j]).0 != name
                    };
                assert(list[i] == (name, value));
            }
        }
    }
}

} // verus!
