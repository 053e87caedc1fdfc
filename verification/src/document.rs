//! TOML documents as plain values, and the lookups the configuration and
//! the song metadata make in them.
//!
//! Parsing is done by the `toml` crate; the parsed document is carried over
//! value for value into `TomlValue`.  Floats and dates keep only their kind:
//! the library decides on whether a value is a number, never on its size.
use vstd::prelude::*;
use vstd::string::StringExecFns;

verus! {

/// A TOML value.
pub enum TomlValue {
    Str(String),
    Int(i64),
    Float,
    Bool(bool),
    Datetime,
    Array(Vec<TomlValue>),
    /// The entries of a table, in the order the parser yields them.
    Table(Vec<(String, TomlValue)>),
}

/// The mathematical form of a `TomlValue`.
pub enum TomlView {
    Str(Seq<char>),
    Int(i64),
    Float,
    Bool(bool),
    Datetime,
    Array(Seq<TomlView>),
    Table(Seq<(Seq<char>, TomlView)>),
}

pub open spec fn value_view(v: TomlValue) -> TomlView
    decreases v,
{
    match v {
        TomlValue::Str(s) => TomlView::Str(s@),
        TomlValue::Int(i) => TomlView::Int(i),
        TomlValue::Float => TomlView::Float,
        TomlValue::Bool(b) => TomlView::Bool(b),
        TomlValue::Datetime => TomlView::Datetime,
        TomlValue::Array(a) => TomlView::Array(
            Seq::new(
                a@.len(),
                |i: int|
                    if 0 <= i < a@.len() {
                        value_view(a@[i])
                    } else {
                        TomlView::Float
                    },
            ),
        ),
        TomlValue::Table(t) => TomlView::Table(
            Seq::new(
                t@.len(),
                |i: int|
                    if 0 <= i < t@.len() {
                        (t@[i].0@, value_view(t@[i].1))
                    } else {
                        (Seq::empty(), TomlView::Float)
                    },
            ),
        ),
    }
}

pub open spec fn opt_view(v: Option<&TomlValue>) -> Option<TomlView> {
    match v {
        Some(x) => Some(value_view(*x)),
        None => None,
    }
}

/// The document that `toml::from_str` parses from `text`, as a table;
/// `None` when the text is not a TOML document.
pub uninterp spec fn toml_doc(text: Seq<char>) -> Option<TomlView>;

#[verifier::external_type_specification]
#[verifier::external_body]
pub struct ExTomlValue(toml::Value);

/// Carries a parsed `toml::Value` over into a `TomlValue`, variant for
/// variant (a float or a date keeps only its kind).
#[verifier::external_body]
fn toml_value(v: &toml::Value) -> TomlValue {
    match v {
        toml::Value::String(s) => TomlValue::Str(s.clone()),
        toml::Value::Integer(i) => TomlValue::Int(*i),
        toml::Value::Float(_) => TomlValue::Float,
        toml::Value::Boolean(b) => TomlValue::Bool(*b),
        toml::Value::Datetime(_) => TomlValue::Datetime,
        toml::Value::Array(a) => TomlValue::Array(a.iter().map(toml_value).collect()),
        toml::Value::Table(t) => TomlValue::Table(t.iter().map(|(k, x)| (k.clone(), toml_value(x))).collect()),
    }
}

/// Parses `text` with `toml::from_str` into a table and carries it over
/// into a `TomlValue::Table`.  The contract names the result by `toml_doc`;
/// nothing of the TOML grammar is claimed.
#[verifier::external_body]
pub(crate) fn parse_toml(text: &str) -> (r: Option<TomlValue>)
    ensures
        match r {
            Some(d) => toml_doc(text@) == Some(value_view(d)),
            None => toml_doc(text@) is None,
        },
{
    let t: toml::Table = toml::from_str(text).ok()?;
    Some(toml_value(&toml::Value::Table(t)))
}

/// The value of the first entry named `key` among `entries`, from index `i` on.
pub open spec fn entry_from(entries: Seq<(Seq<char>, TomlView)>, key: Seq<char>, i: int) -> Option<TomlView>
    decreases entries.len() - i,
{
    if i < 0 || i >= entries.len() {
        None
    } else if entries[i].0 == key {
        Some(entries[i].1)
    } else {
        entry_from(entries, key, i + 1)
    }
}

/// The value under `key` in `v` when `v` is a table; `None` otherwise.
pub open spec fn get_spec(v: Option<TomlView>, key: Seq<char>) -> Option<TomlView> {
    match v {
        Some(TomlView::Table(e)) => entry_from(e, key, 0),
        _ => None,
    }
}

/// The string `v` holds, if it is one.
pub open spec fn str_spec(v: Option<TomlView>) -> Option<Seq<char>> {
    match v {
        Some(TomlView::Str(s)) => Some(s),
        _ => None,
    }
}

/// The boolean `v` holds, if it is one.
pub open spec fn bool_spec(v: Option<TomlView>) -> Option<bool> {
    match v {
        Some(TomlView::Bool(b)) => Some(b),
        _ => None,
    }
}

/// Whether `v` is a number: an integer or a float.
pub open spec fn is_number_spec(v: Option<TomlView>) -> bool {
    match v {
        Some(TomlView::Int(_)) => true,
        Some(TomlView::Float) => true,
        _ => false,
    }
}

/// For an array, each entry as a string when it is one.
pub open spec fn strings_spec(v: Option<TomlView>) -> Option<Seq<Option<Seq<char>>>> {
    match v {
        Some(TomlView::Array(a)) => Some(a.map_values(|x: TomlView| str_spec(Some(x)))),
        _ => None,
    }
}

/// The keys of a table, in order; none for anything else.
pub open spec fn keys_spec(v: Option<TomlView>) -> Seq<Seq<char>> {
    match v {
        Some(TomlView::Table(e)) => e.map_values(|x: (Seq<char>, TomlView)| x.0),
        _ => Seq::empty(),
    }
}

/// The value under `key` in `v` when `v` is a table.
pub fn get<'a>(v: Option<&'a TomlValue>, key: &str) -> (r: Option<&'a TomlValue>)
    ensures
        opt_view(r) == get_spec(opt_view(v), key@),
{
    match v {
        Some(TomlValue::Table(t)) => {
            let k = String::from_str(key);
            let ghost e = match opt_view(v) {
                Some(TomlView::Table(e)) => e,
                _ => Seq::empty(),
            };
            assert(e.len() == t@.len());
            assert(forall|j: int| 0 <= j < t@.len() ==> #[trigger] e[j] == (t@[j].0@, value_view(t@[j].1)));
            let n = t.len();
            let mut i: usize = 0;
            while i < n
                invariant
                    i <= n == t@.len() == e.len(),
                    k@ == key@,
                    opt_view(v) == Some(TomlView::Table(e)),
                    forall|j: int| 0 <= j < t@.len() ==> #[trigger] e[j] == (t@[j].0@, value_view(t@[j].1)),
                    entry_from(e, key@, 0) == entry_from(e, key@, i as int),
                decreases n - i,
            {
                assert(e[i as int] == (t@[i as int].0@, value_view(t@[i as int].1)));
                if t[i].0 == k {
                    return Some(&t[i].1);
                }
                i = i + 1;
            }
            None
        },
        _ => None,
    }
}

/// The string `v` holds, if it is one.
pub fn as_string(v: Option<&TomlValue>) -> (r: Option<String>)
    ensures
        match r {
            Some(s) => str_spec(opt_view(v)) == Some(s@),
            None => str_spec(opt_view(v)) is None,
        },
{
    match v {
        Some(TomlValue::Str(s)) => Some(s.clone()),
        _ => None,
    }
}

/// The boolean `v` holds, if it is one.
pub fn as_bool(v: Option<&TomlValue>) -> (r: Option<bool>)
    ensures
        r == bool_spec(opt_view(v)),
{
    match v {
        Some(TomlValue::Bool(b)) => Some(*b),
        _ => None,
    }
}

/// Whether `v` is an integer or a float.
pub fn is_number(v: Option<&TomlValue>) -> (r: bool)
    ensures
        r == is_number_spec(opt_view(v)),
{
    match v {
        Some(TomlValue::Int(_)) => true,
        Some(TomlValue::Float) => true,
        _ => false,
    }
}

pub open spec fn opt_strings_view(l: Option<Vec<Option<String>>>) -> Option<Seq<Option<Seq<char>>>> {
    match l {
        Some(v) => Some(
            v@.map_values(
                |o: Option<String>| match o {
                    Some(t) => Some(t@),
                    None => None,
                },
            ),
        ),
        None => None,
    }
}

/// For an array, each entry as a string when it is one; `None` for anything else.
pub fn string_entries(v: Option<&TomlValue>) -> (r: Option<Vec<Option<String>>>)
    ensures
        opt_strings_view(r) == strings_spec(opt_view(v)),
{
    match v {
        Some(TomlValue::Array(a)) => {
            let ghost av = match opt_view(v) {
                Some(TomlView::Array(av)) => av,
                _ => Seq::empty(),
            };
            assert(av.len() == a@.len());
            assert(forall|j: int| 0 <= j < a@.len() ==> #[trigger] av[j] == value_view(a@[j]));
            let mut out: Vec<Option<String>> = Vec::new();
            let n = a.len();
            let mut i: usize = 0;
            while i < n
                invariant
                    i <= n == a@.len() == av.len(),
                    opt_view(v) == Some(TomlView::Array(av)),
                    forall|j: int| 0 <= j < a@.len() ==> #[trigger] av[j] == value_view(a@[j]),
                    out@.len() == i,
                    forall|j: int|
                        0 <= j < i ==> (match #[trigger] out@[j] {
                            Some(t) => Some(t@),
                            None => None,
                        }) == str_spec(Some(av[j])),
                decreases n - i,
            {
                let s = as_string(Some(&a[i]));
                assert(av[i as int] == value_view(a@[i as int]));
                out.push(s);
                i = i + 1;
            }
            let r = Some(out);
            assert(opt_strings_view(r).unwrap() =~= av.map_values(|x: TomlView| str_spec(Some(x))));
            r
        },
        _ => None,
    }
}

/// The keys of a table, in order; none for anything else.
pub fn table_keys(v: Option<&TomlValue>) -> (r: Vec<String>)
    ensures
        r@.map_values(|k: String| k@) == keys_spec(opt_view(v)),
{
    let mut out: Vec<String> = Vec::new();
    match v {
        Some(TomlValue::Table(t)) => {
            let ghost e = match opt_view(v) {
                Some(TomlView::Table(e)) => e,
                _ => Seq::empty(),
            };
            assert(e.len() == t@.len());
            assert(forall|j: int| 0 <= j < t@.len() ==> #[trigger] e[j] == (t@[j].0@, value_view(t@[j].1)));
            let n = t.len();
            let mut i: usize = 0;
            while i < n
                invariant
                    i <= n == t@.len() == e.len(),
                    opt_view(v) == Some(TomlView::Table(e)),
                    forall|j: int| 0 <= j < t@.len() ==> #[trigger] e[j] == (t@[j].0@, value_view(t@[j].1)),
                    out@.len() == i,
                    forall|j: int| 0 <= j < i ==> (#[trigger] out@[j])@ == e[j].0,
                decreases n - i,
            {
                assert(e[i as int] == (t@[i as int].0@, value_view(t@[i as int].1)));
                out.push(t[i].0.clone());
                i = i + 1;
            }
            assert(out@.map_values(|k: String| k@) =~= e.map_values(|x: (Seq<char>, TomlView)| x.0));
        },
        _ => {
            assert(out@.map_values(|k: String| k@) =~= Seq::<Seq<char>>::empty());
        },
    }
    out
}

} // verus!
