//! The generic JSON envelope model and field-path navigation.
//!
//! A parsed document is held as plain data (`Json`), so that the navigation
//! logic — walk a path of object-key / array-index segments, yielding "no
//! value" on the first mismatch — is ordinary verified code. Only the parse
//! itself is delegated to `serde_json`, behind trusted wrappers.

use vstd::prelude::*;

verus! {

/// A JSON document as plain data. Numbers keep the textual form the parser
/// printed for them; none of the engine's logic reads a numeric value.
#[derive(Debug)]
pub enum Json {
    Null,
    Bool(bool),
    Number(String),
    Text(String),
    Array(Vec<Json>),
    Object(Vec<(String, Json)>),
}

/// One step of a field path: an object key or an array index.
#[derive(Clone, Debug)]
pub enum Seg {
    Key(String),
    Index(usize),
}

/// What `serde_json::from_str` returns on a given text: the parsed document
/// when the text is one complete JSON document, `None` otherwise.
pub uninterp spec fn parsed_json(s: Seq<char>) -> Option<Json>;

/// What decoding bytes as UTF-8 yields: the text when the bytes are valid
/// UTF-8, `None` otherwise.
pub uninterp spec fn utf8_text(b: Seq<u8>) -> Option<Seq<char>>;

#[verifier::external_type_specification]
#[verifier::external_body]
pub struct ExValue(serde_json::Value);

/// Relies on `serde_json::from_str::<serde_json::Value>`: it returns `Ok`
/// exactly on a text that is one complete JSON document, and the document it
/// returns is a function of the text alone. `json_of_value` carries the
/// parsed tree over into `Json`, variant by variant.
#[verifier::external_body]
pub(crate) fn parse_json(s: &str) -> (r: Option<Json>)
    ensures
        r == parsed_json(s@),
{
    match serde_json::from_str::<serde_json::Value>(s) {
        Ok(v) => Some(json_of_value(v)),
        Err(_) => None,
    }
}

/// The conversion half of `parse_json`, which is the one caller that matters:
/// each `serde_json::Value` variant moves to the matching `Json` variant, one
/// arm each; a number keeps the text `serde_json` prints for it.
#[verifier::external_body]
fn json_of_value(v: serde_json::Value) -> Json {
    match v {
        serde_json::Value::Null => Json::Null,
        serde_json::Value::Bool(b) => Json::Bool(b),
        serde_json::Value::Number(n) => Json::Number(n.to_string()),
        serde_json::Value::String(s) => Json::Text(s),
        serde_json::Value::Array(a) => Json::Array(a.into_iter().map(json_of_value).collect()),
        serde_json::Value::Object(m) => Json::Object(
            m.into_iter().map(|(k, x)| (k, json_of_value(x))).collect(),
        ),
    }
}

/// Relies on `core::str::from_utf8`: it returns `Ok` exactly on bytes that
/// are valid UTF-8, and the text is a function of the bytes alone.
#[verifier::external_body]
pub(crate) fn text_of_bytes(b: &Vec<u8>) -> (r: Option<String>)
    ensures
        r is Some <==> utf8_text(b@) is Some,
        r is Some ==> utf8_text(b@) == Some(r->0@),
{
    match core::str::from_utf8(b) {
        Ok(s) => Some(s.to_owned()),
        Err(_) => None,
    }
}

/// The first field of `fields` named `key`, if any.
pub open spec fn spec_lookup(fields: Seq<(String, Json)>, key: Seq<char>) -> Option<Json>
    decreases fields.len(),
{
    if fields.len() == 0 {
        None
    } else if fields[0].0@ == key {
        Some(fields[0].1)
    } else {
        spec_lookup(fields.skip(1), key)
    }
}

/// One navigation step: a `Key` segment requires an object holding that key;
/// an `Index` segment requires an array with the index in range. Anything
/// else yields no value.
pub open spec fn spec_step(j: Json, seg: Seg) -> Option<Json> {
    match seg {
        Seg::Key(k) => match j {
            Json::Object(fields) => spec_lookup(fields@, k@),
            _ => None,
        },
        Seg::Index(n) => match j {
            Json::Array(items) => if (n as int) < items@.len() {
                Some(items@[n as int])
            } else {
                None
            },
            _ => None,
        },
    }
}

/// Walk the path segment by segment; the first mismatch ends the walk with
/// no value.
pub open spec fn spec_navigate(j: Json, path: Seq<Seg>) -> Option<Json>
    decreases path.len(),
{
    if path.len() == 0 {
        Some(j)
    } else {
        match spec_step(j, path[0]) {
            Some(j2) => spec_navigate(j2, path.skip(1)),
            None => None,
        }
    }
}

/// The text at the end of the path: a successful walk that lands on a
/// non-text value also yields no value.
pub open spec fn spec_text_at(j: Json, path: Seq<Seg>) -> Option<Seq<char>> {
    match spec_navigate(j, path) {
        Some(Json::Text(s)) => Some(s@),
        _ => None,
    }
}

/// `c` is an ASCII decimal digit.
pub open spec fn is_digit(c: char) -> bool {
    '0' <= c && c <= '9'
}

pub open spec fn digit_val(c: char) -> nat {
    ((c as int) - ('0' as int)) as nat
}

/// `s` is a non-empty run of decimal digits.
pub open spec fn is_digits(s: Seq<char>) -> bool {
    s.len() > 0 && forall|i: int| 0 <= i < s.len() ==> is_digit(#[trigger] s[i])
}

/// The number a run of digits denotes.
pub open spec fn digits_val(s: Seq<char>) -> nat
    decreases s.len(),
{
    if s.len() == 0 {
        0
    } else {
        10 * digits_val(s.drop_last()) + digit_val(s.last())
    }
}

/// A configured path element denotes an array index exactly when it is a
/// run of digits whose value fits the machine; everything else is an object
/// key, taken verbatim.
pub open spec fn spec_seg_of_string(s: String) -> Seg {
    if is_digits(s@) && digits_val(s@) <= usize::MAX {
        Seg::Index(digits_val(s@) as usize)
    } else {
        Seg::Key(s)
    }
}

/// `seg` is what the path element `s` denotes.
pub open spec fn seg_matches(seg: Seg, s: Seq<char>) -> bool {
    match seg {
        Seg::Index(n) => is_digits(s) && digits_val(s) == n,
        Seg::Key(k) => k@ == s && !(is_digits(s) && digits_val(s) <= usize::MAX),
    }
}

/// The segments a path of strings denotes.
pub open spec fn spec_segs(path: Seq<String>) -> Seq<Seg> {
    path.map_values(|s: String| spec_seg_of_string(s))
}

proof fn lemma_digits_val_mono(s: Seq<char>, i: int)
    requires
        0 <= i <= s.len(),
        forall|k: int| 0 <= k < s.len() ==> is_digit(#[trigger] s[k]),
    ensures
        digits_val(s.subrange(0, i)) <= digits_val(s),
    decreases s.len() - i,
{
    if i < s.len() {
        assert(s.subrange(0, i + 1).drop_last() =~= s.subrange(0, i));
        assert(s.subrange(0, i + 1).last() == s[i]);
        lemma_digits_val_mono(s, i + 1);
    } else {
        assert(s.subrange(0, i) =~= s);
    }
}

/// Read one path element as a segment.
pub fn seg_of(s: &String) -> (r: Seg)
    ensures
        seg_matches(r, s@),
{
    let st = s.as_str();
    let n = st.unicode_len();
    if n == 0 {
        return Seg::Key(s.clone());
    }
    let mut i: usize = 0;
    let mut val: usize = 0;
    while i < n
        invariant
            n == s@.len(),
            0 < n,
            i <= n,
            forall|k: int| 0 <= k < i ==> is_digit(#[trigger] s@[k]),
            val == digits_val(s@.subrange(0, i as int)),
            st@ == s@,
        decreases n - i,
    {
        let c = st.get_char(i);
        let cv = c as u32;
        if cv < 48 || cv > 57 {
            assert(!is_digit(s@[i as int]));
            return Seg::Key(s.clone());
        }
        assert(is_digit(s@[i as int]));
        let d = (cv - 48) as usize;
        proof {
            assert(d == digit_val(s@[i as int]));
            assert(s@.subrange(0, i as int + 1).drop_last() =~= s@.subrange(0, i as int));
            assert(s@.subrange(0, i as int + 1).last() == s@[i as int]);
        }
        let step = match val.checked_mul(10) {
            Some(v10) => v10.checked_add(d),
            None => None,
        };
        match step {
            Some(v) => {
                val = v;
            },
            None => {
                proof {
                    if is_digits(s@) {
                        lemma_digits_val_mono(s@, i as int + 1);
                    }
                }
                return Seg::Key(s.clone());
            },
        }
        i = i + 1;
    }
    proof {
        assert(s@.subrange(0, n as int) =~= s@);
    }
    Seg::Index(val)
}

/// Read a whole configured field path as segments.
pub fn segs_of_path(path: &Vec<String>) -> (r: Vec<Seg>)
    ensures
        r@.len() == path@.len(),
        forall|i: int| 0 <= i < r@.len() ==> seg_matches(#[trigger] r@[i], path@[i]@),
{
    let n = path.len();
    let mut out: Vec<Seg> = Vec::new();
    let mut i: usize = 0;
    while i < n
        invariant
            n == path@.len(),
            i <= n,
            out@.len() == i,
            forall|k: int| 0 <= k < i ==> seg_matches(#[trigger] out@[k], path@[k]@),
        decreases n - i,
    {
        out.push(seg_of(&path[i]));
        i = i + 1;
    }
    out
}

proof fn lemma_step_by_matching_seg(j: Json, a: Seg, s: String)
    requires
        seg_matches(a, s@),
    ensures
        spec_step(j, a) == spec_step(j, spec_seg_of_string(s)),
{
}

/// Two paths that denote the same segments navigate alike: the segments a
/// path of strings was read into lead to the same value as the path itself.
pub proof fn lemma_navigate_by_matching_segs(j: Json, a: Seq<Seg>, b: Seq<String>)
    requires
        a.len() == b.len(),
        forall|i: int| 0 <= i < a.len() ==> seg_matches(#[trigger] a[i], b[i]@),
    ensures
        spec_navigate(j, a) == spec_navigate(j, spec_segs(b)),
    decreases a.len(),
{
    if a.len() == 0 {
    } else {
        assert(spec_segs(b)[0] == spec_seg_of_string(b[0]));
        lemma_step_by_matching_seg(j, a[0], b[0]);
        match spec_step(j, a[0]) {
            Some(j2) => {
                lemma_navigate_by_matching_segs(j2, a.skip(1), b.skip(1));
                assert(spec_segs(b).skip(1) =~= spec_segs(b.skip(1)));
            },
            None => {},
        }
    }
}

/// Navigate `j` along a path of configured strings and return the text
/// found there, if any.
pub fn extract_text_by_fields(j: &Json, path: &Vec<String>) -> (r: Option<String>)
    ensures
        match r {
            Some(t) => spec_text_at(*j, spec_segs(path@)) == Some(t@),
            None => spec_text_at(*j, spec_segs(path@)) is None,
        },
{
    let segs = segs_of_path(path);
    proof {
        lemma_navigate_by_matching_segs(*j, segs@, path@);
    }
    extract_text(j, &segs)
}

/// The fields with the first one named `key` taken out; without such a
/// field, the fields unchanged.
pub open spec fn spec_remove_first(fields: Seq<(String, Json)>, key: Seq<char>) -> Seq<
    (String, Json),
>
    decreases fields.len(),
{
    if fields.len() == 0 {
        fields
    } else if fields[0].0@ == key {
        fields.skip(1)
    } else {
        seq![fields[0]] + spec_remove_first(fields.skip(1), key)
    }
}

proof fn lemma_remove_first_at(fields: Seq<(String, Json)>, key: Seq<char>, i: int)
    requires
        0 <= i < fields.len(),
        fields[i].0@ == key,
        forall|j: int| 0 <= j < i ==> #[trigger] fields[j].0@ != key,
    ensures
        spec_remove_first(fields, key) == fields.subrange(0, i) + fields.skip(i + 1),
    decreases i,
{
    if i == 0 {
        assert(fields.subrange(0, 0) + fields.skip(1) =~= fields.skip(1));
    } else {
        lemma_remove_first_at(fields.skip(1), key, i - 1);
        assert(fields.skip(1).subrange(0, i - 1) =~= fields.subrange(1, i));
        assert(fields.skip(1).skip(i) =~= fields.skip(i + 1));
        assert(seq![fields[0]] + (fields.subrange(1, i) + fields.skip(i + 1)) =~= fields.subrange(
            0,
            i,
        ) + fields.skip(i + 1));
    }
}

proof fn lemma_remove_first_absent(fields: Seq<(String, Json)>, key: Seq<char>)
    requires
        forall|j: int| 0 <= j < fields.len() ==> #[trigger] fields[j].0@ != key,
    ensures
        spec_remove_first(fields, key) == fields,
    decreases fields.len(),
{
    if fields.len() > 0 {
        lemma_remove_first_absent(fields.skip(1), key);
        assert(seq![fields[0]] + fields.skip(1) =~= fields);
    }
}

/// Take the first field named `key` out of an object's fields, if present.
pub fn remove_field(fields: &mut Vec<(String, Json)>, key: &String)
    ensures
        final(fields)@ == spec_remove_first(old(fields)@, key@),
{
    let n = fields.len();
    let mut i: usize = 0;
    while i < n
        invariant
            n == fields@.len(),
            i <= n,
            fields@ == old(fields)@,
            forall|j: int| 0 <= j < i ==> #[trigger] fields@[j].0@ != key@,
        decreases n - i,
    {
        if fields[i].0.eq(key) {
            proof {
                lemma_remove_first_at(fields@, key@, i as int);
            }
            fields.remove(i);
            proof {
                assert(fields@ =~= old(fields)@.subrange(0, i as int) + old(fields)@.skip(
                    i as int + 1,
                ));
            }
            return ;
        }
        i = i + 1;
    }
    proof {
        lemma_remove_first_absent(fields@, key@);
    }
}

/// The first field of `fields` named `key`, if any.
pub fn lookup<'a>(fields: &'a Vec<(String, Json)>, key: &String) -> (r: Option<&'a Json>)
    ensures
        match r {
            Some(v) => spec_lookup(fields@, key@) == Some(*v),
            None => spec_lookup(fields@, key@) is None,
        },
{
    let n = fields.len();
    let mut i: usize = 0;
    assert(fields@.skip(0) =~= fields@);
    while i < n
        invariant
            n == fields@.len(),
            i <= n,
            spec_lookup(fields@.skip(i as int), key@) == spec_lookup(fields@, key@),
        decreases n - i,
    {
        assert(fields@.skip(i as int)[0] == fields@[i as int]);
        if fields[i].0.eq(key) {
            return Some(&fields[i].1);
        }
        assert(fields@.skip(i as int).skip(1) =~= fields@.skip(i + 1));
        i = i + 1;
    }
    assert(fields@.skip(i as int).len() == 0);
    None
}

fn navigate_from<'a>(j: &'a Json, path: &Vec<Seg>, i: usize) -> (r: Option<&'a Json>)
    requires
        i <= path@.len(),
    ensures
        match r {
            Some(v) => spec_navigate(*j, path@.skip(i as int)) == Some(*v),
            None => spec_navigate(*j, path@.skip(i as int)) is None,
        },
    decreases path@.len() - i,
{
    if i == path.len() {
        assert(path@.skip(i as int).len() == 0);
        return Some(j);
    }
    assert(path@.skip(i as int)[0] == path@[i as int]);
    assert(path@.skip(i as int).skip(1) =~= path@.skip(i as int + 1));
    let step: Option<&Json> = match &path[i] {
        Seg::Key(k) => match j {
            Json::Object(fields) => lookup(fields, k),
            _ => None,
        },
        Seg::Index(n) => match j {
            Json::Array(items) => if *n < items.len() {
                Some(&items[*n])
            } else {
                None
            },
            _ => None,
        },
    };
    match step {
        Some(j2) => navigate_from(j2, path, i + 1),
        None => None,
    }
}

/// Navigate `j` along `path` and return the value found, if any.
pub fn navigate<'a>(j: &'a Json, path: &Vec<Seg>) -> (r: Option<&'a Json>)
    ensures
        match r {
            Some(v) => spec_navigate(*j, path@) == Some(*v),
            None => spec_navigate(*j, path@) is None,
        },
{
    assert(path@.skip(0) =~= path@);
    navigate_from(j, path, 0)
}

/// Navigate `j` along `path` and return the text found there, if the walk
/// succeeds and lands on a text value.
pub fn extract_text(j: &Json, path: &Vec<Seg>) -> (r: Option<String>)
    ensures
        match r {
            Some(t) => spec_text_at(*j, path@) == Some(t@),
            None => spec_text_at(*j, path@) is None,
        },
{
    match navigate(j, path) {
        Some(v) => match v {
            Json::Text(s) => Some(s.clone()),
            _ => None,
        },
        None => None,
    }
}

} // verus!
