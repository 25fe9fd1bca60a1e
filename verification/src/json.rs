//! An owned model of JSON documents.
//!
//! Configuration documents are held as [`JsonValue`] trees so that the
//! parsing and merging logic can be specified and verified over a
//! mathematical view, [`JsonV`], built from `Seq<char>` and `Seq` alone.
//! Numbers are kept as their decimal text, which loses nothing on a
//! read-modify-write round trip and lets the timeout parser state exactly
//! which numeric fields it accepts.

use vstd::prelude::*;

verus! {

/// One JSON value: an object is an ordered list of key/value pairs.
#[derive(Debug)]
pub enum JsonValue {
    Null,
    Bool(bool),
    /// A number, kept as its decimal text (e.g. `"30"`, `"-1"`, `"2.5"`).
    Num(String),
    Text(String),
    Array(Vec<JsonValue>),
    Object(Vec<(String, JsonValue)>),
}

/// The mathematical view of a [`JsonValue`].
pub enum JsonV {
    Null,
    Bool(bool),
    Num(Seq<char>),
    Text(Seq<char>),
    Arr(Seq<JsonV>),
    Obj(Seq<(Seq<char>, JsonV)>),
}

/// The views of an array's elements, in order.
pub open spec fn arr_view(items: Seq<JsonValue>) -> Seq<JsonV>
    decreases items,
{
    if items.len() == 0 {
        Seq::empty()
    } else {
        seq![items[0]@] + arr_view(items.drop_first())
    }
}

/// The views of an object's entries, in order.
pub open spec fn obj_view(entries: Seq<(String, JsonValue)>) -> Seq<(Seq<char>, JsonV)>
    decreases entries,
{
    if entries.len() == 0 {
        Seq::empty()
    } else {
        seq![(entries[0].0@, entries[0].1@)] + obj_view(entries.drop_first())
    }
}

/// An array's view is as long as the array.
pub broadcast proof fn lemma_arr_view_len(items: Seq<JsonValue>)
    ensures
        #[trigger] arr_view(items).len() == items.len(),
    decreases items.len(),
{
    if items.len() == 0 {
        assert(arr_view(items) == Seq::<JsonV>::empty());
    } else {
        lemma_arr_view_len(items.drop_first());
        assert(arr_view(items) == seq![items[0]@] + arr_view(items.drop_first()));
    }
}

/// Each element of an array's view is the view of that element.
pub broadcast proof fn lemma_arr_view_index(items: Seq<JsonValue>, i: int)
    requires
        0 <= i < items.len(),
    ensures
        #[trigger] arr_view(items)[i] == items[i]@,
    decreases items.len(),
{
    assert(arr_view(items) == seq![items[0]@] + arr_view(items.drop_first()));
    lemma_arr_view_len(items.drop_first());
    if i > 0 {
        lemma_arr_view_index(items.drop_first(), i - 1);
        assert(items.drop_first()[i - 1] == items[i]);
    }
}

/// An object's view has one entry per entry of the object.
pub broadcast proof fn lemma_obj_view_len(entries: Seq<(String, JsonValue)>)
    ensures
        #[trigger] obj_view(entries).len() == entries.len(),
    decreases entries.len(),
{
    if entries.len() == 0 {
        assert(obj_view(entries) == Seq::<(Seq<char>, JsonV)>::empty());
    } else {
        lemma_obj_view_len(entries.drop_first());
        assert(obj_view(entries) == seq![(entries[0].0@, entries[0].1@)] + obj_view(
            entries.drop_first(),
        ));
    }
}

/// Each entry of an object's view carries the views of that entry's key and value.
pub broadcast proof fn lemma_obj_view_index(entries: Seq<(String, JsonValue)>, i: int)
    requires
        0 <= i < entries.len(),
    ensures
        #[trigger] obj_view(entries)[i] == (entries[i].0@, entries[i].1@),
    decreases entries.len(),
{
    assert(obj_view(entries) == seq![(entries[0].0@, entries[0].1@)] + obj_view(
        entries.drop_first(),
    ));
    lemma_obj_view_len(entries.drop_first());
    if i > 0 {
        lemma_obj_view_index(entries.drop_first(), i - 1);
        assert(entries.drop_first()[i - 1] == entries[i]);
    }
}

impl View for JsonValue {
    type V = JsonV;

    open spec fn view(&self) -> JsonV
        decreases self,
    {
        match self {
            JsonValue::Null => JsonV::Null,
            JsonValue::Bool(b) => JsonV::Bool(*b),
            JsonValue::Num(s) => JsonV::Num(s@),
            JsonValue::Text(s) => JsonV::Text(s@),
            JsonValue::Array(a) => JsonV::Arr(arr_view(a@)),
            JsonValue::Object(o) => JsonV::Obj(obj_view(o@)),
        }
    }
}

/// The value at `key` in an object's entry list: the first match, if any.
pub open spec fn obj_find(entries: Seq<(Seq<char>, JsonV)>, key: Seq<char>) -> Option<JsonV>
    decreases entries.len(),
{
    if entries.len() == 0 {
        None
    } else if entries[0].0 == key {
        Some(entries[0].1)
    } else {
        obj_find(entries.drop_first(), key)
    }
}

/// Whether no two entries of an object share a key.
pub open spec fn keys_unique(entries: Seq<(Seq<char>, JsonV)>) -> bool {
    forall|i: int, j: int|
        0 <= i < j < entries.len() ==> entries[i].0 != entries[j].0
}

/// Well-formedness of a JSON model: every object has unique keys.
pub open spec fn jv_wf(v: JsonV) -> bool
    decreases v,
{
    match v {
        JsonV::Arr(items) => forall|i: int| 0 <= i < items.len() ==> jv_wf(#[trigger] items[i]),
        JsonV::Obj(entries) => keys_unique(entries) && forall|i: int|
            0 <= i < entries.len() ==> jv_wf(#[trigger] entries[i].1),
        _ => true,
    }
}

/// Whether `c` is a decimal digit.
pub open spec fn is_digit(c: char) -> bool {
    48 <= c as int <= 57
}

/// The numeric value of a digit; zero for any other character.
pub open spec fn digit_val(c: char) -> nat {
    if is_digit(c) {
        (c as int - 48) as nat
    } else {
        0
    }
}

/// Whether `s` is one or more decimal digits.
pub open spec fn is_dec_digits(s: Seq<char>) -> bool {
    s.len() > 0 && forall|i: int| 0 <= i < s.len() ==> is_digit(s[i])
}

/// The number denoted by a sequence of decimal digits.
pub open spec fn dec_val(s: Seq<char>) -> nat
    decreases s.len(),
{
    if s.len() == 0 {
        0
    } else {
        dec_val(s.drop_last()) * 10 + digit_val(s.last())
    }
}

/// The character for one decimal digit.
pub open spec fn digit_char(d: nat) -> char {
    ((48 + d) as u8) as char
}

/// The decimal representation of a number: digits without leading
/// zeroes.
pub open spec fn dec_repr(n: nat) -> Seq<char>
    decreases n,
{
    if n < 10 {
        seq![digit_char(n)]
    } else {
        dec_repr(n / 10) + seq![digit_char(n % 10)]
    }
}

/// A digit string's value only grows as digits are appended.
proof fn lemma_dec_val_prefix(s: Seq<char>, i: int)
    requires
        0 <= i <= s.len(),
    ensures
        dec_val(s.subrange(0, i)) <= dec_val(s),
    decreases s.len() - i,
{
    if i == s.len() {
        assert(s.subrange(0, i) =~= s);
    } else {
        let p = s.subrange(0, i + 1);
        assert(p.drop_last() =~= s.subrange(0, i));
        assert(dec_val(p) == dec_val(s.subrange(0, i)) * 10 + digit_val(p.last()));
        assert(dec_val(s.subrange(0, i)) <= dec_val(s.subrange(0, i)) * 10);
        lemma_dec_val_prefix(s, i + 1);
    }
}

/// Reads a `u64` from a string of decimal digits; `None` when the string is
/// empty, holds any non-digit, or denotes a number above `u64::MAX`.
pub fn parse_u64_digits(s: &str) -> (r: Option<u64>)
    ensures
        if is_dec_digits(s@) && dec_val(s@) <= u64::MAX {
            r matches Some(n) && n == dec_val(s@)
        } else {
            r is None
        },
{
    let n = s.unicode_len();
    if n == 0 {
        return None;
    }
    let mut acc: u64 = 0;
    let mut i: usize = 0;
    while i < n
        invariant
            n == s@.len(),
            0 < n,
            i <= n,
            forall|k: int| 0 <= k < i ==> is_digit(s@[k]),
            acc == dec_val(s@.subrange(0, i as int)),
        decreases n - i,
    {
        let c = s.get_char(i);
        let cv = c as u32;
        if cv < 48 || cv > 57 {
            assert(!is_digit(s@[i as int]));
            return None;
        }
        let d = (cv - 48) as u64;
        proof {
            assert(s@.subrange(0, i + 1).drop_last() =~= s@.subrange(0, i as int));
            assert(dec_val(s@.subrange(0, i + 1)) == acc * 10 + d);
        }
        if acc > (u64::MAX - d) / 10 {
            proof {
                assert(acc * 10 + d > u64::MAX) by {
                    assert(acc >= (u64::MAX - d) / 10 + 1);
                    assert(((u64::MAX - d) / 10 + 1) * 10 == ((u64::MAX - d) / 10) * 10 + 10);
                    assert(acc * 10 >= ((u64::MAX - d) / 10 + 1) * 10) by (nonlinear_arith)
                        requires
                            acc >= (u64::MAX - d) / 10 + 1,
                    ;
                    assert(((u64::MAX - d) / 10) * 10 + (u64::MAX - d) % 10 == u64::MAX - d);
                    assert((u64::MAX - d) % 10 <= 9);
                }
                lemma_dec_val_prefix(s@, i + 1);
                assert(dec_val(s@) > u64::MAX);
            }
            return None;
        }
        proof {
            assert(acc * 10 + d <= u64::MAX) by {
                assert(acc <= (u64::MAX - d) / 10);
                assert(acc * 10 <= ((u64::MAX - d) / 10) * 10) by (nonlinear_arith)
                    requires
                        acc <= (u64::MAX - d) / 10,
                ;
                assert(((u64::MAX - d) / 10) * 10 <= u64::MAX - d);
            }
        }
        acc = acc * 10 + d;
        i = i + 1;
    }
    proof {
        assert(s@.subrange(0, n as int) =~= s@);
    }
    Some(acc)
}

/// The single-character string for one decimal digit.
fn digit_str(d: u64) -> (r: &'static str)
    requires
        d < 10,
    ensures
        r@.len() == 1,
        r@[0] == digit_char(d as nat),
        is_digit(r@[0]),
        digit_val(r@[0]) == d,
{
    proof {
        reveal_strlit("0");
        reveal_strlit("1");
        reveal_strlit("2");
        reveal_strlit("3");
        reveal_strlit("4");
        reveal_strlit("5");
        reveal_strlit("6");
        reveal_strlit("7");
        reveal_strlit("8");
        reveal_strlit("9");
    }
    match d {
        0 => "0",
        1 => "1",
        2 => "2",
        3 => "3",
        4 => "4",
        5 => "5",
        6 => "6",
        7 => "7",
        8 => "8",
        _ => "9",
    }
}

/// Renders `n` as decimal digits.
pub fn u64_to_dec(n: u64) -> (r: String)
    ensures
        r@ == dec_repr(n as nat),
        is_dec_digits(r@),
        dec_val(r@) == n,
    decreases n,
{
    if n < 10 {
        let s = String::from_str(digit_str(n));
        proof {
            assert(dec_val(s@) == dec_val(s@.drop_last()) * 10 + digit_val(s@.last()));
            assert(s@.drop_last() =~= Seq::<char>::empty());
            assert(dec_val(Seq::<char>::empty()) == 0);
            assert(s@.last() == s@[0]);
            assert(s@ =~= dec_repr(n as nat));
        }
        s
    } else {
        let mut s = u64_to_dec(n / 10);
        let ghost prefix = s@;
        s.append(digit_str(n % 10));
        proof {
            assert(s@.drop_last() =~= prefix);
            assert(s@.last() == s@[s@.len() - 1]);
            assert(dec_val(s@) == dec_val(prefix) * 10 + (n % 10));
            assert((n / 10) * 10 + n % 10 == n);
            assert(dec_repr(n as nat) == dec_repr((n / 10) as nat) + seq![
                digit_char((n % 10) as nat),
            ]);
            assert(s@ =~= dec_repr(n as nat));
        }
        s
    }
}

/// Character-for-character string equality.
pub fn str_eq(a: &str, b: &str) -> (r: bool)
    ensures
        r == (a@ == b@),
{
    let a_len = a.unicode_len();
    let b_len = b.unicode_len();
    if a_len != b_len {
        assert(a@.len() != b@.len());
        return false;
    }
    let mut i: usize = 0;
    while i < a_len
        invariant
            i <= a_len,
            a_len == a@.len(),
            b_len == b@.len(),
            a_len == b_len,
            forall|k: int| 0 <= k < i ==> a@[k] == b@[k],
        decreases a_len - i,
    {
        if a.get_char(i) != b.get_char(i) {
            assert(a@[i as int] != b@[i as int]);
            return false;
        }
        i = i + 1;
    }
    proof {
        assert(a@ =~= b@);
    }
    true
}

impl JsonValue {
    /// Looks up a field of this value, when it is an object; `None` for
    /// absent keys and for non-object values.
    pub fn get_field<'a>(&'a self, key: &str) -> (r: Option<&'a JsonValue>)
        ensures
            match self@ {
                JsonV::Obj(entries) => match obj_find(entries, key@) {
                    Some(v) => r is Some && r->0@ == v,
                    None => r is None,
                },
                _ => r is None,
            },
    {
        match self {
            JsonValue::Object(entries) => obj_get(entries, key),
            _ => None,
        }
    }
}

impl JsonValue {
    /// A structural copy of this value.
    pub fn deep_clone(&self) -> (r: JsonValue)
        ensures
            r@ == self@,
        decreases self,
    {
        match self {
            JsonValue::Null => JsonValue::Null,
            JsonValue::Bool(b) => JsonValue::Bool(*b),
            JsonValue::Num(s) => JsonValue::Num(s.clone()),
            JsonValue::Text(s) => JsonValue::Text(s.clone()),
            JsonValue::Array(a) => JsonValue::Array(clone_items(a)),
            JsonValue::Object(o) => JsonValue::Object(clone_entries(o)),
        }
    }
}

/// A structural copy of an array's items.
fn clone_items(items: &Vec<JsonValue>) -> (r: Vec<JsonValue>)
    ensures
        arr_view(r@) == arr_view(items@),
    decreases items,
{
    let mut out: Vec<JsonValue> = Vec::new();
    let mut i: usize = 0;
    while i < items.len()
        invariant
            i <= items@.len(),
            out@.len() == i,
            forall|k: int| 0 <= k < i ==> out@[k]@ == items@[k]@,
        decreases items@.len() - i,
    {
        proof {
            vstd::std_specs::vec::axiom_vec_index_decreases(*items, i as int);
        }
        let c = items[i].deep_clone();
        out.push(c);
        i = i + 1;
    }
    proof {
        lemma_arr_view_len(out@);
        lemma_arr_view_len(items@);
        assert forall|k: int| 0 <= k < items@.len() implies arr_view(out@)[k] == arr_view(
            items@,
        )[k] by {
            lemma_arr_view_index(out@, k);
            lemma_arr_view_index(items@, k);
        }
        assert(arr_view(out@) =~= arr_view(items@));
    }
    out
}

/// A structural copy of an object's entries.
pub(crate) fn clone_entries(entries: &Vec<(String, JsonValue)>) -> (r: Vec<(String, JsonValue)>)
    ensures
        obj_view(r@) == obj_view(entries@),
    decreases entries,
{
    let mut out: Vec<(String, JsonValue)> = Vec::new();
    let mut i: usize = 0;
    while i < entries.len()
        invariant
            i <= entries@.len(),
            out@.len() == i,
            forall|k: int|
                0 <= k < i ==> out@[k].0@ == entries@[k].0@ && out@[k].1@ == entries@[k].1@,
        decreases entries@.len() - i,
    {
        proof {
            vstd::std_specs::vec::axiom_vec_index_decreases(*entries, i as int);
        }
        let key = entries[i].0.clone();
        let val = entries[i].1.deep_clone();
        out.push((key, val));
        i = i + 1;
    }
    proof {
        lemma_obj_view_len(out@);
        lemma_obj_view_len(entries@);
        assert forall|k: int| 0 <= k < entries@.len() implies obj_view(out@)[k] == obj_view(
            entries@,
        )[k] by {
            lemma_obj_view_index(out@, k);
            lemma_obj_view_index(entries@, k);
        }
        assert(obj_view(out@) =~= obj_view(entries@));
    }
    out
}

/// Looks up `key` in an entry list, returning the first match.
pub fn obj_get<'a>(entries: &'a Vec<(String, JsonValue)>, key: &str) -> (r: Option<
    &'a JsonValue,
>)
    ensures
        match obj_find(obj_view(entries@), key@) {
            Some(v) => r is Some && r->0@ == v,
            None => r is None,
        },
{
    broadcast use lemma_obj_view_len, lemma_obj_view_index;

    let ghost m = obj_view(entries@);
    proof {
        assert(m.skip(0) =~= m);
    }
    let mut i: usize = 0;
    while i < entries.len()
        invariant
            i <= entries@.len(),
            m == obj_view(entries@),
            m.len() == entries@.len(),
            obj_find(m, key@) == obj_find(m.skip(i as int), key@),
        decreases entries@.len() - i,
    {
        proof {
            lemma_obj_view_index(entries@, i as int);
        }
        assert(m.skip(i as int)[0] == m[i as int]);
        if str_eq(entries[i].0.as_str(), key) {
            return Some(&entries[i].1);
        }
        proof {
            assert(m.skip(i as int).drop_first() =~= m.skip(i + 1));
        }
        i = i + 1;
    }
    assert(m.skip(i as int).len() == 0);
    None
}

} // verus!
