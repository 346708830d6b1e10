//! Plain-value mirror of the D-Bus values the tray logic reads.
//!
//! The bus layer converts every received value into a [`DbusValue`] one for
//! one; all parsing below works on this type.

use vstd::prelude::*;

verus! {

/// A D-Bus value as received from the bus.
#[derive(Debug, PartialEq)]
pub enum DbusValue {
    U8(u8),
    Bool(bool),
    I16(i16),
    U16(u16),
    I32(i32),
    U32(u32),
    I64(i64),
    U64(u64),
    /// A string (`s`).
    Str(String),
    /// A type signature (`g`).
    Signature(String),
    /// An object path (`o`).
    ObjectPath(String),
    /// A variant (`v`) holding one value.
    Variant(Box<DbusValue>),
    /// An array (`a…`), in order.
    Array(Vec<DbusValue>),
    /// A dictionary (`a{…}`), as key/value pairs in wire order.
    Dict(Vec<(DbusValue, DbusValue)>),
    /// A structure (`(…)`), its fields in order.
    Structure(Vec<DbusValue>),
    /// Any other value (floating point, file descriptors, …), never read by
    /// the tray logic.
    Other,
}

/// Properties of an object as returned by `GetAll`: name/value pairs.
pub type PropList = Vec<(String, DbusValue)>;

/// The value stored under `key`, if any (first match).
pub open spec fn prop_get(props: Seq<(String, DbusValue)>, key: Seq<char>) -> Option<DbusValue>
    decreases props.len(),
{
    if props.len() == 0 {
        None
    } else if props[0].0@ == key {
        Some(props[0].1)
    } else {
        prop_get(props.drop_first(), key)
    }
}

/// Look up a property by name (first match).
pub fn prop<'a>(props: &'a Vec<(String, DbusValue)>, key: &str) -> (r: Option<&'a DbusValue>)
    ensures
        match prop_get(props@, key@) {
            Some(v) => r == Some(&v),
            None => r is None,
        },
{
    let mut i: usize = 0;
    proof {
        assert(props@.skip(0) =~= props@);
    }
    while i < props.len()
        invariant
            i <= props@.len(),
            prop_get(props@, key@) == prop_get(props@.skip(i as int), key@),
        decreases props@.len() - i,
    {
        proof {
            assert(props@.skip(i as int).drop_first() == props@.skip(i + 1));
        }
        if props[i].0 == key.to_owned() {
            return Some(&props[i].1);
        }
        i = i + 1;
    }
    None
}

/// String content of a value (only `Str`).
pub open spec fn str_of(v: DbusValue) -> Option<Seq<char>> {
    match v {
        DbusValue::Str(s) => Some(s@),
        _ => None,
    }
}

/// `String` conversion of a value: succeeds for strings only.
pub fn as_string(value: &DbusValue) -> (r: Option<String>)
    ensures
        r.deep_view() == str_of(*value),
{
    match value {
        DbusValue::Str(s) => Some(s.clone()),
        _ => None,
    }
}

/// `i32` conversion of a value: succeeds for `I32` only.
pub open spec fn i32_of(v: DbusValue) -> Option<i32> {
    match v {
        DbusValue::I32(i) => Some(i),
        _ => None,
    }
}

pub fn as_i32(value: &DbusValue) -> (r: Option<i32>)
    ensures
        r == i32_of(*value),
{
    match value {
        DbusValue::I32(i) => Some(*i),
        _ => None,
    }
}

/// Integer reading used for pixmap sizes: `I32` as is, `U32` when it fits.
pub open spec fn int_of(v: DbusValue) -> Option<i32> {
    match v {
        DbusValue::I32(i) => Some(i),
        DbusValue::U32(u) => if u <= i32::MAX { Some(u as i32) } else { None },
        _ => None,
    }
}

pub fn as_i32_value(value: &DbusValue) -> (r: Option<i32>)
    ensures
        r == int_of(*value),
{
    match value {
        DbusValue::I32(i) => Some(*i),
        DbusValue::U32(u) => if *u <= 2147483647u32 {
            Some(*u as i32)
        } else {
            None
        },
        _ => None,
    }
}

/// Whether `s` starts with `/`.
pub open spec fn starts_with_slash(s: Seq<char>) -> bool {
    s.len() > 0 && s[0] == '/'
}

/// Object path carried by a value: an `ObjectPath`, or a string that starts
/// with `/` (some providers send the path as a plain string).
pub open spec fn object_path_of(v: DbusValue) -> Option<Seq<char>> {
    match v {
        DbusValue::ObjectPath(p) => Some(p@),
        DbusValue::Str(s) => if starts_with_slash(s@) { Some(s@) } else { None },
        _ => None,
    }
}

pub fn as_object_path(value: &DbusValue) -> (r: Option<String>)
    ensures
        r.deep_view() == object_path_of(*value),
{
    match value {
        DbusValue::ObjectPath(p) => Some(p.clone()),
        DbusValue::Str(s) => {
            let cs = crate::text::chars_of(s.as_str());
            if cs.len() > 0 && cs[0] == '/' {
                Some(s.clone())
            } else {
                None
            }
        },
        _ => None,
    }
}

/// The bytes of an array whose elements are all `U8`.
pub open spec fn bytes_of_seq(s: Seq<DbusValue>) -> Option<Seq<u8>>
    decreases s.len(),
{
    if s.len() == 0 {
        Some(Seq::empty())
    } else {
        match s[0] {
            DbusValue::U8(b) => match bytes_of_seq(s.drop_first()) {
                Some(rest) => Some(seq![b] + rest),
                None => None,
            },
            _ => None,
        }
    }
}

pub open spec fn bytes_of(v: DbusValue) -> Option<Seq<u8>> {
    match v {
        DbusValue::Array(a) => bytes_of_seq(a@),
        _ => None,
    }
}

proof fn lemma_bytes_prefix(s: Seq<DbusValue>, i: int)
    requires
        0 <= i < s.len(),
        bytes_of_seq(s.take(i)) is Some,
        s[i] is U8,
    ensures
        bytes_of_seq(s.take(i + 1)) == Some(bytes_of_seq(s.take(i))->0.push(s[i]->U8_0)),
    decreases i,
{
    let t = s.take(i + 1);
    if i == 0 {
        assert(t.drop_first() =~= Seq::<DbusValue>::empty());
        assert(bytes_of_seq(t.drop_first()) == Some(Seq::<u8>::empty()));
        assert(seq![s[0]->U8_0] + Seq::<u8>::empty() =~= Seq::<u8>::empty().push(s[0]->U8_0));
    } else {
        let d = s.drop_first();
        assert(s.take(i).drop_first() =~= d.take(i - 1));
        assert(t.drop_first() =~= d.take(i));
        assert(s.take(i)[0] == s[0]);
        lemma_bytes_prefix(d, i - 1);
        let b = s[0]->U8_0;
        let rest = bytes_of_seq(d.take(i - 1))->0;
        assert(seq![b] + rest.push(s[i]->U8_0) =~= (seq![b] + rest).push(s[i]->U8_0));
    }
}

proof fn lemma_bytes_prefix_fail(s: Seq<DbusValue>, i: int)
    requires
        0 <= i < s.len(),
        bytes_of_seq(s.take(i)) is Some,
        !(s[i] is U8),
    ensures
        bytes_of_seq(s) is None,
    decreases i,
{
    if i > 0 {
        let d = s.drop_first();
        assert(s.take(i).drop_first() =~= d.take(i - 1));
        lemma_bytes_prefix_fail(d, i - 1);
    }
}

/// Byte-array conversion: `Some` iff the value is an array of `U8` only.
pub fn as_bytes(value: &DbusValue) -> (r: Option<Vec<u8>>)
    ensures
        match r {
            Some(v) => bytes_of(*value) == Some(v@),
            None => bytes_of(*value) is None,
        },
{
    match value {
        DbusValue::Array(arr) => {
            let mut out: Vec<u8> = Vec::new();
            let mut i: usize = 0;
            proof {
                assert(arr@.take(0) =~= Seq::<DbusValue>::empty());
            }
            while i < arr.len()
                invariant
                    i <= arr@.len(),
                    bytes_of(*value) == bytes_of_seq(arr@),
                    bytes_of_seq(arr@.take(i as int)) == Some(out@),
                decreases arr@.len() - i,
            {
                match &arr[i] {
                    DbusValue::U8(b) => {
                        proof {
                            lemma_bytes_prefix(arr@, i as int);
                        }
                        out.push(*b);
                    },
                    _ => {
                        proof {
                            lemma_bytes_prefix_fail(arr@, i as int);
                        }
                        return None;
                    },
                }
                i = i + 1;
            }
            proof {
                assert(arr@.take(arr@.len() as int) == arr@);
            }
            Some(out)
        },
        _ => None,
    }
}

} // verus!
