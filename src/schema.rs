//! The schema layer: how a typed value maps onto an element's content, and
//! the field codecs shared by the message catalog.

use vstd::prelude::*;
use crate::markup::{Element, DecodeError, Model, model_of, has_name, tree_of, lemma_same_tree_children, child, child_text, required_text, required_child, find_child, filter_named, named, find_spec, push_child, leaf, str_eq, lemma_append_named, lemma_filter_prefix};
use crate::decimal::{Decimal, decimal_reading, decimal_lexical};
use crate::text::{nat_text, int_text, parse_unsigned, parse_signed, chars_of, read_unsigned, read_signed, lemma_unsigned_round_trip, lemma_signed_round_trip, i64_string};

verus! {

broadcast use crate::markup::lemma_find_push;

/// A value that is written as the content of an element whose name the
/// enclosing value chooses.
pub trait XmlMessage: Sized {
    /// The values that can be written and read back.
    spec fn wf(&self) -> bool;

    /// `e` holds, as its content, what writing this value puts there.
    spec fn encodes(&self, e: Element) -> bool;

    /// Reading `e` gives `v`.
    spec fn decodes(e: Element, v: Self) -> bool;

    /// The two values hold the same data.
    spec fn same(&self, other: &Self) -> bool;

    /// Whether `e` holds this value depends only on what a reader sees of it.
    proof fn lemma_encodes_tree(&self, e1: Element, e2: Element)
        requires
            self.encodes(e1),
            tree_of(e1) == tree_of(e2),
        ensures
            self.encodes(e2),
    ;

    /// The element `prefix:name` in namespace `ns` holding this value.
    fn to_element(&self, prefix: &str, ns: &str, name: &str) -> (r: Element)
        requires
            self.wf(),
        ensures
            has_name(r, prefix@, ns@, name@),
            self.encodes(r),
    ;

    /// Reads a value from the content of `e`, whatever its name. Unknown
    /// children are ignored; a required child that is absent is an error.
    fn from_element(e: &Element) -> (r: Result<Self, DecodeError>)
        ensures
            r matches Ok(v) ==> Self::decodes(*e, v),
            forall|v: Self| v.wf() && #[trigger] v.encodes(*e) ==> (r matches Ok(w) && w.same(&v)),
    ;
}

/// A value whose written element is fixed in full: names, attributes,
/// bindings, text and children.
pub trait XmlModel: XmlMessage {
    /// The element written for this value as `prefix:name` in namespace `ns`.
    spec fn model(&self, prefix: Seq<char>, ns: Seq<char>, name: Seq<char>) -> Model;

    /// Writes this value as the element `prefix:name` in namespace `ns`.
    fn build(&self, prefix: &str, ns: &str, name: &str) -> (r: Element)
        requires
            self.wf(),
        ensures
            has_name(r, prefix@, ns@, name@),
            self.encodes(r),
            model_of(r) == self.model(prefix@, ns@, name@),
    ;
}

/// The first child `ns:name` of `e` holds the text `s`.
pub open spec fn text_field(e: Element, ns: Seq<char>, name: Seq<char>, s: String) -> bool {
    child(e, ns, name) matches Some(c) && c.text@ == s@
}

/// The first child `ns:name` holds `s`, or there is none and `s` is `None`.
pub open spec fn optional_text_field(e: Element, ns: Seq<char>, name: Seq<char>, s: Option<String>) -> bool {
    match s {
        Some(t) => text_field(e, ns, name, t),
        None => child(e, ns, name) is None,
    }
}

/// The first child `ns:name` holds the canonical text of `d`.
pub open spec fn decimal_written(e: Element, ns: Seq<char>, name: Seq<char>, d: Decimal) -> bool {
    child(e, ns, name) matches Some(c) && c.text@ == d.text_spec()
}

/// The first child `ns:name` holds a text that reads as `d`.
pub open spec fn decimal_read(e: Element, ns: Seq<char>, name: Seq<char>, d: Decimal) -> bool {
    child(e, ns, name) matches Some(c) && d.wf() && decimal_reading(c.text@) == Some(
        (d.mantissa_spec(), d.scale_spec()),
    )
}

/// The first child `ns:name` holds the decimal rendering of `n`.
pub open spec fn unsigned_written(e: Element, ns: Seq<char>, name: Seq<char>, n: nat) -> bool {
    child(e, ns, name) matches Some(c) && c.text@ == nat_text(n)
}

/// The first child `ns:name` holds a text that reads as `n`, at most `max`.
pub open spec fn unsigned_read(e: Element, ns: Seq<char>, name: Seq<char>, n: nat, max: nat) -> bool {
    child(e, ns, name) matches Some(c) && parse_unsigned(c.text@, max) == Some(n)
}

/// Reads the decimal held by the required child `ns:name`.
pub fn read_decimal(e: &Element, ns: &str, name: &str) -> (r: Result<Decimal, DecodeError>)
    ensures
        r matches Ok(d) ==> decimal_read(*e, ns@, name@, d),
        child(*e, ns@, name@) is None ==> (r matches Err(x) && x is MissingField
            && (x->MissingField_0)@ == name@),
        child(*e, ns@, name@) matches Some(c) ==> (r is Ok <==> decimal_lexical(c.text@) && decimal_reading(c.text@) is Some),
        child(*e, ns@, name@) matches Some(c) ==> (!(decimal_lexical(c.text@) && decimal_reading(c.text@) is Some) ==> (r matches Err(x)
            && x is BadValue && (x->field)@ == name@ && (x->text)@ == c.text@)),
        forall|d: Decimal| d.wf() && decimal_written(*e, ns@, name@, d) ==> r == Ok::<Decimal, DecodeError>(d),
{
    let t = required_text(e, ns, name)?;
    let cs = chars_of(t.as_str());
    match Decimal::from_chars(&cs) {
        Ok(d) => Ok(d),
        Err(_) => Err(DecodeError::BadValue { field: String::from_str(name), text: t }),
    }
}

/// Reads the decimal held by the child `ns:name`, if there is one.
pub fn read_optional_decimal(e: &Element, ns: &str, name: &str) -> (r: Result<Option<Decimal>, DecodeError>)
    ensures
        r matches Ok(Some(d)) ==> decimal_read(*e, ns@, name@, d),
        r matches Ok(None) ==> child(*e, ns@, name@) is None,
        child(*e, ns@, name@) is None ==> r == Ok::<Option<Decimal>, DecodeError>(None),
        child(*e, ns@, name@) matches Some(c) ==> (r is Ok <==> decimal_lexical(c.text@) && decimal_reading(c.text@) is Some),
        child(*e, ns@, name@) matches Some(c) ==> (!(decimal_lexical(c.text@) && decimal_reading(c.text@) is Some) ==> (r matches Err(x)
            && x is BadValue && (x->field)@ == name@ && (x->text)@ == c.text@)),
        forall|d: Decimal| d.wf() && decimal_written(*e, ns@, name@, d) ==> r == Ok::<Option<Decimal>, DecodeError>(Some(d)),
{
    match child_text(e, ns, name) {
        None => Ok(None),
        Some(t) => {
            let cs = chars_of(t.as_str());
            match Decimal::from_chars(&cs) {
                Ok(d) => Ok(Some(d)),
                Err(_) => Err(DecodeError::BadValue { field: String::from_str(name), text: t }),
            }
        },
    }
}

/// Reads the unsigned number, at most `max`, held by the required child `ns:name`.
pub fn read_unsigned_field(e: &Element, ns: &str, name: &str, max: u64) -> (r: Result<u64, DecodeError>)
    ensures
        r matches Ok(n) ==> unsigned_read(*e, ns@, name@, n as nat, max as nat),
        child(*e, ns@, name@) is None ==> (r matches Err(x) && x is MissingField
            && (x->MissingField_0)@ == name@),
        forall|n: nat| n <= max && unsigned_written(*e, ns@, name@, n) ==> r == Ok::<u64, DecodeError>(n as u64),
{
    let t = required_text(e, ns, name)?;
    let cs = chars_of(t.as_str());
    proof {
        assert forall|n: nat| n <= max && unsigned_written(*e, ns@, name@, n) implies parse_unsigned(cs@, max as nat) == Some(n) by {
            lemma_unsigned_round_trip(n, max as nat);
        }
    }
    match read_unsigned(&cs, max) {
        Some(n) => Ok(n),
        None => Err(DecodeError::BadValue { field: String::from_str(name), text: t }),
    }
}


// ----------------------------------------------------------------------
// Scalar fields
// ----------------------------------------------------------------------

/// The first child `ns:name` holds the text `t`.
pub open spec fn scalar_written(e: Element, ns: Seq<char>, name: Seq<char>, t: Seq<char>) -> bool {
    child(e, ns, name) matches Some(c) && c.text@ == t
}

/// The first child `ns:name` holds `t`, or there is none and `t` is `None`.
pub open spec fn optional_scalar_written(e: Element, ns: Seq<char>, name: Seq<char>, t: Option<Seq<char>>) -> bool {
    match t {
        Some(x) => scalar_written(e, ns, name, x),
        None => child(e, ns, name) is None,
    }
}

/// The texts of the three scalar kinds: unsigned and signed integers, booleans.
pub enum ScalarKind {
    Unsigned { max: nat },
    Signed { min_abs: nat, max: nat },
    Boolean,
}

/// `true` or `false`.
pub open spec fn bool_text(b: bool) -> Seq<char> {
    if b {
        seq!['t', 'r', 'u', 'e']
    } else {
        seq!['f', 'a', 'l', 's', 'e']
    }
}

/// A boolean reads as `1` for true, `0` for false.
pub open spec fn parse_scalar(kind: ScalarKind, t: Seq<char>) -> Option<int> {
    match kind {
        ScalarKind::Unsigned { max } => match parse_unsigned(t, max) {
            Some(n) => Some(n as int),
            None => None,
        },
        ScalarKind::Signed { min_abs, max } => parse_signed(t, min_abs, max),
        ScalarKind::Boolean => if t == bool_text(true) {
            Some(1)
        } else if t == bool_text(false) {
            Some(0)
        } else {
            None
        },
    }
}

/// The text written for `v` of that kind.
pub open spec fn scalar_text(kind: ScalarKind, v: int) -> Seq<char> {
    match kind {
        ScalarKind::Boolean => bool_text(v != 0),
        _ => int_text(v),
    }
}

/// `v` lies in the range of the kind.
pub open spec fn scalar_in_range(kind: ScalarKind, v: int) -> bool {
    match kind {
        ScalarKind::Unsigned { max } => 0 <= v <= max,
        ScalarKind::Signed { min_abs, max } => -(min_abs as int) <= v <= max,
        ScalarKind::Boolean => v == 0 || v == 1,
    }
}

pub open spec fn u32_kind() -> ScalarKind {
    ScalarKind::Unsigned { max: u32::MAX as nat }
}

pub open spec fn u64_kind() -> ScalarKind {
    ScalarKind::Unsigned { max: u64::MAX as nat }
}

pub open spec fn i32_kind() -> ScalarKind {
    ScalarKind::Signed { min_abs: 0x8000_0000, max: i32::MAX as nat }
}

/// The first child `ns:name` holds a text that reads as `v`.
pub open spec fn scalar_read(e: Element, ns: Seq<char>, name: Seq<char>, kind: ScalarKind, v: int) -> bool {
    child(e, ns, name) matches Some(c) && parse_scalar(kind, c.text@) == Some(v)
}

/// The first child `ns:name` holds a text that reads as `v`, or there is
/// none and `v` is `None`.
pub open spec fn optional_scalar_read(e: Element, ns: Seq<char>, name: Seq<char>, kind: ScalarKind, v: Option<int>) -> bool {
    match v {
        Some(x) => scalar_read(e, ns, name, kind, x),
        None => child(e, ns, name) is None,
    }
}

/// Reading what is written for a value in range gives it back.
pub proof fn lemma_scalar_round_trip(kind: ScalarKind, v: int)
    requires
        scalar_in_range(kind, v),
    ensures
        parse_scalar(kind, scalar_text(kind, v)) == Some(v),
{
    match kind {
        ScalarKind::Unsigned { max } => {
            lemma_unsigned_round_trip(v as nat, max);
        },
        ScalarKind::Signed { min_abs, max } => {
            lemma_signed_round_trip(v, min_abs, max);
        },
        ScalarKind::Boolean => {
            assert(bool_text(true) != bool_text(false));
        },
    }
}

/// The integer of an optional machine integer.
pub open spec fn widen(r: Option<i128>) -> Option<int> {
    match r {
        Some(v) => Some(v as int),
        None => None,
    }
}

/// Reads the text of a scalar field.
fn parse_scalar_text(t: &String, is_bool: bool, min_abs: u64, max: u64) -> (r: Option<i128>)
    ensures
        is_bool ==> widen(r) == parse_scalar(ScalarKind::Boolean, t@),
        !is_bool && min_abs == 0 ==> widen(r) == parse_scalar(ScalarKind::Unsigned { max: max as nat }, t@),
        !is_bool && min_abs > 0 ==> widen(r) == parse_scalar(ScalarKind::Signed { min_abs: min_abs as nat, max: max as nat }, t@),
{
    if is_bool {
        if str_eq(t.as_str(), "true") {
            proof { reveal_strlit("true"); assert("true"@ =~= bool_text(true)); }
            Some(1)
        } else if str_eq(t.as_str(), "false") {
            proof { reveal_strlit("true"); reveal_strlit("false"); assert("false"@ =~= bool_text(false)); assert("true"@ =~= bool_text(true)); }
            Some(0)
        } else {
            proof { reveal_strlit("true"); reveal_strlit("false"); assert("false"@ =~= bool_text(false)); assert("true"@ =~= bool_text(true)); }
            None
        }
    } else {
        let cs = chars_of(t.as_str());
        if min_abs == 0 {
            match read_unsigned(&cs, max) {
                Some(n) => Some(n as i128),
                None => None,
            }
        } else {
            read_signed(&cs, min_abs, max)
        }
    }
}

/// Reads the scalar held by the child `ns:name`: `Ok(None)` when there is
/// none, an error when its text does not read.
pub fn read_scalar(e: &Element, ns: &str, name: &str, is_bool: bool, min_abs: u64, max: u64) -> (r: Result<Option<i128>, DecodeError>)
    ensures
        ({
            let kind = if is_bool {
                ScalarKind::Boolean
            } else if min_abs == 0 {
                ScalarKind::Unsigned { max: max as nat }
            } else {
                ScalarKind::Signed { min_abs: min_abs as nat, max: max as nat }
            };
            &&& (r matches Ok(Some(v)) ==> scalar_read(*e, ns@, name@, kind, v as int))
            &&& ((r matches Ok(None)) <==> child(*e, ns@, name@) is None)
            &&& forall|t: Seq<char>|
                #[trigger] scalar_written(*e, ns@, name@, t) && parse_scalar(kind, t) is Some
                    ==> (r matches Ok(Some(v)) && parse_scalar(kind, t) == Some(v as int))
        }),
{
    let ghost kind = if is_bool {
        ScalarKind::Boolean
    } else if min_abs == 0 {
        ScalarKind::Unsigned { max: max as nat }
    } else {
        ScalarKind::Signed { min_abs: min_abs as nat, max: max as nat }
    };
    match child_text(e, ns, name) {
        None => Ok(None),
        Some(t) => {
            let parsed = parse_scalar_text(&t, is_bool, min_abs, max);
            match parsed {
                Some(v) => Ok(Some(v)),
                None => Err(DecodeError::BadValue { field: String::from_str(name), text: t }),
            }
        },
    }
}

/// 1 for true, 0 for false.
pub open spec fn bool_int(b: bool) -> int {
    if b {
        1
    } else {
        0
    }
}

/// Reads the `u32` held by the child `ns:name`: `Ok(None)` when there is none.
pub fn read_u32_field(e: &Element, ns: &str, name: &str) -> (r: Result<Option<u32>, DecodeError>)
    ensures
        r matches Ok(Some(v)) ==> scalar_read(*e, ns@, name@, u32_kind(), v as int),
        (r matches Ok(None)) <==> child(*e, ns@, name@) is None,
        forall|v: u32| #[trigger] scalar_written(*e, ns@, name@, scalar_text(u32_kind(), v as int))
            ==> r == Ok::<Option<u32>, DecodeError>(Some(v)),
{
    let r = read_scalar(e, ns, name, false, 0, 4294967295);
    proof {
        assert forall|v: u32| #[trigger] scalar_written(*e, ns@, name@, scalar_text(u32_kind(), v as int)) implies (r matches Ok(Some(x)) && x as int == v as int) by {
            lemma_scalar_round_trip(u32_kind(), v as int);
        }
    }
    match r {
        Ok(Some(v)) => Ok(Some(v as u32)),
        Ok(None) => Ok(None),
        Err(x) => Err(x),
    }
}

/// Reads the `u64` held by the child `ns:name`: `Ok(None)` when there is none.
pub fn read_u64_field(e: &Element, ns: &str, name: &str) -> (r: Result<Option<u64>, DecodeError>)
    ensures
        r matches Ok(Some(v)) ==> scalar_read(*e, ns@, name@, u64_kind(), v as int),
        (r matches Ok(None)) <==> child(*e, ns@, name@) is None,
        forall|v: u64| #[trigger] scalar_written(*e, ns@, name@, scalar_text(u64_kind(), v as int))
            ==> r == Ok::<Option<u64>, DecodeError>(Some(v)),
{
    let r = read_scalar(e, ns, name, false, 0, 18446744073709551615);
    proof {
        assert forall|v: u64| #[trigger] scalar_written(*e, ns@, name@, scalar_text(u64_kind(), v as int)) implies (r matches Ok(Some(x)) && x as int == v as int) by {
            lemma_scalar_round_trip(u64_kind(), v as int);
        }
    }
    match r {
        Ok(Some(v)) => Ok(Some(v as u64)),
        Ok(None) => Ok(None),
        Err(x) => Err(x),
    }
}

/// Reads the `i32` held by the child `ns:name`: `Ok(None)` when there is none.
pub fn read_i32_field(e: &Element, ns: &str, name: &str) -> (r: Result<Option<i32>, DecodeError>)
    ensures
        r matches Ok(Some(v)) ==> scalar_read(*e, ns@, name@, i32_kind(), v as int),
        (r matches Ok(None)) <==> child(*e, ns@, name@) is None,
        forall|v: i32| #[trigger] scalar_written(*e, ns@, name@, scalar_text(i32_kind(), v as int))
            ==> r == Ok::<Option<i32>, DecodeError>(Some(v)),
{
    let r = read_scalar(e, ns, name, false, 2147483648, 2147483647);
    proof {
        assert forall|v: i32| #[trigger] scalar_written(*e, ns@, name@, scalar_text(i32_kind(), v as int)) implies (r matches Ok(Some(x)) && x as int == v as int) by {
            lemma_scalar_round_trip(i32_kind(), v as int);
        }
    }
    match r {
        Ok(Some(v)) => Ok(Some(v as i32)),
        Ok(None) => Ok(None),
        Err(x) => Err(x),
    }
}

/// Reads the `bool` held by the child `ns:name`: `Ok(None)` when there is none.
pub fn read_bool_field(e: &Element, ns: &str, name: &str) -> (r: Result<Option<bool>, DecodeError>)
    ensures
        r matches Ok(Some(v)) ==> scalar_read(*e, ns@, name@, ScalarKind::Boolean, bool_int(v)),
        (r matches Ok(None)) <==> child(*e, ns@, name@) is None,
        forall|v: bool| #[trigger] scalar_written(*e, ns@, name@, scalar_text(ScalarKind::Boolean, bool_int(v)))
            ==> r == Ok::<Option<bool>, DecodeError>(Some(v)),
{
    let r = read_scalar(e, ns, name, true, 0, 0);
    proof {
        assert forall|v: bool| #[trigger] scalar_written(*e, ns@, name@, scalar_text(ScalarKind::Boolean, bool_int(v))) implies (r matches Ok(Some(x)) && x as int == bool_int(v)) by {
            lemma_scalar_round_trip(ScalarKind::Boolean, bool_int(v));
        }
    }
    match r {
        Ok(Some(v)) => Ok(Some(v == 1)),
        Ok(None) => Ok(None),
        Err(x) => Err(x),
    }
}

/// Makes an optional field required.
pub fn required<T>(v: Option<T>, name: &str) -> (r: Result<T, DecodeError>)
    ensures
        v matches Some(x) ==> r == Ok::<T, DecodeError>(x),
        v is None ==> (r matches Err(x) && x is MissingField && (x->MissingField_0)@ == name@),
{
    match v {
        Some(x) => Ok(x),
        None => Err(DecodeError::MissingField(String::from_str(name))),
    }
}

/// The element holding the text of a boolean.
pub fn bool_leaf(prefix: &str, ns: &str, name: &str, b: bool) -> (r: Element)
    ensures
        has_name(r, prefix@, ns@, name@),
        r.text@ == scalar_text(ScalarKind::Boolean, if b { 1 } else { 0 }),
{
    proof {
        reveal_strlit("true");
        reveal_strlit("false");
    }
    let r = if b {
        leaf(prefix, ns, name, String::from_str("true"))
    } else {
        leaf(prefix, ns, name, String::from_str("false"))
    };
    assert(r.text@ =~= scalar_text(ScalarKind::Boolean, if b { 1 } else { 0 }));
    r
}

/// The element holding the text of an integer.
pub fn int_leaf(prefix: &str, ns: &str, name: &str, n: i64) -> (r: Element)
    ensures
        has_name(r, prefix@, ns@, name@),
        r.text@ == int_text(n as int),
{
    leaf(prefix, ns, name, i64_string(n))
}

// ----------------------------------------------------------------------
// Nested and repeated fields
// ----------------------------------------------------------------------

/// The first child `ns:name` holds `v`, or there is none and `v` is `None`.
pub open spec fn optional_message_written<T: XmlMessage>(e: Element, ns: Seq<char>, name: Seq<char>, v: Option<T>) -> bool {
    match v {
        Some(x) => child(e, ns, name) matches Some(c) && x.encodes(c),
        None => child(e, ns, name) is None,
    }
}

pub open spec fn optional_message_read<T: XmlMessage>(e: Element, ns: Seq<char>, name: Seq<char>, v: Option<T>) -> bool {
    match v {
        Some(x) => child(e, ns, name) matches Some(c) && T::decodes(c, x),
        None => child(e, ns, name) is None,
    }
}

pub open spec fn optional_same<T: XmlMessage>(a: Option<T>, b: Option<T>) -> bool {
    match (a, b) {
        (Some(x), Some(y)) => x.same(&y),
        (None, None) => true,
        _ => false,
    }
}

pub open spec fn optional_wf<T: XmlMessage>(a: Option<T>) -> bool {
    a matches Some(x) ==> x.wf()
}

/// The children `ns:name` of `e` hold the items of `v`, in order.
pub open spec fn list_written<T: XmlMessage>(e: Element, ns: Seq<char>, name: Seq<char>, v: Seq<T>) -> bool {
    let f = filter_named(e.children@, ns, name);
    &&& f.len() == v.len()
    &&& forall|i: int| 0 <= i < f.len() ==> #[trigger] v[i].encodes(f[i])
}

/// The children `ns:name` of `e` read as the items of `v`, in order.
pub open spec fn list_read<T: XmlMessage>(e: Element, ns: Seq<char>, name: Seq<char>, v: Seq<T>) -> bool {
    let f = filter_named(e.children@, ns, name);
    &&& f.len() == v.len()
    &&& forall|i: int| 0 <= i < f.len() ==> T::decodes(#[trigger] f[i], v[i])
}

pub open spec fn list_same<T: XmlMessage>(a: Seq<T>, b: Seq<T>) -> bool {
    &&& a.len() == b.len()
    &&& forall|i: int| 0 <= i < a.len() ==> #[trigger] a[i].same(&b[i])
}

pub open spec fn list_wf<T: XmlMessage>(a: Seq<T>) -> bool {
    forall|i: int| 0 <= i < a.len() ==> #[trigger] a[i].wf()
}

/// The children `ns:name` of `e` hold the texts `v`, in order.
pub open spec fn text_list(e: Element, ns: Seq<char>, name: Seq<char>, v: Seq<String>) -> bool {
    let f = filter_named(e.children@, ns, name);
    &&& f.len() == v.len()
    &&& forall|i: int| 0 <= i < f.len() ==> #[trigger] f[i].text@ == v[i]@
}

/// The two sequences hold strings with the same characters.
pub open spec fn same_texts(a: Seq<String>, b: Seq<String>) -> bool {
    &&& a.len() == b.len()
    &&& forall|i: int| 0 <= i < a.len() ==> #[trigger] a[i]@ == b[i]@
}

/// The children `ns:name` of `e` hold the renderings of the integers `v`.
pub open spec fn int_list_written(e: Element, ns: Seq<char>, name: Seq<char>, v: Seq<i32>) -> bool {
    let f = filter_named(e.children@, ns, name);
    &&& f.len() == v.len()
    &&& forall|i: int| 0 <= i < f.len() ==> #[trigger] f[i].text@ == int_text(v[i] as int)
}

/// The children `ns:name` of `e` read as the integers `v`.
pub open spec fn int_list_read(e: Element, ns: Seq<char>, name: Seq<char>, v: Seq<i32>) -> bool {
    let f = filter_named(e.children@, ns, name);
    &&& f.len() == v.len()
    &&& forall|i: int| 0 <= i < f.len() ==> parse_scalar(i32_kind(), #[trigger] f[i].text@) == Some(v[i] as int)
}

/// What appending children named `ns:name` leaves unchanged.
pub open spec fn appended_named(old: Element, new: Element, ns: Seq<char>, name: Seq<char>) -> bool {
    &&& new.prefix == old.prefix
    &&& new.namespace == old.namespace
    &&& new.name == old.name
    &&& new.attributes == old.attributes
    &&& new.text == old.text
    &&& forall|n: Seq<char>| n != name ==> #[trigger] child(new, ns, n) == child(old, ns, n)
    &&& forall|n: Seq<char>| n != name ==> #[trigger] find_spec(new.children@, ns, n) == find_spec(old.children@, ns, n)
    &&& forall|n: Seq<char>| n != name ==> #[trigger] filter_named(new.children@, ns, n) == filter_named(old.children@, ns, n)
}

/// Appends the child `c`; what is found under other names stays the same.
pub fn push_field(e: &mut Element, c: Element)
    ensures
        appended_named(*old(e), *final(e), c.namespace@, c.name@),
        child(*final(e), c.namespace@, c.name@) == if child(*old(e), c.namespace@, c.name@) is None {
            Some(c)
        } else {
            child(*old(e), c.namespace@, c.name@)
        },
        filter_named(final(e).children@, c.namespace@, c.name@) == filter_named(old(e).children@, c.namespace@, c.name@).push(c),
{
    let ghost cs = e.children@;
    push_child(e, c);
    proof {
        crate::markup::lemma_find_spec(cs, c.namespace@, c.name@);
        crate::markup::lemma_find_push(cs, c, c.namespace@, c.name@);
        crate::markup::lemma_filter_push(cs, c, c.namespace@, c.name@);
        assert forall|n: Seq<char>| n != c.name@ implies #[trigger] child(*e, c.namespace@, n) == child(*old(e), c.namespace@, n) by {
            crate::markup::lemma_find_spec(cs, c.namespace@, n);
            crate::markup::lemma_find_push(cs, c, c.namespace@, n);
        }
        assert forall|n: Seq<char>| n != c.name@ implies #[trigger] filter_named(e.children@, c.namespace@, n) == filter_named(cs, c.namespace@, n) by {
            crate::markup::lemma_filter_push(cs, c, c.namespace@, n);
        }
        assert forall|n: Seq<char>| n != c.name@ implies #[trigger] find_spec(e.children@, c.namespace@, n) == find_spec(cs, c.namespace@, n) by {
            crate::markup::lemma_find_push(cs, c, c.namespace@, n);
        }
    }
}

/// Appends `added` to the children of `e`; all of them are named `ns:name`.
fn append_children(e: &mut Element, added: Vec<Element>, ns: &str, name: &str)
    requires
        forall|i: int| 0 <= i < added@.len() ==> named(#[trigger] added@[i], ns@, name@),
    ensures
        appended_named(*old(e), *final(e), ns@, name@),
        filter_named(final(e).children@, ns@, name@) == filter_named(old(e).children@, ns@, name@) + added@,
{
    let ghost cs = e.children@;
    let mut added = added;
    let ghost a = added@;
    e.children.append(&mut added);
    proof {
        assert(e.children@ == cs + a);
        assert forall|n: Seq<char>| n != name@ implies #[trigger] child(*e, ns@, n) == child(*old(e), ns@, n) by {
            lemma_append_named(cs, a, ns@, name@, n);
            crate::markup::lemma_find_spec(cs, ns@, n);
        }
        assert forall|n: Seq<char>| n != name@ implies #[trigger] filter_named(e.children@, ns@, n) == filter_named(cs, ns@, n) by {
            lemma_append_named(cs, a, ns@, name@, n);
        }
        assert forall|n: Seq<char>| n != name@ implies #[trigger] find_spec(e.children@, ns@, n) == find_spec(cs, ns@, n) by {
            lemma_append_named(cs, a, ns@, name@, n);
        }
        lemma_append_named(cs, a, ns@, name@, name@);
    }
}

/// Appends one child `prefix:name` holding each item of `items`.
pub fn push_message_list<T: XmlMessage>(e: &mut Element, prefix: &str, ns: &str, name: &str, items: &Vec<T>)
    requires
        list_wf(items@),
        filter_named(old(e).children@, ns@, name@).len() == 0,
    ensures
        appended_named(*old(e), *final(e), ns@, name@),
        list_written(*final(e), ns@, name@, items@),
{
    let mut added: Vec<Element> = Vec::new();
    let mut i: usize = 0;
    while i < items.len()
        invariant
            i <= items.len(),
            list_wf(items@),
            added@.len() == i,
            forall|j: int| 0 <= j < i ==> named(#[trigger] added@[j], ns@, name@) && items@[j].encodes(added@[j]),
        decreases items.len() - i,
    {
        let c = items[i].to_element(prefix, ns, name);
        added.push(c);
        i = i + 1;
    }
    let ghost a = added@;
    append_children(e, added, ns, name);
    assert(filter_named(e.children@, ns@, name@) =~= a);
}

/// Appends one child `prefix:name` holding each text of `items`.
pub fn push_text_list(e: &mut Element, prefix: &str, ns: &str, name: &str, items: &Vec<String>)
    requires
        filter_named(old(e).children@, ns@, name@).len() == 0,
    ensures
        appended_named(*old(e), *final(e), ns@, name@),
        text_list(*final(e), ns@, name@, items@),
{
    let mut added: Vec<Element> = Vec::new();
    let mut i: usize = 0;
    while i < items.len()
        invariant
            i <= items.len(),
            added@.len() == i,
            forall|j: int| 0 <= j < i ==> named(#[trigger] added@[j], ns@, name@) && added@[j].text@ == items@[j]@,
        decreases items.len() - i,
    {
        added.push(leaf(prefix, ns, name, items[i].clone()));
        i = i + 1;
    }
    let ghost a = added@;
    append_children(e, added, ns, name);
    assert(filter_named(e.children@, ns@, name@) =~= a);
}

/// Appends one child `prefix:name` holding the rendering of each integer of `items`.
pub fn push_int_list(e: &mut Element, prefix: &str, ns: &str, name: &str, items: &Vec<i32>)
    requires
        filter_named(old(e).children@, ns@, name@).len() == 0,
    ensures
        appended_named(*old(e), *final(e), ns@, name@),
        int_list_written(*final(e), ns@, name@, items@),
{
    let mut added: Vec<Element> = Vec::new();
    let mut i: usize = 0;
    while i < items.len()
        invariant
            i <= items.len(),
            added@.len() == i,
            forall|j: int| 0 <= j < i ==> named(#[trigger] added@[j], ns@, name@) && added@[j].text@ == int_text(items@[j] as int),
        decreases items.len() - i,
    {
        added.push(int_leaf(prefix, ns, name, items[i] as i64));
        i = i + 1;
    }
    let ghost a = added@;
    append_children(e, added, ns, name);
    assert(filter_named(e.children@, ns@, name@) =~= a);
}

/// Reads the items held by the children `ns:name`, in order.
pub fn read_message_list<T: XmlMessage>(e: &Element, ns: &str, name: &str) -> (r: Result<Vec<T>, DecodeError>)
    ensures
        r matches Ok(v) ==> list_read(*e, ns@, name@, v@),
        forall|s: Seq<T>| list_wf(s) && #[trigger] list_written(*e, ns@, name@, s) ==> (r matches Ok(v) && list_same(v@, s)),
{
    let ghost cs = e.children@;
    let ghost whole = filter_named(cs, ns@, name@);
    let mut out: Vec<T> = Vec::new();
    let mut i: usize = 0;
    while i < e.children.len()
        invariant
            cs == e.children@,
            whole == filter_named(cs, ns@, name@),
            i <= e.children.len(),
            out@.len() == filter_named(cs.subrange(0, i as int), ns@, name@).len(),
            out@.len() <= whole.len(),
            filter_named(cs.subrange(0, i as int), ns@, name@) == whole.subrange(0, out@.len() as int),
            forall|j: int| 0 <= j < out@.len() ==> T::decodes(#[trigger] whole[j], out@[j]),
            forall|s: Seq<T>| list_wf(s) && #[trigger] list_written(*e, ns@, name@, s) ==> (forall|j: int| 0 <= j < out@.len() ==> #[trigger] out@[j].same(&s[j])),
        decreases e.children.len() - i,
    {
        let c = &e.children[i];
        let ghost k = out@.len() as int;
        proof {
            lemma_filter_prefix(cs, ns@, name@, i as int);
            if i + 1 < cs.len() {
                lemma_filter_prefix(cs, ns@, name@, i + 1);
            } else {
                assert(cs.subrange(0, i + 1) =~= cs);
                assert(whole.subrange(0, whole.len() as int) =~= whole);
            }
        }
        if str_eq(c.namespace.as_str(), ns) && str_eq(c.name.as_str(), name) {
            assert(whole[k] == *c);
            match T::from_element(c) {
                Ok(item) => {
                    proof {
                        assert forall|s: Seq<T>| list_wf(s) && #[trigger] list_written(*e, ns@, name@, s)
                            implies item.same(&s[k]) by {
                            assert(s[k].encodes(whole[k]));
                            assert(s[k].wf());
                        }
                    }
                    out.push(item);
                },
                Err(x) => {
                    proof {
                        assert forall|s: Seq<T>| list_wf(s) && #[trigger] list_written(*e, ns@, name@, s)
                            implies false by {
                            assert(s[k].encodes(whole[k]));
                            assert(s[k].wf());
                        }
                    }
                    return Err(x);
                },
            }
        }
        i = i + 1;
    }
    assert(cs.subrange(0, i as int) =~= cs);
    assert(whole.subrange(0, out@.len() as int) =~= whole);
    Ok(out)
}

/// Reads the texts held by the children `ns:name`, in order.
pub fn read_text_list(e: &Element, ns: &str, name: &str) -> (r: Vec<String>)
    ensures
        text_list(*e, ns@, name@, r@),
        forall|s: Seq<String>| #[trigger] text_list(*e, ns@, name@, s) ==> same_texts(r@, s),
{
    let ghost cs = e.children@;
    let ghost whole = filter_named(cs, ns@, name@);
    let mut out: Vec<String> = Vec::new();
    let mut i: usize = 0;
    while i < e.children.len()
        invariant
            cs == e.children@,
            whole == filter_named(cs, ns@, name@),
            i <= e.children.len(),
            out@.len() == filter_named(cs.subrange(0, i as int), ns@, name@).len(),
            out@.len() <= whole.len(),
            filter_named(cs.subrange(0, i as int), ns@, name@) == whole.subrange(0, out@.len() as int),
            forall|j: int| 0 <= j < out@.len() ==> #[trigger] whole[j].text@ == out@[j]@,
        decreases e.children.len() - i,
    {
        let c = &e.children[i];
        let ghost k = out@.len() as int;
        proof {
            lemma_filter_prefix(cs, ns@, name@, i as int);
            if i + 1 < cs.len() {
                lemma_filter_prefix(cs, ns@, name@, i + 1);
            } else {
                assert(cs.subrange(0, i + 1) =~= cs);
                assert(whole.subrange(0, whole.len() as int) =~= whole);
            }
        }
        if str_eq(c.namespace.as_str(), ns) && str_eq(c.name.as_str(), name) {
            assert(whole[k] == *c);
            out.push(c.text.clone());
        }
        i = i + 1;
    }
    assert(cs.subrange(0, i as int) =~= cs);
    assert(whole.subrange(0, out@.len() as int) =~= whole);
    proof {
        assert forall|s: Seq<String>| #[trigger] text_list(*e, ns@, name@, s) implies same_texts(out@, s) by {
            assert forall|j: int| 0 <= j < s.len() implies #[trigger] out@[j]@ == s[j]@ by {
                assert(whole[j].text@ == out@[j]@);
            }
        }
    }
    out
}

/// Reads the integers held by the children `ns:name`, in order.
pub fn read_int_list(e: &Element, ns: &str, name: &str) -> (r: Result<Vec<i32>, DecodeError>)
    ensures
        r matches Ok(v) ==> int_list_read(*e, ns@, name@, v@),
        forall|s: Seq<i32>| #[trigger] int_list_written(*e, ns@, name@, s) ==> (r matches Ok(v) && v@ == s),
{
    let ghost cs = e.children@;
    let ghost whole = filter_named(cs, ns@, name@);
    let mut out: Vec<i32> = Vec::new();
    let mut i: usize = 0;
    while i < e.children.len()
        invariant
            cs == e.children@,
            whole == filter_named(cs, ns@, name@),
            i <= e.children.len(),
            out@.len() == filter_named(cs.subrange(0, i as int), ns@, name@).len(),
            out@.len() <= whole.len(),
            filter_named(cs.subrange(0, i as int), ns@, name@) == whole.subrange(0, out@.len() as int),
            forall|j: int| 0 <= j < out@.len() ==> parse_scalar(i32_kind(), #[trigger] whole[j].text@) == Some(out@[j] as int),
        decreases e.children.len() - i,
    {
        let c = &e.children[i];
        let ghost k = out@.len() as int;
        proof {
            lemma_filter_prefix(cs, ns@, name@, i as int);
            if i + 1 < cs.len() {
                lemma_filter_prefix(cs, ns@, name@, i + 1);
            } else {
                assert(cs.subrange(0, i + 1) =~= cs);
                assert(whole.subrange(0, whole.len() as int) =~= whole);
            }
        }
        if str_eq(c.namespace.as_str(), ns) && str_eq(c.name.as_str(), name) {
            assert(whole[k] == *c);
            let parsed = parse_scalar_text(&c.text, false, 2147483648, 2147483647);
            match parsed {
                Some(v) => {
                    out.push(v as i32);
                },
                None => {
                    proof {
                        assert forall|s: Seq<i32>| #[trigger] int_list_written(*e, ns@, name@, s) implies false by {
                            lemma_scalar_round_trip(i32_kind(), s[k] as int);
                            assert(whole[k].text@ == int_text(s[k] as int));
                        }
                    }
                    return Err(DecodeError::BadValue { field: String::from_str(name), text: c.text.clone() });
                },
            }
        }
        i = i + 1;
    }
    assert(cs.subrange(0, i as int) =~= cs);
    assert(whole.subrange(0, out@.len() as int) =~= whole);
    proof {
        assert(out@.len() == whole.len());
        assert forall|s: Seq<i32>| #[trigger] int_list_written(*e, ns@, name@, s) implies out@ == s by {
            assert(s.len() == whole.len());
            assert forall|j: int| 0 <= j < s.len() implies out@[j] == s[j] by {
                lemma_scalar_round_trip(i32_kind(), s[j] as int);
                assert(whole[j].text@ == int_text(s[j] as int));
                assert(parse_scalar(i32_kind(), whole[j].text@) == Some(out@[j] as int));
            }
            assert(out@ =~= s);
        }
    }
    Ok(out)
}

/// Reads the value held by the required child `ns:name`.
pub fn read_message<T: XmlMessage>(e: &Element, ns: &str, name: &str) -> (r: Result<T, DecodeError>)
    ensures
        r matches Ok(v) ==> optional_message_read(*e, ns@, name@, Some(v)),
        child(*e, ns@, name@) is None ==> (r matches Err(x) && x is MissingField && (x->MissingField_0)@ == name@),
        forall|v: T| v.wf() && #[trigger] optional_message_written(*e, ns@, name@, Some(v)) ==> (r matches Ok(w) && w.same(&v)),
{
    let c = required_child(e, ns, name)?;
    T::from_element(c)
}

/// Reads the value held by the child `ns:name`, if there is one.
pub fn read_optional_message<T: XmlMessage>(e: &Element, ns: &str, name: &str) -> (r: Result<Option<T>, DecodeError>)
    ensures
        r matches Ok(v) ==> optional_message_read(*e, ns@, name@, v),
        forall|v: Option<T>| optional_wf(v) && #[trigger] optional_message_written(*e, ns@, name@, v) ==> (r matches Ok(w) && optional_same(w, v)),
{
    match find_child(e, ns, name) {
        None => Ok(None),
        Some(i) => {
            let v = T::from_element(&e.children[i])?;
            Ok(Some(v))
        },
    }
}

/// A nested value written under `ns:name` is found alike in an element
/// with the same tree.
pub proof fn lemma_message_tree<T: XmlMessage>(e1: Element, e2: Element, ns: Seq<char>, name: Seq<char>, v: Option<T>)
    requires
        tree_of(e1) == tree_of(e2),
        optional_message_written(e1, ns, name, v),
    ensures
        optional_message_written(e2, ns, name, v),
{
    lemma_same_tree_children(e1, e2, ns);
    if let Some(x) = v {
        x.lemma_encodes_tree(child(e1, ns, name)->0, child(e2, ns, name)->0);
    } else {
        assert(child(e2, ns, name) is None);
    }
}

/// Repeated values written under `ns:name` are found alike in an element
/// with the same tree.
pub proof fn lemma_list_tree<T: XmlMessage>(e1: Element, e2: Element, ns: Seq<char>, name: Seq<char>, v: Seq<T>)
    requires
        tree_of(e1) == tree_of(e2),
        list_written(e1, ns, name, v),
    ensures
        list_written(e2, ns, name, v),
{
    lemma_same_tree_children(e1, e2, ns);
    let f1 = filter_named(e1.children@, ns, name);
    let f2 = filter_named(e2.children@, ns, name);
    assert forall|i: int| 0 <= i < f2.len() implies #[trigger] v[i].encodes(f2[i]) by {
        assert(tree_of(f1[i]) == tree_of(f2[i]));
        v[i].lemma_encodes_tree(f1[i], f2[i]);
    }
}

/// Texts and integers written under `ns:name` are found alike in an element
/// with the same tree.
pub proof fn lemma_texts_tree(e1: Element, e2: Element, ns: Seq<char>, name: Seq<char>, v: Seq<String>, w: Seq<i32>)
    requires
        tree_of(e1) == tree_of(e2),
    ensures
        text_list(e1, ns, name, v) ==> text_list(e2, ns, name, v),
        int_list_written(e1, ns, name, w) ==> int_list_written(e2, ns, name, w),
{
    lemma_same_tree_children(e1, e2, ns);
    let f1 = filter_named(e1.children@, ns, name);
    let f2 = filter_named(e2.children@, ns, name);
    assert forall|i: int| 0 <= i < f2.len() implies #[trigger] f2[i].text@ == f1[i].text@ by {
        assert(tree_of(f1[i]) == tree_of(f2[i]));
    }
}

} // verus!
