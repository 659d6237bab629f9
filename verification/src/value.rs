//! Values of the rows and documents that are read from a cluster.
//!
//! A double is held by its bit pattern. Where a double has to be computed from
//! an integer or read from a text, or written as a text, the value says from
//! what, and `FloatForm` says what it stands for.
use vstd::prelude::*;
use crate::text::same;

verus! {

/// A number of a document: an integer by its sign, or a double by its bits.
#[derive(Debug, Clone, Copy, PartialEq, Eq, Structural)]
pub enum Number {
    /// An integer that is not negative.
    PosInt(u64),
    /// A negative integer.
    NegInt(i64),
    /// A double, by its IEEE 754 bit pattern.
    Float(u64),
}

/// A double, or a text about a double, that stands for itself until it is
/// turned into a document.
#[derive(Debug, PartialEq)]
pub enum FloatForm {
    /// The double nearest to an integer.
    OfInteger(i64),
    /// The double that a text spells; the integer zero where it spells none or
    /// one that is not finite.
    OfText(String),
    /// The double that a text spells, or zero where it is not finite; the text
    /// itself where it spells none.
    OfTextOrText(String),
    /// The shortest decimal text of the double with these bits.
    TextOf(u64),
}

/// A value of a document or of a row.
#[derive(Debug, PartialEq)]
pub enum Value {
    /// The absent value.
    Null,
    /// A truth value.
    Bool(bool),
    /// A number.
    Number(Number),
    /// A text.
    Text(String),
    /// A list of values.
    Array(Vec<Value>),
    /// Values by name, in order.
    Object(Vec<(String, Value)>),
    /// A double that is still to be computed.
    Deferred(FloatForm),
}

/// What a `FloatForm` holds.
pub enum FloatFormView {
    OfInteger(i64),
    OfText(Seq<char>),
    OfTextOrText(Seq<char>),
    TextOf(u64),
}

/// What a `Value` holds.
pub enum ValueView {
    Null,
    Bool(bool),
    Number(Number),
    Text(Seq<char>),
    Array(Seq<ValueView>),
    Object(Seq<(Seq<char>, ValueView)>),
    Deferred(FloatFormView),
}

impl View for FloatForm {
    type V = FloatFormView;

    open spec fn view(&self) -> FloatFormView {
        match self {
            FloatForm::OfInteger(i) => FloatFormView::OfInteger(*i),
            FloatForm::OfText(s) => FloatFormView::OfText(s@),
            FloatForm::OfTextOrText(s) => FloatFormView::OfTextOrText(s@),
            FloatForm::TextOf(bits) => FloatFormView::TextOf(*bits),
        }
    }
}

impl Value {
    /// What the value holds.
    pub open spec fn model(self) -> ValueView
        decreases self,
    {
        match self {
            Value::Null => ValueView::Null,
            Value::Bool(b) => ValueView::Bool(b),
            Value::Number(n) => ValueView::Number(n),
            Value::Text(s) => ValueView::Text(s@),
            Value::Array(v) => ValueView::Array(
                Seq::new(
                    v@.len(),
                    |i: int|
                        if 0 <= i < v@.len() {
                            v@[i].model()
                        } else {
                            ValueView::Null
                        },
                ),
            ),
            Value::Object(v) => ValueView::Object(
                Seq::new(
                    v@.len(),
                    |i: int|
                        if 0 <= i < v@.len() {
                            (v@[i].0@, v@[i].1.model())
                        } else {
                            (Seq::empty(), ValueView::Null)
                        },
                ),
            ),
            Value::Deferred(f) => ValueView::Deferred(f@),
        }
    }
}

impl View for Value {
    type V = ValueView;

    open spec fn view(&self) -> ValueView {
        self.model()
    }
}

impl Clone for FloatForm {
    fn clone(&self) -> (r: Self)
        ensures
            r@ == self@,
    {
        match self {
            FloatForm::OfInteger(i) => FloatForm::OfInteger(*i),
            FloatForm::OfText(s) => FloatForm::OfText(s.clone()),
            FloatForm::OfTextOrText(s) => FloatForm::OfTextOrText(s.clone()),
            FloatForm::TextOf(bits) => FloatForm::TextOf(*bits),
        }
    }
}

impl Clone for Value {
    fn clone(&self) -> (r: Self)
        ensures
            r@ == self@,
        decreases self,
    {
        match self {
            Value::Null => Value::Null,
            Value::Bool(b) => Value::Bool(*b),
            Value::Number(n) => Value::Number(*n),
            Value::Text(s) => Value::Text(s.clone()),
            Value::Array(v) => {
                let mut out: Vec<Value> = Vec::new();
                let mut i: usize = 0;
                while i < v.len()
                    invariant
                        i <= v@.len(),
                        out@.len() == i,
                        self matches Value::Array(w) && w == v,
                        forall|k: int| 0 <= k < i ==> (#[trigger] out@[k])@ == v@[k]@,
                    decreases v@.len() - i,
                {
                    assert(decreases_to!(*self => v@[i as int]));
                    out.push(v[i].clone());
                    i += 1;
                }
                let r = Value::Array(out);
                proof {
                    reveal_with_fuel(Value::model, 2);
                    assert(r@->Array_0 =~= self@->Array_0);
                }
                r
            },
            Value::Object(v) => {
                let mut out: Vec<(String, Value)> = Vec::new();
                let mut i: usize = 0;
                while i < v.len()
                    invariant
                        i <= v@.len(),
                        out@.len() == i,
                        self matches Value::Object(w) && w == v,
                        forall|k: int|
                            0 <= k < i ==> (#[trigger] out@[k]).0@ == v@[k].0@ && out@[k].1@ == v@[k].1@,
                    decreases v@.len() - i,
                {
                    assert(decreases_to!(*self => v@[i as int].1));
                    out.push((v[i].0.clone(), v[i].1.clone()));
                    i += 1;
                }
                let r = Value::Object(out);
                proof {
                    reveal_with_fuel(Value::model, 2);
                    assert(r@->Object_0 =~= self@->Object_0);
                }
                r
            },
            Value::Deferred(f) => Value::Deferred(f.clone()),
        }
    }
}

/// Whether the double with these bits is finite: not every bit of its exponent
/// is set.
pub open spec fn finite_bits(bits: u64) -> bool {
    (bits / 0x10_0000_0000_0000) % 0x800 != 0x7FF
}

impl Number {
    /// The integer `n` as a number.
    pub open spec fn of_int(n: int) -> Number {
        if n < 0 {
            Number::NegInt(n as i64)
        } else {
            Number::PosInt(n as u64)
        }
    }

    /// The double with these bits as a number, or zero where it is not finite.
    pub open spec fn of_bits(bits: u64) -> Number {
        if finite_bits(bits) {
            Number::Float(bits)
        } else {
            Number::PosInt(0)
        }
    }

    /// The number as a signed integer, where it is an integer and fits.
    pub open spec fn signed(self) -> Option<i64> {
        match self {
            Number::PosInt(u) => if u <= i64::MAX {
                Some(u as i64)
            } else {
                None
            },
            Number::NegInt(i) => Some(i),
            Number::Float(_) => None,
        }
    }

    /// The integer `n` as a number.
    pub fn from_i64(n: i64) -> (r: Number)
        ensures
            r == Number::of_int(n as int),
    {
        if n < 0 {
            Number::NegInt(n)
        } else {
            Number::PosInt(n as u64)
        }
    }

    /// The double with these bits as a number, or zero where it is not finite.
    pub fn from_bits(bits: u64) -> (r: Number)
        ensures
            r == Number::of_bits(bits),
    {
        if (bits / 0x10_0000_0000_0000) % 0x800 != 0x7FF {
            Number::Float(bits)
        } else {
            Number::PosInt(0)
        }
    }

    /// The number as a signed integer, where it is an integer and fits.
    pub fn as_i64(&self) -> (r: Option<i64>)
        ensures
            r == self.signed(),
    {
        match self {
            Number::PosInt(u) => if *u <= 0x7FFF_FFFF_FFFF_FFFFu64 {
                Some(*u as i64)
            } else {
                None
            },
            Number::NegInt(i) => Some(*i),
            Number::Float(_) => None,
        }
    }
}

/// The value of the first of `items` that has the name `name`.
pub open spec fn named_item(items: Seq<(Seq<char>, ValueView)>, name: Seq<char>) -> Option<ValueView>
    decreases items.len(),
{
    if items.len() == 0 {
        None
    } else if items[0].0 == name {
        Some(items[0].1)
    } else {
        named_item(items.skip(1), name)
    }
}

impl ValueView {
    /// What stands under `name` in an object.
    pub open spec fn field(self, name: Seq<char>) -> Option<ValueView> {
        match self {
            ValueView::Object(items) => named_item(items, name),
            _ => None,
        }
    }

    /// The integer that the value is.
    pub open spec fn signed(self) -> Option<i64> {
        match self {
            ValueView::Number(n) => n.signed(),
            _ => None,
        }
    }

    /// The text that the value is.
    pub open spec fn text(self) -> Option<Seq<char>> {
        match self {
            ValueView::Text(s) => Some(s),
            _ => None,
        }
    }
}

impl Value {
    /// What stands under `name` in an object.
    pub fn field(&self, name: &str) -> (r: Option<&Value>)
        ensures
            match r {
                Some(v) => self@.field(name@) == Some(v@),
                None => self@.field(name@) is None,
            },
    {
        match self {
            Value::Object(items) => {
                let ghost all = self@->Object_0;
                proof {
                    reveal_with_fuel(Value::model, 2);
                    assert(all.skip(0) =~= all);
                }
                let mut i: usize = 0;
                while i < items.len()
                    invariant
                        i <= items@.len(),
                        self@ == ValueView::Object(all),
                        all.len() == items@.len(),
                        forall|k: int|
                            0 <= k < items@.len() ==> #[trigger] all[k] == (
                                items@[k].0@,
                                items@[k].1@,
                            ),
                        named_item(all, name@) == named_item(all.skip(i as int), name@),
                    decreases items@.len() - i,
                {
                    assert(all.skip(i as int)[0] == all[i as int]);
                    assert(all.skip(i as int).skip(1) =~= all.skip(i + 1));
                    if same(items[i].0.as_str(), name) {
                        return Some(&items[i].1);
                    }
                    i += 1;
                }
                None
            },
            _ => None,
        }
    }

    /// The integer that the value is.
    pub fn as_i64(&self) -> (r: Option<i64>)
        ensures
            r == self@.signed(),
    {
        match self {
            Value::Number(n) => n.as_i64(),
            _ => None,
        }
    }
}

/// Of the items with a name the first counts, and an object without one has nothing
/// under the name.
pub proof fn first_item_counts(items: Seq<(Seq<char>, ValueView)>, name: Seq<char>, k: int)
    ensures
        0 <= k < items.len() && items[k].0 == name && (forall|j: int|
            0 <= j < k ==> (#[trigger] items[j]).0 != name) ==> ValueView::Object(items).field(name)
            == Some(items[k].1),
        (forall|j: int| 0 <= j < items.len() ==> (#[trigger] items[j]).0 != name)
            ==> ValueView::Object(items).field(name) is None,
    decreases items.len(),
{
    if items.len() > 0 {
        let rest = items.skip(1);
        first_item_counts(rest, name, k - 1);
        assert(forall|j: int| 0 <= j < rest.len() ==> #[trigger] rest[j] == items[j + 1]);
        if 0 < k < items.len() && (forall|j: int| 0 <= j < k ==> (#[trigger] items[j]).0 != name) {
            assert(items[0].0 != name);
            assert forall|j: int| 0 <= j < k - 1 implies (#[trigger] rest[j]).0 != name by {
                assert(items[j + 1].0 != name);
            }
        }
        if forall|j: int| 0 <= j < items.len() ==> (#[trigger] items[j]).0 != name {
            assert(items[0].0 != name);
            assert forall|j: int| 0 <= j < rest.len() implies (#[trigger] rest[j]).0 != name by {
                assert(items[j + 1].0 != name);
            }
        }
    }
}

/// A signed integer is a number of its own sign, and is that integer again; a number
/// without a sign that needs all 64 bits, and a double, are no signed integers.
pub proof fn integers_are_numbers(n: i64, u: u64, bits: u64)
    ensures
        n < 0 ==> Number::of_int(n as int) == Number::NegInt(n),
        n >= 0 ==> Number::of_int(n as int) == Number::PosInt(n as u64),
        Number::of_int(n as int).signed() == Some(n),
        u > 0x7FFF_FFFF_FFFF_FFFF ==> Number::PosInt(u).signed() is None,
        u <= 0x7FFF_FFFF_FFFF_FFFF ==> Number::PosInt(u).signed() == Some(u as i64),
        Number::Float(bits).signed() is None,
        ValueView::Number(Number::of_int(n as int)).signed() == Some(n),
{
}

/// A double is a number bit by bit, unless all bits of its exponent are set: what is
/// infinite or no number is zero.
pub proof fn finite_doubles_are_numbers(bits: u64)
    ensures
        (bits / 0x10_0000_0000_0000) % 0x800 != 0x7FF ==> Number::of_bits(bits) == Number::Float(
            bits,
        ),
        (bits / 0x10_0000_0000_0000) % 0x800 == 0x7FF ==> Number::of_bits(bits) == Number::PosInt(0),
{
}

/// What a value holds is what it was made of.
pub proof fn values_hold_what_they_are_made_of(b: bool, n: Number, s: String)
    ensures
        Value::Null@ == ValueView::Null,
        Value::Bool(b)@ == ValueView::Bool(b),
        Value::Number(n)@ == ValueView::Number(n),
        Value::Text(s)@ == ValueView::Text(s@),
{
}

} // verus!
