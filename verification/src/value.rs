//! The values that a setting can hold, and how the text of a scalar setting is
//! read as one of them.

use crate::setting::{clone_settings, setting_view, setting_views, Setting, SettingView};
use crate::text::{chars_of, opt_text, texts};
use vstd::prelude::*;

verus! {

/// Whom a setting is meant for.
#[derive(Debug, PartialEq, Eq, Structural, Clone, Copy)]
pub enum PolicyType {
    User,
    Device,
    Unknown,
}

/// One entry of a list value: a name and, optionally, what it is set to.
#[derive(Debug, PartialEq, Eq)]
pub struct PresentationValueList {
    pub name: String,
    pub value: Option<String>,
}

/// A list entry as a mathematical value.
pub struct NamedValue {
    pub name: Seq<char>,
    pub value: Option<Seq<char>>,
}

impl View for PresentationValueList {
    type V = NamedValue;

    open spec fn view(&self) -> NamedValue {
        NamedValue { name: self.name@, value: opt_text(self.value) }
    }
}

impl Clone for PresentationValueList {
    fn clone(&self) -> (r: Self)
        ensures
            r@ == self@,
    {
        PresentationValueList {
            name: self.name.clone(),
            value: match &self.value {
                Some(v) => Some(v.clone()),
                None => None,
            },
        }
    }
}

/// The entries of a list value, in order.
pub open spec fn named_values(v: Seq<PresentationValueList>) -> Seq<NamedValue> {
    v.map_values(|p: PresentationValueList| p@)
}

/// The value of a setting.
#[derive(Debug, PartialEq, Eq)]
pub enum ValueType {
    Text(String),
    Decimal(i64),
    Boolean(bool),
    MultiText(Vec<String>),
    List(Vec<PresentationValueList>),
    /// The settings of a nested group, in order.
    Collection(Vec<Setting>),
}

/// A setting's value as a mathematical value.
pub enum ValueView {
    Text(Seq<char>),
    Decimal(int),
    Boolean(bool),
    MultiText(Seq<Seq<char>>),
    List(Seq<NamedValue>),
    Collection(Seq<SettingView>),
}

/// The mathematical value of a setting's value.
pub open spec fn value_view(value: ValueType) -> ValueView
    decreases value,
{
    match value {
        ValueType::Text(s) => ValueView::Text(s@),
        ValueType::Decimal(n) => ValueView::Decimal(n as int),
        ValueType::Boolean(b) => ValueView::Boolean(b),
        ValueType::MultiText(v) => ValueView::MultiText(texts(v@)),
        ValueType::List(v) => ValueView::List(named_values(v@)),
        ValueType::Collection(v) => ValueView::Collection(
            Seq::new(
                v@.len(),
                |i: int|
                    if 0 <= i < v@.len() {
                        setting_view(v@[i])
                    } else {
                        arbitrary()
                    },
            ),
        ),
    }
}

impl View for ValueType {
    type V = ValueView;

    open spec fn view(&self) -> ValueView {
        value_view(*self)
    }
}

/// The view of an optional value.
pub open spec fn opt_value(o: Option<ValueType>) -> Option<ValueView> {
    match o {
        Some(v) => Some(v@),
        None => None,
    }
}

/// A collection's view holds the views of its settings, in order.
pub proof fn lemma_collection_view(v: Vec<Setting>)
    ensures
        ValueType::Collection(v)@ == ValueView::Collection(setting_views(v@)),
{
    assert(ValueType::Collection(v)@->Collection_0 =~= setting_views(v@));
}

/// A copy of a list of strings.
pub fn clone_strings(v: &Vec<String>) -> (r: Vec<String>)
    ensures
        r@ == v@,
{
    let mut r: Vec<String> = Vec::new();
    let mut i: usize = 0;
    while i < v.len()
        invariant
            i <= v.len(),
            r@ == v@.take(i as int),
        decreases v.len() - i,
    {
        r.push(v[i].clone());
        assert(r@ =~= v@.take(i + 1));
        i += 1;
    }
    assert(v@.take(v.len() as int) =~= v@);
    r
}

/// A copy of a list of named values.
pub fn clone_named_values(v: &Vec<PresentationValueList>) -> (r: Vec<PresentationValueList>)
    ensures
        named_values(r@) == named_values(v@),
{
    let mut r: Vec<PresentationValueList> = Vec::new();
    let mut i: usize = 0;
    while i < v.len()
        invariant
            i <= v.len(),
            r@.len() == i,
            forall|k: int| 0 <= k < i ==> (#[trigger] r@[k])@ == v@[k]@,
        decreases v.len() - i,
    {
        r.push(v[i].clone());
        i += 1;
    }
    assert(named_values(r@) =~= named_values(v@));
    r
}

/// A copy of a value.
pub fn clone_value(value: &ValueType) -> (r: ValueType)
    ensures
        r@ == value@,
    decreases value,
{
    match value {
        ValueType::Text(s) => ValueType::Text(s.clone()),
        ValueType::Decimal(n) => ValueType::Decimal(*n),
        ValueType::Boolean(b) => ValueType::Boolean(*b),
        ValueType::MultiText(v) => ValueType::MultiText(clone_strings(v)),
        ValueType::List(v) => ValueType::List(clone_named_values(v)),
        ValueType::Collection(v) => {
            let copy = clone_settings(v);
            proof {
                lemma_collection_view(*v);
                lemma_collection_view(copy);
            }
            ValueType::Collection(copy)
        },
    }
}

impl Clone for ValueType {
    fn clone(&self) -> (r: Self)
        ensures
            r@ == self@,
    {
        clone_value(self)
    }
}

/// Whether `c` is one of the ten decimal digits.
pub open spec fn is_digit(c: char) -> bool {
    '0' <= c <= '9'
}

/// The number that a decimal digit stands for.
pub open spec fn digit_value(c: char) -> int {
    c as u32 as int - 48
}

/// Whether every character of `s` is a decimal digit.
pub open spec fn all_digits(s: Seq<char>) -> bool {
    forall|i: int| 0 <= i < s.len() ==> is_digit(#[trigger] s[i])
}

/// The number that a run of decimal digits denotes.
pub open spec fn digits_value(s: Seq<char>) -> int
    decreases s.len(),
{
    if s.len() == 0 {
        0
    } else {
        10 * digits_value(s.drop_last()) + digit_value(s.last())
    }
}

/// Whether `s` opens with a minus sign.
pub open spec fn is_negative(s: Seq<char>) -> bool {
    s.len() > 0 && s[0] == '-'
}

/// What is left of `s` after one leading `+` or `-`, if it has one.
pub open spec fn unsigned_part(s: Seq<char>) -> Seq<char> {
    if s.len() > 0 && (s[0] == '-' || s[0] == '+') {
        s.skip(1)
    } else {
        s
    }
}

/// The 64-bit signed integer that `s` denotes in decimal notation: an optional
/// sign and then one or more digits, nothing before, between or after them,
/// and a value that fits. `None` for every other text.
pub open spec fn decimal_value(s: Seq<char>) -> Option<int> {
    let digits = unsigned_part(s);
    let value: int = if is_negative(s) {
        -digits_value(digits)
    } else {
        digits_value(digits)
    };
    if digits.len() > 0 && all_digits(digits) && i64::MIN <= value <= i64::MAX {
        Some(value)
    } else {
        None
    }
}

/// The code of `c`, with the capital ASCII letters mapped to the small ones.
pub open spec fn fold_case(c: char) -> u32 {
    let code: u32 = c as u32;
    if 65 <= code <= 90 {
        (code + 32) as u32
    } else {
        code
    }
}

/// Whether `a` and `b` differ at most in the case of ASCII letters.
pub open spec fn same_ignoring_case(a: Seq<char>, b: Seq<char>) -> bool {
    a.len() == b.len() && forall|i: int| 0 <= i < a.len() ==> fold_case(#[trigger] a[i]) == fold_case(b[i])
}

/// The value that the text of a scalar setting stands for: a decimal integer
/// where it denotes one, else a boolean where it spells `true` or `false` in
/// any case, else the text itself.
pub open spec fn parse_scalar(s: Seq<char>) -> ValueView {
    match decimal_value(s) {
        Some(n) => ValueView::Decimal(n),
        None => if same_ignoring_case(s, "true"@) {
            ValueView::Boolean(true)
        } else if same_ignoring_case(s, "false"@) {
            ValueView::Boolean(false)
        } else {
            ValueView::Text(s)
        },
    }
}

/// A run of digits denotes no less than any of its opening runs.
proof fn lemma_digits_grow(s: Seq<char>, i: int)
    requires
        all_digits(s),
        0 <= i <= s.len(),
    ensures
        0 <= digits_value(s.take(i)) <= digits_value(s),
    decreases s.len() - i,
{
    lemma_digits_nonnegative(s.take(i));
    if i == s.len() {
        assert(s.take(i) =~= s);
    } else {
        lemma_digits_grow(s, i + 1);
        assert(s.take(i + 1).drop_last() =~= s.take(i));
        assert(is_digit(s[i]));
    }
}

/// A run of digits denotes a number that is not negative.
proof fn lemma_digits_nonnegative(s: Seq<char>)
    requires
        all_digits(s),
    ensures
        0 <= digits_value(s),
    decreases s.len(),
{
    if s.len() > 0 {
        assert(is_digit(s.last()));
        lemma_digits_nonnegative(s.drop_last());
    }
}

/// Reads `s` as a decimal 64-bit signed integer.
pub fn parse_decimal(s: &str) -> (r: Option<i64>)
    ensures
        r matches Some(n) ==> decimal_value(s@) == Some(n as int),
        r is None ==> decimal_value(s@) is None,
{
    let chars = chars_of(s);
    let n: usize = chars.len();
    if n == 0 {
        return None;
    }
    let negative = chars[0] == '-';
    let start: usize = if chars[0] == '-' || chars[0] == '+' {
        1
    } else {
        0
    };
    if start == n {
        return None;
    }
    let ghost digits = unsigned_part(s@);
    assert(digits =~= s@.skip(start as int));
    let limit: u64 = if negative {
        0x8000_0000_0000_0000
    } else {
        0x7fff_ffff_ffff_ffff
    };
    let mut magnitude: u64 = 0;
    let mut i: usize = start;
    assert(digits.take(0) =~= Seq::empty());
    while i < n
        invariant
            start <= i <= n,
            n == chars.len(),
            chars@ == s@,
            digits == s@.skip(start as int),
            digits == unsigned_part(s@),
            negative == is_negative(s@),
            digits.len() == n - start,
            limit == if negative { 0x8000_0000_0000_0000u64 } else { 0x7fff_ffff_ffff_ffffu64 },
            magnitude <= limit,
            all_digits(digits.take(i - start)),
            magnitude == digits_value(digits.take(i - start)),
        decreases n - i,
    {
        let c = chars[i];
        let ghost sofar = digits.take(i - start);
        let ghost next = digits.take(i - start + 1);
        proof {
            assert(next.drop_last() =~= sofar);
            assert(next.last() == c);
        }
        if c < '0' || c > '9' {
            assert(!is_digit(digits[i - start]));
            return None;
        }
        let digit: u64 = (c as u32 - 48) as u64;
        assert(all_digits(next)) by {
            assert forall|k: int| 0 <= k < next.len() implies is_digit(#[trigger] next[k]) by {
                if k < sofar.len() {
                    assert(next[k] == sofar[k]);
                }
            }
        }
        let wide: u128 = magnitude as u128 * 10 + digit as u128;
        if wide > limit as u128 {
            proof {
                if all_digits(digits) {
                    lemma_digits_grow(digits, i - start + 1);
                }
            }
            return None;
        }
        magnitude = wide as u64;
        i += 1;
    }
    assert(digits.take(n - start) =~= digits);
    if negative {
        let wide: i128 = -(magnitude as i128);
        Some(wide as i64)
    } else {
        Some(magnitude as i64)
    }
}

/// Whether `s` spells `word` up to the case of ASCII letters.
fn spells(s: &Vec<char>, word: &str) -> (r: bool)
    ensures
        r == same_ignoring_case(s@, word@),
{
    let w = chars_of(word);
    if s.len() != w.len() {
        return false;
    }
    let mut i: usize = 0;
    while i < s.len()
        invariant
            i <= s.len(),
            s.len() == w.len(),
            w@ == word@,
            forall|k: int| 0 <= k < i ==> fold_case(#[trigger] s@[k]) == fold_case(w@[k]),
        decreases s.len() - i,
    {
        if fold(s[i]) != fold(w[i]) {
            return false;
        }
        i += 1;
    }
    true
}

/// The code of `c`, with the capital ASCII letters mapped to the small ones.
fn fold(c: char) -> (r: u32)
    ensures
        r == fold_case(c),
{
    let code: u32 = c as u32;
    if 65 <= code && code <= 90 {
        code + 32
    } else {
        code
    }
}

/// Reads the text of a scalar setting as a value: a decimal integer where the
/// text denotes one, else a boolean, else the text itself.
pub fn parse_input_value(input: &str) -> (value: ValueType)
    ensures
        value@ == parse_scalar(input@),
{
    match parse_decimal(input) {
        Some(n) => ValueType::Decimal(n),
        None => {
            let chars = chars_of(input);
            if spells(&chars, "true") {
                ValueType::Boolean(true)
            } else if spells(&chars, "false") {
                ValueType::Boolean(false)
            } else {
                ValueType::Text(input.to_owned())
            }
        },
    }
}

/// Text that denotes a decimal integer is never read as text or as a boolean.
pub proof fn lemma_integers_never_text(s: Seq<char>)
    requires
        decimal_value(s) is Some,
    ensures
        parse_scalar(s) == ValueView::Decimal(decimal_value(s)->0),
{
}

} // verus!
