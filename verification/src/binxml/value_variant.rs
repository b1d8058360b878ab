//! Typed values and their canonical text.
//!
//! A value that is natively a string is its own text. The canonical text of any other value
//! is the name of its type, followed where the value has a payload by the payload in
//! parentheses: `UInt32Type(4624)`, `BoolType(true)`, `BinaryType([1, 2])`, `NullType`.
//! This is also how `{:?}` writes such a value.

use std::borrow::Cow;
use vstd::prelude::*;

verus! {

/// A decoded value together with the type it was decoded as.
#[derive(Debug)]
pub enum BinXmlValue<'a> {
    /// No value.
    NullType,
    /// A string, borrowed from the decoded buffer or owned.
    StringType(Cow<'a, str>),
    /// A signed 8-bit integer.
    Int8Type(i8),
    /// An unsigned 8-bit integer.
    UInt8Type(u8),
    /// A signed 16-bit integer.
    Int16Type(i16),
    /// An unsigned 16-bit integer.
    UInt16Type(u16),
    /// A signed 32-bit integer.
    Int32Type(i32),
    /// An unsigned 32-bit integer.
    UInt32Type(u32),
    /// A signed 64-bit integer.
    Int64Type(i64),
    /// An unsigned 64-bit integer.
    UInt64Type(u64),
    /// A truth value.
    BoolType(bool),
    /// A run of raw bytes, borrowed from the decoded buffer.
    BinaryType(&'a [u8]),
}

/// The character that writes the digit `d`, for `0 <= d <= 9`.
pub open spec fn digit(d: int) -> char {
    if d == 0 {
        '0'
    } else if d == 1 {
        '1'
    } else if d == 2 {
        '2'
    } else if d == 3 {
        '3'
    } else if d == 4 {
        '4'
    } else if d == 5 {
        '5'
    } else if d == 6 {
        '6'
    } else if d == 7 {
        '7'
    } else if d == 8 {
        '8'
    } else {
        '9'
    }
}

/// The decimal numeral of `n`, without leading zeros.
pub open spec fn decimal(n: nat) -> Seq<char>
    decreases n,
{
    if n < 10 {
        seq![digit(n as int)]
    } else {
        decimal(n / 10).push(digit((n % 10) as int))
    }
}

/// The decimal numeral of `i`, with a minus sign in front where `i` is negative.
pub open spec fn signed_decimal(i: int) -> Seq<char> {
    if i < 0 {
        seq!['-'] + decimal((-i) as nat)
    } else {
        decimal(i as nat)
    }
}

/// The decimal numerals of `bytes`, separated by a comma and a space.
pub open spec fn byte_list(bytes: Seq<u8>) -> Seq<char>
    decreases bytes.len(),
{
    if bytes.len() == 0 {
        Seq::empty()
    } else if bytes.len() == 1 {
        decimal(bytes[0] as nat)
    } else {
        byte_list(bytes.drop_last()) + seq![',', ' '] + decimal(bytes.last() as nat)
    }
}

/// A type name followed by a payload in parentheses.
pub open spec fn tagged(tag: Seq<char>, payload: Seq<char>) -> Seq<char> {
    tag + seq!['('] + payload + seq![')']
}

impl<'a> BinXmlValue<'a> {
    /// Whether the value is natively a string.
    pub open spec fn is_string(self) -> bool {
        self is StringType
    }

    /// The text that stands for the value in an attribute: the string itself where the value
    /// is natively a string, else the value's type name and payload.
    pub open spec fn canonical_text(self) -> Seq<char> {
        match self {
            BinXmlValue::NullType => "NullType"@,
            BinXmlValue::StringType(text) => text@,
            BinXmlValue::Int8Type(v) => tagged("Int8Type"@, signed_decimal(v as int)),
            BinXmlValue::UInt8Type(v) => tagged("UInt8Type"@, decimal(v as nat)),
            BinXmlValue::Int16Type(v) => tagged("Int16Type"@, signed_decimal(v as int)),
            BinXmlValue::UInt16Type(v) => tagged("UInt16Type"@, decimal(v as nat)),
            BinXmlValue::Int32Type(v) => tagged("Int32Type"@, signed_decimal(v as int)),
            BinXmlValue::UInt32Type(v) => tagged("UInt32Type"@, decimal(v as nat)),
            BinXmlValue::Int64Type(v) => tagged("Int64Type"@, signed_decimal(v as int)),
            BinXmlValue::UInt64Type(v) => tagged("UInt64Type"@, decimal(v as nat)),
            BinXmlValue::BoolType(v) => tagged(
                "BoolType"@,
                if v {
                    "true"@
                } else {
                    "false"@
                },
            ),
            BinXmlValue::BinaryType(bytes) => tagged(
                "BinaryType"@,
                seq!['['] + byte_list(bytes@) + seq![']'],
            ),
        }
    }

    /// Whether `text` holds the value's text the way `into_text` hands it on: a string just
    /// as the value held it, any other value written out into a text of its own.
    pub open spec fn is_rendered_as(self, text: Cow<'a, str>) -> bool {
        &&& text@ == self.canonical_text()
        &&& self matches BinXmlValue::StringType(given) ==> text == given
        &&& !self.is_string() ==> text matches Cow::Owned(_)
    }

    /// The canonical text of a value that is not natively a string is never empty.
    pub proof fn lemma_canonical_text_nonempty(self)
        requires
            !self.is_string(),
        ensures
            self.canonical_text().len() > 0,
    {
        reveal_strlit("NullType");
    }

    /// Turns the value into the text that stands for it in an attribute. A string is handed
    /// on as it is, still borrowed where it was borrowed; any other value is written out
    /// into a new, owned text.
    pub fn into_text(self) -> (text: Cow<'a, str>)
        ensures
            text@ == self.canonical_text(),
            self matches BinXmlValue::StringType(given) ==> text == given,
            !self.is_string() ==> text matches Cow::Owned(_),
            !self.is_string() ==> text@.len() > 0,
    {
        proof {
            if !self.is_string() {
                self.lemma_canonical_text_nonempty();
            }
        }
        match self {
            BinXmlValue::NullType => Cow::Owned(String::from_str("NullType")),
            BinXmlValue::StringType(text) => text,
            BinXmlValue::Int8Type(v) => Cow::Owned(tagged_signed("Int8Type", v as i64)),
            BinXmlValue::UInt8Type(v) => Cow::Owned(tagged_unsigned("UInt8Type", v as u64)),
            BinXmlValue::Int16Type(v) => Cow::Owned(tagged_signed("Int16Type", v as i64)),
            BinXmlValue::UInt16Type(v) => Cow::Owned(tagged_unsigned("UInt16Type", v as u64)),
            BinXmlValue::Int32Type(v) => Cow::Owned(tagged_signed("Int32Type", v as i64)),
            BinXmlValue::UInt32Type(v) => Cow::Owned(tagged_unsigned("UInt32Type", v as u64)),
            BinXmlValue::Int64Type(v) => Cow::Owned(tagged_signed("Int64Type", v)),
            BinXmlValue::UInt64Type(v) => Cow::Owned(tagged_unsigned("UInt64Type", v)),
            BinXmlValue::BoolType(v) => Cow::Owned(tagged_bool(v)),
            BinXmlValue::BinaryType(bytes) => Cow::Owned(tagged_bytes(bytes)),
        }
    }
}

/// The one-character string that writes the digit `d`.
fn digit_str(d: u64) -> (s: &'static str)
    requires
        d < 10,
    ensures
        s@ == seq![digit(d as int)],
{
    proof {
        reveal_strlit("0");
        reveal_strlit("1");
        reveal_strlit("2");
        reveal_strlit("3");
        reveal_strlit("4");
        reveal_strlit("5");
        reveal_strlit("6");
        reveal_strlit("7");
        reveal_strlit("8");
        reveal_strlit("9");
    }
    if d == 0 {
        "0"
    } else if d == 1 {
        "1"
    } else if d == 2 {
        "2"
    } else if d == 3 {
        "3"
    } else if d == 4 {
        "4"
    } else if d == 5 {
        "5"
    } else if d == 6 {
        "6"
    } else if d == 7 {
        "7"
    } else if d == 8 {
        "8"
    } else {
        "9"
    }
}

/// Appends the decimal numeral of `n` to `out`.
fn push_decimal(out: &mut String, n: u64)
    ensures
        final(out)@ == old(out)@ + decimal(n as nat),
    decreases n,
{
    if n >= 10 {
        push_decimal(out, n / 10);
    }
    out.append(digit_str(n % 10));
}

/// Appends the decimal numeral of `i` to `out`, after a minus sign where `i` is negative.
fn push_signed_decimal(out: &mut String, i: i64)
    ensures
        final(out)@ == old(out)@ + signed_decimal(i as int),
{
    if i < 0 {
        proof {
            reveal_strlit("-");
        }
        out.append("-");
        // The magnitude of the least value has no positive counterpart of the same width.
        let magnitude: u64 = if i == i64::MIN {
            0x8000_0000_0000_0000
        } else {
            (-i) as u64
        };
        push_decimal(out, magnitude);
    } else {
        push_decimal(out, i as u64);
    }
}

/// Appends the decimal numerals of `bytes` to `out`, separated by a comma and a space.
fn push_byte_list(out: &mut String, bytes: &[u8])
    ensures
        final(out)@ == old(out)@ + byte_list(bytes@),
{
    let mut i: usize = 0;
    while i < bytes.len()
        invariant
            i <= bytes@.len(),
            out@ == old(out)@ + byte_list(bytes@.take(i as int)),
        decreases bytes@.len() - i,
    {
        if i > 0 {
            proof {
                reveal_strlit(", ");
            }
            out.append(", ");
        }
        push_decimal(out, bytes[i] as u64);
        proof {
            let done = bytes@.take(i + 1);
            assert(done.drop_last() =~= bytes@.take(i as int));
            assert(done.last() == bytes@[i as int]);
        }
        i += 1;
    }
    proof {
        assert(bytes@.take(i as int) =~= bytes@);
    }
}

/// A new text that holds `tag` and an opening parenthesis.
fn open_tag(tag: &str) -> (out: String)
    ensures
        out@ == tag@ + seq!['('],
{
    proof {
        reveal_strlit("(");
    }
    let mut out = String::from_str(tag);
    out.append("(");
    out
}

/// Closes the parenthesis that `open_tag` opened.
fn close_tag(out: String) -> (closed: String)
    ensures
        closed@ == out@ + seq![')'],
{
    proof {
        reveal_strlit(")");
    }
    let mut closed = out;
    closed.append(")");
    closed
}

/// The text of `tag` with the unsigned integer `n` as its payload.
fn tagged_unsigned(tag: &str, n: u64) -> (out: String)
    ensures
        out@ == tagged(tag@, decimal(n as nat)),
{
    let mut out = open_tag(tag);
    push_decimal(&mut out, n);
    close_tag(out)
}

/// The text of `tag` with the signed integer `i` as its payload.
fn tagged_signed(tag: &str, i: i64) -> (out: String)
    ensures
        out@ == tagged(tag@, signed_decimal(i as int)),
{
    let mut out = open_tag(tag);
    push_signed_decimal(&mut out, i);
    close_tag(out)
}

/// The text of a truth value.
fn tagged_bool(v: bool) -> (out: String)
    ensures
        out@ == tagged(
            "BoolType"@,
            if v {
                "true"@
            } else {
                "false"@
            },
        ),
{
    let mut out = open_tag("BoolType");
    if v {
        out.append("true");
    } else {
        out.append("false");
    }
    close_tag(out)
}

/// The text of a run of raw bytes.
fn tagged_bytes(bytes: &[u8]) -> (out: String)
    ensures
        out@ == tagged("BinaryType"@, seq!['['] + byte_list(bytes@) + seq![']']),
{
    proof {
        reveal_strlit("[");
        reveal_strlit("]");
    }
    let mut out = open_tag("BinaryType");
    out.append("[");
    push_byte_list(&mut out, bytes);
    out.append("]");
    close_tag(out)
}

} // verus!
