//! Byte-level model of the JSON lines that cross the subprocess boundary.
//!
//! Every wire message is a single flat JSON object whose members are
//! strings, integers, booleans or null; nested objects and arrays are
//! carried through verbatim as raw spans. This module defines the value
//! model, a canonical printer, a parser, and the proof that the parser
//! inverts the printer on every well-formed object.

use vstd::prelude::*;
use vstd::slice::{slice_subrange, slice_to_vec};

verus! {

/// A JSON member value as the codec sees it.
#[derive(Debug, Clone, PartialEq, Eq)]
pub enum JsonValue {
    /// A string; the bytes are the unescaped UTF-8 contents.
    Str(Vec<u8>),
    /// An integer (the wire protocol uses no fractional numbers).
    Int(i64),
    /// A boolean.
    Bool(bool),
    /// The null literal.
    Null,
    /// A nested object or array, kept as its raw text.
    Raw(Vec<u8>),
}

/// Specification twin of [`JsonValue`].
pub enum SpecValue {
    Str(Seq<u8>),
    Int(int),
    Bool(bool),
    Null,
    Raw(Seq<u8>),
}

/// One member of a JSON object.
#[derive(Debug, Clone, PartialEq, Eq)]
pub struct JsonField {
    pub key: Vec<u8>,
    pub value: JsonValue,
}

/// Specification twin of [`JsonField`].
pub struct SpecField {
    pub key: Seq<u8>,
    pub value: SpecValue,
}

impl View for JsonValue {
    type V = SpecValue;

    open spec fn view(&self) -> SpecValue {
        match self {
            JsonValue::Str(s) => SpecValue::Str(s@),
            JsonValue::Int(i) => SpecValue::Int(*i as int),
            JsonValue::Bool(b) => SpecValue::Bool(*b),
            JsonValue::Null => SpecValue::Null,
            JsonValue::Raw(s) => SpecValue::Raw(s@),
        }
    }
}

impl View for JsonField {
    type V = SpecField;

    open spec fn view(&self) -> SpecField {
        SpecField { key: self.key@, value: self.value@ }
    }
}

/// The view of a whole member list.
pub open spec fn fields_view(fs: Seq<JsonField>) -> Seq<SpecField> {
    fs.map_values(|f: JsonField| f@)
}

// ---------------------------------------------------------------------------
// Printing
// ---------------------------------------------------------------------------

/// The lower-case hex digit for a nibble.
pub open spec fn hex_digit(n: u8) -> u8 {
    if n < 10 {
        (0x30 + n) as u8
    } else {
        (0x61 + (n - 10)) as u8
    }
}

/// How one string byte is printed: most bytes stand for themselves,
/// quote and backslash take a two-byte escape, the common control bytes
/// take their named escapes, and the rest of the control bytes take a
/// six-byte `\u00XX` escape.
pub open spec fn esc_byte(b: u8) -> Seq<u8> {
    if b == 0x22 {
        seq![0x5c, 0x22]
    } else if b == 0x5c {
        seq![0x5c, 0x5c]
    } else if b == 0x0a {
        seq![0x5c, 0x6e]
    } else if b == 0x0d {
        seq![0x5c, 0x72]
    } else if b == 0x09 {
        seq![0x5c, 0x74]
    } else if b < 0x20 {
        seq![0x5c, 0x75, 0x30, 0x30, hex_digit(b / 16), hex_digit(b % 16)]
    } else {
        seq![b]
    }
}

/// The escaped form of a whole string body.
pub open spec fn esc_bytes(s: Seq<u8>) -> Seq<u8>
    decreases s.len(),
{
    if s.len() == 0 {
        Seq::empty()
    } else {
        esc_byte(s[0]) + esc_bytes(s.drop_first())
    }
}

/// A printed string: quote, escaped body, quote.
pub open spec fn print_str(s: Seq<u8>) -> Seq<u8> {
    seq![0x22u8] + esc_bytes(s) + seq![0x22u8]
}

/// Decimal digits of a non-negative integer, most significant first.
pub open spec fn print_nat(n: int) -> Seq<u8>
    decreases n,
{
    if n < 10 {
        seq![(0x30 + if n >= 0 { n } else { 0 }) as u8]
    } else {
        print_nat(n / 10) + seq![(0x30 + n % 10) as u8]
    }
}

/// A printed integer, with a leading minus sign when negative.
pub open spec fn print_int(i: int) -> Seq<u8> {
    if i < 0 {
        seq![0x2du8] + print_nat(-i)
    } else {
        print_nat(i)
    }
}

pub open spec fn lit_true() -> Seq<u8> {
    seq![0x74u8, 0x72, 0x75, 0x65]
}

pub open spec fn lit_false() -> Seq<u8> {
    seq![0x66u8, 0x61, 0x6c, 0x73, 0x65]
}

pub open spec fn lit_null() -> Seq<u8> {
    seq![0x6eu8, 0x75, 0x6c, 0x6c]
}

/// A printed member value.
pub open spec fn print_value(v: SpecValue) -> Seq<u8> {
    match v {
        SpecValue::Str(s) => print_str(s),
        SpecValue::Int(i) => print_int(i),
        SpecValue::Bool(b) => if b {
            lit_true()
        } else {
            lit_false()
        },
        SpecValue::Null => lit_null(),
        SpecValue::Raw(r) => r,
    }
}

/// A printed member: key, colon, value.
pub open spec fn print_field(f: SpecField) -> Seq<u8> {
    print_str(f.key) + seq![0x3au8] + print_value(f.value)
}

/// A printed member list, comma-separated.
pub open spec fn print_fields(fs: Seq<SpecField>) -> Seq<u8>
    decreases fs.len(),
{
    if fs.len() == 0 {
        Seq::empty()
    } else if fs.len() == 1 {
        print_field(fs[0])
    } else {
        print_field(fs[0]) + seq![0x2cu8] + print_fields(fs.drop_first())
    }
}

/// A printed object: the canonical encoding of a member list.
pub open spec fn print_obj(fs: Seq<SpecField>) -> Seq<u8> {
    seq![0x7bu8] + print_fields(fs) + seq![0x7du8]
}

// ---------------------------------------------------------------------------
// Well-formedness: what the printer may be asked to print.
// ---------------------------------------------------------------------------

/// A value the printer and parser agree on: integers fit in the wire
/// type, and raw spans never stand in a canonically printed object.
pub open spec fn wf_value(v: SpecValue) -> bool {
    match v {
        SpecValue::Str(_) => true,
        SpecValue::Int(i) => i64::MIN <= i <= i64::MAX,
        SpecValue::Bool(_) => true,
        SpecValue::Null => true,
        SpecValue::Raw(_) => false,
    }
}

pub open spec fn wf_field(f: SpecField) -> bool {
    wf_value(f.value)
}

pub open spec fn wf_fields(fs: Seq<SpecField>) -> bool {
    forall|i: int| 0 <= i < fs.len() ==> #[trigger] wf_field(fs[i])
}

// ---------------------------------------------------------------------------
// Parsing. Parsers take a suffix of the input and return the parsed
// item together with the unconsumed rest.
// ---------------------------------------------------------------------------

/// JSON insignificant whitespace.
pub open spec fn is_ws(b: u8) -> bool {
    b == 0x20 || b == 0x09 || b == 0x0a || b == 0x0d
}

/// The suffix that remains once leading whitespace is gone.
pub open spec fn skip_ws(s: Seq<u8>) -> Seq<u8>
    decreases s.len(),
{
    if s.len() > 0 && is_ws(s[0]) {
        skip_ws(s.drop_first())
    } else {
        s
    }
}

/// The value of a hex digit byte, if it is one.
pub open spec fn unhex(b: u8) -> Option<u8> {
    if 0x30 <= b <= 0x39 {
        Some((b - 0x30) as u8)
    } else if 0x61 <= b <= 0x66 {
        Some((b - 0x61 + 10) as u8)
    } else if 0x41 <= b <= 0x46 {
        Some((b - 0x41 + 10) as u8)
    } else {
        None
    }
}

/// The byte named by a single-character escape, if any.
pub open spec fn unesc_char(c: u8) -> Option<u8> {
    if c == 0x22 {
        Some(0x22u8)
    } else if c == 0x5c {
        Some(0x5cu8)
    } else if c == 0x2f {
        Some(0x2fu8)
    } else if c == 0x6e {
        Some(0x0au8)
    } else if c == 0x72 {
        Some(0x0du8)
    } else if c == 0x74 {
        Some(0x09u8)
    } else if c == 0x62 {
        Some(0x08u8)
    } else if c == 0x66 {
        Some(0x0cu8)
    } else {
        None
    }
}

/// Parse a string body up to and including the closing quote. `\uXXXX`
/// escapes are accepted for single-byte code points only; anything the
/// wire protocol cannot carry makes the whole line fall back to a log
/// event, so rejecting here is safe.
pub open spec fn parse_str_body(s: Seq<u8>) -> Option<(Seq<u8>, Seq<u8>)>
    decreases s.len(),
{
    if s.len() == 0 {
        None
    } else if s[0] == 0x22 {
        Some((Seq::empty(), s.drop_first()))
    } else if s[0] == 0x5c {
        if s.len() < 2 {
            None
        } else if s[1] == 0x75 {
            if s.len() < 6 {
                None
            } else {
                match (unhex(s[2]), unhex(s[3]), unhex(s[4]), unhex(s[5])) {
                    (Some(h0), Some(h1), Some(h2), Some(h3)) => {
                        let v: int = h0 * 4096 + h1 * 256 + h2 * 16 + h3;
                        if v < 0x80 {
                            match parse_str_body(s.skip(6)) {
                                Some((t, rest)) => Some((seq![v as u8] + t, rest)),
                                None => None,
                            }
                        } else {
                            None
                        }
                    },
                    _ => None,
                }
            }
        } else {
            match unesc_char(s[1]) {
                Some(b) => match parse_str_body(s.skip(2)) {
                    Some((t, rest)) => Some((seq![b] + t, rest)),
                    None => None,
                },
                None => None,
            }
        }
    } else if s[0] < 0x20 {
        None
    } else {
        match parse_str_body(s.drop_first()) {
            Some((t, rest)) => Some((seq![s[0]] + t, rest)),
            None => None,
        }
    }
}

pub open spec fn is_digit(b: u8) -> bool {
    0x30 <= b <= 0x39
}

/// Split off the longest leading run of decimal digits.
pub open spec fn take_digits(s: Seq<u8>) -> (Seq<u8>, Seq<u8>)
    decreases s.len(),
{
    if s.len() > 0 && is_digit(s[0]) {
        let (d, r) = take_digits(s.drop_first());
        (seq![s[0]] + d, r)
    } else {
        (Seq::empty(), s)
    }
}

/// The number named by a digit run.
pub open spec fn digits_val(ds: Seq<u8>) -> int
    decreases ds.len(),
{
    if ds.len() == 0 {
        0
    } else {
        digits_val(ds.drop_last()) * 10 + (ds.last() - 0x30)
    }
}

/// True when a byte would extend a number token; a number followed by
/// one of these is a fraction or exponent, which the protocol does not
/// use at the top level.
pub open spec fn extends_number(b: u8) -> bool {
    is_digit(b) || b == 0x2e || b == 0x65 || b == 0x45
}

/// Parse an unsigned integer token.
pub open spec fn parse_unsigned(s: Seq<u8>) -> Option<(int, Seq<u8>)> {
    let (ds, r) = take_digits(s);
    if ds.len() == 0 {
        None
    } else if r.len() > 0 && (r[0] == 0x2e || r[0] == 0x65 || r[0] == 0x45) {
        None
    } else {
        Some((digits_val(ds), r))
    }
}

/// Parse an integer, minus sign included, within the wire range.
pub open spec fn parse_int(s: Seq<u8>) -> Option<(int, Seq<u8>)> {
    if s.len() > 0 && s[0] == 0x2d {
        match parse_unsigned(s.drop_first()) {
            Some((n, r)) => if -n >= i64::MIN {
                Some((-n, r))
            } else {
                None
            },
            None => None,
        }
    } else {
        match parse_unsigned(s) {
            Some((n, r)) => if n <= i64::MAX {
                Some((n, r))
            } else {
                None
            },
            None => None,
        }
    }
}

/// How many bytes a nested value occupies, counted from just after its
/// opening bracket: scan to the matching close, respecting strings.
/// `depth` is the number of currently open brackets.
pub open spec fn scan_nested(s: Seq<u8>, depth: int, in_str: bool, esc: bool) -> Option<int>
    decreases s.len(),
{
    if s.len() == 0 {
        None
    } else {
        let b = s[0];
        let tail = scan_nested(
            s.drop_first(),
            if in_str {
                depth
            } else if b == 0x7b || b == 0x5b {
                depth + 1
            } else if b == 0x7d || b == 0x5d {
                depth - 1
            } else {
                depth
            },
            if in_str {
                if esc {
                    true
                } else {
                    b != 0x22
                }
            } else {
                b == 0x22
            },
            in_str && !esc && b == 0x5c,
        );
        if !in_str && (b == 0x7d || b == 0x5d) && depth == 1 {
            Some(1)
        } else {
            match tail {
                Some(n) => Some(1 + n),
                None => None,
            }
        }
    }
}

/// Parse one member value. The input starts at the value's first byte.
pub open spec fn parse_value(s: Seq<u8>) -> Option<(SpecValue, Seq<u8>)> {
    if s.len() == 0 {
        None
    } else if s[0] == 0x22 {
        match parse_str_body(s.drop_first()) {
            Some((t, rest)) => Some((SpecValue::Str(t), rest)),
            None => None,
        }
    } else if s[0] == 0x7b || s[0] == 0x5b {
        match scan_nested(s.drop_first(), 1, false, false) {
            Some(n) => Some((SpecValue::Raw(s.take(1 + n)), s.skip(1 + n))),
            None => None,
        }
    } else if s[0] == 0x2d || is_digit(s[0]) {
        match parse_int(s) {
            Some((i, rest)) => Some((SpecValue::Int(i), rest)),
            None => None,
        }
    } else if s.len() >= 4 && s.take(4) == lit_true() {
        Some((SpecValue::Bool(true), s.skip(4)))
    } else if s.len() >= 5 && s.take(5) == lit_false() {
        Some((SpecValue::Bool(false), s.skip(5)))
    } else if s.len() >= 4 && s.take(4) == lit_null() {
        Some((SpecValue::Null, s.skip(4)))
    } else {
        None
    }
}

/// Whitespace skipping never grows the input.
pub proof fn lemma_skip_ws_len(s: Seq<u8>)
    ensures
        skip_ws(s).len() <= s.len(),
    decreases s.len(),
{
    if s.len() > 0 && is_ws(s[0]) {
        lemma_skip_ws_len(s.drop_first());
    }
}

/// A parsed string consumes at least its closing quote.
pub proof fn lemma_parse_str_body_shrinks(s: Seq<u8>)
    ensures
        parse_str_body(s) matches Some(r) ==> r.1.len() < s.len(),
    decreases s.len(),
{
    if s.len() == 0 {
    } else if s[0] == 0x22 {
    } else if s[0] == 0x5c {
        if s.len() >= 2 && s[1] == 0x75 {
            if s.len() >= 6 {
                lemma_parse_str_body_shrinks(s.skip(6));
            }
        } else if s.len() >= 2 {
            lemma_parse_str_body_shrinks(s.skip(2));
        }
    } else {
        lemma_parse_str_body_shrinks(s.drop_first());
    }
}

/// The digit run and the rest partition the input.
pub proof fn lemma_take_digits_len(s: Seq<u8>)
    ensures
        take_digits(s).0.len() + take_digits(s).1.len() == s.len(),
    decreases s.len(),
{
    if s.len() > 0 && is_digit(s[0]) {
        lemma_take_digits_len(s.drop_first());
    }
}

/// A parsed integer consumes at least one digit.
pub proof fn lemma_parse_int_shrinks(s: Seq<u8>)
    ensures
        parse_int(s) matches Some(r) ==> r.1.len() < s.len(),
{
    lemma_take_digits_len(s);
    if s.len() > 0 && s[0] == 0x2d {
        lemma_take_digits_len(s.drop_first());
    }
}

/// A nested-value scan consumes at least the closing bracket and no
/// more than the input.
pub proof fn lemma_scan_nested_bounds(s: Seq<u8>, depth: int, in_str: bool, esc: bool)
    ensures
        scan_nested(s, depth, in_str, esc) matches Some(n) ==> 0 < n <= s.len(),
    decreases s.len(),
{
    if s.len() > 0 {
        let b = s[0];
        lemma_scan_nested_bounds(
            s.drop_first(),
            if in_str {
                depth
            } else if b == 0x7b || b == 0x5b {
                depth + 1
            } else if b == 0x7d || b == 0x5d {
                depth - 1
            } else {
                depth
            },
            if in_str {
                if esc {
                    true
                } else {
                    b != 0x22
                }
            } else {
                b == 0x22
            },
            in_str && !esc && b == 0x5c,
        );
    }
}

/// A parsed value consumes at least one byte.
pub proof fn lemma_parse_value_shrinks(s: Seq<u8>)
    ensures
        parse_value(s) matches Some(r) ==> r.1.len() < s.len(),
{
    if s.len() == 0 {
    } else if s[0] == 0x22 {
        lemma_parse_str_body_shrinks(s.drop_first());
    } else if s[0] == 0x7b || s[0] == 0x5b {
        lemma_scan_nested_bounds(s.drop_first(), 1, false, false);
    } else if s[0] == 0x2d || is_digit(s[0]) {
        lemma_parse_int_shrinks(s);
    }
}

/// A parsed member consumes at least one byte.
pub proof fn lemma_parse_member_shrinks(s: Seq<u8>)
    ensures
        parse_member(s) matches Some(r) ==> r.1.len() < s.len(),
{
    lemma_skip_ws_len(s);
    let t = skip_ws(s);
    if t.len() > 0 && t[0] == 0x22 {
        lemma_parse_str_body_shrinks(t.drop_first());
        if let Some((k, r1)) = parse_str_body(t.drop_first()) {
            lemma_skip_ws_len(r1);
            let r2 = skip_ws(r1);
            if r2.len() > 0 && r2[0] == 0x3a {
                lemma_skip_ws_len(r2.drop_first());
                lemma_parse_value_shrinks(skip_ws(r2.drop_first()));
            }
        }
    }
}

/// Parse the members of an object, starting just after the opening
/// brace (the empty object is handled by the caller), up to and
/// including the closing brace.
pub open spec fn parse_fields(s: Seq<u8>) -> Option<(Seq<SpecField>, Seq<u8>)>
    decreases s.len(),
    via parse_fields_dec
{
    match parse_member(s) {
        Some((f, r)) => {
            let r1 = skip_ws(r);
            if r1.len() == 0 {
                None
            } else if r1[0] == 0x2c {
                match parse_fields(r1.drop_first()) {
                    Some((fs, rest)) => Some((seq![f] + fs, rest)),
                    None => None,
                }
            } else if r1[0] == 0x7d {
                Some((seq![f], r1.drop_first()))
            } else {
                None
            }
        },
        None => None,
    }
}

/// Parse one member: whitespace, key, colon, value.
pub open spec fn parse_member(s: Seq<u8>) -> Option<(SpecField, Seq<u8>)> {
    let t = skip_ws(s);
    if t.len() > 0 && t[0] == 0x22 {
        match parse_str_body(t.drop_first()) {
            Some((k, r1)) => {
                let r2 = skip_ws(r1);
                if r2.len() > 0 && r2[0] == 0x3a {
                    match parse_value(skip_ws(r2.drop_first())) {
                        Some((v, r3)) => Some((SpecField { key: k, value: v }, r3)),
                        None => None,
                    }
                } else {
                    None
                }
            },
            None => None,
        }
    } else {
        None
    }
}

#[via_fn]
proof fn parse_fields_dec(s: Seq<u8>) {
    lemma_parse_member_shrinks(s);
    if let Some((f, r)) = parse_member(s) {
        lemma_skip_ws_len(r);
    }
}

/// Parse a whole line as one JSON object: optional whitespace, the
/// object, optional trailing whitespace, nothing else.
pub open spec fn parse_obj(s: Seq<u8>) -> Option<Seq<SpecField>> {
    let t = skip_ws(s);
    if t.len() > 0 && t[0] == 0x7b {
        let u = skip_ws(t.drop_first());
        if u.len() > 0 && u[0] == 0x7d {
            if skip_ws(u.drop_first()).len() == 0 {
                Some(Seq::empty())
            } else {
                None
            }
        } else {
            match parse_fields(t.drop_first()) {
                Some((fs, rest)) => if skip_ws(rest).len() == 0 {
                    Some(fs)
                } else {
                    None
                },
                None => None,
            }
        }
    } else {
        None
    }
}

// ---------------------------------------------------------------------------
// The parser inverts the printer.
// ---------------------------------------------------------------------------

/// Parsing an escaped string body gives the original bytes back and
/// stops at the closing quote.
pub proof fn lemma_parse_esc(s: Seq<u8>, rest: Seq<u8>)
    ensures
        parse_str_body(esc_bytes(s) + seq![0x22u8] + rest) == Some((s, rest)),
    decreases s.len(),
{
    let whole = esc_bytes(s) + seq![0x22u8] + rest;
    if s.len() == 0 {
        assert(whole =~= seq![0x22u8] + rest);
        assert(whole[0] == 0x22);
        assert(whole.drop_first() =~= rest);
        assert(Seq::<u8>::empty() =~= s);
    } else {
        let b = s[0];
        let e = esc_byte(b);
        let s1 = s.drop_first();
        let tail_whole = esc_bytes(s1) + seq![0x22u8] + rest;
        assert(esc_bytes(s) == e + esc_bytes(s1));
        assert(whole =~= e + tail_whole);
        lemma_parse_esc(s1, rest);
        assert(seq![b] + s1 =~= s);
        if b == 0x22 || b == 0x5c || b == 0x0a || b == 0x0d || b == 0x09 {
            assert(whole[0] == 0x5c);
            assert(whole[1] == e[1]);
            assert(unesc_char(e[1]) == Some(b));
            assert(e[1] != 0x75);
            assert(whole.skip(2) =~= tail_whole);
        } else if b < 0x20 {
            assert(whole[0] == 0x5c);
            assert(whole[1] == 0x75);
            assert(whole[2] == 0x30);
            assert(whole[3] == 0x30);
            assert(whole[4] == hex_digit(b / 16));
            assert(whole[5] == hex_digit(b % 16));
            assert(unhex(0x30) == Some(0u8));
            assert(unhex(hex_digit(b / 16)) == Some((b / 16) as u8));
            assert(unhex(hex_digit(b % 16)) == Some((b % 16) as u8));
            assert((b / 16) * 16 + b % 16 == b);
            assert(whole.skip(6) =~= tail_whole);
        } else {
            assert(whole[0] == b);
            assert(b != 0x22 && b != 0x5c && b >= 0x20);
            assert(whole.drop_first() =~= tail_whole);
        }
    }
}

/// Every byte the number printer emits is a decimal digit.
pub proof fn lemma_print_nat_digits(n: int)
    requires
        n >= 0,
    ensures
        print_nat(n).len() >= 1,
        forall|i: int| 0 <= i < print_nat(n).len() ==> is_digit(#[trigger] print_nat(n)[i]),
    decreases n,
{
    if n >= 10 {
        lemma_print_nat_digits(n / 10);
    }
}

/// The digit-run splitter honors a boundary between digits and
/// anything that is not a digit.
pub proof fn lemma_take_digits_append(a: Seq<u8>, b: Seq<u8>)
    requires
        forall|i: int| 0 <= i < a.len() ==> is_digit(#[trigger] a[i]),
        b.len() == 0 || !is_digit(b[0]),
    ensures
        take_digits(a + b) == (a, b),
    decreases a.len(),
{
    if a.len() == 0 {
        assert(a + b =~= b);
        assert(Seq::<u8>::empty() =~= a);
    } else {
        assert((a + b)[0] == a[0]);
        assert((a + b).drop_first() =~= a.drop_first() + b);
        lemma_take_digits_append(a.drop_first(), b);
        assert(seq![a[0]] + a.drop_first() =~= a);
    }
}

/// Reading the printed digits back gives the number.
pub proof fn lemma_digits_val_print(n: int)
    requires
        n >= 0,
    ensures
        digits_val(print_nat(n)) == n,
    decreases n,
{
    if n < 10 {
        let ds = print_nat(n);
        assert(ds.drop_last() =~= Seq::<u8>::empty());
        assert(ds.last() == (0x30 + n) as u8);
        assert(digits_val(Seq::<u8>::empty()) == 0);
        assert(digits_val(ds) == 0 * 10 + ((0x30 + n) as u8 - 0x30));
    } else {
        lemma_digits_val_print(n / 10);
        let p = print_nat(n / 10);
        let d: u8 = (0x30 + n % 10) as u8;
        let ds = print_nat(n);
        assert(ds == p + seq![d]);
        assert(ds.drop_last() =~= p);
        assert(ds.last() == d);
        assert(d - 0x30 == n % 10);
        assert(digits_val(ds) == digits_val(p) * 10 + (n % 10));
        assert(n / 10 * 10 + n % 10 == n);
    }
}

/// Parsing a printed integer gives the integer back.
pub proof fn lemma_parse_print_int(i: int, rest: Seq<u8>)
    requires
        i64::MIN <= i <= i64::MAX,
        rest.len() == 0 || !extends_number(rest[0]),
    ensures
        parse_int(print_int(i) + rest) == Some((i, rest)),
{
    if i >= 0 {
        let whole = print_int(i) + rest;
        lemma_print_nat_digits(i);
        assert(whole[0] == print_nat(i)[0]);
        lemma_take_digits_append(print_nat(i), rest);
        lemma_digits_val_print(i);
    } else {
        let whole = print_int(i) + rest;
        assert(whole[0] == 0x2d);
        lemma_print_nat_digits(-i);
        assert(whole.drop_first() =~= print_nat(-i) + rest);
        lemma_take_digits_append(print_nat(-i), rest);
        lemma_digits_val_print(-i);
    }
}

/// The first byte a printed value can start with: never whitespace,
/// never a comma or a closing brace.
pub proof fn lemma_print_value_first(v: SpecValue)
    requires
        wf_value(v),
    ensures
        print_value(v).len() >= 1,
        !is_ws(print_value(v)[0]),
        print_value(v)[0] != 0x2c,
        print_value(v)[0] != 0x7d,
        print_value(v)[0] != 0x3a,
    decreases v,
{
    match v {
        SpecValue::Int(i) => {
            if i >= 0 {
                lemma_print_nat_digits(i);
            } else {
                lemma_print_nat_digits(-i);
            }
        },
        _ => {},
    }
}

/// Parsing a printed value gives the value back.
pub proof fn lemma_parse_print_value(v: SpecValue, rest: Seq<u8>)
    requires
        wf_value(v),
        rest.len() == 0 || !extends_number(rest[0]),
    ensures
        parse_value(print_value(v) + rest) == Some((v, rest)),
{
    let whole = print_value(v) + rest;
    match v {
        SpecValue::Str(s) => {
            assert(whole[0] == 0x22);
            assert(whole.drop_first() =~= esc_bytes(s) + seq![0x22u8] + rest);
            lemma_parse_esc(s, rest);
        },
        SpecValue::Int(i) => {
            lemma_print_nat_digits(if i >= 0 { i } else { -i });
            assert(whole[0] == print_int(i)[0]);
            assert(whole[0] != 0x22 && whole[0] != 0x7b && whole[0] != 0x5b);
            assert(whole[0] == 0x2d || is_digit(whole[0]));
            assert(whole =~= print_int(i) + rest);
            lemma_parse_print_int(i, rest);
        },
        SpecValue::Bool(b) => {
            if b {
                assert(whole[0] == 0x74);
                assert(whole.take(4) =~= lit_true());
                assert(whole.skip(4) =~= rest);
            } else {
                assert(whole[0] == 0x66);
                assert(whole.take(4)[0] == 0x66 && lit_true()[0] == 0x74);
                assert(whole.take(4) != lit_true());
                assert(whole.take(5) =~= lit_false());
                assert(whole.skip(5) =~= rest);
            }
        },
        SpecValue::Null => {
            assert(whole[0] == 0x6e);
            assert(whole.take(4)[0] == 0x6e && lit_true()[0] == 0x74);
            assert(whole.take(4) != lit_true());
            if whole.len() >= 5 {
                assert(whole.take(5)[0] == 0x6e && lit_false()[0] == 0x66);
                assert(whole.take(5) != lit_false());
            }
            assert(whole.take(4) =~= lit_null());
            assert(whole.skip(4) =~= rest);
        },
        SpecValue::Raw(_) => {},
    }
}

/// Parsing a printed member gives the member back.
pub proof fn lemma_parse_print_member(f: SpecField, rest: Seq<u8>)
    requires
        wf_field(f),
        rest.len() == 0 || !extends_number(rest[0]),
    ensures
        parse_member(print_field(f) + rest) == Some((f, rest)),
{
    let whole = print_field(f) + rest;
    let after_key = seq![0x3au8] + print_value(f.value) + rest;
    assert(whole[0] == 0x22);
    assert(skip_ws(whole) == whole);
    assert(whole.drop_first() =~= esc_bytes(f.key) + seq![0x22u8] + after_key);
    lemma_parse_esc(f.key, after_key);
    assert(after_key[0] == 0x3a);
    assert(skip_ws(after_key) == after_key);
    assert(after_key.drop_first() =~= print_value(f.value) + rest);
    lemma_print_value_first(f.value);
    assert((print_value(f.value) + rest)[0] == print_value(f.value)[0]);
    assert(skip_ws(print_value(f.value) + rest) == print_value(f.value) + rest);
    lemma_parse_print_value(f.value, rest);
    assert(SpecField { key: f.key, value: f.value } == f);
}

/// Parsing a printed member list gives the members back, in order.
#[verifier::rlimit(100)]
#[verifier::spinoff_prover]
pub proof fn lemma_parse_print_fields(fs: Seq<SpecField>, rest: Seq<u8>)
    requires
        fs.len() >= 1,
        wf_fields(fs),
        rest.len() == 0 || !extends_number(rest[0]),
    ensures
        parse_fields(print_fields(fs) + seq![0x7du8] + rest) == Some((fs, rest)),
    decreases fs.len(),
{
    let whole = print_fields(fs) + seq![0x7du8] + rest;
    assert(wf_field(fs[0]));
    if fs.len() == 1 {
        let close = seq![0x7du8] + rest;
        assert(whole =~= print_field(fs[0]) + close);
        lemma_parse_print_member(fs[0], close);
        assert(skip_ws(close) == close);
        assert(close.drop_first() =~= rest);
        assert(seq![fs[0]] =~= fs);
    } else {
        let fs1 = fs.drop_first();
        let sep = seq![0x2cu8] + (print_fields(fs1) + seq![0x7du8] + rest);
        assert(whole =~= print_field(fs[0]) + sep);
        lemma_parse_print_member(fs[0], sep);
        assert(skip_ws(sep) == sep);
        assert(sep.drop_first() =~= print_fields(fs1) + seq![0x7du8] + rest);
        assert(wf_fields(fs1)) by {
            assert(forall|i: int| 0 <= i < fs1.len() ==> fs1[i] == fs[i + 1] && wf_field(fs[i + 1]));
        }
        lemma_parse_print_fields(fs1, rest);
        assert(seq![fs[0]] + fs1 =~= fs);
    }
}

/// The parser inverts the printer on every well-formed object.
pub proof fn lemma_parse_print_obj(fs: Seq<SpecField>)
    requires
        wf_fields(fs),
    ensures
        parse_obj(print_obj(fs)) == Some(fs),
{
    let whole = print_obj(fs);
    assert(whole[0] == 0x7b);
    assert(skip_ws(whole) == whole);
    if fs.len() == 0 {
        assert(whole =~= seq![0x7bu8, 0x7du8]);
        assert(whole.drop_first() =~= seq![0x7du8]);
        assert(skip_ws(seq![0x7du8]) == seq![0x7du8]);
        assert(seq![0x7du8].drop_first() =~= Seq::<u8>::empty());
        assert(skip_ws(Seq::<u8>::empty()).len() == 0);
    } else {
        let inner = print_fields(fs) + seq![0x7du8];
        assert(whole.drop_first() =~= inner);
        assert(wf_field(fs[0]));
        assert(print_fields(fs)[0] == 0x22) by {
            assert(print_fields(fs)[0] == print_field(fs[0])[0]);
        }
        assert(inner[0] == 0x22);
        assert(skip_ws(inner) == inner);
        assert(inner =~= print_fields(fs) + seq![0x7du8] + Seq::<u8>::empty());
        lemma_parse_print_fields(fs, Seq::<u8>::empty());
        assert(skip_ws(Seq::<u8>::empty()).len() == 0);
    }
}

/// Look a key up in a member list; the first match wins.
pub open spec fn field_get(fs: Seq<SpecField>, key: Seq<u8>) -> Option<SpecValue>
    decreases fs.len(),
{
    if fs.len() == 0 {
        None
    } else if fs[0].key == key {
        Some(fs[0].value)
    } else {
        field_get(fs.drop_first(), key)
    }
}

// ---------------------------------------------------------------------------
// Executable printer.
// ---------------------------------------------------------------------------

/// Escaping distributes over concatenation.
pub proof fn lemma_esc_bytes_append(a: Seq<u8>, b: Seq<u8>)
    ensures
        esc_bytes(a + b) == esc_bytes(a) + esc_bytes(b),
    decreases a.len(),
{
    if a.len() == 0 {
        assert(a + b =~= b);
        assert(esc_bytes(a) + esc_bytes(b) =~= esc_bytes(b));
    } else {
        assert((a + b).drop_first() =~= a.drop_first() + b);
        lemma_esc_bytes_append(a.drop_first(), b);
        assert((a + b)[0] == a[0]);
        assert(esc_byte(a[0]) + (esc_bytes(a.drop_first()) + esc_bytes(b)) =~= (esc_byte(a[0])
            + esc_bytes(a.drop_first())) + esc_bytes(b));
    }
}

/// Append the escaped form of `s` to `out`.
pub fn push_escaped(out: &mut Vec<u8>, s: &Vec<u8>)
    ensures
        final(out)@ == old(out)@ + esc_bytes(s@),
{
    let ghost orig: Seq<u8> = out@;
    let mut i: usize = 0;
    while i < s.len()
        invariant
            i <= s@.len(),
            out@ == orig + esc_bytes(s@.take(i as int)),
        decreases s@.len() - i,
    {
        let b = s[i];
        proof {
            assert(s@.take(i + 1) =~= s@.take(i as int) + seq![s@[i as int]]);
            lemma_esc_bytes_append(s@.take(i as int), seq![s@[i as int]]);
            assert(seq![b].drop_first() =~= Seq::<u8>::empty());
            assert(esc_bytes(Seq::<u8>::empty()) =~= Seq::<u8>::empty());
            assert(esc_bytes(seq![b]) =~= esc_byte(b));
        }
        if b == 0x22 {
            out.push(0x5c);
            out.push(0x22);
        } else if b == 0x5c {
            out.push(0x5c);
            out.push(0x5c);
        } else if b == 0x0a {
            out.push(0x5c);
            out.push(0x6e);
        } else if b == 0x0d {
            out.push(0x5c);
            out.push(0x72);
        } else if b == 0x09 {
            out.push(0x5c);
            out.push(0x74);
        } else if b < 0x20 {
            out.push(0x5c);
            out.push(0x75);
            out.push(0x30);
            out.push(0x30);
            let hi = b / 16;
            let lo = b % 16;
            out.push(if hi < 10 { 0x30 + hi } else { 0x61 + (hi - 10) });
            out.push(if lo < 10 { 0x30 + lo } else { 0x61 + (lo - 10) });
        } else {
            out.push(b);
        }
        proof {
            assert(out@ =~= orig + esc_bytes(s@.take(i + 1)));
        }
        i = i + 1;
    }
    proof {
        assert(s@.take(s@.len() as int) =~= s@);
    }
}

/// Append a printed string token: quote, escaped body, quote.
pub fn push_str_token(out: &mut Vec<u8>, s: &Vec<u8>)
    ensures
        final(out)@ == old(out)@ + print_str(s@),
{
    out.push(0x22);
    push_escaped(out, s);
    out.push(0x22);
    proof {
        assert(out@ =~= old(out)@ + print_str(s@));
    }
}

/// Append the decimal digits of `n`.
pub fn push_nat_token(out: &mut Vec<u8>, n: u64)
    ensures
        final(out)@ == old(out)@ + print_nat(n as int),
    decreases n,
{
    if n < 10 {
        out.push(0x30 + (n as u8));
        proof {
            assert(out@ =~= old(out)@ + print_nat(n as int));
        }
    } else {
        push_nat_token(out, n / 10);
        out.push(0x30 + ((n % 10) as u8));
        proof {
            assert(out@ =~= old(out)@ + (print_nat(n as int / 10) + seq![
                (0x30 + (n as int) % 10) as u8,
            ]));
        }
    }
}

/// Append a printed integer token.
pub fn push_int_token(out: &mut Vec<u8>, i: i64)
    ensures
        final(out)@ == old(out)@ + print_int(i as int),
{
    if i >= 0 {
        push_nat_token(out, i as u64);
    } else {
        out.push(0x2d);
        let mag: u64 = ((-(i + 1)) as u64) + 1;
        assert(mag as int == -(i as int));
        push_nat_token(out, mag);
        proof {
            assert(out@ =~= old(out)@ + (seq![0x2du8] + print_nat(-(i as int))));
        }
    }
}

/// Append one printed member value.
pub fn push_value(out: &mut Vec<u8>, v: &JsonValue)
    ensures
        final(out)@ == old(out)@ + print_value(v@),
{
    match v {
        JsonValue::Str(s) => push_str_token(out, s),
        JsonValue::Int(i) => push_int_token(out, *i),
        JsonValue::Bool(b) => {
            if *b {
                out.push(0x74);
                out.push(0x72);
                out.push(0x75);
                out.push(0x65);
                proof {
                    assert(out@ =~= old(out)@ + lit_true());
                }
            } else {
                out.push(0x66);
                out.push(0x61);
                out.push(0x6c);
                out.push(0x73);
                out.push(0x65);
                proof {
                    assert(out@ =~= old(out)@ + lit_false());
                }
            }
        },
        JsonValue::Null => {
            out.push(0x6e);
            out.push(0x75);
            out.push(0x6c);
            out.push(0x6c);
            proof {
                assert(out@ =~= old(out)@ + lit_null());
            }
        },
        JsonValue::Raw(r) => {
            out.extend_from_slice(r.as_slice());
            proof {
                assert(out@ =~= old(out)@ + r@);
            }
        },
    }
}

/// Append one printed member.
pub fn push_field(out: &mut Vec<u8>, f: &JsonField)
    ensures
        final(out)@ == old(out)@ + print_field(f@),
{
    push_str_token(out, &f.key);
    out.push(0x3a);
    push_value(out, &f.value);
    proof {
        assert(out@ =~= old(out)@ + print_field(f@));
    }
}

/// Extending a non-empty member list appends a comma and the member.
pub proof fn lemma_print_fields_snoc(fs: Seq<SpecField>, f: SpecField)
    requires
        fs.len() >= 1,
    ensures
        print_fields(fs.push(f)) == print_fields(fs) + seq![0x2cu8] + print_field(f),
    decreases fs.len(),
{
    let whole = fs.push(f);
    if fs.len() == 1 {
        assert(whole.drop_first() =~= seq![f]);
        assert(print_fields(seq![f]) == print_field(f));
        assert(print_field(fs[0]) + seq![0x2cu8] + print_field(f) =~= print_field(whole[0])
            + (seq![0x2cu8] + print_fields(whole.drop_first())));
    } else {
        assert(whole.drop_first() =~= fs.drop_first().push(f));
        lemma_print_fields_snoc(fs.drop_first(), f);
        assert((print_field(fs[0]) + seq![0x2cu8] + print_fields(fs.drop_first())) + seq![0x2cu8]
            + print_field(f) =~= print_field(whole[0]) + (seq![0x2cu8] + (print_fields(
            fs.drop_first(),
        ) + seq![0x2cu8] + print_field(f))));
    }
}

/// Print a whole object in the canonical form.
pub fn print_object(fs: &Vec<JsonField>) -> (r: Vec<u8>)
    ensures
        r@ == print_obj(fields_view(fs@)),
{
    let mut out: Vec<u8> = Vec::new();
    out.push(0x7b);
    let mut i: usize = 0;
    while i < fs.len()
        invariant
            i <= fs@.len(),
            out@ == seq![0x7bu8] + print_fields(fields_view(fs@.take(i as int))),
        decreases fs@.len() - i,
    {
        proof {
            assert(fields_view(fs@.take(i + 1)) =~= fields_view(fs@.take(i as int)).push(
                fs@[i as int]@));
        }
        if i > 0 {
            out.push(0x2c);
            proof {
                assert(fields_view(fs@.take(i as int)).len() == i);
                lemma_print_fields_snoc(fields_view(fs@.take(i as int)), fs@[i as int]@);
            }
        } else {
            proof {
                assert(fields_view(fs@.take(1)) =~= seq![fs@[0]@]);
            }
        }
        push_field(&mut out, &fs[i]);
        proof {
            assert(out@ =~= seq![0x7bu8] + print_fields(fields_view(fs@.take(i + 1))));
        }
        i = i + 1;
    }
    out.push(0x7d);
    proof {
        assert(fs@.take(fs@.len() as int) =~= fs@);
        assert(out@ =~= print_obj(fields_view(fs@)));
    }
    out
}

// ---------------------------------------------------------------------------
// Executable parser. Each function mirrors its specification twin and
// reports positions as indices into the input.
// ---------------------------------------------------------------------------

/// Whether two byte vectors hold the same bytes.
pub fn bytes_eq(a: &Vec<u8>, b: &Vec<u8>) -> (r: bool)
    ensures
        r == (a@ == b@),
{
    if a.len() != b.len() {
        return false;
    }
    let mut i: usize = 0;
    while i < a.len()
        invariant
            a@.len() == b@.len(),
            i <= a@.len(),
            forall|k: int| 0 <= k < i ==> a@[k] == b@[k],
        decreases a@.len() - i,
    {
        if a[i] != b[i] {
            return false;
        }
        i = i + 1;
    }
    proof {
        assert(a@ =~= b@);
    }
    true
}

/// Move past insignificant whitespace.
fn skip_ws_from(s: &Vec<u8>, i: usize) -> (r: usize)
    requires
        i <= s@.len(),
    ensures
        i <= r <= s@.len(),
        s@.skip(r as int) == skip_ws(s@.skip(i as int)),
    decreases s@.len() - i,
{
    if i < s.len() {
        let b = s[i];
        if b == 0x20 || b == 0x09 || b == 0x0a || b == 0x0d {
            proof {
                assert(s@.skip(i as int).drop_first() =~= s@.skip(i + 1));
            }
            return skip_ws_from(s, i + 1);
        }
    }
    proof {
        if i < s@.len() {
            assert(s@.skip(i as int)[0] == s@[i as int]);
        } else {
            assert(s@.skip(i as int).len() == 0);
        }
    }
    i
}

/// The value of a hex digit byte.
fn hex_val(b: u8) -> (r: Option<u8>)
    ensures
        r == unhex(b),
{
    if 0x30 <= b && b <= 0x39 {
        Some(b - 0x30)
    } else if 0x61 <= b && b <= 0x66 {
        Some(b - 0x61 + 10)
    } else if 0x41 <= b && b <= 0x46 {
        Some(b - 0x41 + 10)
    } else {
        None
    }
}

/// Read a string body into `acc`, up to and past the closing quote.
fn parse_str_from(s: &Vec<u8>, i: usize, acc: &mut Vec<u8>) -> (r: Option<usize>)
    requires
        i <= s@.len(),
    ensures
        ({
            let p = parse_str_body(s@.skip(i as int));
            match r {
                Some(j) => p matches Some(q) && i <= j <= s@.len() && final(acc)@ == old(acc)@
                    + q.0 && s@.skip(j as int) == q.1,
                None => p is None,
            }
        }),
    decreases s@.len() - i,
{
    let ghost view0: Seq<u8> = s@.skip(i as int);
    if i >= s.len() {
        return None;
    }
    let b = s[i];
    proof {
        assert(view0[0] == b);
        assert(view0.drop_first() =~= s@.skip(i + 1));
    }
    if b == 0x22 {
        proof {
            assert(old(acc)@ + Seq::<u8>::empty() =~= old(acc)@);
        }
        Some(i + 1)
    } else if b == 0x5c {
        if i + 1 >= s.len() {
            return None;
        }
        let c = s[i + 1];
        proof {
            assert(view0[1] == c);
        }
        if c == 0x75 {
            if s.len() - i < 6 {
                return None;
            }
            let h0 = hex_val(s[i + 2]);
            let h1 = hex_val(s[i + 3]);
            let h2 = hex_val(s[i + 4]);
            let h3 = hex_val(s[i + 5]);
            proof {
                assert(view0[2] == s@[i + 2]);
                assert(view0[3] == s@[i + 3]);
                assert(view0[4] == s@[i + 4]);
                assert(view0[5] == s@[i + 5]);
            }
            match (h0, h1, h2, h3) {
                (Some(v0), Some(v1), Some(v2), Some(v3)) => {
                    let v: u32 = (v0 as u32) * 4096 + (v1 as u32) * 256 + (v2 as u32) * 16 + (
                    v3 as u32);
                    if v < 0x80 {
                        let ghost acc0: Seq<u8> = acc@;
                        acc.push(v as u8);
                        proof {
                            assert(view0.skip(6) =~= s@.skip(i + 6));
                        }
                        match parse_str_from(s, i + 6, acc) {
                            Some(j) => {
                                proof {
                                    let q = parse_str_body(s@.skip(i + 6)).unwrap();
                                    assert((acc0.push(v as u8)) + q.0 =~= acc0 + (seq![v as u8]
                                        + q.0));
                                }
                                Some(j)
                            },
                            None => None,
                        }
                    } else {
                        None
                    }
                },
                _ => None,
            }
        } else {
            let ub = match c {
                0x22 => Some(0x22u8),
                0x5c => Some(0x5cu8),
                0x2f => Some(0x2fu8),
                0x6e => Some(0x0au8),
                0x72 => Some(0x0du8),
                0x74 => Some(0x09u8),
                0x62 => Some(0x08u8),
                0x66 => Some(0x0cu8),
                _ => None,
            };
            assert(ub == unesc_char(c));
            match ub {
                Some(u) => {
                    let ghost acc0: Seq<u8> = acc@;
                    acc.push(u);
                    proof {
                        assert(view0.skip(2) =~= s@.skip(i + 2));
                    }
                    match parse_str_from(s, i + 2, acc) {
                        Some(j) => {
                            proof {
                                let q = parse_str_body(s@.skip(i + 2)).unwrap();
                                assert((acc0.push(u)) + q.0 =~= acc0 + (seq![u] + q.0));
                            }
                            Some(j)
                        },
                        None => None,
                    }
                },
                None => None,
            }
        }
    } else if b < 0x20 {
        None
    } else {
        let ghost acc0: Seq<u8> = acc@;
        acc.push(b);
        match parse_str_from(s, i + 1, acc) {
            Some(j) => {
                proof {
                    let q = parse_str_body(s@.skip(i + 1)).unwrap();
                    assert((acc0.push(b)) + q.0 =~= acc0 + (seq![b] + q.0));
                }
                Some(j)
            },
            None => None,
        }
    }
}

/// Find the end of the digit run that starts at `i`.
fn take_digits_from(s: &Vec<u8>, i: usize) -> (j: usize)
    requires
        i <= s@.len(),
    ensures
        i <= j <= s@.len(),
        take_digits(s@.skip(i as int)) == (s@.subrange(i as int, j as int), s@.skip(j as int)),
    decreases s@.len() - i,
{
    if i < s.len() && 0x30 <= s[i] && s[i] <= 0x39 {
        proof {
            assert(s@.skip(i as int)[0] == s@[i as int]);
            assert(s@.skip(i as int).drop_first() =~= s@.skip(i + 1));
        }
        let j = take_digits_from(s, i + 1);
        proof {
            assert(seq![s@[i as int]] + s@.subrange(i + 1, j as int) =~= s@.subrange(
                i as int,
                j as int,
            ));
        }
        j
    } else {
        proof {
            if i < s@.len() {
                assert(s@.skip(i as int)[0] == s@[i as int]);
            }
            assert(s@.subrange(i as int, i as int) =~= Seq::<u8>::empty());
        }
        i
    }
}

/// Digit runs name non-negative numbers.
pub proof fn lemma_digits_val_nonneg(ds: Seq<u8>)
    requires
        forall|k: int| 0 <= k < ds.len() ==> is_digit(#[trigger] ds[k]),
    ensures
        digits_val(ds) >= 0,
    decreases ds.len(),
{
    if ds.len() > 0 {
        lemma_digits_val_nonneg(ds.drop_last());
    }
}

/// A digit run names at least what any of its prefixes names.
pub proof fn lemma_digits_val_prefix(ds: Seq<u8>, m: int)
    requires
        0 <= m <= ds.len(),
        forall|k: int| 0 <= k < ds.len() ==> is_digit(#[trigger] ds[k]),
    ensures
        digits_val(ds.take(m)) <= digits_val(ds),
    decreases ds.len(),
{
    if m < ds.len() {
        assert(ds.drop_last().take(m) =~= ds.take(m));
        lemma_digits_val_prefix(ds.drop_last(), m);
        lemma_digits_val_nonneg(ds.drop_last());
    } else {
        assert(ds.take(m) =~= ds);
    }
}

/// The number named by the digits between `i` and `j`, unless it
/// exceeds `limit`.
fn digits_value_upto(s: &Vec<u8>, i: usize, j: usize, limit: u64) -> (r: Option<u64>)
    requires
        i <= j <= s@.len(),
        limit >= 9,
        forall|k: int| i <= k < j ==> is_digit(#[trigger] s@[k]),
    ensures
        ({
            let n = digits_val(s@.subrange(i as int, j as int));
            match r {
                Some(v) => v as int == n && n <= limit,
                None => n > limit,
            }
        }),
{
    let ghost ds: Seq<u8> = s@.subrange(i as int, j as int);
    proof {
        assert(forall|k: int| 0 <= k < ds.len() ==> is_digit(#[trigger] ds[k]));
    }
    let mut v: u64 = 0;
    let mut k: usize = i;
    proof {
        assert(s@.subrange(i as int, i as int) =~= Seq::<u8>::empty());
    }
    while k < j
        invariant
            i <= k <= j <= s@.len(),
            limit >= 9,
            forall|m: int| i <= m < j ==> is_digit(#[trigger] s@[m]),
            v as int == digits_val(s@.subrange(i as int, k as int)),
            v <= limit,
            ds == s@.subrange(i as int, j as int),
        decreases j - k,
    {
        assert(is_digit(s@[k as int]));
        let d = s[k] - 0x30;
        assert(d <= 9);
        proof {
            assert(s@.subrange(i as int, k + 1) =~= s@.subrange(i as int, k as int).push(
                s@[k as int]));
            let e = s@.subrange(i as int, k + 1);
            assert(e.drop_last() =~= s@.subrange(i as int, k as int));
            assert(e.last() == s@[k as int]);
        }
        if v > (limit - (d as u64)) / 10 {
            proof {
                assert(digits_val(s@.subrange(i as int, k + 1)) == v * 10 + d);
                assert(v * 10 + d > limit);
                assert(ds.take(k + 1 - i) =~= s@.subrange(i as int, k + 1));
                lemma_digits_val_prefix(ds, k + 1 - i);
            }
            return None;
        }
        v = v * 10 + (d as u64);
        k = k + 1;
    }
    proof {
        assert(s@.subrange(i as int, j as int) =~= ds);
    }
    Some(v)
}

/// Whatever the digit splitter takes is made of digits.
pub proof fn lemma_take_digits_digits(s: Seq<u8>)
    ensures
        forall|k: int|
            0 <= k < take_digits(s).0.len() ==> is_digit(#[trigger] take_digits(s).0[k]),
    decreases s.len(),
{
    if s.len() > 0 && is_digit(s[0]) {
        lemma_take_digits_digits(s.drop_first());
        let d0 = take_digits(s.drop_first()).0;
        assert(take_digits(s).0 == seq![s[0]] + d0);
        assert forall|k: int| 0 <= k < take_digits(s).0.len() implies is_digit(
            #[trigger] take_digits(s).0[k],
        ) by {
            if k == 0 {
                assert(take_digits(s).0[0] == s[0]);
            } else {
                assert(take_digits(s).0[k] == d0[k - 1]);
            }
        }
    }
}

/// Parse a signed integer token.
fn parse_int_from(s: &Vec<u8>, i: usize) -> (r: Option<(i64, usize)>)
    requires
        i <= s@.len(),
    ensures
        ({
            let p = parse_int(s@.skip(i as int));
            match r {
                Some(pr) => p matches Some(q) && q.0 == pr.0 as int && i <= pr.1 <= s@.len()
                    && s@.skip(pr.1 as int) == q.1,
                None => p is None,
            }
        }),
{
    let neg = i < s.len() && s[i] == 0x2d;
    let start = if neg {
        i + 1
    } else {
        i
    };
    proof {
        if i < s@.len() {
            assert(s@.skip(i as int)[0] == s@[i as int]);
        }
        if neg {
            assert(s@.skip(i as int).drop_first() =~= s@.skip(i + 1));
        }
    }
    let j = take_digits_from(s, start);
    proof {
        lemma_take_digits_digits(s@.skip(start as int));
        assert(forall|k: int| start <= k < j ==> is_digit(#[trigger] s@[k])) by {
            assert(forall|k: int|
                start <= k < j ==> s@.subrange(start as int, j as int)[k - start] == #[trigger] s@[k]);
        }
    }
    if j == start {
        proof {
            assert(take_digits(s@.skip(start as int)).0.len() == 0);
        }
        return None;
    }
    if j < s.len() {
        let nb = s[j];
        proof {
            assert(s@.skip(j as int)[0] == s@[j as int]);
        }
        if nb == 0x2e || nb == 0x65 || nb == 0x45 {
            return None;
        }
    }
    proof {
        assert(take_digits(s@.skip(start as int)).0.len() > 0) by {
            assert(take_digits(s@.skip(start as int)).0 == s@.subrange(start as int, j as int));
        }
        if j < s@.len() {
            assert(s@.skip(j as int).len() > 0);
        } else {
            assert(s@.skip(j as int).len() == 0);
        }
    }
    if neg {
        match digits_value_upto(s, start, j, 9223372036854775808u64) {
            Some(v) => {
                let iv: i64 = if v >= 9223372036854775808u64 {
                    i64::MIN
                } else {
                    -(v as i64)
                };
                Some((iv, j))
            },
            None => None,
        }
    } else {
        match digits_value_upto(s, start, j, 9223372036854775807u64) {
            Some(v) => Some((v as i64, j)),
            None => None,
        }
    }
}

/// Find the first index past a nested value: scan to the bracket that
/// closes the `depth` currently open ones, respecting strings.
fn scan_nested_from(s: &Vec<u8>, i: usize, depth: u128, in_str: bool, esc: bool) -> (r: Option<
    usize,
>)
    requires
        i <= s@.len(),
        1 <= depth <= i + 1,
    ensures
        ({
            let p = scan_nested(s@.skip(i as int), depth as int, in_str, esc);
            match r {
                Some(j) => p matches Some(n) && j == i + n && i < j <= s@.len(),
                None => p is None,
            }
        }),
    decreases s@.len() - i,
{
    if i >= s.len() {
        return None;
    }
    let b = s[i];
    proof {
        assert(s@.skip(i as int)[0] == b);
        assert(s@.skip(i as int).drop_first() =~= s@.skip(i + 1));
    }
    if !in_str && (b == 0x7d || b == 0x5d) && depth == 1 {
        return Some(i + 1);
    }
    let ndepth: u128 = if in_str {
        depth
    } else if b == 0x7b || b == 0x5b {
        depth + 1
    } else if b == 0x7d || b == 0x5d {
        depth - 1
    } else {
        depth
    };
    let nin = if in_str {
        if esc {
            true
        } else {
            b != 0x22
        }
    } else {
        b == 0x22
    };
    let nesc = in_str && !esc && b == 0x5c;
    scan_nested_from(s, i + 1, ndepth, nin, nesc)
}

/// Whether the four bytes at `i` are exactly the given ones.
fn match_lit4(s: &Vec<u8>, i: usize, b0: u8, b1: u8, b2: u8, b3: u8) -> (r: bool)
    requires
        i <= s@.len(),
    ensures
        r == (s@.skip(i as int).len() >= 4 && s@.skip(i as int).take(4) == seq![b0, b1, b2, b3]),
{
    if s.len() - i >= 4 {
        proof {
            let t = s@.skip(i as int).take(4);
            assert(t[0] == s@[i as int] && t[1] == s@[i + 1] && t[2] == s@[i + 2] && t[3] == s@[i
                + 3]);
        }
        if s[i] == b0 && s[i + 1] == b1 && s[i + 2] == b2 && s[i + 3] == b3 {
            proof {
                assert(s@.skip(i as int).take(4) =~= seq![b0, b1, b2, b3]);
            }
            true
        } else {
            false
        }
    } else {
        false
    }
}

/// Whether the five bytes at `i` are exactly the given ones.
fn match_lit5(s: &Vec<u8>, i: usize, b0: u8, b1: u8, b2: u8, b3: u8, b4: u8) -> (r: bool)
    requires
        i <= s@.len(),
    ensures
        r == (s@.skip(i as int).len() >= 5 && s@.skip(i as int).take(5) == seq![
            b0,
            b1,
            b2,
            b3,
            b4,
        ]),
{
    if s.len() - i >= 5 {
        proof {
            let t = s@.skip(i as int).take(5);
            assert(t[0] == s@[i as int] && t[1] == s@[i + 1] && t[2] == s@[i + 2] && t[3] == s@[i
                + 3] && t[4] == s@[i + 4]);
        }
        if s[i] == b0 && s[i + 1] == b1 && s[i + 2] == b2 && s[i + 3] == b3 && s[i + 4] == b4 {
            proof {
                assert(s@.skip(i as int).take(5) =~= seq![b0, b1, b2, b3, b4]);
            }
            true
        } else {
            false
        }
    } else {
        false
    }
}

/// Parse one member value starting at `i`.
fn parse_value_from(s: &Vec<u8>, i: usize) -> (r: Option<(JsonValue, usize)>)
    requires
        i <= s@.len(),
    ensures
        ({
            let p = parse_value(s@.skip(i as int));
            match r {
                Some(pr) => p matches Some(q) && pr.0@ == q.0 && i <= pr.1 <= s@.len() && s@.skip(
                    pr.1 as int,
                ) == q.1,
                None => p is None,
            }
        }),
{
    if i >= s.len() {
        return None;
    }
    let b = s[i];
    proof {
        assert(s@.skip(i as int)[0] == b);
        assert(s@.skip(i as int).drop_first() =~= s@.skip(i + 1));
    }
    if b == 0x22 {
        let mut acc: Vec<u8> = Vec::new();
        match parse_str_from(s, i + 1, &mut acc) {
            Some(j) => {
                proof {
                    assert(Seq::<u8>::empty() + parse_str_body(s@.skip(i + 1)).unwrap().0
                        =~= parse_str_body(s@.skip(i + 1)).unwrap().0);
                }
                Some((JsonValue::Str(acc), j))
            },
            None => None,
        }
    } else if b == 0x7b || b == 0x5b {
        match scan_nested_from(s, i + 1, 1, false, false) {
            Some(j) => {
                let raw = slice_to_vec(slice_subrange(s.as_slice(), i, j));
                proof {
                    let n = scan_nested(s@.skip(i + 1), 1, false, false).unwrap();
                    assert(s@.skip(i as int).take(1 + n) =~= s@.subrange(i as int, j as int));
                    assert(s@.skip(i as int).skip(1 + n) =~= s@.skip(j as int));
                }
                Some((JsonValue::Raw(raw), j))
            },
            None => None,
        }
    } else if b == 0x2d || (0x30 <= b && b <= 0x39) {
        match parse_int_from(s, i) {
            Some((v, j)) => Some((JsonValue::Int(v), j)),
            None => None,
        }
    } else if match_lit4(s, i, 0x74, 0x72, 0x75, 0x65) {
        proof {
            assert(seq![0x74u8, 0x72, 0x75, 0x65] =~= lit_true());
            assert(s@.skip(i as int).skip(4) =~= s@.skip(i + 4));
        }
        Some((JsonValue::Bool(true), i + 4))
    } else if match_lit5(s, i, 0x66, 0x61, 0x6c, 0x73, 0x65) {
        proof {
            assert(seq![0x66u8, 0x61, 0x6c, 0x73, 0x65] =~= lit_false());
            assert(s@.skip(i as int).skip(5) =~= s@.skip(i + 5));
            if s@.skip(i as int).len() >= 4 {
                assert(s@.skip(i as int).take(4)[0] == s@[i as int]);
                assert(lit_true()[0] == 0x74);
            }
        }
        Some((JsonValue::Bool(false), i + 5))
    } else if match_lit4(s, i, 0x6e, 0x75, 0x6c, 0x6c) {
        proof {
            assert(seq![0x6eu8, 0x75, 0x6c, 0x6c] =~= lit_null());
            assert(s@.skip(i as int).skip(4) =~= s@.skip(i + 4));
            assert(s@.skip(i as int).take(4)[0] == s@[i as int]);
            assert(lit_true()[0] == 0x74);
            if s@.skip(i as int).len() >= 5 {
                assert(s@.skip(i as int).take(5)[0] == s@[i as int]);
                assert(lit_false()[0] == 0x66);
            }
        }
        Some((JsonValue::Null, i + 4))
    } else {
        proof {
            let t = s@.skip(i as int);
            if t.len() >= 4 {
                assert(t.take(4)[0] == s@[i as int]);
            }
            if t.len() >= 5 {
                assert(t.take(5)[0] == s@[i as int]);
            }
            assert(lit_true()[0] == 0x74 && lit_false()[0] == 0x66 && lit_null()[0] == 0x6e);
        }
        None
    }
}

/// Parse one member starting at `i`.
fn parse_member_from(s: &Vec<u8>, i: usize) -> (r: Option<(JsonField, usize)>)
    requires
        i <= s@.len(),
    ensures
        ({
            let p = parse_member(s@.skip(i as int));
            match r {
                Some(pr) => p matches Some(q) && pr.0@ == q.0 && i <= pr.1 <= s@.len() && s@.skip(
                    pr.1 as int,
                ) == q.1,
                None => p is None,
            }
        }),
{
    let t = skip_ws_from(s, i);
    if t >= s.len() {
        return None;
    }
    proof {
        assert(s@.skip(t as int)[0] == s@[t as int]);
        assert(s@.skip(t as int).drop_first() =~= s@.skip(t + 1));
    }
    if s[t] != 0x22 {
        return None;
    }
    let mut key: Vec<u8> = Vec::new();
    match parse_str_from(s, t + 1, &mut key) {
        None => None,
        Some(r1) => {
            proof {
                assert(Seq::<u8>::empty() + parse_str_body(s@.skip(t + 1)).unwrap().0
                    =~= parse_str_body(s@.skip(t + 1)).unwrap().0);
            }
            let r2 = skip_ws_from(s, r1);
            if r2 < s.len() {
                proof {
                    assert(s@.skip(r2 as int)[0] == s@[r2 as int]);
                    assert(s@.skip(r2 as int).drop_first() =~= s@.skip(r2 + 1));
                }
                if s[r2] == 0x3a {
                    let vstart = skip_ws_from(s, r2 + 1);
                    match parse_value_from(s, vstart) {
                        Some((v, r3)) => Some((JsonField { key, value: v }, r3)),
                        None => None,
                    }
                } else {
                    None
                }
            } else {
                None
            }
        },
    }
}

/// Parse the members of a non-empty object, starting just after the
/// opening brace, up to and past the closing brace.
fn parse_fields_from(s: &Vec<u8>, i: usize) -> (r: Option<(Vec<JsonField>, usize)>)
    requires
        i <= s@.len(),
    ensures
        ({
            let p = parse_fields(s@.skip(i as int));
            match r {
                Some(pr) => p matches Some(q) && fields_view(pr.0@) == q.0 && i <= pr.1 <= s@.len()
                    && s@.skip(pr.1 as int) == q.1,
                None => p is None,
            }
        }),
    decreases s@.len() - i,
{
    match parse_member_from(s, i) {
        None => None,
        Some((f, r1idx)) => {
            proof {
                lemma_parse_member_shrinks(s@.skip(i as int));
            }
            let r1 = skip_ws_from(s, r1idx);
            if r1 >= s.len() {
                proof {
                    assert(skip_ws(s@.skip(r1idx as int)).len() == 0);
                }
                return None;
            }
            proof {
                assert(s@.skip(r1 as int)[0] == s@[r1 as int]);
                assert(s@.skip(r1 as int).drop_first() =~= s@.skip(r1 + 1));
            }
            let b = s[r1];
            if b == 0x2c {
                match parse_fields_from(s, r1 + 1) {
                    Some((more, j)) => {
                        let ghost more0: Seq<JsonField> = more@;
                        let mut fields = more;
                        fields.insert(0, f);
                        proof {
                            assert(fields_view(fields@) =~= seq![f@] + fields_view(more0));
                        }
                        Some((fields, j))
                    },
                    None => None,
                }
            } else if b == 0x7d {
                let mut one: Vec<JsonField> = Vec::new();
                one.push(f);
                proof {
                    assert(fields_view(one@) =~= seq![f@]);
                }
                Some((one, r1 + 1))
            } else {
                None
            }
        },
    }
}

/// Parse a whole line as one JSON object.
pub fn parse_object(s: &Vec<u8>) -> (r: Option<Vec<JsonField>>)
    ensures
        ({
            let p = parse_obj(s@);
            match r {
                Some(fs) => p matches Some(q) && fields_view(fs@) == q,
                None => p is None,
            }
        }),
{
    proof {
        assert(s@.skip(0) =~= s@);
    }
    let t = skip_ws_from(s, 0);
    if t >= s.len() {
        return None;
    }
    proof {
        assert(s@.skip(t as int)[0] == s@[t as int]);
        assert(s@.skip(t as int).drop_first() =~= s@.skip(t + 1));
    }
    if s[t] != 0x7b {
        return None;
    }
    let u = skip_ws_from(s, t + 1);
    if u < s.len() && s[u] == 0x7d {
        proof {
            assert(s@.skip(u as int)[0] == s@[u as int]);
            assert(s@.skip(u as int).drop_first() =~= s@.skip(u + 1));
        }
        let e = skip_ws_from(s, u + 1);
        if e == s.len() {
            let empty_fields: Vec<JsonField> = Vec::new();
            proof {
                assert(fields_view(empty_fields@) =~= Seq::<SpecField>::empty());
            }
            Some(empty_fields)
        } else {
            proof {
                assert(s@.skip(e as int).len() > 0);
            }
            None
        }
    } else {
        proof {
            if u < s@.len() {
                assert(s@.skip(u as int)[0] == s@[u as int]);
            } else {
                assert(s@.skip(u as int).len() == 0);
            }
        }
        match parse_fields_from(s, t + 1) {
            Some((fs, rest)) => {
                let e = skip_ws_from(s, rest);
                if e == s.len() {
                    Some(fs)
                } else {
                    proof {
                        assert(s@.skip(e as int).len() > 0);
                    }
                    None
                }
            },
            None => None,
        }
    }
}

} // verus!
