//! The token-deployment record schema: its grammar, its serialization, and
//! the correction policy.
//!
//! A record travels as the UTF-8 text of one object in a bracketed
//! key-value notation: `{"key":"value",...}`.  The five schema fields
//! (`p`, `lim`, `op`, `tick`, `max`) must all be present with string
//! values; unknown fields are ignored; a duplicate schema field rejects the
//! record.  String values use the eight single-character escapes
//! (`\" \\ \/ \b \f \n \r \t`) and the four-digit `\uXXXX` escape,
//! surrogate pairs included; an ignored field may carry any balanced run
//! of tokens.  The grammar is defined here, on bytes, by the spec
//! functions that the parser is verified against.

use vstd::prelude::*;

use crate::text::is_utf8_from;

verus! {

// Byte values of the grammar's structural characters.
pub const QUOTE: u8 = 0x22;

pub const BACKSLASH: u8 = 0x5C;

pub const SLASH: u8 = 0x2F;

pub const LBRACE: u8 = 0x7B;

pub const RBRACE: u8 = 0x7D;

pub const LBRACKET: u8 = 0x5B;

pub const RBRACKET: u8 = 0x5D;

pub const COMMA: u8 = 0x2C;

pub const COLON: u8 = 0x3A;

/// The bytes of the protocol marker every record must carry: `brc-20`.
pub open spec fn lit_marker() -> Seq<u8> {
    seq![0x62u8, 0x72, 0x63, 0x2D, 0x32, 0x30]
}

/// The bytes of the deployment operation name: `deploy`.
pub open spec fn lit_deploy() -> Seq<u8> {
    seq![0x64u8, 0x65, 0x70, 0x6C, 0x6F, 0x79]
}

/// The bytes of the single-unit figure `1` that the correction policy
/// forces into a deployment's limit and supply.
pub open spec fn lit_one() -> Seq<u8> {
    seq![0x31u8]
}

/// The schema key `p`.
pub open spec fn lit_key_p() -> Seq<u8> {
    seq![0x70u8]
}

/// The schema key `lim`.
pub open spec fn lit_key_lim() -> Seq<u8> {
    seq![0x6Cu8, 0x69, 0x6D]
}

/// The schema key `op`.
pub open spec fn lit_key_op() -> Seq<u8> {
    seq![0x6Fu8, 0x70]
}

/// The schema key `tick`.
pub open spec fn lit_key_tick() -> Seq<u8> {
    seq![0x74u8, 0x69, 0x63, 0x6B]
}

/// The schema key `max`.
pub open spec fn lit_key_max() -> Seq<u8> {
    seq![0x6Du8, 0x61, 0x78]
}

/// A parsed record: the five schema fields, with string escapes decoded,
/// as byte strings.
pub ghost struct SpecRecord {
    pub p: Seq<u8>,
    pub lim: Seq<u8>,
    pub op: Seq<u8>,
    pub tick: Seq<u8>,
    pub max: Seq<u8>,
}

/// A record of the protocol, held as the byte strings of its five fields.
pub struct Brc20 {
    /// The protocol marker.
    pub p: Vec<u8>,
    /// The per-mint limit, a string-encoded integer.
    pub lim: Vec<u8>,
    /// The operation name (`deploy`, `mint`, `transfer`, ...).
    pub op: Vec<u8>,
    /// The ticker identifying the token.
    pub tick: Vec<u8>,
    /// The maximum supply, a string-encoded integer.
    pub max: Vec<u8>,
}

impl View for Brc20 {
    type V = SpecRecord;

    /// The record's fields as byte sequences.
    open spec fn view(&self) -> SpecRecord {
        SpecRecord { p: self.p@, lim: self.lim@, op: self.op@, tick: self.tick@, max: self.max@ }
    }
}

/// Whether a record triggers the correction policy: it declares a
/// deployment whose maximum supply is not the single unit.
pub open spec fn spec_needs_correction(r: SpecRecord) -> bool {
    r.op == lit_deploy() && r.max != lit_one()
}

/// The correction policy: a deployment with a maximum supply other than
/// `1` is rewritten to a single-unit issuance (`lim` and `max` both `1`);
/// marker, operation and ticker are preserved; any other record is left
/// unchanged.
pub open spec fn spec_corrected(r: SpecRecord) -> SpecRecord {
    if spec_needs_correction(r) {
        SpecRecord { p: r.p, lim: lit_one(), op: r.op, tick: r.tick, max: lit_one() }
    } else {
        r
    }
}

/// Whitespace accepted between tokens.
pub open spec fn is_ws(b: u8) -> bool {
    b == 0x20 || b == 0x09 || b == 0x0A || b == 0x0D
}

/// The first position at or after `i` holding no whitespace.
pub open spec fn spec_skip_ws(s: Seq<u8>, i: int) -> int
    decreases s.len() - i,
{
    if 0 <= i < s.len() && is_ws(s[i]) {
        spec_skip_ws(s, i + 1)
    } else {
        i
    }
}

proof fn lemma_skip_ws_bounds(s: Seq<u8>, i: int)
    ensures
        i <= spec_skip_ws(s, i),
        i <= s.len() ==> spec_skip_ws(s, i) <= s.len(),
    decreases s.len() - i,
{
    if 0 <= i < s.len() && is_ws(s[i]) {
        lemma_skip_ws_bounds(s, i + 1);
    }
}

/// What a single-character escape stands for, if it is one of the eight
/// accepted escapes.
pub open spec fn spec_escape_decode(e: u8) -> Option<u8> {
    if e == QUOTE {
        Some(QUOTE)
    } else if e == BACKSLASH {
        Some(BACKSLASH)
    } else if e == SLASH {
        Some(SLASH)
    } else if e == 0x62 {  // \b
        Some(0x08)
    } else if e == 0x66 {  // \f
        Some(0x0C)
    } else if e == 0x6E {  // \n
        Some(0x0A)
    } else if e == 0x72 {  // \r
        Some(0x0D)
    } else if e == 0x74 {  // \t
        Some(0x09)
    } else {
        None
    }
}

/// The value of one hexadecimal digit, either case.
pub open spec fn spec_hex_val(b: u8) -> Option<int> {
    if 0x30 <= b <= 0x39 {
        Some((b - 0x30) as int)
    } else if 0x41 <= b <= 0x46 {
        Some(b - 0x41 + 10)
    } else if 0x61 <= b <= 0x66 {
        Some(b - 0x61 + 10)
    } else {
        None
    }
}

/// The code unit written by the four hexadecimal digits at `i..i+4`.
pub open spec fn spec_hex4(s: Seq<u8>, i: int) -> Option<int> {
    if 0 <= i && i + 4 <= s.len() {
        match (spec_hex_val(s[i]), spec_hex_val(s[i + 1]), spec_hex_val(s[i + 2]), spec_hex_val(
            s[i + 3],
        )) {
            (Some(h0), Some(h1), Some(h2), Some(h3)) => Some(
                h0 * 4096 + h1 * 256 + h2 * 16 + h3,
            ),
            _ => None,
        }
    } else {
        None
    }
}

/// The UTF-8 encoding of a scalar value.
pub open spec fn spec_utf8_encode(cp: int) -> Seq<u8> {
    if cp < 0x80 {
        seq![cp as u8]
    } else if cp < 0x800 {
        seq![(0xC0 + cp / 64) as u8, (0x80 + cp % 64) as u8]
    } else if cp < 0x10000 {
        seq![(0xE0 + cp / 4096) as u8, (0x80 + (cp / 64) % 64) as u8, (0x80 + cp % 64) as u8]
    } else {
        seq![
            (0xF0 + cp / 262144) as u8,
            (0x80 + (cp / 4096) % 64) as u8,
            (0x80 + (cp / 64) % 64) as u8,
            (0x80 + cp % 64) as u8,
        ]
    }
}

/// Parse the rest of a string literal whose opening quote stands before
/// `i`, `acc` holding the bytes decoded so far.  Yields the position after
/// the closing quote and the decoded bytes.  A four-digit escape decodes
/// to the UTF-8 bytes of its code point, a surrogate pair to those of the
/// paired code point; a lone surrogate, a raw control byte and an unknown
/// escape reject the literal.
pub open spec fn spec_string_body(s: Seq<u8>, i: int, acc: Seq<u8>) -> Option<(int, Seq<u8>)>
    decreases s.len() - i,
{
    if i < 0 || i >= s.len() {
        None
    } else {
        let b = s[i];
        if b == QUOTE {
            Some((i + 1, acc))
        } else if b == BACKSLASH {
            if i + 1 >= s.len() {
                None
            } else if s[i + 1] == 0x75 {  // \uXXXX
                match spec_hex4(s, i + 2) {
                    None => None,
                    Some(c) => if c < 0xD800 || c >= 0xE000 {
                        spec_string_body(s, i + 6, acc + spec_utf8_encode(c))
                    } else if c < 0xDC00 {
                        // A high surrogate: a low surrogate must follow.
                        if i + 7 < s.len() && s[i + 6] == BACKSLASH && s[i + 7] == 0x75 {
                            match spec_hex4(s, i + 8) {
                                None => None,
                                Some(c2) => if 0xDC00 <= c2 < 0xE000 {
                                    spec_string_body(
                                        s,
                                        i + 12,
                                        acc + spec_utf8_encode(
                                            0x10000 + (c - 0xD800) * 1024 + (c2 - 0xDC00),
                                        ),
                                    )
                                } else {
                                    None
                                },
                            }
                        } else {
                            None
                        }
                    } else {
                        None
                    },
                }
            } else {
                match spec_escape_decode(s[i + 1]) {
                    Some(d) => spec_string_body(s, i + 2, acc.push(d)),
                    None => None,
                }
            }
        } else if b < 0x20 {
            None
        } else {
            spec_string_body(s, i + 1, acc.push(b))
        }
    }
}

/// Parse a string literal starting at `i` (at its opening quote).
pub open spec fn spec_parse_string(s: Seq<u8>, i: int) -> Option<(int, Seq<u8>)> {
    if 0 <= i < s.len() && s[i] == QUOTE {
        spec_string_body(s, i + 1, Seq::empty())
    } else {
        None
    }
}

proof fn lemma_string_body_bounds(s: Seq<u8>, i: int, acc: Seq<u8>)
    ensures
        spec_string_body(s, i, acc) matches Some(jv) ==> i < jv.0 <= s.len(),
    decreases s.len() - i,
{
    if 0 <= i < s.len() {
        let b = s[i];
        if b == QUOTE {
        } else if b == BACKSLASH {
            if i + 1 >= s.len() {
            } else if s[i + 1] == 0x75 {
                match spec_hex4(s, i + 2) {
                    None => {},
                    Some(c) => {
                        if c < 0xD800 || c >= 0xE000 {
                            lemma_string_body_bounds(s, i + 6, acc + spec_utf8_encode(c));
                        } else if c < 0xDC00 {
                            if i + 7 < s.len() && s[i + 6] == BACKSLASH && s[i + 7] == 0x75 {
                                match spec_hex4(s, i + 8) {
                                    None => {},
                                    Some(c2) => {
                                        if 0xDC00 <= c2 < 0xE000 {
                                            lemma_string_body_bounds(
                                                s,
                                                i + 12,
                                                acc + spec_utf8_encode(
                                                    0x10000 + (c - 0xD800) * 1024 + (c2 - 0xDC00),
                                                ),
                                            );
                                        }
                                    },
                                }
                            }
                        }
                    },
                }
            } else if spec_escape_decode(s[i + 1]) is Some {
                lemma_string_body_bounds(s, i + 2, acc.push(spec_escape_decode(s[i + 1])->Some_0));
            }
        } else if b >= 0x20 {
            lemma_string_body_bounds(s, i + 1, acc.push(b));
        }
    }
}

proof fn lemma_parse_string_bounds(s: Seq<u8>, i: int)
    ensures
        spec_parse_string(s, i) matches Some(jv) ==> i + 2 <= jv.0 <= s.len(),
{
    if 0 <= i < s.len() && s[i] == QUOTE {
        lemma_string_body_bounds(s, i + 1, Seq::empty());
    }
}

/// Skip one ignored value: a balanced run of tokens ending at the first
/// comma or closing bracket that stands at nesting depth zero outside any
/// string literal.  Yields the position of that stopping byte.
pub open spec fn spec_skip_value(s: Seq<u8>, i: int, depth: int, in_str: bool, esc: bool) -> Option<
    int,
>
    decreases s.len() - i,
{
    if i < 0 || i >= s.len() {
        None
    } else {
        let b = s[i];
        if in_str {
            if esc {
                spec_skip_value(s, i + 1, depth, true, false)
            } else if b == BACKSLASH {
                spec_skip_value(s, i + 1, depth, true, true)
            } else if b == QUOTE {
                spec_skip_value(s, i + 1, depth, false, false)
            } else {
                spec_skip_value(s, i + 1, depth, true, false)
            }
        } else if b == QUOTE {
            spec_skip_value(s, i + 1, depth, true, false)
        } else if b == LBRACE || b == LBRACKET {
            spec_skip_value(s, i + 1, depth + 1, false, false)
        } else if b == RBRACE || b == RBRACKET || b == COMMA {
            if depth == 0 {
                Some(i)
            } else if b == COMMA {
                spec_skip_value(s, i + 1, depth, false, false)
            } else {
                spec_skip_value(s, i + 1, depth - 1, false, false)
            }
        } else {
            spec_skip_value(s, i + 1, depth, false, false)
        }
    }
}

proof fn lemma_skip_value_bounds(s: Seq<u8>, i: int, depth: int, in_str: bool, esc: bool)
    ensures
        spec_skip_value(s, i, depth, in_str, esc) matches Some(j) ==> i <= j < s.len(),
    decreases s.len() - i,
{
    if 0 <= i < s.len() {
        let b = s[i];
        if in_str {
            if esc {
                lemma_skip_value_bounds(s, i + 1, depth, true, false);
            } else if b == BACKSLASH {
                lemma_skip_value_bounds(s, i + 1, depth, true, true);
            } else if b == QUOTE {
                lemma_skip_value_bounds(s, i + 1, depth, false, false);
            } else {
                lemma_skip_value_bounds(s, i + 1, depth, true, false);
            }
        } else if b == QUOTE {
            lemma_skip_value_bounds(s, i + 1, depth, true, false);
        } else if b == LBRACE || b == LBRACKET {
            lemma_skip_value_bounds(s, i + 1, depth + 1, false, false);
        } else if b == RBRACE || b == RBRACKET || b == COMMA {
            if depth != 0 {
                if b == COMMA {
                    lemma_skip_value_bounds(s, i + 1, depth, false, false);
                } else {
                    lemma_skip_value_bounds(s, i + 1, depth - 1, false, false);
                }
            }
        } else {
            lemma_skip_value_bounds(s, i + 1, depth, false, false);
        }
    }
}

/// Which schema field, if any, a decoded key names.
#[derive(Clone, Copy, Debug, PartialEq, Eq, Structural)]
pub enum KeyKind {
    /// The protocol marker field.
    MarkerField,
    /// The per-mint limit field.
    LimitField,
    /// The operation field.
    OperationField,
    /// The ticker field.
    TickerField,
    /// The maximum-supply field.
    SupplyField,
    /// Any other key: its value is skipped.
    UnknownField,
}

/// Classify a decoded key.
pub open spec fn spec_key_kind(k: Seq<u8>) -> KeyKind {
    if k == lit_key_p() {
        KeyKind::MarkerField
    } else if k == lit_key_lim() {
        KeyKind::LimitField
    } else if k == lit_key_op() {
        KeyKind::OperationField
    } else if k == lit_key_tick() {
        KeyKind::TickerField
    } else if k == lit_key_max() {
        KeyKind::SupplyField
    } else {
        KeyKind::UnknownField
    }
}

/// The schema fields collected while walking the object's pairs.
pub ghost struct SpecFields {
    pub p: Option<Seq<u8>>,
    pub lim: Option<Seq<u8>>,
    pub op: Option<Seq<u8>>,
    pub tick: Option<Seq<u8>>,
    pub max: Option<Seq<u8>>,
}

/// No field collected yet.
pub open spec fn spec_no_fields() -> SpecFields {
    SpecFields { p: None, lim: None, op: None, tick: None, max: None }
}

/// The collected entry for a schema field.
pub open spec fn spec_field_of(f: SpecFields, kk: KeyKind) -> Option<Seq<u8>> {
    match kk {
        KeyKind::MarkerField => f.p,
        KeyKind::LimitField => f.lim,
        KeyKind::OperationField => f.op,
        KeyKind::TickerField => f.tick,
        KeyKind::SupplyField => f.max,
        KeyKind::UnknownField => None,
    }
}

/// Collect a schema field's value.
pub open spec fn spec_set_field(f: SpecFields, kk: KeyKind, v: Seq<u8>) -> SpecFields {
    match kk {
        KeyKind::MarkerField => SpecFields { p: Some(v), ..f },
        KeyKind::LimitField => SpecFields { lim: Some(v), ..f },
        KeyKind::OperationField => SpecFields { op: Some(v), ..f },
        KeyKind::TickerField => SpecFields { tick: Some(v), ..f },
        KeyKind::SupplyField => SpecFields { max: Some(v), ..f },
        KeyKind::UnknownField => f,
    }
}

/// Consume one pair's value, starting at `i`.  A schema field must carry a
/// string value and must not repeat; an unknown field carries any
/// non-empty balanced run.  Yields the position after the value and the
/// updated fields.
pub open spec fn spec_value_step(s: Seq<u8>, i: int, key: Seq<u8>, f: SpecFields) -> Option<
    (int, SpecFields),
> {
    let kk = spec_key_kind(key);
    if kk is UnknownField {
        match spec_skip_value(s, i, 0, false, false) {
            Some(j) => if j == i {
                None
            } else {
                Some((j, f))
            },
            None => None,
        }
    } else {
        match spec_parse_string(s, i) {
            Some(jv) => if spec_field_of(f, kk) is Some {
                None
            } else {
                Some((jv.0, spec_set_field(f, kk, jv.1)))
            },
            None => None,
        }
    }
}

proof fn lemma_value_step_bounds(s: Seq<u8>, i: int, key: Seq<u8>, f: SpecFields)
    ensures
        spec_value_step(s, i, key, f) matches Some(jf) ==> i < jf.0 <= s.len(),
{
    lemma_parse_string_bounds(s, i);
    lemma_skip_value_bounds(s, i, 0, false, false);
}

/// Walk the object's pairs from the start of a key at `i`, collecting
/// schema fields, to the closing brace and the end of the input.
pub open spec fn spec_pairs(s: Seq<u8>, i: int, f: SpecFields) -> Option<SpecFields>
    decreases s.len() - i,
    via spec_pairs_dec
{
    match spec_parse_string(s, i) {
        None => None,
        Some(kj) => {
            let jc = spec_skip_ws(s, kj.0);
            if jc >= s.len() || s[jc] != COLON {
                None
            } else {
                let jv = spec_skip_ws(s, jc + 1);
                match spec_value_step(s, jv, kj.1, f) {
                    None => None,
                    Some(ef) => {
                        let jt = spec_skip_ws(s, ef.0);
                        if jt >= s.len() {
                            None
                        } else if s[jt] == COMMA {
                            spec_pairs(s, spec_skip_ws(s, jt + 1), ef.1)
                        } else if s[jt] == RBRACE {
                            if spec_skip_ws(s, jt + 1) == s.len() {
                                Some(ef.1)
                            } else {
                                None
                            }
                        } else {
                            None
                        }
                    },
                }
            }
        },
    }
}

#[via_fn]
proof fn spec_pairs_dec(s: Seq<u8>, i: int, f: SpecFields) {
    lemma_parse_string_bounds(s, i);
    match spec_parse_string(s, i) {
        None => {},
        Some(kj) => {
            lemma_skip_ws_bounds(s, kj.0);
            let jc = spec_skip_ws(s, kj.0);
            if !(jc >= s.len() || s[jc] != COLON) {
                lemma_skip_ws_bounds(s, jc + 1);
                let jv = spec_skip_ws(s, jc + 1);
                lemma_value_step_bounds(s, jv, kj.1, f);
                match spec_value_step(s, jv, kj.1, f) {
                    None => {},
                    Some(ef) => {
                        lemma_skip_ws_bounds(s, ef.0);
                        let jt = spec_skip_ws(s, ef.0);
                        if jt < s.len() && s[jt] == COMMA {
                            lemma_skip_ws_bounds(s, jt + 1);
                        }
                    },
                }
            }
        },
    }
}

/// Parse a payload body against the record schema.
///
/// The body must be well-formed UTF-8 holding one object, with optional
/// surrounding whitespace and nothing after it; the five schema fields
/// must all be present with string values.  Anything else is no record.
pub open spec fn spec_parse_record(s: Seq<u8>) -> Option<SpecRecord> {
    if !is_utf8_from(s, 0) {
        None
    } else {
        let i = spec_skip_ws(s, 0);
        if i >= s.len() || s[i] != LBRACE {
            None
        } else {
            let j = spec_skip_ws(s, i + 1);
            if j < s.len() && s[j] == RBRACE {
                None
            } else {
                match spec_pairs(s, j, spec_no_fields()) {
                    None => None,
                    Some(f) => if f.p is Some && f.lim is Some && f.op is Some && f.tick is Some
                        && f.max is Some {
                        Some(
                            SpecRecord {
                                p: f.p->Some_0,
                                lim: f.lim->Some_0,
                                op: f.op->Some_0,
                                tick: f.tick->Some_0,
                                max: f.max->Some_0,
                            },
                        )
                    } else {
                        None
                    },
                }
            }
        }
    }
}

/// Advance past whitespace.
fn skip_ws(s: &Vec<u8>, i: usize) -> (j: usize)
    requires
        i <= s@.len(),
    ensures
        j == spec_skip_ws(s@, i as int),
        i <= j <= s@.len(),
{
    let mut j = i;
    while j < s.len() && (s[j] == 0x20 || s[j] == 0x09 || s[j] == 0x0A || s[j] == 0x0D)
        invariant
            i <= j <= s@.len(),
            spec_skip_ws(s@, i as int) == spec_skip_ws(s@, j as int),
        decreases s@.len() - j,
    {
        j = j + 1;
    }
    j
}

fn escape_decode(e: u8) -> (r: Option<u8>)
    ensures
        r == spec_escape_decode(e),
{
    if e == QUOTE {
        Some(QUOTE)
    } else if e == BACKSLASH {
        Some(BACKSLASH)
    } else if e == SLASH {
        Some(SLASH)
    } else if e == 0x62 {
        Some(0x08)
    } else if e == 0x66 {
        Some(0x0C)
    } else if e == 0x6E {
        Some(0x0A)
    } else if e == 0x72 {
        Some(0x0D)
    } else if e == 0x74 {
        Some(0x09)
    } else {
        None
    }
}

fn hex_val(b: u8) -> (r: Option<u8>)
    ensures
        match r {
            Some(v) => spec_hex_val(b) == Some(v as int) && v < 16,
            None => spec_hex_val(b) is None,
        },
{
    if 0x30 <= b && b <= 0x39 {
        Some(b - 0x30)
    } else if 0x41 <= b && b <= 0x46 {
        Some(b - 0x41 + 10)
    } else if 0x61 <= b && b <= 0x66 {
        Some(b - 0x61 + 10)
    } else {
        None
    }
}

/// Read the four-digit hexadecimal code unit at `i..i+4`.
fn hex4(s: &Vec<u8>, i: usize) -> (r: Option<u32>)
    requires
        i <= s@.len(),
    ensures
        match r {
            Some(v) => spec_hex4(s@, i as int) == Some(v as int) && v < 0x10000 && i + 4
                <= s@.len(),
            None => spec_hex4(s@, i as int) is None,
        },
{
    if s.len() - i < 4 {
        return None;
    }
    let h0 = match hex_val(s[i]) {
        Some(v) => v,
        None => {
            return None;
        },
    };
    let h1 = match hex_val(s[i + 1]) {
        Some(v) => v,
        None => {
            return None;
        },
    };
    let h2 = match hex_val(s[i + 2]) {
        Some(v) => v,
        None => {
            return None;
        },
    };
    let h3 = match hex_val(s[i + 3]) {
        Some(v) => v,
        None => {
            return None;
        },
    };
    Some((h0 as u32) * 4096 + (h1 as u32) * 256 + (h2 as u32) * 16 + (h3 as u32))
}

/// Append the UTF-8 encoding of a scalar value.
fn push_utf8(acc: &mut Vec<u8>, cp: u32)
    requires
        cp < 0x110000,
    ensures
        final (acc)@ == old(acc)@ + spec_utf8_encode(cp as int),
{
    if cp < 0x80 {
        acc.push(cp as u8);
    } else if cp < 0x800 {
        acc.push(0xC0 + (cp / 64) as u8);
        acc.push(0x80 + (cp % 64) as u8);
    } else if cp < 0x10000 {
        acc.push(0xE0 + (cp / 4096) as u8);
        acc.push(0x80 + ((cp / 64) % 64) as u8);
        acc.push(0x80 + (cp % 64) as u8);
    } else {
        acc.push(0xF0 + (cp / 262144) as u8);
        acc.push(0x80 + ((cp / 4096) % 64) as u8);
        acc.push(0x80 + ((cp / 64) % 64) as u8);
        acc.push(0x80 + (cp % 64) as u8);
    }
    proof {
        assert(acc@ =~= old(acc)@ + spec_utf8_encode(cp as int));
    }
}

/// Parse a string literal starting at `i`, decoding its escapes.
fn parse_string(s: &Vec<u8>, i: usize) -> (r: Option<(usize, Vec<u8>)>)
    requires
        i <= s@.len(),
    ensures
        match r {
            Some(jv) => spec_parse_string(s@, i as int) == Some((jv.0 as int, jv.1@)) && i + 2
                <= jv.0 <= s@.len(),
            None => spec_parse_string(s@, i as int) is None,
        },
{
    if i >= s.len() || s[i] != QUOTE {
        return None;
    }
    let mut cur: usize = i + 1;
    let mut acc: Vec<u8> = Vec::new();
    loop
        invariant
            i + 1 <= cur <= s@.len(),
            spec_parse_string(s@, i as int) == spec_string_body(s@, cur as int, acc@),
        decreases s@.len() - cur,
    {
        if cur >= s.len() {
            return None;
        }
        let b = s[cur];
        if b == QUOTE {
            return Some((cur + 1, acc));
        } else if b == BACKSLASH {
            if cur + 1 >= s.len() {
                return None;
            }
            if s[cur + 1] == 0x75 {
                let c = match hex4(s, cur + 2) {
                    Some(c) => c,
                    None => {
                        return None;
                    },
                };
                if c < 0xD800 || c >= 0xE000 {
                    push_utf8(&mut acc, c);
                    cur = cur + 6;
                } else if c < 0xDC00 {
                    if !(s.len() - cur > 7 && s[cur + 6] == BACKSLASH && s[cur + 7] == 0x75) {
                        return None;
                    }
                    let c2 = match hex4(s, cur + 8) {
                        Some(c2) => c2,
                        None => {
                            return None;
                        },
                    };
                    if !(0xDC00 <= c2 && c2 < 0xE000) {
                        return None;
                    }
                    let cp = 0x10000 + (c - 0xD800) * 1024 + (c2 - 0xDC00);
                    push_utf8(&mut acc, cp);
                    cur = cur + 12;
                } else {
                    return None;
                }
            } else {
                match escape_decode(s[cur + 1]) {
                    Some(d) => {
                        acc.push(d);
                        cur = cur + 2;
                    },
                    None => {
                        return None;
                    },
                }
            }
        } else if b < 0x20 {
            return None;
        } else {
            acc.push(b);
            cur = cur + 1;
        }
    }
}

/// Skip one ignored value: a balanced token run.
fn skip_value(s: &Vec<u8>, i: usize) -> (r: Option<usize>)
    requires
        i <= s@.len(),
    ensures
        match r {
            Some(j) => spec_skip_value(s@, i as int, 0, false, false) == Some(j as int) && i <= j
                < s@.len(),
            None => spec_skip_value(s@, i as int, 0, false, false) is None,
        },
{
    let mut cur: usize = i;
    let mut depth: usize = 0;
    let mut in_str: bool = false;
    let mut esc: bool = false;
    loop
        invariant
            i <= cur <= s@.len(),
            depth <= cur - i,
            !in_str ==> esc == false,
            spec_skip_value(s@, i as int, 0, false, false) == spec_skip_value(
                s@,
                cur as int,
                depth as int,
                in_str,
                esc,
            ),
        decreases s@.len() - cur,
    {
        if cur >= s.len() {
            return None;
        }
        proof {
            reveal_with_fuel(spec_skip_value, 2);
        }
        let b = s[cur];
        if in_str {
            if esc {
                esc = false;
            } else if b == BACKSLASH {
                esc = true;
            } else if b == QUOTE {
                in_str = false;
            }
            cur = cur + 1;
        } else if b == QUOTE {
            in_str = true;
            cur = cur + 1;
        } else if b == LBRACE || b == LBRACKET {
            depth = depth + 1;
            cur = cur + 1;
        } else if b == RBRACE || b == RBRACKET || b == COMMA {
            if depth == 0 {
                return Some(cur);
            }
            if b == COMMA {
                cur = cur + 1;
            } else {
                depth = depth - 1;
                cur = cur + 1;
            }
        } else {
            cur = cur + 1;
        }
    }
}

/// Classify a decoded key against the five schema field names.
fn classify_key(k: &Vec<u8>) -> (r: KeyKind)
    ensures
        r == spec_key_kind(k@),
{
    if k.len() == 1 && k[0] == 0x70 {
        proof {
            assert(k@ =~= lit_key_p());
        }
        KeyKind::MarkerField
    } else if k.len() == 3 && k[0] == 0x6C && k[1] == 0x69 && k[2] == 0x6D {
        proof {
            assert(k@ =~= lit_key_lim());
        }
        KeyKind::LimitField
    } else if k.len() == 2 && k[0] == 0x6F && k[1] == 0x70 {
        proof {
            assert(k@ =~= lit_key_op());
        }
        KeyKind::OperationField
    } else if k.len() == 4 && k[0] == 0x74 && k[1] == 0x69 && k[2] == 0x63 && k[3] == 0x6B {
        proof {
            assert(k@ =~= lit_key_tick());
        }
        KeyKind::TickerField
    } else if k.len() == 3 && k[0] == 0x6D && k[1] == 0x61 && k[2] == 0x78 {
        proof {
            assert(k@ =~= lit_key_max());
        }
        KeyKind::SupplyField
    } else {
        proof {
            assert(k@ != lit_key_p());
            assert(k@ != lit_key_lim());
            assert(k@ != lit_key_op());
            assert(k@ != lit_key_tick());
            assert(k@ != lit_key_max());
        }
        KeyKind::UnknownField
    }
}

/// The schema fields collected so far while parsing an object.
struct Fields {
    p: Option<Vec<u8>>,
    lim: Option<Vec<u8>>,
    op: Option<Vec<u8>>,
    tick: Option<Vec<u8>>,
    max: Option<Vec<u8>>,
}

impl View for Fields {
    type V = SpecFields;

    closed spec fn view(&self) -> SpecFields {
        SpecFields {
            p: match self.p {
                Some(v) => Some(v@),
                None => None,
            },
            lim: match self.lim {
                Some(v) => Some(v@),
                None => None,
            },
            op: match self.op {
                Some(v) => Some(v@),
                None => None,
            },
            tick: match self.tick {
                Some(v) => Some(v@),
                None => None,
            },
            max: match self.max {
                Some(v) => Some(v@),
                None => None,
            },
        }
    }
}

fn field_present(f: &Fields, kk: KeyKind) -> (r: bool)
    ensures
        r == (spec_field_of(f@, kk) is Some),
{
    match kk {
        KeyKind::MarkerField => f.p.is_some(),
        KeyKind::LimitField => f.lim.is_some(),
        KeyKind::OperationField => f.op.is_some(),
        KeyKind::TickerField => f.tick.is_some(),
        KeyKind::SupplyField => f.max.is_some(),
        KeyKind::UnknownField => false,
    }
}

fn set_field(f: Fields, kk: KeyKind, v: Vec<u8>) -> (r: Fields)
    ensures
        r@ == spec_set_field(f@, kk, v@),
{
    match kk {
        KeyKind::MarkerField => Fields { p: Some(v), ..f },
        KeyKind::LimitField => Fields { lim: Some(v), ..f },
        KeyKind::OperationField => Fields { op: Some(v), ..f },
        KeyKind::TickerField => Fields { tick: Some(v), ..f },
        KeyKind::SupplyField => Fields { max: Some(v), ..f },
        KeyKind::UnknownField => f,
    }
}

/// Walk the object's pairs from the start of a key at `i`.
fn parse_pairs(s: &Vec<u8>, i: usize, f: Fields) -> (r: Option<Fields>)
    requires
        i <= s@.len(),
    ensures
        match r {
            Some(g) => spec_pairs(s@, i as int, f@) == Some(g@),
            None => spec_pairs(s@, i as int, f@) is None,
        },
    decreases s@.len() - i,
{
    let ghost f0 = f@;
    let (jk, key) = match parse_string(s, i) {
        Some(kv) => kv,
        None => {
            return None;
        },
    };
    let jc = skip_ws(s, jk);
    if jc >= s.len() {
        return None;
    }
    if s[jc] != COLON {
        return None;
    }
    let jv = skip_ws(s, jc + 1);
    let kk = classify_key(&key);
    let step: Option<(usize, Fields)> = match kk {
        KeyKind::UnknownField => {
            match skip_value(s, jv) {
                Some(j) => if j == jv {
                    None
                } else {
                    Some((j, f))
                },
                None => None,
            }
        },
        _ => {
            match parse_string(s, jv) {
                Some(jval) => {
                    if field_present(&f, kk) {
                        None
                    } else {
                        let (je, val) = jval;
                        Some((je, set_field(f, kk, val)))
                    }
                },
                None => None,
            }
        },
    };
    let (je, f2) = match step {
        Some(x) => x,
        None => {
            proof {
                assert(spec_value_step(s@, jv as int, key@, f0) is None);
            }
            return None;
        },
    };
    proof {
        assert(spec_value_step(s@, jv as int, key@, f0) == Some((je as int, f2@)));
    }
    let jt = skip_ws(s, je);
    if jt >= s.len() {
        return None;
    }
    if s[jt] == COMMA {
        let nx = skip_ws(s, jt + 1);
        return parse_pairs(s, nx, f2);
    }
    if s[jt] == RBRACE {
        let e = skip_ws(s, jt + 1);
        if e == s.len() {
            return Some(f2);
        } else {
            return None;
        }
    }
    None
}

/// Parse a payload body against the record schema.
///
/// Succeeds exactly on the bodies the grammar accepts
/// ([`spec_parse_record`]), returning the record whose five fields the
/// body carries.
pub fn parse_record(s: &Vec<u8>) -> (r: Option<Brc20>)
    ensures
        match r {
            Some(rec) => spec_parse_record(s@) == Some(rec@),
            None => spec_parse_record(s@) is None,
        },
{
    if !crate::text::is_valid_utf8(s) {
        return None;
    }
    let i = skip_ws(s, 0);
    if i >= s.len() {
        return None;
    }
    if s[i] != LBRACE {
        return None;
    }
    let j = skip_ws(s, i + 1);
    if j < s.len() && s[j] == RBRACE {
        return None;
    }
    let start = Fields { p: None, lim: None, op: None, tick: None, max: None };
    let g = match parse_pairs(s, j, start) {
        Some(g) => g,
        None => {
            return None;
        },
    };
    match (g.p, g.lim, g.op, g.tick, g.max) {
        (Some(p), Some(lim), Some(op), Some(tick), Some(max)) => Some(
            Brc20 { p, lim, op, tick, max },
        ),
        _ => None,
    }
}

/// The deployment operation name as a byte string.
pub fn deploy_bytes() -> (v: Vec<u8>)
    ensures
        v@ == lit_deploy(),
{
    let mut v: Vec<u8> = Vec::new();
    v.push(0x64);
    v.push(0x65);
    v.push(0x70);
    v.push(0x6C);
    v.push(0x6F);
    v.push(0x79);
    proof {
        assert(v@ =~= lit_deploy());
    }
    v
}

/// The single-unit figure `1` as a byte string.
pub fn one_bytes() -> (v: Vec<u8>)
    ensures
        v@ == lit_one(),
{
    let mut v: Vec<u8> = Vec::new();
    v.push(0x31);
    proof {
        assert(v@ =~= lit_one());
    }
    v
}

/// The protocol marker `brc-20` as a byte string.
pub fn marker_bytes() -> (v: Vec<u8>)
    ensures
        v@ == lit_marker(),
{
    let mut v: Vec<u8> = Vec::new();
    v.push(0x62);
    v.push(0x72);
    v.push(0x63);
    v.push(0x2D);
    v.push(0x32);
    v.push(0x30);
    proof {
        assert(v@ =~= lit_marker());
    }
    v
}

/// Decide whether a record triggers the correction policy.
pub fn needs_correction(rec: &Brc20) -> (r: bool)
    ensures
        r == spec_needs_correction(rec@),
{
    let deploy = deploy_bytes();
    let one = one_bytes();
    crate::text::bytes_eq(&rec.op, &deploy) && !crate::text::bytes_eq(&rec.max, &one)
}

/// Decide whether a record carries the protocol marker.
pub fn has_marker(rec: &Brc20) -> (r: bool)
    ensures
        r == (rec@.p == lit_marker()),
{
    let marker = marker_bytes();
    crate::text::bytes_eq(&rec.p, &marker)
}

/// Apply the correction policy to a record: a deployment whose maximum
/// supply is not `1` is rewritten to single-unit issuance, any other
/// record is returned unchanged.
pub fn corrected(rec: Brc20) -> (r: Brc20)
    ensures
        r@ == spec_corrected(rec@),
{
    if needs_correction(&rec) {
        Brc20 { lim: one_bytes(), max: one_bytes(), ..rec }
    } else {
        rec
    }
}

/// The correction law.  A deployment record whose maximum supply is not
/// `1` always comes out with limit `1` and maximum supply `1`, its marker,
/// operation and ticker untouched; every other record passes through
/// unchanged.
pub proof fn lemma_correction_law(r: SpecRecord)
    ensures
        spec_needs_correction(r) ==> {
            let c = spec_corrected(r);
            c.lim == lit_one() && c.max == lit_one() && c.p == r.p && c.op == r.op && c.tick
                == r.tick
        },
        !spec_needs_correction(r) ==> spec_corrected(r) == r,
{
}

/// A hexadecimal digit, lower case.
pub open spec fn spec_hex_digit(n: u8) -> u8 {
    if n < 10 {
        (0x30 + n) as u8
    } else {
        (0x61 + (n - 10)) as u8
    }
}

/// How one byte of a field value is written in a serialized record: the
/// two-character escapes for the quote, the backslash and the five named
/// control characters, a four-digit escape for any other control byte, and
/// the byte itself otherwise.
pub open spec fn esc_byte(b: u8) -> Seq<u8> {
    if b == QUOTE {
        seq![BACKSLASH, QUOTE]
    } else if b == BACKSLASH {
        seq![BACKSLASH, BACKSLASH]
    } else if b == 0x08 {
        seq![BACKSLASH, 0x62]
    } else if b == 0x09 {
        seq![BACKSLASH, 0x74]
    } else if b == 0x0A {
        seq![BACKSLASH, 0x6E]
    } else if b == 0x0C {
        seq![BACKSLASH, 0x66]
    } else if b == 0x0D {
        seq![BACKSLASH, 0x72]
    } else if b < 0x20 {
        seq![BACKSLASH, 0x75, 0x30, 0x30, spec_hex_digit(b / 16), spec_hex_digit(b % 16)]
    } else {
        seq![b]
    }
}

/// A field value with every byte escaped.
pub open spec fn spec_escaped(v: Seq<u8>) -> Seq<u8>
    decreases v.len(),
{
    if v.len() == 0 {
        Seq::empty()
    } else {
        spec_escaped(v.drop_last()) + esc_byte(v.last())
    }
}

/// `{"p":"` — the serialized record's opening and first field name.
pub open spec fn lit_head() -> Seq<u8> {
    seq![LBRACE, QUOTE, 0x70, QUOTE, COLON, QUOTE]
}

/// `","op":"`
pub open spec fn lit_sep_op() -> Seq<u8> {
    seq![QUOTE, COMMA, QUOTE, 0x6F, 0x70, QUOTE, COLON, QUOTE]
}

/// `","tick":"`
pub open spec fn lit_sep_tick() -> Seq<u8> {
    seq![QUOTE, COMMA, QUOTE, 0x74, 0x69, 0x63, 0x6B, QUOTE, COLON, QUOTE]
}

/// `","max":"`
pub open spec fn lit_sep_max() -> Seq<u8> {
    seq![QUOTE, COMMA, QUOTE, 0x6D, 0x61, 0x78, QUOTE, COLON, QUOTE]
}

/// `","lim":"`
pub open spec fn lit_sep_lim() -> Seq<u8> {
    seq![QUOTE, COMMA, QUOTE, 0x6C, 0x69, 0x6D, QUOTE, COLON, QUOTE]
}

/// `"}` — the serialized record's closing.
pub open spec fn lit_tail() -> Seq<u8> {
    seq![QUOTE, RBRACE]
}

/// The one serialized form this library gives a record: its five fields in
/// the order `p`, `op`, `tick`, `max`, `lim`, each value escaped.
pub open spec fn spec_serialized(r: SpecRecord) -> Seq<u8> {
    lit_head() + spec_escaped(r.p) + lit_sep_op() + spec_escaped(r.op) + lit_sep_tick()
        + spec_escaped(r.tick) + lit_sep_max() + spec_escaped(r.max) + lit_sep_lim()
        + spec_escaped(r.lim) + lit_tail()
}

fn hex_digit(n: u8) -> (r: u8)
    requires
        n < 16,
    ensures
        r == spec_hex_digit(n),
{
    if n < 10 {
        0x30 + n
    } else {
        0x61 + (n - 10)
    }
}

/// Append one field value to a serialized record, escaping every byte.
fn escape_into(out: &mut Vec<u8>, v: &Vec<u8>)
    ensures
        final (out)@ == old(out)@ + spec_escaped(v@),
{
    let mut i: usize = 0;
    while i < v.len()
        invariant
            0 <= i <= v.len(),
            out@ == old(out)@ + spec_escaped(v@.take(i as int)),
        decreases v.len() - i,
    {
        let b = v[i];
        if b == QUOTE {
            out.push(BACKSLASH);
            out.push(QUOTE);
        } else if b == BACKSLASH {
            out.push(BACKSLASH);
            out.push(BACKSLASH);
        } else if b == 0x08 {
            out.push(BACKSLASH);
            out.push(0x62);
        } else if b == 0x09 {
            out.push(BACKSLASH);
            out.push(0x74);
        } else if b == 0x0A {
            out.push(BACKSLASH);
            out.push(0x6E);
        } else if b == 0x0C {
            out.push(BACKSLASH);
            out.push(0x66);
        } else if b == 0x0D {
            out.push(BACKSLASH);
            out.push(0x72);
        } else if b < 0x20 {
            out.push(BACKSLASH);
            out.push(0x75);
            out.push(0x30);
            out.push(0x30);
            out.push(hex_digit(b / 16));
            out.push(hex_digit(b % 16));
        } else {
            out.push(b);
        }
        proof {
            assert(v@.take(i + 1).drop_last() =~= v@.take(i as int));
            assert(out@ =~= old(out)@ + spec_escaped(v@.take(i + 1)));
        }
        i = i + 1;
    }
    proof {
        assert(v@.take(v@.len() as int) =~= v@);
    }
}

/// Serialize a record to the protocol's text form, [`spec_serialized`].
#[verifier::rlimit(50)]
pub fn serialize_record(rec: &Brc20) -> (out: Vec<u8>)
    ensures
        out@ == spec_serialized(rec@),
{
    let mut out: Vec<u8> = Vec::new();
    out.push(LBRACE);
    out.push(QUOTE);
    out.push(0x70);
    out.push(QUOTE);
    out.push(COLON);
    out.push(QUOTE);
    proof {
        assert(out@ =~= lit_head());
    }
    escape_into(&mut out, &rec.p);
    let ghost s1 = out@;
    out.push(QUOTE);
    out.push(COMMA);
    out.push(QUOTE);
    out.push(0x6F);
    out.push(0x70);
    out.push(QUOTE);
    out.push(COLON);
    out.push(QUOTE);
    proof {
        assert(out@ =~= s1 + lit_sep_op());
    }
    escape_into(&mut out, &rec.op);
    let ghost s2 = out@;
    out.push(QUOTE);
    out.push(COMMA);
    out.push(QUOTE);
    out.push(0x74);
    out.push(0x69);
    out.push(0x63);
    out.push(0x6B);
    out.push(QUOTE);
    out.push(COLON);
    out.push(QUOTE);
    proof {
        assert(out@ =~= s2 + lit_sep_tick());
    }
    escape_into(&mut out, &rec.tick);
    let ghost s3 = out@;
    out.push(QUOTE);
    out.push(COMMA);
    out.push(QUOTE);
    out.push(0x6D);
    out.push(0x61);
    out.push(0x78);
    out.push(QUOTE);
    out.push(COLON);
    out.push(QUOTE);
    proof {
        assert(out@ =~= s3 + lit_sep_max());
    }
    escape_into(&mut out, &rec.max);
    let ghost s4 = out@;
    out.push(QUOTE);
    out.push(COMMA);
    out.push(QUOTE);
    out.push(0x6C);
    out.push(0x69);
    out.push(0x6D);
    out.push(QUOTE);
    out.push(COLON);
    out.push(QUOTE);
    proof {
        assert(out@ =~= s4 + lit_sep_lim());
    }
    escape_into(&mut out, &rec.lim);
    out.push(QUOTE);
    out.push(RBRACE);
    proof {
        assert(out@ =~= spec_serialized(rec@));
    }
    out
}

} // verus!
