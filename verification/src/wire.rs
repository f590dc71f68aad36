//! Canonical wire format for the envelope protocol.
//!
//! Requests and responses travel as human-readable JSON text. This module
//! defines the mathematical model of a wire value (`JsonSpec`), its canonical
//! encoding (`jenc`), a reference parser (`p_json`), and executable
//! counterparts that are proved to match them. The canonical form is strict:
//! no insignificant whitespace, a fixed escape discipline for strings, and
//! no leading zeros in numbers, so that every wire value has exactly one
//! encoding and parsing is its inverse.

use vstd::prelude::*;

verus! {

broadcast use vstd::std_specs::vec::axiom_vec_index_decreases;

/// Mathematical model of a wire value.
#[verifier::ext_equal]
pub enum JsonSpec {
    Null,
    Str(Seq<char>),
    Int(int),
    Bool(bool),
    Arr(Seq<JsonSpec>),
    Obj(Seq<(Seq<char>, JsonSpec)>),
}

/// Smallest integer a wire number may hold (i64::MIN).
pub const WIRE_INT_MIN: i128 = -0x8000_0000_0000_0000;

/// Largest integer a wire number may hold (u64::MAX).
pub const WIRE_INT_MAX: i128 = 0xffff_ffff_ffff_ffff;

/// Wire values the canonical format can carry: numbers are bounded by the
/// widest integer fields the schemas use.
pub open spec fn json_wf(v: JsonSpec) -> bool
    decreases v,
{
    match v {
        JsonSpec::Null => true,
        JsonSpec::Str(_) => true,
        JsonSpec::Int(i) => WIRE_INT_MIN as int <= i <= WIRE_INT_MAX as int,
        JsonSpec::Bool(_) => true,
        JsonSpec::Arr(items) => forall|k: int|
            0 <= k < items.len() ==> json_wf(#[trigger] items[k]),
        JsonSpec::Obj(entries) => forall|k: int|
            0 <= k < entries.len() ==> json_wf(#[trigger] entries[k].1),
    }
}

// ---------------------------------------------------------------------------
// Canonical encoding, spec level
// ---------------------------------------------------------------------------

/// The decimal digit character for `d` (0 through 9).
pub open spec fn dec_digit(d: int) -> char {
    if d == 0 { '0' } else if d == 1 { '1' } else if d == 2 { '2' }
    else if d == 3 { '3' } else if d == 4 { '4' } else if d == 5 { '5' }
    else if d == 6 { '6' } else if d == 7 { '7' } else if d == 8 { '8' }
    else { '9' }
}

/// Decimal digit string of `n`, most significant digit first, no leading zeros.
pub open spec fn dec_str(n: nat) -> Seq<char>
    decreases n,
{
    if n < 10 { seq![dec_digit(n as int)] } else { dec_str(n / 10) + seq![dec_digit((n % 10) as int)] }
}

/// Canonical encoding of an integer.
pub open spec fn enc_int(i: int) -> Seq<char> {
    if i < 0 { seq!['-'] + dec_str((-i) as nat) } else { dec_str(i as nat) }
}

/// The lowercase hexadecimal digit character for `d` (0 through 15).
pub open spec fn hex_digit(d: int) -> char {
    if d == 0 { '0' } else if d == 1 { '1' } else if d == 2 { '2' }
    else if d == 3 { '3' } else if d == 4 { '4' } else if d == 5 { '5' }
    else if d == 6 { '6' } else if d == 7 { '7' } else if d == 8 { '8' }
    else if d == 9 { '9' } else if d == 10 { 'a' } else if d == 11 { 'b' }
    else if d == 12 { 'c' } else if d == 13 { 'd' } else if d == 14 { 'e' }
    else { 'f' }
}

/// Canonical escape of one character inside a string literal: quotes and
/// backslashes get a backslash escape, control characters a `\u00XX` escape,
/// everything else stands for itself.
pub open spec fn esc_char(c: char) -> Seq<char> {
    if c == '"' { seq!['\\', '"'] }
    else if c == '\\' { seq!['\\', '\\'] }
    else if (c as int) < 0x20 {
        seq!['\\', 'u', '0', '0', hex_digit((c as int) / 16), hex_digit((c as int) % 16)]
    }
    else { seq![c] }
}

/// Escaped body of a string literal.
pub open spec fn esc_seq(s: Seq<char>) -> Seq<char>
    decreases s.len(),
{
    if s.len() == 0 { Seq::empty() } else { esc_char(s[0]) + esc_seq(s.drop_first()) }
}

/// Canonical encoding of a string value, quotes included.
pub open spec fn enc_str(s: Seq<char>) -> Seq<char> {
    seq!['"'] + esc_seq(s) + seq!['"']
}

/// Canonical encoding of a wire value.
pub open spec fn jenc(v: JsonSpec) -> Seq<char>
    decreases v, 1int,
{
    match v {
        JsonSpec::Null => seq!['n', 'u', 'l', 'l'],
        JsonSpec::Str(s) => enc_str(s),
        JsonSpec::Int(i) => enc_int(i),
        JsonSpec::Bool(b) => if b { seq!['t', 'r', 'u', 'e'] } else { seq!['f', 'a', 'l', 's', 'e'] },
        JsonSpec::Arr(items) => seq!['['] + jenc_items(items) + seq![']'],
        JsonSpec::Obj(entries) => seq!['{'] + jenc_entries(entries) + seq!['}'],
    }
}

/// Comma-separated encodings of array items.
pub open spec fn jenc_items(items: Seq<JsonSpec>) -> Seq<char>
    decreases items, 0int,
{
    if items.len() == 0 {
        Seq::empty()
    } else if items.len() == 1 {
        jenc(items[0])
    } else {
        jenc(items[0]) + seq![','] + jenc_items(items.drop_first())
    }
}

/// Comma-separated `"key":value` encodings of object entries.
pub open spec fn jenc_entries(entries: Seq<(Seq<char>, JsonSpec)>) -> Seq<char>
    decreases entries, 0int,
{
    if entries.len() == 0 {
        Seq::empty()
    } else if entries.len() == 1 {
        enc_str(entries[0].0) + seq![':'] + jenc(entries[0].1)
    } else {
        enc_str(entries[0].0) + seq![':'] + jenc(entries[0].1) + seq![','] + jenc_entries(entries.drop_first())
    }
}

// ---------------------------------------------------------------------------
// Reference parser, spec level
// ---------------------------------------------------------------------------

/// Whether `c` is a decimal digit.
pub open spec fn is_dec(c: char) -> bool {
    '0' <= c <= '9'
}

/// Value of a decimal digit character.
pub open spec fn dec_val(c: char) -> int {
    c as int - '0' as int
}

/// Whether `c` is a lowercase hexadecimal digit.
pub open spec fn is_hex(c: char) -> bool {
    ('0' <= c <= '9') || ('a' <= c <= 'f')
}

/// Value of a lowercase hexadecimal digit character.
pub open spec fn hex_val(c: char) -> int {
    if '0' <= c <= '9' { c as int - '0' as int } else { c as int - 'a' as int + 10 }
}

/// Parses a run of decimal digits starting at `i`, folding them onto `acc`;
/// fails if the value would exceed `max`. Stops at the first non-digit.
pub open spec fn p_digits(s: Seq<char>, i: int, acc: int, max: int) -> Option<(int, int)>
    decreases s.len() - i,
{
    if 0 <= i < s.len() && is_dec(s[i]) {
        let d = dec_val(s[i]);
        if acc * 10 + d > max {
            None
        } else {
            p_digits(s, i + 1, acc * 10 + d, max)
        }
    } else {
        Some((acc, i))
    }
}

/// Parses the body of a string literal starting just after the opening quote;
/// returns the decoded characters and the index just past the closing quote.
pub open spec fn p_str_body(s: Seq<char>, i: int) -> Option<(Seq<char>, int)>
    decreases s.len() - i,
{
    if i < 0 || i >= s.len() {
        None
    } else if s[i] == '"' {
        Some((Seq::empty(), i + 1))
    } else if s[i] == '\\' {
        if i + 2 <= s.len() && s[i + 1] == '"' {
            match p_str_body(s, i + 2) {
                Some((t, j)) => Some((seq!['"'] + t, j)),
                None => None,
            }
        } else if i + 2 <= s.len() && s[i + 1] == '\\' {
            match p_str_body(s, i + 2) {
                Some((t, j)) => Some((seq!['\\'] + t, j)),
                None => None,
            }
        } else if i + 6 <= s.len() && s[i + 1] == 'u' && s[i + 2] == '0' && s[i + 3] == '0'
            && is_hex(s[i + 4]) && is_hex(s[i + 5]) && hex_val(s[i + 4]) * 16 + hex_val(s[i + 5]) < 0x20 {
            match p_str_body(s, i + 6) {
                Some((t, j)) => Some((seq![(hex_val(s[i + 4]) * 16 + hex_val(s[i + 5])) as char] + t, j)),
                None => None,
            }
        } else {
            None
        }
    } else if s[i] as int >= 0x20 {
        match p_str_body(s, i + 1) {
            Some((t, j)) => Some((seq![s[i]] + t, j)),
            None => None,
        }
    } else {
        None
    }
}

/// Parses one wire value starting at `i`.
pub open spec fn p_json(s: Seq<char>, i: int) -> Option<(JsonSpec, int)>
    decreases s.len() - i, 0int,
{
    if i < 0 || i >= s.len() {
        None
    } else if s[i] == '"' {
        match p_str_body(s, i + 1) {
            Some((t, j)) => Some((JsonSpec::Str(t), j)),
            None => None,
        }
    } else if s[i] == 't' {
        if i + 4 <= s.len() && s[i + 1] == 'r' && s[i + 2] == 'u' && s[i + 3] == 'e' {
            Some((JsonSpec::Bool(true), i + 4))
        } else {
            None
        }
    } else if s[i] == 'f' {
        if i + 5 <= s.len() && s[i + 1] == 'a' && s[i + 2] == 'l' && s[i + 3] == 's' && s[i + 4] == 'e' {
            Some((JsonSpec::Bool(false), i + 5))
        } else {
            None
        }
    } else if s[i] == 'n' {
        if i + 4 <= s.len() && s[i + 1] == 'u' && s[i + 2] == 'l' && s[i + 3] == 'l' {
            Some((JsonSpec::Null, i + 4))
        } else {
            None
        }
    } else if s[i] == '-' {
        if i + 1 < s.len() && is_dec(s[i + 1]) && s[i + 1] != '0' {
            match p_digits(s, i + 1, 0, -(WIRE_INT_MIN as int)) {
                Some((n, j)) => Some((JsonSpec::Int(-n), j)),
                None => None,
            }
        } else {
            None
        }
    } else if s[i] == '0' {
        Some((JsonSpec::Int(0), i + 1))
    } else if is_dec(s[i]) {
        match p_digits(s, i, 0, WIRE_INT_MAX as int) {
            Some((n, j)) => Some((JsonSpec::Int(n), j)),
            None => None,
        }
    } else if s[i] == '[' {
        if i + 1 < s.len() && s[i + 1] == ']' {
            Some((JsonSpec::Arr(Seq::empty()), i + 2))
        } else {
            match p_items(s, i + 1) {
                Some((items, j)) => Some((JsonSpec::Arr(items), j)),
                None => None,
            }
        }
    } else if s[i] == '{' {
        if i + 1 < s.len() && s[i + 1] == '}' {
            Some((JsonSpec::Obj(Seq::empty()), i + 2))
        } else {
            match p_entries(s, i + 1) {
                Some((entries, j)) => Some((JsonSpec::Obj(entries), j)),
                None => None,
            }
        }
    } else {
        None
    }
}

/// Parses one or more comma-separated array items starting at `i` and the
/// closing bracket; returns the items and the index just past the bracket.
pub open spec fn p_items(s: Seq<char>, i: int) -> Option<(Seq<JsonSpec>, int)>
    decreases s.len() - i, 1int,
{
    if i < 0 || i >= s.len() {
        None
    } else {
        match p_json(s, i) {
            None => None,
            Some((v, j)) => {
                if !(i < j <= s.len()) {
                    None
                } else if j < s.len() && s[j] == ']' {
                    Some((seq![v], j + 1))
                } else if j < s.len() && s[j] == ',' {
                    match p_items(s, j + 1) {
                        Some((items, k)) => Some((seq![v] + items, k)),
                        None => None,
                    }
                } else {
                    None
                }
            },
        }
    }
}

/// Parses one or more comma-separated `"key":value` entries starting at `i`
/// and the closing brace; returns the entries and the index just past it.
pub open spec fn p_entries(s: Seq<char>, i: int) -> Option<(Seq<(Seq<char>, JsonSpec)>, int)>
    decreases s.len() - i, 1int,
{
    if i < 0 || i >= s.len() || s[i] != '"' {
        None
    } else {
        match p_str_body(s, i + 1) {
            None => None,
            Some((key, j)) => {
                if !(i < j < s.len()) || s[j] != ':' {
                    None
                } else {
                    match p_json(s, j + 1) {
                        None => None,
                        Some((v, k)) => {
                            if !(j < k <= s.len()) {
                                None
                            } else if k < s.len() && s[k] == '}' {
                                Some((seq![(key, v)], k + 1))
                            } else if k < s.len() && s[k] == ',' {
                                match p_entries(s, k + 1) {
                                    Some((entries, m)) => Some((seq![(key, v)] + entries, m)),
                                    None => None,
                                }
                            } else {
                                None
                            }
                        },
                    }
                }
            },
        }
    }
}

// ---------------------------------------------------------------------------
// The parser inverts the encoder
// ---------------------------------------------------------------------------

/// Whether `pat` occurs in `s` starting at index `i`.
pub open spec fn at_pos(s: Seq<char>, i: int, pat: Seq<char>) -> bool {
    0 <= i && i + pat.len() <= s.len() && forall|k: int|
        0 <= k < pat.len() ==> s[i + k] == #[trigger] pat[k]
}

/// Ten to the `k`.
pub open spec fn pow10(k: nat) -> int
    decreases k,
{
    if k == 0 { 1 } else { 10 * pow10((k - 1) as nat) }
}

/// Left fold of decimal digit characters onto `acc`.
pub open spec fn digits_fold(acc: int, ds: Seq<char>) -> int
    decreases ds.len(),
{
    if ds.len() == 0 { acc } else { digits_fold(acc * 10 + dec_val(ds[0]), ds.drop_first()) }
}

/// Every character of `dec_str(n)` is a digit, the sequence is nonempty, and
/// its digits fold back to the number they print.
pub proof fn lemma_dec_str_digits(n: nat)
    ensures
        dec_str(n).len() >= 1,
        forall|k: int| 0 <= k < dec_str(n).len() ==> is_dec(#[trigger] dec_str(n)[k]),
        n > 0 ==> dec_str(n)[0] != '0',
        n < 10 ==> dec_str(n).len() == 1,
        n >= 10 ==> dec_str(n).len() >= 2,
    decreases n,
{
    if n >= 10 {
        lemma_dec_str_digits(n / 10);
    }
}

/// Folding a digit string extended by one digit multiplies by ten and adds it.
pub proof fn lemma_digits_fold_snoc(acc: int, ds: Seq<char>, d: char)
    ensures
        digits_fold(acc, ds + seq![d]) == digits_fold(acc, ds) * 10 + dec_val(d),
    decreases ds.len(),
{
    if ds.len() == 0 {
        assert(ds + seq![d] =~= seq![d]);
        assert((ds + seq![d]).drop_first().len() == 0);
        assert(digits_fold(acc * 10 + dec_val((ds + seq![d])[0]), (ds + seq![d]).drop_first())
            == acc * 10 + dec_val((ds + seq![d])[0]));
        assert(digits_fold(acc, ds) == acc);
    } else {
        assert((ds + seq![d]).drop_first() =~= ds.drop_first() + seq![d]);
        assert((ds + seq![d])[0] == ds[0]);
        lemma_digits_fold_snoc(acc * 10 + dec_val(ds[0]), ds.drop_first(), d);
        assert(digits_fold(acc, ds + seq![d]) == digits_fold(
            acc * 10 + dec_val(ds[0]),
            ds.drop_first() + seq![d],
        ));
        assert(digits_fold(acc, ds) == digits_fold(acc * 10 + dec_val(ds[0]), ds.drop_first()));
    }
}

/// Folding the printed digits of `n` onto `acc` gives `acc * pow10(len) + n`.
pub proof fn lemma_digits_fold_dec_str(acc: int, n: nat)
    ensures
        digits_fold(acc, dec_str(n)) == acc * pow10(dec_str(n).len() as nat) + n,
    decreases n,
{
    if n < 10 {
        let ds = dec_str(n);
        assert(ds =~= seq![dec_digit(n as int)]);
        assert(ds.drop_first().len() == 0);
        assert(digits_fold(acc * 10 + dec_val(ds[0]), ds.drop_first()) == acc * 10 + dec_val(
            ds[0],
        ));
        assert(dec_val(dec_digit(n as int)) == n);
        assert(pow10(0) == 1);
        assert(pow10(1) == 10 * pow10(0));
    } else {
        lemma_digits_fold_dec_str(acc, n / 10);
        lemma_dec_str_digits(n / 10);
        lemma_digits_fold_snoc(acc, dec_str(n / 10), dec_digit((n % 10) as int));
        let l: nat = dec_str(n / 10).len() as nat;
        assert(dec_str(n).len() == l + 1);
        assert(digits_fold(acc, dec_str(n)) == (acc * pow10(l) + n / 10) * 10 + (n % 10));
        assert((acc * pow10(l) + n / 10) * 10 + (n % 10) == acc * (pow10(l) * 10) + ((n / 10) * 10
            + n % 10)) by (nonlinear_arith);
        assert(pow10(l + 1) == 10 * pow10(l));
        assert((n / 10) * 10 + n % 10 == n) by (nonlinear_arith);
    }
}

/// A fold over digits never shrinks a nonnegative accumulator.
pub proof fn lemma_digits_fold_lower(acc: int, ds: Seq<char>)
    requires
        acc >= 0,
        forall|k: int| 0 <= k < ds.len() ==> is_dec(#[trigger] ds[k]),
    ensures
        digits_fold(acc, ds) >= acc,
    decreases ds.len(),
{
    if ds.len() > 0 {
        assert(dec_val(ds[0]) >= 0);
        assert(forall|k: int| 0 <= k < ds.drop_first().len() ==> is_dec(#[trigger] ds.drop_first()[k]));
        lemma_digits_fold_lower(acc * 10 + dec_val(ds[0]), ds.drop_first());
    }
}

/// Parsing a maximal digit run returns its fold and stops at its end.
pub proof fn lemma_p_digits_run(s: Seq<char>, i: int, acc: int, max: int, ds: Seq<char>)
    requires
        at_pos(s, i, ds),
        forall|k: int| 0 <= k < ds.len() ==> is_dec(#[trigger] ds[k]),
        i + ds.len() == s.len() || !is_dec(s[i + ds.len()]),
        0 <= acc,
        digits_fold(acc, ds) <= max,
    ensures
        p_digits(s, i, acc, max) == Some((digits_fold(acc, ds), i + ds.len())),
    decreases ds.len(),
{
    if ds.len() == 0 {
        assert(i == s.len() || !is_dec(s[i]));
    } else {
        assert(s[i] == ds[0]);
        let d = dec_val(s[i]);
        assert(forall|k: int| 0 <= k < ds.drop_first().len() ==> is_dec(#[trigger] ds.drop_first()[k]));
        assert(at_pos(s, i + 1, ds.drop_first()));
        assert(digits_fold(acc * 10 + d, ds.drop_first()) == digits_fold(acc, ds));
        lemma_digits_fold_lower(acc * 10 + d, ds.drop_first());
        assert(acc * 10 + d <= max);
        lemma_p_digits_run(s, i + 1, acc * 10 + d, max, ds.drop_first());
    }
}

/// A single-character pattern pins down the character at its position.
pub proof fn lemma_at_pos_one(s: Seq<char>, i: int, c: char)
    requires
        at_pos(s, i, seq![c]),
    ensures
        s[i] == c,
{
    assert(s[i + 0] == seq![c][0]);
}

/// A pattern pins down each character it covers.
pub proof fn lemma_at_pos_index(s: Seq<char>, i: int, pat: Seq<char>, k: int)
    requires
        at_pos(s, i, pat),
        0 <= k < pat.len(),
    ensures
        s[i + k] == pat[k],
{
}

/// A pattern split into two parts occurs part by part.
pub proof fn lemma_at_pos_split(s: Seq<char>, i: int, a: Seq<char>, b: Seq<char>)
    requires
        at_pos(s, i, a + b),
    ensures
        at_pos(s, i, a),
        at_pos(s, i + a.len(), b),
{
    assert forall|k: int| 0 <= k < a.len() implies s[i + k] == #[trigger] a[k] by {
        assert((a + b)[k] == a[k]);
    }
    assert forall|k: int| 0 <= k < b.len() implies s[i + a.len() + k] == #[trigger] b[k] by {
        assert((a + b)[a.len() + k] == b[k]);
    }
}

/// Every character's code point is a Unicode scalar value.
pub proof fn lemma_char_bounds(c: char)
    ensures
        0 <= c as int <= 0x10FFFF,
{
}

/// The hexadecimal digit characters decode to the values they print.
pub proof fn lemma_hex_digit(x: int)
    requires
        0 <= x < 16,
    ensures
        is_hex(hex_digit(x)),
        hex_val(hex_digit(x)) == x,
{
}

/// Parsing the escaped body of `t` followed by a closing quote yields `t`
/// and consumes through the quote.
pub proof fn lemma_p_str_body_enc(s: Seq<char>, i: int, t: Seq<char>)
    requires
        at_pos(s, i, esc_seq(t) + seq!['"']),
    ensures
        p_str_body(s, i) == Some((t, i + esc_seq(t).len() + 1)),
    decreases t.len(),
{
    if t.len() == 0 {
        assert(s[i] == (esc_seq(t) + seq!['"'])[0]);
        assert(t =~= Seq::<char>::empty());
    } else {
        let c = t[0];
        let t2 = t.drop_first();
        assert(esc_seq(t) == esc_char(c) + esc_seq(t2));
        assert((esc_char(c) + esc_seq(t2)) + seq!['"'] =~= esc_char(c) + (esc_seq(t2)
            + seq!['"']));
        lemma_at_pos_split(s, i, esc_char(c), esc_seq(t2) + seq!['"']);
        let e = esc_char(c).len();
        lemma_p_str_body_enc(s, i + e, t2);
        if c == '"' {
            lemma_at_pos_index(s, i, esc_char(c), 0);
            lemma_at_pos_index(s, i, esc_char(c), 1);
            assert(s[i] == '\\' && s[i + 1] == '"');
            assert(seq!['"'] + t2 =~= t);
        } else if c == '\\' {
            lemma_at_pos_index(s, i, esc_char(c), 0);
            lemma_at_pos_index(s, i, esc_char(c), 1);
            assert(s[i] == '\\' && s[i + 1] == '\\');
            assert(seq!['\\'] + t2 =~= t);
        } else if (c as int) < 0x20 {
            lemma_char_bounds(c);
            let hi = (c as int) / 16;
            let lo = (c as int) % 16;
            lemma_at_pos_index(s, i, esc_char(c), 0);
            lemma_at_pos_index(s, i, esc_char(c), 1);
            lemma_at_pos_index(s, i, esc_char(c), 2);
            lemma_at_pos_index(s, i, esc_char(c), 3);
            lemma_at_pos_index(s, i, esc_char(c), 4);
            lemma_at_pos_index(s, i, esc_char(c), 5);
            assert(s[i] == '\\' && s[i + 1] == 'u' && s[i + 2] == '0' && s[i + 3] == '0');
            assert(s[i + 4] == hex_digit(hi) && s[i + 5] == hex_digit(lo));
            assert(0 <= (c as int) / 16 < 16 && 0 <= (c as int) % 16 < 16) by (nonlinear_arith)
                requires
                    0 <= c as int,
                    (c as int) < 0x20,
            ;
            lemma_hex_digit(hi);
            lemma_hex_digit(lo);
            assert((c as int) / 16 * 16 + (c as int) % 16 == c as int) by (nonlinear_arith)
                requires
                    0 <= c as int,
            ;
            assert(hi * 16 + lo == c as int);
            assert(((c as int) as char) == c);
            assert(seq![c] + t2 =~= t);
        } else {
            lemma_at_pos_index(s, i, esc_char(c), 0);
            assert(s[i] == c);
            assert(seq![c] + t2 =~= t);
        }
    }
}

/// Every canonical encoding is nonempty and never begins with a structural
/// delimiter, so list parsing can tell an element from a closing bracket.
pub proof fn lemma_jenc_first(v: JsonSpec)
    ensures
        jenc(v).len() >= 1,
        jenc(v)[0] != ']' && jenc(v)[0] != '}' && jenc(v)[0] != ',' && jenc(v)[0] != ':',
{
    match v {
        JsonSpec::Null => {},
        JsonSpec::Str(t) => {
            assert(jenc(v)[0] == '"');
        },
        JsonSpec::Int(n) => {
            if n < 0 {
                assert(jenc(v)[0] == '-');
            } else {
                lemma_dec_str_digits(n as nat);
                assert(jenc(v)[0] == dec_str(n as nat)[0]);
                assert(is_dec(jenc(v)[0]));
            }
        },
        JsonSpec::Bool(b) => {},
        JsonSpec::Arr(items) => {
            assert(jenc(v)[0] == '[');
        },
        JsonSpec::Obj(entries) => {
            assert(jenc(v)[0] == '{');
        },
    }
}

/// Parsing at a canonical encoding returns exactly the encoded value,
/// provided no digit immediately follows it.
pub proof fn lemma_p_json_enc(s: Seq<char>, i: int, v: JsonSpec)
    requires
        json_wf(v),
        at_pos(s, i, jenc(v)),
        i + jenc(v).len() == s.len() || !is_dec(s[i + jenc(v).len()]),
    ensures
        p_json(s, i) == Some((v, i + jenc(v).len())),
    decreases v, 1int,
{
    lemma_jenc_first(v);
    broadcast use vstd::seq::group_seq_axioms;

    match v {
        JsonSpec::Null => {
            lemma_at_pos_index(s, i, jenc(v), 0);
            lemma_at_pos_index(s, i, jenc(v), 1);
            lemma_at_pos_index(s, i, jenc(v), 2);
            lemma_at_pos_index(s, i, jenc(v), 3);
            assert(s[i] == 'n' && s[i + 1] == 'u' && s[i + 2] == 'l' && s[i + 3] == 'l');
        },
        JsonSpec::Str(t) => {
            assert(enc_str(t) =~= seq!['"'] + (esc_seq(t) + seq!['"']));
            lemma_at_pos_split(s, i, seq!['"'], esc_seq(t) + seq!['"']);
            lemma_p_str_body_enc(s, i + 1, t);
            lemma_at_pos_one(s, i, '"');
            assert(s[i] == '"');
            assert(0 <= i < s.len());
            assert(p_str_body(s, i + 1) == Some((t, i + 1 + esc_seq(t).len() + 1)));
            assert(jenc(v).len() == esc_seq(t).len() + 2);
            assert(p_json(s, i) == Some((JsonSpec::Str(t), i + 1 + esc_seq(t).len() + 1)));
            assert(p_json(s, i) =~~= Some((v, i + jenc(v).len())));
        },
        JsonSpec::Int(n) => {
            if n < 0 {
                let m = (-n) as nat;
                assert(jenc(v) == seq!['-'] + dec_str(m));
                lemma_at_pos_split(s, i, seq!['-'], dec_str(m));
                lemma_dec_str_digits(m);
                lemma_at_pos_one(s, i, '-');
                assert(s[i] == '-');
                lemma_at_pos_index(s, i + 1, dec_str(m), 0);
                assert(s[i + 1] == dec_str(m)[0]);
                lemma_digits_fold_dec_str(0, m);
                assert(digits_fold(0, dec_str(m)) == m);
                lemma_p_digits_run(s, i + 1, 0, -(WIRE_INT_MIN as int), dec_str(m));
                assert(-(m as int) == n);
                assert(p_json(s, i) =~~= Some((v, i + jenc(v).len())));
            } else if n == 0 {
                assert(dec_str(0nat) =~= seq!['0']);
                lemma_at_pos_index(s, i, jenc(v), 0);
                assert(s[i] == '0');
                assert(p_json(s, i) =~~= Some((v, i + jenc(v).len())));
            } else {
                let m = n as nat;
                lemma_dec_str_digits(m);
                lemma_at_pos_index(s, i, dec_str(m), 0);
                assert(s[i] == dec_str(m)[0]);
                assert(is_dec(s[i]) && s[i] != '0');
                lemma_digits_fold_dec_str(0, m);
                lemma_p_digits_run(s, i, 0, WIRE_INT_MAX as int, dec_str(m));
                assert(p_json(s, i) =~~= Some((v, i + jenc(v).len())));
            }
        },
        JsonSpec::Bool(b) => {
            if b {
                lemma_at_pos_index(s, i, jenc(v), 0);
                lemma_at_pos_index(s, i, jenc(v), 1);
                lemma_at_pos_index(s, i, jenc(v), 2);
                lemma_at_pos_index(s, i, jenc(v), 3);
                assert(s[i] == 't' && s[i + 1] == 'r' && s[i + 2] == 'u' && s[i + 3] == 'e');
                assert(p_json(s, i) =~~= Some((v, i + jenc(v).len())));
            } else {
                lemma_at_pos_index(s, i, jenc(v), 0);
                lemma_at_pos_index(s, i, jenc(v), 1);
                lemma_at_pos_index(s, i, jenc(v), 2);
                lemma_at_pos_index(s, i, jenc(v), 3);
                lemma_at_pos_index(s, i, jenc(v), 4);
                assert(s[i] == 'f' && s[i + 1] == 'a' && s[i + 2] == 'l' && s[i + 3] == 's'
                    && s[i + 4] == 'e');
                assert(p_json(s, i) =~~= Some((v, i + jenc(v).len())));
            }
        },
        JsonSpec::Arr(items) => {
            lemma_at_pos_index(s, i, jenc(v), 0);
            assert(s[i] == '[');
            if items.len() == 0 {
                assert(jenc(v) =~= seq!['[', ']']);
                lemma_at_pos_index(s, i, jenc(v), 1);
                assert(s[i + 1] == ']');
                assert(items =~= Seq::<JsonSpec>::empty());
                assert(p_json(s, i) =~~= Some((v, i + jenc(v).len())));
            } else {
                assert(jenc(v) =~= seq!['['] + (jenc_items(items) + seq![']']));
                lemma_at_pos_split(s, i, seq!['['], jenc_items(items) + seq![']']);
                lemma_jenc_first(items[0]);
                assert(jenc_items(items)[0] == jenc(items[0])[0]) by {
                    if items.len() > 1 {
                        assert(jenc_items(items)[0] == (jenc(items[0]) + seq![',']
                            + jenc_items(items.drop_first()))[0]);
                    }
                }
                assert(s[i + 1] == jenc_items(items)[0]) by {
                    assert((jenc_items(items) + seq![']'])[0] == jenc_items(items)[0]);
                }
                assert(s[i + 1] != ']');
                lemma_p_items_enc(s, i + 1, items);
                assert(p_json(s, i) =~~= Some((v, i + jenc(v).len())));
            }
        },
        JsonSpec::Obj(entries) => {
            lemma_at_pos_index(s, i, jenc(v), 0);
            assert(s[i] == '{');
            if entries.len() == 0 {
                assert(jenc(v) =~= seq!['{', '}']);
                lemma_at_pos_index(s, i, jenc(v), 1);
                assert(s[i + 1] == '}');
                assert(entries =~= Seq::<(Seq<char>, JsonSpec)>::empty());
                assert(p_json(s, i) =~~= Some((v, i + jenc(v).len())));
            } else {
                assert(jenc(v) =~= seq!['{'] + (jenc_entries(entries) + seq!['}']));
                lemma_at_pos_split(s, i, seq!['{'], jenc_entries(entries) + seq!['}']);
                assert(jenc_entries(entries)[0] == '"') by {
                    let e0 = enc_str(entries[0].0);
                    assert(e0[0] == '"');
                    if entries.len() == 1 {
                        assert(jenc_entries(entries)[0] == (e0 + seq![':'] + jenc(
                            entries[0].1,
                        ))[0]);
                    } else {
                        assert(jenc_entries(entries)[0] == (e0 + seq![':'] + jenc(entries[0].1)
                            + seq![','] + jenc_entries(entries.drop_first()))[0]);
                    }
                }
                assert(s[i + 1] == jenc_entries(entries)[0]) by {
                    assert((jenc_entries(entries) + seq!['}'])[0] == jenc_entries(entries)[0]);
                }
                assert(s[i + 1] != '}');
                lemma_p_entries_enc(s, i + 1, entries);
                assert(p_json(s, i) =~~= Some((v, i + jenc(v).len())));
            }
        },
    }
}

/// Parsing at the encoded items of a nonempty array, terminator included,
/// returns exactly those items.
pub proof fn lemma_p_items_enc(s: Seq<char>, i: int, items: Seq<JsonSpec>)
    requires
        items.len() >= 1,
        forall|k: int| 0 <= k < items.len() ==> json_wf(#[trigger] items[k]),
        at_pos(s, i, jenc_items(items) + seq![']']),
    ensures
        p_items(s, i) == Some((items, i + jenc_items(items).len() + 1)),
    decreases items, 2int,
{
    let v0 = items[0];
    lemma_jenc_first(v0);
    if items.len() == 1 {
        assert(jenc_items(items) == jenc(v0));
        assert(jenc(v0) + seq![']'] =~= jenc_items(items) + seq![']']);
        lemma_at_pos_split(s, i, jenc(v0), seq![']']);
        let j = i + jenc(v0).len();
        lemma_at_pos_one(s, j, ']');
        assert(s[j] == ']');
        lemma_p_json_enc(s, i, v0);
        assert(seq![v0] =~= items);
    } else {
        let rest = items.drop_first();
        assert(jenc_items(items) == jenc(v0) + seq![','] + jenc_items(rest));
        assert(jenc_items(items) + seq![']'] =~= jenc(v0) + (seq![','] + (jenc_items(rest)
            + seq![']'])));
        lemma_at_pos_split(s, i, jenc(v0), seq![','] + (jenc_items(rest) + seq![']']));
        let j = i + jenc(v0).len();
        lemma_at_pos_split(s, j, seq![','], jenc_items(rest) + seq![']']);
        lemma_at_pos_one(s, j, ',');
        assert(s[j] == ',');
        lemma_p_json_enc(s, i, v0);
        assert(forall|k: int| 0 <= k < rest.len() ==> json_wf(#[trigger] rest[k]));
        lemma_p_items_enc(s, j + 1, rest);
        assert(seq![v0] + rest =~= items);
    }
}

/// Parsing at the encoded entries of a nonempty object, terminator included,
/// returns exactly those entries.
pub proof fn lemma_p_entries_enc(s: Seq<char>, i: int, entries: Seq<(Seq<char>, JsonSpec)>)
    requires
        entries.len() >= 1,
        forall|k: int| 0 <= k < entries.len() ==> json_wf(#[trigger] entries[k].1),
        at_pos(s, i, jenc_entries(entries) + seq!['}']),
    ensures
        p_entries(s, i) == Some((entries, i + jenc_entries(entries).len() + 1)),
    decreases entries, 2int,
{
    let key = entries[0].0;
    let v0 = entries[0].1;
    lemma_jenc_first(v0);
    assert(enc_str(key) =~= seq!['"'] + (esc_seq(key) + seq!['"']));
    if entries.len() == 1 {
        assert(jenc_entries(entries) == enc_str(key) + seq![':'] + jenc(v0));
        assert(jenc_entries(entries) + seq!['}'] =~= (seq!['"'] + (esc_seq(key) + seq!['"']))
            + (seq![':'] + (jenc(v0) + seq!['}'])));
        lemma_at_pos_split(s, i, seq!['"'] + (esc_seq(key) + seq!['"']), seq![':'] + (jenc(v0)
            + seq!['}']));
        lemma_at_pos_split(s, i, seq!['"'], esc_seq(key) + seq!['"']);
        lemma_p_str_body_enc(s, i + 1, key);
        lemma_at_pos_one(s, i, '"');
        assert(s[i] == '"');
        let j = i + 1 + esc_seq(key).len() + 1;
        assert(j == i + enc_str(key).len());
        lemma_at_pos_split(s, j, seq![':'], jenc(v0) + seq!['}']);
        lemma_at_pos_one(s, j, ':');
        assert(s[j] == ':');
        lemma_at_pos_split(s, j + 1, jenc(v0), seq!['}']);
        let k = j + 1 + jenc(v0).len();
        lemma_at_pos_one(s, k, '}');
        assert(s[k] == '}');
        lemma_p_json_enc(s, j + 1, v0);
        assert(seq![(key, v0)] =~= entries);
    } else {
        let rest = entries.drop_first();
        assert(jenc_entries(entries) == enc_str(key) + seq![':'] + jenc(v0) + seq![',']
            + jenc_entries(rest));
        assert(jenc_entries(entries) + seq!['}'] =~= (seq!['"'] + (esc_seq(key) + seq!['"']))
            + (seq![':'] + (jenc(v0) + (seq![','] + (jenc_entries(rest) + seq!['}'])))));
        lemma_at_pos_split(s, i, seq!['"'] + (esc_seq(key) + seq!['"']), seq![':'] + (jenc(v0)
            + (seq![','] + (jenc_entries(rest) + seq!['}']))));
        lemma_at_pos_split(s, i, seq!['"'], esc_seq(key) + seq!['"']);
        lemma_p_str_body_enc(s, i + 1, key);
        lemma_at_pos_one(s, i, '"');
        assert(s[i] == '"');
        let j = i + 1 + esc_seq(key).len() + 1;
        assert(j == i + enc_str(key).len());
        lemma_at_pos_split(s, j, seq![':'], jenc(v0) + (seq![','] + (jenc_entries(rest)
            + seq!['}'])));
        lemma_at_pos_one(s, j, ':');
        assert(s[j] == ':');
        lemma_at_pos_split(s, j + 1, jenc(v0), seq![','] + (jenc_entries(rest) + seq!['}']));
        let k = j + 1 + jenc(v0).len();
        lemma_at_pos_split(s, k, seq![','], jenc_entries(rest) + seq!['}']);
        lemma_at_pos_one(s, k, ',');
        assert(s[k] == ',');
        lemma_p_json_enc(s, j + 1, v0);
        assert(forall|m: int| 0 <= m < rest.len() ==> json_wf(#[trigger] rest[m].1));
        lemma_p_entries_enc(s, k + 1, rest);
        assert(seq![(key, v0)] + rest =~= entries);
    }
}

/// Round trip at the level of wire values: parsing a canonical encoding from
/// the start yields the encoded value and consumes the whole text.
pub proof fn lemma_p_json_round_trip(v: JsonSpec)
    requires
        json_wf(v),
    ensures
        p_json(jenc(v), 0) == Some((v, jenc(v).len() as int)),
{
    lemma_p_json_enc(jenc(v), 0, v);
}

/// Canonical encodings are uniquely decodable: equal encodings come from
/// equal wire values.
pub proof fn lemma_jenc_injective(a: JsonSpec, b: JsonSpec)
    requires
        json_wf(a),
        json_wf(b),
        jenc(a) == jenc(b),
    ensures
        a == b,
{
    lemma_p_json_round_trip(a);
    lemma_p_json_round_trip(b);
}

// ---------------------------------------------------------------------------
// Executable wire values
// ---------------------------------------------------------------------------

/// One `key: value` entry of an executable wire object.
pub struct JsonEntry {
    pub key: String,
    pub val: JsonVal,
}

/// Executable wire value. Negative integers carry their magnitude.
pub enum JsonVal {
    Null,
    Str(String),
    UInt(u64),
    NegInt(u64),
    Bool(bool),
    Arr(Vec<JsonVal>),
    Obj(Vec<JsonEntry>),
}

impl JsonVal {
    /// The wire value this executable value stands for.
    pub open spec fn dv(self) -> JsonSpec
        decreases self,
    {
        match self {
            JsonVal::Null => JsonSpec::Null,
            JsonVal::Str(s) => JsonSpec::Str(s@),
            JsonVal::UInt(m) => JsonSpec::Int(m as int),
            JsonVal::NegInt(m) => JsonSpec::Int(-(m as int)),
            JsonVal::Bool(b) => JsonSpec::Bool(b),
            JsonVal::Arr(items) => JsonSpec::Arr(
                Seq::new(
                    items@.len(),
                    |k: int|
                        if 0 <= k < items@.len() {
                            items@[k].dv()
                        } else {
                            JsonSpec::Bool(false)
                        },
                ),
            ),
            JsonVal::Obj(entries) => JsonSpec::Obj(
                Seq::new(
                    entries@.len(),
                    |k: int|
                        if 0 <= k < entries@.len() {
                            (entries@[k].key@, entries@[k].val.dv())
                        } else {
                            (Seq::<char>::empty(), JsonSpec::Bool(false))
                        },
                ),
            ),
        }
    }

    /// Magnitude bound that keeps a negative value inside the wire range.
    pub open spec fn wf(self) -> bool
        decreases self,
    {
        match self {
            JsonVal::Null => true,
            JsonVal::Str(_) => true,
            JsonVal::UInt(_) => true,
            JsonVal::NegInt(m) => 1 <= m <= 0x8000_0000_0000_0000u64,
            JsonVal::Bool(_) => true,
            JsonVal::Arr(items) => forall|k: int|
                0 <= k < items@.len() ==> (#[trigger] items@[k]).wf(),
            JsonVal::Obj(entries) => forall|k: int|
                0 <= k < entries@.len() ==> (#[trigger] entries@[k]).val.wf(),
        }
    }
}

/// A well-formed executable value models a well-formed wire value.
pub proof fn lemma_wf_dv(v: JsonVal)
    requires
        v.wf(),
    ensures
        json_wf(v.dv()),
    decreases v,
{
    match v {
        JsonVal::Arr(items) => {
            assert forall|k: int| 0 <= k < items@.len() implies json_wf(
                #[trigger] v.dv()->Arr_0[k],
            ) by {
                lemma_wf_dv(items@[k]);
            }
        },
        JsonVal::Obj(entries) => {
            assert forall|k: int| 0 <= k < entries@.len() implies json_wf(
                #[trigger] v.dv()->Obj_0[k].1,
            ) by {
                lemma_wf_dv(entries@[k].val);
            }
        },
        _ => {},
    }
}

/// Relies on `String::push`: appends the one character to the string.
#[verifier::external_body]
fn push_char(s: &mut String, c: char)
    ensures
        final(s)@ == old(s)@.push(c),
{
    s.push(c);
}

/// Decimal digit characters printed by `fmt_u128`.
fn push_dec_digit(out: &mut String, d: u128)
    requires
        d < 10,
    ensures
        final(out)@ == old(out)@.push(dec_digit(d as int)),
{
    if d == 0 { push_char(out, '0') } else if d == 1 { push_char(out, '1') }
    else if d == 2 { push_char(out, '2') } else if d == 3 { push_char(out, '3') }
    else if d == 4 { push_char(out, '4') } else if d == 5 { push_char(out, '5') }
    else if d == 6 { push_char(out, '6') } else if d == 7 { push_char(out, '7') }
    else if d == 8 { push_char(out, '8') } else { push_char(out, '9') }
}

/// Appends the canonical decimal digits of `m` to `out`.
pub fn fmt_u128(m: u128, out: &mut String)
    ensures
        final(out)@ == old(out)@ + dec_str(m as nat),
    decreases m,
{
    if m < 10 {
        push_dec_digit(out, m);
        proof {
            assert(old(out)@ + dec_str(m as nat) =~= old(out)@.push(dec_digit(m as int)));
        }
    } else {
        fmt_u128(m / 10, out);
        push_dec_digit(out, m % 10);
        proof {
            assert(old(out)@ + dec_str(m as nat) =~= (old(out)@ + dec_str((m / 10) as nat)).push(
                dec_digit((m % 10) as int),
            ));
        }
    }
}

/// Lowercase hexadecimal digit characters used in control escapes.
fn push_hex_digit(out: &mut String, d: u32)
    requires
        d < 16,
    ensures
        final(out)@ == old(out)@.push(hex_digit(d as int)),
{
    if d == 0 { push_char(out, '0') } else if d == 1 { push_char(out, '1') }
    else if d == 2 { push_char(out, '2') } else if d == 3 { push_char(out, '3') }
    else if d == 4 { push_char(out, '4') } else if d == 5 { push_char(out, '5') }
    else if d == 6 { push_char(out, '6') } else if d == 7 { push_char(out, '7') }
    else if d == 8 { push_char(out, '8') } else if d == 9 { push_char(out, '9') }
    else if d == 10 { push_char(out, 'a') } else if d == 11 { push_char(out, 'b') }
    else if d == 12 { push_char(out, 'c') } else if d == 13 { push_char(out, 'd') }
    else if d == 14 { push_char(out, 'e') } else { push_char(out, 'f') }
}

/// Escaping distributes over extending the string by one character.
proof fn lemma_esc_seq_snoc(t: Seq<char>, c: char)
    ensures
        esc_seq(t.push(c)) == esc_seq(t) + esc_char(c),
    decreases t.len(),
{
    if t.len() == 0 {
        assert(t.push(c) =~= seq![c]);
        assert(t.push(c).drop_first() =~= Seq::<char>::empty());
        assert(esc_seq(t.push(c).drop_first()) =~= Seq::<char>::empty());
        assert(esc_seq(t.push(c)) == esc_char(t.push(c)[0]) + esc_seq(t.push(c).drop_first()));
        assert(t.push(c)[0] == c);
        assert(esc_seq(t.push(c)) =~= esc_char(c));
        assert(esc_seq(t) + esc_char(c) =~= esc_char(c));
    } else {
        assert(t.push(c).drop_first() =~= t.drop_first().push(c));
        assert(t.push(c)[0] == t[0]);
        lemma_esc_seq_snoc(t.drop_first(), c);
        assert(esc_seq(t.push(c)) == esc_char(t[0]) + (esc_seq(t.drop_first()) + esc_char(c)));
        assert(esc_char(t[0]) + (esc_seq(t.drop_first()) + esc_char(c)) =~= (esc_char(t[0])
            + esc_seq(t.drop_first())) + esc_char(c));
    }
}

/// Appends the escaped form of `c` to `out`.
fn emit_escaped_char(out: &mut String, c: char)
    ensures
        final(out)@ == old(out)@ + esc_char(c),
{
    if c == '"' {
        push_char(out, '\\');
        push_char(out, '"');
        proof {
            assert(old(out)@ + esc_char(c) =~= old(out)@.push('\\').push('"'));
        }
    } else if c == '\\' {
        push_char(out, '\\');
        push_char(out, '\\');
        proof {
            assert(old(out)@ + esc_char(c) =~= old(out)@.push('\\').push('\\'));
        }
    } else if (c as u32) < 0x20 {
        let n = c as u32;
        push_char(out, '\\');
        push_char(out, 'u');
        push_char(out, '0');
        push_char(out, '0');
        push_hex_digit(out, n / 16);
        push_hex_digit(out, n % 16);
        proof {
            assert(n as int == c as int);
            assert(0 <= (c as int) / 16 < 16 && 0 <= (c as int) % 16 < 16) by (nonlinear_arith)
                requires
                    0 <= c as int,
                    (c as int) < 0x20,
            ;
            assert((n / 16) as int == (c as int) / 16 && (n % 16) as int == (c as int) % 16);
            assert(old(out)@ + esc_char(c) =~= old(out)@.push('\\').push('u').push('0').push(
                '0',
            ).push(hex_digit((c as int) / 16)).push(hex_digit((c as int) % 16)));
        }
    } else {
        push_char(out, c);
        proof {
            assert(old(out)@ + esc_char(c) =~= old(out)@.push(c));
        }
    }
}

/// Appends the canonical string literal for `t`, quotes included.
pub fn emit_string_literal(t: &str, out: &mut String)
    ensures
        final(out)@ == old(out)@ + enc_str(t@),
{
    let n = t.unicode_len();
    push_char(out, '"');
    let mut i: usize = 0;
    while i < n
        invariant
            n == t@.len(),
            0 <= i <= n,
            out@ == old(out)@.push('"') + esc_seq(t@.subrange(0, i as int)),
        decreases n - i,
    {
        let c = t.get_char(i);
        emit_escaped_char(out, c);
        proof {
            assert(t@.subrange(0, i + 1) =~= t@.subrange(0, i as int).push(t@[i as int]));
            lemma_esc_seq_snoc(t@.subrange(0, i as int), t@[i as int]);
        }
        i = i + 1;
    }
    push_char(out, '"');
    proof {
        assert(t@.subrange(0, n as int) =~= t@);
        assert(old(out)@ + enc_str(t@) =~= (old(out)@.push('"') + esc_seq(t@)).push('"'));
    }
}

/// Item encoding distributes over extending the items by one value.
proof fn lemma_jenc_items_snoc(items: Seq<JsonSpec>, x: JsonSpec)
    ensures
        items.len() == 0 ==> jenc_items(items.push(x)) == jenc(x),
        items.len() > 0 ==> jenc_items(items.push(x)) == jenc_items(items) + seq![','] + jenc(x),
    decreases items.len(),
{
    let p = items.push(x);
    if items.len() == 0 {
        assert(p =~= seq![x]);
        assert(jenc_items(p) == jenc(p[0]));
        assert(p[0] == x);
    } else if items.len() == 1 {
        assert(p.len() == 2);
        assert(p.drop_first() =~= seq![x]);
        assert(jenc_items(p) == jenc(p[0]) + seq![','] + jenc_items(p.drop_first()));
        assert(jenc_items(p.drop_first()) == jenc(x));
        assert(p[0] == items[0]);
        assert(jenc_items(items) == jenc(items[0]));
    } else {
        assert(p.drop_first() =~= items.drop_first().push(x));
        lemma_jenc_items_snoc(items.drop_first(), x);
        assert(p[0] == items[0]);
        assert(jenc_items(p) == jenc(items[0]) + seq![','] + (jenc_items(items.drop_first())
            + seq![','] + jenc(x)));
        assert(jenc_items(items) == jenc(items[0]) + seq![','] + jenc_items(items.drop_first()));
        assert(jenc(items[0]) + seq![','] + (jenc_items(items.drop_first()) + seq![','] + jenc(x))
            =~= (jenc(items[0]) + seq![','] + jenc_items(items.drop_first())) + seq![','] + jenc(
            x,
        ));
    }
}

/// Entry encoding distributes over extending the entries by one entry.
proof fn lemma_jenc_entries_snoc(entries: Seq<(Seq<char>, JsonSpec)>, e: (Seq<char>, JsonSpec))
    ensures
        entries.len() == 0 ==> jenc_entries(entries.push(e)) == enc_str(e.0) + seq![':'] + jenc(
            e.1,
        ),
        entries.len() > 0 ==> jenc_entries(entries.push(e)) == jenc_entries(entries) + seq![',']
            + (enc_str(e.0) + seq![':'] + jenc(e.1)),
    decreases entries.len(),
{
    let p = entries.push(e);
    if entries.len() == 0 {
        assert(p =~= seq![e]);
        assert(jenc_entries(p) == enc_str(p[0].0) + seq![':'] + jenc(p[0].1));
        assert(p[0] == e);
    } else if entries.len() == 1 {
        assert(p.len() == 2);
        assert(p.drop_first() =~= seq![e]);
        assert(jenc_entries(p) == enc_str(p[0].0) + seq![':'] + jenc(p[0].1) + seq![',']
            + jenc_entries(p.drop_first()));
        assert(jenc_entries(p.drop_first()) == enc_str(e.0) + seq![':'] + jenc(e.1));
        assert(p[0] == entries[0]);
        assert(jenc_entries(entries) == enc_str(entries[0].0) + seq![':'] + jenc(entries[0].1));
        assert(enc_str(entries[0].0) + seq![':'] + jenc(entries[0].1) + seq![','] + (enc_str(e.0)
            + seq![':'] + jenc(e.1)) =~= enc_str(entries[0].0) + seq![':'] + jenc(entries[0].1)
            + seq![','] + jenc_entries(p.drop_first()));
    } else {
        assert(p.drop_first() =~= entries.drop_first().push(e));
        lemma_jenc_entries_snoc(entries.drop_first(), e);
        assert(p[0] == entries[0]);
        let head = enc_str(entries[0].0) + seq![':'] + jenc(entries[0].1);
        assert(jenc_entries(p) == head + seq![','] + (jenc_entries(entries.drop_first())
            + seq![','] + (enc_str(e.0) + seq![':'] + jenc(e.1))));
        assert(jenc_entries(entries) == head + seq![','] + jenc_entries(entries.drop_first()));
        assert(head + seq![','] + (jenc_entries(entries.drop_first()) + seq![','] + (enc_str(e.0)
            + seq![':'] + jenc(e.1))) =~= (head + seq![','] + jenc_entries(entries.drop_first()))
            + seq![','] + (enc_str(e.0) + seq![':'] + jenc(e.1)));
    }
}

/// Appends the canonical encoding of `v` to `out`.
pub fn json_emit_into(v: &JsonVal, out: &mut String)
    requires
        v.wf(),
    ensures
        final(out)@ == old(out)@ + jenc(v.dv()),
    decreases v,
{
    match v {
        JsonVal::Null => {
            out.append("null");
            proof {
                reveal_strlit("null");
                assert("null"@ =~= seq!['n', 'u', 'l', 'l']);
            }
        },
        JsonVal::Str(s) => {
            emit_string_literal(s.as_str(), out);
        },
        JsonVal::UInt(m) => {
            fmt_u128(*m as u128, out);
            proof {
                assert(jenc(v.dv()) == dec_str(*m as nat));
            }
        },
        JsonVal::NegInt(m) => {
            push_char(out, '-');
            fmt_u128(*m as u128, out);
            proof {
                assert(jenc(v.dv()) == seq!['-'] + dec_str(*m as nat));
                assert(old(out)@ + (seq!['-'] + dec_str(*m as nat)) =~= old(out)@.push('-')
                    + dec_str(*m as nat));
            }
        },
        JsonVal::Bool(b) => {
            if *b {
                out.append("true");
                proof {
                    reveal_strlit("true");
                    assert("true"@ =~= seq!['t', 'r', 'u', 'e']);
                }
            } else {
                out.append("false");
                proof {
                    reveal_strlit("false");
                    assert("false"@ =~= seq!['f', 'a', 'l', 's', 'e']);
                }
            }
        },
        JsonVal::Arr(items) => {
            let ghost dvs = v.dv()->Arr_0;
            push_char(out, '[');
            let n = items.len();
            let mut k: usize = 0;
            while k < n
                invariant
                    v.wf(),
                    v is Arr,
                    items == v->Arr_0,
                    dvs == v.dv()->Arr_0,
                    n == items@.len(),
                    0 <= k <= n,
                    out@ == old(out)@.push('[') + jenc_items(dvs.subrange(0, k as int)),
                decreases n - k,
            {
                proof {
                    assert(items@[k as int].wf());
                    assert(dvs[k as int] == items@[k as int].dv());
                }
                if k > 0 {
                    push_char(out, ',');
                    json_emit_into(&items[k], out);
                    proof {
                        assert(dvs.subrange(0, k as int).len() > 0);
                        assert(dvs.subrange(0, k + 1) =~= dvs.subrange(0, k as int).push(
                            dvs[k as int],
                        ));
                        lemma_jenc_items_snoc(dvs.subrange(0, k as int), dvs[k as int]);
                        assert((old(out)@.push('[') + jenc_items(dvs.subrange(0, k as int))).push(
                            ',',
                        ) + jenc(dvs[k as int]) =~= old(out)@.push('[') + (jenc_items(
                            dvs.subrange(0, k as int),
                        ) + seq![','] + jenc(dvs[k as int])));
                    }
                } else {
                    json_emit_into(&items[k], out);
                    proof {
                        assert(dvs.subrange(0, 0) =~= Seq::<JsonSpec>::empty());
                        assert(dvs.subrange(0, 1) =~= seq![dvs[0]]);
                        assert(jenc_items(dvs.subrange(0, 0)) =~= Seq::<char>::empty());
                        assert(old(out)@.push('[') + Seq::<char>::empty() =~= old(out)@.push(
                            '[',
                        ));
                        assert(jenc_items(seq![dvs[0]]) == jenc(dvs[0]));
                        assert(old(out)@.push('[') + jenc(dvs[0]) =~= old(out)@.push('[')
                            + jenc_items(dvs.subrange(0, 1)));
                    }
                }
                k = k + 1;
            }
            push_char(out, ']');
            proof {
                assert(dvs.subrange(0, n as int) =~= dvs);
                assert(old(out)@ + jenc(v.dv()) =~= (old(out)@.push('[') + jenc_items(dvs)).push(
                    ']',
                ));
            }
        },
        JsonVal::Obj(entries) => {
            let ghost dvs = v.dv()->Obj_0;
            push_char(out, '{');
            let n = entries.len();
            let mut k: usize = 0;
            while k < n
                invariant
                    v.wf(),
                    v is Obj,
                    entries == v->Obj_0,
                    dvs == v.dv()->Obj_0,
                    n == entries@.len(),
                    0 <= k <= n,
                    out@ == old(out)@.push('{') + jenc_entries(dvs.subrange(0, k as int)),
                decreases n - k,
            {
                proof {
                    assert(entries@[k as int].val.wf());
                    assert(dvs[k as int] == (entries@[k as int].key@, entries@[k as int].val.dv()));
                }
                let ghost pre = out@;
                if k > 0 {
                    push_char(out, ',');
                }
                emit_string_literal(entries[k].key.as_str(), out);
                push_char(out, ':');
                json_emit_into(&entries[k].val, out);
                proof {
                    let e = dvs[k as int];
                    let piece = enc_str(e.0) + seq![':'] + jenc(e.1);
                    if k > 0 {
                        assert(out@ =~= pre.push(',') + enc_str(e.0) + seq![':'] + jenc(e.1));
                        assert(out@ =~= pre + (seq![','] + piece));
                        assert(dvs.subrange(0, k as int).len() > 0);
                        lemma_jenc_entries_snoc(dvs.subrange(0, k as int), e);
                        assert(dvs.subrange(0, k + 1) =~= dvs.subrange(0, k as int).push(e));
                        assert(pre + (seq![','] + piece) =~= old(out)@.push('{') + (jenc_entries(
                            dvs.subrange(0, k as int),
                        ) + seq![','] + piece));
                    } else {
                        assert(dvs.subrange(0, 0) =~= Seq::<(Seq<char>, JsonSpec)>::empty());
                        assert(jenc_entries(dvs.subrange(0, 0)) =~= Seq::<char>::empty());
                        assert(pre =~= old(out)@.push('{'));
                        assert(out@ =~= pre + enc_str(e.0) + seq![':'] + jenc(e.1));
                        assert(dvs.subrange(0, 1) =~= seq![e]);
                        assert(jenc_entries(seq![e]) == piece);
                        assert(out@ =~= old(out)@.push('{') + jenc_entries(dvs.subrange(0, 1)));
                    }
                }
                k = k + 1;
            }
            push_char(out, '}');
            proof {
                assert(dvs.subrange(0, n as int) =~= dvs);
                assert(old(out)@ + jenc(v.dv()) =~= (old(out)@.push('{') + jenc_entries(
                    dvs,
                )).push('}'));
            }
        },
    }
}

/// The canonical wire text of a well-formed executable value.
pub fn json_emit(v: &JsonVal) -> (out: String)
    requires
        v.wf(),
    ensures
        out@ == jenc(v.dv()),
{
    let mut out = String::new();
    json_emit_into(v, &mut out);
    proof {
        assert(Seq::<char>::empty() + jenc(v.dv()) =~= jenc(v.dv()));
    }
    out
}

// ---------------------------------------------------------------------------
// Executable parser
// ---------------------------------------------------------------------------

/// Wire values modelled by a sequence of executable values.
pub open spec fn dv_items(items: Seq<JsonVal>) -> Seq<JsonSpec> {
    Seq::new(items.len(), |k: int| if 0 <= k < items.len() { items[k].dv() } else { JsonSpec::Bool(false) })
}

/// Wire entries modelled by a sequence of executable entries.
pub open spec fn dv_entries(entries: Seq<JsonEntry>) -> Seq<(Seq<char>, JsonSpec)> {
    Seq::new(
        entries.len(),
        |k: int|
            if 0 <= k < entries.len() {
                (entries[k].key@, entries[k].val.dv())
            } else {
                (Seq::<char>::empty(), JsonSpec::Bool(false))
            },
    )
}

/// A digit run never parses to less than its starting accumulator, and never
/// moves backwards or past the end.
proof fn lemma_p_digits_lower(s: Seq<char>, i: int, acc: int, max: int)
    requires
        0 <= i <= s.len(),
        0 <= acc,
    ensures
        p_digits(s, i, acc, max) matches Some((v, j)) ==> v >= acc && i <= j <= s.len(),
    decreases s.len() - i,
{
    if 0 <= i < s.len() && is_dec(s[i]) {
        let d = dec_val(s[i]);
        if acc * 10 + d <= max {
            lemma_p_digits_lower(s, i + 1, acc * 10 + d, max);
        }
    }
}

/// Executable mirror of `p_digits`, on a 128-bit accumulator.
fn parse_digits_at(s: &str, n: usize, i: usize, acc: u128, max: u128) -> (r: Option<(u128, usize)>)
    requires
        n == s@.len(),
        i <= n,
        acc <= max,
    ensures
        r is None ==> p_digits(s@, i as int, acc as int, max as int) is None,
        r matches Some((v, j)) ==> p_digits(s@, i as int, acc as int, max as int) == Some(
            (v as int, j as int),
        ) && i <= j <= n && v <= max,
        i < n && is_dec(s@[i as int]) ==> (r matches Some((v, j)) ==> i < j),
    decreases n - i,
{
    if i < n {
        let c = s.get_char(i);
        let cu = c as u32;
        if 48 <= cu && cu <= 57 {
            proof {
                assert(cu as int == c as int);
                assert(is_dec(c));
            }
            let d = (cu - 48) as u128;
            proof {
                assert(d as int == dec_val(c));
                assert(d < 10);
            }
            if acc > max / 10 || (acc == max / 10 && d > max % 10) {
                proof {
                    assert((acc as int) * 10 + (d as int) > max as int) by (nonlinear_arith)
                        requires
                            (acc > max / 10 || (acc == max / 10 && d > max % 10)),
                            acc >= 0,
                            d < 10,
                            max >= 0,
                    ;
                }
                None
            } else {
                proof {
                    assert((acc as int) * 10 + (d as int) <= max as int) by (nonlinear_arith)
                        requires
                            acc <= max / 10,
                            (acc == max / 10 ==> d <= max % 10),
                            acc >= 0,
                            d < 10,
                            max >= 0,
                    ;
                }
                let acc2 = acc * 10 + d;
                parse_digits_at(s, n, i + 1, acc2, max)
            }
        } else {
            proof {
                assert(cu as int == c as int);
                assert(!is_dec(c));
            }
            Some((acc, i))
        }
    } else {
        Some((acc, i))
    }
}

/// Executable mirror of `p_str_body`.
fn parse_str_body_at(s: &str, n: usize, i: usize) -> (r: Option<(String, usize)>)
    requires
        n == s@.len(),
        i <= n,
    ensures
        r is None ==> p_str_body(s@, i as int) is None,
        r matches Some((t, j)) ==> p_str_body(s@, i as int) == Some((t@, j as int)) && i < j <= n,
    decreases n - i,
{
    if i >= n {
        return None;
    }
    let c = s.get_char(i);
    if c == '"' {
        let t = String::new();
        proof {
            assert(p_str_body(s@, i as int) == Some((Seq::<char>::empty(), i + 1)));
        }
        return Some((t, i + 1));
    }
    if c == '\\' {
        if n - i >= 2 {
            let e = s.get_char(i + 1);
            if e == '"' || e == '\\' {
                match parse_str_body_at(s, n, i + 2) {
                    None => {
                        return None;
                    },
                    Some((rest, j)) => {
                        let mut t = String::new();
                        push_char(&mut t, e);
                        t.append(rest.as_str());
                        proof {
                            assert(t@ =~= seq![e] + rest@);
                        }
                        return Some((t, j));
                    },
                }
            }
            if e == 'u' && n - i >= 6 {
                let c2 = s.get_char(i + 2);
                let c3 = s.get_char(i + 3);
                if c2 == '0' && c3 == '0' {
                    let h1 = s.get_char(i + 4);
                    let h2 = s.get_char(i + 5);
                    let h1u = h1 as u32;
                    let h2u = h2 as u32;
                    let ok1 = (48 <= h1u && h1u <= 57) || (97 <= h1u && h1u <= 102);
                    let ok2 = (48 <= h2u && h2u <= 57) || (97 <= h2u && h2u <= 102);
                    proof {
                        assert(h1u as int == h1 as int && h2u as int == h2 as int);
                        assert(ok1 == is_hex(h1) && ok2 == is_hex(h2));
                    }
                    if ok1 && ok2 {
                        let v1 = if h1u <= 57 { h1u - 48 } else { h1u - 97 + 10 };
                        let v2 = if h2u <= 57 { h2u - 48 } else { h2u - 97 + 10 };
                        proof {
                            assert(v1 as int == hex_val(h1) && v2 as int == hex_val(h2));
                        }
                        let code = v1 * 16 + v2;
                        if code < 0x20 {
                            let decoded = (code as u8) as char;
                            proof {
                                assert(decoded as int == code as int);
                                assert(decoded == ((hex_val(h1) * 16 + hex_val(h2)) as char));
                            }
                            match parse_str_body_at(s, n, i + 6) {
                                None => {
                                    return None;
                                },
                                Some((rest, j)) => {
                                    let mut t = String::new();
                                    push_char(&mut t, decoded);
                                    t.append(rest.as_str());
                                    proof {
                                        assert(t@ =~= seq![
                                            (hex_val(s@[i + 4]) * 16 + hex_val(
                                                s@[i + 5],
                                            )) as char,
                                        ] + rest@);
                                    }
                                    return Some((t, j));
                                },
                            }
                        } else {
                            return None;
                        }
                    } else {
                        return None;
                    }
                } else {
                    return None;
                }
            } else {
                return None;
            }
        } else {
            return None;
        }
    }
    let cu = c as u32;
    if cu >= 0x20 {
        proof {
            assert(cu as int == c as int);
        }
        match parse_str_body_at(s, n, i + 1) {
            None => None,
            Some((rest, j)) => {
                let mut t = String::new();
                push_char(&mut t, c);
                t.append(rest.as_str());
                proof {
                    assert(t@ =~= seq![c] + rest@);
                }
                Some((t, j))
            },
        }
    } else {
        proof {
            assert(cu as int == c as int);
        }
        None
    }
}

/// A successful digit run covers digits only and returns their fold.
proof fn lemma_p_digits_sound(s: Seq<char>, i: int, acc: int, max: int)
    requires
        0 <= i <= s.len(),
    ensures
        p_digits(s, i, acc, max) matches Some((v, j)) ==> {
            &&& i <= j <= s.len()
            &&& (forall|k: int| i <= k < j ==> is_dec(#[trigger] s[k]))
            &&& v == digits_fold(acc, s.subrange(i, j))
        },
    decreases s.len() - i,
{
    if 0 <= i < s.len() && is_dec(s[i]) {
        let d = dec_val(s[i]);
        if acc * 10 + d <= max {
            lemma_p_digits_sound(s, i + 1, acc * 10 + d, max);
            let r2 = p_digits(s, i + 1, acc * 10 + d, max);
            if r2 is Some {
                let j = r2->Some_0.1;
                assert(s.subrange(i, j).drop_first() =~= s.subrange(i + 1, j));
                assert(s.subrange(i, j)[0] == s[i]);
            }
        }
    } else {
        assert(s.subrange(i, i) =~= Seq::<char>::empty());
    }
}

/// Digit characters decode back to the digits that print them.
proof fn lemma_dec_digit_inverse(c: char)
    requires
        is_dec(c),
    ensures
        dec_digit(dec_val(c)) == c,
        0 <= dec_val(c) < 10,
{
}

/// A canonical digit string is reprinted exactly by its folded value.
proof fn lemma_dec_str_fold_inverse(ds: Seq<char>)
    requires
        ds.len() >= 1,
        forall|k: int| 0 <= k < ds.len() ==> is_dec(#[trigger] ds[k]),
        ds.len() == 1 || ds[0] != '0',
    ensures
        dec_str(digits_fold(0, ds) as nat) == ds,
        digits_fold(0, ds) >= 0,
        ds.len() > 1 ==> digits_fold(0, ds) >= 10,
    decreases ds.len(),
{
    lemma_digits_fold_lower(0, ds);
    if ds.len() == 1 {
        lemma_dec_digit_inverse(ds[0]);
        assert(ds.drop_first().len() == 0);
        assert(digits_fold(0 * 10 + dec_val(ds[0]), ds.drop_first()) == dec_val(ds[0]));
        assert(digits_fold(0, ds) == dec_val(ds[0]));
        assert(dec_str(dec_val(ds[0]) as nat) =~= seq![dec_digit(dec_val(ds[0]))]);
        assert(dec_str(digits_fold(0, ds) as nat) =~= ds);
    } else {
        let head = ds.subrange(0, ds.len() - 1);
        let d = ds[ds.len() - 1];
        assert(ds =~= head + seq![d]);
        lemma_digits_fold_snoc(0, head, d);
        lemma_dec_digit_inverse(d);
        assert(forall|k: int| 0 <= k < head.len() ==> is_dec(#[trigger] head[k]));
        lemma_dec_str_fold_inverse(head);
        let hv = digits_fold(0, head);
        assert(digits_fold(0, ds) == hv * 10 + dec_val(d));
        assert(hv >= 1) by {
            if head.len() == 1 {
                lemma_dec_digit_inverse(head[0]);
                assert(head[0] == ds[0]);
                assert(head[0] != '0');
                assert(dec_val(head[0]) >= 1);
                assert(head.drop_first().len() == 0);
                assert(digits_fold(0 * 10 + dec_val(head[0]), head.drop_first()) == dec_val(
                    head[0],
                ));
                assert(digits_fold(0, head) == dec_val(head[0]));
            }
        }
        assert(hv * 10 + dec_val(d) >= 10) by (nonlinear_arith)
            requires
                hv >= 1,
                dec_val(d) >= 0,
        ;
        let m = hv * 10 + dec_val(d);
        assert(m / 10 == hv && m % 10 == dec_val(d)) by (nonlinear_arith)
            requires
                m == hv * 10 + dec_val(d),
                0 <= dec_val(d) < 10,
                hv >= 0,
        ;
        assert(dec_str(m as nat) == dec_str(hv as nat) + seq![dec_digit(dec_val(d))]);
        assert(dec_str(m as nat) =~= ds);
    }
}

/// A string is exactly the canonical digits of a value when a bounded digit
/// parse consumes all of it and it has no leading zero.
pub proof fn lemma_canonical_digit_string(ds: Seq<char>, v: int, max: int)
    requires
        ds.len() >= 1,
        ds.len() == 1 || ds[0] != '0',
        p_digits(ds, 0, 0, max) == Some((v, ds.len() as int)),
    ensures
        v >= 0,
        ds == dec_str(v as nat),
{
    lemma_p_digits_sound(ds, 0, 0, max);
    assert(ds.subrange(0, ds.len() as int) =~= ds);
    lemma_dec_str_fold_inverse(ds);
    lemma_digits_fold_lower(0, ds);
}

/// Character-for-character equality of two strings.
pub fn str_eq(a: &str, b: &str) -> (r: bool)
    ensures
        r == (a@ == b@),
{
    let n = a.unicode_len();
    let m = b.unicode_len();
    if n != m {
        return false;
    }
    let mut i: usize = 0;
    while i < n
        invariant
            n == a@.len(),
            n == b@.len(),
            0 <= i <= n,
            forall|k: int| 0 <= k < i ==> a@[k] == b@[k],
        decreases n - i,
    {
        if a.get_char(i) != b.get_char(i) {
            return false;
        }
        i = i + 1;
    }
    proof {
        assert(a@ =~= b@);
    }
    true
}

/// Parses an entire string of decimal digits into a 128-bit value.
pub fn parse_u128_digits(s: &str, n: usize) -> (r: Option<u128>)
    requires
        n == s@.len(),
    ensures
        r matches Some(m) ==> p_digits(s@, 0, 0, u128::MAX as int) == Some((m as int, n as int)),
        r is None ==> (p_digits(s@, 0, 0, u128::MAX as int) matches Some((v, j)) ==> j != n),
{
    match parse_digits_at(s, n, 0, 0, u128::MAX) {
        None => None,
        Some((m, j)) => {
            if j == n {
                Some(m)
            } else {
                None
            }
        },
    }
}

/// Executable mirror of `p_json`.
pub fn parse_json_at(s: &str, n: usize, i: usize) -> (r: Option<(JsonVal, usize)>)
    requires
        n == s@.len(),
        i <= n,
    ensures
        r is None ==> p_json(s@, i as int) is None,
        r matches Some((v, j)) ==> p_json(s@, i as int) == Some((v.dv(), j as int)) && v.wf()
            && i < j <= n,
    decreases n - i, 0int,
{
    if i >= n {
        return None;
    }
    let c = s.get_char(i);
    if c == '"' {
        match parse_str_body_at(s, n, i + 1) {
            None => None,
            Some((t, j)) => {
                let v = JsonVal::Str(t);
                Some((v, j))
            },
        }
    } else if c == 't' {
        if n - i >= 4 && s.get_char(i + 1) == 'r' && s.get_char(i + 2) == 'u' && s.get_char(i + 3)
            == 'e' {
            Some((JsonVal::Bool(true), i + 4))
        } else {
            None
        }
    } else if c == 'f' {
        if n - i >= 5 && s.get_char(i + 1) == 'a' && s.get_char(i + 2) == 'l' && s.get_char(i + 3)
            == 's' && s.get_char(i + 4) == 'e' {
            Some((JsonVal::Bool(false), i + 5))
        } else {
            None
        }
    } else if c == 'n' {
        if n - i >= 4 && s.get_char(i + 1) == 'u' && s.get_char(i + 2) == 'l' && s.get_char(i + 3)
            == 'l' {
            Some((JsonVal::Null, i + 4))
        } else {
            None
        }
    } else if c == '-' {
        if n - i >= 2 {
            let d = s.get_char(i + 1);
            let du = d as u32;
            proof {
                assert(du as int == d as int);
            }
            if 49 <= du && du <= 57 {
                proof {
                    assert(is_dec(s@[i + 1]) && s@[i + 1] != '0');
                    assert((0x8000_0000_0000_0000u128) as int == -(WIRE_INT_MIN as int));
                    lemma_p_digits_lower(s@, i + 2, dec_val(s@[i + 1]), -(WIRE_INT_MIN as int));
                }
                match parse_digits_at(s, n, i + 1, 0, 0x8000_0000_0000_0000u128) {
                    None => None,
                    Some((m, j)) => {
                        proof {
                            assert(p_digits(
                                s@,
                                i + 1,
                                0,
                                -(WIRE_INT_MIN as int),
                            ) == p_digits(s@, i + 2, dec_val(s@[i + 1]), -(WIRE_INT_MIN as int)));
                            assert(m as int >= dec_val(s@[i + 1]));
                            assert(m >= 1);
                        }
                        let v = JsonVal::NegInt(m as u64);
                        proof {
                            assert(v.dv() == JsonSpec::Int(-(m as int)));
                            assert(v.wf());
                        }
                        Some((v, j))
                    },
                }
            } else {
                proof {
                    assert(!(is_dec(s@[i + 1]) && s@[i + 1] != '0'));
                }
                None
            }
        } else {
            None
        }
    } else if c == '0' {
        Some((JsonVal::UInt(0), i + 1))
    } else {
        let cu = c as u32;
        proof {
            assert(cu as int == c as int);
        }
        if 49 <= cu && cu <= 57 {
            proof {
                assert(is_dec(s@[i as int]));
                assert((0xffff_ffff_ffff_ffffu128) as int == WIRE_INT_MAX as int);
            }
            match parse_digits_at(s, n, i, 0, 0xffff_ffff_ffff_ffffu128) {
                None => None,
                Some((m, j)) => {
                    proof {
                        lemma_p_digits_lower(s@, i as int, 0, WIRE_INT_MAX as int);
                    }
                    let v = JsonVal::UInt(m as u64);
                    proof {
                        assert(v.dv() == JsonSpec::Int(m as int));
                    }
                    Some((v, j))
                },
            }
        } else if c == '[' {
            if n - i >= 2 && s.get_char(i + 1) == ']' {
                let v = JsonVal::Arr(Vec::new());
                proof {
                    assert(v.dv()->Arr_0 =~= Seq::<JsonSpec>::empty());
                    assert(v.dv() =~~= JsonSpec::Arr(Seq::empty()));
                }
                Some((v, i + 2))
            } else {
                match parse_items_at(s, n, i + 1) {
                    None => {
                        proof {
                            if n - i >= 2 {
                                assert(p_json(s@, i as int) is None);
                            }
                        }
                        None
                    },
                    Some((items, j)) => {
                        let v = JsonVal::Arr(items);
                        proof {
                            assert(v.dv()->Arr_0 =~= dv_items(v->Arr_0@));
                        }
                        Some((v, j))
                    },
                }
            }
        } else if c == '{' {
            if n - i >= 2 && s.get_char(i + 1) == '}' {
                let v = JsonVal::Obj(Vec::new());
                proof {
                    assert(v.dv()->Obj_0 =~= Seq::<(Seq<char>, JsonSpec)>::empty());
                    assert(v.dv() =~~= JsonSpec::Obj(Seq::empty()));
                }
                Some((v, i + 2))
            } else {
                match parse_entries_at(s, n, i + 1) {
                    None => {
                        proof {
                            if n - i >= 2 {
                                assert(p_json(s@, i as int) is None);
                            }
                        }
                        None
                    },
                    Some((entries, j)) => {
                        let v = JsonVal::Obj(entries);
                        proof {
                            assert(v.dv()->Obj_0 =~= dv_entries(v->Obj_0@));
                        }
                        Some((v, j))
                    },
                }
            }
        } else {
            None
        }
    }
}

/// Executable mirror of `p_items`.
fn parse_items_at(s: &str, n: usize, i: usize) -> (r: Option<(Vec<JsonVal>, usize)>)
    requires
        n == s@.len(),
        i <= n,
    ensures
        r is None ==> p_items(s@, i as int) is None,
        r matches Some((items, j)) ==> p_items(s@, i as int) == Some(
            (dv_items(items@), j as int),
        ) && i < j <= n && (forall|k: int| 0 <= k < items@.len() ==> (#[trigger] items@[k]).wf()),
    decreases n - i, 1int,
{
    if i >= n {
        return None;
    }
    match parse_json_at(s, n, i) {
        None => None,
        Some((v, j)) => {
            if j < n {
                let c = s.get_char(j);
                if c == ']' {
                    let mut items: Vec<JsonVal> = Vec::new();
                    items.push(v);
                    proof {
                        assert(dv_items(items@) =~= seq![items@[0].dv()]);
                    }
                    Some((items, j + 1))
                } else if c == ',' {
                    match parse_items_at(s, n, j + 1) {
                        None => None,
                        Some((rest, k)) => {
                            let mut items = rest;
                            items.insert(0, v);
                            proof {
                                assert(dv_items(items@) =~= seq![items@[0].dv()] + dv_items(
                                    items@.drop_first(),
                                ));
                                assert(items@.drop_first() =~= items@.subrange(
                                    1,
                                    items@.len() as int,
                                ));
                            }
                            Some((items, k))
                        },
                    }
                } else {
                    None
                }
            } else {
                None
            }
        },
    }
}

/// Executable mirror of `p_entries`.
fn parse_entries_at(s: &str, n: usize, i: usize) -> (r: Option<(Vec<JsonEntry>, usize)>)
    requires
        n == s@.len(),
        i <= n,
    ensures
        r is None ==> p_entries(s@, i as int) is None,
        r matches Some((entries, j)) ==> p_entries(s@, i as int) == Some(
            (dv_entries(entries@), j as int),
        ) && i < j <= n && (forall|k: int|
            0 <= k < entries@.len() ==> (#[trigger] entries@[k]).val.wf()),
    decreases n - i, 1int,
{
    if i >= n {
        return None;
    }
    let c0 = s.get_char(i);
    if c0 != '"' {
        return None;
    }
    match parse_str_body_at(s, n, i + 1) {
        None => None,
        Some((key, j)) => {
            if j < n && s.get_char(j) == ':' {
                match parse_json_at(s, n, j + 1) {
                    None => None,
                    Some((v, k)) => {
                        if k < n {
                            let c = s.get_char(k);
                            if c == '}' {
                                let mut entries: Vec<JsonEntry> = Vec::new();
                                entries.push(JsonEntry { key, val: v });
                                proof {
                                    assert(dv_entries(entries@) =~= seq![
                                        (entries@[0].key@, entries@[0].val.dv()),
                                    ]);
                                }
                                Some((entries, k + 1))
                            } else if c == ',' {
                                match parse_entries_at(s, n, k + 1) {
                                    None => None,
                                    Some((rest, m)) => {
                                        let mut entries = rest;
                                        entries.insert(0, JsonEntry { key, val: v });
                                        proof {
                                            assert(dv_entries(entries@) =~= seq![
                                                (entries@[0].key@, entries@[0].val.dv()),
                                            ] + dv_entries(entries@.drop_first()));
                                        }
                                        Some((entries, m))
                                    },
                                }
                            } else {
                                None
                            }
                        } else {
                            None
                        }
                    },
                }
            } else {
                None
            }
        },
    }
}

/// Parses a whole wire text into one value; anything but a complete canonical
/// encoding is rejected.
pub fn json_parse(s: &str) -> (r: Option<JsonVal>)
    ensures
        r matches Some(v) ==> v.wf() && p_json(s@, 0) == Some((v.dv(), s@.len() as int)),
        r is None ==> (p_json(s@, 0) matches Some((v, j)) ==> j != s@.len()),
{
    let n = s.unicode_len();
    match parse_json_at(s, n, 0) {
        None => None,
        Some((v, j)) => {
            if j == n {
                Some(v)
            } else {
                None
            }
        },
    }
}

} // verus!
