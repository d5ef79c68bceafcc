use vstd::prelude::*;

verus! {

/// The value of a run of decimal digits, most significant first.
pub open spec fn digits_value(s: Seq<char>) -> int
    decreases s.len(),
{
    if s.len() == 0 {
        0
    } else {
        digits_value(s.drop_last()) * 10 + (s.last() as int - '0' as int)
    }
}

pub open spec fn is_digit(c: char) -> bool {
    '0' <= c && c <= '9'
}

pub open spec fn all_digits(s: Seq<char>) -> bool {
    forall|i: int| 0 <= i < s.len() ==> is_digit(#[trigger] s[i])
}

/// The value of one hexadecimal digit of either case.
pub open spec fn hex_digit_value(c: char) -> int {
    if '0' <= c && c <= '9' {
        c as int - '0' as int
    } else if 'a' <= c && c <= 'f' {
        c as int - 'a' as int + 10
    } else {
        c as int - 'A' as int + 10
    }
}

pub open spec fn is_hex_digit(c: char) -> bool {
    ('0' <= c && c <= '9') || ('a' <= c && c <= 'f') || ('A' <= c && c <= 'F')
}

pub open spec fn hex_value(s: Seq<char>) -> int
    decreases s.len(),
{
    if s.len() == 0 {
        0
    } else {
        hex_value(s.drop_last()) * 16 + hex_digit_value(s.last())
    }
}

pub open spec fn all_hex(s: Seq<char>) -> bool {
    forall|i: int| 0 <= i < s.len() ==> is_hex_digit(#[trigger] s[i])
}

/// An optional sign followed by at least one digit of the given base,
/// read as a mathematical integer.
pub open spec fn signed_text_value(s: Seq<char>, hex: bool) -> Option<int> {
    let signed = s.len() > 0 && (s[0] == '-' || s[0] == '+');
    let body = if signed { s.subrange(1, s.len() as int) } else { s };
    let ok = body.len() > 0 && if hex { all_hex(body) } else { all_digits(body) };
    let magnitude = if hex { hex_value(body) } else { digits_value(body) };
    if !ok {
        None
    } else if signed && s[0] == '-' {
        Some(-magnitude)
    } else {
        Some(magnitude)
    }
}

/// What a numeric field reads as in 64 bits: the decimal value when it is
/// well formed and in range, otherwise zero.
pub open spec fn i64_field(s: Seq<char>) -> i64 {
    match signed_text_value(s, false) {
        Some(v) => if i64::MIN <= v <= i64::MAX { v as i64 } else { 0 },
        None => 0,
    }
}

/// Decimal text read as a 32-bit integer, if it is one.
pub open spec fn i32_text(s: Seq<char>) -> Option<i32> {
    match signed_text_value(s, false) {
        Some(v) => if i32::MIN <= v <= i32::MAX { Some(v as i32) } else { None },
        None => None,
    }
}

/// What a 32-bit numeric field reads as: zero when it is not a number.
pub open spec fn i32_field(s: Seq<char>) -> i32 {
    match i32_text(s) {
        Some(v) => v,
        None => 0,
    }
}

/// Hexadecimal text read as a 32-bit integer, or zero.
pub open spec fn hex_i32_field(s: Seq<char>) -> i32 {
    match signed_text_value(s, true) {
        Some(v) => if i32::MIN <= v <= i32::MAX { v as i32 } else { 0 },
        None => 0,
    }
}

/// A character of the Unicode White_Space property.
pub open spec fn is_white(c: char) -> bool {
    ('\u{9}' <= c && c <= '\u{d}') || c == ' ' || c == '\u{85}' || c == '\u{a0}' || c == '\u{1680}'
        || ('\u{2000}' <= c && c <= '\u{200a}') || c == '\u{2028}' || c == '\u{2029}' || c == '\u{202f}'
        || c == '\u{205f}' || c == '\u{3000}'
}

/// The characters with leading whitespace removed.
pub open spec fn trim_start(s: Seq<char>) -> Seq<char>
    decreases s.len(),
{
    if s.len() > 0 && is_white(s[0]) {
        trim_start(s.skip(1))
    } else {
        s
    }
}

/// The characters with trailing whitespace removed.
pub open spec fn trim_end(s: Seq<char>) -> Seq<char>
    decreases s.len(),
{
    if s.len() > 0 && is_white(s.last()) {
        trim_end(s.drop_last())
    } else {
        s
    }
}

/// The characters of a line with leading and trailing whitespace removed.
pub open spec fn trimmed(s: Seq<char>) -> Seq<char> {
    trim_end(trim_start(s))
}

/// Relies on `str::trim`: leading and trailing characters of the Unicode
/// White_Space property are removed.
#[verifier::external_body]
pub(crate) fn trim_text(s: &str) -> (r: String)
    ensures
        r@ == trimmed(s@),
{
    s.trim().to_string()
}

/// Relies on `str::parse::<i64>`: an optional `+` or `-` then at least one
/// decimal digit, and a value within range.
#[verifier::external_body]
fn parse_i64(s: &str) -> (r: Option<i64>)
    ensures
        r == (match signed_text_value(s@, false) {
            Some(v) => if i64::MIN <= v <= i64::MAX { Some(v as i64) } else { None },
            None => None,
        }),
{
    s.parse::<i64>().ok()
}

/// Relies on `str::parse::<i32>`: an optional `+` or `-` then at least one
/// decimal digit, and a value within range.
#[verifier::external_body]
fn parse_i32(s: &str) -> (r: Option<i32>)
    ensures
        r == i32_text(s@),
{
    s.parse::<i32>().ok()
}

/// Relies on `i32::from_str_radix(_, 16)`: an optional `+` or `-` then at
/// least one hexadecimal digit of either case, and a value within range.
#[verifier::external_body]
fn parse_hex_i32(s: &str) -> (r: Option<i32>)
    ensures
        r == (match signed_text_value(s@, true) {
            Some(v) => if i32::MIN <= v <= i32::MAX { Some(v as i32) } else { None },
            None => None,
        }),
{
    i32::from_str_radix(s, 16).ok()
}

/// Reads a decimal field, zero when it is not a number.
pub fn field_i64(s: &String) -> (r: i64)
    ensures
        r == i64_field(s@),
{
    match parse_i64(s.as_str()) {
        Some(v) => v,
        None => 0,
    }
}

/// Reads a 32-bit decimal field, if it is one.
pub fn field_i32_opt(s: &String) -> (r: Option<i32>)
    ensures
        r == i32_text(s@),
{
    parse_i32(s.as_str())
}

/// Reads a 32-bit decimal field, zero when it is not a number.
pub fn field_i32(s: &String) -> (r: i32)
    ensures
        r == i32_field(s@),
{
    match parse_i32(s.as_str()) {
        Some(v) => v,
        None => 0,
    }
}

/// Reads a 32-bit hexadecimal field, zero when it is not a number.
pub fn field_hex_i32(s: &String) -> (r: i32)
    ensures
        r == hex_i32_field(s@),
{
    match parse_hex_i32(s.as_str()) {
        Some(v) => v,
        None => 0,
    }
}

/// Relies on `String::push`: the character is appended at the end.
#[verifier::external_body]
fn push_char(s: &mut String, c: char)
    ensures
        final(s)@ == old(s)@.push(c),
{
    s.push(c)
}

/// The characters of a text, in order.
pub fn chars_of(s: &str) -> (r: Vec<char>)
    ensures
        r@ == s@,
{
    let mut out: Vec<char> = Vec::new();
    for c in it: s.chars()
        invariant
            out@ == it.seq().take(it.index() as int),
    {
        out.push(c);
    }
    proof {
        broadcast use vstd::string::axiom_spec_iter;
    }
    out
}

/// The text made of a run of characters.
pub fn text_of(cs: &[char], lo: usize, hi: usize) -> (r: String)
    requires
        lo <= hi <= cs@.len(),
    ensures
        r@ == cs@.subrange(lo as int, hi as int),
{
    let mut out = String::new();
    let mut i: usize = lo;
    while i < hi
        invariant
            lo <= i <= hi <= cs@.len(),
            out@ == cs@.subrange(lo as int, i as int),
        decreases hi - i,
    {
        push_char(&mut out, cs[i]);
        assert(cs@.subrange(lo as int, i + 1) == cs@.subrange(lo as int, i as int).push(cs@[i as int]));
        i = i + 1;
    }
    out
}

/// The pieces of `s` between occurrences of `sep`: one more piece than
/// there are separators, empty pieces included.
pub open spec fn split_on(s: Seq<char>, sep: char) -> Seq<Seq<char>>
    decreases s.len(),
{
    if s.len() == 0 {
        seq![Seq::empty()]
    } else {
        let rest = split_on(s.drop_last(), sep);
        if s.last() == sep {
            rest.push(Seq::empty())
        } else {
            rest.update(rest.len() - 1, rest.last().push(s.last()))
        }
    }
}

pub proof fn lemma_split_nonempty(s: Seq<char>, sep: char)
    ensures
        split_on(s, sep).len() >= 1,
    decreases s.len(),
{
    if s.len() > 0 {
        lemma_split_nonempty(s.drop_last(), sep);
    }
}

/// Splits a text into the fields between occurrences of `sep`.
pub fn split_fields(s: &str, sep: char) -> (r: Vec<String>)
    ensures
        r@.len() == split_on(s@, sep).len(),
        forall|i: int| 0 <= i < r@.len() ==> #[trigger] r@[i]@ == split_on(s@, sep)[i],
{
    let cs = chars_of(s);
    let mut out: Vec<String> = Vec::new();
    let mut start: usize = 0;
    let mut i: usize = 0;
    while i < cs.len()
        invariant
            start <= i <= cs@.len(),
            cs@ == s@,
            out@.len() + 1 == split_on(cs@.take(i as int), sep).len(),
            forall|k: int| 0 <= k < out@.len() ==> #[trigger] out@[k]@ == split_on(cs@.take(i as int), sep)[k],
            split_on(cs@.take(i as int), sep).last() == cs@.subrange(start as int, i as int),
        decreases cs.len() - i,
    {
        proof {
            lemma_split_nonempty(cs@.take(i as int), sep);
            assert(cs@.take(i + 1).drop_last() == cs@.take(i as int));
        }
        if cs[i] == sep {
            let piece = text_of(cs.as_slice(), start, i);
            out.push(piece);
            start = i + 1;
        } else {
            assert(cs@.subrange(start as int, i + 1) == cs@.subrange(start as int, i as int).push(cs@[i as int]));
        }
        i = i + 1;
    }
    proof {
        lemma_split_nonempty(cs@.take(i as int), sep);
        assert(cs@.take(i as int) == cs@);
    }
    let last = text_of(cs.as_slice(), start, i);
    out.push(last);
    out
}

/// True when the text is exactly the given literal.
pub fn is_text(a: &String, lit: &str) -> (r: bool)
    ensures
        r == (a@ == lit@),
{
    let b = String::from_str(lit);
    *a == b
}

/// The text of a literal, owned.
pub fn owned(lit: &str) -> (r: String)
    ensures
        r@ == lit@,
{
    String::from_str(lit)
}

/// A gear score in hundredths of a point: digits, optionally a point and
/// more digits (of which two count), with an optional leading `+`.
pub open spec fn gear_text_centi(s: Seq<char>) -> Option<int> {
    let body = if s.len() > 0 && s[0] == '+' { s.subrange(1, s.len() as int) } else { s };
    let parts = split_on(body, '.');
    let whole = parts[0];
    let frac = if parts.len() == 2 { parts[1] } else { Seq::<char>::empty() };
    let cents = if frac.len() >= 2 {
        digits_value(frac.take(2))
    } else if frac.len() == 1 {
        digits_value(frac) * 10
    } else {
        0
    };
    if parts.len() <= 2 && all_digits(whole) && all_digits(frac) && whole.len() + frac.len() > 0 {
        Some(digits_value(whole) * 100 + cents)
    } else {
        None
    }
}

/// The highest gear score that a record may carry, in hundredths.
pub const MAX_GEAR_SCORE: i64 = 165500;

/// What a gear-score field reads as: zero when it is not a score or lies
/// above the highest one.
pub open spec fn gear_score_field(s: Seq<char>) -> i64 {
    match gear_text_centi(s) {
        Some(v) => if v <= MAX_GEAR_SCORE { v as i64 } else { 0 },
        None => 0,
    }
}

fn digits_only(cs: &Vec<char>) -> (r: bool)
    ensures
        r == all_digits(cs@),
{
    let mut i: usize = 0;
    while i < cs.len()
        invariant
            i <= cs@.len(),
            forall|k: int| 0 <= k < i ==> is_digit(#[trigger] cs@[k]),
        decreases cs.len() - i,
    {
        if !('0' <= cs[i] && cs[i] <= '9') {
            return false;
        }
        i = i + 1;
    }
    true
}

pub proof fn lemma_digits_text(s: Seq<char>)
    requires
        s.len() > 0,
        all_digits(s),
    ensures
        signed_text_value(s, false) == Some(digits_value(s)),
        digits_value(s) >= 0,
    decreases s.len(),
{
    assert(s[0] != '-' && s[0] != '+') by {
        assert(is_digit(s[0]));
    }
    lemma_digits_nonneg(s);
}

pub proof fn lemma_digits_nonneg(s: Seq<char>)
    requires
        all_digits(s),
    ensures
        digits_value(s) >= 0,
    decreases s.len(),
{
    if s.len() > 0 {
        assert(is_digit(s[s.len() - 1]));
        assert(all_digits(s.drop_last())) by {
            assert forall|i: int| 0 <= i < s.drop_last().len() implies is_digit(#[trigger] s.drop_last()[i]) by {
                assert(s.drop_last()[i] == s[i]);
            }
        }
        lemma_digits_nonneg(s.drop_last());
    }
}

/// Reads a gear-score field in hundredths of a point.
pub fn field_gear_score(s: &String) -> (r: i64)
    ensures
        r == gear_score_field(s@),
        0 <= r <= MAX_GEAR_SCORE,
{
    let cs = chars_of(s.as_str());
    let start: usize = if cs.len() > 0 && cs[0] == '+' { 1 } else { 0 };
    let body = text_of(cs.as_slice(), start, cs.len());
    proof {
        assert(cs@.subrange(0, cs@.len() as int) == cs@);
    }
    let parts = split_fields(body.as_str(), '.');
    proof {
        lemma_split_nonempty(body@, '.');
    }
    if parts.len() > 2 {
        return 0;
    }
    let whole = chars_of(parts[0].as_str());
    let frac = if parts.len() == 2 {
        chars_of(parts[1].as_str())
    } else {
        Vec::new()
    };
    if !digits_only(&whole) || !digits_only(&frac) || (whole.len() == 0 && frac.len() == 0) {
        return 0;
    }
    let w: i64 = if whole.len() == 0 {
        0
    } else {
        proof {
            lemma_digits_text(whole@);
        }
        match parse_i64(parts[0].as_str()) {
            Some(v) => v,
            None => {
                proof {
                    if frac@.len() >= 2 {
                        lemma_digits_nonneg(frac@.take(2));
                    } else {
                        lemma_digits_nonneg(frac@);
                    }
                }
                return 0;
            },
        }
    };
    let c: i64 = if frac.len() >= 2 {
        let two = text_of(frac.as_slice(), 0, 2);
        proof {
            assert(frac@.subrange(0, 2) == frac@.take(2));
            assert(all_digits(frac@.take(2))) by {
                assert forall|i: int| 0 <= i < 2 implies is_digit(#[trigger] frac@.take(2)[i]) by {
                    assert(frac@.take(2)[i] == frac@[i]);
                }
            }
            lemma_digits_text(two@);
            assert(digits_value(two@) <= 99) by {
                reveal_with_fuel(digits_value, 3);
                assert(two@.drop_last().drop_last() =~= Seq::<char>::empty());
                assert(two@.drop_last().last() == two@[0]);
                assert(is_digit(two@[0]) && is_digit(two@[1]));
            }
        }
        match parse_i64(two.as_str()) {
            Some(v) => v,
            None => 0,
        }
    } else if frac.len() == 1 {
        proof {
            lemma_digits_text(frac@);
            reveal_with_fuel(digits_value, 2);
            assert(frac@.drop_last() =~= Seq::<char>::empty());
            assert(is_digit(frac@[0]));
        }
        match parse_i64(parts[1].as_str()) {
            Some(v) => v * 10,
            None => 0,
        }
    } else {
        0
    };
    proof {
        if whole.len() == 0 {
            assert(whole@ =~= Seq::<char>::empty());
        }
    }
    if w > (MAX_GEAR_SCORE / 100) {
        return 0;
    }
    let v = w * 100 + c;
    if v > MAX_GEAR_SCORE {
        0
    } else {
        v
    }
}

} // verus!
