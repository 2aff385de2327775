//! Conversions between integers and their decimal text, and small text helpers.
use vstd::prelude::*;

verus! {

/// The ASCII character of a decimal digit.
pub open spec fn digit_char(d: nat) -> char {
    if d == 0 { '0' }
    else if d == 1 { '1' }
    else if d == 2 { '2' }
    else if d == 3 { '3' }
    else if d == 4 { '4' }
    else if d == 5 { '5' }
    else if d == 6 { '6' }
    else if d == 7 { '7' }
    else if d == 8 { '8' }
    else { '9' }
}

/// Decimal digits of a natural number, most significant first, without leading zeros.
pub open spec fn decimal(n: nat) -> Seq<char>
    decreases n,
{
    if n < 10 {
        seq![digit_char(n)]
    } else {
        decimal(n / 10).push(digit_char(n % 10))
    }
}

/// The text that `Display` gives for a signed integer.
pub open spec fn int_text(n: int) -> Seq<char> {
    if n < 0 {
        seq!['-'] + decimal((-n) as nat)
    } else {
        decimal(n as nat)
    }
}

fn digit_to_char(d: u64) -> (c: char)
    requires
        d < 10,
    ensures
        c == digit_char(d as nat),
{
    if d == 0 { '0' }
    else if d == 1 { '1' }
    else if d == 2 { '2' }
    else if d == 3 { '3' }
    else if d == 4 { '4' }
    else if d == 5 { '5' }
    else if d == 6 { '6' }
    else if d == 7 { '7' }
    else if d == 8 { '8' }
    else { '9' }
}

/// Appends one character to a string with `String::push`; claimed: the string's
/// characters afterwards are the old ones followed by `c`.
#[verifier::external_body]
pub(crate) fn push_char(s: &mut String, c: char)
    ensures
        final(s)@ == old(s)@.push(c),
{
    s.push(c);
}

/// Writes the decimal digits of `n` at the end of `out`.
pub fn push_decimal(out: &mut String, n: u64)
    ensures
        final(out)@ == old(out)@ + decimal(n as nat),
{
    let mut digits: Vec<char> = Vec::new();
    digits.push(digit_to_char(n % 10));
    let mut m: u64 = n / 10;
    // digits are collected least significant first
    while m > 0
        invariant
            m <= n,
            decimal(n as nat) == (if m == 0 { Seq::<char>::empty() } else { decimal(m as nat) })
                + digits@.reverse(),
        decreases m,
    {
        let c = digit_to_char(m % 10);
        assert(digits@.push(c).reverse() =~= seq![c] + digits@.reverse());
        digits.push(c);
        m = m / 10;
    }
    let ghost start = out@;
    let ghost rev = digits@.reverse();
    let mut i: usize = digits.len();
    while i > 0
        invariant
            i <= digits.len(),
            rev == digits@.reverse(),
            out@ == start + rev.subrange(0, (digits.len() - i) as int),
        decreases i,
    {
        i = i - 1;
        assert(rev.subrange(0, (digits.len() - i) as int) =~= rev.subrange(
            0,
            (digits.len() - i - 1) as int,
        ).push(digits@[i as int]));
        push_char(out, digits[i]);
    }
    assert(rev.subrange(0, digits.len() as int) =~= rev);
}


/// The characters of a string slice, in order.
pub fn chars_of(s: &str) -> (v: Vec<char>)
    ensures
        v@ == s@,
{
    broadcast use vstd::string::group_string_axioms;
    let mut v: Vec<char> = Vec::new();
    for c in it: s.chars()
        invariant
            v@ == it.seq().take(it.index()),
    {
        v.push(c);
    }
    v
}


/// The text that `Display` writes for a 64-bit signed integer.
pub fn i64_text(n: i64) -> (s: String)
    ensures
        s@ == int_text(n as int),
{
    let mut s = String::new();
    if n < 0 {
        push_char(&mut s, '-');
        let magnitude: u64 = if n == i64::MIN {
            9223372036854775808u64
        } else {
            (-n) as u64
        };
        push_decimal(&mut s, magnitude);
    } else {
        push_decimal(&mut s, n as u64);
    }
    s
}

/// The text that `Display` writes for a 32-bit signed integer.
pub fn i32_text(n: i32) -> (s: String)
    ensures
        s@ == int_text(n as int),
{
    i64_text(n as i64)
}

/// Why a text is not a 32-bit integer; the kinds that `i32::from_str` reports.
#[derive(Debug, Clone, Copy, PartialEq, Eq, Structural)]
pub enum IntParseError {
    /// The text is empty.
    Empty,
    /// A character is not a decimal digit, or a sign stands alone.
    InvalidDigit,
    /// The value is above `i32::MAX`.
    PosOverflow,
    /// The value is below `i32::MIN`.
    NegOverflow,
}

impl IntParseError {
    /// The message that the standard library shows for this kind of error.
    pub fn message(&self) -> (s: &'static str)
        ensures
            s@ == int_parse_message(*self),
    {
        match self {
            IntParseError::Empty => "cannot parse integer from empty string",
            IntParseError::InvalidDigit => "invalid digit found in string",
            IntParseError::PosOverflow => "number too large to fit in target type",
            IntParseError::NegOverflow => "number too small to fit in target type",
        }
    }
}

/// The message of each kind of parse error.
pub open spec fn int_parse_message(e: IntParseError) -> Seq<char> {
    match e {
        IntParseError::Empty => "cannot parse integer from empty string"@,
        IntParseError::InvalidDigit => "invalid digit found in string"@,
        IntParseError::PosOverflow => "number too large to fit in target type"@,
        IntParseError::NegOverflow => "number too small to fit in target type"@,
    }
}

/// An ASCII decimal digit.
pub open spec fn is_digit(c: char) -> bool {
    '0' <= c && c <= '9'
}

/// The value of an ASCII decimal digit.
pub open spec fn digit_value(c: char) -> nat {
    (c as int - '0' as int) as nat
}

/// The digits after the sign, read from left to right: the first character that is
/// not a digit, or the first prefix whose value passes `bound`, ends the reading
/// with an error.
pub open spec fn scan_digits(d: Seq<char>, bound: nat, neg: bool) -> Result<nat, IntParseError>
    decreases d.len(),
{
    if d.len() == 0 {
        Ok(0)
    } else {
        match scan_digits(d.drop_last(), bound, neg) {
            Err(e) => Err(e),
            Ok(v) => if !is_digit(d.last()) {
                Err(IntParseError::InvalidDigit)
            } else if v * 10 + digit_value(d.last()) > bound {
                Err(if neg { IntParseError::NegOverflow } else { IntParseError::PosOverflow })
            } else {
                Ok(v * 10 + digit_value(d.last()))
            },
        }
    }
}

/// What `i32::from_str` gives for a text: an optional sign, then decimal digits.
pub open spec fn parse_i32_spec(s: Seq<char>) -> Result<i32, IntParseError> {
    if s.len() == 0 {
        Err(IntParseError::Empty)
    } else if (s[0] == '+' || s[0] == '-') && s.len() == 1 {
        Err(IntParseError::InvalidDigit)
    } else if s[0] == '-' {
        match scan_digits(s.drop_first(), 2147483648, true) {
            Ok(v) => Ok((-v) as i32),
            Err(e) => Err(e),
        }
    } else {
        let digits = if s[0] == '+' { s.drop_first() } else { s };
        match scan_digits(digits, 2147483647, false) {
            Ok(v) => Ok(v as i32),
            Err(e) => Err(e),
        }
    }
}

/// Reads the digits of `d` from position `from` on, as `scan_digits` describes.
fn scan_digit_chars(d: &Vec<char>, from: usize, bound: u64, neg: bool) -> (r: Result<u64, IntParseError>)
    requires
        from <= d.len(),
        bound <= 2147483648,
    ensures
        match scan_digits(d@.skip(from as int), bound as nat, neg) {
            Ok(v) => r == Ok::<u64, IntParseError>(v as u64),
            Err(e) => r == Err::<u64, IntParseError>(e),
        },
{
    let ghost digits = d@.skip(from as int);
    let mut value: u64 = 0;
    let mut i: usize = from;
    while i < d.len()
        invariant
            from <= i <= d.len(),
            digits == d@.skip(from as int),
            bound <= 2147483648,
            value <= bound,
            scan_digits(digits.take(i - from), bound as nat, neg) == Ok::<nat, IntParseError>(
                value as nat,
            ),
        decreases d.len() - i,
    {
        let c = d[i];
        assert(digits.take(i - from + 1).drop_last() =~= digits.take(i - from));
        assert(digits.take(i - from + 1).last() == c);
        if !('0' <= c && c <= '9') {
            proof {
                lemma_scan_err_extends(digits, (i - from + 1) as nat, bound as nat, neg);
            }
            return Err(IntParseError::InvalidDigit);
        }
        let next: u64 = value * 10 + ((c as u32) - ('0' as u32)) as u64;
        if next > bound {
            proof {
                lemma_scan_err_extends(digits, (i - from + 1) as nat, bound as nat, neg);
            }
            return Err(if neg { IntParseError::NegOverflow } else { IntParseError::PosOverflow });
        }
        value = next;
        i = i + 1;
    }
    assert(digits.take(i - from) =~= digits);
    Ok(value)
}

/// Once reading a prefix fails, reading any longer text fails the same way.
proof fn lemma_scan_err_extends(d: Seq<char>, k: nat, bound: nat, neg: bool)
    requires
        k <= d.len(),
        scan_digits(d.take(k as int), bound, neg) is Err,
    ensures
        scan_digits(d, bound, neg) == scan_digits(d.take(k as int), bound, neg),
    decreases d.len() - k,
{
    if k < d.len() {
        assert(d.take(k as int + 1).drop_last() =~= d.take(k as int));
        lemma_scan_err_extends(d, k + 1, bound, neg);
    } else {
        assert(d.take(k as int) =~= d);
    }
}

/// Reads a 32-bit signed integer as `i32::from_str` does.
pub fn parse_i32(s: &str) -> (r: Result<i32, IntParseError>)
    ensures
        r == parse_i32_spec(s@),
{
    let chars = chars_of(s);
    if chars.len() == 0 {
        return Err(IntParseError::Empty);
    }
    let first = chars[0];
    if (first == '+' || first == '-') && chars.len() == 1 {
        return Err(IntParseError::InvalidDigit);
    }
    if first == '-' {
        assert(chars@.skip(1) =~= chars@.drop_first());
        match scan_digit_chars(&chars, 1, 2147483648, true) {
            Ok(v) => Ok((-(v as i64)) as i32),
            Err(e) => Err(e),
        }
    } else if first == '+' {
        assert(chars@.skip(1) =~= chars@.drop_first());
        match scan_digit_chars(&chars, 1, 2147483647, false) {
            Ok(v) => Ok(v as i32),
            Err(e) => Err(e),
        }
    } else {
        assert(chars@.skip(0) =~= chars@);
        match scan_digit_chars(&chars, 0, 2147483647, false) {
            Ok(v) => Ok(v as i32),
            Err(e) => Err(e),
        }
    }
}


proof fn lemma_digit_char(d: nat)
    requires
        d < 10,
    ensures
        is_digit(digit_char(d)),
        digit_value(digit_char(d)) == d,
{
}

proof fn lemma_decimal_shape(n: nat)
    ensures
        decimal(n).len() >= 1,
        is_digit(decimal(n)[0]),
    decreases n,
{
    if n < 10 {
        lemma_digit_char(n);
    } else {
        lemma_decimal_shape(n / 10);
    }
}

proof fn lemma_scan_decimal(m: nat, bound: nat, neg: bool)
    requires
        m <= bound,
    ensures
        scan_digits(decimal(m), bound, neg) == Ok::<nat, IntParseError>(m),
    decreases m,
{
    if m < 10 {
        lemma_digit_char(m);
        assert(decimal(m).drop_last() =~= Seq::<char>::empty());
    } else {
        lemma_scan_decimal(m / 10, bound, neg);
        lemma_digit_char(m % 10);
        assert(decimal(m).drop_last() =~= decimal(m / 10));
    }
}

/// Reading back the text of an integer gives the integer: the identifier that a
/// project row shows is the identifier that selecting the row finds again.
pub proof fn lemma_parse_int_text(n: i32)
    ensures
        parse_i32_spec(int_text(n as int)) == Ok::<i32, IntParseError>(n),
{
    if n < 0 {
        let m = (-n) as nat;
        lemma_decimal_shape(m);
        lemma_scan_decimal(m, 2147483648, true);
        assert((seq!['-'] + decimal(m)).drop_first() =~= decimal(m));
    } else {
        let m = n as nat;
        lemma_decimal_shape(m);
        lemma_scan_decimal(m, 2147483647, false);
    }
}


/// The characters that `char::is_whitespace` accepts: Unicode's `White_Space` set.
pub open spec fn is_white_space(c: char) -> bool {
    ||| '\t' <= c && c <= '\r'
    ||| c == ' '
    ||| c == '\u{85}'
    ||| c == '\u{A0}'
    ||| c == '\u{1680}'
    ||| '\u{2000}' <= c && c <= '\u{200A}'
    ||| c == '\u{2028}'
    ||| c == '\u{2029}'
    ||| c == '\u{202F}'
    ||| c == '\u{205F}'
    ||| c == '\u{3000}'
}

fn white_space(c: char) -> (b: bool)
    ensures
        b == is_white_space(c),
{
    ('\t' <= c && c <= '\r') || c == ' ' || c == '\u{85}' || c == '\u{A0}' || c == '\u{1680}'
        || ('\u{2000}' <= c && c <= '\u{200A}') || c == '\u{2028}' || c == '\u{2029}'
        || c == '\u{202F}' || c == '\u{205F}' || c == '\u{3000}'
}

/// Reading a text from left to right: the words closed so far and the word under way.
/// White space closes the word under way, if there is one.
pub open spec fn word_scan(s: Seq<char>) -> (Seq<Seq<char>>, Seq<char>)
    decreases s.len(),
{
    if s.len() == 0 {
        (Seq::empty(), Seq::empty())
    } else {
        let before = word_scan(s.drop_last());
        if is_white_space(s.last()) {
            if before.1.len() == 0 {
                before
            } else {
                (before.0.push(before.1), Seq::empty())
            }
        } else {
            (before.0, before.1.push(s.last()))
        }
    }
}

/// The words of a text: its maximal runs of characters that are not white space,
/// in order; what `str::split_whitespace` yields.
pub open spec fn whitespace_words(s: Seq<char>) -> Seq<Seq<char>> {
    let scan = word_scan(s);
    if scan.1.len() == 0 {
        scan.0
    } else {
        scan.0.push(scan.1)
    }
}

/// The views of a vector of strings.
pub open spec fn string_views(v: Seq<String>) -> Seq<Seq<char>> {
    v.map_values(|w: String| w@)
}

/// Splits a text at white space, as `str::split_whitespace` does.
pub fn split_whitespace(s: &str) -> (words: Vec<String>)
    ensures
        string_views(words@) == whitespace_words(s@),
{
    broadcast use vstd::string::group_string_axioms;
    let mut words: Vec<String> = Vec::new();
    let mut cur = String::new();
    let mut cur_len: usize = 0;
    let ghost mut seen: Seq<char> = Seq::empty();
    for c in it: s.chars()
        invariant
            seen == it.seq().take(it.index()),
            string_views(words@) == word_scan(seen).0,
            cur@ == word_scan(seen).1,
            cur_len == 0 <==> cur@.len() == 0,
    {
        let ghost prefix = seen;
        proof {
            seen = seen.push(c);
        }
        assert(seen.drop_last() =~= prefix);
        if white_space(c) {
            if cur_len > 0 {
                let ghost before = string_views(words@);
                words.push(cur);
                assert(string_views(words@) =~= before.push(word_scan(prefix).1));
                cur = String::new();
                cur_len = 0;
            }
        } else {
            push_char(&mut cur, c);
            cur_len = 1;
        }
    }
    assert(seen =~= s@);
    if cur_len > 0 {
        let ghost before = string_views(words@);
        let ghost last = cur@;
        words.push(cur);
        assert(string_views(words@) =~= before.push(last));
    }
    words
}

/// No word is empty, and no word holds white space.
pub proof fn lemma_words_are_clean(s: Seq<char>)
    ensures
        forall|i: int|
            0 <= i < whitespace_words(s).len() ==> #[trigger] whitespace_words(s)[i].len() > 0,
        forall|i: int, j: int|
            0 <= i < whitespace_words(s).len() && 0 <= j < whitespace_words(s)[i].len()
                ==> !is_white_space(#[trigger] whitespace_words(s)[i][j]),
{
    lemma_word_scan_clean(s);
}

proof fn lemma_word_scan_clean(s: Seq<char>)
    ensures
        forall|i: int| 0 <= i < word_scan(s).0.len() ==> #[trigger] word_scan(s).0[i].len() > 0,
        forall|i: int, j: int|
            0 <= i < word_scan(s).0.len() && 0 <= j < word_scan(s).0[i].len() ==> !is_white_space(
                #[trigger] word_scan(s).0[i][j],
            ),
        forall|j: int| 0 <= j < word_scan(s).1.len() ==> !is_white_space(#[trigger] word_scan(s).1[j]),
    decreases s.len(),
{
    if s.len() > 0 {
        lemma_word_scan_clean(s.drop_last());
        let before = word_scan(s.drop_last());
        let after = word_scan(s);
        if is_white_space(s.last()) && before.1.len() > 0 {
            assert forall|i: int| 0 <= i < after.0.len() implies #[trigger] after.0[i].len() > 0 by {
                if i < before.0.len() {
                    assert(after.0[i] == before.0[i]);
                }
            }
            assert forall|i: int, j: int|
                0 <= i < after.0.len() && 0 <= j < after.0[i].len() implies !is_white_space(
                #[trigger] after.0[i][j],
            ) by {
                if i < before.0.len() {
                    assert(after.0[i] == before.0[i]);
                } else {
                    assert(after.0[i] == before.1);
                }
            }
        }
    }
}


/// Every non-overlapping occurrence of `pat`, found from left to right, replaced by
/// `rep`; what `str::replace` gives for a pattern that is not empty.
pub open spec fn replace_all(s: Seq<char>, pat: Seq<char>, rep: Seq<char>) -> Seq<char>
    recommends
        pat.len() > 0,
    decreases s.len(),
{
    if pat.len() == 0 || s.len() < pat.len() {
        s
    } else if s.take(pat.len() as int) == pat {
        rep + replace_all(s.skip(pat.len() as int), pat, rep)
    } else {
        seq![s[0]] + replace_all(s.drop_first(), pat, rep)
    }
}

fn matches_at(s: &Vec<char>, pat: &Vec<char>, at: usize) -> (b: bool)
    requires
        at + pat.len() <= s.len(),
    ensures
        b == (s@.skip(at as int).take(pat.len() as int) == pat@),
{
    let mut k: usize = 0;
    while k < pat.len()
        invariant
            at + pat.len() <= s.len(),
            k <= pat.len(),
            forall|j: int| 0 <= j < k ==> s@[at + j] == pat@[j],
        decreases pat.len() - k,
    {
        if s[at + k] != pat[k] {
            assert(s@.skip(at as int).take(pat.len() as int)[k as int] != pat@[k as int]);
            return false;
        }
        k = k + 1;
    }
    assert(s@.skip(at as int).take(pat.len() as int) =~= pat@);
    true
}

/// Replaces every occurrence of `pat` in `s` by `rep`, as `str::replace` does.
pub fn replace_text(s: &str, pat: &str, rep: &str) -> (r: String)
    requires
        pat@.len() > 0,
    ensures
        r@ == replace_all(s@, pat@, rep@),
{
    let chars = chars_of(s);
    let pc = chars_of(pat);
    let mut out = String::new();
    let mut i: usize = 0;
    assert(s@.skip(0) =~= s@);
    assert(out@ + replace_all(s@, pat@, rep@) =~= replace_all(s@, pat@, rep@));
    while i < chars.len()
        invariant
            pc@ == pat@,
            chars@ == s@,
            pc.len() > 0,
            i <= chars.len(),
            replace_all(s@, pat@, rep@) == out@ + replace_all(s@.skip(i as int), pat@, rep@),
        decreases chars.len() - i,
    {
        let ghost rest = s@.skip(i as int);
        if pc.len() <= chars.len() - i && matches_at(&chars, &pc, i) {
            assert(rest.skip(pat@.len() as int) =~= s@.skip(i + pc.len()));
            out.append(rep);
            i = i + pc.len();
        } else {
            assert(rest.drop_first() =~= s@.skip(i + 1));
            proof {
                if rest.len() < pat@.len() {
                    assert(replace_all(rest.drop_first(), pat@, rep@) == rest.drop_first()) by {
                        assert(rest.drop_first().len() < pat@.len());
                    }
                    assert(rest =~= seq![rest[0]] + rest.drop_first());
                }
            }
            push_char(&mut out, chars[i]);
            i = i + 1;
        }
    }
    assert(s@.skip(i as int) =~= Seq::<char>::empty());
    out
}

/// A text in which the pattern does not occur comes back unchanged.
pub proof fn lemma_replace_absent(s: Seq<char>, pat: Seq<char>, rep: Seq<char>)
    requires
        pat.len() > 0,
        forall|i: int| 0 <= i <= s.len() - pat.len() ==> #[trigger] s.skip(i).take(pat.len() as int) != pat,
    ensures
        replace_all(s, pat, rep) == s,
    decreases s.len(),
{
    if s.len() >= pat.len() {
        assert(s.skip(0).take(pat.len() as int) == s.take(pat.len() as int));
        assert forall|i: int| 0 <= i <= s.drop_first().len() - pat.len() implies
            #[trigger] s.drop_first().skip(i).take(pat.len() as int) != pat by {
            assert(s.drop_first().skip(i) =~= s.skip(i + 1));
        }
        lemma_replace_absent(s.drop_first(), pat, rep);
        assert(seq![s[0]] + s.drop_first() =~= s);
    }
}

/// Parts joined with a separator between each two of them.
pub open spec fn join_with(parts: Seq<Seq<char>>, sep: Seq<char>) -> Seq<char>
    decreases parts.len(),
{
    if parts.len() == 0 {
        Seq::empty()
    } else if parts.len() == 1 {
        parts[0]
    } else {
        join_with(parts.drop_last(), sep) + sep + parts.last()
    }
}

/// Joins texts with a separator between each two of them.
pub fn join_texts(parts: &Vec<String>, sep: &str) -> (r: String)
    ensures
        r@ == join_with(string_views(parts@), sep@),
{
    let ghost views = string_views(parts@);
    let mut r = String::new();
    let mut i: usize = 0;
    while i < parts.len()
        invariant
            views == string_views(parts@),
            i <= parts.len(),
            r@ == join_with(views.take(i as int), sep@),
        decreases parts.len() - i,
    {
        assert(views.take(i + 1).drop_last() =~= views.take(i as int));
        assert(views.take(i + 1).last() == parts@[i as int]@);
        if i > 0 {
            r.append(sep);
        } else {
            assert(views.take(1) =~= seq![parts@[0]@]);
        }
        r.append(parts[i].as_str());
        i = i + 1;
    }
    assert(views.take(i as int) =~= views);
    r
}

} // verus!
