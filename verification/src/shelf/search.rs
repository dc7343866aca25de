//! Composition of the per-book search indexes emitted by mdBook.
use vstd::prelude::*;
use crate::text::{chars_of, push_char};

verus! {

/// `c` with backslashes made forward slashes.
pub open spec fn slashed(s: Seq<char>) -> Seq<char> {
    Seq::new(s.len(), |i: int| if s[i] == '\\' { '/' } else { s[i] })
}

/// The URL of a document of book `book_id` as seen from a sibling book's
/// directory: `../<book_id>/` and the document URL without a leading `./`.
pub open spec fn translated_doc_url(book_id: Seq<char>, doc_url: Seq<char>) -> Seq<char> {
    let n = slashed(doc_url);
    let relative = if n.len() >= 2 && n[0] == '.' && n[1] == '/' {
        n.skip(2)
    } else {
        n
    };
    seq!['.', '.', '/'] + book_id + seq!['/'] + relative
}

/// Rewrites a per-book search document URL so that it resolves from the
/// shared search index next to the books.
pub fn translate_doc_url(book_id: &str, doc_url: &str) -> (url: String)
    ensures
        url@ == translated_doc_url(book_id@, doc_url@),
{
    let cs = chars_of(doc_url);
    let ghost n = slashed(doc_url@);
    let start: usize = if cs.len() >= 2 && (cs[0] == '.') && (cs[1] == '/' || cs[1] == '\\') {
        2
    } else {
        0
    };
    let mut url = String::new();
    push_char(&mut url, '.');
    push_char(&mut url, '.');
    push_char(&mut url, '/');
    url.append(book_id);
    push_char(&mut url, '/');
    let ghost head = url@;
    let mut i: usize = start;
    while i < cs.len()
        invariant
            start <= i <= cs.len(),
            cs@ == doc_url@,
            n == slashed(doc_url@),
            url@ == head + n.subrange(start as int, i as int),
        decreases cs.len() - i,
    {
        if cs[i] == '\\' {
            push_char(&mut url, '/');
        } else {
            push_char(&mut url, cs[i]);
        }
        i += 1;
        assert(url@ =~= head + n.subrange(start as int, i as int));
    }
    assert(n.subrange(start as int, cs.len() as int) =~= n.skip(start as int));
    assert(head =~= seq!['.', '.', '/'] + book_id@ + seq!['/']);
    url
}

/// Why a wrapped search payload could not be decoded.
#[derive(Debug, Clone, Copy, PartialEq, Eq)]
pub enum UnescapeError {
    /// A backslash ends the text.
    UnterminatedEscape,
    /// A `\u` or `\x` escape has fewer characters than it needs.
    UnterminatedHexEscape,
    /// The digits of a `\u` or `\x` escape are not hexadecimal.
    InvalidHexDigits,
    /// A `\u` escape names a surrogate, which is no character.
    InvalidScalarValue,
}

/// The value of a hexadecimal digit.
pub open spec fn hex_digit_value(c: char) -> Option<nat> {
    if '0' <= c && c <= '9' {
        Some((c as nat - '0' as nat) as nat)
    } else if 'a' <= c && c <= 'f' {
        Some((c as nat - 'a' as nat + 10) as nat)
    } else if 'A' <= c && c <= 'F' {
        Some((c as nat - 'A' as nat + 10) as nat)
    } else {
        None
    }
}

/// The value of the hexadecimal digits `ds`, if all are digits.
pub open spec fn hex_digits_value(ds: Seq<char>) -> Option<nat>
    decreases ds.len(),
{
    if ds.len() == 0 {
        Some(0)
    } else {
        match (hex_digits_value(ds.drop_last()), hex_digit_value(ds.last())) {
            (Some(v), Some(d)) => Some(v * 16 + d),
            _ => None,
        }
    }
}

/// `from_str_radix(ds, 16)` for an unsigned type: an optional leading `+`,
/// then at least one hexadecimal digit.
pub open spec fn parse_hex(ds: Seq<char>) -> Option<nat> {
    let digits = if ds.len() > 0 && ds[0] == '+' {
        ds.drop_first()
    } else {
        ds
    };
    if digits.len() == 0 {
        None
    } else {
        hex_digits_value(digits)
    }
}

/// Whether `v` is a Unicode scalar value (`char::from_u32` succeeds).
pub open spec fn is_scalar_value(v: nat) -> bool {
    v <= 0x10FFFF && !(0xD800 <= v && v <= 0xDFFF)
}

/// The decoding of the JavaScript single-quoted string body `s[i..]`.
pub open spec fn unescaped_from(s: Seq<char>, i: int) -> Result<Seq<char>, UnescapeError>
    decreases s.len() - i,
{
    if i < 0 || i >= s.len() {
        Ok(Seq::empty())
    } else if s[i] != '\\' {
        match unescaped_from(s, i + 1) {
            Ok(rest) => Ok(seq![s[i]] + rest),
            Err(e) => Err(e),
        }
    } else if i + 1 >= s.len() {
        Err(UnescapeError::UnterminatedEscape)
    } else {
        let e = s[i + 1];
        if e == 'u' || e == 'x' {
            let count: int = if e == 'u' { 4 } else { 2 };
            if i + 2 + count > s.len() {
                Err(UnescapeError::UnterminatedHexEscape)
            } else {
                match parse_hex(s.subrange(i + 2, i + 2 + count)) {
                    None => Err(UnescapeError::InvalidHexDigits),
                    Some(v) => if e == 'u' && !is_scalar_value(v) {
                        Err(UnescapeError::InvalidScalarValue)
                    } else {
                        match unescaped_from(s, i + 2 + count) {
                            Ok(rest) => Ok(seq![v as char] + rest),
                            Err(err) => Err(err),
                        }
                    },
                }
            }
        } else {
            let decoded = if e == 'n' {
                '\n'
            } else if e == 'r' {
                '\r'
            } else if e == 't' {
                '\t'
            } else if e == 'b' {
                '\u{8}'
            } else if e == 'f' {
                '\u{C}'
            } else {
                e
            };
            match unescaped_from(s, i + 2) {
                Ok(rest) => Ok(seq![decoded] + rest),
                Err(err) => Err(err),
            }
        }
    }
}

fn hex_digit(c: char) -> (r: Option<u32>)
    ensures
        match r {
            Some(d) => hex_digit_value(c) == Some(d as nat) && d < 16,
            None => hex_digit_value(c) is None,
        },
{
    if '0' <= c && c <= '9' {
        Some((c as u32) - ('0' as u32))
    } else if 'a' <= c && c <= 'f' {
        Some((c as u32) - ('a' as u32) + 10)
    } else if 'A' <= c && c <= 'F' {
        Some((c as u32) - ('A' as u32) + 10)
    } else {
        None
    }
}

proof fn lemma_hex_digits_bound(ds: Seq<char>)
    ensures
        hex_digits_value(ds) matches Some(v) ==> v < pow16(ds.len()),
    decreases ds.len(),
{
    if ds.len() > 0 {
        lemma_hex_digits_bound(ds.drop_last());
        if let (Some(v), Some(d)) = (hex_digits_value(ds.drop_last()), hex_digit_value(ds.last())) {
            let p = pow16(ds.drop_last().len());
            assert(v * 16 + d < p * 16) by (nonlinear_arith)
                requires
                    v < p,
                    d < 16,
            ;
        }
    }
}

/// Sixteen to the power `n`.
pub open spec fn pow16(n: nat) -> nat
    decreases n,
{
    if n == 0 {
        1
    } else {
        16 * pow16((n - 1) as nat)
    }
}

/// The value of the hexadecimal text `s[lo..hi]`, as `from_str_radix(_, 16)`.
fn parse_hex_range(s: &Vec<char>, lo: usize, hi: usize) -> (r: Option<u32>)
    requires
        lo <= hi <= s.len(),
        hi - lo <= 4,
    ensures
        match r {
            Some(v) => parse_hex(s@.subrange(lo as int, hi as int)) == Some(v as nat),
            None => parse_hex(s@.subrange(lo as int, hi as int)) is None,
        },
{
    let ghost ds = s@.subrange(lo as int, hi as int);
    let start = if lo < hi && s[lo] == '+' {
        lo + 1
    } else {
        lo
    };
    let ghost digits = s@.subrange(start as int, hi as int);
    assert(digits =~= if ds.len() > 0 && ds[0] == '+' {
        ds.drop_first()
    } else {
        ds
    });
    if start == hi {
        return None;
    }
    assert(parse_hex(ds) == hex_digits_value(digits));
    let mut value: u32 = 0;
    let mut i: usize = start;
    while i < hi
        invariant
            start <= i <= hi <= s.len(),
            hi - start <= 4,
            lo <= start,
            digits == s@.subrange(start as int, hi as int),
            parse_hex(s@.subrange(lo as int, hi as int)) == hex_digits_value(digits),
            hex_digits_value(digits.take(i - start)) == Some(value as nat),
            value < pow16((i - start) as nat),
        decreases hi - i,
    {
        assert(digits.take(i - start + 1).drop_last() =~= digits.take(i - start));
        match hex_digit(s[i]) {
            Some(d) => {
                proof {
                    reveal_with_fuel(pow16, 5);
                    assert(pow16((i - start) as nat) <= 4096);
                }
                value = value * 16 + d;
                i += 1;
                proof {
                    lemma_hex_digits_bound(digits.take(i - start));
                }
            },
            None => {
                proof {
                    lemma_hex_digits_none(digits, i - start);
                }
                return None;
            },
        }
    }
    assert(digits.take(hi - start) =~= digits);
    Some(value)
}

proof fn lemma_hex_digits_none(ds: Seq<char>, k: int)
    requires
        0 <= k < ds.len(),
        hex_digit_value(ds[k]) is None,
    ensures
        hex_digits_value(ds) is None,
    decreases ds.len(),
{
    if k < ds.len() - 1 {
        lemma_hex_digits_none(ds.drop_last(), k);
    }
}

/// The character of a scalar value below `0x10000`.
#[verifier::external_body]
fn char_of_scalar(v: u32) -> (c: char)
    requires
        is_scalar_value(v as nat),
    ensures
        c == v as char,
{
    char::from_u32(v).unwrap()
}

/// Decodes the escapes of a JavaScript single-quoted string body, as mdBook
/// writes its search index.
pub fn unescape_js_single_quoted(text: &str) -> (decoded: Result<String, UnescapeError>)
    ensures
        match decoded {
            Ok(d) => unescaped_from(text@, 0) == Ok::<Seq<char>, UnescapeError>(d@),
            Err(e) => unescaped_from(text@, 0) == Err::<Seq<char>, UnescapeError>(e),
        },
{
    let s = chars_of(text);
    let mut decoded = String::new();
    let mut i: usize = 0;
    while i < s.len()
        invariant
            i <= s.len(),
            s@ == text@,
            unescaped_from(s@, 0) == match unescaped_from(s@, i as int) {
                Ok(rest) => Ok(decoded@ + rest),
                Err(e) => Err(e),
            },
        decreases s.len() - i,
    {
        let ch = s[i];
        let ghost d0 = decoded@;
        if ch != '\\' {
            push_char(&mut decoded, ch);
            i += 1;
            proof {
                match unescaped_from(s@, i as int) {
                    Ok(rest) => {
                        assert(d0 + (seq![ch] + rest) =~= decoded@ + rest);
                    },
                    Err(_) => {},
                }
            }
            continue;
        }
        if i + 1 >= s.len() {
            return Err(UnescapeError::UnterminatedEscape);
        }
        let escaped = s[i + 1];
        if escaped == 'u' || escaped == 'x' {
            let count: usize = if escaped == 'u' { 4 } else { 2 };
            if s.len() - (i + 2) < count {
                return Err(UnescapeError::UnterminatedHexEscape);
            }
            match parse_hex_range(&s, i + 2, i + 2 + count) {
                None => {
                    return Err(UnescapeError::InvalidHexDigits);
                },
                Some(value) => {
                    if escaped == 'u' && 0xD800 <= value && value <= 0xDFFF {
                        return Err(UnescapeError::InvalidScalarValue);
                    }
                    proof {
                        reveal_with_fuel(pow16, 5);
                        lemma_hex_digits_value_parse_bound(s@.subrange(i + 2, i + 2 + count));
                        assert(value < 0x10000);
                        if escaped == 'x' {
                            assert(value < 256);
                        }
                    }
                    let c = char_of_scalar(value);
                    push_char(&mut decoded, c);
                    i += 2 + count;
                    proof {
                        match unescaped_from(s@, i as int) {
                            Ok(rest) => {
                                assert(d0 + (seq![c] + rest) =~= decoded@ + rest);
                            },
                            Err(_) => {},
                        }
                    }
                },
            }
            continue;
        }
        let d = if escaped == 'n' {
            '\n'
        } else if escaped == 'r' {
            '\r'
        } else if escaped == 't' {
            '\t'
        } else if escaped == 'b' {
            '\u{8}'
        } else if escaped == 'f' {
            '\u{C}'
        } else {
            escaped
        };
        push_char(&mut decoded, d);
        i += 2;
        proof {
            match unescaped_from(s@, i as int) {
                Ok(rest) => {
                    assert(d0 + (seq![d] + rest) =~= decoded@ + rest);
                },
                Err(_) => {},
            }
        }
    }
    Ok(decoded)
}

proof fn lemma_hex_digits_value_parse_bound(ds: Seq<char>)
    requires
        ds.len() <= 4,
    ensures
        parse_hex(ds) matches Some(v) ==> v < pow16(ds.len()),
{
    let digits = if ds.len() > 0 && ds[0] == '+' {
        ds.drop_first()
    } else {
        ds
    };
    lemma_hex_digits_bound(digits);
    reveal_with_fuel(pow16, 5);
}

/// The JavaScript single-quoted escape of one character: `\` and `'` get
/// a backslash; newline, carriage return, tab, backspace and form feed
/// become `\n`, `\r`, `\t`, `\b` and `\f`; every other character stays.
pub open spec fn js_single_quote_escape_char(c: char) -> Seq<char> {
    if c == '\\' || c == '\'' {
        seq!['\\', c]
    } else if c == '\n' {
        seq!['\\', 'n']
    } else if c == '\r' {
        seq!['\\', 'r']
    } else if c == '\t' {
        seq!['\\', 't']
    } else if c == '\u{8}' {
        seq!['\\', 'b']
    } else if c == '\u{C}' {
        seq!['\\', 'f']
    } else {
        seq![c]
    }
}

/// The JavaScript single-quoted escape of a text.
pub open spec fn js_single_quote_escaped(s: Seq<char>) -> Seq<char>
    decreases s.len(),
{
    if s.len() == 0 {
        Seq::empty()
    } else {
        js_single_quote_escape_char(s[0]) + js_single_quote_escaped(s.skip(1))
    }
}

/// Decoding from position `i` is decoding what follows position `i`.
proof fn lemma_unescaped_from_shift(t: Seq<char>, i: int)
    requires
        0 <= i <= t.len(),
    ensures
        unescaped_from(t, i) == unescaped_from(t.skip(i), 0),
    decreases t.len() - i, 1int,
{
    let u = t.skip(i);
    if i < t.len() {
        assert(u[0] == t[i]);
        if t[i] != '\\' {
            lemma_unescaped_from_shift(t, i + 1);
            lemma_unescaped_from_shift_skip(t, i, 1);
        } else if i + 1 < t.len() {
            assert(u[1] == t[i + 1]);
            let e = t[i + 1];
            if e == 'u' || e == 'x' {
                let count: int = if e == 'u' { 4 } else { 2 };
                if i + 2 + count <= t.len() {
                    assert(u.subrange(2, 2 + count) =~= t.subrange(i + 2, i + 2 + count));
                    lemma_unescaped_from_shift(t, i + 2 + count);
                    lemma_unescaped_from_shift_skip(t, i, 2 + count);
                }
            } else {
                lemma_unescaped_from_shift(t, i + 2);
                lemma_unescaped_from_shift_skip(t, i, 2);
            }
        }
    }
}

proof fn lemma_unescaped_from_shift_skip(t: Seq<char>, i: int, k: int)
    requires
        0 <= i,
        1 <= k,
        i + k <= t.len(),
    ensures
        unescaped_from(t.skip(i), k) == unescaped_from(t.skip(i + k), 0),
    decreases t.len() - i, 0int,
{
    assert(t.skip(i).skip(k) =~= t.skip(i + k));
    lemma_unescaped_from_shift(t.skip(i), k);
}

/// Law: unescaping the JavaScript single-quoted escape of any text gives the
/// text back; in particular `\\` decodes to one backslash, `\'` to a single
/// quote and `\n`, `\r`, `\t`, `\b`, `\f` to their control characters.
pub proof fn lemma_unescape_js_round_trip(s: Seq<char>)
    ensures
        unescaped_from(js_single_quote_escaped(s), 0) == Ok::<Seq<char>, UnescapeError>(s),
    decreases s.len(),
{
    if s.len() > 0 {
        let c = s[0];
        let rest = js_single_quote_escaped(s.skip(1));
        let t = js_single_quote_escaped(s);
        lemma_unescape_js_round_trip(s.skip(1));
        assert(t == js_single_quote_escape_char(c) + rest);
        let k = js_single_quote_escape_char(c).len() as int;
        assert(t.skip(k) =~= rest);
        lemma_unescaped_from_shift(t, k);
        assert(s =~= seq![c] + s.skip(1));
        if js_single_quote_escape_char(c).len() == 2 {
            assert(t[0] == '\\');
            assert(t[1] == js_single_quote_escape_char(c)[1]);
        } else {
            assert(t[0] == c);
        }
    } else {
        assert(js_single_quote_escaped(s) =~= Seq::<char>::empty());
        assert(s =~= Seq::<char>::empty());
    }
}

/// The lowercase hexadecimal digit of `d`, below 16.
pub open spec fn hex_digit_char(d: nat) -> char {
    if d == 0 { '0' } else if d == 1 { '1' } else if d == 2 { '2' } else if d == 3 { '3' } else if d == 4 {
        '4'
    } else if d == 5 { '5' } else if d == 6 { '6' } else if d == 7 { '7' } else if d == 8 { '8' } else if d
        == 9 { '9' } else if d == 10 { 'a' } else if d == 11 { 'b' } else if d == 12 { 'c' } else if d == 13 {
        'd'
    } else if d == 14 { 'e' } else { 'f' }
}

proof fn lemma_hex_digit_char(d: nat)
    requires
        d < 16,
    ensures
        hex_digit_value(hex_digit_char(d)) == Some(d),
        hex_digit_char(d) != '+',
{
}

/// Law: a `\u` escape with four hexadecimal digits decodes to the character
/// of their value, and a `\x` escape with two to the character of theirs;
/// decoding goes on after the digits.
pub proof fn lemma_unescape_hex_escapes(a: nat, b: nat, c: nat, d: nat, r: Seq<char>)
    requires
        a < 16,
        b < 16,
        c < 16,
        d < 16,
        is_scalar_value(((a * 16 + b) * 16 + c) * 16 + d),
    ensures
        unescaped_from(seq!['\\', 'u', hex_digit_char(a), hex_digit_char(b), hex_digit_char(c), hex_digit_char(d)] + r, 0)
            == (match unescaped_from(r, 0) {
            Ok(x) => Ok(seq![(((a * 16 + b) * 16 + c) * 16 + d) as char] + x),
            Err(e) => Err(e),
        }),
        unescaped_from(seq!['\\', 'x', hex_digit_char(c), hex_digit_char(d)] + r, 0) == (match unescaped_from(r, 0) {
            Ok(x) => Ok(seq![(c * 16 + d) as char] + x),
            Err(e) => Err(e),
        }),
{
    lemma_hex_digit_char(a);
    lemma_hex_digit_char(b);
    lemma_hex_digit_char(c);
    lemma_hex_digit_char(d);
    let t = seq!['\\', 'u', hex_digit_char(a), hex_digit_char(b), hex_digit_char(c), hex_digit_char(d)] + r;
    let ds = t.subrange(2, 6);
    assert(ds =~= seq![hex_digit_char(a), hex_digit_char(b), hex_digit_char(c), hex_digit_char(d)]);
    assert(ds.drop_last() =~= seq![hex_digit_char(a), hex_digit_char(b), hex_digit_char(c)]);
    assert(ds.drop_last().drop_last() =~= seq![hex_digit_char(a), hex_digit_char(b)]);
    assert(ds.drop_last().drop_last().drop_last() =~= seq![hex_digit_char(a)]);
    assert(ds.drop_last().drop_last().drop_last().drop_last() =~= Seq::<char>::empty());
    assert(hex_digits_value(ds.drop_last().drop_last().drop_last().drop_last()) == Some(0nat));
    assert(ds.drop_last().drop_last().drop_last().last() == hex_digit_char(a));
    assert(hex_digits_value(ds.drop_last().drop_last().drop_last()) == Some(a));
    assert(hex_digits_value(ds.drop_last().drop_last()) == Some(a * 16 + b));
    assert(hex_digits_value(ds.drop_last()) == Some((a * 16 + b) * 16 + c));
    assert(hex_digits_value(ds) == Some(((a * 16 + b) * 16 + c) * 16 + d));
    assert(parse_hex(ds) == Some(((a * 16 + b) * 16 + c) * 16 + d));
    assert(t.skip(6) =~= r);
    lemma_unescaped_from_shift(t, 6);
    let x = seq!['\\', 'x', hex_digit_char(c), hex_digit_char(d)] + r;
    let xs = x.subrange(2, 4);
    assert(xs =~= seq![hex_digit_char(c), hex_digit_char(d)]);
    assert(xs.drop_last() =~= seq![hex_digit_char(c)]);
    assert(xs.drop_last().drop_last() =~= Seq::<char>::empty());
    assert(hex_digits_value(xs.drop_last().drop_last()) == Some(0nat));
    assert(xs.drop_last().last() == hex_digit_char(c));
    assert(hex_digits_value(xs.drop_last()) == Some(c));
    assert(hex_digits_value(xs) == Some(c * 16 + d));
    assert(parse_hex(xs) == Some(c * 16 + d));
    assert(x.skip(4) =~= r);
    lemma_unescaped_from_shift(x, 4);
}

/// Law: a translated document URL is `../`, the book id and `/`, followed by
/// the whole document URL with backslashes made slashes and only a leading
/// `./` (or `.\`) removed: every character after that prefix appears, in
/// order, at the end of the result.
pub proof fn lemma_translated_doc_url_keeps_path(book_id: Seq<char>, doc_url: Seq<char>)
    ensures
        ({
            let k: int = if doc_url.len() >= 2 && doc_url[0] == '.' && (doc_url[1] == '/' || doc_url[1] == '\\') {
                2
            } else {
                0
            };
            let r = translated_doc_url(book_id, doc_url);
            let h: int = book_id.len() as int + 4;
            &&& r.len() == h + doc_url.len() - k
            &&& r.take(h) == seq!['.', '.', '/'] + book_id + seq!['/']
            &&& forall|j: int|
                k <= j < doc_url.len() ==> #[trigger] r[h + j - k] == (if doc_url[j] == '\\' {
                    '/'
                } else {
                    doc_url[j]
                })
        }),
{
    let r = translated_doc_url(book_id, doc_url);
    let h: int = book_id.len() as int + 4;
    assert(r.take(h) =~= seq!['.', '.', '/'] + book_id + seq!['/']);
}

} // verus!
