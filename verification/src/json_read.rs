//! Reading JSON text (RFC 8259) back: string literals with their escapes,
//! and objects whose members all have string values, in arrays.
use vstd::prelude::*;
use crate::escape::{flat_map_chars, json_escape_char, json_escaped, lemma_flat_map_concat, lemma_flat_map_single};

verus! {

/// The JSON whitespace characters.
pub open spec fn is_json_ws(c: char) -> bool {
    c == ' ' || c == '\t' || c == '\n' || c == '\r'
}

/// `t` without its leading whitespace.
pub open spec fn skip_ws(t: Seq<char>) -> Seq<char>
    decreases t.len(),
{
    if t.len() > 0 && is_json_ws(t[0]) {
        skip_ws(t.skip(1))
    } else {
        t
    }
}

/// What follows the character `c` that starts `t` after its whitespace.
pub open spec fn after_char(t: Seq<char>, c: char) -> Option<Seq<char>> {
    let u = skip_ws(t);
    if u.len() > 0 && u[0] == c {
        Some(u.skip(1))
    } else {
        None
    }
}

/// The character that a two-character escape `\e` stands for.
pub open spec fn simple_escape(e: char) -> Option<char> {
    if e == '"' {
        Some('"')
    } else if e == '\\' {
        Some('\\')
    } else if e == '/' {
        Some('/')
    } else if e == 'b' {
        Some('\u{8}')
    } else if e == 'f' {
        Some('\u{c}')
    } else if e == 'n' {
        Some('\n')
    } else if e == 'r' {
        Some('\r')
    } else if e == 't' {
        Some('\t')
    } else {
        None
    }
}

/// The value of a hexadecimal digit.
pub open spec fn hex_value(c: char) -> Option<int> {
    if '0' <= c && c <= '9' {
        Some(c as int - '0' as int)
    } else if 'a' <= c && c <= 'f' {
        Some(c as int - 'a' as int + 10)
    } else if 'A' <= c && c <= 'F' {
        Some(c as int - 'A' as int + 10)
    } else {
        None
    }
}

/// The value of the four hexadecimal digits at `t[i..i + 4]`.
pub open spec fn hex4(t: Seq<char>, i: int) -> Option<int> {
    match (hex_value(t[i]), hex_value(t[i + 1]), hex_value(t[i + 2]), hex_value(t[i + 3])) {
        (Some(a), Some(b), Some(c), Some(d)) => Some(((a * 16 + b) * 16 + c) * 16 + d),
        _ => None,
    }
}

/// Prepends `c` to the text of a read result.
pub open spec fn prepend(c: char, r: Option<(Seq<char>, Seq<char>)>) -> Option<(Seq<char>, Seq<char>)> {
    match r {
        Some((s, rest)) => Some((seq![c] + s, rest)),
        None => None,
    }
}

/// Reads the rest of a JSON string literal after its opening quote: the
/// text it stands for, escapes decoded, and what follows its closing quote;
/// `None` where `t` holds no valid rest of a string literal.
pub open spec fn string_rest(t: Seq<char>) -> Option<(Seq<char>, Seq<char>)>
    decreases t.len(),
{
    if t.len() == 0 {
        None
    } else if t[0] == '"' {
        Some((Seq::empty(), t.skip(1)))
    } else if t[0] == '\\' {
        if t.len() < 2 {
            None
        } else if simple_escape(t[1]) is Some {
            prepend(simple_escape(t[1])->0, string_rest(t.skip(2)))
        } else if t[1] == 'u' && t.len() >= 6 && hex4(t, 2) is Some {
            let v = hex4(t, 2)->0;
            if 0xD800 <= v && v < 0xDC00 {
                if t.len() >= 12 && t[6] == '\\' && t[7] == 'u' && hex4(t, 8) is Some && 0xDC00 <= hex4(t, 8)->0
                    && hex4(t, 8)->0 < 0xE000 {
                    let w = hex4(t, 8)->0;
                    prepend((0x10000 + (v - 0xD800) * 0x400 + (w - 0xDC00)) as char, string_rest(t.skip(12)))
                } else {
                    None
                }
            } else if 0xDC00 <= v && v < 0xE000 {
                None
            } else {
                prepend(v as char, string_rest(t.skip(6)))
            }
        } else {
            None
        }
    } else if (t[0] as int) < 0x20 {
        None
    } else {
        prepend(t[0], string_rest(t.skip(1)))
    }
}

/// Reads a JSON string literal at the front of `t`, after whitespace.
pub open spec fn read_string(t: Seq<char>) -> Option<(Seq<char>, Seq<char>)> {
    match after_char(t, '"') {
        Some(u) => string_rest(u),
        None => None,
    }
}

/// Reads an object member whose value is a string: key, `:`, value.
pub open spec fn read_member(t: Seq<char>) -> Option<((Seq<char>, Seq<char>), Seq<char>)> {
    match read_string(t) {
        Some((k, t1)) => match after_char(t1, ':') {
            Some(t2) => match read_string(t2) {
                Some((v, t3)) => Some(((k, v), t3)),
                None => None,
            },
            None => None,
        },
        None => None,
    }
}

/// Reads the members of an object, the first at the front of `t`, up to and
/// including the closing `}`.
pub open spec fn read_members(t: Seq<char>) -> Option<(Seq<(Seq<char>, Seq<char>)>, Seq<char>)>
    decreases t.len(),
{
    match read_member(t) {
        Some((m, t3)) => match after_char(t3, ',') {
            Some(t4) => if t4.len() < t.len() {
                match read_members(t4) {
                    Some((ms, t5)) => Some((seq![m] + ms, t5)),
                    None => None,
                }
            } else {
                None
            },
            None => match after_char(t3, '}') {
                Some(t5) => Some((seq![m], t5)),
                None => None,
            },
        },
        None => None,
    }
}

/// Reads an object whose members all have string values, at the front of
/// `t`: its members in order, and what follows it.
pub open spec fn read_object(t: Seq<char>) -> Option<(Seq<(Seq<char>, Seq<char>)>, Seq<char>)> {
    match after_char(t, '{') {
        Some(u) => match after_char(u, '}') {
            Some(r) => Some((Seq::empty(), r)),
            None => read_members(u),
        },
        None => None,
    }
}

/// Reads the objects of an array, the first at the front of `t`, up to and
/// including the closing `]`.
pub open spec fn read_objects(t: Seq<char>) -> Option<(Seq<Seq<(Seq<char>, Seq<char>)>>, Seq<char>)>
    decreases t.len(),
{
    match read_object(t) {
        Some((o, t1)) => match after_char(t1, ',') {
            Some(t2) => if t2.len() < t.len() {
                match read_objects(t2) {
                    Some((os, t3)) => Some((seq![o] + os, t3)),
                    None => None,
                }
            } else {
                None
            },
            None => match after_char(t1, ']') {
                Some(t3) => Some((seq![o], t3)),
                None => None,
            },
        },
        None => None,
    }
}

/// Reads an array of such objects at the front of `t`.
pub open spec fn read_array(t: Seq<char>) -> Option<(Seq<Seq<(Seq<char>, Seq<char>)>>, Seq<char>)> {
    match after_char(t, '[') {
        Some(u) => match after_char(u, ']') {
            Some(r) => Some((Seq::empty(), r)),
            None => read_objects(u),
        },
        None => None,
    }
}

/// A character that a JSON string may hold as it is: not below U+0020.
/// `\n`, `\r` and `\t` are allowed too, as the string escape writes them
/// as escapes.
pub open spec fn json_safe_char(c: char) -> bool {
    (c as int) >= 0x20 || c == '\n' || c == '\r' || c == '\t'
}

/// A text whose every character is safe.
pub open spec fn json_safe(s: Seq<char>) -> bool {
    forall|i: int| 0 <= i < s.len() ==> json_safe_char(#[trigger] s[i])
}

/// A text that a string literal holds unescaped: no `"`, no `\`, nothing
/// below U+0020.
pub open spec fn json_plain(k: Seq<char>) -> bool
    decreases k.len(),
{
    k.len() == 0 || (k[0] != '"' && k[0] != '\\' && (k[0] as int) >= 0x20 && json_plain(k.skip(1)))
}

pub proof fn lemma_skip_ws_none(t: Seq<char>)
    requires
        t.len() > 0,
        !is_json_ws(t[0]),
    ensures
        skip_ws(t) == t,
{
}

/// `c` followed by `x`: reading `c` leaves `x`, reading another character
/// fails.
pub proof fn lemma_after_char(c: char, x: Seq<char>, d: char)
    requires
        !is_json_ws(c),
    ensures
        after_char(seq![c] + x, d) == (if c == d {
            Some(x)
        } else {
            None::<Seq<char>>
        }),
{
    let t = seq![c] + x;
    assert(t[0] == c);
    lemma_skip_ws_none(t);
    assert(t.skip(1) =~= x);
}

proof fn lemma_json_escaped_front(s: Seq<char>)
    requires
        s.len() > 0,
    ensures
        json_escaped(s) == json_escape_char(s[0]) + json_escaped(s.skip(1)),
{
    let f = |c: char| json_escape_char(c);
    assert(s =~= seq![s[0]] + s.skip(1));
    lemma_flat_map_concat(seq![s[0]], s.skip(1), f);
    lemma_flat_map_single(s[0], f);
}

/// Law: a safe text, escaped and closed by a quote, reads back to itself.
pub proof fn lemma_string_rest_escaped(s: Seq<char>, r: Seq<char>)
    requires
        json_safe(s),
    ensures
        string_rest(json_escaped(s) + seq!['"'] + r) == Some((s, r)),
    decreases s.len(),
{
    let t = json_escaped(s) + seq!['"'] + r;
    if s.len() == 0 {
        assert(json_escaped(s) =~= Seq::<char>::empty());
        assert(t =~= seq!['"'] + r);
        assert(t[0] == '"');
        assert(t.skip(1) =~= r);
    } else {
        let c = s[0];
        let tail = s.skip(1);
        assert(json_safe_char(s[0]));
        assert forall|i: int| 0 <= i < tail.len() implies json_safe_char(#[trigger] tail[i]) by {
            assert(tail[i] == s[i + 1]);
        }
        lemma_string_rest_escaped(tail, r);
        lemma_json_escaped_front(s);
        let rest = json_escaped(tail) + seq!['"'] + r;
        assert(t =~= json_escape_char(c) + rest);
        if c == '\\' || c == '"' || c == '\n' || c == '\r' || c == '\t' {
            assert(t[0] == '\\');
            assert(t.skip(2) =~= rest);
            assert(seq![c] + tail =~= s);
        } else {
            assert(t[0] == c);
            assert(t.skip(1) =~= rest);
            assert(seq![c] + tail =~= s);
        }
    }
}

/// A plain text closed by a quote reads back to itself.
pub proof fn lemma_string_rest_plain(k: Seq<char>, r: Seq<char>)
    requires
        json_plain(k),
    ensures
        string_rest(k + seq!['"'] + r) == Some((k, r)),
    decreases k.len(),
{
    let t = k + seq!['"'] + r;
    if k.len() == 0 {
        assert(t =~= seq!['"'] + r);
        assert(t[0] == '"');
        assert(t.skip(1) =~= r);
    } else {
        lemma_string_rest_plain(k.skip(1), r);
        assert(t[0] == k[0]);
        assert(t.skip(1) =~= k.skip(1) + seq!['"'] + r);
        assert(seq![k[0]] + k.skip(1) =~= k);
    }
}

/// A member `"k":"escaped v"` reads back to `(k, v)`.
pub proof fn lemma_read_member(k: Seq<char>, v: Seq<char>, r: Seq<char>)
    requires
        json_plain(k),
        json_safe(v),
    ensures
        read_member(seq!['"'] + k + seq!['"', ':', '"'] + json_escaped(v) + seq!['"'] + r) == Some(((k, v), r)),
{
    let t = seq!['"'] + k + seq!['"', ':', '"'] + json_escaped(v) + seq!['"'] + r;
    let t1 = seq![':', '"'] + json_escaped(v) + seq!['"'] + r;
    let t2 = json_escaped(v) + seq!['"'] + r;
    assert(t =~= seq!['"'] + (k + seq!['"'] + t1));
    lemma_after_char('"', k + seq!['"'] + t1, '"');
    lemma_string_rest_plain(k, t1);
    assert(t1 =~= seq![':'] + (seq!['"'] + t2));
    lemma_after_char(':', seq!['"'] + t2, ':');
    lemma_after_char('"', t2, '"');
    lemma_string_rest_escaped(v, r);
}

} // verus!
