//! JSON string literals: how text is written between quotes, and how it is
//! read back.

use crate::text::digit_char;
use vstd::prelude::*;

verus! {

/// The character that stands for the hexadecimal digit `d`, in lower case.
pub open spec fn hex_digit_char(d: int) -> char {
    if d < 10 {
        digit_char(d)
    } else if d == 10 {
        'a'
    } else if d == 11 {
        'b'
    } else if d == 12 {
        'c'
    } else if d == 13 {
        'd'
    } else if d == 14 {
        'e'
    } else {
        'f'
    }
}

/// The value of a lower-case hexadecimal digit.
pub open spec fn hex_value(c: char) -> Option<int> {
    if c == '0' {
        Some(0)
    } else if c == '1' {
        Some(1)
    } else if c == '2' {
        Some(2)
    } else if c == '3' {
        Some(3)
    } else if c == '4' {
        Some(4)
    } else if c == '5' {
        Some(5)
    } else if c == '6' {
        Some(6)
    } else if c == '7' {
        Some(7)
    } else if c == '8' {
        Some(8)
    } else if c == '9' {
        Some(9)
    } else if c == 'a' {
        Some(10)
    } else if c == 'b' {
        Some(11)
    } else if c == 'c' {
        Some(12)
    } else if c == 'd' {
        Some(13)
    } else if c == 'e' {
        Some(14)
    } else if c == 'f' {
        Some(15)
    } else {
        None
    }
}

/// How one character stands inside a JSON string literal. The quote and the
/// backslash get a backslash in front; backspace, form feed, line feed,
/// carriage return and tab are written as `\b`, `\f`, `\n`, `\r`, `\t`; any
/// other character below U+0020 as `\u00` and two lower-case hexadecimal
/// digits; every other character as itself.
pub open spec fn escaped_char(c: char) -> Seq<char> {
    if c == '"' {
        seq!['\\', '"']
    } else if c == '\\' {
        seq!['\\', '\\']
    } else if c == '\u{8}' {
        seq!['\\', 'b']
    } else if c == '\u{c}' {
        seq!['\\', 'f']
    } else if c == '\n' {
        seq!['\\', 'n']
    } else if c == '\r' {
        seq!['\\', 'r']
    } else if c == '\t' {
        seq!['\\', 't']
    } else if (c as u32) < 0x20 {
        seq![
            '\\',
            'u',
            '0',
            '0',
            hex_digit_char(c as u32 as int / 16),
            hex_digit_char(c as u32 as int % 16),
        ]
    } else {
        seq![c]
    }
}

/// Text as it stands inside a JSON string literal.
pub open spec fn escaped(text: Seq<char>) -> Seq<char>
    decreases text.len(),
{
    if text.len() == 0 {
        Seq::empty()
    } else {
        escaped_char(text[0]) + escaped(text.drop_first())
    }
}

/// Text as a JSON string literal: escaped, between two quotes.
pub open spec fn quoted(text: Seq<char>) -> Seq<char> {
    seq!['"'] + escaped(text) + seq!['"']
}

/// The character that an escape sequence or a plain character at `at`
/// stands for, and the offset behind it. `None` where no character of a
/// string literal stands at `at`: at a quote, at a control character, at a
/// backslash that begins no escape sequence of those that `escaped_char`
/// writes.
pub open spec fn unescaped_at(input: Seq<char>, at: int) -> Option<(char, int)>
    recommends
        0 <= at < input.len(),
{
    let c = input[at];
    if c == '"' {
        None
    } else if c == '\\' {
        if at + 1 >= input.len() {
            None
        } else {
            let e = input[at + 1];
            if e == '"' {
                Some(('"', at + 2))
            } else if e == '\\' {
                Some(('\\', at + 2))
            } else if e == 'b' {
                Some(('\u{8}', at + 2))
            } else if e == 'f' {
                Some(('\u{c}', at + 2))
            } else if e == 'n' {
                Some(('\n', at + 2))
            } else if e == 'r' {
                Some(('\r', at + 2))
            } else if e == 't' {
                Some(('\t', at + 2))
            } else if e == 'u' && at + 6 <= input.len() && input[at + 2] == '0' && input[at + 3]
                == '0' {
                match (hex_value(input[at + 4]), hex_value(input[at + 5])) {
                    (Some(high), Some(low)) if high * 16 + low < 0x20 => Some(
                        ((high * 16 + low) as u8 as char, at + 6),
                    ),
                    _ => None,
                }
            } else {
                None
            }
        }
    } else if (c as u32) < 0x20 {
        None
    } else {
        Some((c, at + 1))
    }
}

/// The text of a string literal whose opening quote stands just before `at`,
/// and the offset behind its closing quote. `None` where the input holds no
/// complete literal there.
pub open spec fn unquoted_from(input: Seq<char>, at: int) -> Option<(Seq<char>, int)>
    decreases input.len() - at,
{
    if at < 0 || at >= input.len() {
        None
    } else if input[at] == '"' {
        Some((Seq::empty(), at + 1))
    } else {
        match unescaped_at(input, at) {
            Some((c, next)) => match unquoted_from(input, next) {
                Some((rest, end)) => Some((seq![c] + rest, end)),
                None => None,
            },
            None => None,
        }
    }
}

/// The text of the string literal that begins at `at`, and the offset behind
/// it.
pub open spec fn quoted_at(input: Seq<char>, at: int) -> Option<(Seq<char>, int)> {
    if 0 <= at < input.len() && input[at] == '"' {
        unquoted_from(input, at + 1)
    } else {
        None
    }
}

/// A string literal holds no control character: none below U+0020, so no
/// line feed.
pub proof fn lemma_quoted_has_no_control(text: Seq<char>)
    ensures
        forall|i: int| 0 <= i < escaped(text).len() ==> (#[trigger] escaped(text)[i]) as u32 >= 0x20,
        forall|i: int| 0 <= i < quoted(text).len() ==> (#[trigger] quoted(text)[i]) as u32 >= 0x20,
    decreases text.len(),
{
    if text.len() > 0 {
        lemma_quoted_has_no_control(text.drop_first());
        let head = escaped_char(text[0]);
        assert forall|k: int| 0 <= k < head.len() implies (#[trigger] head[k]) as u32 >= 0x20 by {}
        assert forall|i: int| 0 <= i < escaped(text).len() implies (#[trigger] escaped(text)[i])
            as u32 >= 0x20 by {
            if i < head.len() {
                assert(escaped(text)[i] == head[i]);
            } else {
                assert(escaped(text)[i] == escaped(text.drop_first())[i - head.len()]);
            }
        }
    }
    assert forall|i: int| 0 <= i < quoted(text).len() implies (#[trigger] quoted(text)[i]) as u32
        >= 0x20 by {
        if 0 < i && i <= escaped(text).len() {
            assert(quoted(text)[i] == escaped(text)[i - 1]);
        }
    }
}

/// Reading an escaped character gives the character back.
pub proof fn lemma_unescape_inverts(input: Seq<char>, at: int, c: char)
    requires
        0 <= at,
        at + escaped_char(c).len() <= input.len(),
        input.subrange(at, at + escaped_char(c).len()) == escaped_char(c),
    ensures
        unescaped_at(input, at) == Some((c, at + escaped_char(c).len())),
{
    let e = escaped_char(c);
    assert forall|k: int| 0 <= k < e.len() implies input[at + k] == e[k] by {
        assert(input.subrange(at, at + e.len())[k] == input[at + k]);
    }
    assert(input[at] == e[0]);
    if e.len() >= 2 {
        assert(input[at + 1] == e[1]);
    }
    if e.len() == 6 {
        assert(input[at + 2] == e[2]);
        assert(input[at + 3] == e[3]);
        assert(input[at + 4] == e[4]);
        assert(input[at + 5] == e[5]);
        let v = c as u32 as int;
        assert(hex_value(hex_digit_char(v / 16)) == Some(v / 16));
        assert(hex_value(hex_digit_char(v % 16)) == Some(v % 16));
        assert((v / 16) * 16 + v % 16 == v);
        assert((v as u8) as char == c);
    }
}

/// Reading escaped text up to the closing quote gives the text back.
pub proof fn lemma_unquote_inverts(input: Seq<char>, at: int, text: Seq<char>)
    requires
        0 <= at,
        at + escaped(text).len() < input.len(),
        input.subrange(at, at + escaped(text).len()) == escaped(text),
        input[at + escaped(text).len()] == '"',
    ensures
        unquoted_from(input, at) == Some((text, at + escaped(text).len() + 1)),
    decreases text.len(),
{
    if text.len() == 0 {
    } else {
        let c = text[0];
        let e = escaped_char(c);
        let rest = text.drop_first();
        let whole = escaped(text);
        assert(whole == e + escaped(rest));
        assert(input.subrange(at, at + e.len()) =~= e) by {
            assert forall|k: int| 0 <= k < e.len() implies input[at + k] == e[k] by {
                assert(input.subrange(at, at + whole.len())[k] == input[at + k]);
                assert(whole[k] == e[k]);
            }
        }
        lemma_unescape_inverts(input, at, c);
        let next = at + e.len();
        assert(input.subrange(next, next + escaped(rest).len()) =~= escaped(rest)) by {
            assert forall|k: int| 0 <= k < escaped(rest).len() implies input[next + k] == escaped(
                rest,
            )[k] by {
                assert(input.subrange(at, at + whole.len())[e.len() + k] == input[next + k]);
                assert(whole[e.len() + k] == escaped(rest)[k]);
            }
        }
        lemma_unquote_inverts(input, next, rest);
        assert(input[at] != '"');
        assert(seq![c] + rest =~= text);
    }
}

/// Reading a string literal gives its text back, whatever stands around it.
pub proof fn lemma_quoted_round_trip(input: Seq<char>, at: int, text: Seq<char>)
    requires
        0 <= at,
        at + quoted(text).len() <= input.len(),
        input.subrange(at, at + quoted(text).len()) == quoted(text),
    ensures
        quoted_at(input, at) == Some((text, at + quoted(text).len())),
{
    let q = quoted(text);
    let e = escaped(text);
    assert(q.len() == e.len() + 2);
    assert forall|k: int| 0 <= k < q.len() implies input[at + k] == q[k] by {
        assert(input.subrange(at, at + q.len())[k] == input[at + k]);
    }
    assert(input[at] == q[0]);
    assert(input[at + 1 + e.len()] == q[1 + e.len() as int]);
    assert(input.subrange(at + 1, at + 1 + e.len()) =~= e) by {
        assert forall|k: int| 0 <= k < e.len() implies input[at + 1 + k] == e[k] by {
            assert(q[1 + k] == e[k]);
        }
    }
    lemma_unquote_inverts(input, at + 1, text);
}

/// serde_json's `to_string` on a string slice: the text as a JSON string
/// literal. serde_json writes the two quotes and, between them, each
/// character as `escaped_char` says. It writes into a vector of bytes, which
/// takes every write, so a string slice is always serialized.
#[verifier::external_body]
pub(crate) fn json_string(text: &str) -> (literal: Option<String>)
    ensures
        literal is Some,
        literal matches Some(l) ==> l@ == quoted(text@),
{
    serde_json::to_string(text).ok()
}

/// The value of a lower-case hexadecimal digit.
pub fn hex_digit_value(c: char) -> (value: Option<u8>)
    ensures
        match value {
            Some(v) => hex_value(c) == Some(v as int),
            None => hex_value(c) is None,
        },
{
    match c {
        '0' => Some(0),
        '1' => Some(1),
        '2' => Some(2),
        '3' => Some(3),
        '4' => Some(4),
        '5' => Some(5),
        '6' => Some(6),
        '7' => Some(7),
        '8' => Some(8),
        '9' => Some(9),
        'a' => Some(10),
        'b' => Some(11),
        'c' => Some(12),
        'd' => Some(13),
        'e' => Some(14),
        'f' => Some(15),
        _ => None,
    }
}

/// Reads the character that stands at `at` inside a string literal.
pub fn read_char(input: &[char], at: usize) -> (read: Option<(char, usize)>)
    requires
        at < input.len(),
    ensures
        match read {
            Some((c, next)) => unescaped_at(input@, at as int) == Some((c, next as int)) && at
                < next <= input.len(),
            None => unescaped_at(input@, at as int) is None,
        },
{
    let c = input[at];
    if c == '"' {
        None
    } else if c == '\\' {
        let left = input.len() - at;
        if left < 2 {
            return None;
        }
        let e = input[at + 1];
        if e == '"' {
            Some(('"', at + 2))
        } else if e == '\\' {
            Some(('\\', at + 2))
        } else if e == 'b' {
            Some(('\u{8}', at + 2))
        } else if e == 'f' {
            Some(('\u{c}', at + 2))
        } else if e == 'n' {
            Some(('\n', at + 2))
        } else if e == 'r' {
            Some(('\r', at + 2))
        } else if e == 't' {
            Some(('\t', at + 2))
        } else if e == 'u' && left >= 6 && input[at + 2] == '0' && input[at + 3] == '0' {
            match (hex_digit_value(input[at + 4]), hex_digit_value(input[at + 5])) {
                (Some(high), Some(low)) => {
                    let value: u8 = high * 16 + low;
                    if value < 0x20 {
                        Some((value as char, at + 6))
                    } else {
                        None
                    }
                },
                _ => None,
            }
        } else {
            None
        }
    } else if (c as u32) < 0x20 {
        None
    } else {
        Some((c, at + 1))
    }
}

/// Reads the string literal that begins at `at`: its text, and the offset
/// behind its closing quote.
pub fn read_quoted(input: &[char], at: usize) -> (read: Option<(String, usize)>)
    ensures
        match read {
            Some((text, end)) => quoted_at(input@, at as int) == Some((text@, end as int)) && at
                < end <= input.len(),
            None => quoted_at(input@, at as int) is None,
        },
{
    if at >= input.len() || input[at] != '"' {
        return None;
    }
    let mut text = String::new();
    let mut i: usize = at + 1;
    loop
        invariant
            at < i <= input.len(),
            quoted_at(input@, at as int) == match unquoted_from(input@, i as int) {
                Some((rest, end)) => Some((text@ + rest, end)),
                None => None,
            },
        decreases input.len() - i,
    {
        if i >= input.len() {
            return None;
        }
        if input[i] == '"' {
            assert(text@ + Seq::<char>::empty() == text@);
            return Some((text, i + 1));
        }
        match read_char(input, i) {
            Some((c, next)) => {
                proof {
                    let before = text@;
                    match unquoted_from(input@, next as int) {
                        Some((rest, end)) => {
                            assert(before + (seq![c] + rest) == before.push(c) + rest);
                        },
                        None => {},
                    }
                }
                text.push(c);
                i = next;
            },
            None => {
                return None;
            },
        }
    }
}

/// The offset behind `literal` where the input holds it at `at`.
pub open spec fn literal_at(input: Seq<char>, at: int, literal: Seq<char>) -> Option<int> {
    if 0 <= at && at + literal.len() <= input.len() && input.subrange(at, at + literal.len())
        == literal {
        Some(at + literal.len())
    } else {
        None
    }
}

/// Reads `literal` at `at`: the offset behind it, if it stands there.
pub fn read_literal(input: &[char], at: usize, literal: &[char]) -> (read: Option<usize>)
    ensures
        match read {
            Some(end) => literal_at(input@, at as int, literal@) == Some(end as int) && end
                <= input.len(),
            None => literal_at(input@, at as int, literal@) is None,
        },
{
    if at > input.len() || input.len() - at < literal.len() {
        return None;
    }
    let mut k: usize = 0;
    while k < literal.len()
        invariant
            k <= literal.len(),
            at + literal.len() <= input.len(),
            input@.subrange(at as int, at + k) == literal@.take(k as int),
        decreases literal.len() - k,
    {
        if input[at + k] != literal[k] {
            proof {
                let held = input@.subrange(at as int, at + literal.len());
                assert(held[k as int] == input@[at + k]);
            }
            return None;
        }
        proof {
            assert(input@.subrange(at as int, at + k + 1) =~= input@.subrange(
                at as int,
                at + k,
            ).push(input@[at + k]));
            assert(literal@.take(k + 1) =~= literal@.take(k as int).push(literal@[k as int]));
        }
        k += 1;
    }
    assert(literal@.take(literal.len() as int) == literal@);
    Some(at + literal.len())
}

} // verus!
