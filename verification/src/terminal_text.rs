//! Rendering untrusted values in human terminal output.

use vstd::prelude::*;
use crate::text::{self, chars_of, concat, push_str, write_hex};

verus! {

/// The control characters (general category `Cc`).
pub open spec fn is_control(c: char) -> bool {
    c <= '\u{1f}' || '\u{7f}' <= c <= '\u{9f}'
}

/// Invisible characters that reorder or hide text.
pub open spec fn is_format_control(c: char) -> bool {
    c == '\u{061c}' || '\u{200b}' <= c <= '\u{200f}' || '\u{202a}' <= c <= '\u{202e}' || '\u{2060}'
        <= c <= '\u{2069}' || c == '\u{feff}'
}

/// What a terminal may show as it is.
pub open spec fn is_safe(c: char) -> bool {
    !is_control(c) && !is_format_control(c)
}

pub open spec fn all_safe(s: Seq<char>) -> bool {
    forall|i: int| 0 <= i < s.len() ==> is_safe(#[trigger] s[i])
}

/// How one character is shown.
pub open spec fn escaped_char(c: char) -> Seq<char> {
    if c == '\n' {
        seq!['\\', 'n']
    } else if c == '\r' {
        seq!['\\', 'r']
    } else if c == '\t' {
        seq!['\\', 't']
    } else if is_safe(c) {
        seq![c]
    } else if c <= '\u{ff}' {
        seq!['\\', 'x'] + text::padded_left(text::numeral(c as nat, 16), '0', 2)
    } else {
        seq!['\\', 'u', '{'] + text::numeral(c as nat, 16) + seq!['}']
    }
}

/// How a text is shown: character by character.
pub open spec fn escaped(s: Seq<char>) -> Seq<char>
    decreases s.len(),
{
    if s.len() == 0 {
        Seq::empty()
    } else {
        escaped(s.drop_last()) + escaped_char(s.last())
    }
}

pub fn is_dangerous_format_control(ch: char) -> (r: bool)
    ensures
        r == is_format_control(ch),
{
    ch == '\u{061c}' || ('\u{200b}' <= ch && ch <= '\u{200f}') || ('\u{202a}' <= ch && ch
        <= '\u{202e}') || ('\u{2060}' <= ch && ch <= '\u{2069}') || ch == '\u{feff}'
}

pub fn is_control_char(ch: char) -> (r: bool)
    ensures
        r == is_control(ch),
{
    ch <= '\u{1f}' || ('\u{7f}' <= ch && ch <= '\u{9f}')
}

fn escape_char(ch: char) -> (r: String)
    ensures
        r@ == escaped_char(ch),
{
    proof {
        reveal_strlit("\\n");
        reveal_strlit("\\r");
        reveal_strlit("\\t");
        reveal_strlit("\\x");
        reveal_strlit("\\u{");
        reveal_strlit("}");
        assert("\\n"@ =~= seq!['\\', 'n']);
        assert("\\r"@ =~= seq!['\\', 'r']);
        assert("\\t"@ =~= seq!['\\', 't']);
        assert("\\x"@ =~= seq!['\\', 'x']);
        assert("\\u{"@ =~= seq!['\\', 'u', '{']);
        assert("}"@ =~= seq!['}']);
    }
    if ch == '\n' {
        "\\n".to_owned()
    } else if ch == '\r' {
        "\\r".to_owned()
    } else if ch == '\t' {
        "\\t".to_owned()
    } else if is_control_char(ch) || is_dangerous_format_control(ch) {
        let code: u32 = ch as u32;
        if code <= 0xff {
            concat("\\x", write_hex(code as u64, 2).as_str())
        } else {
            let head = concat("\\u{", write_hex(code as u64, 0).as_str());
            concat(head.as_str(), "}")
        }
    } else {
        let mut s = String::new();
        s.push(ch);
        proof {
            assert(s@ =~= seq![ch]);
        }
        s
    }
}

/// Escape terminal controls and invisible formatting characters so registry or
/// log data cannot move the cursor, write OSC sequences, or visually spoof rows.
pub fn display_text(value: &str) -> (r: String)
    ensures
        r@ == escaped(value@),
{
    let v = chars_of(value);
    let mut out = String::new();
    let mut i: usize = 0;
    while i < v.len()
        invariant
            i <= v.len(),
            v@ == value@,
            out@ == escaped(v@.take(i as int)),
        decreases v.len() - i,
    {
        let piece = escape_char(v[i]);
        push_str(&mut out, piece.as_str());
        proof {
            assert(v@.take(i + 1).drop_last() =~= v@.take(i as int));
        }
        i += 1;
    }
    proof {
        assert(v@.take(v@.len() as int) =~= value@);
    }
    out
}

proof fn numeral_is_safe(n: nat)
    ensures
        all_safe(text::numeral(n, 16)),
    decreases n,
{
    if n >= 16 {
        numeral_is_safe(n / 16);
        assert(0 <= n % 16 < 16);
    }
    let d = (n % 16) as int;
    assert(is_safe(text::digit(d)));
    if n < 16 {
        assert(n % 16 == n);
    }
}

proof fn escaped_char_is_safe(c: char)
    ensures
        all_safe(escaped_char(c)),
{
    numeral_is_safe(c as nat);
}

/// What is displayed holds no control character and no invisible formatting
/// character, whatever the input was.
pub proof fn display_is_safe(s: Seq<char>)
    ensures
        all_safe(escaped(s)),
    decreases s.len(),
{
    if s.len() > 0 {
        display_is_safe(s.drop_last());
        escaped_char_is_safe(s.last());
    }
}

/// Text that is safe already is displayed as it stands.
pub proof fn display_keeps_safe_text(s: Seq<char>)
    requires
        all_safe(s),
    ensures
        escaped(s) == s,
    decreases s.len(),
{
    if s.len() > 0 {
        assert(all_safe(s.drop_last()));
        display_keeps_safe_text(s.drop_last());
        assert(is_safe(s[s.len() - 1]));
        assert(s.drop_last() + seq![s.last()] =~= s);
    } else {
        assert(s =~= Seq::<char>::empty());
    }
}

/// Displaying what was displayed changes nothing.
pub proof fn display_twice_is_display(s: Seq<char>)
    ensures
        escaped(escaped(s)) == escaped(s),
{
    display_is_safe(s);
    display_keeps_safe_text(escaped(s));
}

/// Two texts displayed one behind the other are the display of the whole.
pub proof fn display_of_concatenation(a: Seq<char>, b: Seq<char>)
    ensures
        escaped(a + b) == escaped(a) + escaped(b),
    decreases b.len(),
{
    if b.len() == 0 {
        assert(a + b =~= a);
        assert(escaped(a) + escaped(b) =~= escaped(a));
    } else {
        assert((a + b).drop_last() =~= a + b.drop_last());
        display_of_concatenation(a, b.drop_last());
        assert(escaped(a + b) =~= escaped(a) + escaped(b));
    }
}

/// One character of a JSON text: unsafe ones as a JSON escape, line ends kept.
pub open spec fn json_escaped_char(c: char) -> Seq<char> {
    if c == '\n' || is_safe(c) {
        seq![c]
    } else {
        seq!['\\', 'u'] + text::padded_left(text::numeral(c as nat, 16), '0', 4)
    }
}

pub open spec fn json_escaped(s: Seq<char>) -> Seq<char>
    decreases s.len(),
{
    if s.len() == 0 {
        Seq::empty()
    } else {
        json_escaped(s.drop_last()) + json_escaped_char(s.last())
    }
}

fn escape_json_char(ch: char) -> (r: String)
    ensures
        r@ == json_escaped_char(ch),
{
    proof {
        reveal_strlit("\\u");
        assert("\\u"@ =~= seq!['\\', 'u']);
    }
    if ch == '\n' || !(is_control_char(ch) || is_dangerous_format_control(ch)) {
        let mut s = String::new();
        s.push(ch);
        proof {
            assert(s@ =~= seq![ch]);
        }
        s
    } else {
        let code: u32 = ch as u32;
        concat("\\u", write_hex(code as u64, 4).as_str())
    }
}

/// A JSON text made safe for a terminal. Unsafe characters can only stand
/// inside its strings, so it still means the same.
pub fn terminal_safe_json(json: &str) -> (r: String)
    ensures
        r@ == json_escaped(json@),
{
    let v = chars_of(json);
    let mut out = String::new();
    let mut i: usize = 0;
    while i < v.len()
        invariant
            i <= v.len(),
            v@ == json@,
            out@ == json_escaped(v@.take(i as int)),
        decreases v.len() - i,
    {
        let piece = escape_json_char(v[i]);
        push_str(&mut out, piece.as_str());
        proof {
            assert(v@.take(i + 1).drop_last() =~= v@.take(i as int));
        }
        i += 1;
    }
    proof {
        assert(v@.take(v@.len() as int) =~= json@);
    }
    out
}

/// Printed JSON holds no terminal control but line ends.
pub proof fn printed_json_is_safe(s: Seq<char>, i: int)
    requires
        0 <= i < json_escaped(s).len(),
    ensures
        is_safe(json_escaped(s)[i]) || json_escaped(s)[i] == '\n',
    decreases s.len(),
{
    if s.len() > 0 {
        let head = json_escaped(s.drop_last());
        if i < head.len() {
            printed_json_is_safe(s.drop_last(), i);
        } else {
            numeral_is_safe(s.last() as nat);
            let piece = json_escaped_char(s.last());
            assert(json_escaped(s)[i] == piece[i - head.len()]);
            assert(is_safe(piece[i - head.len()]) || piece[i - head.len()] == '\n');
        }
    }
}

/// What a terminal would act upon is shown by its code: line ends and tabs by their
/// letter, other controls by two hexadecimal digits, and the rest in braces.
pub proof fn controls_are_shown_by_their_code(c: char)
    ensures
        escaped(seq!['\n']) == seq!['\\', 'n'],
        escaped(seq!['\r']) == seq!['\\', 'r'],
        escaped(seq!['\t']) == seq!['\\', 't'],
        c != '\n' && c != '\r' && c != '\t' && (c < ' ' || '\u{7f}' <= c <= '\u{9f}') ==> escaped(
            seq![c],
        ) == seq!['\\', 'x', text::digit(c as int / 16), text::digit(c as int % 16)],
        c == '\u{061c}' || '\u{200b}' <= c <= '\u{200f}' || '\u{202a}' <= c <= '\u{202e}'
            || '\u{2060}' <= c <= '\u{2069}' || c == '\u{feff}' ==> escaped(seq![c]) == seq![
            '\\',
            'u',
            '{',
        ] + text::numeral(c as nat, 16) + seq!['}'],
{
    one_character_is_shown('\n');
    one_character_is_shown('\r');
    one_character_is_shown('\t');
    one_character_is_shown(c);
    if c != '\n' && c != '\r' && c != '\t' && (c < ' ' || '\u{7f}' <= c <= '\u{9f}') {
        let n = c as nat;
        let d = text::numeral(n, 16);
        if n < 16 {
            assert(d =~= seq![text::digit(n as int)]);
            assert(text::padded_left(d, '0', 2) =~= seq!['0', text::digit(n as int)]);
            assert(text::digit(0) == '0');
        } else {
            assert(n / 16 < 16);
            assert(text::numeral(n / 16, 16) =~= seq![text::digit((n / 16) as int)]);
            assert(d =~= seq![text::digit((n / 16) as int), text::digit((n % 16) as int)]);
        }
        assert(escaped(seq![c]) =~= seq![
            '\\',
            'x',
            text::digit(c as int / 16),
            text::digit(c as int % 16),
        ]);
    }
}

proof fn one_character_is_shown(c: char)
    ensures
        escaped(seq![c]) == escaped_char(c),
{
    assert(seq![c].drop_last() =~= Seq::<char>::empty());
    assert(escaped(seq![c].drop_last()) =~= Seq::<char>::empty());
    assert(escaped(seq![c]) =~= escaped_char(c));
}

} // verus!
