use vstd::prelude::*;

verus! {

/// Appends one character to a string (`String::push`).
#[verifier::external_body]
fn push_char(out: &mut String, c: char)
    ensures
        final(out)@ == old(out)@.push(c),
{
    out.push(c);
}

/// The lowercase hexadecimal digit for `d` (0 to 15).
pub open spec fn hex_digit(d: u32) -> char {
    seq!['0', '1', '2', '3', '4', '5', '6', '7', '8', '9', 'a', 'b', 'c', 'd', 'e', 'f'][d as int]
}

/// The JSON spelling of one character inside a string literal: quote, backslash,
/// newline, carriage return and tab get their two-character escapes, other control
/// characters below U+0020 get `\u00XX`, everything else stands for itself.
pub open spec fn json_escape_char(c: char) -> Seq<char> {
    if c == '"' {
        seq!['\\', '"']
    } else if c == '\\' {
        seq!['\\', '\\']
    } else if c == '\n' {
        seq!['\\', 'n']
    } else if c == '\r' {
        seq!['\\', 'r']
    } else if c == '\t' {
        seq!['\\', 't']
    } else if (c as u32) < 0x20 {
        seq!['\\', 'u', '0', '0', hex_digit((c as u32) / 16), hex_digit((c as u32) % 16)]
    } else {
        seq![c]
    }
}

/// The JSON spelling of a character sequence inside a string literal.
pub open spec fn json_escape(s: Seq<char>) -> Seq<char>
    decreases s.len(),
{
    if s.len() == 0 {
        Seq::<char>::empty()
    } else {
        json_escape(s.drop_last()) + json_escape_char(s.last())
    }
}

fn hex_char(d: u32) -> (c: char)
    requires
        d < 16,
    ensures
        c == hex_digit(d),
{
    match d {
        0 => '0',
        1 => '1',
        2 => '2',
        3 => '3',
        4 => '4',
        5 => '5',
        6 => '6',
        7 => '7',
        8 => '8',
        9 => '9',
        10 => 'a',
        11 => 'b',
        12 => 'c',
        13 => 'd',
        14 => 'e',
        _ => 'f',
    }
}

fn push_escaped(out: &mut String, ch: char)
    ensures
        final(out)@ == old(out)@ + json_escape_char(ch),
{
    if ch == '"' {
        push_char(out, '\\');
        push_char(out, '"');
    } else if ch == '\\' {
        push_char(out, '\\');
        push_char(out, '\\');
    } else if ch == '\n' {
        push_char(out, '\\');
        push_char(out, 'n');
    } else if ch == '\r' {
        push_char(out, '\\');
        push_char(out, 'r');
    } else if ch == '\t' {
        push_char(out, '\\');
        push_char(out, 't');
    } else if (ch as u32) < 0x20 {
        let code = ch as u32;
        push_char(out, '\\');
        push_char(out, 'u');
        push_char(out, '0');
        push_char(out, '0');
        push_char(out, hex_char(code / 16));
        push_char(out, hex_char(code % 16));
    } else {
        push_char(out, ch);
    }
    assert(out@ =~= old(out)@ + json_escape_char(ch));
}

/// Appends `s` to `out` as a JSON string literal: in double quotes, with quotes,
/// backslashes and control characters escaped.
pub fn write_json_string(out: &mut String, s: &str)
    ensures
        final(out)@ == old(out)@ + seq!['"'] + json_escape(s@) + seq!['"'],
{
    push_char(out, '"');
    let ghost start = out@;
    for ch in it: s.chars()
        invariant
            it.seq() == s@,
            out@ == start + json_escape(s@.take(it.index())),
    {
        push_escaped(out, ch);
        proof {
            let k = it.index();
            assert(s@.take(k + 1).drop_last() =~= s@.take(k));
        }
    }
    proof {
        assert(s@.take(s@.len() as int) =~= s@);
    }
    push_char(out, '"');
}

/// The escaped form of any text holds no raw control character (below U+0020),
/// and every double quote in it directly follows a backslash, so it can stand
/// between the quotes of a JSON string literal.
pub proof fn lemma_json_escape_is_literal_safe(s: Seq<char>)
    ensures
        forall|i: int| 0 <= i < json_escape(s).len() ==> (#[trigger] json_escape(s)[i]) as u32 >= 0x20,
        forall|i: int| 0 <= i < json_escape(s).len() && #[trigger] json_escape(s)[i] == '"'
            ==> i > 0 && json_escape(s)[i - 1] == '\\',
    decreases s.len(),
{
    if s.len() > 0 {
        let t = s.drop_last();
        let c = s.last();
        lemma_json_escape_is_literal_safe(t);
        let a = json_escape(t);
        let b = json_escape_char(c);
        assert(json_escape(s) == a + b);
        assert forall|j: int| 0 <= j < b.len() implies (#[trigger] b[j]) as u32 >= 0x20 by {
            if (c as u32) < 0x20 && c != '\n' && c != '\r' && c != '\t' {
                let d1 = (c as u32) / 16;
                let d2 = (c as u32) % 16;
                assert(d1 < 16 && d2 < 16);
            }
        }
        assert forall|i: int| 0 <= i < json_escape(s).len() implies (#[trigger] json_escape(s)[i]) as u32 >= 0x20 by {
            if i < a.len() {
                assert(json_escape(s)[i] == a[i]);
            } else {
                assert(json_escape(s)[i] == b[i - a.len()]);
            }
        }
        assert forall|i: int| 0 <= i < json_escape(s).len() && #[trigger] json_escape(s)[i] == '"'
            implies i > 0 && json_escape(s)[i - 1] == '\\' by {
            if i < a.len() {
                assert(json_escape(s)[i] == a[i]);
                assert(json_escape(s)[i - 1] == a[i - 1]);
            } else {
                assert(json_escape(s)[i] == b[i - a.len()]);
                assert(c == '"');
                assert(i - a.len() == 1);
                assert(json_escape(s)[i - 1] == b[0]);
            }
        }
    }
}

} // verus!
