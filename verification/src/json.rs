//! The push-update payload: the full rule set as a JSON array of
//! `{channel, match_expression, response_text}` objects, built here with a
//! verified escape for quotes, backslashes and control characters.

use vstd::prelude::*;
use crate::models::Command;
use crate::models::SpecCommand;

verus! {

/// The hexadecimal digit for a value below sixteen.
pub open spec fn spec_hex_digit(d: int) -> char {
    if d == 0 {
        '0'
    } else if d == 1 {
        '1'
    } else if d == 2 {
        '2'
    } else if d == 3 {
        '3'
    } else if d == 4 {
        '4'
    } else if d == 5 {
        '5'
    } else if d == 6 {
        '6'
    } else if d == 7 {
        '7'
    } else if d == 8 {
        '8'
    } else if d == 9 {
        '9'
    } else if d == 10 {
        'a'
    } else if d == 11 {
        'b'
    } else if d == 12 {
        'c'
    } else if d == 13 {
        'd'
    } else if d == 14 {
        'e'
    } else {
        'f'
    }
}

/// How one character appears inside a JSON string literal.
pub open spec fn spec_json_escape_char(c: char) -> Seq<char> {
    if c == '"' {
        "\\\""@
    } else if c == '\\' {
        "\\\\"@
    } else if c == '\n' {
        "\\n"@
    } else if c == '\r' {
        "\\r"@
    } else if c == '\t' {
        "\\t"@
    } else if (c as u32) < 32 {
        "\\u00"@ + seq![spec_hex_digit(c as u32 as int / 16), spec_hex_digit(c as u32 as int % 16)]
    } else {
        seq![c]
    }
}

/// How a whole string appears inside a JSON string literal.
pub open spec fn spec_json_escape(s: Seq<char>) -> Seq<char>
    decreases s.len(),
{
    if s.len() == 0 {
        Seq::empty()
    } else {
        spec_json_escape_char(s[0]) + spec_json_escape(s.drop_first())
    }
}

/// Escaping one character at a time from the front is escaping one
/// character at a time from the back.
proof fn lemma_json_escape_snoc(s: Seq<char>, c: char)
    ensures
        spec_json_escape(s.push(c)) == spec_json_escape(s) + spec_json_escape_char(c),
    decreases s.len(),
{
    if s.len() == 0 {
        assert(s.push(c).drop_first() =~= Seq::<char>::empty());
        assert(spec_json_escape(Seq::<char>::empty()) == Seq::<char>::empty());
        assert(s.push(c)[0] == c);
        assert(spec_json_escape(s.push(c)) =~= spec_json_escape_char(c));
        assert(spec_json_escape(s) + spec_json_escape_char(c) =~= spec_json_escape_char(c));
    } else {
        assert(s.push(c).drop_first() =~= s.drop_first().push(c));
        lemma_json_escape_snoc(s.drop_first(), c);
        assert(spec_json_escape(s.push(c)) =~= spec_json_escape(s) + spec_json_escape_char(c));
    }
}

/// One JSON object for one rule.
pub open spec fn spec_command_json(c: SpecCommand) -> Seq<char> {
    "{\"channel\":\""@ + spec_json_escape(c.channel) + "\",\"match_expression\":\""@
        + spec_json_escape(c.match_expression) + "\",\"response_text\":\""@ + spec_json_escape(
        c.response_text,
    ) + "\"}"@
}

/// The comma-separated JSON objects for a rule sequence, without brackets.
pub open spec fn spec_commands_json_inner(s: Seq<SpecCommand>) -> Seq<char>
    decreases s.len(),
{
    if s.len() == 0 {
        Seq::empty()
    } else if s.len() == 1 {
        spec_command_json(s[0])
    } else {
        spec_commands_json_inner(s.drop_last()) + ","@ + spec_command_json(s.last())
    }
}

/// The full push-update payload: a JSON array of one object per rule, in
/// table order.
pub open spec fn spec_commands_json(s: Seq<SpecCommand>) -> Seq<char> {
    "["@ + spec_commands_json_inner(s) + "]"@
}

/// The hexadecimal digit for a value below sixteen.
fn hex_digit_str(d: u8) -> (r: &'static str)
    requires
        d < 16,
    ensures
        r@ == seq![spec_hex_digit(d as int)],
{
    proof {
        reveal_strlit("0");
        reveal_strlit("1");
        reveal_strlit("2");
        reveal_strlit("3");
        reveal_strlit("4");
        reveal_strlit("5");
        reveal_strlit("6");
        reveal_strlit("7");
        reveal_strlit("8");
        reveal_strlit("9");
        reveal_strlit("a");
        reveal_strlit("b");
        reveal_strlit("c");
        reveal_strlit("d");
        reveal_strlit("e");
        reveal_strlit("f");
    }
    let r = match d {
        0 => "0",
        1 => "1",
        2 => "2",
        3 => "3",
        4 => "4",
        5 => "5",
        6 => "6",
        7 => "7",
        8 => "8",
        9 => "9",
        10 => "a",
        11 => "b",
        12 => "c",
        13 => "d",
        14 => "e",
        _ => "f",
    };
    proof {
        assert(r@ =~= seq![spec_hex_digit(d as int)]);
    }
    r
}

/// Append `s`, escaped for a JSON string literal, to `out`.
fn json_escape_into(out: &mut String, s: &str)
    ensures
        final(out)@ == old(out)@ + spec_json_escape(s@),
{
    let n: usize = s.unicode_len();
    let mut k: usize = 0;
    while k < n
        invariant
            k <= n,
            n == s@.len(),
            out@ == old(out)@ + spec_json_escape(s@.subrange(0, k as int)),
        decreases n - k,
    {
        let c = s.get_char(k);
        if c == '"' {
            out.append("\\\"");
        } else if c == '\\' {
            out.append("\\\\");
        } else if c == '\n' {
            out.append("\\n");
        } else if c == '\r' {
            out.append("\\r");
        } else if c == '\t' {
            out.append("\\t");
        } else if (c as u32) < 32 {
            let v: u32 = c as u32;
            out.append("\\u00");
            out.append(hex_digit_str((v / 16) as u8));
            out.append(hex_digit_str((v % 16) as u8));
            proof {
                assert(seq![spec_hex_digit(v as int / 16)] + seq![spec_hex_digit(v as int % 16)]
                    =~= seq![
                    spec_hex_digit(c as u32 as int / 16),
                    spec_hex_digit(c as u32 as int % 16),
                ]);
            }
        } else {
            out.append(s.substring_char(k, k + 1));
            proof {
                assert(s@.subrange(k as int, k as int + 1) =~= seq![s@[k as int]]);
            }
        }
        proof {
            assert(s@.subrange(0, k as int + 1) =~= s@.subrange(0, k as int).push(s@[k as int]));
            lemma_json_escape_snoc(s@.subrange(0, k as int), s@[k as int]);
            assert(out@ =~= old(out)@ + spec_json_escape(s@.subrange(0, k as int + 1)));
        }
        k += 1;
    }
    proof {
        assert(s@.subrange(0, n as int) =~= s@);
    }
}

/// Append the JSON object for one rule to `out`.
fn command_json_into(out: &mut String, c: &Command)
    ensures
        final(out)@ == old(out)@ + spec_command_json(c@),
{
    out.append("{\"channel\":\"");
    json_escape_into(out, c.channel.as_str());
    out.append("\",\"match_expression\":\"");
    json_escape_into(out, c.match_expression.as_str());
    out.append("\",\"response_text\":\"");
    json_escape_into(out, c.response_text.as_str());
    out.append("\"}");
    proof {
        assert(out@ =~= old(out)@ + spec_command_json(c@));
    }
}

/// The full push-update payload for this rule list: a JSON array of one
/// object per rule, in order.
pub fn commands_json(rows: &Vec<Command>) -> (r: String)
    ensures
        r@ == spec_commands_json(rows.deep_view()),
{
    let ghost all = rows.deep_view();
    let n: usize = rows.len();
    let mut out: String = String::from_str("[");
    proof {
        assert(out@ =~= "["@ + spec_commands_json_inner(all.subrange(0, 0)));
    }
    let mut k: usize = 0;
    while k < n
        invariant
            k <= n,
            n == rows.len(),
            n == all.len(),
            all == rows.deep_view(),
            out@ == "["@ + spec_commands_json_inner(all.subrange(0, k as int)),
        decreases n - k,
    {
        if k > 0 {
            out.append(",");
        }
        command_json_into(&mut out, &rows[k]);
        proof {
            let pre = all.subrange(0, k as int);
            let now = all.subrange(0, k as int + 1);
            assert(now.drop_last() =~= pre);
            assert(now.last() == all[k as int]);
            assert(rows[k as int].view() == all[k as int]);
            if k == 0 {
                assert(spec_commands_json_inner(now) == spec_command_json(all[0]));
                assert(out@ =~= "["@ + spec_commands_json_inner(now));
            } else {
                assert(spec_commands_json_inner(now) == spec_commands_json_inner(pre) + ","@
                    + spec_command_json(all[k as int]));
                assert(out@ =~= "["@ + spec_commands_json_inner(now));
            }
        }
        k += 1;
    }
    out.append("]");
    proof {
        assert(all.subrange(0, n as int) =~= all);
        assert(out@ =~= spec_commands_json(all));
    }
    out
}

} // verus!
