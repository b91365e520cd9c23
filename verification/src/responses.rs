use vstd::prelude::*;

use crate::status::JobStatus;

verus! {

/// One HTTP reply the orchestrator hands back for the transport layer
/// to send.
pub struct HttpReply {
    pub code: u16,
    pub body: String,
}

/// The lower-case hexadecimal digit for a value below sixteen.
pub open spec fn spec_hex_digit(n: int) -> char {
    if n == 0 {
        '0'
    } else if n == 1 {
        '1'
    } else if n == 2 {
        '2'
    } else if n == 3 {
        '3'
    } else if n == 4 {
        '4'
    } else if n == 5 {
        '5'
    } else if n == 6 {
        '6'
    } else if n == 7 {
        '7'
    } else if n == 8 {
        '8'
    } else if n == 9 {
        '9'
    } else if n == 10 {
        'a'
    } else if n == 11 {
        'b'
    } else if n == 12 {
        'c'
    } else if n == 13 {
        'd'
    } else if n == 14 {
        'e'
    } else {
        'f'
    }
}

/// How one character is written inside a JSON string literal: a quote
/// or a backslash gets a backslash put before it, a control character
/// becomes its `\u00XX` escape, and everything else stands as it is.
pub open spec fn spec_escaped_char(c: char) -> Seq<char> {
    if c == '"' {
        seq!['\\', '"']
    } else if c == '\\' {
        seq!['\\', '\\']
    } else if (c as u32) < 32 {
        seq![
            '\\',
            'u',
            '0',
            '0',
            spec_hex_digit((c as u32) as int / 16),
            spec_hex_digit((c as u32) as int % 16),
        ]
    } else {
        seq![c]
    }
}

/// The lower-case hexadecimal digit for a value below sixteen, as a
/// one-character string.
fn hex_digit_str(n: u32) -> (r: &'static str)
    requires
        n < 16,
    ensures
        r@ == seq![spec_hex_digit(n as int)],
{
    proof {
        reveal_strlit("0");
        reveal_strlit("1");
        reveal_strlit("2");
        reveal_strlit("3");
        reveal_strlit("4");
        reveal_strlit("5");
        reveal_strlit("6");
        reveal_strlit("7");
        reveal_strlit("8");
        reveal_strlit("9");
        reveal_strlit("a");
        reveal_strlit("b");
        reveal_strlit("c");
        reveal_strlit("d");
        reveal_strlit("e");
        reveal_strlit("f");
        assert(("0")@ =~= seq!['0']);
        assert(("1")@ =~= seq!['1']);
        assert(("2")@ =~= seq!['2']);
        assert(("3")@ =~= seq!['3']);
        assert(("4")@ =~= seq!['4']);
        assert(("5")@ =~= seq!['5']);
        assert(("6")@ =~= seq!['6']);
        assert(("7")@ =~= seq!['7']);
        assert(("8")@ =~= seq!['8']);
        assert(("9")@ =~= seq!['9']);
        assert(("a")@ =~= seq!['a']);
        assert(("b")@ =~= seq!['b']);
        assert(("c")@ =~= seq!['c']);
        assert(("d")@ =~= seq!['d']);
        assert(("e")@ =~= seq!['e']);
        assert(("f")@ =~= seq!['f']);
    }
    if n == 0 {
        "0"
    } else if n == 1 {
        "1"
    } else if n == 2 {
        "2"
    } else if n == 3 {
        "3"
    } else if n == 4 {
        "4"
    } else if n == 5 {
        "5"
    } else if n == 6 {
        "6"
    } else if n == 7 {
        "7"
    } else if n == 8 {
        "8"
    } else if n == 9 {
        "9"
    } else if n == 10 {
        "a"
    } else if n == 11 {
        "b"
    } else if n == 12 {
        "c"
    } else if n == 13 {
        "d"
    } else if n == 14 {
        "e"
    } else {
        "f"
    }
}

/// Writes the `\u00XX` escape of a control character's code point.
fn control_escape(v: u32) -> (r: String)
    requires
        v < 32,
    ensures
        r@ == seq![
            '\\',
            'u',
            '0',
            '0',
            spec_hex_digit(v as int / 16),
            spec_hex_digit(v as int % 16),
        ],
{
    let mut out = "\\u00".to_owned();
    proof {
        reveal_strlit("\\u00");
        assert(("\\u00")@ =~= seq!['\\', 'u', '0', '0']);
    }
    out.append(hex_digit_str(v / 16));
    out.append(hex_digit_str(v % 16));
    proof {
        assert(out@ =~= seq![
            '\\',
            'u',
            '0',
            '0',
            spec_hex_digit(v as int / 16),
            spec_hex_digit(v as int % 16),
        ]);
    }
    out
}

/// A string as it is written inside a JSON string literal.
pub open spec fn spec_json_escape(s: Seq<char>) -> Seq<char>
    decreases s.len(),
{
    if s.len() == 0 {
        Seq::empty()
    } else {
        spec_json_escape(s.drop_last()) + spec_escaped_char(s.last())
    }
}

/// Writes a string as the inside of a JSON string literal.
pub fn json_escape(s: &str) -> (r: String)
    ensures
        r@ == spec_json_escape(s@),
{
    let n = s.unicode_len();
    let mut out = String::new();
    proof {
        assert(s@.take(0) =~= Seq::<char>::empty());
    }
    let mut i: usize = 0;
    while i < n
        invariant
            i <= n,
            n == s@.len(),
            out@ == spec_json_escape(s@.take(i as int)),
        decreases n - i,
    {
        let c = s.get_char(i);
        if c == '"' {
            out.append("\\\"");
            proof {
                reveal_strlit("\\\"");
                assert(("\\\"")@ =~= seq!['\\', '"']);
            }
        } else if c == '\\' {
            out.append("\\\\");
            proof {
                reveal_strlit("\\\\");
                assert(("\\\\")@ =~= seq!['\\', '\\']);
            }
        } else if (c as u32) < 32 {
            let piece = control_escape(c as u32);
            out.append(piece.as_str());
        } else {
            let piece = s.substring_char(i, i + 1);
            out.append(piece);
            proof {
                assert(s@.subrange(i as int, i as int + 1) =~= seq![s@[i as int]]);
            }
        }
        proof {
            assert(s@.take(i as int + 1).drop_last() =~= s@.take(i as int));
            assert(s@.take(i as int + 1).last() == s@[i as int]);
        }
        i += 1;
    }
    proof {
        assert(s@.take(n as int) =~= s@);
    }
    out
}

/// The body served to a status poll: the bare status object.
pub open spec fn spec_status_body(status: JobStatus) -> Seq<char> {
    "{\"status\":\""@ + status.spec_text() + "\"}"@
}

/// Renders the body served to a status poll.
pub fn status_body(status: JobStatus) -> (r: String)
    ensures
        r@ == spec_status_body(status),
{
    let mut out = "{\"status\":\"".to_owned();
    let t = status.text();
    out.append(t.as_str());
    out.append("\"}");
    out
}

/// The body a submission is answered with: the job's status and
/// identity, and — exactly when the job completed — the artifact's
/// path.
pub open spec fn spec_result_body(status: JobStatus, id: Seq<char>, path: Seq<char>) -> Seq<char> {
    "{\"status\":\""@ + status.spec_text() + "\",\"data\":{\"request_id\":\""@ + spec_json_escape(
        id,
    ) + (if status == JobStatus::Completed {
        "\",\"upscaled_path\":\""@ + spec_json_escape(path)
    } else {
        Seq::<char>::empty()
    }) + "\"}}"@
}

/// Renders the body a submission is answered with.
pub fn result_body(status: JobStatus, id: &str, path: &str) -> (r: String)
    ensures
        r@ == spec_result_body(status, id@, path@),
{
    let mut out = "{\"status\":\"".to_owned();
    let t = status.text();
    out.append(t.as_str());
    out.append("\",\"data\":{\"request_id\":\"");
    let escaped_id = json_escape(id);
    out.append(escaped_id.as_str());
    let completed = match status {
        JobStatus::Completed => true,
        _ => false,
    };
    if completed {
        out.append("\",\"upscaled_path\":\"");
        let escaped_path = json_escape(path);
        out.append(escaped_path.as_str());
    }
    out.append("\"}}");
    proof {
        assert(out@ =~= spec_result_body(status, id@, path@));
    }
    out
}

/// Renders the liveness probe's body.
pub fn ping_body() -> (r: String)
    ensures
        r@ == "{\"status\":\"healthy\",\"data\":\"pong\"}"@,
{
    "{\"status\":\"healthy\",\"data\":\"pong\"}".to_owned()
}

} // verus!
