//! Rendering the monitor store to a pretty-printed JSON document, and
//! deriving the timestamped name of the file that receives it.

use vstd::prelude::*;
use vstd::string::StrSliceExecFns;
use vstd::string::StringExecFns;
use crate::model::{MonitorData, MonitorView, ResultView};

verus! {

/// The decimal digit character for `d` (`d < 10`).
pub open spec fn digit_char(d: nat) -> char {
    ((48 + d) as u8) as char
}

/// The lower-case hexadecimal digit character for `d` (`d < 16`).
pub open spec fn hex_char(d: nat) -> char {
    if d < 10 {
        ((48 + d) as u8) as char
    } else {
        ((87 + d) as u8) as char
    }
}

/// The decimal rendering of `n`, most significant digit first, no sign
/// and no leading zero (except for `n == 0` itself).
pub open spec fn dec_digits(n: nat) -> Seq<char>
    decreases n,
{
    if n < 10 {
        seq![digit_char(n)]
    } else {
        dec_digits(n / 10) + seq![digit_char(n % 10)]
    }
}

/// The decimal rendering of a possibly negative integer.
pub open spec fn int_chars(n: int) -> Seq<char> {
    if n < 0 {
        seq!['-'] + dec_digits((-n) as nat)
    } else {
        dec_digits(n as nat)
    }
}

/// How one character appears inside a JSON string literal: quote and
/// backslash are escaped, the common control characters get their short
/// escapes, the remaining control characters a `\u00XX` escape, and
/// every other character stands for itself.
pub open spec fn escaped_char(c: char) -> Seq<char> {
    if c == '"' {
        seq!['\\', '"']
    } else if c == '\\' {
        seq!['\\', '\\']
    } else if c == '\n' {
        seq!['\\', 'n']
    } else if c == '\r' {
        seq!['\\', 'r']
    } else if c == '\t' {
        seq!['\\', 't']
    } else if (c as u32) < 32 {
        seq!['\\', 'u', '0', '0', hex_char((c as u32 / 16) as nat), hex_char((c as u32 % 16) as nat)]
    } else {
        seq![c]
    }
}

/// The body of a JSON string literal for the text `s`.
pub open spec fn escaped(s: Seq<char>) -> Seq<char>
    decreases s.len(),
{
    if s.len() == 0 {
        Seq::<char>::empty()
    } else {
        escaped(s.drop_last()) + escaped_char(s.last())
    }
}

/// The character stands for itself inside a JSON string literal.
pub open spec fn plain_char(c: char) -> bool {
    c != '"' && c != '\\' && (c as u32) >= 32
}

/// A text of ordinary characters appears in the document exactly as it
/// is: escaping changes nothing in it.
pub proof fn lemma_escape_keeps_plain_text(s: Seq<char>)
    requires
        forall|i: int| 0 <= i < s.len() ==> plain_char(#[trigger] s[i]),
    ensures
        escaped(s) == s,
    decreases s.len(),
{
    if s.len() == 0 {
        assert(escaped(s) =~= s);
    } else {
        lemma_escape_keeps_plain_text(s.drop_last());
        assert(plain_char(s.last()));
        assert(escaped_char(s.last()) =~= seq![s.last()]);
        assert(escaped(s) =~= s);
    }
}

/// A complete JSON string literal for the text `s`.
pub open spec fn json_string(s: Seq<char>) -> Seq<char> {
    seq!['"'] + escaped(s) + seq!['"']
}

/// An optional integer field value: `null` or the number.
pub open spec fn json_opt_int(v: Option<int>) -> Seq<char> {
    match v {
        None => "null"@,
        Some(n) => int_chars(n),
    }
}

/// An optional string field value: `null` or a string literal.
pub open spec fn json_opt_string(v: Option<Seq<char>>) -> Seq<char> {
    match v {
        None => "null"@,
        Some(s) => json_string(s),
    }
}

/// The `result` field value: `null` or the nested result object.
pub open spec fn render_result(r: Option<ResultView>) -> Seq<char> {
    match r {
        None => "null"@,
        Some(rv) => "{\n        \"value\": "@ + int_chars(rv.value)
            + ",\n        \"processed_at\": "@ + int_chars(rv.processed_at) + "\n      }"@,
    }
}

/// The rendered `code` field of a monitor, key and value.
pub open spec fn code_field(m: MonitorView) -> Seq<char> {
    "\"code\": "@ + json_string(m.code)
}

/// The rendered `name` field of a monitor, key and value.
pub open spec fn name_field(m: MonitorView) -> Seq<char> {
    "\"name\": "@ + json_string(m.name)
}

/// One monitor as a pretty-printed JSON object, indented for its place
/// inside the `monitors` array.
pub open spec fn render_monitor(m: MonitorView) -> Seq<char> {
    "{\n      \"monitor_id\": "@ + json_opt_int(m.monitor_id)
        + ",\n      "@ + name_field(m)
        + ",\n      \"script\": "@ + json_opt_string(m.script)
        + ",\n      \"type\": "@ + json_opt_string(m.monitor_type)
        + ",\n      \"result\": "@ + render_result(m.result)
        + ",\n      "@ + code_field(m)
        + "\n    }"@
}

/// The elements of the `monitors` array, joined by the array separator.
pub open spec fn render_monitors(ms: Seq<MonitorView>) -> Seq<char>
    decreases ms.len(),
{
    if ms.len() == 0 {
        Seq::<char>::empty()
    } else if ms.len() == 1 {
        render_monitor(ms[0])
    } else {
        render_monitors(ms.drop_last()) + ",\n    "@ + render_monitor(ms.last())
    }
}

/// The whole persisted document.
pub open spec fn render_document(ms: Seq<MonitorView>) -> Seq<char> {
    if ms.len() == 0 {
        "{\n  \"monitors\": []\n}"@
    } else {
        "{\n  \"monitors\": [\n    "@ + render_monitors(ms) + "\n  ]\n}"@
    }
}

/// The name of the output file for a persist cycle at Unix time `ts`.
pub open spec fn spec_filename(ts: nat) -> Seq<char> {
    dec_digits(ts) + "_monitors.json"@
}

/// Relies on `String::push`: appends exactly the given character.
#[verifier::external_body]
fn push_char(s: &mut String, c: char)
    ensures
        final(s)@ == old(s)@ + seq![c],
{
    s.push(c);
}

/// Renders `n` in decimal.
pub fn u64_to_string(n: u64) -> (r: String)
    ensures
        r@ == dec_digits(n as nat),
    decreases n,
{
    if n < 10 {
        let mut s = String::new();
        let d: u8 = n as u8;
        push_char(&mut s, (48 + d) as char);
        s
    } else {
        let mut s = u64_to_string(n / 10);
        let d: u8 = (n % 10) as u8;
        push_char(&mut s, (48 + d) as char);
        s
    }
}

/// Renders `n` in decimal, with a leading minus sign when negative.
pub fn i64_to_string(n: i64) -> (r: String)
    ensures
        r@ == int_chars(n as int),
{
    if n >= 0 {
        u64_to_string(n as u64)
    } else {
        let mag: u64 = if n == i64::MIN {
            9223372036854775808u64
        } else {
            (-n) as u64
        };
        proof {
            reveal_strlit("-");
        }
        let mut s = String::from_str("-");
        let digits = u64_to_string(mag);
        s.append(digits.as_str());
        proof {
            assert(s@ =~= int_chars(n as int));
        }
        s
    }
}

fn hex_char_exec(d: u32) -> (c: char)
    requires
        d < 16,
    ensures
        c == hex_char(d as nat),
{
    if d < 10 {
        (48 + d as u8) as char
    } else {
        (87 + d as u8) as char
    }
}

/// Appends the escaped form of `s` to `out`.
fn escape_into(out: &mut String, s: &str)
    ensures
        final(out)@ == old(out)@ + escaped(s@),
{
    let n: usize = s.unicode_len();
    let mut i: usize = 0;
    while i < n
        invariant
            i <= n,
            n == s@.len(),
            out@ == old(out)@ + escaped(s@.subrange(0, i as int)),
        decreases n - i,
    {
        let c: char = s.get_char(i);
        if c == '"' {
            proof {
                reveal_strlit("\\\"");
            }
            out.append("\\\"");
            proof {
                assert("\\\""@ =~= escaped_char(c));
            }
        } else if c == '\\' {
            proof {
                reveal_strlit("\\\\");
            }
            out.append("\\\\");
            proof {
                assert("\\\\"@ =~= escaped_char(c));
            }
        } else if c == '\n' {
            proof {
                reveal_strlit("\\n");
            }
            out.append("\\n");
            proof {
                assert("\\n"@ =~= escaped_char(c));
            }
        } else if c == '\r' {
            proof {
                reveal_strlit("\\r");
            }
            out.append("\\r");
            proof {
                assert("\\r"@ =~= escaped_char(c));
            }
        } else if (c as u32) < 32 {
            proof {
                reveal_strlit("\\t");
                reveal_strlit("\\u00");
            }
            if c == '\t' {
                out.append("\\t");
                proof {
                    assert("\\t"@ =~= escaped_char(c));
                }
            } else {
                out.append("\\u00");
                let u: u32 = c as u32;
                push_char(out, hex_char_exec(u / 16));
                push_char(out, hex_char_exec(u % 16));
                proof {
                    assert("\\u00"@ + seq![hex_char((c as u32 / 16) as nat)] + seq![
                        hex_char((c as u32 % 16) as nat),
                    ] =~= escaped_char(c));
                }
            }
        } else {
            push_char(out, c);
            proof {
                assert(seq![c] =~= escaped_char(c));
            }
        }
        proof {
            assert(s@.subrange(0, (i + 1) as int).drop_last() =~= s@.subrange(0, i as int));
            assert(s@.subrange(0, (i + 1) as int).last() == c);
            assert(out@ =~= old(out)@ + escaped(s@.subrange(0, (i + 1) as int)));
        }
        i += 1;
    }
    proof {
        assert(s@.subrange(0, n as int) =~= s@);
    }
}

/// Appends a complete JSON string literal for `s` to `out`.
fn json_string_into(out: &mut String, s: &str)
    ensures
        final(out)@ == old(out)@ + json_string(s@),
{
    proof {
        reveal_strlit("\"");
    }
    out.append("\"");
    escape_into(out, s);
    out.append("\"");
    proof {
        assert("\""@ =~= seq!['"']);
        assert(out@ =~= old(out)@ + json_string(s@));
    }
}

/// Appends `null` or a rendered string literal to `out`.
fn json_opt_string_into(out: &mut String, v: &Option<String>)
    ensures
        final(out)@ == old(out)@ + json_opt_string(
            match *v {
                Some(ref s) => Some(s@),
                None => None,
            },
        ),
{
    match v {
        None => {
            out.append("null");
        },
        Some(s) => {
            json_string_into(out, s.as_str());
        },
    }
}

/// Appends `null` or a rendered integer to `out`.
fn json_opt_int_into(out: &mut String, v: &Option<i64>)
    ensures
        final(out)@ == old(out)@ + json_opt_int(
            match *v {
                Some(n) => Some(n as int),
                None => None,
            },
        ),
{
    match v {
        None => {
            out.append("null");
        },
        Some(n) => {
            let digits = i64_to_string(*n);
            out.append(digits.as_str());
        },
    }
}

/// Appends one monitor's pretty-printed JSON object to `out`.
#[verifier::rlimit(100)]
fn render_monitor_into(out: &mut String, m: &crate::model::Monitor)
    ensures
        final(out)@ == old(out)@ + render_monitor(m@),
{
    out.append("{\n      \"monitor_id\": ");
    json_opt_int_into(out, &m.monitor_id);
    out.append(",\n      \"name\": ");
    json_string_into(out, m.name.as_str());
    out.append(",\n      \"script\": ");
    json_opt_string_into(out, &m.script);
    out.append(",\n      \"type\": ");
    json_opt_string_into(out, &m.monitor_type);
    out.append(",\n      \"result\": ");
    match &m.result {
        None => {
            out.append("null");
        },
        Some(r) => {
            out.append("{\n        \"value\": ");
            let v = i64_to_string(r.value);
            out.append(v.as_str());
            out.append(",\n        \"processed_at\": ");
            let p = i64_to_string(r.processed_at);
            out.append(p.as_str());
            out.append("\n      }");
        },
    }
    out.append(",\n      \"code\": ");
    json_string_into(out, m.code.as_str());
    out.append("\n    }");
    proof {
        reveal_strlit(",\n      \"name\": ");
        reveal_strlit(",\n      \"code\": ");
        reveal_strlit(",\n      ");
        reveal_strlit("\"name\": ");
        reveal_strlit("\"code\": ");
        assert(",\n      \"name\": "@ + json_string(m@.name) =~= ",\n      "@ + name_field(m@));
        assert(",\n      \"code\": "@ + json_string(m@.code) =~= ",\n      "@ + code_field(m@));
        assert(out@ =~= old(out)@ + render_monitor(m@));
    }
}

/// Renders the whole store as one pretty-printed JSON document, exactly
/// as `render_document` describes it: every monitor appears, in order,
/// with all six fields.
pub fn render_document_exec(data: &MonitorData) -> (r: String)
    ensures
        r@ == render_document(data@),
{
    let n: usize = data.monitors.len();
    let mut out = String::new();
    if n == 0 {
        out.append("{\n  \"monitors\": []\n}");
        proof {
            assert(out@ =~= render_document(data@));
        }
        out
    } else {
        out.append("{\n  \"monitors\": [\n    ");
        let mut i: usize = 0;
        while i < n
            invariant
                1 <= n == data.monitors@.len(),
                i <= n,
                data@.len() == n,
                i == 0 ==> out@ == "{\n  \"monitors\": [\n    "@,
                i > 0 ==> out@ == "{\n  \"monitors\": [\n    "@ + render_monitors(
                    data@.subrange(0, i as int),
                ),
            decreases n - i,
        {
            if i > 0 {
                out.append(",\n    ");
            }
            render_monitor_into(&mut out, &data.monitors[i]);
            proof {
                let pre = data@.subrange(0, i as int);
                let cur = data@.subrange(0, (i + 1) as int);
                assert(cur.drop_last() =~= pre);
                assert(cur.last() == data@[i as int]);
                assert(out@ =~= "{\n  \"monitors\": [\n    "@ + render_monitors(cur));
            }
            i += 1;
        }
        out.append("\n  ]\n}");
        proof {
            assert(data@.subrange(0, n as int) =~= data@);
            assert(out@ =~= render_document(data@));
        }
        out
    }
}

/// Derives the output file name for a persist cycle at Unix time `ts`.
pub fn derive_filename(ts: u64) -> (r: String)
    ensures
        r@ == spec_filename(ts as nat),
{
    let mut s = u64_to_string(ts);
    s.append("_monitors.json");
    s
}

/// One persist cycle's pure part: from the current store and the current
/// Unix time to the file name and the document text to write there.
pub fn persist_cycle(data: &MonitorData, now: u64) -> (r: (String, String))
    ensures
        r.0@ == spec_filename(now as nat),
        r.1@ == render_document(data@),
{
    (derive_filename(now), render_document_exec(data))
}

/// `hay` holds `needle` as a contiguous run.
pub open spec fn contains_seq(hay: Seq<char>, needle: Seq<char>) -> bool {
    exists|k: int|
        0 <= k && k + needle.len() <= hay.len() && #[trigger] hay.subrange(k, k + needle.len())
            == needle
}

proof fn lemma_contains_self(s: Seq<char>)
    ensures
        contains_seq(s, s),
{
    assert(s.subrange(0, 0 + s.len() as int) =~= s);
}

proof fn lemma_contains_concat_left(a: Seq<char>, b: Seq<char>, n: Seq<char>)
    requires
        contains_seq(a, n),
    ensures
        contains_seq(a + b, n),
{
    let k = choose|k: int|
        0 <= k && k + n.len() <= a.len() && #[trigger] a.subrange(k, k + n.len()) == n;
    assert((a + b).subrange(k, k + n.len() as int) =~= a.subrange(k, k + n.len() as int));
}

proof fn lemma_contains_concat_right(a: Seq<char>, b: Seq<char>, n: Seq<char>)
    requires
        contains_seq(b, n),
    ensures
        contains_seq(a + b, n),
{
    let k = choose|k: int|
        0 <= k && k + n.len() <= b.len() && #[trigger] b.subrange(k, k + n.len()) == n;
    let j = a.len() as int + k;
    assert((a + b).subrange(j, j + n.len() as int) =~= b.subrange(k, k + n.len() as int));
}

/// Each monitor's `code` field, key and value, stands somewhere in its
/// own rendered object.
proof fn lemma_monitor_has_code(m: MonitorView)
    ensures
        contains_seq(render_monitor(m), code_field(m)),
{
    let pre = "{\n      \"monitor_id\": "@ + json_opt_int(m.monitor_id)
        + ",\n      "@ + name_field(m)
        + ",\n      \"script\": "@ + json_opt_string(m.script)
        + ",\n      \"type\": "@ + json_opt_string(m.monitor_type)
        + ",\n      \"result\": "@ + render_result(m.result)
        + ",\n      "@;
    lemma_contains_self(code_field(m));
    lemma_contains_concat_right(pre, code_field(m), code_field(m));
    lemma_contains_concat_left(pre + code_field(m), "\n    }"@, code_field(m));
    assert(render_monitor(m) =~= (pre + code_field(m)) + "\n    }"@);
}

/// Each monitor's rendered object stands somewhere in the rendered array.
proof fn lemma_monitors_contains(ms: Seq<MonitorView>, i: int)
    requires
        0 <= i < ms.len(),
    ensures
        contains_seq(render_monitors(ms), render_monitor(ms[i])),
    decreases ms.len(),
{
    if ms.len() == 1 {
        lemma_contains_self(render_monitor(ms[0]));
    } else if i == ms.len() - 1 {
        lemma_contains_self(render_monitor(ms.last()));
        lemma_contains_concat_right(
            render_monitors(ms.drop_last()) + ",\n    "@,
            render_monitor(ms.last()),
            render_monitor(ms[i]),
        );
        assert(render_monitors(ms) =~= (render_monitors(ms.drop_last()) + ",\n    "@)
            + render_monitor(ms.last()));
    } else {
        lemma_monitors_contains(ms.drop_last(), i);
        assert(ms.drop_last()[i] == ms[i]);
        lemma_contains_concat_left(
            render_monitors(ms.drop_last()),
            ",\n    "@,
            render_monitor(ms[i]),
        );
        lemma_contains_concat_left(
            render_monitors(ms.drop_last()) + ",\n    "@,
            render_monitor(ms.last()),
            render_monitor(ms[i]),
        );
        assert(render_monitors(ms) =~= (render_monitors(ms.drop_last()) + ",\n    "@)
            + render_monitor(ms.last()));
    }
}

/// The persisted document never lacks a monitor's required `code` field:
/// for every monitor in the store, the rendered document holds that
/// monitor's `code` key together with its value.
#[verifier::rlimit(60)]
pub proof fn lemma_document_has_code(ms: Seq<MonitorView>, i: int)
    requires
        0 <= i < ms.len(),
    ensures
        contains_seq(render_document(ms), code_field(ms[i])),
{
    lemma_monitor_has_code(ms[i]);
    lemma_monitors_contains(ms, i);
    let k1 = choose|k: int|
        0 <= k && k + render_monitor(ms[i]).len() <= render_monitors(ms).len()
            && #[trigger] render_monitors(ms).subrange(k, k + render_monitor(ms[i]).len())
            == render_monitor(ms[i]);
    let k2 = choose|k: int|
        0 <= k && k + code_field(ms[i]).len() <= render_monitor(ms[i]).len()
            && #[trigger] render_monitor(ms[i]).subrange(k, k + code_field(ms[i]).len())
            == code_field(ms[i]);
    assert(render_monitors(ms).subrange(
        k1 + k2,
        k1 + k2 + code_field(ms[i]).len() as int,
    ) =~= render_monitor(ms[i]).subrange(k2, k2 + code_field(ms[i]).len() as int));
    lemma_contains_concat_right("{\n  \"monitors\": [\n    "@, render_monitors(ms), code_field(ms[i]));
    lemma_contains_concat_left(
        "{\n  \"monitors\": [\n    "@ + render_monitors(ms),
        "\n  ]\n}"@,
        code_field(ms[i]),
    );
}

/// The rendered document likewise holds each monitor's required `name`
/// field, key and value.
#[verifier::rlimit(60)]
pub proof fn lemma_document_has_name(ms: Seq<MonitorView>, i: int)
    requires
        0 <= i < ms.len(),
    ensures
        contains_seq(render_document(ms), name_field(ms[i])),
{
    let m = ms[i];
    let pre = "{\n      \"monitor_id\": "@ + json_opt_int(m.monitor_id) + ",\n      "@;
    let post = ",\n      \"script\": "@ + json_opt_string(m.script)
        + ",\n      \"type\": "@ + json_opt_string(m.monitor_type)
        + ",\n      \"result\": "@ + render_result(m.result)
        + ",\n      "@ + code_field(m)
        + "\n    }"@;
    lemma_contains_self(name_field(m));
    lemma_contains_concat_right(pre, name_field(m), name_field(m));
    lemma_contains_concat_left(pre + name_field(m), post, name_field(m));
    assert(render_monitor(m) =~= (pre + name_field(m)) + post);
    lemma_monitors_contains(ms, i);
    let k1 = choose|k: int|
        0 <= k && k + render_monitor(m).len() <= render_monitors(ms).len()
            && #[trigger] render_monitors(ms).subrange(k, k + render_monitor(m).len())
            == render_monitor(m);
    let k2 = choose|k: int|
        0 <= k && k + name_field(m).len() <= render_monitor(m).len()
            && #[trigger] render_monitor(m).subrange(k, k + name_field(m).len())
            == name_field(m);
    assert(render_monitors(ms).subrange(
        k1 + k2,
        k1 + k2 + name_field(m).len() as int,
    ) =~= render_monitor(m).subrange(k2, k2 + name_field(m).len() as int));
    lemma_contains_concat_right("{\n  \"monitors\": [\n    "@, render_monitors(ms), name_field(m));
    lemma_contains_concat_left(
        "{\n  \"monitors\": [\n    "@ + render_monitors(ms),
        "\n  ]\n}"@,
        name_field(m),
    );
}

proof fn lemma_digits_len_pos(n: nat)
    ensures
        dec_digits(n).len() >= 1,
    decreases n,
{
    if n >= 10 {
        lemma_digits_len_pos(n / 10);
    }
}

proof fn lemma_digit_char_injective(a: nat, b: nat)
    requires
        a < 10,
        b < 10,
        digit_char(a) == digit_char(b),
    ensures
        a == b,
{
    assert(digit_char(a) as u32 == 48 + a);
    assert(digit_char(b) as u32 == 48 + b);
}

/// Distinct numbers never render to the same decimal text.
proof fn lemma_digits_injective(a: nat, b: nat)
    requires
        dec_digits(a) == dec_digits(b),
    ensures
        a == b,
    decreases a + b,
{
    if a < 10 && b < 10 {
        assert(dec_digits(a)[0] == digit_char(a));
        assert(dec_digits(b)[0] == digit_char(b));
        lemma_digit_char_injective(a, b);
    } else if a < 10 {
        lemma_digits_len_pos(b / 10);
        assert(dec_digits(b).len() >= 2);
    } else if b < 10 {
        lemma_digits_len_pos(a / 10);
        assert(dec_digits(a).len() >= 2);
    } else {
        assert(dec_digits(a).last() == digit_char(a % 10));
        assert(dec_digits(b).last() == digit_char(b % 10));
        lemma_digit_char_injective(a % 10, b % 10);
        assert(dec_digits(a).drop_last() =~= dec_digits(a / 10));
        assert(dec_digits(b).drop_last() =~= dec_digits(b / 10));
        lemma_digits_injective(a / 10, b / 10);
        assert(a == 10 * (a / 10) + a % 10);
        assert(b == 10 * (b / 10) + b % 10);
    }
}

/// The decimal part of a file name determines its timestamp.
pub proof fn lemma_filename_injective(a: nat, b: nat)
    requires
        spec_filename(a) == spec_filename(b),
    ensures
        a == b,
{
    let la = dec_digits(a).len() as int;
    let lb = dec_digits(b).len() as int;
    assert(spec_filename(a).len() == la + "_monitors.json"@.len());
    assert(spec_filename(b).len() == lb + "_monitors.json"@.len());
    assert(la == lb);
    assert(dec_digits(a) =~= spec_filename(a).subrange(0, la));
    assert(dec_digits(b) =~= spec_filename(b).subrange(0, lb));
    lemma_digits_injective(a, b);
}

/// Two persist cycles at distinct Unix times never derive the same file
/// name: under a clock that has progressed between two cycles run an
/// interval apart, the later file never overwrites the earlier one.
pub proof fn lemma_distinct_times_distinct_filenames(a: nat, b: nat)
    requires
        a != b,
    ensures
        spec_filename(a) != spec_filename(b),
{
    if spec_filename(a) == spec_filename(b) {
        lemma_filename_injective(a, b);
    }
}

} // verus!
