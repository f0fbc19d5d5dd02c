//! Reading a report back: a reader for the JSON that `save_results_to_json`
//! writes, and the proof that it recovers every entry with its four fields.
use vstd::prelude::*;
use crate::report::{
    escape_char, escaped, instant_text, json_items, json_object, json_report, millis_text, quoted, status_json,
    three_digits, WebsiteStatus,
};
use crate::text::{decimal, hex_char};

verus! {

/// The value of a hexadecimal digit character, if it is one (lower case).
pub open spec fn hex_value(c: char) -> Option<nat> {
    if '0' <= c && c <= '9' {
        Some((c as u32 - 48) as nat)
    } else if 'a' <= c && c <= 'f' {
        Some((c as u32 - 87) as nat)
    } else {
        None
    }
}

/// Reads the body of a JSON string that starts at the front of `t`, just
/// after its opening quote: the text it decodes to and how many characters
/// the body and its closing quote take. `None` where `t` holds no complete
/// string body. It reads the escapes `\"`, `\\` and `\u00XX`.
pub open spec fn read_json_string(t: Seq<char>) -> Option<(Seq<char>, nat)>
    decreases t.len(),
{
    if t.len() == 0 {
        None
    } else if t[0] == '"' {
        Some((Seq::empty(), 1nat))
    } else if t[0] == '\\' {
        if t.len() >= 2 && (t[1] == '"' || t[1] == '\\') {
            match read_json_string(t.skip(2)) {
                Some((s, n)) => Some((seq![t[1]] + s, n + 2)),
                None => None,
            }
        } else if t.len() >= 6 && t[1] == 'u' && t[2] == '0' && t[3] == '0' && hex_value(t[4]) is Some
            && hex_value(t[5]) is Some {
            match read_json_string(t.skip(6)) {
                Some((s, n)) => Some((
                    seq![((hex_value(t[4])->0 * 16 + hex_value(t[5])->0) as u8) as char] + s,
                    n + 6,
                )),
                None => None,
            }
        } else {
            None
        }
    } else if (t[0] as u32) < 0x20 {
        None
    } else {
        match read_json_string(t.skip(1)) {
            Some((s, n)) => Some((seq![t[0]] + s, n + 1)),
            None => None,
        }
    }
}

proof fn lemma_control_char_code(c: char)
    requires
        (c as u32) < 0x20,
    ensures
        (((c as u32) as u8) as char) == c,
{
}

proof fn lemma_escaped_front(c: char, s: Seq<char>)
    ensures
        escaped(seq![c] + s) == escape_char(c) + escaped(s),
    decreases s.len(),
{
    if s.len() == 0 {
        let one = seq![c] + s;
        assert(one.drop_last() =~= Seq::<char>::empty());
        assert(one.last() == c);
        assert(escaped(Seq::<char>::empty()) == Seq::<char>::empty());
        assert(escaped(one) == escaped(one.drop_last()) + escape_char(c));
        assert(escaped(one) =~= escape_char(c) + escaped(s));
    } else {
        lemma_escaped_front(c, s.drop_last());
        assert((seq![c] + s).drop_last() =~= seq![c] + s.drop_last());
        assert(escaped(seq![c] + s) =~= escape_char(c) + escaped(s));
    }
}

/// Escaping loses nothing: a JSON string reader that starts on an escaped
/// text followed by a closing quote stops exactly at that quote and decodes
/// the text that was escaped, whatever follows it.
pub proof fn lemma_escaped_reads_back(s: Seq<char>, rest: Seq<char>)
    ensures
        read_json_string(escaped(s) + seq!['"'] + rest) == Some((s, escaped(s).len() + 1)),
    decreases s.len(),
{
    let t = escaped(s) + seq!['"'] + rest;
    if s.len() == 0 {
        assert(t[0] == '"');
        assert(s =~= Seq::<char>::empty());
    } else {
        let c = s[0];
        let tail = s.drop_first();
        assert(s =~= seq![c] + tail);
        lemma_escaped_front(c, tail);
        lemma_escaped_reads_back(tail, rest);
        let e = escape_char(c);
        let after = escaped(tail) + seq!['"'] + rest;
        assert(t =~= e + after);
        assert(t.skip(e.len() as int) =~= after);
        let n = escaped(tail).len() + 1;
        let code = c as u32;
        assert(t[0] == e[0]);
        if c == '"' || c == '\\' {
            assert(t[1] == e[1]);
            assert(read_json_string(t) == Some((seq![c] + tail, n + 2)));
        } else if code < 0x20 {
            let hi = (code / 16) as nat;
            let lo = (code % 16) as nat;
            assert(t[1] == 'u' && t[2] == '0' && t[3] == '0' && t[4] == hex_char(hi) && t[5] == hex_char(lo));
            assert(hex_value(hex_char(hi)) == Some(hi));
            assert(hex_value(hex_char(lo)) == Some(lo));
            assert(hi * 16 + lo == code);
            lemma_control_char_code(c);
            assert(((hi * 16 + lo) as u8) == code as u8);
            assert(read_json_string(t) == Some((seq![c] + tail, n + 6)));
        } else {
            assert(read_json_string(t) == Some((seq![c] + tail, n + 1)));
        }
        assert(seq![c] + tail =~= s);
    }
}

/// `t` with the text `lit` taken off its front, if it starts with it.
pub open spec fn after_literal(t: Seq<char>, lit: Seq<char>) -> Option<Seq<char>> {
    if lit.len() <= t.len() && t.take(lit.len() as int) == lit {
        Some(t.skip(lit.len() as int))
    } else {
        None
    }
}

/// A JSON string at the front of `t`: its decoded text and what follows it.
pub open spec fn read_string(t: Seq<char>) -> Option<(Seq<char>, Seq<char>)> {
    if t.len() > 0 && t[0] == '"' {
        match read_json_string(t.skip(1)) {
            Some((s, n)) => Some((s, t.skip(1 + n as int))),
            None => None,
        }
    } else {
        None
    }
}

/// Whether `c` is a decimal digit.
pub open spec fn is_digit(c: char) -> bool {
    '0' <= c && c <= '9'
}

/// How many decimal digits `t` starts with.
pub open spec fn digit_run(t: Seq<char>) -> nat
    decreases t.len(),
{
    if t.len() > 0 && is_digit(t[0]) {
        1 + digit_run(t.skip(1))
    } else {
        0
    }
}

/// The number that a sequence of decimal digits writes.
pub open spec fn digits_value(s: Seq<char>) -> nat
    decreases s.len(),
{
    if s.len() == 0 {
        0
    } else {
        digits_value(s.drop_last()) * 10 + (s.last() as u32 - 48) as nat
    }
}

/// A JSON number (an unsigned integer) at the front of `t`, and what follows it.
pub open spec fn read_number(t: Seq<char>) -> Option<(nat, Seq<char>)> {
    let k = digit_run(t);
    if k == 0 {
        None
    } else {
        Some((digits_value(t.take(k as int)), t.skip(k as int)))
    }
}

/// A `status` value at the front of `t`: a number, or a string as the error.
pub open spec fn read_status(t: Seq<char>) -> Option<(Result<nat, Seq<char>>, Seq<char>)> {
    if t.len() > 0 && t[0] == '"' {
        match read_string(t) {
            Some((s, r)) => Some((Err(s), r)),
            None => None,
        }
    } else {
        match read_number(t) {
            Some((n, r)) => Some((Ok(n), r)),
            None => None,
        }
    }
}

/// The fields that a reader finds in one report entry: `url`, `status`,
/// `response_time` and `timestamp`.
pub open spec fn entry_of(r: WebsiteStatus) -> (Seq<char>, Result<nat, Seq<char>>, Seq<char>, Seq<char>) {
    (
        r.url@,
        match r.action_status {
            Ok(code) => Ok(code as nat),
            Err(e) => Err(e@),
        },
        millis_text(r.response_time_us as nat),
        instant_text(r.timestamp_ms as nat),
    )
}

/// One report entry at the front of `t`, and what follows it.
pub open spec fn read_object(t: Seq<char>) -> Option<((Seq<char>, Result<nat, Seq<char>>, Seq<char>, Seq<char>), Seq<char>)> {
    match after_literal(t, "{\"url\":"@) {
        None => None,
        Some(t1) => match read_string(t1) {
            None => None,
            Some((url, t2)) => match after_literal(t2, ", \"status\":"@) {
                None => None,
                Some(t3) => match read_status(t3) {
                    None => None,
                    Some((status, t4)) => match after_literal(t4, ", \"response_time\":"@) {
                        None => None,
                        Some(t5) => match read_string(t5) {
                            None => None,
                            Some((time, t6)) => match after_literal(t6, ", \"timestamp\":"@) {
                                None => None,
                                Some(t7) => match read_string(t7) {
                                    None => None,
                                    Some((stamp, t8)) => if t8.len() > 0 && t8[0] == '}' {
                                        Some(((url, status, time, stamp), t8.skip(1)))
                                    } else {
                                        None
                                    },
                                },
                            },
                        },
                    },
                },
            },
        },
    }
}

/// Entries separated by commas up to the closing `]`, which must end `t`;
/// at most `fuel` of them.
pub open spec fn read_items(t: Seq<char>, fuel: nat) -> Option<Seq<(Seq<char>, Result<nat, Seq<char>>, Seq<char>, Seq<char>)>>
    decreases fuel,
{
    if fuel == 0 {
        None
    } else {
        match read_object(t) {
            None => None,
            Some((e, r)) => if r == seq![']'] {
                Some(seq![e])
            } else if r.len() > 0 && r[0] == ',' {
                match read_items(r.skip(1), (fuel - 1) as nat) {
                    Some(es) => Some(seq![e] + es),
                    None => None,
                }
            } else {
                None
            },
        }
    }
}

/// A whole report: a JSON array of entries.
pub open spec fn read_report(t: Seq<char>) -> Option<Seq<(Seq<char>, Result<nat, Seq<char>>, Seq<char>, Seq<char>)>> {
    if t == seq!['[', ']'] {
        Some(Seq::empty())
    } else if t.len() > 0 && t[0] == '[' {
        read_items(t.skip(1), t.len())
    } else {
        None
    }
}

proof fn lemma_after_literal(lit: Seq<char>, x: Seq<char>)
    ensures
        after_literal(lit + x, lit) == Some(x),
{
    assert((lit + x).take(lit.len() as int) =~= lit);
    assert((lit + x).skip(lit.len() as int) =~= x);
}

proof fn lemma_read_quoted_escaped(s: Seq<char>, rest: Seq<char>)
    ensures
        read_string(quoted(escaped(s)) + rest) == Some((s, rest)),
{
    let t = quoted(escaped(s)) + rest;
    lemma_escaped_reads_back(s, rest);
    assert(t.skip(1) =~= escaped(s) + seq!['"'] + rest);
    assert(t.skip(escaped(s).len() as int + 2) =~= rest);
}

/// Characters that stand for themselves inside a JSON string.
spec fn plain(x: Seq<char>) -> bool {
    forall|i: int| 0 <= i < x.len() ==> (is_digit(#[trigger] x[i]) || x[i] == '.' || x[i] == 'm' || x[i] == 's')
}

proof fn lemma_plain_escaped(x: Seq<char>)
    requires
        plain(x),
    ensures
        escaped(x) == x,
    decreases x.len(),
{
    if x.len() > 0 {
        let c = x.last();
        assert(is_digit(x[x.len() - 1]) || c == '.' || c == 'm' || c == 's');
        assert(plain(x.drop_last()));
        lemma_plain_escaped(x.drop_last());
        assert(escape_char(c) == seq![c]);
        assert(escaped(x) =~= x);
    }
}

proof fn lemma_hex_digit(d: nat)
    requires
        d < 10,
    ensures
        is_digit(hex_char(d)),
        (hex_char(d) as u32 - 48) as nat == d,
{
}

proof fn lemma_decimal_digits(n: nat)
    ensures
        decimal(n).len() > 0,
        forall|i: int| 0 <= i < decimal(n).len() ==> is_digit(#[trigger] decimal(n)[i]),
        digits_value(decimal(n)) == n,
    decreases n,
{
    lemma_hex_digit(n % 10);
    let d = decimal(n);
    if n >= 10 {
        lemma_decimal_digits(n / 10);
        assert(d.drop_last() =~= decimal(n / 10));
        assert(d.last() == hex_char(n % 10));
        assert(digits_value(d) == (n / 10) * 10 + n % 10);
    } else {
        assert(d.drop_last() =~= Seq::<char>::empty());
        assert(d.last() == hex_char(n));
        assert(digits_value(Seq::<char>::empty()) == 0);
        assert(digits_value(d) == n);
    }
}

proof fn lemma_digit_run(d: Seq<char>, rest: Seq<char>)
    requires
        forall|i: int| 0 <= i < d.len() ==> is_digit(#[trigger] d[i]),
        rest.len() == 0 || !is_digit(rest[0]),
    ensures
        digit_run(d + rest) == d.len(),
    decreases d.len(),
{
    if d.len() > 0 {
        assert((d + rest).skip(1) =~= d.skip(1) + rest);
        assert(is_digit(d[0]));
        lemma_digit_run(d.skip(1), rest);
    } else {
        assert(d + rest =~= rest);
    }
}

proof fn lemma_read_decimal(n: nat, rest: Seq<char>)
    requires
        rest.len() > 0,
        rest[0] == ',',
    ensures
        read_number(decimal(n) + rest) == Some((n, rest)),
{
    lemma_decimal_digits(n);
    lemma_digit_run(decimal(n), rest);
    assert((decimal(n) + rest).take(decimal(n).len() as int) =~= decimal(n));
    assert((decimal(n) + rest).skip(decimal(n).len() as int) =~= rest);
}

proof fn lemma_plain_texts(us: nat, ms: nat)
    ensures
        plain(millis_text(us)),
        plain(instant_text(ms)),
{
    lemma_decimal_digits(us / 1000);
    lemma_decimal_digits(ms / 1000);
    lemma_hex_digit((us % 1000 / 100) % 10);
    lemma_hex_digit((us % 1000 / 10) % 10);
    lemma_hex_digit((us % 1000) % 10);
    lemma_hex_digit((ms % 1000 / 100) % 10);
    lemma_hex_digit((ms % 1000 / 10) % 10);
    lemma_hex_digit((ms % 1000) % 10);
    let a = millis_text(us);
    let b = instant_text(ms);
    assert forall|i: int| 0 <= i < a.len() implies (is_digit(#[trigger] a[i]) || a[i] == '.' || a[i] == 'm' || a[i] == 's') by {
        let k = decimal(us / 1000).len() as int;
        if i < k {
            assert(a[i] == decimal(us / 1000)[i]);
        } else if i > k && i < k + 4 {
            assert(a[i] == three_digits(us % 1000)[i - k - 1]);
        }
    }
    assert forall|i: int| 0 <= i < b.len() implies (is_digit(#[trigger] b[i]) || b[i] == '.' || b[i] == 'm' || b[i] == 's') by {
        let k = decimal(ms / 1000).len() as int;
        if i < k {
            assert(b[i] == decimal(ms / 1000)[i]);
        } else if i > k {
            assert(b[i] == three_digits(ms % 1000)[i - k - 1]);
        }
    }
}

#[verifier::rlimit(60)]
proof fn lemma_read_object(r: WebsiteStatus, rest: Seq<char>)
    requires
        rest.len() > 0,
    ensures
        read_object(json_object(r) + rest) == Some((entry_of(r), rest)),
{
    reveal_strlit(", \"response_time\":");
    let time = millis_text(r.response_time_us as nat);
    let stamp = instant_text(r.timestamp_ms as nat);
    lemma_plain_texts(r.response_time_us as nat, r.timestamp_ms as nat);
    lemma_plain_escaped(time);
    lemma_plain_escaped(stamp);
    let t8 = seq!['}'] + rest;
    let t7 = quoted(stamp) + t8;
    let t6 = ", \"timestamp\":"@ + t7;
    let t5 = quoted(time) + t6;
    let t4 = ", \"response_time\":"@ + t5;
    let t3 = status_json(r.action_status) + t4;
    let t2 = ", \"status\":"@ + t3;
    let t1 = quoted(escaped(r.url@)) + t2;
    let t = json_object(r) + rest;
    assert(t =~= "{\"url\":"@ + t1);
    lemma_after_literal("{\"url\":"@, t1);
    lemma_read_quoted_escaped(r.url@, t2);
    lemma_after_literal(", \"status\":"@, t3);
    match r.action_status {
        Ok(code) => {
            lemma_read_decimal(code as nat, t4);
            lemma_decimal_digits(code as nat);
            assert(is_digit(t3[0]));
            assert(read_status(t3) == Some((Ok::<nat, Seq<char>>(code as nat), t4)));
        },
        Err(e) => {
            lemma_read_quoted_escaped(e@, t4);
            assert(read_status(t3) == Some((Err::<nat, Seq<char>>(e@), t4)));
        },
    }
    lemma_after_literal(", \"response_time\":"@, t5);
    lemma_read_quoted_escaped(time, t6);
    lemma_after_literal(", \"timestamp\":"@, t7);
    lemma_read_quoted_escaped(stamp, t8);
    assert(t8.skip(1) =~= rest);
}

#[verifier::rlimit(60)]
proof fn lemma_items_front(rs: Seq<WebsiteStatus>)
    requires
        rs.len() > 0,
    ensures
        json_items(rs) == json_object(rs[0]) + if rs.len() == 1 {
            Seq::<char>::empty()
        } else {
            seq![','] + json_items(rs.drop_first())
        },
        json_items(rs).len() >= rs.len(),
    decreases rs.len(),
{
    if rs.len() == 1 {
        assert(json_items(rs) =~= json_object(rs[0]) + Seq::<char>::empty());
    } else if rs.len() == 2 {
        assert(rs.drop_last() =~= seq![rs[0]]);
        assert(rs.drop_first() =~= seq![rs[1]]);
        assert(json_items(rs.drop_first()) == json_object(rs[1]));
        assert(json_items(rs) =~= json_object(rs[0]) + (seq![','] + json_items(rs.drop_first())));
    } else {
        lemma_items_front(rs.drop_last());
        lemma_items_front(rs.drop_first());
        assert(rs.drop_last().drop_first() =~= rs.drop_first().drop_last());
        assert(rs.drop_first().last() == rs.last());
        assert(json_items(rs) =~= json_object(rs[0]) + (seq![','] + json_items(rs.drop_first())));
    }
}

#[verifier::rlimit(60)]
proof fn lemma_read_items(rs: Seq<WebsiteStatus>, fuel: nat)
    requires
        rs.len() > 0,
        fuel >= rs.len(),
    ensures
        read_items(json_items(rs) + seq![']'], fuel) == Some(rs.map_values(|r: WebsiteStatus| entry_of(r))),
    decreases rs.len(),
{
    lemma_items_front(rs);
    let t = json_items(rs) + seq![']'];
    if rs.len() == 1 {
        assert(t =~= json_object(rs[0]) + seq![']']);
        lemma_read_object(rs[0], seq![']']);
        assert(rs.map_values(|r: WebsiteStatus| entry_of(r)) =~= seq![entry_of(rs[0])]);
    } else {
        let tail = rs.drop_first();
        let r = seq![','] + (json_items(tail) + seq![']']);
        assert(t =~= json_object(rs[0]) + r);
        lemma_read_object(rs[0], r);
        assert(r.skip(1) =~= json_items(tail) + seq![']']);
        lemma_read_items(tail, (fuel - 1) as nat);
        lemma_items_front(tail);
        assert(r != seq![']']);
        assert(rs.map_values(|r: WebsiteStatus| entry_of(r)) =~= seq![entry_of(rs[0])] + tail.map_values(
            |r: WebsiteStatus| entry_of(r),
        ));
    }
}

/// A report reads back whole: read as a JSON array, the text that
/// `save_results_to_json` writes for `rs` gives exactly `rs.len()` entries,
/// the i-th with the `url`, `status` (a number for a code, a string for an
/// error), `response_time` and `timestamp` of `rs[i]`.
pub proof fn lemma_report_reads_back(rs: Seq<WebsiteStatus>)
    ensures
        read_report(json_report(rs)) == Some(rs.map_values(|r: WebsiteStatus| entry_of(r))),
{
    let t = json_report(rs);
    if rs.len() == 0 {
        assert(json_items(rs) == Seq::<char>::empty());
        assert(t =~= seq!['[', ']']);
        assert(rs.map_values(|r: WebsiteStatus| entry_of(r)) =~= Seq::empty());
    } else {
        lemma_items_front(rs);
        assert(t.skip(1) =~= json_items(rs) + seq![']']);
        assert(t.len() > 2);
        assert(t != seq!['[', ']']);
        lemma_read_items(rs, t.len());
    }
}

} // verus!
