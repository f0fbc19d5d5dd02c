//! The outcome of checking one site, and its rendering as a console line
//! and as a JSON report.
use vstd::prelude::*;
use crate::text::{decimal, digit_char, hex_char, push_char, push_decimal};

verus! {

/// One outcome per URL per run.
#[derive(Debug, PartialEq, Eq)]
pub struct WebsiteStatus {
    /// The probed address.
    pub url: String,
    /// The HTTP status code of a completed exchange, or the transport error.
    pub action_status: Result<u16, String>,
    /// Time from the start of the first attempt to the end of the last one,
    /// in microseconds, retry delays included.
    pub response_time_us: u64,
    /// When the last attempt completed, in milliseconds since the Unix epoch.
    pub timestamp_ms: u64,
}

/// How one character of a text stands inside a JSON string: quotes and
/// backslashes are escaped, control characters written as `\u00XX`.
pub open spec fn escape_char(c: char) -> Seq<char> {
    if c == '"' {
        seq!['\\', '"']
    } else if c == '\\' {
        seq!['\\', '\\']
    } else if (c as u32) < 0x20 {
        seq!['\\', 'u', '0', '0', hex_char((c as u32 / 16) as nat), hex_char((c as u32 % 16) as nat)]
    } else {
        seq![c]
    }
}

/// A text as it stands inside a JSON string.
pub open spec fn escaped(s: Seq<char>) -> Seq<char>
    decreases s.len(),
{
    if s.len() == 0 {
        Seq::empty()
    } else {
        escaped(s.drop_last()) + escape_char(s.last())
    }
}

/// Three decimal digits of `n % 1000`, with leading zeros.
pub open spec fn three_digits(n: nat) -> Seq<char> {
    seq![hex_char((n / 100) % 10), hex_char((n / 10) % 10), hex_char(n % 10)]
}

/// A span of `us` microseconds, in milliseconds with three decimals: `152.345ms`.
pub open spec fn millis_text(us: nat) -> Seq<char> {
    decimal(us / 1000) + seq!['.'] + three_digits(us % 1000) + seq!['m', 's']
}

/// An instant `ms` milliseconds after the Unix epoch, in seconds with three
/// decimals: `1700000000.123`.
pub open spec fn instant_text(ms: nat) -> Seq<char> {
    decimal(ms / 1000) + seq!['.'] + three_digits(ms % 1000)
}

/// `s` between double quotes.
pub open spec fn quoted(s: Seq<char>) -> Seq<char> {
    seq!['"'] + s + seq!['"']
}

/// The `status` value of a report entry: the code as a number, or the error
/// as a string.
pub open spec fn status_json(s: Result<u16, String>) -> Seq<char> {
    match s {
        Ok(code) => decimal(code as nat),
        Err(e) => quoted(escaped(e@)),
    }
}

/// The JSON object that reports `r`.
pub open spec fn json_object(r: WebsiteStatus) -> Seq<char> {
    "{\"url\":"@ + quoted(escaped(r.url@)) + ", \"status\":"@ + status_json(r.action_status)
        + ", \"response_time\":"@ + quoted(millis_text(r.response_time_us as nat))
        + ", \"timestamp\":"@ + quoted(instant_text(r.timestamp_ms as nat)) + seq!['}']
}

/// The objects that report `rs`, in order, separated by commas.
pub open spec fn json_items(rs: Seq<WebsiteStatus>) -> Seq<char>
    decreases rs.len(),
{
    if rs.len() == 0 {
        Seq::empty()
    } else if rs.len() == 1 {
        json_object(rs[0])
    } else {
        json_items(rs.drop_last()) + seq![','] + json_object(rs.last())
    }
}

/// The JSON array that reports `rs`.
pub open spec fn json_report(rs: Seq<WebsiteStatus>) -> Seq<char> {
    seq!['['] + json_items(rs) + seq![']']
}

/// The console line for `r`: `[url] 200 (1.500ms)` or `[url] ERROR: msg (1.500ms)`.
pub open spec fn status_line_text(r: WebsiteStatus) -> Seq<char> {
    seq!['['] + r.url@ + "] "@ + match r.action_status {
        Ok(code) => decimal(code as nat),
        Err(e) => "ERROR: "@ + e@,
    } + " ("@ + millis_text(r.response_time_us as nat) + seq![')']
}

/// Appends `c` as it stands inside a JSON string.
fn push_escaped_char(s: &mut String, c: char)
    ensures
        final(s)@ == old(s)@ + escape_char(c),
{
    if c == '"' {
        push_char(s, '\\');
        push_char(s, '"');
    } else if c == '\\' {
        push_char(s, '\\');
        push_char(s, '\\');
    } else if (c as u32) < 0x20 {
        push_char(s, '\\');
        push_char(s, 'u');
        push_char(s, '0');
        push_char(s, '0');
        push_char(s, digit_char((c as u32 / 16) as u64));
        push_char(s, digit_char((c as u32 % 16) as u64));
    } else {
        push_char(s, c);
    }
    assert(s@ =~= old(s)@ + escape_char(c));
}

/// Appends `t` as it stands inside a JSON string.
fn push_escaped(s: &mut String, t: &str)
    ensures
        final(s)@ == old(s)@ + escaped(t@),
{
    let n = t.unicode_len();
    let ghost start = s@;
    let mut i: usize = 0;
    assert(t@.subrange(0, 0) =~= Seq::<char>::empty());
    assert(start =~= start + escaped(t@.subrange(0, 0)));
    while i < n
        invariant
            n == t@.len(),
            i <= n,
            s@ == start + escaped(t@.subrange(0, i as int)),
        decreases n - i,
    {
        let c = t.get_char(i);
        push_escaped_char(s, c);
        assert(t@.subrange(0, i + 1).drop_last() =~= t@.subrange(0, i as int));
        assert(s@ =~= start + escaped(t@.subrange(0, i + 1)));
        i = i + 1;
    }
    assert(t@.subrange(0, n as int) =~= t@);
}

/// Appends the three decimal digits of `n % 1000`.
fn push_three_digits(s: &mut String, n: u64)
    ensures
        final(s)@ == old(s)@ + three_digits(n as nat),
{
    push_char(s, digit_char((n / 100) % 10));
    push_char(s, digit_char((n / 10) % 10));
    push_char(s, digit_char(n % 10));
    assert(s@ =~= old(s)@ + three_digits(n as nat));
}

/// Appends `us` microseconds as milliseconds with three decimals.
fn push_millis(s: &mut String, us: u64)
    ensures
        final(s)@ == old(s)@ + millis_text(us as nat),
{
    push_decimal(s, us / 1000);
    push_char(s, '.');
    push_three_digits(s, us % 1000);
    push_char(s, 'm');
    push_char(s, 's');
    assert(s@ =~= old(s)@ + millis_text(us as nat));
}

/// Appends an instant given in milliseconds since the epoch, as seconds.
fn push_instant(s: &mut String, ms: u64)
    ensures
        final(s)@ == old(s)@ + instant_text(ms as nat),
{
    push_decimal(s, ms / 1000);
    push_char(s, '.');
    push_three_digits(s, ms % 1000);
    assert(s@ =~= old(s)@ + instant_text(ms as nat));
}

/// Appends the JSON object that reports `r`.
fn push_json_object(s: &mut String, r: &WebsiteStatus)
    ensures
        final(s)@ == old(s)@ + json_object(*r),
{
    let ghost start = s@;
    s.append("{\"url\":");
    push_char(s, '"');
    push_escaped(s, r.url.as_str());
    push_char(s, '"');
    s.append(", \"status\":");
    let ghost mid = s@;
    match &r.action_status {
        Ok(code) => push_decimal(s, *code as u64),
        Err(e) => {
            push_char(s, '"');
            push_escaped(s, e.as_str());
            push_char(s, '"');
        },
    }
    assert(s@ =~= mid + status_json(r.action_status));
    s.append(", \"response_time\":");
    push_char(s, '"');
    push_millis(s, r.response_time_us);
    push_char(s, '"');
    s.append(", \"timestamp\":");
    push_char(s, '"');
    push_instant(s, r.timestamp_ms);
    push_char(s, '"');
    push_char(s, '}');
    assert(s@ =~= start + json_object(*r));
}

/// Renders `statuses` as a JSON array with one object per result, in order:
/// `url` and `response_time` and `timestamp` as strings, `status` as a number
/// for a completed exchange and as a string for an error. An empty slice
/// gives `[]`.
pub fn save_results_to_json(statuses: &[WebsiteStatus]) -> (json: String)
    ensures
        json@ == json_report(statuses@),
{
    let mut out = String::new();
    push_char(&mut out, '[');
    let n = statuses.len();
    let mut i: usize = 0;
    assert(statuses@.subrange(0, 0) =~= Seq::<WebsiteStatus>::empty());
    while i < n
        invariant
            n == statuses@.len(),
            i <= n,
            out@ == seq!['['] + json_items(statuses@.subrange(0, i as int)),
        decreases n - i,
    {
        if i > 0 {
            push_char(&mut out, ',');
        }
        push_json_object(&mut out, &statuses[i]);
        let ghost done = statuses@.subrange(0, i + 1);
        assert(done.drop_last() =~= statuses@.subrange(0, i as int));
        if i == 0 {
            assert(out@ =~= seq!['['] + json_items(done));
        } else {
            assert(out@ =~= seq!['['] + json_items(done));
        }
        i = i + 1;
    }
    push_char(&mut out, ']');
    assert(statuses@.subrange(0, n as int) =~= statuses@);
    assert(out@ =~= json_report(statuses@));
    out
}

/// The console line that reports `status`, without a line break.
pub fn status_line(status: &WebsiteStatus) -> (line: String)
    ensures
        line@ == status_line_text(*status),
{
    let mut out = String::new();
    push_char(&mut out, '[');
    out.append(status.url.as_str());
    out.append("] ");
    match &status.action_status {
        Ok(code) => push_decimal(&mut out, *code as u64),
        Err(e) => {
            out.append("ERROR: ");
            out.append(e.as_str());
        },
    }
    out.append(" (");
    push_millis(&mut out, status.response_time_us);
    push_char(&mut out, ')');
    assert(out@ =~= status_line_text(*status));
    out
}

} // verus!
