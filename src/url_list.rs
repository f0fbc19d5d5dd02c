//! The URL list format: one URL per line, surrounding whitespace ignored;
//! blank lines and lines that start with `#` are skipped.
use vstd::prelude::*;
use crate::dispatch::texts;

verus! {

/// The lines of a text as `str::lines` gives them.
pub uninterp spec fn lines_of(text: Seq<char>) -> Seq<Seq<char>>;

/// A text without its leading and trailing whitespace, as `str::trim` gives it.
pub uninterp spec fn trimmed(s: Seq<char>) -> Seq<char>;

/// Relies on `str::lines`: the text split at `\n` and `\r\n`, line endings removed.
#[verifier::external_body]
fn split_lines(text: &str) -> (lines: Vec<String>)
    ensures
        texts(lines@) == lines_of(text@),
{
    text.lines().map(|l| l.to_string()).collect()
}

/// Relies on `str::trim`: the text without leading and trailing whitespace.
#[verifier::external_body]
fn trim_text(s: &str) -> (r: String)
    ensures
        r@ == trimmed(s@),
        s@.len() == 0 ==> r@.len() == 0,
{
    s.trim().to_string()
}

/// Whether a trimmed line names a URL: it is not blank and not a comment.
pub open spec fn is_url_entry(line: Seq<char>) -> bool {
    line.len() > 0 && line[0] != '#'
}

/// The lines that name URLs, in order.
pub open spec fn url_entries(lines: Seq<Seq<char>>) -> Seq<Seq<char>>
    decreases lines.len(),
{
    if lines.len() == 0 {
        Seq::empty()
    } else if is_url_entry(lines.last()) {
        url_entries(lines.drop_last()).push(lines.last())
    } else {
        url_entries(lines.drop_last())
    }
}

/// The URLs of a list given as lines that are already trimmed: blank lines
/// and comments dropped, order kept.
pub fn select_urls(lines: &Vec<String>) -> (urls: Vec<String>)
    ensures
        texts(urls@) == url_entries(texts(lines@)),
{
    let mut urls: Vec<String> = Vec::new();
    let n = lines.len();
    let mut i: usize = 0;
    assert(texts(lines@).subrange(0, 0) =~= Seq::<Seq<char>>::empty());
    assert(texts(urls@) =~= Seq::<Seq<char>>::empty());
    while i < n
        invariant
            n == lines@.len(),
            i <= n,
            texts(urls@) == url_entries(texts(lines@).subrange(0, i as int)),
        decreases n - i,
    {
        let line = &lines[i];
        let keep = if line.as_str().unicode_len() == 0 {
            false
        } else {
            line.as_str().get_char(0) != '#'
        };
        let ghost done = texts(lines@).subrange(0, i + 1);
        assert(done.drop_last() =~= texts(lines@).subrange(0, i as int));
        assert(done.last() == line@);
        if keep {
            let u = line.clone();
            assert(texts(urls@.push(u)) =~= texts(urls@).push(u@));
            urls.push(u);
        }
        i = i + 1;
    }
    assert(texts(lines@).subrange(0, n as int) =~= texts(lines@));
    urls
}

/// Reads a URL list: each line trimmed, blank lines and `#` comments
/// dropped, the rest kept in order.
pub fn parse_url_list(text: &str) -> (urls: Vec<String>)
    ensures
        texts(urls@) == url_entries(lines_of(text@).map_values(|l: Seq<char>| trimmed(l))),
{
    let raw = split_lines(text);
    let mut lines: Vec<String> = Vec::new();
    let n = raw.len();
    let mut i: usize = 0;
    while i < n
        invariant
            n == raw@.len(),
            i <= n,
            texts(raw@) == lines_of(text@),
            texts(lines@) == texts(raw@).subrange(0, i as int).map_values(|l: Seq<char>| trimmed(l)),
        decreases n - i,
    {
        let t = trim_text(raw[i].as_str());
        assert(texts(raw@)[i as int] == raw@[i as int]@);
        assert(t@ == trimmed(texts(raw@)[i as int]));
        assert(texts(lines@.push(t)) =~= texts(lines@).push(t@));
        assert(texts(lines@.push(t)) =~= texts(raw@).subrange(0, i + 1).map_values(|l: Seq<char>| trimmed(l)));
        lines.push(t);
        i = i + 1;
    }
    assert(texts(raw@).subrange(0, n as int) =~= texts(raw@));
    select_urls(&lines)
}

} // verus!
