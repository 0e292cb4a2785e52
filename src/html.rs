//! Text helpers for the HTML that the chat server renders: escaping, issue
//! links, first lines, decimal numbers.

use vstd::prelude::*;

verus! {

/// Whether `a` and `b` hold the same characters.
pub fn equal_text(a: &str, b: &str) -> (r: bool)
    ensures
        r == (a@ == b@),
{
    let n = a.unicode_len();
    if n != b.unicode_len() {
        return false;
    }
    let mut i: usize = 0;
    while i < n
        invariant
            n == a@.len(),
            n == b@.len(),
            i <= n,
            a@.subrange(0, i as int) == b@.subrange(0, i as int),
        decreases n - i,
    {
        if a.get_char(i) != b.get_char(i) {
            return false;
        }
        assert(a@.subrange(0, i + 1) =~= a@.subrange(0, i as int).push(a@[i as int]));
        assert(b@.subrange(0, i + 1) =~= b@.subrange(0, i as int).push(b@[i as int]));
        i = i + 1;
    }
    assert(a@ =~= a@.subrange(0, n as int));
    assert(b@ =~= b@.subrange(0, n as int));
    true
}

/// What `c` becomes in escaped HTML text.
pub open spec fn escaped_char(c: char) -> Seq<char> {
    if c == '"' {
        "&quot;"@
    } else if c == '&' {
        "&amp;"@
    } else if c == '\'' {
        "&#x27;"@
    } else if c == '<' {
        "&lt;"@
    } else if c == '>' {
        "&gt;"@
    } else {
        seq![c]
    }
}

/// `s` with each character escaped.
pub open spec fn escaped(s: Seq<char>) -> Seq<char>
    decreases s.len(),
{
    if s.len() == 0 {
        Seq::empty()
    } else {
        escaped(s.drop_last()) + escaped_char(s.last())
    }
}

/// Relies on htmlescape::encode_minimal: it replaces `"`, `&`, `'`, `<` and `>`
/// by their entities and copies every other character.
#[verifier::external_body]
pub(crate) fn escape(s: &str) -> (r: String)
    ensures
        r@ == escaped(s@),
{
    htmlescape::encode_minimal(s)
}

/// Relies on String::push: appends one character.
#[verifier::external_body]
pub(crate) fn push_char(s: &mut String, c: char)
    ensures
        final(s)@ == old(s)@.push(c),
{
    s.push(c)
}

pub open spec fn is_digit(c: char) -> bool {
    '0' <= c && c <= '9'
}

/// How many ASCII digits `s` starts with.
pub open spec fn digit_run(s: Seq<char>) -> nat
    decreases s.len(),
{
    if s.len() > 0 && is_digit(s[0]) {
        1 + digit_run(s.drop_first())
    } else {
        0
    }
}

pub proof fn lemma_digit_run_bound(s: Seq<char>)
    ensures
        digit_run(s) <= s.len(),
        forall|i: int| 0 <= i < digit_run(s) ==> is_digit(#[trigger] s[i]),
    decreases s.len(),
{
    if s.len() > 0 && is_digit(s[0]) {
        lemma_digit_run_bound(s.drop_first());
        assert forall|i: int| 0 <= i < digit_run(s) implies is_digit(#[trigger] s[i]) by {
            if i > 0 {
                assert(s[i] == s.drop_first()[i - 1]);
            }
        }
    }
}

/// The link that an issue reference `#number` becomes in a repository at `url`.
pub open spec fn issue_link(url: Seq<char>, number: Seq<char>) -> Seq<char> {
    "<a href='"@ + escaped(url) + "/issues/"@ + escaped(number) + "'>#"@ + number + "</a>"@
}

/// `s` with each `#` that is followed by digits, together with all the digits
/// that follow it, turned into an issue link; scanned from the left.
pub open spec fn linked_issues(s: Seq<char>, url: Seq<char>) -> Seq<char>
    decreases s.len(),
{
    if s.len() == 0 {
        Seq::empty()
    } else if s[0] == '#' && digit_run(s.drop_first()) > 0 {
        let n = digit_run(s.drop_first()) as int;
        proof {
            lemma_digit_run_bound(s.drop_first());
        }
        issue_link(url, s.subrange(1, 1 + n)) + linked_issues(s.subrange(1 + n, s.len() as int), url)
    } else {
        seq![s[0]] + linked_issues(s.drop_first(), url)
    }
}

/// The link for issue `number` of the repository at `url`.
pub fn issue_anchor(url: &str, number: &str) -> (r: String)
    ensures
        r@ == issue_link(url@, number@),
{
    let mut r = String::from_str("<a href='");
    r.append(escape(url).as_str());
    r.append("/issues/");
    r.append(escape(number).as_str());
    r.append("'>#");
    r.append(number);
    r.append("</a>");
    r
}

/// Relies on regex::Regex::replace_all with the pattern `#([0-9]+)`: matches
/// are found from the left, do not overlap, and take every digit that follows
/// the `#`; each is replaced by what the closure returns for its digits.
#[verifier::external_body]
fn replace_issue_references(text: &str, url: &str) -> (r: String)
    ensures
        r@ == linked_issues(text@, url@),
{
    let pattern = regex::Regex::new("#([0-9]+)").unwrap();
    pattern.replace_all(text, |c: &regex::Captures| issue_anchor(url, &c[1])).into_owned()
}

/// The escaped title with issue references linked into the repository at `url`.
pub open spec fn formatted_title(message: Seq<char>, url: Seq<char>) -> Seq<char> {
    linked_issues(escaped(message), url)
}

/// Escapes `message` and turns its issue references into links.
pub fn format_title(message: &str, url: &str) -> (r: String)
    ensures
        r@ == formatted_title(message@, url@),
{
    let escaped_message = escape(message);
    replace_issue_references(escaped_message.as_str(), url)
}

/// Index of the first line break in `s`, or its length.
pub open spec fn line_end(s: Seq<char>) -> nat
    decreases s.len(),
{
    if s.len() == 0 || s[0] == '\n' {
        0
    } else {
        1 + line_end(s.drop_first())
    }
}

pub open spec fn first_line(s: Seq<char>) -> Seq<char> {
    s.subrange(0, line_end(s) as int)
}

/// Whether `s` spans more than one line.
pub open spec fn is_multiline(s: Seq<char>) -> bool {
    line_end(s) < s.len()
}

pub proof fn lemma_line_end_bound(s: Seq<char>)
    ensures
        line_end(s) <= s.len(),
        line_end(s) < s.len() ==> s[line_end(s) as int] == '\n',
        forall|i: int| 0 <= i < line_end(s) ==> #[trigger] s[i] != '\n',
    decreases s.len(),
{
    if s.len() > 0 && s[0] != '\n' {
        lemma_line_end_bound(s.drop_first());
        assert forall|i: int| 0 <= i < line_end(s) implies #[trigger] s[i] != '\n' by {
            if i > 0 {
                assert(s[i] == s.drop_first()[i - 1]);
            }
        }
    }
}

/// The number of characters before the first line break of `s`.
pub fn first_line_len(s: &str) -> (r: usize)
    ensures
        r == line_end(s@),
{
    let n = s.unicode_len();
    let mut i: usize = 0;
    assert(s@.subrange(0, n as int) =~= s@);
    while i < n && s.get_char(i) != '\n'
        invariant
            n == s@.len(),
            i <= n,
            line_end(s@) == i + line_end(s@.subrange(i as int, n as int)),
        decreases n - i,
    {
        assert(s@.subrange(i as int, n as int).drop_first() =~= s@.subrange(i + 1, n as int));
        i = i + 1;
    }
    proof {
        lemma_line_end_at(s@, i as int);
    }
    i
}

proof fn lemma_line_end_at(s: Seq<char>, i: int)
    requires
        0 <= i <= s.len(),
        i == s.len() || s[i] == '\n',
        line_end(s) == i + line_end(s.subrange(i, s.len() as int)),
    ensures
        line_end(s) == i,
{
}

/// The text of `s` before its first line break.
pub fn first_line_of(s: &str) -> (r: &str)
    ensures
        r@ == first_line(s@),
{
    let k = first_line_len(s);
    proof {
        lemma_line_end_bound(s@);
    }
    s.substring_char(0, k)
}

/// The decimal digits of `n`.
pub open spec fn decimal(n: nat) -> Seq<char>
    decreases n,
{
    if n < 10 {
        seq![digit_char(n)]
    } else {
        decimal(n / 10).push(digit_char(n % 10))
    }
}

pub open spec fn digit_char(d: nat) -> char {
    if d == 0 { '0' }
    else if d == 1 { '1' }
    else if d == 2 { '2' }
    else if d == 3 { '3' }
    else if d == 4 { '4' }
    else if d == 5 { '5' }
    else if d == 6 { '6' }
    else if d == 7 { '7' }
    else if d == 8 { '8' }
    else { '9' }
}

fn digit(d: u32) -> (c: char)
    requires
        d < 10,
    ensures
        c == digit_char(d as nat),
{
    if d == 0 { '0' }
    else if d == 1 { '1' }
    else if d == 2 { '2' }
    else if d == 3 { '3' }
    else if d == 4 { '4' }
    else if d == 5 { '5' }
    else if d == 6 { '6' }
    else if d == 7 { '7' }
    else if d == 8 { '8' }
    else { '9' }
}

/// Appends the decimal digits of `n` to `out`.
pub fn push_decimal(out: &mut String, n: u32)
    ensures
        final(out)@ == old(out)@ + decimal(n as nat),
    decreases n,
{
    if n < 10 {
        push_char(out, digit(n));
        assert(decimal(n as nat) =~= seq![digit_char(n as nat)]);
    } else {
        push_decimal(out, n / 10);
        push_char(out, digit(n % 10));
    }
}

} // verus!
