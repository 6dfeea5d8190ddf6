//! The header editor's text: one header per line, written as the value, a
//! colon, and the name.

use vstd::prelude::*;
use vstd::string::*;
use reqwest::header::{HeaderName, HeaderValue};
use crate::row::pairs_view;

verus! {

/// A character that may stand in a header name: a letter, a digit, or one of
/// the marks that a token admits.
pub open spec fn is_name_char(c: char) -> bool {
    ('a' <= c && c <= 'z') || ('A' <= c && c <= 'Z') || ('0' <= c && c <= '9') || c == '!' || c
        == '#' || c == '$' || c == '%' || c == '&' || c == '\'' || c == '*' || c == '+' || c == '-'
        || c == '.' || c == '^' || c == '_' || c == '`' || c == '|' || c == '~'
}

/// A header name: between 1 and 65535 characters, each of them a name
/// character.
pub open spec fn valid_header_name(s: Seq<char>) -> bool {
    0 < s.len() <= 65535 && forall|i: int| 0 <= i < s.len() ==> is_name_char(#[trigger] s[i])
}

/// A character that may stand in a header value: a tab, or any character
/// from the space on but for the delete character.
pub open spec fn is_value_char(c: char) -> bool {
    c == '\t' || (c >= ' ' && c != '\x7f')
}

/// A header value: every character is a value character.
pub open spec fn valid_header_value(s: Seq<char>) -> bool {
    forall|i: int| 0 <= i < s.len() ==> is_value_char(#[trigger] s[i])
}

/// Asks `HeaderName::from_str` whether it takes `s`. It accepts a text of 1
/// to 65535 bytes in which every byte is a letter, a digit or a token mark,
/// and refuses every other text; such a text is ASCII, so its bytes are its
/// characters.
#[verifier::external_body]
fn accepts_header_name(s: &str) -> (ok: bool)
    ensures
        ok == valid_header_name(s@),
{
    let parsed: Result<HeaderName, _> = std::str::FromStr::from_str(s);
    parsed.is_ok()
}

/// Asks `HeaderValue::from_str` whether it takes `s`. It refuses a text that
/// holds a byte below 32 other than the tab, or the byte 127, and accepts
/// every other text; the bytes of a character beyond ASCII are all above 127.
#[verifier::external_body]
fn accepts_header_value(s: &str) -> (ok: bool)
    ensures
        ok == valid_header_value(s@),
{
    HeaderValue::from_str(s).is_ok()
}

/// The number of characters from `from` up to the first `c`, or up to the
/// end of `s` where no `c` follows.
pub open spec fn gap(s: Seq<char>, c: char, from: int) -> nat
    decreases s.len() - from,
{
    if from < 0 || from >= s.len() || s[from] == c {
        0
    } else {
        1 + gap(s, c, from + 1)
    }
}

/// A space, a tab or a carriage return.
pub open spec fn is_blank(c: char) -> bool {
    c == ' ' || c == '\t' || c == '\r'
}

/// The number of blanks that `s` holds from `from` on, up to the first
/// character that is not blank.
pub open spec fn leading_blanks(s: Seq<char>, from: int) -> nat
    decreases s.len() - from,
{
    if from < 0 || from >= s.len() || !is_blank(s[from]) {
        0
    } else {
        1 + leading_blanks(s, from + 1)
    }
}

/// The number of blanks that `s` holds before `to`, back to the last
/// character that is not blank.
pub open spec fn trailing_blanks(s: Seq<char>, to: int) -> nat
    decreases to,
{
    if to <= 0 || to > s.len() || !is_blank(s[to - 1]) {
        0
    } else {
        1 + trailing_blanks(s, to - 1)
    }
}

/// `s` without the blanks at its start.
pub open spec fn trimmed_start(s: Seq<char>) -> Seq<char> {
    s.subrange(leading_blanks(s, 0) as int, s.len() as int)
}

/// `s` without the blanks at its end.
pub open spec fn trimmed_end(s: Seq<char>) -> Seq<char> {
    s.subrange(0, s.len() - trailing_blanks(s, s.len() as int))
}

/// `s` without the blanks at its start and at its end.
pub open spec fn trimmed(s: Seq<char>) -> Seq<char> {
    trimmed_end(trimmed_start(s))
}

/// The header that one line holds. The line is split at its first colon:
/// what stands before it, trimmed, is the value, and what stands after it,
/// trimmed, is the name. A line without a colon, or whose name or value is
/// not valid, holds no header.
pub open spec fn header_of_line(line: Seq<char>) -> Option<(Seq<char>, Seq<char>)> {
    let colon = gap(line, ':', 0) as int;
    if colon >= line.len() {
        None
    } else {
        let value = trimmed(line.subrange(0, colon));
        let name = trimmed(line.subrange(colon + 1, line.len() as int));
        if valid_header_name(name) && valid_header_value(value) {
            Some((name, value))
        } else {
            None
        }
    }
}

/// The headers of the lines of `text` from the character `start` on, as
/// (name, value) pairs in the order of the lines. Lines end at a line feed.
pub open spec fn headers_from(text: Seq<char>, start: int) -> Seq<(Seq<char>, Seq<char>)>
    decreases text.len() - start,
{
    if start < 0 || start >= text.len() {
        Seq::empty()
    } else {
        let len = gap(text, '\n', start);
        let head = match header_of_line(text.subrange(start, start + len)) {
            Some(pair) => seq![pair],
            None => Seq::empty(),
        };
        if start + len >= text.len() {
            head
        } else {
            head + headers_from(text, start + len + 1)
        }
    }
}

/// The headers that the editor's text holds.
pub open spec fn headers_of(text: Seq<char>) -> Seq<(Seq<char>, Seq<char>)> {
    headers_from(text, 0)
}

/// The position of the first `c` at or after `from`, or the length of `s`.
fn find_char(s: &str, c: char, from: usize) -> (at: usize)
    requires
        from <= s@.len(),
    ensures
        at == from + gap(s@, c, from as int),
        from <= at <= s@.len(),
{
    let n = s.unicode_len();
    let mut i: usize = from;
    while i < n && s.get_char(i) != c
        invariant
            from <= i <= n,
            n == s@.len(),
            from + gap(s@, c, from as int) == i + gap(s@, c, i as int),
        decreases n - i,
    {
        i += 1;
    }
    i
}

/// `s` without the blanks at its start and at its end.
pub fn trim_blanks(s: &str) -> (t: &str)
    ensures
        t@ == trimmed(s@),
{
    let n = s.unicode_len();
    let mut a: usize = 0;
    while a < n && is_blank_char(s.get_char(a))
        invariant
            a <= n,
            n == s@.len(),
            leading_blanks(s@, 0) == a + leading_blanks(s@, a as int),
        decreases n - a,
    {
        a += 1;
    }
    let rest = s.substring_char(a, n);
    let m = n - a;
    let mut b: usize = m;
    while b > 0 && is_blank_char(rest.get_char(b - 1))
        invariant
            b <= m,
            m == rest@.len(),
            trailing_blanks(rest@, m as int) == (m - b) + trailing_blanks(rest@, b as int),
        decreases b,
    {
        b -= 1;
    }
    rest.substring_char(0, b)
}

fn is_blank_char(c: char) -> (blank: bool)
    ensures
        blank == is_blank(c),
{
    c == ' ' || c == '\t' || c == '\r'
}

/// Reads one line of the header editor.
pub fn parse_header_line(line: &str) -> (header: Option<(String, String)>)
    ensures
        match header {
            Some(pair) => header_of_line(line@) == Some((pair.0@, pair.1@)),
            None => header_of_line(line@) is None,
        },
{
    let n = line.unicode_len();
    let colon = find_char(line, ':', 0);
    if colon >= n {
        return None;
    }
    let value = trim_blanks(line.substring_char(0, colon));
    let name = trim_blanks(line.substring_char(colon + 1, n));
    if accepts_header_name(name) && accepts_header_value(value) {
        Some((String::from_str(name), String::from_str(value)))
    } else {
        None
    }
}

/// Reads the header editor's text: the headers of its lines, in the order of
/// the lines, each as (name, value). Lines that hold no header are left out.
pub fn parse_headers(text: &str) -> (pairs: Vec<(String, String)>)
    ensures
        pairs_view(pairs@) == headers_of(text@),
{
    let n = text.unicode_len();
    let mut pairs: Vec<(String, String)> = Vec::new();
    let mut start: usize = 0;
    assert(pairs_view(pairs@) =~= Seq::empty());
    while start < n
        invariant
            n == text@.len(),
            pairs_view(pairs@) + headers_from(text@, start as int) == headers_of(text@),
        decreases n - start,
    {
        let end = find_char(text, '\n', start);
        let ghost before = pairs_view(pairs@);
        let ghost rest = if end == n {
            Seq::empty()
        } else {
            headers_from(text@, end + 1)
        };
        match parse_header_line(text.substring_char(start, end)) {
            Some(pair) => {
                let ghost shown = (pair.0@, pair.1@);
                pairs.push(pair);
                assert(pairs_view(pairs@) =~= before.push(shown));
                assert(before.push(shown) + rest =~= before + (seq![shown] + rest));
            },
            None => {
                assert(before + rest =~= before + (Seq::empty() + rest));
            },
        }
        if end == n {
            start = n;
        } else {
            start = end + 1;
        }
    }
    assert(pairs_view(pairs@) + Seq::empty() =~= pairs_view(pairs@));
    pairs
}

/// The text that fills the header editor from stored pairs: for each pair a
/// line of the value, a colon and a space, the name, and a space.
pub open spec fn display_text(pairs: Seq<(Seq<char>, Seq<char>)>) -> Seq<char>
    decreases pairs.len(),
{
    if pairs.len() == 0 {
        Seq::empty()
    } else {
        display_text(pairs.drop_last()) + pairs.last().1 + seq![':', ' '] + pairs.last().0 + seq![
            ' ',
            '\n',
        ]
    }
}

/// Writes stored header pairs as the header editor shows them.
pub fn headers_text(pairs: &Vec<(String, String)>) -> (text: String)
    ensures
        text@ == display_text(pairs_view(pairs@)),
{
    let mut text = String::new();
    let mut i: usize = 0;
    proof {
        reveal_strlit(": ");
        reveal_strlit(" \n");
        assert(pairs_view(pairs@).take(0) =~= Seq::empty());
    }
    while i < pairs.len()
        invariant
            i <= pairs@.len(),
            text@ == display_text(pairs_view(pairs@).take(i as int)),
            ": "@ == seq![':', ' '],
            " \n"@ == seq![' ', '\n'],
        decreases pairs@.len() - i,
    {
        let ghost shown = pairs_view(pairs@);
        text.append(pairs[i].1.as_str());
        text.append(": ");
        text.append(pairs[i].0.as_str());
        text.append(" \n");
        proof {
            assert(shown.take(i + 1).drop_last() =~= shown.take(i as int));
            assert(shown.take(i + 1).last() == shown[i as int]);
        }
        i += 1;
    }
    assert(pairs_view(pairs@).take(i as int) =~= pairs_view(pairs@));
    text
}

/// A pair that the header editor shows in a way that reads back: a valid
/// name, and a valid value that holds no colon and neither starts nor ends
/// with a blank.
pub open spec fn reads_back(pair: (Seq<char>, Seq<char>)) -> bool {
    &&& valid_header_name(pair.0)
    &&& valid_header_value(pair.1)
    &&& trimmed(pair.1) == pair.1
    &&& forall|i: int| 0 <= i < pair.1.len() ==> pair.1[i] != ':'
}

/// The line that shows one pair.
pub open spec fn display_line(pair: (Seq<char>, Seq<char>)) -> Seq<char> {
    pair.1 + seq![':', ' '] + pair.0 + seq![' ', '\n']
}

/// Where no `c` stands from `from` up to `k`, and `k` holds a `c` or is the
/// end, the gap from `from` is the distance to `k`.
pub proof fn lemma_gap_to_first(s: Seq<char>, c: char, from: int, k: int)
    requires
        0 <= from <= k <= s.len(),
        forall|i: int| from <= i < k ==> s[i] != c,
        k == s.len() || s[k] == c,
    ensures
        gap(s, c, from) == k - from,
    decreases k - from,
{
    if from < k {
        lemma_gap_to_first(s, c, from + 1, k);
    }
}

/// Behind a prefix, the gap is that of the rest alone.
pub proof fn lemma_gap_behind_prefix(a: Seq<char>, b: Seq<char>, c: char, k: int)
    requires
        0 <= k,
    ensures
        gap(a + b, c, a.len() + k) == gap(b, c, k),
    decreases b.len() - k,
{
    if k < b.len() {
        assert((a + b)[a.len() + k] == b[k]);
        if b[k] != c {
            lemma_gap_behind_prefix(a, b, c, k + 1);
        }
    }
}

/// Behind a prefix, the headers are those of the rest alone.
pub proof fn lemma_headers_behind_prefix(a: Seq<char>, b: Seq<char>, k: int)
    requires
        0 <= k,
    ensures
        headers_from(a + b, a.len() + k) == headers_from(b, k),
    decreases b.len() - k,
{
    if k < b.len() {
        lemma_gap_behind_prefix(a, b, '\n', k);
        let len = gap(b, '\n', k) as int;
        if k + len < b.len() {
            assert((a + b).subrange(a.len() + k, a.len() + k + len) =~= b.subrange(k, k + len));
            lemma_headers_behind_prefix(a, b, k + len + 1);
        } else {
            lemma_gap_bounded(b, '\n', k);
            assert((a + b).subrange(a.len() + k, a.len() + k + len) =~= b.subrange(k, k + len));
        }
    }
}

/// A gap ends at the end of the text at the latest.
pub proof fn lemma_gap_bounded(s: Seq<char>, c: char, from: int)
    requires
        0 <= from <= s.len(),
    ensures
        from + gap(s, c, from) <= s.len(),
    decreases s.len() - from,
{
    if from < s.len() && s[from] != c {
        lemma_gap_bounded(s, c, from + 1);
    }
}

/// In a text that ends in a line feed, a line's end is found within the
/// text, whatever follows the text.
pub proof fn lemma_gap_within_prefix(a: Seq<char>, b: Seq<char>, start: int)
    requires
        a.len() > 0,
        a.last() == '\n',
        0 <= start < a.len(),
    ensures
        gap(a + b, '\n', start) == gap(a, '\n', start),
        start + gap(a, '\n', start) < a.len(),
    decreases a.len() - start,
{
    assert((a + b)[start] == a[start]);
    if a[start] != '\n' {
        lemma_gap_within_prefix(a, b, start + 1);
    }
}

/// The headers of a text that ends in a line feed, followed by more text,
/// are the headers of the one and then those of the other.
pub proof fn lemma_headers_of_concat(a: Seq<char>, b: Seq<char>, start: int)
    requires
        a.len() > 0,
        a.last() == '\n',
        0 <= start < a.len(),
    ensures
        headers_from(a + b, start) == headers_from(a, start) + headers_from(b, 0),
    decreases a.len() - start,
{
    lemma_gap_within_prefix(a, b, start);
    let len = gap(a, '\n', start) as int;
    assert((a + b).subrange(start, start + len) =~= a.subrange(start, start + len));
    let head = match header_of_line(a.subrange(start, start + len)) {
        Some(pair) => seq![pair],
        None => Seq::empty(),
    };
    if start + len + 1 < a.len() {
        lemma_headers_of_concat(a, b, start + len + 1);
        assert(head + (headers_from(a, start + len + 1) + headers_from(b, 0)) =~= (head
            + headers_from(a, start + len + 1)) + headers_from(b, 0));
    } else {
        lemma_headers_behind_prefix(a, b, 0);
        assert(headers_from(a, start + len + 1) =~= Seq::empty());
        assert(head + headers_from(b, 0) =~= (head + Seq::empty()) + headers_from(b, 0));
    }
}

/// The line that shows a pair which reads back holds that pair and nothing
/// else.
pub proof fn lemma_display_line_reads_back(pair: (Seq<char>, Seq<char>))
    requires
        reads_back(pair),
    ensures
        headers_of(display_line(pair)) == seq![pair],
{
    let (n, v) = pair;
    let text = display_line(pair);
    let end = text.len() - 1;
    assert forall|i: int| 0 <= i < end implies text[i] != '\n' by {
        if i < v.len() {
            assert(text[i] == v[i]);
            assert(is_value_char(v[i]));
        } else if i >= v.len() + 2 && i < v.len() + 2 + n.len() {
            assert(text[i] == n[i - v.len() - 2]);
            assert(is_name_char(n[i - v.len() - 2]));
        }
    }
    lemma_gap_to_first(text, '\n', 0, end);
    let line = text.subrange(0, end);
    assert(line =~= v + seq![':', ' '] + n + seq![' ']);
    assert forall|i: int| 0 <= i < v.len() implies line[i] != ':' by {
        assert(line[i] == v[i]);
    }
    lemma_gap_to_first(line, ':', 0, v.len() as int);
    assert(line.subrange(0, v.len() as int) =~= v);
    let padded = line.subrange(v.len() as int + 1, line.len() as int);
    assert(padded =~= seq![' '] + n + seq![' ']);
    assert(padded[0] == ' ');
    assert(padded[1] == n[0]);
    assert(is_name_char(n[0]));
    reveal_with_fuel(leading_blanks, 3);
    assert(leading_blanks(padded, 0) == 1);
    let rest = trimmed_start(padded);
    assert(rest =~= n + seq![' ']);
    assert(rest[rest.len() - 1] == ' ');
    assert(rest[rest.len() - 2] == n[n.len() - 1]);
    assert(is_name_char(n[n.len() - 1]));
    reveal_with_fuel(trailing_blanks, 3);
    assert(trailing_blanks(rest, rest.len() as int) == 1);
    assert(trimmed_end(rest) =~= n);
    assert(header_of_line(line) == Some(pair));
    assert(headers_from(text, end + 1) =~= Seq::empty());
    assert(text.subrange(0, 0 + end) == line);
    assert(seq![pair] + Seq::empty() =~= seq![pair]);
    assert(headers_from(text, 0) == seq![pair] + headers_from(text, end + 1));
}

/// Stored headers that are shown in the header editor are read back as
/// they were stored: the same pairs in the same order, as long as each pair
/// reads back.
pub proof fn lemma_display_reads_back(pairs: Seq<(Seq<char>, Seq<char>)>)
    requires
        forall|i: int| 0 <= i < pairs.len() ==> reads_back(#[trigger] pairs[i]),
    ensures
        headers_of(display_text(pairs)) == pairs,
    decreases pairs.len(),
{
    if pairs.len() > 0 {
        let front = pairs.drop_last();
        let last = pairs.last();
        let a = display_text(front);
        let b = display_line(last);
        assert(display_text(pairs) =~= a + b);
        lemma_display_reads_back(front);
        lemma_display_line_reads_back(last);
        if front.len() == 0 {
            assert(a + b =~= b);
        } else {
            lemma_headers_of_concat(a, b, 0);
        }
        assert(front + seq![last] =~= pairs);
    }
}

/// The leading blanks end within the text, at a character that is not
/// blank or at the end.
pub proof fn lemma_leading_blanks_end(s: Seq<char>, from: int)
    requires
        0 <= from <= s.len(),
    ensures
        from + leading_blanks(s, from) <= s.len(),
        from + leading_blanks(s, from) < s.len() ==> !is_blank(s[from + leading_blanks(s, from)]),
    decreases s.len() - from,
{
    if from < s.len() && is_blank(s[from]) {
        lemma_leading_blanks_end(s, from + 1);
    }
}

/// The trailing blanks begin within the text, behind a character that is
/// not blank or at the start.
pub proof fn lemma_trailing_blanks_begin(s: Seq<char>, to: int)
    requires
        0 <= to <= s.len(),
    ensures
        trailing_blanks(s, to) <= to,
        to - trailing_blanks(s, to) > 0 ==> !is_blank(s[to - trailing_blanks(s, to) - 1]),
    decreases to,
{
    if to > 0 && is_blank(s[to - 1]) {
        lemma_trailing_blanks_begin(s, to - 1);
    }
}

/// A trimmed text has no blanks left to trim, and holds no character that
/// the text did not hold.
pub proof fn lemma_trimmed_once(s: Seq<char>, c: char)
    ensures
        trimmed(trimmed(s)) == trimmed(s),
        (forall|j: int| 0 <= j < s.len() ==> s[j] != c) ==> (forall|i: int|
            0 <= i < trimmed(s).len() ==> trimmed(s)[i] != c),
{
    lemma_leading_blanks_end(s, 0);
    let a = leading_blanks(s, 0) as int;
    let r = trimmed_start(s);
    lemma_trailing_blanks_begin(r, r.len() as int);
    let t = trimmed(s);
    assert forall|i: int| 0 <= i < t.len() implies t[i] == s[a + i] by {
        assert(t[i] == r[i]);
    }
    if t.len() > 0 {
        assert(t[0] == s[a]);
        assert(!is_blank(t[0]));
        assert(leading_blanks(t, 0) == 0);
        assert(trimmed_start(t) =~= t);
        assert(t[t.len() - 1] == r[t.len() - 1]);
        assert(!is_blank(t[t.len() - 1]));
        assert(trailing_blanks(t, t.len() as int) == 0);
        assert(trimmed_end(t) =~= t);
    } else {
        assert(trimmed_start(t) =~= t);
        assert(trimmed_end(t) =~= t);
    }
}

/// No `c` stands within a gap.
pub proof fn lemma_gap_holds_no_match(s: Seq<char>, c: char, from: int, i: int)
    requires
        0 <= from <= i < from + gap(s, c, from),
    ensures
        i < s.len(),
        s[i] != c,
    decreases i - from,
{
    if from < i {
        lemma_gap_holds_no_match(s, c, from + 1, i);
    }
}

/// The header that a line holds reads back.
pub proof fn lemma_line_header_reads_back(line: Seq<char>)
    requires
        header_of_line(line) is Some,
    ensures
        reads_back(header_of_line(line)->0),
{
    let colon = gap(line, ':', 0) as int;
    let before = line.subrange(0, colon);
    assert forall|j: int| 0 <= j < before.len() implies before[j] != ':' by {
        lemma_gap_holds_no_match(line, ':', 0, j);
    }
    lemma_trimmed_once(before, ':');
}

/// Every header that is read from a text reads back.
pub proof fn lemma_parsed_headers_read_back(text: Seq<char>, start: int)
    ensures
        forall|i: int|
            0 <= i < headers_from(text, start).len() ==> reads_back(
                #[trigger] headers_from(text, start)[i],
            ),
    decreases text.len() - start,
{
    if 0 <= start < text.len() {
        lemma_gap_bounded(text, '\n', start);
        let len = gap(text, '\n', start) as int;
        let line = text.subrange(start, start + len);
        let head = match header_of_line(line) {
            Some(pair) => seq![pair],
            None => Seq::empty(),
        };
        if header_of_line(line) is Some {
            lemma_line_header_reads_back(line);
        }
        let rest = if start + len < text.len() {
            headers_from(text, start + len + 1)
        } else {
            Seq::empty()
        };
        if start + len < text.len() {
            lemma_parsed_headers_read_back(text, start + len + 1);
        }
        let all = headers_from(text, start);
        assert(all =~= head + rest);
        assert forall|i: int| 0 <= i < all.len() implies reads_back(#[trigger] all[i]) by {
            if i < head.len() {
                assert(all[i] == head[i]);
            } else {
                assert(all[i] == rest[i - head.len()]);
            }
        }
    }
}

/// The headers that a run saves from the editor's text are the headers that
/// a run saves again after a restore has shown them: showing and reading
/// keep the pairs and their order.
pub proof fn lemma_saved_headers_survive_restore(text: Seq<char>)
    ensures
        headers_of(display_text(headers_of(text))) == headers_of(text),
{
    lemma_parsed_headers_read_back(text, 0);
    lemma_display_reads_back(headers_of(text));
}

} // verus!
