//! Entries of the output file of a workflow run: a key and a value that
//! may span lines, framed by a delimiter.

use vstd::prelude::*;
use vstd::string::{StrSliceExecFns, StringExecFns};

verus! {

/// The line feed.
pub open spec fn newline() -> char {
    '\n'
}

/// The entry that carries `value` under `key`, framed by `delimiter`: the
/// key, two angle brackets and the delimiter on the first line, then the
/// value, then the delimiter on a line of its own.
pub open spec fn encoded(key: Seq<char>, value: Seq<char>, delimiter: Seq<char>) -> Seq<char> {
    key + seq!['<', '<'] + delimiter + seq!['\n'] + value + seq!['\n'] + delimiter + seq!['\n']
}

/// The entry that carries `value` under `key`, framed by `delimiter`.
pub fn encode_output(key: &str, value: &str, delimiter: &str) -> (r: String)
    ensures
        r@ == encoded(key@, value@, delimiter@),
{
    proof {
        reveal_strlit("<<");
        reveal_strlit("\n");
    }
    let mut out = String::from_str(key);
    out.append("<<");
    out.append(delimiter);
    out.append("\n");
    out.append(value);
    out.append("\n");
    out.append(delimiter);
    out.append("\n");
    assert(out@ =~= encoded(key@, value@, delimiter@)) by {
        assert("<<"@ =~= seq!['<', '<']);
        assert("\n"@ =~= seq!['\n']);
    }
    out
}

/// Whether `c` can stand in a delimiter that this library draws: a
/// lower-case hexadecimal digit or a hyphen.
pub open spec fn is_delimiter_char(c: char) -> bool {
    ('0' <= c && c <= '9') || ('a' <= c && c <= 'f') || c == '-'
}

/// Whether `d` has the shape of a delimiter that this library draws: 36
/// characters, each a lower-case hexadecimal digit or a hyphen.
pub open spec fn delimiter_shaped(d: Seq<char>) -> bool {
    d.len() == 36 && forall|i: int| 0 <= i < d.len() ==> is_delimiter_char(#[trigger] d[i])
}

/// Draws a delimiter: a random identifier from `uuid::Uuid::new_v4`, in
/// its usual hyphenated form.
///
/// Trusted: the text has 36 characters, each a lower-case hexadecimal
/// digit or a hyphen. Which ones is left open.
#[verifier::external_body]
fn random_delimiter() -> (r: String)
    ensures
        delimiter_shaped(r@),
{
    uuid::Uuid::new_v4().to_string()
}

/// The entry that carries `value` under `key`, framed by a freshly drawn
/// delimiter.
pub fn output_entry(key: &str, value: &str) -> (r: String)
    ensures
        exists|d: Seq<char>| #[trigger] delimiter_shaped(d) && r@ == encoded(key@, value@, d),
{
    let delimiter = random_delimiter();
    encode_output(key, value, delimiter.as_str())
}

/// The first place at or after `from` where `s` has a line feed; the
/// length of `s` where it has none there.
pub open spec fn next_newline(s: Seq<char>, from: int) -> int
    decreases s.len() - from,
{
    if from >= s.len() {
        s.len() as int
    } else if s[from] == '\n' {
        from
    } else {
        next_newline(s, from + 1)
    }
}

/// Whether two angle brackets stand at place `i` of `s`.
pub open spec fn marker_at(s: Seq<char>, i: int) -> bool {
    0 <= i && i + 1 < s.len() && s[i] == '<' && s[i + 1] == '<'
}

/// The first place at or after `from` where two angle brackets stand in
/// `s`; the length of `s` where none do.
pub open spec fn next_marker(s: Seq<char>, from: int) -> int
    decreases s.len() - from,
{
    if from >= s.len() {
        s.len() as int
    } else if marker_at(s, from) {
        from
    } else {
        next_marker(s, from + 1)
    }
}

/// Whether a line that reads `delimiter` and ends in a line feed begins at
/// place `q` of `rest`.
pub open spec fn closes_at(rest: Seq<char>, delimiter: Seq<char>, q: int) -> bool {
    &&& 0 <= q
    &&& q + delimiter.len() < rest.len()
    &&& q == 0 || rest[q - 1] == '\n'
    &&& rest.subrange(q, q + delimiter.len()) == delimiter
    &&& rest[q + delimiter.len()] == '\n'
}

/// The first place at or after `from` where such a line begins in `rest`;
/// the length of `rest` where none does.
pub open spec fn next_close(rest: Seq<char>, delimiter: Seq<char>, from: int) -> int
    decreases rest.len() - from,
{
    if from >= rest.len() {
        rest.len() as int
    } else if closes_at(rest, delimiter, from) {
        from
    } else {
        next_close(rest, delimiter, from + 1)
    }
}

/// The key and the value of the entry at the start of `text`, as a reader
/// of the output file takes them: the first line gives the key and, behind
/// two angle brackets, the delimiter; the value is what stands between
/// that line and the first line that reads the delimiter.
pub open spec fn decoded(text: Seq<char>) -> Option<(Seq<char>, Seq<char>)> {
    let n = next_newline(text, 0);
    if n >= text.len() {
        None
    } else {
        let header = text.take(n);
        let p = next_marker(header, 0);
        if p >= header.len() {
            None
        } else {
            let delimiter = header.skip(p + 2);
            let rest = text.skip(n + 1);
            let q = next_close(rest, delimiter, 0);
            if q >= rest.len() {
                None
            } else if q == 0 {
                Some((header.take(p), Seq::empty()))
            } else {
                Some((header.take(p), rest.take(q - 1)))
            }
        }
    }
}

/// Whether one of the lines of `value` reads `delimiter`.
pub open spec fn holds_line(value: Seq<char>, delimiter: Seq<char>) -> bool {
    exists|q: int|
        {
            &&& 0 <= q
            &&& q + delimiter.len() <= value.len()
            &&& q == 0 || value[q - 1] == '\n'
            &&& #[trigger] value.subrange(q, q + delimiter.len()) == delimiter
            &&& q + delimiter.len() == value.len() || value[q + delimiter.len()] == '\n'
        }
}

/// Where no line feed stands from `from` up to `n`, and one stands at `n`
/// or `s` ends there, `n` is the next place with a line feed.
proof fn lemma_next_newline(s: Seq<char>, from: int, n: int)
    requires
        0 <= from <= n <= s.len(),
        forall|k: int| from <= k < n ==> s[k] != '\n',
        n == s.len() || s[n] == '\n',
    ensures
        next_newline(s, from) == n,
    decreases n - from,
{
    if from < n {
        lemma_next_newline(s, from + 1, n);
    }
}

/// The same for the next place with two angle brackets.
proof fn lemma_next_marker(s: Seq<char>, from: int, n: int)
    requires
        0 <= from <= n <= s.len(),
        forall|k: int| from <= k < n ==> !marker_at(s, k),
        n == s.len() || marker_at(s, n),
    ensures
        next_marker(s, from) == n,
    decreases n - from,
{
    if from < n {
        lemma_next_marker(s, from + 1, n);
    }
}

/// The same for the next place where a line that reads the delimiter
/// begins.
proof fn lemma_next_close(rest: Seq<char>, delimiter: Seq<char>, from: int, n: int)
    requires
        0 <= from <= n <= rest.len(),
        forall|k: int| from <= k < n ==> !closes_at(rest, delimiter, k),
        n == rest.len() || closes_at(rest, delimiter, n),
    ensures
        next_close(rest, delimiter, from) == n,
    decreases n - from,
{
    if from < n {
        lemma_next_close(rest, delimiter, from + 1, n);
    }
}

/// An entry reads back as the key and the value it was made of: whatever
/// line feeds the value holds, as long as the key holds neither a line
/// feed nor an angle bracket, the delimiter is not empty and holds no line
/// feed, and no line of the value reads the delimiter.
pub proof fn lemma_output_round_trip(key: Seq<char>, value: Seq<char>, delimiter: Seq<char>)
    requires
        forall|i: int| 0 <= i < key.len() ==> key[i] != '\n' && key[i] != '<',
        forall|i: int| 0 <= i < delimiter.len() ==> delimiter[i] != '\n',
        delimiter.len() > 0,
        !holds_line(value, delimiter),
    ensures
        decoded(encoded(key, value, delimiter)) == Some((key, value)),
{
    let text = encoded(key, value, delimiter);
    let kl = key.len() as int;
    let dl = delimiter.len() as int;
    let vl = value.len() as int;
    let n = kl + 2 + dl;
    assert(text.len() == kl + 2 + dl + 1 + vl + 1 + dl + 1);
    assert forall|k: int| 0 <= k < n implies text[k] != '\n' by {
        if k < kl {
            assert(text[k] == key[k]);
        } else if k >= kl + 2 {
            assert(text[k] == delimiter[k - kl - 2]);
        }
    }
    assert(text[n] == '\n');
    lemma_next_newline(text, 0, n);
    let header = text.take(n);
    assert(header =~= key + seq!['<', '<'] + delimiter);
    assert forall|k: int| 0 <= k < kl implies !marker_at(header, k) by {
        assert(header[k] == key[k]);
    }
    assert(marker_at(header, kl));
    lemma_next_marker(header, 0, kl);
    assert(header.take(kl) =~= key);
    assert(header.skip(kl + 2) =~= delimiter);
    let rest = text.skip(n + 1);
    assert(rest =~= value + seq!['\n'] + delimiter + seq!['\n']);
    let q = vl + 1;
    assert(rest.subrange(q, q + dl) =~= delimiter);
    assert(closes_at(rest, delimiter, q));
    assert forall|k: int| 0 <= k < q implies !closes_at(rest, delimiter, k) by {
        if closes_at(rest, delimiter, k) {
            if k + dl > vl {
                assert(rest.subrange(k, k + dl)[vl - k] == rest[vl]);
                assert(delimiter[vl - k] == '\n');
            }
            assert(value.subrange(k, k + dl) =~= rest.subrange(k, k + dl));
            if k > 0 {
                assert(rest[k - 1] == value[k - 1]);
            }
            if k + dl < vl {
                assert(rest[k + dl] == value[k + dl]);
            }
            assert(holds_line(value, delimiter));
        }
    }
    lemma_next_close(rest, delimiter, 0, q);
    assert(rest.take(q - 1) =~= value);
}

/// A delimiter that this library draws is not empty and holds no line feed.
pub proof fn lemma_delimiter_shape(d: Seq<char>)
    requires
        delimiter_shaped(d),
    ensures
        d.len() > 0,
        forall|i: int| 0 <= i < d.len() ==> d[i] != '\n',
{
    assert forall|i: int| 0 <= i < d.len() implies d[i] != '\n' by {
        assert(is_delimiter_char(d[i]));
    }
}

/// The first place where `text` has a line feed.
fn find_newline(text: &str) -> (r: usize)
    ensures
        r == next_newline(text@, 0),
        r <= text@.len(),
{
    let len = text.unicode_len();
    let mut i: usize = 0;
    while i < len
        invariant
            i <= len,
            len == text@.len(),
            next_newline(text@, 0) == next_newline(text@, i as int),
        decreases len - i,
    {
        if text.get_char(i) == '\n' {
            return i;
        }
        i += 1;
    }
    i
}

/// The first place where two angle brackets stand in `text`.
fn find_marker(text: &str) -> (r: usize)
    ensures
        r == next_marker(text@, 0),
        r <= text@.len(),
        r < text@.len() ==> r + 2 <= text@.len(),
{
    let len = text.unicode_len();
    let mut i: usize = 0;
    while i < len
        invariant
            i <= len,
            len == text@.len(),
            next_marker(text@, 0) == next_marker(text@, i as int),
        decreases len - i,
    {
        if i + 1 < len && text.get_char(i) == '<' && text.get_char(i + 1) == '<' {
            return i;
        }
        i += 1;
    }
    i
}

/// Whether a line that reads `delimiter` and ends in a line feed begins at
/// place `q` of `rest`.
fn closes(rest: &str, delimiter: &str, q: usize) -> (r: bool)
    requires
        q < rest@.len(),
    ensures
        r == closes_at(rest@, delimiter@, q as int),
{
    let rl = rest.unicode_len();
    let dl = delimiter.unicode_len();
    if dl >= rl - q {
        return false;
    }
    if q > 0 && rest.get_char(q - 1) != '\n' {
        return false;
    }
    if rest.get_char(q + dl) != '\n' {
        return false;
    }
    let mut j: usize = 0;
    while j < dl
        invariant
            j <= dl,
            dl == delimiter@.len(),
            rl == rest@.len(),
            q + dl < rl,
            forall|k: int| 0 <= k < j ==> rest@[q + k] == delimiter@[k],
        decreases dl - j,
    {
        if rest.get_char(q + j) != delimiter.get_char(j) {
            assert(rest@.subrange(q as int, q + dl)[j as int] != delimiter@[j as int]);
            return false;
        }
        j += 1;
    }
    assert(rest@.subrange(q as int, q + dl) =~= delimiter@);
    true
}

/// The first place where a line that reads `delimiter` begins in `rest`.
fn find_close(rest: &str, delimiter: &str) -> (r: usize)
    ensures
        r == next_close(rest@, delimiter@, 0),
        r <= rest@.len(),
{
    let len = rest.unicode_len();
    let mut i: usize = 0;
    while i < len
        invariant
            i <= len,
            len == rest@.len(),
            next_close(rest@, delimiter@, 0) == next_close(rest@, delimiter@, i as int),
        decreases len - i,
    {
        if closes(rest, delimiter, i) {
            return i;
        }
        i += 1;
    }
    i
}

/// What a parsed entry reads, if there is one.
pub open spec fn entry_view(r: Option<(String, String)>) -> Option<(Seq<char>, Seq<char>)> {
    match r {
        Some((key, value)) => Some((key@, value@)),
        None => None,
    }
}

/// The key and the value of the entry at the start of `text`, as a reader
/// of the output file takes them; `None` where `text` does not start with
/// a whole entry.
pub fn parse_output(text: &str) -> (r: Option<(String, String)>)
    ensures
        entry_view(r) == decoded(text@),
{
    let len = text.unicode_len();
    let n = find_newline(text);
    if n >= len {
        return None;
    }
    let header = text.substring_char(0, n);
    assert(header@ =~= text@.take(n as int));
    let p = find_marker(header);
    if p >= n {
        return None;
    }
    let key = header.substring_char(0, p);
    let delimiter = header.substring_char(p + 2, n);
    let rest = text.substring_char(n + 1, len);
    proof {
        assert(key@ =~= header@.take(p as int));
        assert(delimiter@ =~= header@.skip(p + 2));
        assert(rest@ =~= text@.skip(n + 1));
    }
    let q = find_close(rest, delimiter);
    if q >= rest.unicode_len() {
        return None;
    }
    if q == 0 {
        return Some((String::from_str(key), String::new()));
    }
    let value = rest.substring_char(0, q - 1);
    assert(value@ =~= rest@.take(q - 1));
    Some((String::from_str(key), String::from_str(value)))
}

} // verus!
