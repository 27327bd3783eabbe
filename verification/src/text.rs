use vstd::prelude::*;
use vstd::utf8::is_ascii_chars;

verus! {

// ---------------------------------------------------------------------------
// Specifications
// ---------------------------------------------------------------------------

/// Unicode's `White_Space` property: the characters that `str::trim` removes.
pub open spec fn is_white_space(c: char) -> bool {
    let u = c as u32;
    ||| 0x09 <= u <= 0x0d
    ||| u == 0x20
    ||| u == 0x85
    ||| u == 0xa0
    ||| u == 0x1680
    ||| 0x2000 <= u <= 0x200a
    ||| u == 0x2028
    ||| u == 0x2029
    ||| u == 0x202f
    ||| u == 0x205f
    ||| u == 0x3000
}

/// `s` without its leading white space.
pub open spec fn trim_start(s: Seq<char>) -> Seq<char>
    decreases s.len(),
{
    if s.len() > 0 && is_white_space(s[0]) {
        trim_start(s.drop_first())
    } else {
        s
    }
}

/// `s` without its trailing white space.
pub open spec fn trim_end(s: Seq<char>) -> Seq<char>
    decreases s.len(),
{
    if s.len() > 0 && is_white_space(s.last()) {
        trim_end(s.drop_last())
    } else {
        s
    }
}

/// `s` without leading and trailing white space.
pub open spec fn trim(s: Seq<char>) -> Seq<char> {
    trim_end(trim_start(s))
}

/// A line without the carriage return that ends it, if any.
pub open spec fn strip_cr(line: Seq<char>) -> Seq<char> {
    if line.len() > 0 && line.last() == '\r' {
        line.drop_last()
    } else {
        line
    }
}

/// The lines of `cur + rest`, where `cur` is the start of a line that began
/// earlier. A line ends at `'\n'`, and a `'\r'` right before that `'\n'` is
/// dropped; a final line ending is optional, and an empty text has no lines.
pub open spec fn split_lines(rest: Seq<char>, cur: Seq<char>) -> Seq<Seq<char>>
    decreases rest.len(),
{
    if rest.len() == 0 {
        if cur.len() == 0 {
            seq![]
        } else {
            seq![cur]
        }
    } else if rest[0] == '\n' {
        seq![strip_cr(cur)] + split_lines(rest.drop_first(), seq![])
    } else {
        split_lines(rest.drop_first(), cur.push(rest[0]))
    }
}

/// The lines of a text, as `str::lines` yields them.
pub open spec fn lines(s: Seq<char>) -> Seq<Seq<char>> {
    split_lines(s, seq![])
}

/// `needle` occurs in `hay` as a contiguous run.
pub open spec fn contains_seq(hay: Seq<char>, needle: Seq<char>) -> bool {
    exists|i: int|
        0 <= i && i + needle.len() <= hay.len() && #[trigger] hay.subrange(i, i + needle.len())
            == needle
}

/// What `str::to_lowercase` returns for a text of these characters (Unicode's
/// lowercase mapping of the whole text, which can change its length).
pub uninterp spec fn lowercase(s: Seq<char>) -> Seq<char>;

/// An ASCII character in lowercase: `'A'..='Z'` become `'a'..='z'`, every
/// other character stays.
pub open spec fn ascii_lower(c: char) -> char {
    if 'A' <= c <= 'Z' {
        ((c as u32) + 32) as char
    } else {
        c
    }
}

/// Each character of `s` in ASCII lowercase.
pub open spec fn ascii_lowercase(s: Seq<char>) -> Seq<char> {
    s.map_values(|c: char| ascii_lower(c))
}

/// A text in lowercase, as `str::to_lowercase` gives it: character by
/// character for ASCII text, and by Unicode's mapping of the whole text
/// otherwise.
pub open spec fn lowercased(s: Seq<char>) -> Seq<char> {
    if is_ascii_chars(s) {
        ascii_lowercase(s)
    } else {
        lowercase(s)
    }
}

/// The lines of ASCII text are ASCII.
pub proof fn lemma_split_lines_ascii(rest: Seq<char>, cur: Seq<char>)
    requires
        is_ascii_chars(rest),
        is_ascii_chars(cur),
    ensures
        forall|k: int|
            0 <= k < split_lines(rest, cur).len() ==> is_ascii_chars(
                #[trigger] split_lines(rest, cur)[k],
            ),
    decreases rest.len(),
{
    if rest.len() > 0 {
        assert(is_ascii_chars(rest.drop_first())) by {
            assert forall|i: int| 0 <= i < rest.drop_first().len() implies '\0' <= #[trigger] rest.drop_first()[i] <= '\u{7f}' by {
                assert(rest.drop_first()[i] == rest[i + 1]);
            }
        }
        if rest[0] == '\n' {
            assert(is_ascii_chars(strip_cr(cur))) by {
                assert forall|i: int| 0 <= i < strip_cr(cur).len() implies '\0' <= #[trigger] strip_cr(cur)[i] <= '\u{7f}' by {
                    assert(strip_cr(cur)[i] == cur[i]);
                }
            }
            assert(is_ascii_chars(Seq::<char>::empty()));
            lemma_split_lines_ascii(rest.drop_first(), seq![]);
            let tail = split_lines(rest.drop_first(), seq![]);
            assert(split_lines(rest, cur) == seq![strip_cr(cur)] + tail);
            assert forall|k: int|
                0 <= k < split_lines(rest, cur).len() implies is_ascii_chars(
                #[trigger] split_lines(rest, cur)[k],
            ) by {
                if k > 0 {
                    assert(split_lines(rest, cur)[k] == tail[k - 1]);
                } else {
                    assert(split_lines(rest, cur)[k] == strip_cr(cur));
                }
            }
        } else {
            assert(is_ascii_chars(cur.push(rest[0]))) by {
                assert forall|i: int| 0 <= i < cur.push(rest[0]).len() implies '\0' <= #[trigger] cur.push(rest[0])[i] <= '\u{7f}' by {
                    if i < cur.len() {
                        assert(cur.push(rest[0])[i] == cur[i]);
                    } else {
                        assert(cur.push(rest[0])[i] == rest[0]);
                    }
                }
            }
            lemma_split_lines_ascii(rest.drop_first(), cur.push(rest[0]));
            assert(split_lines(rest, cur) == split_lines(rest.drop_first(), cur.push(rest[0])));
        }
    } else {
        assert forall|k: int|
            0 <= k < split_lines(rest, cur).len() implies is_ascii_chars(
            #[trigger] split_lines(rest, cur)[k],
        ) by {
            assert(split_lines(rest, cur)[k] == cur);
        }
    }
}

/// Lowercasing keeps a match: where `needle` occurs in `hay`, its ASCII
/// lowercase form occurs in that of `hay`.
pub proof fn lemma_ascii_lowercase_keeps_contains(hay: Seq<char>, needle: Seq<char>)
    requires
        contains_seq(hay, needle),
    ensures
        contains_seq(ascii_lowercase(hay), ascii_lowercase(needle)),
{
    let i = choose|i: int|
        0 <= i && i + needle.len() <= hay.len() && #[trigger] hay.subrange(i, i + needle.len())
            == needle;
    assert(ascii_lowercase(hay).subrange(i, i + ascii_lowercase(needle).len()) =~= ascii_lowercase(
        needle,
    ));
}

// ---------------------------------------------------------------------------
// Executable functions
// ---------------------------------------------------------------------------

/// Calls `str::to_lowercase`. The documentation defines the result by
/// Unicode's case mapping of the characters of `s`, so it depends on them
/// alone. For ASCII text that mapping turns `'A'..='Z'` into `'a'..='z'` and
/// leaves every other character, which the contract states; for other text
/// the contract names the result `lowercase(s@)`.
#[verifier::external_body]
pub(crate) fn to_lowercase(s: &str) -> (r: String)
    ensures
        is_ascii_chars(s@) ==> r@ == ascii_lowercase(s@),
        !is_ascii_chars(s@) ==> r@ == lowercase(s@),
{
    s.to_lowercase()
}

/// The characters of `s`, in order.
pub fn chars_of(s: &str) -> (r: Vec<char>)
    ensures
        r@ == s@,
{
    let mut v: Vec<char> = Vec::new();
    for c in it: s.chars()
        invariant
            v@ == it.history(),
    {
        v.push(c);
    }
    v
}

/// Whether `c` is white space in Unicode's sense.
pub fn is_whitespace(c: char) -> (r: bool)
    ensures
        r == is_white_space(c),
{
    let u = c as u32;
    (0x09 <= u && u <= 0x0d) || u == 0x20 || u == 0x85 || u == 0xa0 || u == 0x1680 || (0x2000
        <= u && u <= 0x200a) || u == 0x2028 || u == 0x2029 || u == 0x202f || u == 0x205f || u
        == 0x3000
}

/// Whether `needle` equals `hay[start..start + needle.len()]`.
fn matches_at(hay: &Vec<char>, start: usize, needle: &Vec<char>) -> (r: bool)
    requires
        start + needle@.len() <= hay@.len(),
    ensures
        r == (hay@.subrange(start as int, start + needle@.len()) == needle@),
{
    let n = needle.len();
    let mut k: usize = 0;
    while k < n
        invariant
            n == needle@.len(),
            start + n <= hay.len(),
            k <= n,
            forall|m: int| 0 <= m < k ==> hay@[start + m] == needle@[m],
        decreases n - k,
    {
        if hay[start + k] != needle[k] {
            assert(hay@.subrange(start as int, start + n)[k as int] != needle@[k as int]);
            return false;
        }
        k += 1;
    }
    assert(hay@.subrange(start as int, start + n) =~= needle@);
    true
}

/// Whether `needle` occurs in `hay` as a contiguous run of characters.
pub fn contains_chars(hay: &Vec<char>, needle: &Vec<char>) -> (r: bool)
    ensures
        r == contains_seq(hay@, needle@),
{
    let n = needle.len();
    let h = hay.len();
    if n > h {
        return false;
    }
    if n == 0 {
        assert(hay@.subrange(0int, 0int + needle@.len()) =~= needle@);
        return true;
    }
    let mut i: usize = 0;
    while i <= h - n
        invariant
            n == needle@.len(),
            h == hay@.len(),
            1 <= n <= h,
            i <= h - n + 1,
            forall|j: int| 0 <= j < i ==> #[trigger] hay@.subrange(j, j + needle@.len()) != needle@,
        decreases h - n + 1 - i,
    {
        if matches_at(hay, i, needle) {
            return true;
        }
        i += 1;
    }
    false
}

/// The bounds of the text `chars[start..end]` once leading and trailing
/// white space is removed.
pub fn trim_span(chars: &Vec<char>, start: usize, end: usize) -> (r: (usize, usize))
    requires
        start <= end <= chars@.len(),
    ensures
        start <= r.0 <= r.1 <= end,
        chars@.subrange(r.0 as int, r.1 as int) == trim(chars@.subrange(start as int, end as int)),
{
    let mut i = start;
    while i < end && is_whitespace(chars[i])
        invariant
            start <= i <= end <= chars@.len(),
            trim_start(chars@.subrange(start as int, end as int)) == trim_start(
                chars@.subrange(i as int, end as int),
            ),
        decreases end - i,
    {
        assert(chars@.subrange(i as int, end as int).drop_first() =~= chars@.subrange(
            i + 1,
            end as int,
        ));
        i += 1;
    }
    let mut j = end;
    while j > i && is_whitespace(chars[j - 1])
        invariant
            start <= i <= j <= end <= chars@.len(),
            trim_start(chars@.subrange(start as int, end as int)) == chars@.subrange(
                i as int,
                end as int,
            ),
            trim_end(chars@.subrange(i as int, end as int)) == trim_end(
                chars@.subrange(i as int, j as int),
            ),
        decreases j - i,
    {
        assert(chars@.subrange(i as int, j as int).drop_last() =~= chars@.subrange(
            i as int,
            j - 1,
        ));
        j -= 1;
    }
    (i, j)
}

/// The texts of the spans `spans` cut out of `chars`.
pub open spec fn span_texts(chars: Seq<char>, spans: Seq<(usize, usize)>) -> Seq<Seq<char>> {
    spans.map_values(|p: (usize, usize)| chars.subrange(p.0 as int, p.1 as int))
}

/// The bounds, in `chars`, of each of its lines (see `lines`).
pub fn line_spans(chars: &Vec<char>) -> (r: Vec<(usize, usize)>)
    ensures
        forall|k: int| 0 <= k < r@.len() ==> (#[trigger] r@[k]).0 <= r@[k].1 <= chars@.len(),
        span_texts(chars@, r@) == lines(chars@),
{
    let n = chars.len();
    let mut spans: Vec<(usize, usize)> = Vec::new();
    let mut start: usize = 0;
    let mut i: usize = 0;
    assert(chars@.subrange(0, n as int) =~= chars@);
    assert(chars@.subrange(0, 0) =~= Seq::<char>::empty());
    while i < n
        invariant
            n == chars@.len(),
            start <= i <= n,
            forall|k: int| 0 <= k < spans@.len() ==> (#[trigger] spans@[k]).0 <= spans@[k].1 <= n,
            span_texts(chars@, spans@) + split_lines(
                chars@.subrange(i as int, n as int),
                chars@.subrange(start as int, i as int),
            ) == lines(chars@),
        decreases n - i,
    {
        let ghost rest = chars@.subrange(i as int, n as int);
        let ghost cur = chars@.subrange(start as int, i as int);
        assert(rest.drop_first() =~= chars@.subrange(i + 1, n as int));
        if chars[i] == '\n' {
            let end = if i > start && chars[i - 1] == '\r' {
                i - 1
            } else {
                i
            };
            assert(chars@.subrange(start as int, end as int) =~= strip_cr(cur));
            let ghost before = span_texts(chars@, spans@);
            spans.push((start, end));
            assert(span_texts(chars@, spans@) =~= before.push(strip_cr(cur)));
            assert(chars@.subrange(i + 1, i + 1) =~= Seq::<char>::empty());
            assert(before + split_lines(rest, cur) =~= before.push(strip_cr(cur)) + split_lines(
                chars@.subrange(i + 1, n as int),
                Seq::<char>::empty(),
            ));
            start = i + 1;
        } else {
            assert(cur.push(chars@[i as int]) =~= chars@.subrange(start as int, i + 1));
        }
        i += 1;
    }
    assert(chars@.subrange(n as int, n as int) =~= Seq::<char>::empty());
    if start < n {
        let ghost before = span_texts(chars@, spans@);
        spans.push((start, n));
        assert(span_texts(chars@, spans@) =~= before + seq![chars@.subrange(start as int, n as int)]);
    } else {
        assert(span_texts(chars@, spans@) =~= span_texts(chars@, spans@) + Seq::<Seq<char>>::empty());
    }
    spans
}

} // verus!
