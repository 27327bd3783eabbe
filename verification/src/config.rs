use vstd::prelude::*;
use vstd::utf8::is_ascii_chars;

use crate::text::{
    ascii_lower, ascii_lowercase, chars_of, contains_chars, contains_seq,
    lemma_ascii_lowercase_keeps_contains,
    lemma_split_lines_ascii, line_spans, lines, lowercased, span_texts, to_lowercase,
    trim, trim_span,
};

verus! {

/// What to search for, where, and whether case matters.
pub struct Config {
    pub query: String,
    pub file_path: String,
    pub ignore_case: bool,
}

/// The error returned when no query follows the program name.
pub open spec fn missing_query() -> &'static str {
    "Missing query argument"
}

/// The error returned when no file path follows the query.
pub open spec fn missing_file() -> &'static str {
    "Missing file argument"
}

/// Whether the search ignores case: the `IGNORE_CASE` variable decides when it
/// is set (`"1"` means yes); otherwise a fourth argument `-i` asks for it.
pub open spec fn ignore_case_from(args: Seq<Seq<char>>, ignore_case_var: Option<Seq<char>>) -> bool {
    match ignore_case_var {
        Some(v) => v == "1"@,
        None => args.len() >= 4 && args[3] == "-i"@,
    }
}

/// Only the value `"1"` of `IGNORE_CASE` turns case-insensitive search on,
/// whatever the arguments; without the variable, exactly a fourth argument
/// `-i` does.
pub proof fn lemma_ignore_case_switch(args: Seq<Seq<char>>, value: Seq<char>)
    ensures
        ignore_case_from(args, Some(value)) <==> value == "1"@,
        ignore_case_from(args, None) <==> (args.len() >= 4 && args[3] == "-i"@),
{
}

/// Whether `line` matches `query`: it contains it, after both are lowercased
/// when case is ignored.
pub open spec fn line_matches(line: Seq<char>, query: Seq<char>, ignore_case: bool) -> bool {
    if ignore_case {
        contains_seq(lowercased(line), lowercased(query))
    } else {
        contains_seq(line, query)
    }
}

/// `line_matches` as a predicate on lines.
pub open spec fn matcher(query: Seq<char>, ignore_case: bool) -> spec_fn(Seq<char>) -> bool {
    |line: Seq<char>| line_matches(line, query, ignore_case)
}

/// Each line with its leading and trailing white space removed.
pub open spec fn trimmed_lines(ls: Seq<Seq<char>>) -> Seq<Seq<char>> {
    ls.map_values(|line: Seq<char>| trim(line))
}

/// The result of a search: the lines of `contents` that match, in order, each
/// with its leading and trailing white space removed.
pub open spec fn search_results(query: Seq<char>, contents: Seq<char>, ignore_case: bool) -> Seq<
    Seq<char>,
> {
    trimmed_lines(lines(contents).filter(matcher(query, ignore_case)))
}

/// When case is ignored, only the lowercase form of the query matters: two
/// queries with the same lowercase form find the same lines.
pub proof fn lemma_ignore_case_uses_lowercase_query(
    query: Seq<char>,
    other: Seq<char>,
    contents: Seq<char>,
)
    requires
        lowercased(query) == lowercased(other),
    ensures
        search_results(query, contents, true) == search_results(other, contents, true),
{
    assert(matcher(query, true) =~= matcher(other, true));
}

/// For ASCII text, ignoring case loses no match: every line that the
/// case-sensitive search keeps, the case-insensitive search keeps too, and so
/// every result of the one is a result of the other.
pub proof fn lemma_ignoring_case_keeps_exact_matches(query: Seq<char>, contents: Seq<char>)
    requires
        is_ascii_chars(query),
        is_ascii_chars(contents),
    ensures
        forall|k: int|
            0 <= k < lines(contents).len() && line_matches(#[trigger] lines(contents)[k], query, false)
                ==> line_matches(lines(contents)[k], query, true),
        forall|x: Seq<char>|
            #[trigger] search_results(query, contents, false).contains(x) ==> search_results(
                query,
                contents,
                true,
            ).contains(x),
{
    broadcast use vstd::seq_lib::group_filter_ensures;

    let all = lines(contents);
    lemma_split_lines_ascii(contents, seq![]);
    assert forall|k: int|
        0 <= k < all.len() && line_matches(#[trigger] all[k], query, false) implies line_matches(
        all[k],
        query,
        true,
    ) by {
        lemma_ascii_lowercase_keeps_contains(all[k], query);
    }
    let f = matcher(query, false);
    let g = matcher(query, true);
    let exact = all.filter(f);
    let loose = all.filter(g);
    assert forall|x: Seq<char>|
        #[trigger] search_results(query, contents, false).contains(x) implies search_results(
        query,
        contents,
        true,
    ).contains(x) by {
        let trimmed = trimmed_lines(exact);
        let j = choose|j: int| 0 <= j < trimmed.len() && trimmed[j] == x;
        let line = exact[j];
        assert(f(line));
        assert(exact.contains(line));
        all.lemma_filter_contains_rev(f, line);
        let k = choose|k: int| 0 <= k < all.len() && all[k] == line;
        assert(line_matches(all[k], query, false));
        assert(g(all[k]));
        assert(loose.contains(all[k]));
        let m = choose|m: int| 0 <= m < loose.len() && loose[m] == line;
        let loose_trimmed = trimmed_lines(loose);
        assert(loose_trimmed[m] == x);
    }
}

/// `idx` places the items of `a`, in order, at increasing positions of `b`.
pub open spec fn embeds<A>(a: Seq<A>, b: Seq<A>, idx: Seq<int>) -> bool {
    &&& idx.len() == a.len()
    &&& forall|i: int, j: int| 0 <= i < j < idx.len() ==> #[trigger] idx[i] < #[trigger] idx[j]
    &&& forall|i: int| 0 <= i < idx.len() ==> 0 <= #[trigger] idx[i] < b.len() && b[idx[i]] == a[i]
}

/// `a` is `b` with some items left out, the rest kept in order.
pub open spec fn is_subsequence<A>(a: Seq<A>, b: Seq<A>) -> bool {
    exists|idx: Seq<int>| embeds(a, b, idx)
}

/// A text has no ASCII letter.
pub open spec fn has_no_ascii_letter(s: Seq<char>) -> bool {
    forall|i: int| 0 <= i < s.len() ==> !('A' <= #[trigger] s[i] <= 'Z' || 'a' <= s[i] <= 'z')
}

/// Filtering by a weaker predicate keeps every item that a stronger one
/// keeps, in the same order; trimming both keeps that.
proof fn lemma_filter_embeds(
    s: Seq<Seq<char>>,
    f: spec_fn(Seq<char>) -> bool,
    g: spec_fn(Seq<char>) -> bool,
) -> (idx: Seq<int>)
    requires
        forall|i: int| 0 <= i < s.len() && f(#[trigger] s[i]) ==> g(s[i]),
    ensures
        embeds(trimmed_lines(s.filter(f)), trimmed_lines(s.filter(g)), idx),
    decreases s.len(),
{
    if s.len() == 0 {
        reveal(Seq::filter);
        assert(trimmed_lines(s.filter(f)) =~= Seq::<Seq<char>>::empty());
        Seq::<int>::empty()
    } else {
        let p = s.drop_last();
        let x = s.last();
        assert(s =~= p.push(x));
        p.lemma_filter_push(x, f);
        p.lemma_filter_push(x, g);
        assert forall|i: int| 0 <= i < p.len() && f(#[trigger] p[i]) implies g(p[i]) by {
            assert(p[i] == s[i]);
        }
        let idx0 = lemma_filter_embeds(p, f, g);
        let af = trimmed_lines(p.filter(f));
        let bg = trimmed_lines(p.filter(g));
        let a = trimmed_lines(s.filter(f));
        let b = trimmed_lines(s.filter(g));
        if g(x) {
            assert(b =~= bg.push(trim(x)));
        } else {
            assert(b =~= bg);
        }
        if f(x) {
            assert(g(s[s.len() - 1]));
            assert(a =~= af.push(trim(x)));
            let idx = idx0.push(bg.len() as int);
            assert forall|i: int| 0 <= i < idx.len() implies 0 <= idx[i] < b.len() && b[idx[i]]
                == a[i] by {
                if i < idx0.len() {
                    assert(idx[i] == idx0[i]);
                    assert(b[idx0[i]] == bg[idx0[i]]);
                    assert(a[i] == af[i]);
                }
            }
            assert forall|i: int, j: int| 0 <= i < j < idx.len() implies idx[i] < idx[j] by {
                if j < idx0.len() {
                    assert(idx[i] == idx0[i] && idx[j] == idx0[j]);
                } else {
                    assert(idx[i] == idx0[i]);
                }
            }
            idx
        } else {
            assert(a =~= af);
            assert forall|i: int| 0 <= i < idx0.len() implies 0 <= idx0[i] < b.len() && b[idx0[i]]
                == a[i] by {
                assert(b[idx0[i]] == bg[idx0[i]]);
            }
            idx0
        }
    }
}

/// Filtering by two predicates that agree on every item gives the same result.
proof fn lemma_filter_agree(
    s: Seq<Seq<char>>,
    f: spec_fn(Seq<char>) -> bool,
    g: spec_fn(Seq<char>) -> bool,
)
    requires
        forall|i: int| 0 <= i < s.len() ==> f(#[trigger] s[i]) == g(s[i]),
    ensures
        s.filter(f) == s.filter(g),
    decreases s.len(),
{
    if s.len() == 0 {
        reveal(Seq::filter);
    } else {
        let p = s.drop_last();
        let x = s.last();
        assert(s =~= p.push(x));
        p.lemma_filter_push(x, f);
        p.lemma_filter_push(x, g);
        assert forall|i: int| 0 <= i < p.len() implies f(#[trigger] p[i]) == g(p[i]) by {
            assert(p[i] == s[i]);
        }
        lemma_filter_agree(p, f, g);
        assert(f(s[s.len() - 1]) == g(s[s.len() - 1]));
    }
}

/// For a query without ASCII letters, lowercasing neither makes nor loses a
/// match in ASCII text.
proof fn lemma_letterless_match(line: Seq<char>, query: Seq<char>)
    requires
        is_ascii_chars(line),
        is_ascii_chars(query),
        has_no_ascii_letter(query),
    ensures
        line_matches(line, query, true) == line_matches(line, query, false),
{
    assert(ascii_lowercase(query) =~= query) by {
        assert forall|i: int| 0 <= i < query.len() implies ascii_lowercase(query)[i] == query[i] by {
            assert(!('A' <= query[i] <= 'Z'));
        }
    }
    if contains_seq(line, query) {
        lemma_ascii_lowercase_keeps_contains(line, query);
    }
    if contains_seq(ascii_lowercase(line), query) {
        let low = ascii_lowercase(line);
        let i = choose|i: int|
            0 <= i && i + query.len() <= low.len() && #[trigger] low.subrange(i, i + query.len())
                == query;
        assert(line.subrange(i, i + query.len()) =~= query) by {
            assert forall|k: int| 0 <= k < query.len() implies line[i + k] == query[k] by {
                assert(low.subrange(i, i + query.len())[k] == query[k]);
                assert(low[i + k] == ascii_lower(line[i + k]));
                assert(!('a' <= query[k] <= 'z'));
            }
        }
    }
}

/// For ASCII text, ignoring case loses no match and keeps the order: the
/// results of the case-sensitive search are those of the case-insensitive
/// search with some left out. When the query has no ASCII letter, the two
/// searches give the same results.
pub proof fn lemma_case_sensitive_results_within_ignoring_case(
    query: Seq<char>,
    contents: Seq<char>,
)
    requires
        is_ascii_chars(query),
        is_ascii_chars(contents),
    ensures
        is_subsequence(search_results(query, contents, false), search_results(query, contents, true)),
        has_no_ascii_letter(query) ==> search_results(query, contents, false) == search_results(
            query,
            contents,
            true,
        ),
{
    let all = lines(contents);
    lemma_ignoring_case_keeps_exact_matches(query, contents);
    let f = matcher(query, false);
    let g = matcher(query, true);
    assert forall|i: int| 0 <= i < all.len() && f(#[trigger] all[i]) implies g(all[i]) by {
        assert(line_matches(all[i], query, false));
    }
    let idx = lemma_filter_embeds(all, f, g);
    assert(embeds(search_results(query, contents, false), search_results(query, contents, true), idx));
    if has_no_ascii_letter(query) {
        lemma_split_lines_ascii(contents, seq![]);
        assert forall|i: int| 0 <= i < all.len() implies f(#[trigger] all[i]) == g(all[i]) by {
            lemma_letterless_match(all[i], query);
        }
        lemma_filter_agree(all, f, g);
    }
}

/// Whether two texts are equal.
fn same_text(a: &str, b: &str) -> (r: bool)
    ensures
        r == (a@ == b@),
{
    let x = chars_of(a);
    let y = chars_of(b);
    if x.len() != y.len() {
        return false;
    }
    let mut i: usize = 0;
    while i < x.len()
        invariant
            x@ == a@,
            y@ == b@,
            x@.len() == y@.len(),
            i <= x@.len(),
            forall|k: int| 0 <= k < i ==> x@[k] == y@[k],
        decreases x.len() - i,
    {
        if x[i] != y[i] {
            return false;
        }
        i += 1;
    }
    assert(x@ =~= y@);
    true
}

impl Config {
    /// Builds a configuration from the command line `args` (the program name
    /// first) and the value of the `IGNORE_CASE` variable, if it is set.
    pub fn build(args: Vec<String>, ignore_case_var: Option<String>) -> (r: Result<
        Config,
        &'static str,
    >)
        ensures
            args@.len() < 2 ==> r == Err::<Config, &'static str>(missing_query()),
            args@.len() == 2 ==> r == Err::<Config, &'static str>(missing_file()),
            args@.len() >= 3 ==> (r matches Ok(c) && c.query@ == args@[1]@ && c.file_path@
                == args@[2]@ && c.ignore_case == ignore_case_from(
                args.deep_view(),
                match ignore_case_var {
                    Some(v) => Some(v@),
                    None => None,
                },
            )),
            args@.len() < 2 ==> r == Err::<Config, &'static str>("Missing query argument"),
            args@.len() == 2 ==> r == Err::<Config, &'static str>("Missing file argument"),
            args@.len() >= 3 && ignore_case_var is Some ==> (r matches Ok(c) && c.ignore_case == (
            ignore_case_var->0@ == "1"@)),
            args@.len() >= 3 && ignore_case_var is None ==> (r matches Ok(c) && c.ignore_case == (
            args@.len() >= 4 && args@[3]@ == "-i"@)),
    {
        if args.len() < 2 {
            return Err("Missing query argument");
        }
        if args.len() < 3 {
            return Err("Missing file argument");
        }
        let query = args[1].clone();
        let file_path = args[2].clone();
        let ignore_case = match &ignore_case_var {
            Some(v) => same_text(v.as_str(), "1"),
            None => args.len() >= 4 && same_text(args[3].as_str(), "-i"),
        };
        Ok(Config { query, file_path, ignore_case })
    }

    /// The lines of `contents` that contain the query (ignoring case when the
    /// configuration says so), each trimmed of surrounding white space.
    pub fn search(&self, contents: &str) -> (r: Vec<String>)
        ensures
            r.deep_view() == search_results(self.query@, contents@, self.ignore_case),
    {
        let chars = chars_of(contents);
        let spans = line_spans(&chars);
        let query_chars = if self.ignore_case {
            let lowered = to_lowercase(self.query.as_str());
            chars_of(lowered.as_str())
        } else {
            chars_of(self.query.as_str())
        };
        let ghost all = lines(contents@);
        let ghost f = matcher(self.query@, self.ignore_case);
        let mut out: Vec<String> = Vec::new();
        assert(all.take(0) =~= Seq::<Seq<char>>::empty());
        assert(all.take(0).filter(f) =~= Seq::<Seq<char>>::empty());
        assert(out.deep_view() =~= trimmed_lines(all.take(0).filter(f)));
        for k in 0..spans.len()
            invariant
                chars@ == contents@,
                all == lines(contents@),
                span_texts(chars@, spans@) == all,
                forall|m: int| 0 <= m < spans@.len() ==> (#[trigger] spans@[m]).0 <= spans@[m].1 <= chars@.len(),
                self.ignore_case ==> query_chars@ == lowercased(self.query@),
                !self.ignore_case ==> query_chars@ == self.query@,
                f == matcher(self.query@, self.ignore_case),
                out.deep_view() == trimmed_lines(all.take(k as int).filter(f)),
        {
            let (a, b) = spans[k];
            let ghost text = chars@.subrange(a as int, b as int);
            assert(text == all[k as int]);
            let line = contents.substring_char(a, b);
            let matched = if self.ignore_case {
                let lowered = to_lowercase(line);
                let lowered_chars = chars_of(lowered.as_str());
                contains_chars(&lowered_chars, &query_chars)
            } else {
                let line_chars = chars_of(line);
                contains_chars(&line_chars, &query_chars)
            };
            assert(matched == f(text));
            let ghost before = all.take(k as int).filter(f);
            assert(all.take(k + 1) =~= all.take(k as int).push(text));
            proof {
                all.take(k as int).lemma_filter_push(text, f);
            }
            if matched {
                let (ta, tb) = trim_span(&chars, a, b);
                let ghost old_view = out.deep_view();
                out.push(String::from_str(contents.substring_char(ta, tb)));
                assert(out.deep_view() =~= old_view.push(trim(text)));
                assert(trimmed_lines(before.push(text)) =~= trimmed_lines(before).push(trim(text)));
            }
        }
        assert(all.take(spans@.len() as int) =~= all);
        out
    }
}

} // verus!
