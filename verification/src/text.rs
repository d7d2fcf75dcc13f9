use vstd::prelude::*;
use crate::errors::ServiceError;
use crate::outside::{chars_to_string, str_to_chars};

verus! {

/// The characters of `s` from position `i` on with every tag removed:
/// a '<' opens a tag, the next '>' closes it, and everything in between
/// (the brackets included) is dropped.  `in_tag` says whether position
/// `i` already lies inside a tag.
pub open spec fn spec_strip_html_from(s: Seq<char>, i: int, in_tag: bool) -> Seq<char>
    decreases s.len() - i,
{
    if i < 0 || i >= s.len() {
        Seq::empty()
    } else if in_tag {
        spec_strip_html_from(s, i + 1, s[i] != '>')
    } else if s[i] == '<' {
        spec_strip_html_from(s, i + 1, true)
    } else {
        seq![s[i]] + spec_strip_html_from(s, i + 1, false)
    }
}

/// Plain text of an HTML fragment: the fragment with its tags stripped.
pub open spec fn spec_strip_html(s: Seq<char>) -> Seq<char> {
    spec_strip_html_from(s, 0, false)
}

/// Strips tags from an HTML fragment, preserving the readable text.
pub fn convert_html_to_text(html: &str) -> (r: String)
    ensures
        r@ == spec_strip_html(html@),
{
    let cs: Vec<char> = str_to_chars(html);
    let mut out: Vec<char> = Vec::new();
    let mut in_tag: bool = false;
    let mut i: usize = 0;
    assert(out@ + spec_strip_html_from(html@, 0, false) =~= spec_strip_html(html@));
    while i < cs.len()
        invariant
            cs@ == html@,
            i <= cs.len(),
            out@ + spec_strip_html_from(html@, i as int, in_tag) =~= spec_strip_html(html@),
        decreases cs.len() - i,
    {
        let c = cs[i];
        if in_tag {
            if c == '>' {
                in_tag = false;
            }
            assert(out@ + spec_strip_html_from(html@, i + 1, html@[i as int] != '>')
                =~= spec_strip_html(html@));
        } else if c == '<' {
            in_tag = true;
            assert(out@ + spec_strip_html_from(html@, i + 1, true) =~= spec_strip_html(html@));
        } else {
            out.push(c);
            assert(out@ + spec_strip_html_from(html@, i + 1, false) =~= spec_strip_html(html@));
        }
        i = i + 1;
    }
    assert(out@ =~= spec_strip_html(html@));
    chars_to_string(out)
}

/// Element-wise mean of column `j`, as truncated integer division of
/// the column sum by the number of vectors.
pub open spec fn spec_column_sum(vs: Seq<Seq<i64>>, j: int, upto: int) -> int
    decreases upto,
{
    if upto <= 0 {
        0
    } else {
        spec_column_sum(vs, j, upto - 1) + vs[upto - 1][j]
    }
}

/// Whether every vector of `vs` has length `n`.
pub open spec fn spec_uniform_arity(vs: Seq<Seq<i64>>, n: int) -> bool {
    forall|k: int| 0 <= k < vs.len() ==> (#[trigger] vs[k]).len() == n
}

proof fn lemma_column_sum_bound(vs: Seq<Seq<i64>>, j: int, upto: int)
    requires
        0 <= upto <= vs.len(),
    ensures
        spec_column_sum(vs, j, upto) <= upto * (i64::MAX as int),
        spec_column_sum(vs, j, upto) >= upto * (i64::MIN as int),
    decreases upto,
{
    if upto > 0 {
        lemma_column_sum_bound(vs, j, upto - 1);
        assert(vs[upto - 1][j] <= i64::MAX as int && vs[upto - 1][j] >= i64::MIN as int);
        assert(upto * (i64::MAX as int) == (upto - 1) * (i64::MAX as int) + (i64::MAX as int))
            by (nonlinear_arith);
        assert(upto * (i64::MIN as int) == (upto - 1) * (i64::MIN as int) + (i64::MIN as int))
            by (nonlinear_arith);
    }
}

/// Whitespace for the coarse chunker.
pub open spec fn spec_is_space(c: char) -> bool {
    c == ' ' || c == '\n' || c == '\t' || c == '\r'
}

/// Position of the first whitespace character of `s` at or after `i`,
/// or the length of `s` when none follows.
pub open spec fn spec_word_end(s: Seq<char>, i: int) -> int
    decreases s.len() - i,
{
    if i < 0 || i >= s.len() {
        s.len() as int
    } else if spec_is_space(s[i]) {
        i
    } else {
        spec_word_end(s, i + 1)
    }
}

proof fn lemma_word_end_bounds(s: Seq<char>, i: int)
    requires
        0 <= i <= s.len(),
    ensures
        i <= spec_word_end(s, i) <= s.len(),
    decreases s.len() - i,
{
    if i < s.len() && !spec_is_space(s[i]) {
        lemma_word_end_bounds(s, i + 1);
    }
}

/// The whitespace-separated words of `s` from position `i` on.
pub open spec fn spec_words_from(s: Seq<char>, i: int) -> Seq<Seq<char>>
    decreases s.len() - i,
    when i >= 0
    via spec_words_from_decreases
{
    if i < 0 || i >= s.len() {
        Seq::empty()
    } else if spec_is_space(s[i]) {
        spec_words_from(s, i + 1)
    } else {
        seq![s.subrange(i, spec_word_end(s, i))] + spec_words_from(s, spec_word_end(s, i))
    }
}

#[via_fn]
proof fn spec_words_from_decreases(s: Seq<char>, i: int) {
    if 0 <= i < s.len() && !spec_is_space(s[i]) {
        lemma_word_end_bounds(s, i + 1);
    }
}

/// The words of a document.
pub open spec fn spec_words(s: Seq<char>) -> Seq<Seq<char>> {
    spec_words_from(s, 0)
}

proof fn lemma_word_end_characterisation(s: Seq<char>, a: int, b: int)
    requires
        0 <= a <= b <= s.len(),
        forall|k: int| a <= k < b ==> !spec_is_space(#[trigger] s[k]),
        b == s.len() || spec_is_space(s[b]),
    ensures
        spec_word_end(s, a) == b,
    decreases b - a,
{
    if a < b {
        lemma_word_end_characterisation(s, a + 1, b);
    }
}

fn is_space_char(c: char) -> (r: bool)
    ensures
        r == spec_is_space(c),
{
    c == ' ' || c == '\n' || c == '\t' || c == '\r'
}

/// Splits a document into its whitespace-separated words.
pub fn split_words(text: &str) -> (r: Vec<String>)
    ensures
        r@.map_values(|w: String| w@) == spec_words(text@),
{
    let cs: Vec<char> = str_to_chars(text);
    let ghost s = text@;
    let mut out: Vec<String> = Vec::new();
    let mut i: usize = 0;
    assert(out@.map_values(|w: String| w@) + spec_words_from(s, 0) =~= spec_words(s));
    while i < cs.len()
        invariant
            cs@ == s,
            s == text@,
            i <= cs.len(),
            out@.map_values(|w: String| w@) + spec_words_from(s, i as int) =~= spec_words(s),
        decreases cs.len() - i,
    {
        let c = cs[i];
        if is_space_char(c) {
            assert(out@.map_values(|w: String| w@) + spec_words_from(s, i + 1)
                =~= spec_words(s));
            i = i + 1;
        } else {
            let start: usize = i;
            let mut word: Vec<char> = Vec::new();
            while i < cs.len() && !is_space_char(cs[i])
                invariant
                    cs@ == s,
                    start <= i <= cs.len(),
                    word@ =~= s.subrange(start as int, i as int),
                    forall|k: int| start <= k < i ==> !spec_is_space(#[trigger] s[k]),
                decreases cs.len() - i,
            {
                word.push(cs[i]);
                assert(word@ =~= s.subrange(start as int, i + 1));
                i = i + 1;
            }
            proof {
                lemma_word_end_characterisation(s, start as int, i as int);
            }
            let w: String = chars_to_string(word);
            out.push(w);
            proof {
                let f = |x: String| x@;
                assert(out@.map_values(f) =~= out@.drop_last().map_values(f).push(
                    s.subrange(start as int, i as int),
                ));
                assert(out@.map_values(f) + spec_words_from(s, i as int) =~= spec_words(s));
            }
        }
    }
    assert(out@.map_values(|w: String| w@) =~= spec_words(s));
    out
}

/// The words joined by single spaces.
pub open spec fn spec_join(ws: Seq<Seq<char>>) -> Seq<char>
    decreases ws.len(),
{
    if ws.len() == 0 {
        Seq::empty()
    } else if ws.len() == 1 {
        ws[0]
    } else {
        ws[0] + seq![' '] + spec_join(ws.skip(1))
    }
}

proof fn lemma_join_push(ws: Seq<Seq<char>>, w: Seq<char>)
    requires
        ws.len() >= 1,
    ensures
        spec_join(ws.push(w)) == spec_join(ws) + seq![' '] + w,
    decreases ws.len(),
{
    if ws.len() == 1 {
        assert(ws.push(w).skip(1) =~= seq![w]);
        assert(spec_join(seq![w]) == w);
        assert(ws.push(w)[0] == ws[0]);
        assert(spec_join(ws.push(w)) == ws.push(w)[0] + seq![' '] + spec_join(ws.push(w).skip(1)));
        assert(spec_join(ws) + seq![' '] + w =~= ws[0] + seq![' '] + w);
    } else {
        lemma_join_push(ws.skip(1), w);
        assert(ws.push(w).skip(1) =~= ws.skip(1).push(w));
        assert(spec_join(ws.push(w)) =~= spec_join(ws) + seq![' '] + w);
    }
}

/// Consecutive groups of at most `target` words, each group joined by
/// single spaces.
pub open spec fn spec_group_words(ws: Seq<Seq<char>>, target: int) -> Seq<Seq<char>>
    decreases ws.len(),
    when target >= 1
{
    if ws.len() == 0 {
        Seq::empty()
    } else if ws.len() <= target {
        seq![spec_join(ws)]
    } else {
        seq![spec_join(ws.take(target))] + spec_group_words(ws.skip(target), target)
    }
}

/// The coarse chunks of a document: its words in order, grouped into
/// runs of at most `target` words, each run joined by single spaces.
pub open spec fn spec_coarse_chunks(s: Seq<char>, target: int) -> Seq<Seq<char>> {
    spec_group_words(spec_words(s), target)
}

fn join_group(words: &Vec<String>, start: usize, end: usize) -> (r: String)
    requires
        start < end <= words@.len(),
    ensures
        r@ == spec_join(words@.map_values(|w: String| w@).subrange(start as int, end as int)),
{
    let ghost ws = words@.map_values(|w: String| w@);
    let mut s: String = words[start].clone();
    let mut k: usize = start + 1;
    assert(ws.subrange(start as int, start + 1) =~= seq![ws[start as int]]);
    while k < end
        invariant
            start < k <= end <= words@.len(),
            ws == words@.map_values(|w: String| w@),
            s@ == spec_join(ws.subrange(start as int, k as int)),
        decreases end - k,
    {
        s.append(" ");
        s.append(words[k].as_str());
        proof {
            reveal_strlit(" ");
            assert(ws[k as int] == words@[k as int]@);
            lemma_join_push(ws.subrange(start as int, k as int), ws[k as int]);
            assert(ws.subrange(start as int, k + 1) =~= ws.subrange(start as int, k as int).push(
                ws[k as int],
            ));
            assert(s@ =~= spec_join(ws.subrange(start as int, k + 1)));
        }
        k = k + 1;
    }
    s
}

/// Splits a long document into coarse chunks of about `target_words`
/// words each, for the split-average embedding path.
pub fn coarse_doc_chunker(text: &str, target_words: usize) -> (r: Vec<String>)
    requires
        target_words >= 1,
    ensures
        r@.map_values(|w: String| w@) == spec_coarse_chunks(text@, target_words as int),
{
    let words: Vec<String> = split_words(text);
    let ghost ws = words@.map_values(|w: String| w@);
    let mut out: Vec<String> = Vec::new();
    let mut start: usize = 0;
    assert(out@.map_values(|w: String| w@) + spec_group_words(ws.skip(0), target_words as int)
        =~= spec_coarse_chunks(text@, target_words as int)) by {
        assert(ws.skip(0) =~= ws);
    }
    while start < words.len()
        invariant
            target_words >= 1,
            start <= words@.len(),
            ws == words@.map_values(|w: String| w@),
            ws == spec_words(text@),
            out@.map_values(|w: String| w@) + spec_group_words(
                ws.skip(start as int),
                target_words as int,
            ) =~= spec_coarse_chunks(text@, target_words as int),
        decreases words@.len() - start,
    {
        let remaining: usize = words.len() - start;
        let len: usize = if remaining <= target_words {
            remaining
        } else {
            target_words
        };
        let end: usize = start + len;
        let chunk: String = join_group(&words, start, end);
        out.push(chunk);
        proof {
            let f = |x: String| x@;
            let tail = ws.skip(start as int);
            assert(out@.map_values(f) =~= out@.drop_last().map_values(f).push(
                spec_join(ws.subrange(start as int, end as int)),
            ));
            if remaining <= target_words {
                assert(tail =~= ws.subrange(start as int, end as int));
                assert(spec_group_words(tail, target_words as int) =~= seq![spec_join(tail)]);
            } else {
                assert(tail.take(target_words as int) =~= ws.subrange(start as int, end as int));
                assert(tail.skip(target_words as int) =~= ws.skip(end as int));
            }
            assert(out@.map_values(f) + spec_group_words(ws.skip(end as int), target_words as int)
                =~= spec_coarse_chunks(text@, target_words as int));
        }
        start = end;
    }
    assert(out@.map_values(|w: String| w@) =~= spec_coarse_chunks(text@, target_words as int));
    out
}

/// Floor of the exact quotient `sum / n`: the largest integer at or
/// below it.
pub open spec fn spec_mean(sum: int, n: int) -> int {
    if sum >= 0 {
        sum / n
    } else {
        -1 * ((-sum + n - 1) / n)
    }
}

/// Floor division of a bounded column sum by the (positive) number of
/// vectors; the result is again a valid fixed-point coordinate.
fn div_floor(sum: i128, n: usize) -> (q: i64)
    requires
        n >= 1,
        sum <= (n as int) * (i64::MAX as int),
        sum >= (n as int) * (i64::MIN as int),
    ensures
        q as int == spec_mean(sum as int, n as int),
{
    broadcast use vstd::arithmetic::div_mod::lemma_div_is_ordered;
    broadcast use vstd::arithmetic::div_mod::lemma_div_multiples_vanish;
    broadcast use vstd::arithmetic::div_mod::lemma_div_multiples_vanish_fancy;
    broadcast use vstd::arithmetic::div_mod::lemma_div_pos_is_pos;

    if sum >= 0 {
        let q: u128 = (sum as u128) / (n as u128);
        proof {
            assert((n as int) * (i64::MAX as int) / (n as int) == i64::MAX as int);
            assert(sum as int / (n as int) <= (n as int) * (i64::MAX as int) / (n as int));
            assert(q as int <= i64::MAX as int);
        }
        q as i64
    } else {
        proof {
            assert((n as int) * (i64::MIN as int) > i128::MIN as int) by (nonlinear_arith)
                requires n >= 1 && n <= usize::MAX;
        }
        let a: u128 = (-sum) as u128;
        proof {
            assert(a as int <= (n as int) * (0x8000_0000_0000_0000 as int)) by {
                assert((n as int) * (i64::MIN as int) == -1 * ((n as int) * (
                0x8000_0000_0000_0000 as int))) by (nonlinear_arith);
            }
            assert((n as int) * (0x8000_0000_0000_0000 as int) + (n as int) <= u128::MAX as int)
                by (nonlinear_arith)
                requires n >= 1 && n <= usize::MAX;
        }
        let num: u128 = a + (n as u128) - 1;
        let q: u128 = num / (n as u128);
        proof {
            assert(num as int <= (n as int) * (0x8000_0000_0000_0000 as int) + ((n as int) - 1));
            assert(((n as int) * (0x8000_0000_0000_0000 as int) + ((n as int) - 1)) / (n as int)
                == 0x8000_0000_0000_0000 as int);
            assert(q as int <= 0x8000_0000_0000_0000 as int);
        }
        let neg: i128 = -(q as i128);
        neg as i64
    }
}

/// Mean of several dense embeddings of one document, used for the
/// split-average embedding path.  Fails exactly when the input is empty
/// or the arities differ; otherwise returns the element-wise mean
/// (rounded down) of the vectors.
pub fn average_embeddings(embeddings: &Vec<Vec<i64>>) -> (r: Result<Vec<i64>, ServiceError>)
    ensures
        r is Ok <==> embeddings@.len() > 0 && spec_uniform_arity(
            embeddings@.map_values(|v: Vec<i64>| v@),
            embeddings@[0]@.len() as int,
        ),
        r is Ok ==> {
            let vs = embeddings@.map_values(|v: Vec<i64>| v@);
            let n = embeddings@[0]@.len() as int;
            &&& r->Ok_0@.len() == n
            &&& forall|j: int|
                0 <= j < n ==> #[trigger] r->Ok_0@[j] as int == spec_mean(
                    spec_column_sum(vs, j, vs.len() as int),
                    vs.len() as int,
                )
        },
{
    let ghost vs = embeddings@.map_values(|v: Vec<i64>| v@);
    if embeddings.len() == 0 {
        return Err(ServiceError::BadRequest("cannot average empty embeddings".to_owned()));
    }
    let arity: usize = embeddings[0].len();
    let mut k: usize = 0;
    while k < embeddings.len()
        invariant
            embeddings@.len() > 0,
            arity == embeddings@[0]@.len(),
            k <= embeddings@.len(),
            vs == embeddings@.map_values(|v: Vec<i64>| v@),
            forall|t: int| 0 <= t < k ==> (#[trigger] vs[t]).len() == arity,
        decreases embeddings@.len() - k,
    {
        if embeddings[k].len() != arity {
            proof {
                assert(vs[k as int] == embeddings@[k as int]@);
                assert(vs[k as int].len() != arity as int);
            }
            return Err(ServiceError::BadRequest("embedding arities differ".to_owned()));
        }
        k = k + 1;
    }
    assert(spec_uniform_arity(vs, arity as int));
    let n: usize = embeddings.len();
    let mut out: Vec<i64> = Vec::new();
    let mut j: usize = 0;
    while j < arity
        invariant
            n == embeddings@.len(),
            n > 0,
            arity == embeddings@[0]@.len(),
            vs == embeddings@.map_values(|v: Vec<i64>| v@),
            spec_uniform_arity(vs, arity as int),
            j <= arity,
            out@.len() == j,
            forall|t: int|
                0 <= t < j ==> #[trigger] out@[t] as int == spec_mean(
                    spec_column_sum(vs, t, vs.len() as int),
                    vs.len() as int,
                ),
        decreases arity - j,
    {
        let mut sum: i128 = 0;
        let mut k2: usize = 0;
        while k2 < n
            invariant
                n == embeddings@.len(),
                arity == embeddings@[0]@.len(),
                vs == embeddings@.map_values(|v: Vec<i64>| v@),
                spec_uniform_arity(vs, arity as int),
                j < arity,
                k2 <= n,
                sum as int == spec_column_sum(vs, j as int, k2 as int),
                sum as int <= (k2 as int) * (i64::MAX as int),
                sum as int >= (k2 as int) * (i64::MIN as int),
            decreases n - k2,
        {
            proof {
                assert(vs[k2 as int] == embeddings@[k2 as int]@);
                assert(vs[k2 as int].len() == arity as int);
                assert(((k2 + 1) as int) * (i64::MAX as int) == (k2 as int) * (i64::MAX as int)
                    + (i64::MAX as int)) by (nonlinear_arith);
                assert(((k2 + 1) as int) * (i64::MIN as int) == (k2 as int) * (i64::MIN as int)
                    + (i64::MIN as int)) by (nonlinear_arith);
                assert(((k2 + 1) as int) * (i64::MAX as int) < i128::MAX as int)
                    by (nonlinear_arith)
                    requires k2 < n && n <= usize::MAX;
                assert(((k2 + 1) as int) * (i64::MIN as int) > i128::MIN as int)
                    by (nonlinear_arith)
                    requires k2 < n && n <= usize::MAX;
            }
            let v: i64 = embeddings[k2][j];
            assert(vs[k2 as int][j as int] == v);
            sum = sum + (v as i128);
            k2 = k2 + 1;
        }
        let mean64: i64 = div_floor(sum, n);
        assert(mean64 as int == spec_mean(
            spec_column_sum(vs, j as int, vs.len() as int),
            vs.len() as int,
        ));
        out.push(mean64);
        j = j + 1;
    }
    Ok(out)
}

} // verus!
