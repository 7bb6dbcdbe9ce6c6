//! Words of a message: splitting on spaces, joining with spaces, trimming whitespace.
use vstd::prelude::*;
use vstd::std_specs::iter::IteratorSpec;

verus! {

/// The pieces of `s` between the occurrences of `sep`, in order: `n` separators
/// give `n + 1` pieces, and the empty text gives one empty piece.
pub open spec fn split_on(s: Seq<char>, sep: char) -> Seq<Seq<char>>
    decreases s.len(),
{
    if s.len() == 0 {
        seq![Seq::<char>::empty()]
    } else {
        let prev = split_on(s.drop_last(), sep);
        if s.last() == sep {
            prev.push(Seq::<char>::empty())
        } else {
            prev.update(prev.len() - 1, prev.last().push(s.last()))
        }
    }
}

/// The pieces of `ws` glued together with `sep` between neighbours.
pub open spec fn join_with(ws: Seq<Seq<char>>, sep: char) -> Seq<char>
    decreases ws.len(),
{
    if ws.len() == 0 {
        Seq::<char>::empty()
    } else if ws.len() == 1 {
        ws[0]
    } else {
        join_with(ws.drop_last(), sep).push(sep) + ws.last()
    }
}

/// The words of a text, as `text.split(' ')` gives them.
pub open spec fn words_of(s: Seq<char>) -> Seq<Seq<char>> {
    split_on(s, ' ')
}

/// Words glued together with single spaces, as `words.join(" ")` gives them.
pub open spec fn join_words(ws: Seq<Seq<char>>) -> Seq<char> {
    join_with(ws, ' ')
}

/// `c` has the Unicode `White_Space` property, which is what `char::is_whitespace` tests.
pub open spec fn is_unicode_whitespace(c: char) -> bool {
    ||| c == ' '
    ||| ('\u{9}' <= c <= '\u{d}')
    ||| c == '\u{85}'
    ||| c == '\u{a0}'
    ||| c == '\u{1680}'
    ||| ('\u{2000}' <= c <= '\u{200a}')
    ||| c == '\u{2028}'
    ||| c == '\u{2029}'
    ||| c == '\u{202f}'
    ||| c == '\u{205f}'
    ||| c == '\u{3000}'
}

/// Number of whitespace characters at the front of `s`.
pub open spec fn leading_ws(s: Seq<char>) -> nat
    decreases s.len(),
{
    if s.len() > 0 && is_unicode_whitespace(s[0]) {
        1 + leading_ws(s.drop_first())
    } else {
        0
    }
}

/// Number of whitespace characters at the end of `s`.
pub open spec fn trailing_ws(s: Seq<char>) -> nat
    decreases s.len(),
{
    if s.len() > 0 && is_unicode_whitespace(s.last()) {
        1 + trailing_ws(s.drop_last())
    } else {
        0
    }
}

/// `s` without its leading and trailing whitespace, as `str::trim` gives it.
pub open spec fn trim_ws(s: Seq<char>) -> Seq<char> {
    let t = s.skip(leading_ws(s) as int);
    t.take(t.len() - trailing_ws(t))
}

pub proof fn lemma_leading_ws_exact(s: Seq<char>, k: int)
    requires
        0 <= k <= s.len(),
        forall|i: int| 0 <= i < k ==> is_unicode_whitespace(#[trigger] s[i]),
        k < s.len() ==> !is_unicode_whitespace(s[k]),
    ensures
        leading_ws(s) == k,
    decreases k,
{
    if k > 0 {
        assert(is_unicode_whitespace(s[0]));
        assert forall|i: int| 0 <= i < k - 1 implies is_unicode_whitespace(#[trigger] s.drop_first()[i]) by {
            assert(s.drop_first()[i] == s[i + 1]);
        }
        if k - 1 < s.drop_first().len() {
            assert(s.drop_first()[k - 1] == s[k]);
        }
        lemma_leading_ws_exact(s.drop_first(), k - 1);
    } else {
        if s.len() > 0 {
            assert(!is_unicode_whitespace(s[0]));
        }
    }
}

pub proof fn lemma_trailing_ws_exact(s: Seq<char>, k: int)
    requires
        0 <= k <= s.len(),
        forall|i: int| s.len() - k <= i < s.len() ==> is_unicode_whitespace(#[trigger] s[i]),
        k < s.len() ==> !is_unicode_whitespace(s[s.len() - k - 1]),
    ensures
        trailing_ws(s) == k,
    decreases k,
{
    if k > 0 {
        assert(is_unicode_whitespace(s[s.len() - 1]));
        assert forall|i: int| s.drop_last().len() - (k - 1) <= i < s.drop_last().len() implies is_unicode_whitespace(#[trigger] s.drop_last()[i]) by {
            assert(s.drop_last()[i] == s[i]);
        }
        if k - 1 < s.drop_last().len() {
            assert(s.drop_last()[s.drop_last().len() - (k - 1) - 1] == s[s.len() - k - 1]);
        }
        lemma_trailing_ws_exact(s.drop_last(), k - 1);
    } else {
        if s.len() > 0 {
            assert(!is_unicode_whitespace(s.last()));
        }
    }
}

/// Appends one character; `String::push`.
#[verifier::external_body]
pub fn push_char(s: &mut String, c: char)
    ensures
        final(s)@ == old(s)@.push(c),
{
    s.push(c);
}

/// What `str::to_lowercase` gives for `s`: its lowercase equivalent as Unicode defines it.
pub uninterp spec fn lowercase(s: Seq<char>) -> Seq<char>;

/// `str::to_lowercase`. The contract names the result; the Unicode mapping is not stated.
#[verifier::external_body]
pub fn to_lowercase(s: &str) -> (r: String)
    ensures
        r@ == lowercase(s@),
{
    s.to_lowercase()
}

/// Tests the Unicode `White_Space` property; `char::is_whitespace`.
pub fn is_whitespace_char(c: char) -> (r: bool)
    ensures
        r == is_unicode_whitespace(c),
{
    c == ' ' || ('\u{9}' <= c && c <= '\u{d}') || c == '\u{85}' || c == '\u{a0}' || c == '\u{1680}'
        || ('\u{2000}' <= c && c <= '\u{200a}') || c == '\u{2028}' || c == '\u{2029}' || c
        == '\u{202f}' || c == '\u{205f}' || c == '\u{3000}'
}

/// The characters of `s`, in order.
pub fn chars_of(s: &str) -> (v: Vec<char>)
    ensures
        v@ == s@,
{
    let mut v: Vec<char> = Vec::new();
    let mut it = s.chars();
    let ghost whole = s@;
    loop
        invariant
            v@ + it.remaining() == whole,
            it.obeys_prophetic_iter_laws(),
            it.decrease() is Some,
        ensures
            v@ == whole,
        decreases it.decrease()->0,
    {
        let ghost before = it.remaining();
        match it.next() {
            Some(c) => {
                proof {
                    assert(before.len() > 0);
                    assert(it.remaining() == before.drop_first());
                }
                v.push(c);
                assert(v@ + it.remaining() =~= whole);
            },
            None => {
                assert(before.len() == 0);
                assert(v@ =~= whole);
                break;
            },
        }
    }
    v
}

/// The plain texts of a list of strings.
pub open spec fn texts(v: Seq<String>) -> Seq<Seq<char>> {
    v.map_values(|w: String| w@)
}

pub proof fn lemma_split_nonempty(s: Seq<char>, sep: char)
    ensures
        split_on(s, sep).len() >= 1,
    decreases s.len(),
{
    if s.len() > 0 {
        lemma_split_nonempty(s.drop_last(), sep);
    }
}

/// Text without the separator is a single piece.
pub proof fn lemma_split_no_sep(s: Seq<char>, sep: char)
    requires
        !s.contains(sep),
    ensures
        split_on(s, sep) == seq![s],
    decreases s.len(),
{
    if s.len() > 0 {
        assert(!s.drop_last().contains(sep)) by {
            if s.drop_last().contains(sep) {
                let i = choose|i: int| 0 <= i < s.drop_last().len() && s.drop_last()[i] == sep;
                assert(s[i] == sep);
            }
        }
        lemma_split_no_sep(s.drop_last(), sep);
        assert(s.last() != sep) by {
            assert(s[s.len() - 1] == s.last());
        }
        assert(s.drop_last().push(s.last()) =~= s);
        assert(split_on(s, sep) =~= seq![s]);
    } else {
        assert(s =~= Seq::<char>::empty());
        assert(seq![Seq::<char>::empty()] =~= seq![s]);
    }
}

/// Appending text without the separator extends the last piece.
pub proof fn lemma_split_append_no_sep(x: Seq<char>, b: Seq<char>, sep: char)
    requires
        !b.contains(sep),
    ensures
        split_on(x + b, sep) == split_on(x, sep).update(
            split_on(x, sep).len() - 1,
            split_on(x, sep).last() + b,
        ),
    decreases b.len(),
{
    lemma_split_nonempty(x, sep);
    let px = split_on(x, sep);
    if b.len() == 0 {
        assert(x + b =~= x);
        assert(px.last() + b =~= px.last());
        assert(px.update(px.len() - 1, px.last() + b) =~= px);
    } else {
        let b0 = b.drop_last();
        let c = b.last();
        assert(!b0.contains(sep)) by {
            if b0.contains(sep) {
                let i = choose|i: int| 0 <= i < b0.len() && b0[i] == sep;
                assert(b[i] == sep);
            }
        }
        assert(c != sep) by {
            assert(b[b.len() - 1] == c);
        }
        lemma_split_append_no_sep(x, b0, sep);
        assert((x + b).drop_last() =~= x + b0);
        assert((x + b).last() == c);
        lemma_split_nonempty(x + b0, sep);
        assert((px.last() + b0).push(c) =~= px.last() + b);
        assert(split_on(x + b, sep) =~= px.update(px.len() - 1, px.last() + b));
    }
}

/// Cutting a text on a separator and gluing the pieces back together with it gives the text
/// (so `join_strings(split_words(s))` is `s`).
pub proof fn law_join_split(s: Seq<char>, sep: char)
    ensures
        join_with(split_on(s, sep), sep) == s,
    decreases s.len(),
{
    if s.len() > 0 {
        let prev = split_on(s.drop_last(), sep);
        lemma_split_nonempty(s.drop_last(), sep);
        law_join_split(s.drop_last(), sep);
        if s.last() == sep {
            let p = prev.push(Seq::<char>::empty());
            assert(p.drop_last() =~= prev);
            assert(join_with(p, sep) =~= s);
        } else {
            let p = prev.update(prev.len() - 1, prev.last().push(s.last()));
            if prev.len() == 1 {
                assert(join_with(p, sep) =~= s);
            } else {
                assert(p.drop_last() =~= prev.drop_last());
                assert(p.last() == prev.last().push(s.last()));
                assert(join_with(prev, sep) == join_with(prev.drop_last(), sep).push(sep) + prev.last());
                assert(join_with(p, sep) == join_with(prev.drop_last(), sep).push(sep) + prev.last().push(s.last()));
                assert(s.drop_last().push(s.last()) =~= s);
                assert(join_with(p, sep) =~= s);
            }
        }
    }
}

/// Splitting pieces that hold no separator after gluing them gives the pieces back.
pub proof fn lemma_split_join(ws: Seq<Seq<char>>, sep: char)
    requires
        ws.len() >= 1,
        forall|i: int| 0 <= i < ws.len() ==> !(#[trigger] ws[i]).contains(sep),
    ensures
        split_on(join_with(ws, sep), sep) == ws,
    decreases ws.len(),
{
    if ws.len() == 1 {
        lemma_split_no_sep(ws[0], sep);
        assert(seq![ws[0]] =~= ws);
    } else {
        let init = ws.drop_last();
        assert forall|i: int| 0 <= i < init.len() implies !(#[trigger] init[i]).contains(sep) by {
            assert(init[i] == ws[i]);
        }
        lemma_split_join(init, sep);
        let a = join_with(init, sep);
        assert(!ws.last().contains(sep)) by {
            assert(ws[ws.len() - 1] == ws.last());
        }
        lemma_split_append_no_sep(a.push(sep), ws.last(), sep);
        assert(a.push(sep).drop_last() =~= a);
        lemma_split_nonempty(a, sep);
        assert(Seq::<char>::empty() + ws.last() =~= ws.last());
        assert(split_on(a.push(sep), sep).update(
            split_on(a.push(sep), sep).len() - 1,
            split_on(a.push(sep), sep).last() + ws.last(),
        ) =~= ws);
    }
}

/// No piece of a split holds the separator.
pub proof fn lemma_split_pieces_no_sep(s: Seq<char>, sep: char)
    ensures
        forall|i: int| 0 <= i < split_on(s, sep).len() ==> !(#[trigger] split_on(s, sep)[i]).contains(sep),
    decreases s.len(),
{
    if s.len() > 0 {
        lemma_split_pieces_no_sep(s.drop_last(), sep);
        lemma_split_nonempty(s.drop_last(), sep);
        let prev = split_on(s.drop_last(), sep);
        let cur = split_on(s, sep);
        assert forall|i: int| 0 <= i < cur.len() implies !(#[trigger] cur[i]).contains(sep) by {
            if s.last() == sep {
                if i < prev.len() {
                    assert(cur[i] == prev[i]);
                } else {
                    assert(cur[i] =~= Seq::<char>::empty());
                }
            } else {
                if i < prev.len() - 1 {
                    assert(cur[i] == prev[i]);
                } else {
                    let p = prev.last();
                    assert(cur[i] == p.push(s.last()));
                    assert(!prev[prev.len() - 1].contains(sep));
                    if cur[i].contains(sep) {
                        let j = choose|j: int| 0 <= j < cur[i].len() && cur[i][j] == sep;
                        if j < p.len() {
                            assert(p[j] == sep);
                        }
                    }
                }
            }
        }
    }
}

/// The pieces of `s` between occurrences of `sep`: `s.split(sep)`.
pub fn split_char(s: &str, sep: char) -> (pieces: Vec<String>)
    ensures
        texts(pieces@) == split_on(s@, sep),
{
    let chars = chars_of(s);
    let mut pieces: Vec<String> = Vec::new();
    let mut cur = String::new();
    let mut i: usize = 0;
    assert(chars@.take(0) =~= Seq::<char>::empty());
    assert(texts(pieces@).push(cur@) =~= seq![Seq::<char>::empty()]);
    while i < chars.len()
        invariant
            i <= chars@.len(),
            chars@ == s@,
            texts(pieces@).push(cur@) == split_on(chars@.take(i as int), sep),
        decreases chars@.len() - i,
    {
        let c = chars[i];
        let ghost prev = split_on(chars@.take(i as int), sep);
        proof {
            lemma_split_nonempty(chars@.take(i as int), sep);
            assert(chars@.take(i + 1).drop_last() =~= chars@.take(i as int));
            assert(chars@.take(i + 1).last() == c);
        }
        if c == sep {
            pieces.push(cur);
            cur = String::new();
            assert(texts(pieces@).push(cur@) =~= prev.push(Seq::<char>::empty()));
        } else {
            push_char(&mut cur, c);
            assert(texts(pieces@).push(cur@) =~= prev.update(prev.len() - 1, prev.last().push(c)));
        }
        i = i + 1;
    }
    assert(chars@.take(i as int) =~= chars@);
    pieces.push(cur);
    assert(texts(pieces@) =~= split_on(s@, sep));
    pieces
}

/// The words of `s`: `s.split(' ')`.
pub fn split_words(s: &str) -> (words: Vec<String>)
    ensures
        texts(words@) == words_of(s@),
{
    split_char(s, ' ')
}

/// The words glued together with single spaces: `words.join(" ")`.
pub fn join_strings(ws: &[String]) -> (r: String)
    ensures
        r@ == join_words(texts(ws@)),
{
    let mut r = String::new();
    if ws.len() == 0 {
        return r;
    }
    r.append(ws[0].as_str());
    let mut i: usize = 1;
    assert(texts(ws@).take(1) =~= seq![ws@[0]@]);
    while i < ws.len()
        invariant
            1 <= i <= ws@.len(),
            r@ == join_with(texts(ws@).take(i as int), ' '),
        decreases ws@.len() - i,
    {
        push_char(&mut r, ' ');
        r.append(ws[i].as_str());
        assert(texts(ws@).take(i + 1).drop_last() =~= texts(ws@).take(i as int));
        i = i + 1;
    }
    assert(texts(ws@).take(i as int) =~= texts(ws@));
    r
}

/// `s` without leading and trailing whitespace: `str::trim`.
pub fn trim_whitespace(s: &str) -> (r: String)
    ensures
        r@ == trim_ws(s@),
{
    let chars = chars_of(s);
    let n = chars.len();
    let mut start: usize = 0;
    while start < n && is_whitespace_char(chars[start])
        invariant
            start <= n,
            n == chars@.len(),
            forall|i: int| 0 <= i < start ==> is_unicode_whitespace(#[trigger] chars@[i]),
        decreases n - start,
    {
        start = start + 1;
    }
    proof {
        lemma_leading_ws_exact(chars@, start as int);
    }
    let mut end: usize = n;
    while end > start && is_whitespace_char(chars[end - 1])
        invariant
            start <= end <= n,
            n == chars@.len(),
            forall|i: int| end <= i < n ==> is_unicode_whitespace(#[trigger] chars@[i]),
        decreases end - start,
    {
        end = end - 1;
    }
    let ghost t = chars@.skip(start as int);
    proof {
        assert forall|i: int| t.len() - (n - end) <= i < t.len() implies is_unicode_whitespace(#[trigger] t[i]) by {
            assert(t[i] == chars@[i + start]);
        }
        if n - end < t.len() {
            assert(t[t.len() - (n - end) - 1] == chars@[end - 1]);
        }
        lemma_trailing_ws_exact(t, (n - end) as int);
    }
    let mut r = String::new();
    let mut j: usize = start;
    while j < end
        invariant
            start <= j <= end <= n,
            n == chars@.len(),
            r@ == chars@.subrange(start as int, j as int),
        decreases end - j,
    {
        push_char(&mut r, chars[j]);
        assert(r@ =~= chars@.subrange(start as int, j + 1));
        j = j + 1;
    }
    assert(r@ =~= trim_ws(s@));
    r
}

} // verus!
