//! A Markov chain text generator over a corpus of sentences.
//!
//! Sentences are cut into words on single spaces. A *state* is `state_size`
//! consecutive words joined by spaces. The corpus maps each state to the states
//! that followed it, each with the positions of the input sentences it was seen in.
//! A result is a random walk from a state that starts a sentence to a state that
//! ends one.
use vstd::prelude::*;

use crate::patterns::{contains_text, has_infix};
use crate::random::choose_index;
use crate::text::{
    chars_of, join_words, lemma_split_join, split_words, texts, trim_whitespace, trim_ws, words_of,
};

verus! {

/// A table of states: each state with the positions of the inputs it occurs in.
pub type FragmentsView = Seq<(Seq<char>, Seq<usize>)>;

/// The corpus: each state with the table of the states that follow it.
pub type CorpusView = Seq<(Seq<char>, FragmentsView)>;

/// Index of the first entry of `s` whose key is `k`, or `-1` when there is none.
pub open spec fn key_index<V>(s: Seq<(Seq<char>, V)>, k: Seq<char>) -> int
    decreases s.len(),
{
    if s.len() == 0 {
        -1
    } else if s[0].0 == k {
        0
    } else {
        let r = key_index(s.drop_first(), k);
        if r < 0 {
            -1
        } else {
            r + 1
        }
    }
}

/// `k` is a key of `s`.
pub open spec fn has_key<V>(s: Seq<(Seq<char>, V)>, k: Seq<char>) -> bool {
    key_index(s, k) >= 0
}

/// The value stored under `k` in `s` (meaningful when `has_key(s, k)`).
pub open spec fn value_of<V>(s: Seq<(Seq<char>, V)>, k: Seq<char>) -> V {
    s[key_index(s, k)].1
}

pub proof fn lemma_key_index<V>(s: Seq<(Seq<char>, V)>, k: Seq<char>)
    ensures
        -1 <= key_index(s, k) < s.len(),
        key_index(s, k) >= 0 ==> s[key_index(s, k)].0 == k,
        forall|j: int| 0 <= j < s.len() && (j < key_index(s, k) || key_index(s, k) < 0) ==> (#[trigger] s[j]).0 != k,
    decreases s.len(),
{
    if s.len() > 0 && s[0].0 != k {
        lemma_key_index(s.drop_first(), k);
        assert forall|j: int| 0 <= j < s.len() && (j < key_index(s, k) || key_index(s, k) < 0) implies (#[trigger] s[j]).0 != k by {
            if j > 0 {
                assert(s[j] == s.drop_first()[j - 1]);
            }
        }
    }
}

pub proof fn lemma_key_index_exact<V>(s: Seq<(Seq<char>, V)>, k: Seq<char>, i: int)
    requires
        -1 <= i < s.len(),
        i >= 0 ==> s[i].0 == k,
        forall|j: int| 0 <= j < s.len() && (j < i || i < 0) ==> (#[trigger] s[j]).0 != k,
    ensures
        key_index(s, k) == i,
{
    lemma_key_index(s, k);
    let r = key_index(s, k);
    if r >= 0 && i >= 0 {
        if r < i {
            assert(s[r].0 != k);
        } else if i < r {
            assert(s[i].0 != k);
        }
    } else if r >= 0 {
        assert(s[r].0 != k);
    } else if i >= 0 {
        assert(s[i].0 != k);
    }
}

/// Records that `k` was seen at input `pos`: appends `pos` to the entry of `k`,
/// or adds the entry `(k, [pos])` at the end.
pub open spec fn frag_push(f: FragmentsView, k: Seq<char>, pos: usize) -> FragmentsView {
    let i = key_index(f, k);
    if i >= 0 {
        f.update(i, (k, f[i].1.push(pos)))
    } else {
        f.push((k, seq![pos]))
    }
}

/// Records that `k` followed a state at input `pos`. A new entry starts with `pos`
/// recorded twice: once when it is made, and once more like any later record.
pub open spec fn next_push(f: FragmentsView, k: Seq<char>, pos: usize) -> FragmentsView {
    let i = key_index(f, k);
    if i >= 0 {
        f.update(i, (k, f[i].1.push(pos)))
    } else {
        f.push((k, seq![pos, pos]))
    }
}

/// Records that state `next` followed state `curr` at input `pos`.
pub open spec fn corpus_push(c: CorpusView, curr: Seq<char>, next: Seq<char>, pos: usize) -> CorpusView {
    let i = key_index(c, curr);
    if i >= 0 {
        c.update(i, (curr, next_push(c[i].1, next, pos)))
    } else {
        c.push((curr, next_push(Seq::empty(), next, pos)))
    }
}

/// One entry of a state table.
pub struct Fragment {
    pub key: String,
    pub refs: Vec<usize>,
}

/// One state of the corpus with the states that may follow it.
pub struct CorpusEntry {
    pub key: String,
    pub next: Vec<Fragment>,
}

pub open spec fn fragment_view(f: Fragment) -> (Seq<char>, Seq<usize>) {
    (f.key@, f.refs@)
}

pub open spec fn fragments_view(v: Seq<Fragment>) -> FragmentsView {
    v.map_values(|f: Fragment| fragment_view(f))
}

pub open spec fn entry_view(e: CorpusEntry) -> (Seq<char>, FragmentsView) {
    (e.key@, fragments_view(e.next@))
}

pub open spec fn corpus_view(v: Seq<CorpusEntry>) -> CorpusView {
    v.map_values(|e: CorpusEntry| entry_view(e))
}

/// Position of the entry of `k` in a state table.
pub fn find_fragment(v: &Vec<Fragment>, k: &String) -> (r: Option<usize>)
    ensures
        match r {
            Some(i) => i as int == key_index(fragments_view(v@), k@),
            None => key_index(fragments_view(v@), k@) == -1,
        },
{
    let ghost fv = fragments_view(v@);
    let mut i: usize = 0;
    while i < v.len()
        invariant
            i <= v@.len(),
            fv == fragments_view(v@),
            forall|j: int| 0 <= j < i ==> (#[trigger] fv[j]).0 != k@,
        decreases v@.len() - i,
    {
        if v[i].key == *k {
            proof {
                lemma_key_index_exact(fv, k@, i as int);
            }
            return Some(i);
        }
        i = i + 1;
    }
    proof {
        lemma_key_index_exact(fv, k@, -1);
    }
    None
}

/// Position of the entry of `k` in the corpus.
pub fn find_entry(v: &Vec<CorpusEntry>, k: &String) -> (r: Option<usize>)
    ensures
        match r {
            Some(i) => i as int == key_index(corpus_view(v@), k@),
            None => key_index(corpus_view(v@), k@) == -1,
        },
{
    let ghost cv = corpus_view(v@);
    let mut i: usize = 0;
    while i < v.len()
        invariant
            i <= v@.len(),
            cv == corpus_view(v@),
            forall|j: int| 0 <= j < i ==> (#[trigger] cv[j]).0 != k@,
        decreases v@.len() - i,
    {
        if v[i].key == *k {
            proof {
                lemma_key_index_exact(cv, k@, i as int);
            }
            return Some(i);
        }
        i = i + 1;
    }
    proof {
        lemma_key_index_exact(cv, k@, -1);
    }
    None
}

/// Appends `pos` to the entry of `k`, or adds `(k, [pos])`.
pub fn push_fragment(v: &mut Vec<Fragment>, k: String, pos: usize)
    ensures
        fragments_view(final(v)@) == frag_push(fragments_view(old(v)@), k@, pos),
{
    proof {
        lemma_key_index(fragments_view(v@), k@);
    }
    match find_fragment(v, &k) {
        Some(i) => {
            v[i].refs.push(pos);
            assert(fragments_view(v@)[i as int] == (k@, fragments_view(old(v)@)[i as int].1.push(pos)));
            assert(fragments_view(v@) =~= frag_push(fragments_view(old(v)@), k@, pos));
        },
        None => {
            let mut refs: Vec<usize> = Vec::new();
            refs.push(pos);
            v.push(Fragment { key: k, refs });
            assert(fragments_view(v@) =~= frag_push(fragments_view(old(v)@), k@, pos));
        },
    }
}

/// Appends `pos` to the entry of `k`, or adds `(k, [pos, pos])`.
pub fn push_next(v: &mut Vec<Fragment>, k: String, pos: usize)
    ensures
        fragments_view(final(v)@) == next_push(fragments_view(old(v)@), k@, pos),
{
    proof {
        lemma_key_index(fragments_view(v@), k@);
    }
    match find_fragment(v, &k) {
        Some(i) => {
            v[i].refs.push(pos);
            assert(fragments_view(v@)[i as int] == (k@, fragments_view(old(v)@)[i as int].1.push(pos)));
            assert(fragments_view(v@) =~= next_push(fragments_view(old(v)@), k@, pos));
        },
        None => {
            let mut refs: Vec<usize> = Vec::new();
            refs.push(pos);
            refs.push(pos);
            assert(refs@ =~= seq![pos, pos]);
            v.push(Fragment { key: k, refs });
            assert(fragments_view(v@) =~= next_push(fragments_view(old(v)@), k@, pos));
        },
    }
}

/// Records in the corpus that `next` followed `curr` at input `pos`.
pub fn push_corpus(c: &mut Vec<CorpusEntry>, curr: String, next: String, pos: usize)
    ensures
        corpus_view(final(c)@) == corpus_push(corpus_view(old(c)@), curr@, next@, pos),
{
    proof {
        lemma_key_index(corpus_view(c@), curr@);
    }
    match find_entry(c, &curr) {
        Some(i) => {
            push_next(&mut c[i].next, next, pos);
            assert(corpus_view(c@)[i as int] == (curr@, next_push(corpus_view(old(c)@)[i as int].1, next@, pos)));
            assert(corpus_view(c@) =~= corpus_push(corpus_view(old(c)@), curr@, next@, pos));
        },
        None => {
            let mut nx: Vec<Fragment> = Vec::new();
            assert(fragments_view(nx@) =~= Seq::<(Seq<char>, Seq<usize>)>::empty());
            push_next(&mut nx, next, pos);
            c.push(CorpusEntry { key: curr, next: nx });
            assert(corpus_view(c@) =~= corpus_push(corpus_view(old(c)@), curr@, next@, pos));
        },
    }
}

/// The three tables a corpus is made of.
pub struct Tables {
    pub start_words: FragmentsView,
    pub end_words: FragmentsView,
    pub corpus: CorpusView,
}

/// The tables never leave a generator stuck: every corpus state has a successor,
/// and a non-empty corpus has a state to start from.
pub open spec fn tables_wf(t: Tables) -> bool {
    &&& t.corpus.len() > 0 ==> t.start_words.len() > 0
    &&& forall|i: int| 0 <= i < t.corpus.len() ==> (#[trigger] t.corpus[i]).1.len() > 0
}

/// The words `from .. from + size` of `w`, cut at its end (`skip(from).take(size)`).
pub open spec fn block(w: Seq<Seq<char>>, from: int, size: int) -> Seq<Seq<char>> {
    let a = if from < w.len() { from } else { w.len() as int };
    let b = if from + size < w.len() { from + size } else { w.len() as int };
    w.subrange(a, b)
}

/// Step `i` of the corpus loop over the words `w` of input `pos`: the state at `i`
/// is followed by the state at `i + size`, unless that one is empty or short.
pub open spec fn corpus_step(c: CorpusView, w: Seq<Seq<char>>, size: nat, pos: usize, i: int) -> CorpusView {
    let curr = join_words(block(w, i, size as int));
    let next = join_words(block(w, i + size, size as int));
    if next.len() == 0 || words_of(next).len() < size {
        c
    } else {
        corpus_push(c, curr, next, pos)
    }
}

/// The first `n` steps of the corpus loop.
pub open spec fn corpus_steps(c: CorpusView, w: Seq<Seq<char>>, size: nat, pos: usize, n: nat) -> CorpusView
    decreases n,
{
    if n == 0 {
        c
    } else {
        corpus_step(corpus_steps(c, w, size, pos, (n - 1) as nat), w, size, pos, n - 1)
    }
}

/// What adding the sentence `text`, stored at position `pos`, does to the tables.
/// A sentence with fewer than `size` words leaves them as they are.
pub open spec fn add_sentence(t: Tables, text: Seq<char>, pos: usize, size: nat) -> Tables {
    let w = words_of(text);
    if w.len() < size {
        t
    } else {
        Tables {
            start_words: frag_push(t.start_words, join_words(w.take(size as int)), pos),
            end_words: frag_push(t.end_words, join_words(w.skip(w.len() - size)), pos),
            corpus: corpus_steps(t.corpus, w, size, pos, w.len()),
        }
    }
}

/// An input: its text and its optional metadata.
pub type InputView = (Seq<char>, Option<Seq<char>>);

/// Index of the first input equal to `x`, or `-1`.
pub open spec fn first_index(all: Seq<InputView>, x: InputView) -> int
    decreases all.len(),
{
    if all.len() == 0 {
        -1
    } else if all[0] == x {
        0
    } else {
        let r = first_index(all.drop_first(), x);
        if r < 0 {
            -1
        } else {
            r + 1
        }
    }
}

pub proof fn lemma_first_index(all: Seq<InputView>, x: InputView)
    ensures
        -1 <= first_index(all, x) < all.len(),
        first_index(all, x) >= 0 ==> all[first_index(all, x)] == x,
        forall|j: int| 0 <= j < all.len() && (j < first_index(all, x) || first_index(all, x) < 0) ==> #[trigger] all[j] != x,
    decreases all.len(),
{
    if all.len() > 0 && all[0] != x {
        lemma_first_index(all.drop_first(), x);
        assert forall|j: int| 0 <= j < all.len() && (j < first_index(all, x) || first_index(all, x) < 0) implies #[trigger] all[j] != x by {
            if j > 0 {
                assert(all[j] == all.drop_first()[j - 1]);
            }
        }
    }
}

pub proof fn lemma_first_index_exact(all: Seq<InputView>, x: InputView, i: int)
    requires
        0 <= i < all.len(),
        all[i] == x,
        forall|j: int| 0 <= j < i ==> #[trigger] all[j] != x,
    ensures
        first_index(all, x) == i,
{
    lemma_first_index(all, x);
    let r = first_index(all, x);
    if r < 0 {
        assert(all[i] != x);
    } else if r < i {
        assert(all[r] != x);
    } else if i < r {
        assert(all[i] != x);
    }
}

/// What adding the first `n` of `items` does to the tables; each item is stored at
/// the position of the first input of `all` equal to it.
pub open spec fn add_inputs(t: Tables, items: Seq<InputView>, all: Seq<InputView>, size: nat, n: nat) -> Tables
    decreases n,
{
    if n == 0 {
        t
    } else {
        let prev = add_inputs(t, items, all, size, (n - 1) as nat);
        add_sentence(prev, items[n - 1].0, first_index(all, items[n - 1]) as usize, size)
    }
}

pub proof fn lemma_frag_push_nonempty(f: FragmentsView, k: Seq<char>, pos: usize)
    ensures
        frag_push(f, k, pos).len() >= 1,
        frag_push(f, k, pos).len() >= f.len(),
{
    lemma_key_index(f, k);
}

pub proof fn lemma_next_push_nonempty(f: FragmentsView, k: Seq<char>, pos: usize)
    ensures
        next_push(f, k, pos).len() >= 1,
{
    lemma_key_index(f, k);
}

pub proof fn lemma_corpus_push_wf(c: CorpusView, curr: Seq<char>, next: Seq<char>, pos: usize)
    requires
        forall|i: int| 0 <= i < c.len() ==> (#[trigger] c[i]).1.len() > 0,
    ensures
        forall|i: int| 0 <= i < corpus_push(c, curr, next, pos).len() ==> (#[trigger] corpus_push(c, curr, next, pos)[i]).1.len() > 0,
        corpus_push(c, curr, next, pos).len() > 0,
{
    lemma_key_index(c, curr);
    let i0 = key_index(c, curr);
    if i0 >= 0 {
        lemma_next_push_nonempty(c[i0].1, next, pos);
    } else {
        lemma_next_push_nonempty(Seq::empty(), next, pos);
    }
}

pub proof fn lemma_corpus_steps_wf(c: CorpusView, w: Seq<Seq<char>>, size: nat, pos: usize, n: nat)
    requires
        forall|i: int| 0 <= i < c.len() ==> (#[trigger] c[i]).1.len() > 0,
    ensures
        forall|i: int| 0 <= i < corpus_steps(c, w, size, pos, n).len() ==> (#[trigger] corpus_steps(c, w, size, pos, n)[i]).1.len() > 0,
    decreases n,
{
    if n > 0 {
        lemma_corpus_steps_wf(c, w, size, pos, (n - 1) as nat);
        let prev = corpus_steps(c, w, size, pos, (n - 1) as nat);
        let curr = join_words(block(w, n - 1, size as int));
        let next = join_words(block(w, n - 1 + size, size as int));
        lemma_corpus_push_wf(prev, curr, next, pos);
    }
}

pub proof fn lemma_add_sentence_wf(t: Tables, text: Seq<char>, pos: usize, size: nat)
    requires
        tables_wf(t),
    ensures
        tables_wf(add_sentence(t, text, pos, size)),
{
    let w = words_of(text);
    if w.len() >= size {
        lemma_frag_push_nonempty(t.start_words, join_words(w.take(size as int)), pos);
        lemma_corpus_steps_wf(t.corpus, w, size, pos, w.len());
    }
}

pub proof fn lemma_add_inputs_wf(t: Tables, items: Seq<InputView>, all: Seq<InputView>, size: nat, n: nat)
    requires
        tables_wf(t),
    ensures
        tables_wf(add_inputs(t, items, all, size, n)),
    decreases n,
{
    if n > 0 {
        lemma_add_inputs_wf(t, items, all, size, (n - 1) as nat);
        let prev = add_inputs(t, items, all, size, (n - 1) as nat);
        lemma_add_sentence_wf(prev, items[n - 1].0, first_index(all, items[n - 1]) as usize, size);
    }
}

pub proof fn lemma_add_inputs_same_items(t: Tables, i1: Seq<InputView>, i2: Seq<InputView>, all: Seq<InputView>, size: nat, n: nat)
    requires
        n <= i1.len(),
        n <= i2.len(),
        forall|k: int| 0 <= k < n ==> i1[k] == i2[k],
    ensures
        add_inputs(t, i1, all, size, n) == add_inputs(t, i2, all, size, n),
    decreases n,
{
    if n > 0 {
        lemma_add_inputs_same_items(t, i1, i2, all, size, (n - 1) as nat);
        assert(i1[n - 1] == i2[n - 1]);
    }
}

pub proof fn lemma_add_inputs_longer_all(t: Tables, items: Seq<InputView>, all1: Seq<InputView>, more: Seq<InputView>, size: nat, n: nat)
    requires
        n <= items.len(),
        forall|k: int| 0 <= k < n ==> all1.contains(#[trigger] items[k]),
    ensures
        add_inputs(t, items, all1, size, n) == add_inputs(t, items, all1 + more, size, n),
    decreases n,
{
    if n > 0 {
        lemma_add_inputs_longer_all(t, items, all1, more, size, (n - 1) as nat);
        let x = items[n - 1];
        assert(all1.contains(x));
        lemma_first_index(all1, x);
        let i = first_index(all1, x);
        if i < 0 {
            let k = choose|k: int| 0 <= k < all1.len() && all1[k] == x;
            assert(all1[k] != x);
        }
        assert forall|j: int| 0 <= j < i implies #[trigger] (all1 + more)[j] != x by {
            assert((all1 + more)[j] == all1[j]);
        }
        lemma_first_index_exact(all1 + more, x, i);
    }
}

pub proof fn lemma_add_inputs_concat(t: Tables, a: Seq<InputView>, b: Seq<InputView>, all: Seq<InputView>, size: nat, m: nat)
    requires
        m <= b.len(),
    ensures
        add_inputs(t, a + b, all, size, a.len() + m) == add_inputs(add_inputs(t, a, all, size, a.len()), b, all, size, m),
    decreases m,
{
    if m == 0 {
        lemma_add_inputs_same_items(t, a + b, a, all, size, a.len());
    } else {
        lemma_add_inputs_concat(t, a, b, all, size, (m - 1) as nat);
        assert((a + b)[a.len() + m - 1] == b[m - 1]);
    }
}

proof fn lemma_key_index_update<V>(s: Seq<(Seq<char>, V)>, i: int, v: V, a: Seq<char>)
    requires
        0 <= i < s.len(),
    ensures
        key_index(s.update(i, (s[i].0, v)), a) == key_index(s, a),
{
    let u = s.update(i, (s[i].0, v));
    lemma_key_index(s, a);
    let r = key_index(s, a);
    assert forall|j: int| 0 <= j < u.len() implies (#[trigger] u[j]).0 == s[j].0 by {}
    lemma_key_index_exact(u, a, r);
}

proof fn lemma_key_index_push<V>(s: Seq<(Seq<char>, V)>, e: (Seq<char>, V), a: Seq<char>)
    ensures
        key_index(s, a) >= 0 ==> key_index(s.push(e), a) == key_index(s, a),
        key_index(s, a) < 0 && e.0 == a ==> key_index(s.push(e), a) == s.len(),
        key_index(s, a) < 0 && e.0 != a ==> key_index(s.push(e), a) == -1,
{
    let u = s.push(e);
    lemma_key_index(s, a);
    let r = key_index(s, a);
    assert forall|j: int| 0 <= j < s.len() implies (#[trigger] u[j]) == s[j] by {}
    if r >= 0 {
        lemma_key_index_exact(u, a, r);
    } else if e.0 == a {
        lemma_key_index_exact(u, a, s.len() as int);
    } else {
        lemma_key_index_exact(u, a, -1);
    }
}

/// Input `pos` is recorded under the key `k` of a state table.
pub open spec fn recorded_in(f: FragmentsView, k: Seq<char>, pos: usize) -> bool {
    has_key(f, k) && value_of(f, k).contains(pos)
}

/// The corpus records that state `next` followed state `curr` in input `pos`.
pub open spec fn transition_recorded(c: CorpusView, curr: Seq<char>, next: Seq<char>, pos: usize) -> bool {
    has_key(c, curr) && recorded_in(value_of(c, curr), next, pos)
}

proof fn lemma_next_push_records(f: FragmentsView, k: Seq<char>, pos: usize, a: Seq<char>, p: usize)
    ensures
        recorded_in(next_push(f, k, pos), k, pos),
        recorded_in(f, a, p) ==> recorded_in(next_push(f, k, pos), a, p),
{
    let i = key_index(f, k);
    lemma_key_index(f, k);
    lemma_key_index(f, a);
    if i >= 0 {
        lemma_key_index_update(f, i, f[i].1.push(pos), k);
        lemma_key_index_update(f, i, f[i].1.push(pos), a);
        let u = next_push(f, k, pos);
        assert(u == f.update(i, (f[i].0, f[i].1.push(pos))));
        assert(value_of(u, k) == f[i].1.push(pos));
        assert(value_of(u, k)[f[i].1.len() as int] == pos);
        if recorded_in(f, a, p) {
            let ia = key_index(f, a);
            if ia == i {
                let j = choose|j: int| 0 <= j < f[i].1.len() && f[i].1[j] == p;
                assert(value_of(u, a)[j] == p);
            } else {
                assert(value_of(u, a) == value_of(f, a));
            }
        }
    } else {
        let e = (k, seq![pos, pos]);
        lemma_key_index_push(f, e, k);
        lemma_key_index_push(f, e, a);
        let u = next_push(f, k, pos);
        assert(u == f.push(e));
        assert(value_of(u, k) == seq![pos, pos]);
        assert(value_of(u, k)[0] == pos);
        if recorded_in(f, a, p) {
            assert(value_of(u, a) == value_of(f, a));
        }
    }
}

proof fn lemma_corpus_push_records(c: CorpusView, curr: Seq<char>, next: Seq<char>, pos: usize, a: Seq<char>, b: Seq<char>, p: usize)
    ensures
        transition_recorded(corpus_push(c, curr, next, pos), curr, next, pos),
        transition_recorded(c, a, b, p) ==> transition_recorded(corpus_push(c, curr, next, pos), a, b, p),
{
    let i = key_index(c, curr);
    lemma_key_index(c, curr);
    lemma_key_index(c, a);
    if i >= 0 {
        let nv = next_push(c[i].1, next, pos);
        lemma_key_index_update(c, i, nv, curr);
        lemma_key_index_update(c, i, nv, a);
        let u = corpus_push(c, curr, next, pos);
        assert(u == c.update(i, (c[i].0, nv)));
        assert(value_of(u, curr) == nv);
        lemma_next_push_records(c[i].1, next, pos, b, p);
        if transition_recorded(c, a, b, p) {
            if key_index(c, a) != i {
                assert(value_of(u, a) == value_of(c, a));
            }
        }
    } else {
        let nv = next_push(Seq::empty(), next, pos);
        let e = (curr, nv);
        lemma_key_index_push(c, e, curr);
        lemma_key_index_push(c, e, a);
        let u = corpus_push(c, curr, next, pos);
        assert(u == c.push(e));
        assert(value_of(u, curr) == nv);
        lemma_next_push_records(Seq::empty(), next, pos, b, p);
        if transition_recorded(c, a, b, p) {
            assert(value_of(u, a) == value_of(c, a));
        }
    }
}

/// The state at word `i` of the words `w` of an input and the state that follows it, for
/// states of `size` words.
pub open spec fn state_pair(w: Seq<Seq<char>>, size: nat, i: int) -> (Seq<char>, Seq<char>) {
    (join_words(block(w, i, size as int)), join_words(block(w, i + size, size as int)))
}

/// The state that follows at word `i` is a whole state (not empty, not cut short).
pub open spec fn is_transition(w: Seq<Seq<char>>, size: nat, i: int) -> bool {
    let next = state_pair(w, size, i).1;
    next.len() > 0 && words_of(next).len() >= size
}

proof fn lemma_corpus_steps_records(c: CorpusView, w: Seq<Seq<char>>, size: nat, pos: usize, n: nat, i: int, a: Seq<char>, b: Seq<char>, p: usize)
    ensures
        0 <= i < n && is_transition(w, size, i) ==> transition_recorded(corpus_steps(c, w, size, pos, n), state_pair(w, size, i).0, state_pair(w, size, i).1, pos),
        transition_recorded(c, a, b, p) ==> transition_recorded(corpus_steps(c, w, size, pos, n), a, b, p),
    decreases n,
{
    if n > 0 {
        let prev = corpus_steps(c, w, size, pos, (n - 1) as nat);
        lemma_corpus_steps_records(c, w, size, pos, (n - 1) as nat, i, a, b, p);
        let (curr, next) = state_pair(w, size, n - 1);
        let (ci, ni) = state_pair(w, size, i);
        if is_transition(w, size, n - 1) {
            lemma_corpus_push_records(prev, curr, next, pos, a, b, p);
            lemma_corpus_push_records(prev, curr, next, pos, ci, ni, pos);
        }
    }
}

proof fn lemma_add_inputs_keeps_records(t: Tables, items: Seq<InputView>, all: Seq<InputView>, size: nat, m: nat, n: nat, a: Seq<char>, b: Seq<char>, p: usize)
    requires
        m <= n,
        transition_recorded(add_inputs(t, items, all, size, m).corpus, a, b, p),
    ensures
        transition_recorded(add_inputs(t, items, all, size, n).corpus, a, b, p),
    decreases n - m,
{
    if m < n {
        let prev = add_inputs(t, items, all, size, m);
        let text = items[m as int].0;
        let pos = first_index(all, items[m as int]) as usize;
        let w = words_of(text);
        lemma_corpus_steps_records(prev.corpus, w, size, pos, w.len(), 0, a, b, p);
        assert(add_inputs(t, items, all, size, m + 1) == add_sentence(prev, text, pos, size));
        lemma_add_inputs_keeps_records(t, items, all, size, m + 1, n, a, b, p);
    }
}

/// Adding inputs records every transition of every input: for each of the first `n` items,
/// stored at position `pos`, and each word `i` of its text at which a whole state follows the
/// state there, the corpus of the result records that the second state followed the first in
/// input `pos`. So every occurrence of a transition counts, also one already recorded for an
/// earlier input.
pub proof fn law_every_transition_recorded(t: Tables, items: Seq<InputView>, all: Seq<InputView>, size: nat, n: nat, k: int, i: int)
    requires
        n <= items.len(),
        0 <= k < n,
        0 <= first_index(all, items[k]),
        words_of(items[k].0).len() >= size,
        0 <= i < words_of(items[k].0).len(),
        is_transition(words_of(items[k].0), size, i),
    ensures
        transition_recorded(
            add_inputs(t, items, all, size, n).corpus,
            state_pair(words_of(items[k].0), size, i).0,
            state_pair(words_of(items[k].0), size, i).1,
            first_index(all, items[k]) as usize,
        ),
{
    let prev = add_inputs(t, items, all, size, k as nat);
    let text = items[k].0;
    let pos = first_index(all, items[k]) as usize;
    let w = words_of(text);
    let (ci, ni) = state_pair(w, size, i);
    lemma_corpus_steps_records(prev.corpus, w, size, pos, w.len(), i, ci, ni, pos);
    assert(add_inputs(t, items, all, size, (k + 1) as nat) == add_sentence(prev, text, pos, size));
    lemma_add_inputs_keeps_records(t, items, all, size, (k + 1) as nat, n, ci, ni, pos);
}

/// Adding sentences in two calls builds the same tables as adding them all in one
/// call: `add_to_corpus(a)` then `add_to_corpus(b)` equals `add_to_corpus(a + b)`.
pub proof fn law_add_to_corpus_in_parts(t: Tables, stored: Seq<InputView>, a: Seq<InputView>, b: Seq<InputView>, size: nat)
    ensures
        add_inputs(add_inputs(t, a, stored + a, size, a.len()), b, (stored + a) + b, size, b.len())
            == add_inputs(t, a + b, stored + (a + b), size, (a + b).len()),
{
    assert((stored + a) + b =~= stored + (a + b));
    assert forall|k: int| 0 <= k < a.len() implies (stored + a).contains(#[trigger] a[k]) by {
        assert((stored + a)[stored.len() + k] == a[k]);
    }
    lemma_add_inputs_longer_all(t, a, stored + a, b, size, a.len());
    lemma_add_inputs_concat(t, a, b, stored + (a + b), size, b.len());
}

/// Once a sentence with at least `state_size` words has been added, there are start
/// words, so `set_state_size` is refused from then on.
pub proof fn law_state_size_locked_after_data(t: Tables, items: Seq<InputView>, all: Seq<InputView>, size: nat, k: int)
    requires
        0 <= k < items.len(),
        words_of(items[k].0).len() >= size,
    ensures
        add_inputs(t, items, all, size, items.len()).start_words.len() > 0,
{
    lemma_add_inputs_start_grows(t, items, all, size, (k + 1) as nat);
    lemma_add_inputs_start_mono(t, items, all, size, (k + 1) as nat, items.len());
}

pub proof fn lemma_add_inputs_start_grows(t: Tables, items: Seq<InputView>, all: Seq<InputView>, size: nat, n: nat)
    requires
        1 <= n <= items.len(),
        words_of(items[n - 1].0).len() >= size,
    ensures
        add_inputs(t, items, all, size, n).start_words.len() > 0,
{
    let prev = add_inputs(t, items, all, size, (n - 1) as nat);
    let w = words_of(items[n - 1].0);
    lemma_frag_push_nonempty(prev.start_words, join_words(w.take(size as int)), first_index(all, items[n - 1]) as usize);
}

pub proof fn lemma_add_inputs_start_mono(t: Tables, items: Seq<InputView>, all: Seq<InputView>, size: nat, n: nat, m: nat)
    requires
        n <= m <= items.len(),
    ensures
        add_inputs(t, items, all, size, n).start_words.len() <= add_inputs(t, items, all, size, m).start_words.len(),
    decreases m - n,
{
    if n < m {
        lemma_add_inputs_start_mono(t, items, all, size, n, (m - 1) as nat);
        let prev = add_inputs(t, items, all, size, (m - 1) as nat);
        let w = words_of(items[m - 1].0);
        lemma_frag_push_nonempty(prev.start_words, join_words(w.take(size as int)), first_index(all, items[m - 1]) as usize);
    }
}

/// The words `from .. to` of `words` glued with single spaces.
pub fn join_range(words: &Vec<String>, from: usize, to: usize) -> (r: String)
    requires
        from <= to <= words@.len(),
    ensures
        r@ == join_words(texts(words@).subrange(from as int, to as int)),
{
    let mut r = String::new();
    if from == to {
        assert(texts(words@).subrange(from as int, to as int) =~= Seq::<Seq<char>>::empty());
        return r;
    }
    r.append(words[from].as_str());
    let mut i: usize = from + 1;
    assert(texts(words@).subrange(from as int, i as int) =~= seq![words@[from as int]@]);
    while i < to
        invariant
            from < i <= to <= words@.len(),
            r@ == join_words(texts(words@).subrange(from as int, i as int)),
        decreases to - i,
    {
        crate::text::push_char(&mut r, ' ');
        r.append(words[i].as_str());
        assert(texts(words@).subrange(from as int, i + 1).drop_last() =~= texts(words@).subrange(from as int, i as int));
        i = i + 1;
    }
    r
}

pub open spec fn tables_of(start: Seq<Fragment>, end: Seq<Fragment>, corpus: Seq<CorpusEntry>) -> Tables {
    Tables { start_words: fragments_view(start), end_words: fragments_view(end), corpus: corpus_view(corpus) }
}

/// Adds one sentence, stored at position `pos`, to the three tables.
fn add_sentence_to(
    start: &mut Vec<Fragment>,
    end: &mut Vec<Fragment>,
    corpus: &mut Vec<CorpusEntry>,
    text: &String,
    pos: usize,
    size: usize,
)
    ensures
        tables_of(final(start)@, final(end)@, final(corpus)@) == add_sentence(
            tables_of(old(start)@, old(end)@, old(corpus)@),
            text@,
            pos,
            size as nat,
        ),
{
    let words = split_words(text.as_str());
    let ghost w = words_of(text@);
    assert(texts(words@) == w);
    let count = words.len();
    if count < size {
        return;
    }
    let start_key = join_range(&words, 0, size);
    assert(w.subrange(0, size as int) =~= w.take(size as int));
    push_fragment(start, start_key, pos);
    let end_key = join_range(&words, count - size, count);
    assert(w.subrange(count - size, count as int) =~= w.skip(w.len() - size));
    push_fragment(end, end_key, pos);
    proof {
        crate::text::lemma_split_pieces_no_sep(text@, ' ');
    }
    let mut i: usize = 0;
    while i < count
        invariant
            i <= count,
            count == w.len(),
            texts(words@) == w,
            w == words_of(text@),
            size <= count,
            corpus_view(corpus@) == corpus_steps(corpus_view(old(corpus)@), w, size as nat, pos, i as nat),
            forall|j: int| 0 <= j < w.len() ==> !(#[trigger] w[j]).contains(' '),
        decreases count - i,
    {
        let b = if size <= count - i { i + size } else { count };
        let curr = join_range(&words, i, b);
        let d = if size <= count - b { b + size } else { count };
        let next = join_range(&words, b, d);
        let ghost nb = block(w, i + size, size as int);
        assert(w.subrange(i as int, b as int) =~= block(w, i as int, size as int));
        assert(w.subrange(b as int, d as int) =~= nb);
        proof {
            if d - b >= 1 {
                assert forall|j: int| 0 <= j < nb.len() implies !(#[trigger] nb[j]).contains(' ') by {
                    assert(nb[j] == w[b + j]);
                }
                lemma_split_join(nb, ' ');
            }
        }
        if next.as_str().is_empty() || d - b < size {
            assert(next@.len() == 0 || words_of(next@).len() < size);
        } else {
            push_corpus(corpus, curr, next, pos);
        }
        i = i + 1;
    }
}

/// An input sentence, with optional metadata to look up later through the refs of a result.
pub struct InputData {
    /// The text the generator builds new sentences from.
    pub text: String,
    /// Any serialized data the caller wants to keep with the text.
    pub meta: Option<String>,
}

impl View for InputData {
    type V = InputView;

    open spec fn view(&self) -> InputView {
        (
            self.text@,
            match self.meta {
                Some(m) => Some(m@),
                None => None,
            },
        )
    }
}

pub open spec fn inputs_view(s: Seq<InputData>) -> Seq<InputView> {
    s.map_values(|d: InputData| d@)
}

/// A copy of an input.
pub fn copy_input(d: &InputData) -> (r: InputData)
    ensures
        r@ == d@,
{
    let meta = match &d.meta {
        Some(m) => Some(m.clone()),
        None => None,
    };
    InputData { text: d.text.clone(), meta }
}

/// Two inputs are equal when their texts and their metadata are.
pub fn same_input(a: &InputData, b: &InputData) -> (r: bool)
    ensures
        r == (a@ == b@),
{
    if !(a.text == b.text) {
        return false;
    }
    match (&a.meta, &b.meta) {
        (Some(x), Some(y)) => *x == *y,
        (None, None) => true,
        _ => false,
    }
}

impl PartialEq for InputData {
    fn eq(&self, other: &Self) -> (r: bool) {
        same_input(self, other)
    }
}

impl vstd::std_specs::cmp::PartialEqSpecImpl for InputData {
    open spec fn obeys_eq_spec() -> bool {
        true
    }

    open spec fn eq_spec(&self, other: &Self) -> bool {
        self@ == other@
    }
}

impl From<String> for InputData {
    fn from(text: String) -> (r: Self) {
        InputData { text, meta: None }
    }
}

impl vstd::std_specs::convert::FromSpecImpl<String> for InputData {
    open spec fn obeys_from_spec() -> bool {
        true
    }

    open spec fn from_spec(v: String) -> Self {
        InputData { text: v, meta: None }
    }
}

/// A generated sentence.
#[derive(Debug)]
pub struct MarkovResult {
    /// The generated text.
    pub text: String,
    /// How many other states could have been taken along the way; higher is usually better.
    pub score: u16,
    /// The positions of the inputs the sentence was built from, each once.
    pub refs: Vec<usize>,
    /// The attempt that produced this sentence, counting from one.
    pub tries: u16,
}

/// Why a corpus could not be changed or a sentence could not be generated.
#[derive(Debug, Clone, Copy, PartialEq, Eq, Structural)]
pub enum ErrorType {
    /// `generate` was called on an empty corpus.
    CorpusEmpty,
    /// `set_state_size` was called after data was added.
    CorpusNotEmpty,
    /// `generate` used up its tries without producing an accepted sentence.
    TriesExceeded,
}

/// The criteria a generated sentence must meet to be returned: a least score, number of
/// inputs and number of words, at most so many characters, and none of some texts (such as
/// mentions or links).
#[derive(Debug, Clone)]
pub struct ResultFilter {
    /// Least accepted score (a score above `u16::MAX` rejects every sentence).
    pub min_score: u32,
    /// Least number of distinct inputs the sentence must come from.
    pub min_refs: usize,
    /// Least number of words (pieces between single spaces) of the text.
    pub min_words: usize,
    /// Most characters of the text, if limited.
    pub max_chars: Option<usize>,
    /// Texts the sentence must not contain.
    pub forbidden: Vec<String>,
}

impl ResultFilter {
    pub open spec fn accepts_spec(&self, r: &MarkovResult) -> bool {
        &&& r.score >= self.min_score
        &&& r.refs@.len() >= self.min_refs
        &&& words_of(r.text@).len() >= self.min_words
        &&& self.max_chars matches Some(n) ==> r.text@.len() <= n
        &&& forall|i: int| 0 <= i < self.forbidden@.len() ==> !has_infix(r.text@, #[trigger] self.forbidden@[i]@)
    }

    /// A filter on score, inputs and words only.
    pub fn thresholds(min_score: u32, min_refs: usize, min_words: usize) -> (f: ResultFilter)
        ensures
            f.min_score == min_score,
            f.min_refs == min_refs,
            f.min_words == min_words,
            f.max_chars is None,
            f.forbidden@.len() == 0,
    {
        ResultFilter { min_score, min_refs, min_words, max_chars: None, forbidden: Vec::new() }
    }

    /// Whether `r` meets the criteria.
    pub fn accepts(&self, r: &MarkovResult) -> (b: bool)
        ensures
            b == self.accepts_spec(r),
    {
        if (r.score as u32) < self.min_score || r.refs.len() < self.min_refs {
            return false;
        }
        let words = split_words(r.text.as_str());
        if words.len() < self.min_words {
            return false;
        }
        match self.max_chars {
            Some(n) => {
                if chars_of(r.text.as_str()).len() > n {
                    return false;
                }
            },
            None => {},
        }
        let mut i: usize = 0;
        while i < self.forbidden.len()
            invariant
                i <= self.forbidden@.len(),
                forall|k: int| 0 <= k < i ==> !has_infix(r.text@, #[trigger] self.forbidden@[k]@),
            decreases self.forbidden@.len() - i,
        {
            if contains_text(r.text.as_str(), self.forbidden[i].as_str()) {
                return false;
            }
            i = i + 1;
        }
        true
    }
}

/// Whether every position recorded in `v` is below `n`.
fn all_below(v: &Vec<Fragment>, n: usize) -> (b: bool)
    ensures
        b == frags_below(fragments_view(v@), n as nat),
{
    let ghost f = fragments_view(v@);
    let mut i: usize = 0;
    while i < v.len()
        invariant
            i <= v@.len(),
            f == fragments_view(v@),
            forall|a: int, k: int| 0 <= a < i && 0 <= k < f[a].1.len() ==> (#[trigger] f[a].1[k]) < n,
        decreases v@.len() - i,
    {
        let refs = &v[i].refs;
        let mut k: usize = 0;
        while k < refs.len()
            invariant
                i < v@.len(),
                f == fragments_view(v@),
                k <= refs@.len(),
                refs@ == f[i as int].1,
                forall|a: int, kk: int| 0 <= a < i && 0 <= kk < f[a].1.len() ==> (#[trigger] f[a].1[kk]) < n,
                forall|kk: int| 0 <= kk < k ==> (#[trigger] f[i as int].1[kk]) < n,
            decreases refs@.len() - k,
        {
            if refs[k] >= n {
                assert(f[i as int].1[k as int] >= n);
                return false;
            }
            k = k + 1;
        }
        i = i + 1;
    }
    true
}

/// The options a corpus is built with.
struct DataMember {
    state_size: usize,
}

/// A corpus in a form that can be stored and loaded again; see `Markov::export`.
pub struct ImportExport {
    data: Vec<InputData>,
    corpus: Vec<CorpusEntry>,
    start_words: Vec<Fragment>,
    end_words: Vec<Fragment>,
    options: DataMember,
}

impl ImportExport {
    pub closed spec fn inputs(&self) -> Seq<InputView> {
        inputs_view(self.data@)
    }

    pub closed spec fn state_size(&self) -> nat {
        self.options.state_size as nat
    }

    pub closed spec fn tables(&self) -> Tables {
        tables_of(self.start_words@, self.end_words@, self.corpus@)
    }

    /// The tables never leave a generator stuck, and every position they record
    /// is that of a stored input.
    pub open spec fn wf(&self) -> bool {
        &&& tables_wf(self.tables())
        &&& tables_below(self.tables(), self.inputs().len())
    }

    /// Whether the tables never leave a generator stuck and only record positions
    /// of stored inputs.
    pub fn is_well_formed(&self) -> (b: bool)
        ensures
            b == self.wf(),
    {
        let mut i: usize = 0;
        while i < self.corpus.len()
            invariant
                i <= self.corpus@.len(),
                forall|j: int| 0 <= j < i ==> (#[trigger] corpus_view(self.corpus@)[j]).1.len() > 0,
            decreases self.corpus@.len() - i,
        {
            if self.corpus[i].next.len() == 0 {
                assert(corpus_view(self.corpus@)[i as int].1.len() == 0);
                assert(self.tables().corpus[i as int].1.len() == 0);
                return false;
            }
            i = i + 1;
        }
        if !(self.corpus.len() == 0 || self.start_words.len() > 0) {
            return false;
        }
        let n = self.data.len();
        if !all_below(&self.start_words, n) || !all_below(&self.end_words, n) {
            return false;
        }
        let mut i: usize = 0;
        while i < self.corpus.len()
            invariant
                i <= self.corpus@.len(),
                n == self.inputs().len(),
                forall|j: int| 0 <= j < i ==> frags_below(#[trigger] corpus_view(self.corpus@)[j].1, n as nat),
            decreases self.corpus@.len() - i,
        {
            if !all_below(&self.corpus[i].next, n) {
                assert(!frags_below(self.tables().corpus[i as int].1, self.inputs().len()));
                return false;
            }
            i = i + 1;
        }
        true
    }

    /// Builds a stored corpus from its parts.
    pub fn from_parts(
        data: Vec<InputData>,
        corpus: Vec<CorpusEntry>,
        start_words: Vec<Fragment>,
        end_words: Vec<Fragment>,
        state_size: usize,
    ) -> (r: Self)
        ensures
            r.inputs() == inputs_view(data@),
            r.state_size() == state_size,
            r.tables() == tables_of(start_words@, end_words@, corpus@),
    {
        ImportExport { data, corpus, start_words, end_words, options: DataMember { state_size } }
    }

    /// Takes a stored corpus apart: inputs, corpus, start words, end words, state size.
    pub fn into_parts(self) -> (r: (Vec<InputData>, Vec<CorpusEntry>, Vec<Fragment>, Vec<Fragment>, usize))
        ensures
            inputs_view(r.0@) == self.inputs(),
            tables_of(r.2@, r.3@, r.1@) == self.tables(),
            r.4 == self.state_size(),
    {
        (self.data, self.corpus, self.start_words, self.end_words, self.options.state_size)
    }
}

/// The Markov chain generator.
///
/// 1. Create it empty or from a stored corpus.
/// 2. Add data to complete the corpus.
/// 3. Generate results.
pub struct Markov {
    data: Vec<InputData>,
    options: DataMember,
    start_words: Vec<Fragment>,
    end_words: Vec<Fragment>,
    corpus: Vec<CorpusEntry>,
    filter: Option<ResultFilter>,
    max_tries: u16,
}

impl Markov {
    /// The inputs added so far, in order.
    pub closed spec fn inputs(&self) -> Seq<InputView> {
        inputs_view(self.data@)
    }

    /// The number of words in a state.
    pub closed spec fn state_size(&self) -> nat {
        self.options.state_size as nat
    }

    /// The start words, end words and corpus.
    pub closed spec fn tables(&self) -> Tables {
        tables_of(self.start_words@, self.end_words@, self.corpus@)
    }

    /// The criteria a result must meet, if any.
    pub closed spec fn filter(&self) -> Option<ResultFilter> {
        self.filter
    }

    /// How many attempts `generate` makes, and how many steps each attempt may take.
    pub closed spec fn max_tries(&self) -> u16 {
        self.max_tries
    }

    /// The tables never leave the generator stuck: `generate` needs no more.
    pub open spec fn wf(&self) -> bool {
        tables_wf(self.tables())
    }

    /// Whether the tables never leave the generator stuck, so that `generate` may be called.
    pub fn can_generate(&self) -> (b: bool)
        ensures
            b == self.wf(),
    {
        let mut i: usize = 0;
        while i < self.corpus.len()
            invariant
                i <= self.corpus@.len(),
                forall|j: int| 0 <= j < i ==> (#[trigger] corpus_view(self.corpus@)[j]).1.len() > 0,
            decreases self.corpus@.len() - i,
        {
            if self.corpus[i].next.len() == 0 {
                assert(corpus_view(self.corpus@)[i as int].1.len() == 0);
                assert(self.tables().corpus[i as int].1.len() == 0);
                return false;
            }
            i = i + 1;
        }
        self.corpus.len() == 0 || self.start_words.len() > 0
    }

    /// Every position the tables record is that of a stored input.
    pub open spec fn refs_valid(&self) -> bool {
        tables_below(self.tables(), self.inputs().len())
    }

    /// An empty generator: state size 2, no filter, 100 tries.
    pub fn new() -> (m: Markov)
        ensures
            m.wf(),
            m.refs_valid(),
            m.inputs().len() == 0,
            m.state_size() == 2,
            m.tables() == (Tables { start_words: Seq::empty(), end_words: Seq::empty(), corpus: Seq::empty() }),
            m.filter() is None,
            m.max_tries() == 100,
    {
        let m = Markov {
            data: Vec::new(),
            options: DataMember { state_size: 2 },
            start_words: Vec::new(),
            end_words: Vec::new(),
            corpus: Vec::new(),
            filter: None,
            max_tries: 100,
        };
        assert(m.tables().start_words =~= Seq::empty());
        assert(m.tables().end_words =~= Seq::empty());
        assert(m.tables().corpus =~= Seq::empty());
        m
    }

    /// A generator over a stored corpus: no filter, and the default of 100 tries.
    pub fn from_export(export: ImportExport) -> (m: Markov)
        ensures
            m.wf() == tables_wf(export.tables()),
            m.refs_valid() == tables_below(export.tables(), export.inputs().len()),
            m.inputs() == export.inputs(),
            m.state_size() == export.state_size(),
            m.tables() == export.tables(),
            m.filter() is None,
            m.max_tries() == 100,
    {
        Markov {
            data: export.data,
            options: export.options,
            corpus: export.corpus,
            filter: None,
            start_words: export.start_words,
            end_words: export.end_words,
            max_tries: 100,
        }
    }

    /// Sets the number of words in a state. Refused once data was added, since the
    /// tables depend on it.
    pub fn set_state_size(&mut self, size: usize) -> (r: Result<&mut Self, ErrorType>)
        ensures
            old(self).tables().start_words.len() > 0 ==> r == Err::<&mut Self, ErrorType>(ErrorType::CorpusNotEmpty) && *final(self) == *old(self),
            old(self).tables().start_words.len() == 0 ==> (r matches Ok(m) && *final(self) == *final(m)
                && m.state_size() == size && m.inputs() == old(self).inputs() && m.tables() == old(self).tables()
                && m.filter() == old(self).filter() && m.max_tries() == old(self).max_tries()),
    {
        if self.start_words.len() > 0 {
            return Err(ErrorType::CorpusNotEmpty);
        }
        self.options.state_size = size;
        Ok(self)
    }

    /// Adds sentences to the corpus; see `add_inputs` for exactly what changes.
    /// Can be called any number of times.
    pub fn add_to_corpus(&mut self, data: Vec<InputData>)
        ensures
            old(self).wf() ==> final(self).wf(),
            old(self).refs_valid() ==> final(self).refs_valid(),
            final(self).inputs() == old(self).inputs() + inputs_view(data@),
            final(self).tables() == add_inputs(
                old(self).tables(),
                inputs_view(data@),
                final(self).inputs(),
                old(self).state_size(),
                data@.len(),
            ),
            final(self).state_size() == old(self).state_size(),
            final(self).filter() == old(self).filter(),
            final(self).max_tries() == old(self).max_tries(),
    {
        let mut j: usize = 0;
        while j < data.len()
            invariant
                j <= data@.len(),
                inputs_view(self.data@) == old(self).inputs() + inputs_view(data@).take(j as int),
                self.tables() == old(self).tables(),
                self.options.state_size == old(self).options.state_size,
                self.filter == old(self).filter,
                self.max_tries == old(self).max_tries,
            decreases data@.len() - j,
        {
            let d = copy_input(&data[j]);
            let ghost before = self.data@;
            self.data.push(d);
            assert(self.data@ == before.push(d));
            assert(inputs_view(self.data@) =~= inputs_view(before).push(data@[j as int]@));
            assert(inputs_view(self.data@) =~= old(self).inputs() + inputs_view(data@).take(j + 1));
            j = j + 1;
        }
        assert(inputs_view(data@).take(j as int) =~= inputs_view(data@));
        let ghost all = inputs_view(self.data@);
        let ghost items = inputs_view(data@);
        let size = self.options.state_size;
        let mut j: usize = 0;
        while j < data.len()
            invariant
                j <= data@.len(),
                items == inputs_view(data@),
                inputs_view(self.data@) == all,
                all == old(self).inputs() + items,
                size == old(self).options.state_size,
                self.tables() == add_inputs(old(self).tables(), items, all, size as nat, j as nat),
                self.options.state_size == size,
                self.filter == old(self).filter,
                self.max_tries == old(self).max_tries,
            decreases data@.len() - j,
        {
            assert(all[old(self).inputs().len() + j] == items[j as int]);
            assert(items[j as int] == data@[j as int]@);
            let pos = self.position_of(&data[j]);
            add_sentence_to(&mut self.start_words, &mut self.end_words, &mut self.corpus, &data[j].text, pos, size);
            j = j + 1;
        }
        proof {
            if tables_wf(old(self).tables()) {
                lemma_add_inputs_wf(old(self).tables(), items, all, size as nat, j as nat);
            }
            if tables_below(old(self).tables(), old(self).inputs().len()) {
                lemma_below_mono(old(self).tables(), old(self).inputs().len(), all.len());
                assert forall|k: int| 0 <= k < items.len() implies all.contains(#[trigger] items[k]) by {
                    assert(all[old(self).inputs().len() + k] == items[k]);
                }
                lemma_add_inputs_below(old(self).tables(), items, all, size as nat, j as nat);
            }
        }
    }

    /// Position of the first stored input equal to `d`, which must be stored.
    fn position_of(&self, d: &InputData) -> (pos: usize)
        requires
            inputs_view(self.data@).contains(d@),
        ensures
            pos as int == first_index(inputs_view(self.data@), d@),
    {
        let ghost all = inputs_view(self.data@);
        let mut i: usize = 0;
        while i < self.data.len()
            invariant
                i <= self.data@.len(),
                all == inputs_view(self.data@),
                all.contains(d@),
                forall|j: int| 0 <= j < i ==> #[trigger] all[j] != d@,
            decreases self.data@.len() - i,
        {
            if same_input(&self.data[i], d) {
                proof {
                    lemma_first_index_exact(all, d@, i as int);
                }
                return i;
            }
            i = i + 1;
        }
        proof {
            let k = choose|k: int| 0 <= k < all.len() && all[k] == d@;
            assert(all[k] != d@);
        }
        0
    }

    /// Sets the criteria generated sentences must meet.
    pub fn set_filter(&mut self, f: ResultFilter) -> (r: &mut Self)
        ensures
            *final(self) == *final(r),
            r.filter() == Some(f),
            r.inputs() == old(self).inputs(),
            r.state_size() == old(self).state_size(),
            r.tables() == old(self).tables(),
            r.max_tries() == old(self).max_tries(),
    {
        self.filter = Some(f);
        self
    }

    /// Removes the criteria, if any.
    pub fn unset_filter(&mut self) -> (r: &mut Self)
        ensures
            *final(self) == *final(r),
            r.filter() is None,
            r.inputs() == old(self).inputs(),
            r.state_size() == old(self).state_size(),
            r.tables() == old(self).tables(),
            r.max_tries() == old(self).max_tries(),
    {
        self.filter = None;
        self
    }

    /// Sets how many attempts `generate` makes.
    pub fn set_max_tries(&mut self, tries: u16) -> (r: &mut Self)
        ensures
            *final(self) == *final(r),
            r.max_tries() == tries,
            r.filter() == old(self).filter(),
            r.inputs() == old(self).inputs(),
            r.state_size() == old(self).state_size(),
            r.tables() == old(self).tables(),
    {
        self.max_tries = tries;
        self
    }

    /// The input stored at `index`, if there is one.
    pub fn get_input_ref(&self, index: usize) -> (r: Option<&InputData>)
        ensures
            index < self.inputs().len() ==> (r matches Some(d) && d@ == self.inputs()[index as int]),
            index >= self.inputs().len() ==> r is None,
    {
        if index < self.data.len() {
            Some(&self.data[index])
        } else {
            None
        }
    }

    /// The corpus in a form that can be stored; `from_export` loads it again.
    pub fn export(self) -> (r: ImportExport)
        ensures
            r.inputs() == self.inputs(),
            r.state_size() == self.state_size(),
            r.tables() == self.tables(),
    {
        ImportExport {
            data: self.data,
            options: self.options,
            corpus: self.corpus,
            start_words: self.start_words,
            end_words: self.end_words,
        }
    }

    /// The number of words in a state.
    pub fn get_state_size(&self) -> (n: usize)
        ensures
            n == self.state_size(),
    {
        self.options.state_size
    }

    /// The number of states of the corpus.
    pub fn corpus_len(&self) -> (n: usize)
        ensures
            n == self.tables().corpus.len(),
    {
        self.corpus.len()
    }

    /// The states that start a sentence, in the order they were first seen.
    pub fn start_word_keys(&self) -> (v: Vec<String>)
        ensures
            texts(v@) == table_keys(self.tables().start_words),
    {
        fragment_keys(&self.start_words)
    }

    /// The states that end a sentence, in the order they were first seen.
    pub fn end_word_keys(&self) -> (v: Vec<String>)
        ensures
            texts(v@) == table_keys(self.tables().end_words),
    {
        fragment_keys(&self.end_words)
    }

    /// The states that may follow `key`, when `key` is a state of the corpus.
    pub fn corpus_next_keys(&self, key: &str) -> (r: Option<Vec<String>>)
        ensures
            r matches Some(v) ==> has_key(self.tables().corpus, key@)
                && texts(v@) == table_keys(value_of(self.tables().corpus, key@)),
            r is None ==> !has_key(self.tables().corpus, key@),
    {
        let k = key.to_string();
        match find_entry(&self.corpus, &k) {
            Some(i) => {
                proof {
                    lemma_key_index(corpus_view(self.corpus@), k@);
                }
                assert(corpus_view(self.corpus@)[i as int] == entry_view(self.corpus@[i as int]));
                Some(fragment_keys(&self.corpus[i].next))
            },
            None => None,
        }
    }
}

/// The keys of a table, in order.
pub open spec fn table_keys<V>(s: Seq<(Seq<char>, V)>) -> Seq<Seq<char>> {
    s.map_values(|e: (Seq<char>, V)| e.0)
}

fn fragment_keys(v: &Vec<Fragment>) -> (keys: Vec<String>)
    ensures
        texts(keys@) == table_keys(fragments_view(v@)),
{
    let mut keys: Vec<String> = Vec::new();
    let mut i: usize = 0;
    while i < v.len()
        invariant
            i <= v@.len(),
            texts(keys@) == table_keys(fragments_view(v@)).take(i as int),
            keys@.len() == i,
        decreases v@.len() - i,
    {
        assert(table_keys(fragments_view(v@))[i as int] == v@[i as int].key@);
        keys.push(v[i].key.clone());
        assert(texts(keys@)[i as int] == keys@[i as int]@);
        assert(texts(keys@) =~= table_keys(fragments_view(v@)).take(i + 1));
        i = i + 1;
    }
    assert(table_keys(fragments_view(v@)).take(i as int) =~= table_keys(fragments_view(v@)));
    keys
}


/// Every input position recorded in a state table is below `n`.
pub open spec fn frags_below(f: FragmentsView, n: nat) -> bool {
    forall|i: int, k: int| 0 <= i < f.len() && 0 <= k < f[i].1.len() ==> (#[trigger] f[i].1[k]) < n
}

/// Every input position recorded in the corpus is below `n`.
pub open spec fn corpus_below(c: CorpusView, n: nat) -> bool {
    forall|i: int| 0 <= i < c.len() ==> frags_below(#[trigger] c[i].1, n)
}

/// Every input position recorded in the tables is below `n`.
pub open spec fn tables_below(t: Tables, n: nat) -> bool {
    &&& frags_below(t.start_words, n)
    &&& frags_below(t.end_words, n)
    &&& corpus_below(t.corpus, n)
}

pub proof fn lemma_below_mono(t: Tables, n: nat, m: nat)
    requires
        tables_below(t, n),
        n <= m,
    ensures
        tables_below(t, m),
{
    assert forall|i: int| 0 <= i < t.corpus.len() implies frags_below(#[trigger] t.corpus[i].1, m) by {
        assert(frags_below(t.corpus[i].1, n));
    }
}

pub proof fn lemma_frag_push_below(f: FragmentsView, k: Seq<char>, pos: usize, n: nat)
    requires
        frags_below(f, n),
        pos < n,
    ensures
        frags_below(frag_push(f, k, pos), n),
        frags_below(next_push(f, k, pos), n),
{
    lemma_key_index(f, k);
    let i0 = key_index(f, k);
    let g = frag_push(f, k, pos);
    assert forall|i: int, j: int| 0 <= i < g.len() && 0 <= j < g[i].1.len() implies (#[trigger] g[i].1[j]) < n by {
        if i0 >= 0 && i == i0 {
            if j < f[i].1.len() {
                assert(g[i].1[j] == f[i].1[j]);
            }
        } else if i < f.len() {
            assert(g[i] == f[i]);
        }
    }
    let h = next_push(f, k, pos);
    assert forall|i: int, j: int| 0 <= i < h.len() && 0 <= j < h[i].1.len() implies (#[trigger] h[i].1[j]) < n by {
        if i0 >= 0 && i == i0 {
            if j < f[i].1.len() {
                assert(h[i].1[j] == f[i].1[j]);
            }
        } else if i < f.len() {
            assert(h[i] == f[i]);
        }
    }
}

pub proof fn lemma_corpus_push_below(c: CorpusView, curr: Seq<char>, next: Seq<char>, pos: usize, n: nat)
    requires
        corpus_below(c, n),
        pos < n,
    ensures
        corpus_below(corpus_push(c, curr, next, pos), n),
{
    lemma_key_index(c, curr);
    let i0 = key_index(c, curr);
    let d = corpus_push(c, curr, next, pos);
    assert forall|i: int| 0 <= i < d.len() implies frags_below(#[trigger] d[i].1, n) by {
        if i0 >= 0 && i == i0 {
            assert(frags_below(c[i].1, n));
            lemma_frag_push_below(c[i].1, next, pos, n);
        } else if i < c.len() {
            assert(d[i] == c[i]);
            assert(frags_below(c[i].1, n));
        } else {
            lemma_frag_push_below(Seq::empty(), next, pos, n);
        }
    }
}

pub proof fn lemma_corpus_steps_below(c: CorpusView, w: Seq<Seq<char>>, size: nat, pos: usize, m: nat, n: nat)
    requires
        corpus_below(c, n),
        pos < n,
    ensures
        corpus_below(corpus_steps(c, w, size, pos, m), n),
    decreases m,
{
    if m > 0 {
        lemma_corpus_steps_below(c, w, size, pos, (m - 1) as nat, n);
        let prev = corpus_steps(c, w, size, pos, (m - 1) as nat);
        let curr = join_words(block(w, m - 1, size as int));
        let next = join_words(block(w, m - 1 + size, size as int));
        lemma_corpus_push_below(prev, curr, next, pos, n);
    }
}

pub proof fn lemma_add_sentence_below(t: Tables, text: Seq<char>, pos: usize, size: nat, n: nat)
    requires
        tables_below(t, n),
        pos < n,
    ensures
        tables_below(add_sentence(t, text, pos, size), n),
{
    let w = words_of(text);
    if w.len() >= size {
        lemma_frag_push_below(t.start_words, join_words(w.take(size as int)), pos, n);
        lemma_frag_push_below(t.end_words, join_words(w.skip(w.len() - size)), pos, n);
        lemma_corpus_steps_below(t.corpus, w, size, pos, w.len(), n);
    }
}

pub proof fn lemma_add_inputs_below(t: Tables, items: Seq<InputView>, all: Seq<InputView>, size: nat, m: nat)
    requires
        tables_below(t, all.len()),
        m <= items.len(),
        forall|k: int| 0 <= k < items.len() ==> all.contains(#[trigger] items[k]),
    ensures
        tables_below(add_inputs(t, items, all, size, m), all.len()),
    decreases m,
{
    if m > 0 {
        lemma_add_inputs_below(t, items, all, size, (m - 1) as nat);
        let x = items[m - 1];
        assert(all.contains(x));
        lemma_first_index(all, x);
        if first_index(all, x) < 0 {
            let k = choose|k: int| 0 <= k < all.len() && all[k] == x;
            assert(all[k] != x);
        }
        let prev = add_inputs(t, items, all, size, (m - 1) as nat);
        lemma_add_sentence_below(prev, x.0, first_index(all, x) as usize, size, all.len());
    }
}

/// The inputs of the first `m` steps of a path are recorded positions.
pub proof fn lemma_walk_refs_below(t: Tables, walk: Seq<Seq<char>>, m: nat, n: nat)
    requires
        tables_below(t, n),
        is_path(t, walk),
        m <= walk.len() - 1,
    ensures
        forall|x: usize| walk_refs(t, walk, m).contains(x) ==> x < n,
    decreases m,
{
    if m > 0 {
        lemma_walk_refs_below(t, walk, (m - 1) as nat, n);
        let j = m - 1;
        assert(has_key(t.corpus, walk[j]) && has_key(value_of(t.corpus, walk[j]), walk[j + 1]));
        lemma_key_index(t.corpus, walk[j]);
        let ci = key_index(t.corpus, walk[j]);
        assert(frags_below(t.corpus[ci].1, n));
        lemma_key_index(t.corpus[ci].1, walk[j + 1]);
        let fi = key_index(t.corpus[ci].1, walk[j + 1]);
        assert(step_refs(t, walk, j) == t.corpus[ci].1[fi].1);
        assert forall|x: usize| walk_refs(t, walk, m).contains(x) implies x < n by {
            if walk_refs(t, walk, (m - 1) as nat).contains(x) {
            } else {
                assert(step_refs(t, walk, j).to_set().contains(x));
                let k = choose|k: int| 0 <= k < step_refs(t, walk, j).len() && step_refs(t, walk, j)[k] == x;
                assert(t.corpus[ci].1[fi].1[k] == x);
            }
        }
    }
}

/// Each state of `walk` after the first follows the one before it in the corpus.
pub open spec fn is_path(t: Tables, walk: Seq<Seq<char>>) -> bool {
    &&& walk.len() >= 1
    &&& forall|j: int|
        0 <= j < walk.len() - 1 ==> has_key(t.corpus, #[trigger] walk[j]) && has_key(
            value_of(t.corpus, walk[j]),
            walk[j + 1],
        )
}

/// A path that begins at a state that starts a sentence.
pub open spec fn is_walk(t: Tables, walk: Seq<Seq<char>>) -> bool {
    &&& is_path(t, walk)
    &&& has_key(t.start_words, walk[0])
}

/// A walk as an attempt of `generate` completes it: at most `max_steps` steps, and
/// the first state after the start that ends a sentence is its last.
pub open spec fn is_finished_walk(t: Tables, walk: Seq<Seq<char>>, max_steps: nat) -> bool {
    &&& is_walk(t, walk)
    &&& walk.len() >= 2
    &&& walk.len() - 1 <= max_steps
    &&& has_key(t.end_words, walk.last())
    &&& forall|j: int| 1 <= j < walk.len() - 1 ==> !has_key(t.end_words, #[trigger] walk[j])
}

/// A walk as an attempt of `generate` leaves it: at most `max_steps` steps, no state after the
/// start ends a sentence before the last, and the attempt stopped because the last state ends a
/// sentence, has no following state in the corpus, or the steps ran out.
pub open spec fn is_stopped_walk(t: Tables, walk: Seq<Seq<char>>, max_steps: nat) -> bool {
    &&& is_walk(t, walk)
    &&& walk.len() - 1 <= max_steps
    &&& forall|j: int| 1 <= j < walk.len() - 1 ==> !has_key(t.end_words, #[trigger] walk[j])
    &&& (walk.len() >= 2 && has_key(t.end_words, walk.last()) || !has_key(t.corpus, walk.last())
        || walk.len() - 1 == max_steps)
}

/// The inputs recorded for step `j` of a walk.
pub open spec fn step_refs(t: Tables, walk: Seq<Seq<char>>, j: int) -> Seq<usize> {
    value_of(value_of(t.corpus, walk[j]), walk[j + 1])
}

/// The inputs recorded for the first `n` steps of a walk.
pub open spec fn walk_refs(t: Tables, walk: Seq<Seq<char>>, n: nat) -> Set<usize>
    decreases n,
{
    if n == 0 {
        Set::empty()
    } else {
        walk_refs(t, walk, (n - 1) as nat) + step_refs(t, walk, n - 1).to_set()
    }
}

/// The score of the first `n` steps of a walk: at each step, the number of other
/// states that could have followed, as a `u16` that wraps around.
pub open spec fn walk_score(t: Tables, walk: Seq<Seq<char>>, n: nat) -> nat
    decreases n,
{
    if n == 0 {
        0
    } else {
        let alternatives = (value_of(t.corpus, walk[n - 1]).len() - 1) as nat;
        (walk_score(t, walk, (n - 1) as nat) + alternatives % 65536) % 65536
    }
}

/// The score of a walk adds up over its steps: no steps score nothing, and each step adds the
/// number of other states that could have followed there (the followers of its state, less
/// one), counted modulo 65536 as a `u16` counter wraps.
pub proof fn law_score_adds_up_over_steps(t: Tables, walk: Seq<Seq<char>>, n: nat)
    requires
        is_path(t, walk),
        n < walk.len() - 1,
    ensures
        walk_score(t, walk, 0) == 0,
        value_of(t.corpus, walk[n as int]).len() >= 1,
        walk_score(t, walk, n + 1) == (walk_score(t, walk, n) + value_of(t.corpus, walk[n as int]).len() - 1) % 65536,
        walk_score(t, walk, n + 1) < 65536,
{
    let f = value_of(t.corpus, walk[n as int]);
    lemma_key_index(f, walk[n + 1int]);
    assert(f.len() >= 1);
    let a = (f.len() - 1) as nat;
    let prev = walk_score(t, walk, n);
    assert(walk_score(t, walk, n + 1) == (prev + a % 65536) % 65536);
    assert((prev + a % 65536) % 65536 == (prev + a) % 65536) by (nonlinear_arith);
}

/// `r` is the sentence a walk spells: its states joined by spaces and trimmed,
/// with the score and the inputs of its steps.
pub open spec fn is_walk_result(t: Tables, walk: Seq<Seq<char>>, r: &MarkovResult) -> bool {
    &&& r.text@ == trim_ws(join_words(walk))
    &&& r.score as nat == walk_score(t, walk, (walk.len() - 1) as nat)
    &&& r.refs@.no_duplicates()
    &&& r.refs@.to_set() == walk_refs(t, walk, (walk.len() - 1) as nat)
}

pub proof fn lemma_to_set_push(s: Seq<usize>, x: usize)
    ensures
        s.push(x).to_set() == s.to_set().insert(x),
{
    assert forall|a: usize| s.push(x).to_set().contains(a) <==> s.to_set().insert(x).contains(a) by {
        if s.push(x).contains(a) && a != x {
            let i = choose|i: int| 0 <= i < s.push(x).len() && s.push(x)[i] == a;
            assert(s[i] == a);
        }
        if s.contains(a) {
            let i = choose|i: int| 0 <= i < s.len() && s[i] == a;
            assert(s.push(x)[i] == a);
        }
        if a == x {
            assert(s.push(x)[s.len() as int] == x);
        }
    }
    assert(s.push(x).to_set() =~= s.to_set().insert(x));
}

/// Adds to `acc` the elements of `more` it does not hold yet.
fn add_refs(acc: &mut Vec<usize>, more: &Vec<usize>)
    requires
        old(acc)@.no_duplicates(),
    ensures
        final(acc)@.no_duplicates(),
        final(acc)@.to_set() == old(acc)@.to_set() + more@.to_set(),
{
    let mut i: usize = 0;
    while i < more.len()
        invariant
            i <= more@.len(),
            acc@.no_duplicates(),
            acc@.to_set() == old(acc)@.to_set() + more@.take(i as int).to_set(),
        decreases more@.len() - i,
    {
        let x = more[i];
        let mut found = false;
        let mut k: usize = 0;
        while k < acc.len()
            invariant
                k <= acc@.len(),
                found == (exists|m: int| 0 <= m < k && acc@[m] == x),
            decreases acc@.len() - k,
        {
            if acc[k] == x {
                found = true;
            }
            k = k + 1;
        }
        let ghost before = acc@;
        if !found {
            acc.push(x);
            proof {
                assert forall|a: int, b: int| 0 <= a < acc@.len() && 0 <= b < acc@.len() && a != b implies acc@[a] != acc@[b] by {
                    if a < before.len() && b < before.len() {
                        assert(acc@[a] == before[a] && acc@[b] == before[b]);
                    } else if a == before.len() {
                        assert(acc@[b] == before[b]);
                    } else {
                        assert(acc@[a] == before[a]);
                    }
                }
            }
        } else {
            assert(before.contains(x));
        }
        assert(more@.take(i + 1) =~= more@.take(i as int).push(x));
        assert(acc@.to_set() =~= old(acc)@.to_set() + more@.take(i + 1).to_set()) by {
            lemma_to_set_push(more@.take(i as int), x);
            if !found {
                lemma_to_set_push(before, x);
            }
        }
        i = i + 1;
    }
    assert(more@.take(i as int) =~= more@);
}

impl Markov {
    /// The sentence a path spells, as attempt number `tries` of `generate`.
    pub fn result_from_walk(&self, walk: &Vec<String>, tries: u16) -> (r: MarkovResult)
        requires
            is_path(self.tables(), texts(walk@)),
        ensures
            is_walk_result(self.tables(), texts(walk@), &r),
            r.tries == tries,
    {
        let ghost t = self.tables();
        let ghost w = texts(walk@);
        let joined = join_range(walk, 0, walk.len());
        assert(texts(walk@).subrange(0, walk@.len() as int) =~= w);
        let text = trim_whitespace(joined.as_str());
        let mut score: u16 = 0;
        let mut refs: Vec<usize> = Vec::new();
        let steps = walk.len() - 1;
        let mut j: usize = 0;
        assert(refs@.to_set() =~= Set::<usize>::empty());
        while j < steps
            invariant
                j <= steps,
                steps == walk@.len() - 1,
                w == texts(walk@),
                t == self.tables(),
                is_path(t, w),
                score as nat == walk_score(t, w, j as nat),
                refs@.no_duplicates(),
                refs@.to_set() == walk_refs(t, w, j as nat),
            decreases steps - j,
        {
            assert(has_key(t.corpus, w[j as int]) && has_key(value_of(t.corpus, w[j as int]), w[j + 1]));
            let ci = find_entry(&self.corpus, &walk[j]).unwrap();
            proof {
                lemma_key_index(t.corpus, w[j as int]);
            }
            let entry = &self.corpus[ci];
            let n = entry.next.len();
            proof {
                lemma_key_index(value_of(t.corpus, w[j as int]), w[j + 1]);
                assert(fragments_view(entry.next@) == value_of(t.corpus, w[j as int]));
            }
            let alt: u16 = ((n - 1) % 65536) as u16;
            score = score.wrapping_add(alt);
            let fi = find_fragment(&entry.next, &walk[j + 1]).unwrap();
            assert(entry.next@[fi as int].refs@ == step_refs(t, w, j as int));
            add_refs(&mut refs, &entry.next[fi].refs);
            j = j + 1;
        }
        MarkovResult { text, score, refs, tries }
    }

    /// How many states may follow `state` in the corpus (none when it has no entry).
    pub fn follower_count(&self, state: &String) -> (n: usize)
        ensures
            has_key(self.tables().corpus, state@) ==> n == value_of(self.tables().corpus, state@).len(),
            !has_key(self.tables().corpus, state@) ==> n == 0,
    {
        proof {
            lemma_key_index(self.tables().corpus, state@);
        }
        match find_entry(&self.corpus, state) {
            Some(i) => {
                assert(fragments_view(self.corpus@[i as int].next@) == self.tables().corpus[i as int].1);
                self.corpus[i].next.len()
            },
            None => 0,
        }
    }

    /// The state drawn to start an attempt: the start state at position `drawn`.
    pub fn start_state(&self, drawn: usize) -> (s: String)
        requires
            drawn < self.tables().start_words.len(),
        ensures
            s@ == self.tables().start_words[drawn as int].0,
    {
        assert(fragments_view(self.start_words@)[drawn as int].0 == self.start_words@[drawn as int].key@);
        self.start_words[drawn].key.clone()
    }

    /// The state drawn to follow `state`: the follower at position `drawn`, and whether it
    /// ends a sentence.
    pub fn next_state(&self, state: &String, drawn: usize) -> (r: (String, bool))
        requires
            has_key(self.tables().corpus, state@),
            drawn < value_of(self.tables().corpus, state@).len(),
        ensures
            r.0@ == value_of(self.tables().corpus, state@)[drawn as int].0,
            r.1 == has_key(self.tables().end_words, r.0@),
    {
        let ghost t = self.tables();
        proof {
            lemma_key_index(t.corpus, state@);
        }
        let ci = find_entry(&self.corpus, state).unwrap();
        let frags = &self.corpus[ci].next;
        assert(fragments_view(frags@) == t.corpus[ci as int].1);
        assert(fragments_view(frags@)[drawn as int].0 == frags@[drawn as int].key@);
        let next = frags[drawn].key.clone();
        proof {
            lemma_key_index(t.end_words, next@);
        }
        let is_end = find_fragment(&self.end_words, &next).is_some();
        (next, is_end)
    }

    /// A random walk of at most `max_tries` steps through the corpus, and whether
    /// it reached a state that ends a sentence. Each state is drawn with `choose_index`
    /// among the start states, then among the followers of the last state.
    pub fn random_walk(&self) -> (r: (Vec<String>, bool))
        requires
            self.wf(),
            self.tables().corpus.len() > 0,
        ensures
            is_walk(self.tables(), texts(r.0@)),
            is_stopped_walk(self.tables(), texts(r.0@), self.max_tries() as nat),
            r.1 <==> (r.0@.len() >= 2 && has_key(self.tables().end_words, texts(r.0@).last())),
            r.1 ==> is_finished_walk(self.tables(), texts(r.0@), self.max_tries() as nat),
    {
        let ghost t = self.tables();
        let si = choose_index(self.start_words.len()).unwrap();
        let first = self.start_state(si);
        proof {
            lemma_key_index(t.start_words, first@);
            if key_index(t.start_words, first@) < 0 {
                assert(t.start_words[si as int].0 == first@);
            }
        }
        let mut walk: Vec<String> = Vec::new();
        walk.push(first);
        let mut ended = false;
        let mut k: u16 = 0;
        while k < self.max_tries
            invariant_except_break
                !ended,
                walk@.len() == k + 1,
                forall|j: int| 1 <= j < walk@.len() ==> !has_key(t.end_words, #[trigger] texts(walk@)[j]),
            invariant
                t == self.tables(),
                tables_wf(t),
                k <= self.max_tries,
                is_walk(t, texts(walk@)),
            ensures
                is_walk(t, texts(walk@)),
                walk@.len() - 1 <= self.max_tries,
                ended ==> is_finished_walk(t, texts(walk@), self.max_tries as nat),
                is_stopped_walk(t, texts(walk@), self.max_tries as nat),
                ended <==> (walk@.len() >= 2 && has_key(t.end_words, texts(walk@).last())),
            decreases self.max_tries - k,
        {
            let ghost w = texts(walk@);
            let last = walk.len() - 1;
            assert(w[last as int] == walk@[last as int]@);
            let n = self.follower_count(&walk[last]);
            if n == 0 {
                proof {
                    lemma_key_index(t.corpus, w[last as int]);
                    if has_key(t.corpus, w[last as int]) {
                        let ci = key_index(t.corpus, w[last as int]);
                        assert(t.corpus[ci].1.len() > 0);
                    }
                    assert(w.last() == w[last as int]);
                    assert(!has_key(t.corpus, w.last()));
                }
                break;
            }
            let fi = choose_index(n).unwrap();
            let (state, is_end) = self.next_state(&walk[last], fi);
            proof {
                let ci = key_index(t.corpus, w[last as int]);
                lemma_key_index(t.corpus, w[last as int]);
                lemma_key_index(t.corpus[ci].1, state@);
                if key_index(t.corpus[ci].1, state@) < 0 {
                    assert(t.corpus[ci].1[fi as int].0 == state@);
                }
            }
            walk.push(state);
            proof {
                let w2 = texts(walk@);
                assert(w2 =~= w.push(state@));
                assert forall|j: int| 0 <= j < w2.len() - 1 implies has_key(t.corpus, #[trigger] w2[j]) && has_key(value_of(t.corpus, w2[j]), w2[j + 1]) by {
                    if j < w.len() - 1 {
                        assert(w2[j] == w[j] && w2[j + 1] == w[j + 1]);
                    }
                }
                assert(w2.last() == state@);
                assert forall|j: int| 1 <= j < w2.len() - 1 implies !has_key(t.end_words, #[trigger] w2[j]) by {
                    assert(w2[j] == w[j]);
                }
            }
            if is_end {
                ended = true;
                break;
            }
            k = k + 1;
        }
        proof {
            let w = texts(walk@);
            if !ended && w.len() >= 2 {
                assert(w.last() == w[w.len() - 1]);
            }
        }
        (walk, ended)
    }

    /// Whether `r` is a sentence `generate` may return: a finished walk of at most
    /// `max_tries` steps spells it, the filter accepts it, and it came from one of
    /// the first `max_tries` attempts.
    pub open spec fn is_generated(&self, r: &MarkovResult) -> bool {
        &&& 1 <= r.tries <= self.max_tries()
        &&& exists|walk: Seq<Seq<char>>| #[trigger]
            is_finished_walk(self.tables(), walk, self.max_tries() as nat) && is_walk_result(
                self.tables(),
                walk,
                r,
            )
        &&& self.filter() matches Some(f) ==> f.accepts_spec(r)
    }

    /// An attempt of `generate` that gives no sentence: its walk stopped without ending a
    /// sentence, or ended one that the filter rejects.
    pub open spec fn attempt_rejected(&self, walk: Seq<Seq<char>>) -> bool {
        &&& is_stopped_walk(self.tables(), walk, self.max_tries() as nat)
        &&& (!(walk.len() >= 2 && has_key(self.tables().end_words, walk.last()))
            || exists|r: MarkovResult| #[trigger] is_walk_result(self.tables(), walk, &r)
                && (self.filter() matches Some(f) && !f.accepts_spec(&r)))
    }

    /// Whatever the draws, the first attempt gives a sentence: there is at least one try, and
    /// every walk an attempt can stop at ends a sentence and spells a sentence the filter
    /// accepts (for instance a corpus of one sentence, without a filter).
    pub open spec fn succeeds_whatever_drawn(&self) -> bool {
        &&& self.max_tries() >= 1
        &&& forall|walk: Seq<Seq<char>>| #[trigger] is_stopped_walk(self.tables(), walk, self.max_tries() as nat) ==> {
            &&& walk.len() >= 2
            &&& has_key(self.tables().end_words, walk.last())
            &&& forall|r: MarkovResult| #[trigger] is_walk_result(self.tables(), walk, &r) ==> (self.filter() matches Some(f) ==> f.accepts_spec(&r))
        }
    }

    /// A random sentence from the corpus.
    ///
    /// Fails with `CorpusEmpty` exactly when the corpus is empty. Otherwise each of
    /// up to `max_tries` attempts walks at random from a start state; the first walk
    /// that reaches an end state and whose sentence the filter accepts is returned,
    /// and when there is none the result is `TriesExceeded`. Which walk is taken is
    /// left to chance; where chance cannot make an attempt fail, a sentence comes back.
    pub fn generate(&self) -> (r: Result<MarkovResult, ErrorType>)
        requires
            self.wf(),
        ensures
            (r matches Err(e) && e == ErrorType::CorpusEmpty) <==> self.tables().corpus.len() == 0,
            r matches Err(e) ==> e == ErrorType::CorpusEmpty || e == ErrorType::TriesExceeded,
            r matches Ok(res) ==> self.is_generated(&res),
            r matches Ok(res) ==> exists|failed: Seq<Seq<Seq<char>>>|
                failed.len() + 1 == res.tries && forall|i: int| 0 <= i < failed.len() ==> self.attempt_rejected(#[trigger] failed[i]),
            r matches Err(e) && e == ErrorType::TriesExceeded ==> exists|failed: Seq<Seq<Seq<char>>>|
                failed.len() == self.max_tries() && forall|i: int| 0 <= i < failed.len() ==> self.attempt_rejected(#[trigger] failed[i]),
            self.tables().corpus.len() > 0 && self.succeeds_whatever_drawn() ==> (r matches Ok(res) && res.tries == 1),
    {
        if self.corpus.len() == 0 {
            return Err(ErrorType::CorpusEmpty);
        }
        let mut tries: u16 = 0;
        let ghost mut failed: Seq<Seq<Seq<char>>> = Seq::empty();
        while tries < self.max_tries
            invariant
                tries <= self.max_tries,
                self.wf(),
                self.tables().corpus.len() > 0,
                self.succeeds_whatever_drawn() ==> tries == 0,
                failed.len() == tries,
                forall|i: int| 0 <= i < failed.len() ==> self.attempt_rejected(#[trigger] failed[i]),
            decreases self.max_tries - tries,
        {
            tries = tries + 1;
            let (walk, ended) = self.random_walk();
            let result = self.result_from_walk(&walk, tries);
            let ghost w = texts(walk@);
            proof {
                if self.succeeds_whatever_drawn() {
                    assert(is_stopped_walk(self.tables(), w, self.max_tries() as nat));
                    assert(is_walk_result(self.tables(), w, &result));
                }
            }
            if !ended {
                proof {
                    assert(self.attempt_rejected(w));
                    failed = failed.push(w);
                    assert forall|i: int| 0 <= i < failed.len() implies self.attempt_rejected(#[trigger] failed[i]) by {
                        if i < failed.len() - 1 {
                            assert(failed[i] == failed.drop_last()[i]);
                        }
                    }
                }
                continue;
            }
            match &self.filter {
                Some(f) => {
                    if !f.accepts(&result) {
                        proof {
                            assert(is_walk_result(self.tables(), w, &result));
                            assert(self.attempt_rejected(w));
                            failed = failed.push(w);
                            assert forall|i: int| 0 <= i < failed.len() implies self.attempt_rejected(#[trigger] failed[i]) by {
                                if i < failed.len() - 1 {
                                    assert(failed[i] == failed.drop_last()[i]);
                                }
                            }
                        }
                        continue;
                    }
                },
                None => {},
            }
            assert(is_finished_walk(self.tables(), texts(walk@), self.max_tries() as nat));
            assert(is_walk_result(self.tables(), texts(walk@), &result));
            return Ok(result);
        }
        Err(ErrorType::TriesExceeded)
    }
}

proof fn lemma_single_key<V>(k: Seq<char>, v: V, x: Seq<char>)
    ensures
        has_key(seq![(k, v)], x) <==> x == k,
        value_of(seq![(k, v)], k) == v,
{
    let t = seq![(k, v)];
    lemma_key_index(t, x);
    if x == k {
        lemma_key_index_exact(t, k, 0);
    }
    lemma_key_index_exact(t, k, 0);
}

/// A generator whose tables force the sentence (one start state, whose only follower ends a
/// sentence, as a corpus of one sentence of two states gives) and that has no filter and at
/// least one try gives a sentence whatever is drawn: `generate` returns `Ok`.
pub proof fn law_forced_sentence_is_generated(m: &Markov, start: Seq<char>, end: Seq<char>, r1: Seq<usize>, r2: Seq<usize>, r3: Seq<usize>)
    requires
        m.max_tries() >= 1,
        m.filter() is None,
        m.tables() == (Tables {
            start_words: seq![(start, r1)],
            end_words: seq![(end, r2)],
            corpus: seq![(start, seq![(end, r3)])],
        }),
    ensures
        m.succeeds_whatever_drawn(),
        m.tables().corpus.len() > 0,
{
    let t = m.tables();
    let max = m.max_tries() as nat;
    assert forall|walk: Seq<Seq<char>>| #[trigger] is_stopped_walk(t, walk, max) implies {
        &&& walk.len() >= 2
        &&& has_key(t.end_words, walk.last())
        &&& forall|r: MarkovResult| #[trigger] is_walk_result(t, walk, &r) ==> (m.filter() matches Some(f) ==> f.accepts_spec(&r))
    } by {
        lemma_single_key(start, r1, walk[0]);
        assert(walk[0] == start);
        lemma_single_key(start, seq![(end, r3)], start);
        lemma_single_key(start, seq![(end, r3)], walk.last());
        lemma_single_key(end, r2, walk.last());
        if walk.len() == 1 {
            assert(walk.last() == start);
            assert(false);
        }
        assert(has_key(t.corpus, walk[0]) && has_key(value_of(t.corpus, walk[0]), walk[1]));
        lemma_single_key(end, r3, walk[1]);
        assert(walk[1] == end);
        lemma_single_key(end, r2, walk[1]);
        if walk.len() >= 3 {
            assert(!has_key(t.end_words, walk[1]));
            assert(false);
        }
        assert(walk.last() == walk[1]);
    }
}

/// A filter that accepts every result lets `generate` return
/// exactly what it returns without a filter (`unset_filter`).
pub proof fn law_accept_all_filter_is_no_filter(with_filter: &Markov, without: &Markov, r: &MarkovResult)
    requires
        with_filter.filter() matches Some(f) && f.min_score == 0 && f.min_refs == 0 && f.min_words == 0
            && f.max_chars is None && f.forbidden@.len() == 0,
        without.filter() is None,
        with_filter.tables() == without.tables(),
        with_filter.max_tries() == without.max_tries(),
    ensures
        with_filter.is_generated(r) == without.is_generated(r),
{
}

/// Every position in the refs of a generated sentence is that of a stored input,
/// so `get_input_ref` finds each of them.
pub proof fn law_generated_refs_are_inputs(m: &Markov, r: &MarkovResult)
    requires
        m.refs_valid(),
        m.is_generated(r),
    ensures
        forall|i: int| 0 <= i < r.refs@.len() ==> (#[trigger] r.refs@[i]) < m.inputs().len(),
{
    let t = m.tables();
    let walk = choose|walk: Seq<Seq<char>>| #[trigger]
        is_finished_walk(t, walk, m.max_tries() as nat) && is_walk_result(t, walk, r);
    lemma_walk_refs_below(t, walk, (walk.len() - 1) as nat, m.inputs().len());
    assert forall|i: int| 0 <= i < r.refs@.len() implies (#[trigger] r.refs@[i]) < m.inputs().len() by {
        assert(r.refs@.to_set().contains(r.refs@[i]));
    }
}

} // verus!
