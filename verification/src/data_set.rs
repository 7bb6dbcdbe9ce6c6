//! The file of saved messages the bot builds its chain from: one message per paragraph,
//! each written followed by an empty line.
use vstd::prelude::*;

use crate::markov::InputData;
use crate::text::{chars_of, push_char, texts};

verus! {

/// The separator between saved messages: an empty line.
pub open spec fn paragraph_break() -> Seq<char> {
    seq!['\n', '\n']
}

/// The pieces of `s[start..]` between occurrences of `sep`, scanning from `i` for the next
/// one (the current piece starting at `start`), leftmost first and without overlaps, as
/// `str::split` with a text pattern gives them.
pub open spec fn split_from(s: Seq<char>, sep: Seq<char>, start: int, i: int) -> Seq<Seq<char>>
    decreases s.len() - i,
{
    if sep.len() == 0 || i < start || start < 0 || i + sep.len() > s.len() {
        seq![s.subrange(start, s.len() as int)]
    } else if s.subrange(i, i + sep.len()) == sep {
        seq![s.subrange(start, i)] + split_from(s, sep, i + sep.len(), i + sep.len())
    } else {
        split_from(s, sep, start, i + 1)
    }
}

/// The pieces of `s` between occurrences of `sep`: `s.split(sep)`.
pub open spec fn split_text(s: Seq<char>, sep: Seq<char>) -> Seq<Seq<char>> {
    split_from(s, sep, 0, 0)
}

/// The saved messages of a file: its paragraphs.
pub fn split_paragraphs(text: &str) -> (pieces: Vec<String>)
    ensures
        texts(pieces@) == split_text(text@, paragraph_break()),
{
    let ghost s = text@;
    let ghost sep = paragraph_break();
    let c = chars_of(text);
    let n = c.len();
    let mut pieces: Vec<String> = Vec::new();
    let mut cur = String::new();
    let mut start: usize = 0;
    let mut i: usize = 0;
    assert(texts(pieces@) =~= Seq::<Seq<char>>::empty());
    while n - i >= 2
        invariant
            c@ == s,
            n == s.len(),
            sep == paragraph_break(),
            start <= i <= n,
            cur@ == s.subrange(start as int, i as int),
            split_text(s, sep) == texts(pieces@) + split_from(s, sep, start as int, i as int),
        decreases n - i,
    {
        if c[i] == '\n' && c[i + 1] == '\n' {
            assert(s.subrange(i as int, i + 2) =~= sep);
            let ghost before = texts(pieces@);
            pieces.push(cur);
            cur = String::new();
            assert(texts(pieces@) =~= before.push(s.subrange(start as int, i as int)));
            assert(before + split_from(s, sep, start as int, i as int) =~= texts(pieces@) + split_from(s, sep, i + 2, i + 2));
            i = i + 2;
            start = i;
            assert(cur@ =~= s.subrange(start as int, i as int));
        } else {
            assert(s.subrange(i as int, i + 2) != sep) by {
                if c@[i as int] != '\n' {
                    assert(s.subrange(i as int, i + 2)[0] != sep[0]);
                } else {
                    assert(s.subrange(i as int, i + 2)[1] != sep[1]);
                }
            }
            push_char(&mut cur, c[i]);
            assert(cur@ =~= s.subrange(start as int, i + 1));
            i = i + 1;
        }
    }
    // the rest, too short to hold another break, is the last piece
    let mut j: usize = i;
    while j < n
        invariant
            c@ == s,
            n == s.len(),
            start <= i <= j <= n,
            cur@ == s.subrange(start as int, j as int),
        decreases n - j,
    {
        push_char(&mut cur, c[j]);
        assert(cur@ =~= s.subrange(start as int, j + 1));
        j = j + 1;
    }
    let ghost before = texts(pieces@);
    pieces.push(cur);
    assert(texts(pieces@) =~= before.push(s.subrange(start as int, n as int)));
    assert(split_from(s, sep, start as int, i as int) == seq![s.subrange(start as int, s.len() as int)]);
    assert(texts(pieces@) =~= before + seq![s.subrange(start as int, s.len() as int)]);
    pieces
}

/// What the bot appends to the file for a message: the message and an empty line
/// (`writeln!(file, "{message}\n")`).
pub open spec fn entry_text(message: Seq<char>) -> Seq<char> {
    message + paragraph_break()
}

/// The text appended to the file for a message.
pub fn data_set_entry(message: &str) -> (s: String)
    ensures
        s@ == entry_text(message@),
{
    let mut s = message.to_string();
    push_char(&mut s, '\n');
    push_char(&mut s, '\n');
    assert(s@ =~= message@ + paragraph_break());
    s
}

/// The file after appending each message in order to an empty file.
pub open spec fn file_of(messages: Seq<Seq<char>>) -> Seq<char>
    decreases messages.len(),
{
    if messages.len() == 0 {
        Seq::empty()
    } else {
        entry_text(messages[0]) + file_of(messages.drop_first())
    }
}

/// The messages of a file as inputs of the chain, without metadata.
pub fn messages_from_data_set(text: &str) -> (inputs: Vec<InputData>)
    ensures
        inputs@.len() == split_text(text@, paragraph_break()).len(),
        forall|k: int| 0 <= k < inputs@.len() ==> (#[trigger] inputs@[k]).text@ == split_text(text@, paragraph_break())[k]
            && inputs@[k].meta is None,
{
    let pieces = split_paragraphs(text);
    let mut inputs: Vec<InputData> = Vec::new();
    let mut i: usize = 0;
    while i < pieces.len()
        invariant
            i <= pieces@.len(),
            texts(pieces@) == split_text(text@, paragraph_break()),
            inputs@.len() == i,
            forall|k: int| 0 <= k < i ==> (#[trigger] inputs@[k]).text@ == pieces@[k]@ && inputs@[k].meta is None,
        decreases pieces@.len() - i,
    {
        inputs.push(InputData { text: pieces[i].clone(), meta: None });
        i = i + 1;
    }
    proof {
        assert forall|k: int| 0 <= k < inputs@.len() implies (#[trigger] inputs@[k]).text@ == split_text(text@, paragraph_break())[k] by {
            assert(texts(pieces@)[k] == pieces@[k]@);
        }
    }
    inputs
}

/// Scanning `p + t` past `p` is scanning `t`.
proof fn lemma_split_shift(p: Seq<char>, t: Seq<char>, sep: Seq<char>, a: int, b: int)
    requires
        sep.len() > 0,
        0 <= a <= b <= t.len(),
    ensures
        split_from(p + t, sep, p.len() + a, p.len() + b) == split_from(t, sep, a, b),
    decreases t.len() - b,
{
    let s = p + t;
    let k = p.len() as int;
    assert(s.subrange(k + a, s.len() as int) =~= t.subrange(a, t.len() as int));
    if b + sep.len() <= t.len() {
        assert(s.subrange(k + b, k + b + sep.len()) =~= t.subrange(b, b + sep.len()));
        assert(s.subrange(k + a, k + b) =~= t.subrange(a, b));
        if t.subrange(b, b + sep.len()) == sep {
            lemma_split_shift(p, t, sep, b + sep.len(), b + sep.len());
        } else {
            lemma_split_shift(p, t, sep, a, b + 1);
        }
    }
}

/// Scanning a message without line breaks followed by a break splits it off whole.
proof fn lemma_split_entry(e: Seq<char>, rest: Seq<char>, j: int)
    requires
        forall|k: int| 0 <= k < e.len() ==> e[k] != '\n',
        0 <= j <= e.len(),
    ensures
        split_from(e + paragraph_break() + rest, paragraph_break(), 0, j)
            == seq![e] + split_from(e + paragraph_break() + rest, paragraph_break(), e.len() + 2int, e.len() + 2int),
    decreases e.len() - j,
{
    let sep = paragraph_break();
    let s = e + sep + rest;
    if j < e.len() {
        assert(s[j] == e[j]);
        assert(s.subrange(j, j + 2)[0] == s[j]);
        assert(s.subrange(j, j + 2) != sep);
        lemma_split_entry(e, rest, j + 1);
    } else {
        assert(s.subrange(j, j + 2) =~= sep);
        assert(s.subrange(0, j) =~= e);
    }
}

/// What a read gives back of the writes: appending messages without line breaks to an empty
/// file and splitting it into paragraphs gives the messages back, in order, followed by the
/// empty piece after the last break.
pub proof fn law_read_back_saved_messages(messages: Seq<Seq<char>>)
    requires
        forall|i: int, k: int| 0 <= i < messages.len() && 0 <= k < messages[i].len() ==> messages[i][k] != '\n',
    ensures
        split_text(file_of(messages), paragraph_break()) == messages.push(Seq::<char>::empty()),
    decreases messages.len(),
{
    let sep = paragraph_break();
    if messages.len() == 0 {
        assert(file_of(messages) == Seq::<char>::empty());
        assert(Seq::<char>::empty().subrange(0, 0) =~= Seq::<char>::empty());
        assert(split_text(Seq::<char>::empty(), sep) =~= seq![Seq::<char>::empty()]);
        assert(messages.push(Seq::<char>::empty()) =~= seq![Seq::<char>::empty()]);
    } else {
        let e = messages[0];
        let rest = messages.drop_first();
        assert forall|i: int, k: int| 0 <= i < rest.len() && 0 <= k < rest[i].len() implies rest[i][k] != '\n' by {
            assert(rest[i] == messages[i + 1]);
        }
        law_read_back_saved_messages(rest);
        let r = file_of(rest);
        assert(file_of(messages) == e + sep + r);
        lemma_split_entry(e, r, 0);
        lemma_split_shift(e + sep, r, sep, 0, 0);
        assert((e + sep).len() == e.len() + 2);
        assert(messages.push(Seq::<char>::empty()) =~= seq![e] + rest.push(Seq::<char>::empty()));
    }
}

} // verus!
