//! The song queue of a voice call: its pages as the bot shows them, and the ways commands and
//! buttons reorder it. The first track of a queue is the one playing.
use vstd::prelude::*;

use crate::commands::{text_eq, ComponentIds};
use crate::numbers::{decimal, format_u64, parse_i64, parse_i64_spec, law_parse_decimal, law_decimal_round_trip, is_digit};
use crate::random::shuffle_vec;
use crate::text::{chars_of, push_char, split_words, texts, words_of, join_words, join_with, lemma_split_join};

verus! {

broadcast use vstd::seq_lib::group_to_multiset_ensures;

// ---------------------------------------------------------------------------------------------
// Pages

/// The text of a queue message starts with `"Page "` and a number, and the start the number
/// stands for can be computed without overflow: the number 1 stands for start 1, a number
/// `n` above 1 for start `10 n - 10`.
pub open spec fn queue_start_ok(content: Seq<char>) -> bool {
    let w = words_of(content);
    &&& w.len() >= 2
    &&& match parse_i64_spec(w[1]) {
        Some(n) => n == 1 || (1 <= n && n * 10 <= i64::MAX && n * 10 - 10 <= usize::MAX),
        None => false,
    }
}

/// The start (1-based position of the first song shown) of the page a queue message shows.
pub open spec fn queue_start_value(content: Seq<char>) -> int {
    let n = parse_i64_spec(words_of(content)[1])->0;
    if n == 1 {
        1
    } else {
        n * 10 - 10
    }
}

/// The start of the page a queue message shows, or `None` for a text that is not such a message.
pub fn try_get_queue_start(message_content: &str) -> (r: Option<usize>)
    ensures
        r is Some <==> queue_start_ok(message_content@),
        r matches Some(s) ==> s == queue_start_value(message_content@),
{
    let words = split_words(message_content);
    if words.len() < 2 {
        return None;
    }
    assert(texts(words@)[1] == words@[1]@);
    match parse_i64(words[1].as_str()) {
        None => None,
        Some(n) => {
            if n == 1 {
                Some(1)
            } else if n < 1 || n > i64::MAX / 10 {
                None
            } else {
                let m: i64 = n * 10 - 10;
                if (m as u64) > (usize::MAX as u64) {
                    None
                } else {
                    Some(m as usize)
                }
            }
        },
    }
}

/// The start of the page a queue message shows: `"Page 1"` gives 1, `"Page n"` gives `10 n - 10`.
pub fn get_queue_start(message_content: &str) -> (r: usize)
    requires
        queue_start_ok(message_content@),
    ensures
        r == queue_start_value(message_content@),
{
    match try_get_queue_start(message_content) {
        Some(s) => s,
        None => 1,
    }
}

/// The start of the page a queue message shows (the same reading as `get_queue_start`).
pub fn get_queue_start_from_queue_message(message_content: &str) -> (r: usize)
    requires
        queue_start_ok(message_content@),
    ensures
        r == queue_start_value(message_content@),
{
    get_queue_start(message_content)
}

/// The page number shown for a start.
pub open spec fn page_number(queue_start: nat) -> nat {
    queue_start / 10 + 1
}

/// The text of a queue message for a start: `"Page "` and the page number.
pub open spec fn page_text(queue_start: nat) -> Seq<char> {
    "Page "@ + decimal(page_number(queue_start))
}

/// The text of a queue message for a start.
pub fn format_page(queue_start: usize) -> (s: String)
    ensures
        s@ == page_text(queue_start as nat),
{
    let page: u64 = (queue_start / 10) as u64 + 1;
    "Page ".to_string().concat(format_u64(page).as_str())
}

/// Reading back the text of a queue message gives a start on the same page.
pub proof fn law_page_round_trip(queue_start: nat)
    requires
        queue_start <= 9_000_000_000_000_000,
        queue_start <= usize::MAX,
    ensures
        queue_start_ok(page_text(queue_start)),
        page_number(queue_start_value(page_text(queue_start)) as nat) == page_number(queue_start),
{
    let p = page_number(queue_start);
    let d = decimal(p);
    law_decimal_round_trip(p);
    law_parse_decimal(p);
    reveal_strlit("Page ");
    reveal_strlit("Page");
    let ws = seq!["Page"@, d];
    assert forall|i: int, j: int| 0 <= i < ws.len() && 0 <= j < ws[i].len() implies ws[i][j] != ' ' by {
        if i == 1 {
            assert(is_digit(d[j]));
        }
    }
    lemma_split_join(ws, ' ');
    assert(join_words(ws) =~= page_text(queue_start)) by {
        assert(ws.drop_last() =~= seq!["Page"@]);
        assert(join_with(ws.drop_last(), ' ') == "Page"@);
        assert(ws.last() == d);
        assert(join_with(ws, ' ') == join_with(ws.drop_last(), ' ').push(' ') + ws.last());
        assert("Page "@ =~= "Page"@.push(' '));
    }
    assert(words_of(page_text(queue_start)) == ws);
    assert(ws[1] == d);
}

/// `a - b`, or 0 when `b` is larger.
pub open spec fn sat_sub(a: int, b: int) -> int {
    if a >= b { a - b } else { 0 }
}

/// The start after pressing a page button on a queue message that shows `queue_start`, for a
/// queue of `queue_len` songs.
pub open spec fn start_after_button(queue_start: int, button: ComponentIds, queue_len: int) -> int {
    match button {
        ComponentIds::QueueNext => if queue_start + 10 <= queue_len { queue_start + 10 } else { queue_start },
        ComponentIds::QueuePrevious => if queue_start <= 10 { 1 } else { queue_start - 10 },
        ComponentIds::QueueStart => 1,
        _ => {
            let e = queue_len - queue_len % 10;
            if e >= 1 { e } else { 1 }
        },
    }
}

/// A button that moves between pages of the queue.
pub open spec fn is_page_button(b: ComponentIds) -> bool {
    b is QueueNext || b is QueuePrevious || b is QueueStart || b is QueueEnd
}

/// The page buttons move between pages of the queue message: for a message showing page `p`,
/// Previous shows page `p - 1` (page 1 stays on page 1), Next shows page `p + 1` when the
/// queue reaches that far (else page `p` again), and Start shows page 1.
pub proof fn law_page_buttons_move_one_page(content: Seq<char>, queue_len: int)
    requires
        queue_start_ok(content),
        queue_len >= 0,
    ensures
        ({
            let p = parse_i64_spec(words_of(content)[1])->0;
            let start = queue_start_value(content);
            &&& page_number(start as nat) == p
            &&& p >= 2 ==> page_number(start_after_button(start, ComponentIds::QueuePrevious, queue_len) as nat) == p - 1
            &&& p == 1 ==> page_number(start_after_button(start, ComponentIds::QueuePrevious, queue_len) as nat) == 1
            &&& start + 10 <= queue_len ==> page_number(start_after_button(start, ComponentIds::QueueNext, queue_len) as nat) == p + 1
            &&& start + 10 > queue_len ==> page_number(start_after_button(start, ComponentIds::QueueNext, queue_len) as nat) == p
            &&& page_number(start_after_button(start, ComponentIds::QueueStart, queue_len) as nat) == 1
        }),
{
    let p = parse_i64_spec(words_of(content)[1])->0;
    let start = queue_start_value(content);
    if p == 1 {
        assert(start == 1);
        assert(page_number(1) == 1);
        assert(page_number(11) == 2);
    } else {
        let pi = p as int;
        assert(start == 10 * pi - 10);
        assert((10 * pi - 10) / 10 == pi - 1) by (nonlinear_arith) requires pi >= 2;
        assert((10 * pi - 20) / 10 == pi - 2) by (nonlinear_arith) requires pi >= 2;
        assert((10 * pi) / 10 == pi) by (nonlinear_arith) requires pi >= 2;
        if pi == 2 {
            assert(page_number(1) == 1);
        }
    }
}

/// The start of the page to show after a page button was pressed on a queue message.
pub fn get_queue_start_from_button(message_content: &str, button_id: ComponentIds, queue_len: usize) -> (r: usize)
    requires
        queue_start_ok(message_content@),
        is_page_button(button_id),
        button_id is QueueNext ==> queue_start_value(message_content@) + 10 <= usize::MAX,
    ensures
        r == start_after_button(queue_start_value(message_content@), button_id, queue_len as int),
{
    let queue_start = get_queue_start_from_queue_message(message_content);
    match button_id {
        ComponentIds::QueueNext => {
            if queue_start + 10 <= queue_len {
                queue_start + 10
            } else {
                queue_start
            }
        },
        ComponentIds::QueuePrevious => {
            if queue_start <= 10 {
                1
            } else {
                queue_start - 10
            }
        },
        ComponentIds::QueueStart => 1,
        _ => {
            let e = queue_len - queue_len % 10;
            if e >= 1 { e } else { 1 }
        },
    }
}

/// The start to show after the queue changed: a start past the end of the queue moves to the
/// start of its last full block of ten songs before the end, and at least 1.
pub open spec fn clamped_start(queue_start: int, queue_len: int) -> int {
    if queue_start > queue_len {
        let s = sat_sub(sat_sub(queue_len, 10), queue_len % 10);
        if s >= 1 { s } else { 1 }
    } else {
        queue_start
    }
}

/// The start of the queue message after the queue changed.
pub fn clamp_queue_start(queue_start: usize, queue_len: usize) -> (r: usize)
    ensures
        r == clamped_start(queue_start as int, queue_len as int),
{
    if queue_start > queue_len {
        let s = queue_len.saturating_sub(10).saturating_sub(queue_len % 10);
        if s >= 1 { s } else { 1 }
    } else {
        queue_start
    }
}

/// The first queue index offered by the menus under a queue message.
pub open spec fn menu_first(queue_start: int) -> int {
    if queue_start - 1 >= 1 { queue_start - 1 } else { 1 }
}

/// One past the last queue index offered by the menus: nine songs on the first page, ten on
/// the others, and none past the end of the queue.
pub open spec fn menu_end(queue_start: int, queue_len: int) -> int {
    let f = menu_first(queue_start);
    let n = if f == 1 { 9int } else { 10int };
    if f + n <= queue_len { f + n } else { queue_len }
}

/// The first 100 characters of a text.
pub open spec fn first_chars(s: Seq<char>, n: nat) -> Seq<char> {
    if s.len() <= n { s } else { s.take(n as int) }
}

/// The options of the menus under a queue message: for each offered index, the first 100
/// characters of its song's heading and the index in decimal; a single placeholder when the
/// queue offers none.
pub open spec fn menu_options(headings: Seq<Seq<char>>, queue_start: int) -> Seq<(Seq<char>, Seq<char>)> {
    let f = menu_first(queue_start);
    let e = menu_end(queue_start, headings.len() as int);
    if e <= f {
        seq![("Queue isn't big enough"@, "-1"@)]
    } else {
        Seq::new((e - f) as nat, |k: int| (first_chars(headings[f + k], 100), decimal((f + k) as nat)))
    }
}

/// The first `n` characters of `s`: `s.chars().take(n).collect()`.
pub fn take_chars(s: &str, n: usize) -> (r: String)
    ensures
        r@ == first_chars(s@, n as nat),
{
    let c = chars_of(s);
    let m = if c.len() <= n { c.len() } else { n };
    let mut r = String::new();
    let mut i: usize = 0;
    while i < m
        invariant
            i <= m <= c@.len(),
            r@ == c@.take(i as int),
        decreases m - i,
    {
        push_char(&mut r, c[i]);
        assert(r@ =~= c@.take(i + 1));
        i = i + 1;
    }
    assert(c@.take(m as int) =~= first_chars(s@, n as nat));
    r
}

/// The options of the "bring to front" and "play now" menus under a queue message, given the
/// heading of each song of the queue.
pub fn select_menu_options(headings: &[String], queue_start: usize) -> (opts: Vec<(String, String)>)
    requires
        queue_start >= 1,
        queue_start + 10 <= usize::MAX,
    ensures
        opts@.len() == menu_options(texts(headings@), queue_start as int).len(),
        forall|k: int| 0 <= k < opts@.len() ==> (#[trigger] opts@[k]).0@ == menu_options(texts(headings@), queue_start as int)[k].0
            && opts@[k].1@ == menu_options(texts(headings@), queue_start as int)[k].1,
{
    let ghost hs = texts(headings@);
    let first: usize = if queue_start - 1 >= 1 { queue_start - 1 } else { 1 };
    let n: usize = if first == 1 { 9 } else { 10 };
    let end: usize = if first + n <= headings.len() { first + n } else { headings.len() };
    let mut opts: Vec<(String, String)> = Vec::new();
    if end <= first {
        opts.push(("Queue isn't big enough".to_string(), "-1".to_string()));
        return opts;
    }
    let ghost want = menu_options(hs, queue_start as int);
    let mut i: usize = first;
    while i < end
        invariant
            first <= i <= end <= headings@.len(),
            first == menu_first(queue_start as int),
            end == menu_end(queue_start as int, hs.len() as int),
            end > first,
            hs == texts(headings@),
            want == menu_options(hs, queue_start as int),
            opts@.len() == i - first,
            forall|k: int| 0 <= k < opts@.len() ==> (#[trigger] opts@[k]).0@ == want[k].0 && opts@[k].1@ == want[k].1,
        decreases end - i,
    {
        let label = take_chars(headings[i].as_str(), 100);
        let value = format_u64(i as u64);
        assert(hs[i as int] == headings@[i as int]@);
        opts.push((label, value));
        i = i + 1;
    }
    opts
}

// ---------------------------------------------------------------------------------------------
// Reordering

/// The songs of a call, the one playing first.
pub struct SongQueue<T> {
    pub tracks: Vec<T>,
}

/// Why two songs could not be swapped.
#[derive(Debug, Clone, Copy, PartialEq, Eq, Structural)]
pub enum SwapableError {
    IndexOutOfBounds,
    NothingIsPlaying,
    CannotSwapSameSong,
}

impl SwapableError {
    /// The error's description.
    pub fn message(&self) -> (s: String)
        ensures
            *self is IndexOutOfBounds ==> s@ == "Requested song that wasn't in the queue"@,
            *self is NothingIsPlaying ==> s@ == "Can't swap any songs if the queue is empty"@,
            *self is CannotSwapSameSong ==> s@ == "Can't swap a song with itself"@,
    {
        match self {
            SwapableError::IndexOutOfBounds => "Requested song that wasn't in the queue".to_string(),
            SwapableError::NothingIsPlaying => "Can't swap any songs if the queue is empty".to_string(),
            SwapableError::CannotSwapSameSong => "Can't swap a song with itself".to_string(),
        }
    }
}

/// Something whose songs can be swapped by their 1-based positions.
pub trait Swapable {
    fn swap(&mut self, first_track_pos: usize, second_track_pos: usize) -> Result<(), SwapableError>;
}

/// The positions a swap of `a` and `b` works on: the smaller of the two, then the larger.
pub open spec fn swap_positions(a: int, b: int) -> (int, int) {
    if a <= b { (a, b) } else { (b, a) }
}

/// The outcome of swapping positions `a` and `b` of a queue of `len` songs.
pub open spec fn swap_outcome(len: int, a: int, b: int) -> Result<(), SwapableError> {
    let (first, second) = swap_positions(a, b);
    if len == 0 {
        Err(SwapableError::NothingIsPlaying)
    } else if len < first || len < second || first < 1 || second < 1 {
        Err(SwapableError::IndexOutOfBounds)
    } else if first == second {
        Err(SwapableError::CannotSwapSameSong)
    } else {
        Ok(())
    }
}

/// `s` with the items at `i` and `j` exchanged.
pub open spec fn swapped<T>(s: Seq<T>, i: int, j: int) -> Seq<T> {
    s.update(i, s[j]).update(j, s[i])
}

/// Whether a successful swap of `a` and `b` moves the song that is playing, so that it must be
/// paused and rewound and the song taking its place started.
pub fn swap_restarts_current(a: usize, b: usize) -> (r: bool)
    ensures
        r == (swap_positions(a as int, b as int).0 == 1),
{
    let first = if a <= b { a } else { b };
    first == 1
}

impl<T> Swapable for SongQueue<T> {
    fn swap(&mut self, first_track_pos: usize, second_track_pos: usize) -> (r: Result<(), SwapableError>)
        ensures
            r == swap_outcome(old(self).tracks@.len() as int, first_track_pos as int, second_track_pos as int),
            r is Err ==> final(self).tracks@ == old(self).tracks@,
            r is Ok ==> final(self).tracks@ == swapped(old(self).tracks@,
                swap_positions(first_track_pos as int, second_track_pos as int).0 - 1,
                swap_positions(first_track_pos as int, second_track_pos as int).1 - 1),
    {
        let first = if first_track_pos <= second_track_pos { first_track_pos } else { second_track_pos };
        let second = if first_track_pos <= second_track_pos { second_track_pos } else { first_track_pos };
        let len = self.tracks.len();
        if len == 0 {
            return Err(SwapableError::NothingIsPlaying);
        }
        if len < first || len < second || first < 1 || second < 1 {
            return Err(SwapableError::IndexOutOfBounds);
        }
        if first == second {
            return Err(SwapableError::CannotSwapSameSong);
        }
        let i = first - 1;
        let j = second - 1;
        let ghost before = self.tracks@;
        let b = self.tracks.remove(j);
        let a = self.tracks.remove(i);
        self.tracks.insert(i, b);
        self.tracks.insert(j, a);
        assert(self.tracks@ =~= swapped(before, i as int, j as int));
        Ok(())
    }
}

/// Swapping the same two songs twice gives back the queue.
pub proof fn law_swap_twice<T>(s: Seq<T>, i: int, j: int)
    requires
        0 <= i < s.len(),
        0 <= j < s.len(),
    ensures
        swapped(swapped(s, i, j), i, j) == s,
{
    assert(swapped(swapped(s, i, j), i, j) =~= s);
}

/// Bringing a song to the front or playing it now only moves it: the queue holds the same
/// songs, each as often as before.
pub proof fn law_reorders_keep_songs<T>(s: Seq<T>, i: int)
    requires
        0 <= i < s.len(),
        s.len() >= 2,
    ensures
        s.remove(i).insert(1, s[i]).to_multiset() == s.to_multiset(),
        (seq![s[i]] + s.remove(i)).to_multiset() == s.to_multiset(),
{
    let r = s.remove(i);
    assert(r.to_multiset() =~= s.to_multiset().remove(s[i]));
    assert(r.insert(1, s[i]).to_multiset() =~= r.to_multiset().insert(s[i])) by {
        r.insert(1, s[i]).to_multiset_ensures();
        assert(r.insert(1, s[i]).remove(1) =~= r);
    }
    assert(s.to_multiset().count(s[i]) > 0) by {
        assert(s.contains(s[i]));
    }
    assert(s.to_multiset().remove(s[i]).insert(s[i]) =~= s.to_multiset());
    let p = seq![s[i]] + r;
    assert(p.to_multiset() =~= r.to_multiset().insert(s[i])) by {
        p.to_multiset_ensures();
        assert(p.remove(0) =~= r);
    }
}

/// Brings the song at `index` to the second place, right after the one playing, as the
/// "bring to front" button and menu do.
pub fn bring_to_front<T>(queue: &mut SongQueue<T>, index: usize)
    requires
        index < old(queue).tracks@.len(),
        old(queue).tracks@.len() >= 2,
    ensures
        final(queue).tracks@ == old(queue).tracks@.remove(index as int).insert(1, old(queue).tracks@[index as int]),
{
    let song = queue.tracks.remove(index);
    queue.tracks.insert(1, song);
}

/// Plays the song at `index` now: it moves to the front of the queue, the others keep their
/// order; an empty queue stays as it is.
pub fn play_now<T>(queue: &mut SongQueue<T>, index: usize)
    requires
        old(queue).tracks@.len() > 0 ==> index < old(queue).tracks@.len(),
    ensures
        old(queue).tracks@.len() == 0 ==> final(queue).tracks@ == old(queue).tracks@,
        old(queue).tracks@.len() > 0 ==> final(queue).tracks@ == seq![old(queue).tracks@[index as int]] + old(queue).tracks@.remove(index as int),
{
    if queue.tracks.len() == 0 {
        return;
    }
    let ghost before = queue.tracks@;
    let song = queue.tracks.remove(index);
    queue.tracks.insert(0, song);
    assert(queue.tracks@ =~= seq![before[index as int]] + before.remove(index as int));
}

/// Plays the song just queued at the back now: it moves to the front when other songs are
/// queued, the others keeping their order.
pub fn play_last_now<T>(queue: &mut SongQueue<T>)
    ensures
        old(queue).tracks@.len() <= 1 ==> final(queue).tracks@ == old(queue).tracks@,
        old(queue).tracks@.len() > 1 ==> final(queue).tracks@ == seq![old(queue).tracks@.last()] + old(queue).tracks@.drop_last(),
{
    if queue.tracks.len() <= 1 {
        return;
    }
    let ghost before = queue.tracks@;
    let song = queue.tracks.pop().unwrap();
    queue.tracks.insert(0, song);
    assert(queue.tracks@ =~= seq![before.last()] + before.drop_last());
}

/// The position of the first song whose title is `title`.
pub fn position_of_title(titles: &[String], title: &String) -> (r: Option<usize>)
    ensures
        r matches Some(i) ==> i < titles@.len() && titles@[i as int]@ == title@
            && forall|k: int| 0 <= k < i ==> titles@[k]@ != title@,
        r is None ==> forall|k: int| 0 <= k < titles@.len() ==> titles@[k]@ != title@,
{
    let mut i: usize = 0;
    while i < titles.len()
        invariant
            i <= titles@.len(),
            forall|k: int| 0 <= k < i ==> titles@[k]@ != title@,
        decreases titles@.len() - i,
    {
        if titles[i] == *title {
            return Some(i);
        }
        i = i + 1;
    }
    None
}

/// A sequence read backwards holds the same items, each as often.
pub proof fn lemma_reverse_multiset<A>(s: Seq<A>)
    ensures
        s.reverse().to_multiset() == s.to_multiset(),
    decreases s.len(),
{
    if s.len() > 0 {
        let d = s.drop_last();
        lemma_reverse_multiset(d);
        assert(s.reverse() =~= seq![s.last()] + d.reverse());
        assert(s =~= d + seq![s.last()]);
        vstd::seq_lib::lemma_multiset_commutative(seq![s.last()], d.reverse());
        vstd::seq_lib::lemma_multiset_commutative(d, seq![s.last()]);
        assert(seq![s.last()].to_multiset().add(d.to_multiset()) =~= d.to_multiset().add(seq![s.last()].to_multiset()));
    } else {
        assert(s.reverse() =~= s);
    }
}

/// Takes every song but the one playing off the queue, the last first, as the bot does before
/// it shuffles them: the queue keeps only its first song, and the songs taken come back in
/// reverse order.
pub fn take_after_current<T>(queue: &mut SongQueue<T>) -> (rest: Vec<T>)
    requires
        old(queue).tracks@.len() >= 1,
    ensures
        final(queue).tracks@ == seq![old(queue).tracks@[0]],
        rest@ == old(queue).tracks@.subrange(1, old(queue).tracks@.len() as int).reverse(),
{
    let ghost before = queue.tracks@;
    let mut rest: Vec<T> = Vec::new();
    assert(before.subrange(before.len() as int, before.len() as int).reverse() =~= rest@);
    assert(before.subrange(0, before.len() as int) =~= before);
    while queue.tracks.len() > 1
        invariant
            1 <= queue.tracks@.len() <= before.len(),
            queue.tracks@ == before.subrange(0, queue.tracks@.len() as int),
            rest@ == before.subrange(queue.tracks@.len() as int, before.len() as int).reverse(),
        decreases queue.tracks@.len(),
    {
        let ghost n = queue.tracks@.len() as int;
        let last = queue.tracks.pop().unwrap();
        rest.push(last);
        assert(queue.tracks@ =~= before.subrange(0, n - 1));
        assert(rest@ =~= before.subrange(n - 1, before.len() as int).reverse());
    }
    assert(queue.tracks@ =~= seq![before[0]]);
    rest
}

/// Puts shuffled songs back after the queue's songs, the last of them first, as the bot does
/// after it shuffled them.
pub fn refill_after_shuffle<T>(queue: &mut SongQueue<T>, shuffled: Vec<T>)
    ensures
        final(queue).tracks@ == old(queue).tracks@ + shuffled@.reverse(),
{
    let ghost before = queue.tracks@;
    let ghost all = shuffled@;
    let mut shuffled = shuffled;
    assert(all.subrange(all.len() as int, all.len() as int).reverse() =~= Seq::<T>::empty());
    assert(before + Seq::<T>::empty() =~= before);
    assert(all.subrange(0, all.len() as int) =~= all);
    while shuffled.len() > 0
        invariant
            shuffled@.len() <= all.len(),
            shuffled@ == all.subrange(0, shuffled@.len() as int),
            queue.tracks@ == before + all.subrange(shuffled@.len() as int, all.len() as int).reverse(),
        decreases shuffled@.len(),
    {
        let ghost k = shuffled@.len() as int;
        let item = shuffled.pop().unwrap();
        queue.tracks.push(item);
        assert(shuffled@ =~= all.subrange(0, k - 1));
        assert(all.subrange(k - 1, all.len() as int).reverse() =~= all.subrange(k, all.len() as int).reverse().push(item));
        assert(queue.tracks@ =~= before + all.subrange(k - 1, all.len() as int).reverse());
    }
    assert(all.subrange(0, all.len() as int).reverse() =~= all.reverse());
}

/// Shuffles every song but the one playing: takes them off the queue (`take_after_current`),
/// shuffles them with `shuffle_vec`, and puts them back (`refill_after_shuffle`). Whatever order
/// the shuffle gives, the queue keeps its first song, followed by the others in some order.
pub fn shuffle_queue<T>(queue: &mut SongQueue<T>)
    ensures
        final(queue).tracks@.len() == old(queue).tracks@.len(),
        old(queue).tracks@.len() > 0 ==> final(queue).tracks@[0] == old(queue).tracks@[0],
        final(queue).tracks@.to_multiset() == old(queue).tracks@.to_multiset(),
        old(queue).tracks@.len() > 1 ==> exists|s: Seq<T>|
            s.to_multiset() == old(queue).tracks@.subrange(1, old(queue).tracks@.len() as int).to_multiset()
            && #[trigger] final(queue).tracks@ == seq![old(queue).tracks@[0]] + s.reverse(),
{
    let ghost before = queue.tracks@;
    if queue.tracks.len() <= 1 {
        return;
    }
    let mut rest = take_after_current(queue);
    let ghost taken = rest@;
    shuffle_vec(&mut rest);
    let ghost s = rest@;
    refill_after_shuffle(queue, rest);
    proof {
        let tail = before.subrange(1, before.len() as int);
        lemma_reverse_multiset(tail);
        lemma_reverse_multiset(s);
        assert(s.to_multiset() == tail.to_multiset());
        assert(before =~= seq![before[0]] + tail);
        vstd::seq_lib::lemma_multiset_commutative(seq![before[0]], tail);
        vstd::seq_lib::lemma_multiset_commutative(seq![before[0]], s.reverse());
        assert(queue.tracks@ == seq![before[0]] + s.reverse());
    }
}

/// The shuffle command in a server: without a call the bot only says the user must be in a
/// voice channel and nothing changes; with one it shuffles the call's queue (all but the song
/// playing), records that the server's queue was shuffled, and says so.
pub fn shuffle_command<T>(in_call: bool, queue: &mut SongQueue<T>, data: &mut QueueData, guild_id: u64) -> (reply: String)
    ensures
        !in_call ==> reply@ == "You must be in a voice channel to use that command!"@
            && final(queue).tracks@ == old(queue).tracks@
            && final(data).shuffled_map() == old(data).shuffled_map(),
        in_call ==> reply@ == "Shuffled the queue"@
            && final(queue).tracks@.len() == old(queue).tracks@.len()
            && (old(queue).tracks@.len() > 0 ==> final(queue).tracks@[0] == old(queue).tracks@[0])
            && final(queue).tracks@.to_multiset() == old(queue).tracks@.to_multiset()
            && (old(queue).tracks@.len() > 1 ==> exists|s: Seq<T>|
                s.to_multiset() == old(queue).tracks@.subrange(1, old(queue).tracks@.len() as int).to_multiset()
                && #[trigger] final(queue).tracks@ == seq![old(queue).tracks@[0]] + s.reverse())
            && final(data).shuffled_map() == old(data).shuffled_map().insert(guild_id, true),
        final(data).filling_map() == old(data).filling_map(),
        final(data).pending_map() == old(data).pending_map(),
{
    if !in_call {
        return "You must be in a voice channel to use that command!".to_string();
    }
    shuffle_queue(queue);
    data.mark_shuffled(guild_id);
    "Shuffled the queue".to_string()
}

// ---------------------------------------------------------------------------------------------
// Per-server state of the queues

/// What the bot keeps about the queue of each server: whether a playlist is being added to it,
/// whether it was shuffled, and a skip waiting for the playlist.
pub struct QueueData {
    filling: Vec<(u64, bool)>,
    shuffled: Vec<(u64, bool)>,
    pending: Vec<(u64, PendingSkip)>,
}

/// The entries of a list of pairs as a map, later entries winning.
pub open spec fn pairs_map<V>(v: Seq<(u64, V)>) -> Map<u64, V>
    decreases v.len(),
{
    if v.len() == 0 {
        Map::empty()
    } else {
        pairs_map(v.drop_last()).insert(v.last().0, v.last().1)
    }
}

pub(crate) fn pairs_get<V: Copy>(v: &Vec<(u64, V)>, key: u64) -> (r: Option<V>)
    ensures
        r matches Some(x) ==> pairs_map(v@).contains_key(key) && pairs_map(v@)[key] == x,
        r is None ==> !pairs_map(v@).contains_key(key),
{
    let mut i: usize = v.len();
    assert(v@.take(i as int) =~= v@);
    while i > 0
        invariant
            i <= v@.len(),
            forall|k: int| i <= k < v@.len() ==> (#[trigger] v@[k]).0 != key,
            pairs_map(v@).contains_key(key) == pairs_map(v@.take(i as int)).contains_key(key),
            pairs_map(v@).contains_key(key) ==> pairs_map(v@)[key] == pairs_map(v@.take(i as int))[key],
        decreases i,
    {
        assert(v@.take(i as int).drop_last() =~= v@.take(i - 1));
        assert(v@.take(i as int).last() == v@[i - 1]);
        if v[i - 1].0 == key {
            return Some(v[i - 1].1);
        }
        i = i - 1;
    }
    assert(v@.take(0) =~= Seq::<(u64, V)>::empty());
    None
}

impl QueueData {
    /// Whether a playlist is being added to a server's queue, by server.
    pub closed spec fn filling_map(&self) -> Map<u64, bool> {
        pairs_map(self.filling@)
    }

    /// Whether a server's queue was shuffled, by server.
    pub closed spec fn shuffled_map(&self) -> Map<u64, bool> {
        pairs_map(self.shuffled@)
    }

    /// The skip waiting for the playlist of a server, by server.
    pub closed spec fn pending_map(&self) -> Map<u64, PendingSkip> {
        pairs_map(self.pending@)
    }

    /// Nothing known of any server yet.
    pub fn new() -> (d: QueueData)
        ensures
            d.filling_map() == Map::<u64, bool>::empty(),
            d.shuffled_map() == Map::<u64, bool>::empty(),
            d.pending_map() == Map::<u64, PendingSkip>::empty(),
    {
        QueueData { filling: Vec::new(), shuffled: Vec::new(), pending: Vec::new() }
    }

    /// Whether a playlist is being added to the server's queue (no when nothing is recorded).
    pub fn is_filling(&self, guild_id: u64) -> (b: bool)
        ensures
            b == (self.filling_map().contains_key(guild_id) && self.filling_map()[guild_id]),
    {
        match pairs_get(&self.filling, guild_id) {
            Some(b) => b,
            None => false,
        }
    }

    /// A playlist starts being added to the server's queue.
    pub fn start_filling(&mut self, guild_id: u64)
        ensures
            final(self).filling_map() == old(self).filling_map().insert(guild_id, true),
            final(self).shuffled_map() == old(self).shuffled_map(),
            final(self).pending_map() == old(self).pending_map(),
    {
        let ghost before = self.filling@;
        self.filling.push((guild_id, true));
        assert(self.filling@.drop_last() =~= before);
    }

    /// The bot stops: a playlist being added to the server's queue is no longer added (only
    /// a server with a record is changed).
    pub fn stop_filling(&mut self, guild_id: u64)
        ensures
            old(self).filling_map().contains_key(guild_id) ==> final(self).filling_map() == old(self).filling_map().insert(guild_id, false),
            !old(self).filling_map().contains_key(guild_id) ==> final(self).filling_map() == old(self).filling_map(),
            final(self).shuffled_map() == old(self).shuffled_map(),
            final(self).pending_map() == old(self).pending_map(),
    {
        if pairs_get(&self.filling, guild_id).is_some() {
            let ghost before = self.filling@;
            self.filling.push((guild_id, false));
            assert(self.filling@.drop_last() =~= before);
        }
    }

    /// The server's queue was shuffled.
    pub fn mark_shuffled(&mut self, guild_id: u64)
        ensures
            final(self).shuffled_map() == old(self).shuffled_map().insert(guild_id, true),
            final(self).filling_map() == old(self).filling_map(),
            final(self).pending_map() == old(self).pending_map(),
    {
        let ghost before = self.shuffled@;
        self.shuffled.push((guild_id, true));
        assert(self.shuffled@.drop_last() =~= before);
    }

    /// Keeps a skip for when the playlist of the server is added.
    pub fn defer_skip(&mut self, guild_id: u64, skip: PendingSkip)
        ensures
            final(self).pending_map() == old(self).pending_map().insert(guild_id, skip),
            final(self).filling_map() == old(self).filling_map(),
            final(self).shuffled_map() == old(self).shuffled_map(),
    {
        let ghost before = self.pending@;
        self.pending.push((guild_id, skip));
        assert(self.pending@.drop_last() =~= before);
    }

    /// The skip kept for the server, if any.
    pub fn pending_skip(&self, guild_id: u64) -> (r: Option<PendingSkip>)
        ensures
            r matches Some(p) ==> self.pending_map().contains_key(guild_id) && self.pending_map()[guild_id] == p,
            r is None ==> !self.pending_map().contains_key(guild_id),
    {
        pairs_get(&self.pending, guild_id)
    }
}

// ---------------------------------------------------------------------------------------------
// Skipping

/// How a number given to the skip command is read.
#[derive(Debug, Clone, Copy, PartialEq, Eq, Structural)]
pub enum SkipType {
    /// Skip the song with this number.
    Number,
    /// Skip every song before the one with this number.
    Until,
}

/// The skip type named by an option of the skip command: `"number"` or `"until"`.
pub fn skip_type_from_str(s: &str) -> (r: Option<SkipType>)
    ensures
        r == (if s@ == "number"@ { Some(SkipType::Number) } else if s@ == "until"@ { Some(SkipType::Until) } else { None }),
{
    if text_eq(s, "number") {
        Some(SkipType::Number)
    } else if text_eq(s, "until") {
        Some(SkipType::Until)
    } else {
        None
    }
}

/// Skips the song with number `track_number` (1 is the one playing): removes it and answers
/// whether there was such a song.
pub fn skip_number<T>(queue: &mut SongQueue<T>, track_number: i64) -> (ok: bool)
    requires
        track_number >= 1,
    ensures
        ok == (track_number == 1 || track_number - 1 < old(queue).tracks@.len()),
        track_number == 1 && old(queue).tracks@.len() > 0 ==> final(queue).tracks@ == old(queue).tracks@.drop_first(),
        track_number == 1 && old(queue).tracks@.len() == 0 ==> final(queue).tracks@ == old(queue).tracks@,
        track_number > 1 && ok ==> final(queue).tracks@ == old(queue).tracks@.remove(track_number - 1),
        !ok ==> final(queue).tracks@ == old(queue).tracks@,
{
    if track_number == 1 {
        if queue.tracks.len() > 0 {
            let ghost before = queue.tracks@;
            queue.tracks.remove(0);
            assert(queue.tracks@ =~= before.drop_first());
        }
        return true;
    }
    let index = track_number - 1;
    if (index as u64) < (queue.tracks.len() as u64) {
        queue.tracks.remove(index as usize);
        true
    } else {
        false
    }
}

/// Skips every song before the one with number `track_number`, which then plays: the songs
/// before it are dropped one by one from the front, then the one playing is skipped. When the
/// queue runs out first, every song is gone and the skip fails.
pub fn skip_until<T>(queue: &mut SongQueue<T>, track_number: i64) -> (ok: bool)
    requires
        track_number > i64::MIN,
    ensures
        ({
            let drops: int = if track_number >= 3 { track_number - 2 } else { 0 };
            let len = old(queue).tracks@.len() as int;
            &&& ok == (drops <= len)
            &&& ok ==> final(queue).tracks@ == old(queue).tracks@.skip(if drops + 1 <= len { drops + 1 } else { len })
            &&& !ok ==> final(queue).tracks@.len() == 0
        }),
{
    let ghost before = queue.tracks@;
    let drops: i64 = if track_number >= 3 { track_number - 2 } else { 0 };
    let mut done: i64 = 0;
    while done < drops
        invariant
            0 <= done <= drops,
            done <= before.len(),
            before == old(queue).tracks@,
            drops == (if track_number >= 3 { track_number - 2 } else { 0 }),
            queue.tracks@ == before.skip(done as int),
        decreases drops - done,
    {
        if queue.tracks.len() == 0 {
            assert(before.skip(done as int).len() == 0);
            return false;
        }
        let ghost q = queue.tracks@;
        queue.tracks.remove(0);
        assert(queue.tracks@ =~= before.skip(done + 1));
        done = done + 1;
    }
    if queue.tracks.len() > 0 {
        queue.tracks.remove(0);
        assert(queue.tracks@ =~= before.skip(drops + 1));
    } else {
        assert(drops == before.len());
    }
    true
}

/// The reply after a skip: how many songs are left, the skipped one counted.
pub fn skipped_title(queue_len: usize) -> (s: String)
    requires
        queue_len >= 1,
    ensures
        s@ == "Song skipped, "@ + decimal((queue_len - 1) as nat) + " left in queue."@,
{
    "Song skipped, ".to_string().concat(format_u64((queue_len - 1) as u64).as_str()).concat(" left in queue.")
}

/// A skip asked while a playlist is still being added, kept until the filling ends.
#[derive(Debug, Clone, Copy, PartialEq, Eq, Structural)]
pub struct PendingSkip {
    pub skip_type: SkipType,
    pub track_number: i64,
}

/// What came of a skip request.
#[derive(Debug, Clone, Copy, PartialEq, Eq, Structural)]
pub enum SkipOutcome {
    /// A playlist is being added: the skip is kept for when it is done.
    Deferred(PendingSkip),
    /// The songs were skipped.
    Skipped,
    /// There was no such song: the bot answers that it couldn't skip.
    Failed,
}

/// Carries out a skip request on a non-empty queue: the song playing when no number is given,
/// else by `skip_number` or `skip_until`; kept for later while a playlist is being added.
pub fn skip_songs<T>(queue: &mut SongQueue<T>, filling_queue: bool, request: Option<(SkipType, i64)>) -> (r: SkipOutcome)
    requires
        request matches Some((SkipType::Number, n)) ==> n >= 1,
        request matches Some((SkipType::Until, n)) ==> n > i64::MIN,
    ensures
        request is None ==> r == SkipOutcome::Skipped && (old(queue).tracks@.len() > 0 ==> final(queue).tracks@ == old(queue).tracks@.drop_first()),
        request matches Some((t, n)) ==> (filling_queue ==> r == SkipOutcome::Deferred(PendingSkip { skip_type: t, track_number: n })
            && final(queue).tracks@ == old(queue).tracks@),
        request matches Some((t, n)) ==> (!filling_queue ==> (r == SkipOutcome::Skipped || r == SkipOutcome::Failed)),
        request matches Some((t, n)) ==> (!filling_queue && t == SkipType::Number ==> ({
            let len = old(queue).tracks@.len();
            &&& (r == SkipOutcome::Skipped) == (n == 1 || n - 1 < len)
            &&& n == 1 && len > 0 ==> final(queue).tracks@ == old(queue).tracks@.drop_first()
            &&& n > 1 && n - 1 < len ==> final(queue).tracks@ == old(queue).tracks@.remove(n - 1)
            &&& n > 1 && n - 1 >= len ==> final(queue).tracks@ == old(queue).tracks@
        })),
        request matches Some((t, n)) ==> (!filling_queue && t == SkipType::Until ==> ({
            let drops: int = if n >= 3 { n - 2 } else { 0 };
            let len = old(queue).tracks@.len() as int;
            &&& (r == SkipOutcome::Skipped) == (drops <= len)
            &&& drops <= len ==> final(queue).tracks@ == old(queue).tracks@.skip(if drops + 1 <= len { drops + 1 } else { len })
            &&& drops > len ==> final(queue).tracks@.len() == 0
        })),
{
    match request {
        None => {
            if queue.tracks.len() > 0 {
                let ghost before = queue.tracks@;
                queue.tracks.remove(0);
                assert(queue.tracks@ =~= before.drop_first());
            }
            SkipOutcome::Skipped
        },
        Some((t, n)) => {
            if filling_queue {
                return SkipOutcome::Deferred(PendingSkip { skip_type: t, track_number: n });
            }
            let ok = match t {
                SkipType::Number => skip_number(queue, n),
                SkipType::Until => skip_until(queue, n),
            };
            if ok {
                SkipOutcome::Skipped
            } else {
                SkipOutcome::Failed
            }
        },
    }
}

} // verus!
