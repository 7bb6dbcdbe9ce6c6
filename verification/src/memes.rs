//! Memes: files filed under categories (tags), posted at random or, per server, in the order
//! they were saved, starting again from the first once all were posted.
use vstd::prelude::*;

use crate::numbers::{decimal, format_u64};
use crate::random::choose_index;
use crate::text::{lowercase, split_words, texts, to_lowercase, words_of};

use std::hash::{DefaultHasher, Hash, Hasher};

verus! {

/// Where a server is in a category's files when memes are posted in order.
pub struct MemeServerCategory {
    pub server_id: i64,
    pub category_id: i32,
    pub file_id: i32,
}

/// A saved meme file.
pub struct MemeFile {
    pub id: i32,
    pub folder: String,
    pub name: String,
    pub extension: String,
    pub hash: i64,
}

/// A meme file filed under a category.
pub struct MemeFileCategory {
    pub category_id: i32,
    pub file_id: i32,
}

/// A category of memes.
pub struct MemeCategory {
    pub id: i32,
    pub category: String,
}

/// How many files a category has.
pub struct CategoryCount {
    pub count: i64,
    pub category: String,
}

/// The folders memes are saved in, one per category a file was first saved under.
pub struct MemeFolders {
    pub folders: Vec<String>,
}

/// Feeds `bytes` into `state` as `Hash` does for a byte slice (`<[u8] as Hash>::hash`: the
/// length, then the bytes). Nothing is stated of the state afterwards: std does not document
/// how the length is written.
#[verifier::external_body]
fn hash_into(bytes: &[u8], state: &mut DefaultHasher) {
    bytes.hash(state);
}

/// The hash of a meme's bytes: a fresh `DefaultHasher`, the bytes hashed into it, and its
/// `finish` read as an `i64`. Nothing is stated of the value: std documents neither the
/// algorithm of `DefaultHasher` across releases nor that hashed data is the same across
/// platforms.
fn calculate_hash(bytes: &[u8]) -> i64 {
    let mut s = DefaultHasher::new();
    hash_into(bytes, &mut s);
    let h = s.finish();
    h as i64
}

/// The categories a user gives for a meme: the words of the input, lower-cased.
pub open spec fn meme_categories_spec(input: Seq<char>) -> Seq<Seq<char>> {
    words_of(input).map_values(|w: Seq<char>| lowercase(w))
}

/// Every category of a meme is lower-cased: there is one category for each piece of the
/// typed text between spaces, and the `k`-th is that piece lower-cased, whatever its place.
pub proof fn law_every_category_lowercased(input: Seq<char>)
    ensures
        meme_categories_spec(input).len() == words_of(input).len(),
        forall|k: int| 0 <= k < words_of(input).len() ==> #[trigger] meme_categories_spec(input)[k] == lowercase(words_of(input)[k]),
{
}

/// The categories of a meme from the text a user typed.
pub fn meme_categories(input: &str) -> (cats: Vec<String>)
    ensures
        texts(cats@) == meme_categories_spec(input@),
        cats@.len() >= 1,
{
    let words = split_words(input);
    proof {
        crate::text::lemma_split_nonempty(input@, ' ');
    }
    let mut cats: Vec<String> = Vec::new();
    let mut i: usize = 0;
    while i < words.len()
        invariant
            i <= words@.len(),
            texts(words@) == words_of(input@),
            texts(cats@) == meme_categories_spec(input@).take(i as int),
            cats@.len() == i,
            meme_categories_spec(input@).len() == words@.len(),
        decreases words@.len() - i,
    {
        assert(texts(words@)[i as int] == words@[i as int]@);
        assert(meme_categories_spec(input@)[i as int] == lowercase(words@[i as int]@));
        cats.push(to_lowercase(words[i].as_str()));
        assert(texts(cats@)[i as int] == cats@[i as int]@);
        assert(texts(cats@) =~= meme_categories_spec(input@).take(i + 1));
        i = i + 1;
    }
    assert(meme_categories_spec(input@).take(i as int) =~= meme_categories_spec(input@));
    cats
}

/// What uploading a meme does with the tags a user typed: with no tag it answers
/// "No tags provided" and saves nothing; else it saves the meme under the tags (see
/// `plan_meme_save`) and then answers that it was saved.
pub enum UploadStep {
    NoTags(String),
    Save { categories: Vec<String>, reply: String },
}

/// The step of an upload for the tags typed. Since a text always has at least one piece
/// between spaces, the tags are never empty and the meme is always saved.
pub fn upload_meme_step(input: &str) -> (r: UploadStep)
    ensures
        r matches UploadStep::Save { categories, reply } && texts(categories@) == meme_categories_spec(input@)
            && reply@ == "Saved meme. I can now post it when someone runs ``/meme post`` with one of the tags you provided!"@,
{
    let categories = meme_categories(input);
    if categories.len() == 0 {
        return UploadStep::NoTags("No tags provided".to_string());
    }
    UploadStep::Save {
        categories,
        reply: "Saved meme. I can now post it when someone runs ``/meme post`` with one of the tags you provided!".to_string(),
    }
}

/// The name a new meme file gets: its folder, an underscore and one more than the number of
/// files already in the folder.
pub open spec fn meme_file_name_text(folder: Seq<char>, count: nat) -> Seq<char> {
    folder + "_"@ + decimal(count + 1)
}

/// A meme file to save: where, under which name, and with which hash.
pub struct NewMeme {
    pub folder: String,
    pub name: String,
    pub extension: String,
    pub hash: i64,
}

/// The file to save for new bytes with hash `hash` under `categories` (already lower-cased),
/// given how many files the folder of the first category holds: the folder is that category,
/// the extension lower-cased.
pub fn plan_new_meme(hash: i64, extension: &str, categories: &[String], folder_count: u64) -> (m: NewMeme)
    requires
        categories@.len() >= 1,
        folder_count < u64::MAX,
    ensures
        m.folder@ == categories@[0]@,
        m.name@ == meme_file_name_text(categories@[0]@, folder_count as nat),
        m.extension@ == lowercase(extension@),
        m.hash == hash,
{
    let folder = categories[0].clone();
    let name = folder.clone().concat("_").concat(format_u64(folder_count + 1).as_str());
    NewMeme { folder, name, extension: to_lowercase(extension), hash }
}

/// The saved file whose hash is `hash`, if any: the bot then only files that file under the
/// new categories.
pub fn find_saved_meme(hash: i64, saved: &[MemeFile]) -> (r: Option<i32>)
    ensures
        r matches Some(id) ==> exists|k: int| 0 <= k < saved@.len() && saved@[k].hash == hash && saved@[k].id == id,
        r is None ==> forall|k: int| 0 <= k < saved@.len() ==> saved@[k].hash != hash,
{
    let mut i: usize = 0;
    while i < saved.len()
        invariant
            i <= saved@.len(),
            forall|k: int| 0 <= k < i ==> saved@[k].hash != hash,
        decreases saved@.len() - i,
    {
        if saved[i].hash == hash {
            return Some(saved[i].id);
        }
        i = i + 1;
    }
    None
}

/// What saving a meme does: file an already saved file under the categories, or save a new one.
pub enum MemeSave {
    Existing(i32),
    New(NewMeme),
}

/// Plans saving `bytes`: hashes them, and when a saved file has that hash only files it under
/// the categories; otherwise saves a new file (see `plan_new_meme`). Returns the hash with the
/// plan; whatever hash came back, the plan is the one for that hash.
pub fn plan_meme_save(bytes: &[u8], extension: &str, categories: &[String], folder_count: u64, saved: &[MemeFile]) -> (r: (i64, MemeSave))
    requires
        categories@.len() >= 1,
        folder_count < u64::MAX,
    ensures
        (exists|k: int| 0 <= k < saved@.len() && saved@[k].hash == r.0) ==> (r.1 matches MemeSave::Existing(id)
            && exists|k: int| 0 <= k < saved@.len() && saved@[k].hash == r.0 && saved@[k].id == id),
        (forall|k: int| 0 <= k < saved@.len() ==> saved@[k].hash != r.0) ==> (r.1 matches MemeSave::New(m) && {
            &&& m.folder@ == categories@[0]@
            &&& m.name@ == meme_file_name_text(categories@[0]@, folder_count as nat)
            &&& m.extension@ == lowercase(extension@)
            &&& m.hash == r.0
        }),
{
    let h = calculate_hash(bytes);
    match find_saved_meme(h, saved) {
        Some(id) => (h, MemeSave::Existing(id)),
        None => (h, MemeSave::New(plan_new_meme(h, extension, categories, folder_count))),
    }
}

/// The name a meme is posted under: its file name and extension.
pub fn meme_attachment_name(f: &MemeFile) -> (s: String)
    ensures
        s@ == f.name@ + "."@ + f.extension@,
{
    f.name.clone().concat(".").concat(f.extension.as_str())
}

// ---------------------------------------------------------------------------------------------
// Posting in order

/// The smallest file id.
pub open spec fn oldest(files: Seq<i32>) -> i32
    recommends
        files.len() > 0,
    decreases files.len(),
{
    if files.len() <= 1 {
        files[0]
    } else {
        let m = oldest(files.drop_last());
        if files.last() < m { files.last() } else { m }
    }
}

/// The smallest file id above `f`, if any.
pub open spec fn next_above(files: Seq<i32>, f: i32) -> Option<i32>
    decreases files.len(),
{
    if files.len() == 0 {
        None
    } else {
        let rest = next_above(files.drop_last(), f);
        let x = files.last();
        if x > f {
            match rest {
                Some(y) => if y < x { Some(y) } else { Some(x) },
                None => Some(x),
            }
        } else {
            rest
        }
    }
}

/// The file a server is shown next in a category: its saved position when that is one of the
/// category's files, else the oldest file of the category (so a server starts at the first
/// file of the folder).
pub open spec fn file_to_post(files: Seq<i32>, cursor: Option<i32>) -> i32 {
    match cursor {
        Some(c) => if files.contains(c) { c } else { oldest(files) },
        None => oldest(files),
    }
}

/// The position saved for the server after posting `posted`: the next file of the category by
/// id, or the oldest when `posted` was the newest.
pub open spec fn cursor_after(files: Seq<i32>, posted: i32) -> i32 {
    match next_above(files, posted) {
        Some(n) => n,
        None => oldest(files),
    }
}

proof fn lemma_oldest(files: Seq<i32>)
    requires
        files.len() > 0,
    ensures
        files.contains(oldest(files)),
        forall|k: int| 0 <= k < files.len() ==> oldest(files) <= #[trigger] files[k],
    decreases files.len(),
{
    if files.len() > 1 {
        lemma_oldest(files.drop_last());
        let m = oldest(files.drop_last());
        let i = choose|i: int| 0 <= i < files.drop_last().len() && files.drop_last()[i] == m;
        assert(files[i] == m);
        assert forall|k: int| 0 <= k < files.len() implies oldest(files) <= #[trigger] files[k] by {
            if k < files.len() - 1 {
                assert(files.drop_last()[k] == files[k]);
            }
        }
    } else {
        assert(files[0] == oldest(files));
    }
}

proof fn lemma_next_above(files: Seq<i32>, f: i32)
    ensures
        next_above(files, f) matches Some(n) ==> files.contains(n) && n > f
            && forall|k: int| 0 <= k < files.len() && files[k] > f ==> n <= #[trigger] files[k],
        next_above(files, f) is None ==> forall|k: int| 0 <= k < files.len() ==> #[trigger] files[k] <= f,
    decreases files.len(),
{
    if files.len() > 0 {
        let d = files.drop_last();
        let x = files.last();
        let last = files.len() - 1;
        lemma_next_above(d, f);
        assert forall|k: int| 0 <= k < d.len() implies #[trigger] d[k] == files[k] by {}
        assert(files[last] == x);
        if x > f {
            match next_above(d, f) {
                Some(y) => {
                    let i = choose|i: int| 0 <= i < d.len() && d[i] == y;
                    assert(files[i] == y);
                    let n = if y < x { y } else { x };
                    assert(next_above(files, f) == Some(n));
                    assert forall|k: int| 0 <= k < files.len() && files[k] > f implies n <= #[trigger] files[k] by {
                        if k < last {
                            assert(d[k] == files[k]);
                        }
                    }
                    if y < x {
                        assert(files.contains(y));
                    } else {
                        assert(files.contains(x));
                    }
                },
                None => {
                    assert(next_above(files, f) == Some(x));
                    assert forall|k: int| 0 <= k < files.len() && files[k] > f implies x <= #[trigger] files[k] by {
                        if k < last {
                            assert(d[k] == files[k]);
                            assert(d[k] <= f);
                        }
                    }
                    assert(files.contains(x));
                },
            }
        } else {
            assert(next_above(files, f) == next_above(d, f));
            match next_above(d, f) {
                Some(y) => {
                    let i = choose|i: int| 0 <= i < d.len() && d[i] == y;
                    assert(files[i] == y);
                    assert forall|k: int| 0 <= k < files.len() && files[k] > f implies y <= #[trigger] files[k] by {
                        if k < last {
                            assert(d[k] == files[k]);
                        }
                    }
                },
                None => {
                    assert forall|k: int| 0 <= k < files.len() implies #[trigger] files[k] <= f by {
                        if k < last {
                            assert(d[k] == files[k]);
                        }
                    }
                },
            }
        }
    }
}

/// The file to post and the position to save, for a server asking for a meme of a category
/// whose files have ids `files`, given the server's saved position, if any.
pub fn ordered_meme_step(files: &[i32], cursor: Option<i32>) -> (r: (i32, i32))
    requires
        files@.len() > 0,
    ensures
        files@.contains(r.0),
        r.0 == file_to_post(files@, cursor),
        r.1 == cursor_after(files@, r.0),
{
    let mut m = files[0];
    let mut i: usize = 1;
    assert(files@.take(1) =~= seq![files@[0]]);
    while i < files.len()
        invariant
            1 <= i <= files@.len(),
            m == oldest(files@.take(i as int)),
        decreases files@.len() - i,
    {
        assert(files@.take(i + 1).drop_last() =~= files@.take(i as int));
        assert(files@.take(i + 1).last() == files@[i as int]);
        if files[i] < m {
            m = files[i];
        }
        i = i + 1;
    }
    assert(files@.take(i as int) =~= files@);
    proof {
        lemma_oldest(files@);
    }
    let mut posted = m;
    if let Some(c) = cursor {
        let mut found = false;
        let mut k: usize = 0;
        while k < files.len()
            invariant
                k <= files@.len(),
                found <==> exists|q: int| 0 <= q < k && files@[q] == c,
            decreases files@.len() - k,
        {
            if files[k] == c {
                found = true;
            }
            k = k + 1;
        }
        if found {
            posted = c;
        }
    }
    let mut next: Option<i32> = None;
    let mut j: usize = 0;
    assert(files@.take(0) =~= Seq::<i32>::empty());
    while j < files.len()
        invariant
            j <= files@.len(),
            next == next_above(files@.take(j as int), posted),
        decreases files@.len() - j,
    {
        assert(files@.take(j + 1).drop_last() =~= files@.take(j as int));
        assert(files@.take(j + 1).last() == files@[j as int]);
        let x = files[j];
        if x > posted {
            next = match next {
                Some(y) => if y < x { Some(y) } else { Some(x) },
                None => Some(x),
            };
        }
        j = j + 1;
    }
    assert(files@.take(j as int) =~= files@);
    let after = match next {
        Some(n) => n,
        None => m,
    };
    (posted, after)
}

/// Posting in order goes through the files by increasing id and starts again from the oldest
/// once all were posted: the saved position is always a file of the category; when a newer
/// file exists it is the next newer one (none lies between); when none does, it is the oldest.
pub proof fn law_ordered_posting_cycles(files: Seq<i32>, posted: i32)
    requires
        files.len() > 0,
    ensures
        files.contains(cursor_after(files, posted)),
        (exists|k: int| 0 <= k < files.len() && #[trigger] files[k] > posted) ==> {
            &&& cursor_after(files, posted) > posted
            &&& forall|k: int| 0 <= k < files.len() && files[k] > posted ==> cursor_after(files, posted) <= #[trigger] files[k]
        },
        (forall|k: int| 0 <= k < files.len() ==> #[trigger] files[k] <= posted) ==> {
            &&& cursor_after(files, posted) == oldest(files)
            &&& forall|k: int| 0 <= k < files.len() ==> oldest(files) <= #[trigger] files[k]
        },
{
    lemma_oldest(files);
    lemma_next_above(files, posted);
}

/// How many file ids are below `x`.
pub open spec fn count_below(files: Seq<i32>, x: i32) -> nat
    decreases files.len(),
{
    if files.len() == 0 {
        0
    } else {
        count_below(files.drop_last(), x) + if files.last() < x { 1nat } else { 0nat }
    }
}

/// How many file ids equal `x`.
pub open spec fn count_of(files: Seq<i32>, x: i32) -> nat
    decreases files.len(),
{
    if files.len() == 0 {
        0
    } else {
        count_of(files.drop_last(), x) + if files.last() == x { 1nat } else { 0nat }
    }
}

/// How many file ids are above `x`.
pub open spec fn count_above(files: Seq<i32>, x: i32) -> nat
    decreases files.len(),
{
    if files.len() == 0 {
        0
    } else {
        count_above(files.drop_last(), x) + if files.last() > x { 1nat } else { 0nat }
    }
}

/// The saved position after `k` posts of a round that started from the oldest file.
pub open spec fn nth_cursor(files: Seq<i32>, k: nat) -> i32
    decreases k,
{
    if k == 0 {
        oldest(files)
    } else {
        cursor_after(files, nth_cursor(files, (k - 1) as nat))
    }
}

proof fn lemma_counts_partition(files: Seq<i32>, x: i32)
    ensures
        count_below(files, x) + count_of(files, x) + count_above(files, x) == files.len(),
    decreases files.len(),
{
    if files.len() > 0 {
        lemma_counts_partition(files.drop_last(), x);
    }
}

proof fn lemma_count_of_absent(files: Seq<i32>, x: i32)
    requires
        !files.contains(x),
    ensures
        count_of(files, x) == 0,
    decreases files.len(),
{
    if files.len() > 0 {
        let d = files.drop_last();
        assert(!d.contains(x)) by {
            if d.contains(x) {
                let i = choose|i: int| 0 <= i < d.len() && d[i] == x;
                assert(files[i] == x);
            }
        }
        assert(files.last() != x) by {
            assert(files[files.len() - 1] == files.last());
        }
        lemma_count_of_absent(d, x);
    }
}

proof fn lemma_count_of_unique(files: Seq<i32>, x: i32)
    requires
        files.no_duplicates(),
        files.contains(x),
    ensures
        count_of(files, x) == 1,
    decreases files.len(),
{
    let d = files.drop_last();
    let n = files.len() - 1;
    assert(files[n] == files.last());
    assert(d.no_duplicates()) by {
        assert forall|a: int, b: int| 0 <= a < d.len() && 0 <= b < d.len() && a != b implies d[a] != d[b] by {
            assert(d[a] == files[a] && d[b] == files[b]);
        }
    }
    if files.last() == x {
        assert(!d.contains(x)) by {
            if d.contains(x) {
                let i = choose|i: int| 0 <= i < d.len() && d[i] == x;
                assert(files[i] == files[n]);
            }
        }
        lemma_count_of_absent(d, x);
    } else {
        let i = choose|i: int| 0 <= i < files.len() && files[i] == x;
        assert(i != n);
        assert(d[i] == x);
        lemma_count_of_unique(d, x);
    }
}

proof fn lemma_count_below_mono(files: Seq<i32>, a: i32, b: i32)
    requires
        a <= b,
    ensures
        count_below(files, a) <= count_below(files, b),
    decreases files.len(),
{
    if files.len() > 0 {
        lemma_count_below_mono(files.drop_last(), a, b);
    }
}

proof fn lemma_count_below_strict(files: Seq<i32>, a: i32, b: i32)
    requires
        a < b,
    ensures
        count_below(files, b) >= count_below(files, a) + count_of(files, a),
    decreases files.len(),
{
    if files.len() > 0 {
        lemma_count_below_strict(files.drop_last(), a, b);
    }
}

/// When every id below `y` is below `x` or is `x`, and the other way round, `y` has exactly
/// the ids below `x` and `x` itself below it.
proof fn lemma_count_below_next(files: Seq<i32>, x: i32, y: i32)
    requires
        forall|i: int| 0 <= i < files.len() ==> (#[trigger] files[i] < y <==> (files[i] < x || files[i] == x)),
    ensures
        count_below(files, y) == count_below(files, x) + count_of(files, x),
    decreases files.len(),
{
    if files.len() > 0 {
        let d = files.drop_last();
        assert forall|i: int| 0 <= i < d.len() implies (#[trigger] d[i] < y <==> (d[i] < x || d[i] == x)) by {
            assert(d[i] == files[i]);
        }
        assert(files[files.len() - 1] == files.last());
        lemma_count_below_next(d, x, y);
    }
}

proof fn lemma_count_above_zero(files: Seq<i32>, x: i32)
    requires
        count_above(files, x) == 0,
    ensures
        forall|i: int| 0 <= i < files.len() ==> #[trigger] files[i] <= x,
    decreases files.len(),
{
    if files.len() > 0 {
        let d = files.drop_last();
        lemma_count_above_zero(d, x);
        assert forall|i: int| 0 <= i < files.len() implies #[trigger] files[i] <= x by {
            if i < d.len() {
                assert(d[i] == files[i]);
            }
        }
    }
}

proof fn lemma_count_below_oldest(files: Seq<i32>)
    requires
        files.len() > 0,
    ensures
        count_below(files, oldest(files)) == 0,
{
    lemma_oldest(files);
    lemma_count_below_none(files, oldest(files));
}

proof fn lemma_count_below_none(files: Seq<i32>, x: i32)
    requires
        forall|i: int| 0 <= i < files.len() ==> x <= #[trigger] files[i],
    ensures
        count_below(files, x) == 0,
    decreases files.len(),
{
    if files.len() > 0 {
        let d = files.drop_last();
        assert forall|i: int| 0 <= i < d.len() implies x <= #[trigger] d[i] by {
            assert(d[i] == files[i]);
        }
        assert(files[files.len() - 1] == files.last());
        lemma_count_below_none(d, x);
    }
}

proof fn lemma_nth_cursor(files: Seq<i32>, k: nat)
    requires
        files.len() > 0,
        files.no_duplicates(),
        k < files.len(),
    ensures
        files.contains(nth_cursor(files, k)),
        count_below(files, nth_cursor(files, k)) == k,
    decreases k,
{
    lemma_oldest(files);
    if k == 0 {
        lemma_count_below_oldest(files);
    } else {
        lemma_nth_cursor(files, (k - 1) as nat);
        let c = nth_cursor(files, (k - 1) as nat);
        lemma_counts_partition(files, c);
        lemma_count_of_unique(files, c);
        lemma_next_above(files, c);
        if next_above(files, c) is None {
            assert(count_above(files, c) == 0) by {
                lemma_count_above_none(files, c);
            }
        }
        let y = next_above(files, c)->0;
        assert(nth_cursor(files, k) == y);
        assert forall|i: int| 0 <= i < files.len() implies (#[trigger] files[i] < y <==> (files[i] < c || files[i] == c)) by {
            if files[i] < y && files[i] > c {
                assert(y <= files[i]);
            }
        }
        lemma_count_below_next(files, c, y);
    }
}

proof fn lemma_count_above_none(files: Seq<i32>, x: i32)
    requires
        forall|i: int| 0 <= i < files.len() ==> #[trigger] files[i] <= x,
    ensures
        count_above(files, x) == 0,
    decreases files.len(),
{
    if files.len() > 0 {
        let d = files.drop_last();
        assert forall|i: int| 0 <= i < d.len() implies #[trigger] d[i] <= x by {
            assert(d[i] == files[i]);
        }
        assert(files[files.len() - 1] == files.last());
        lemma_count_above_none(d, x);
    }
}

/// A round of posting in order, started by a server without a saved position (so from the
/// oldest file of a category whose ids are distinct), posts every file exactly once, by
/// increasing id, and the next post is the oldest again: the `k`-th post is the file with
/// exactly `k` older ones.
pub proof fn law_ordered_round_posts_each_file_once(files: Seq<i32>)
    requires
        files.len() > 0,
        files.no_duplicates(),
    ensures
        forall|k: nat| k < files.len() ==> files.contains(#[trigger] nth_cursor(files, k)),
        forall|j: nat, k: nat| j < k < files.len() ==> #[trigger] nth_cursor(files, j) < #[trigger] nth_cursor(files, k),
        forall|i: int| #![trigger files[i]] 0 <= i < files.len() ==> exists|k: nat| #![trigger nth_cursor(files, k)] k < files.len() && nth_cursor(files, k) == files[i],
        nth_cursor(files, files.len()) == oldest(files),
        file_to_post(files, None) == nth_cursor(files, 0),
        forall|k: nat| k < files.len() ==> file_to_post(files, Some(#[trigger] nth_cursor(files, k))) == nth_cursor(files, k),
{
    assert forall|k: nat| k < files.len() implies files.contains(#[trigger] nth_cursor(files, k)) by {
        lemma_nth_cursor(files, k);
    }
    assert forall|j: nat, k: nat| j < k < files.len() implies #[trigger] nth_cursor(files, j) < #[trigger] nth_cursor(files, k) by {
        lemma_nth_cursor(files, j);
        lemma_nth_cursor(files, k);
        if nth_cursor(files, k) <= nth_cursor(files, j) {
            lemma_count_below_mono(files, nth_cursor(files, k), nth_cursor(files, j));
        }
    }
    assert forall|i: int| #![trigger files[i]] 0 <= i < files.len() implies exists|k: nat| #![trigger nth_cursor(files, k)] k < files.len() && nth_cursor(files, k) == files[i] by {
        let f = files[i];
        lemma_counts_partition(files, f);
        lemma_count_of_unique(files, f);
        let r = count_below(files, f);
        lemma_nth_cursor(files, r);
        let c = nth_cursor(files, r);
        lemma_count_of_unique(files, c);
        if c < f {
            lemma_count_below_strict(files, c, f);
        } else if f < c {
            lemma_count_below_strict(files, f, c);
        }
        assert(nth_cursor(files, r) == files[i]);
    }
    let n = files.len();
    lemma_nth_cursor(files, (n - 1) as nat);
    let c = nth_cursor(files, (n - 1) as nat);
    lemma_counts_partition(files, c);
    lemma_count_of_unique(files, c);
    lemma_count_above_zero(files, c);
    lemma_next_above(files, c);
    assert(next_above(files, c) is None) by {
        if next_above(files, c) is Some {
            let y = next_above(files, c)->0;
            let i = choose|i: int| 0 <= i < files.len() && files[i] == y;
            assert(files[i] <= c);
        }
    }
}

/// A file picked at random among the files of a category, or `None` when it has none.
pub fn random_meme(files: &[i32]) -> (r: Option<i32>)
    ensures
        r is None <==> files@.len() == 0,
        r matches Some(f) ==> files@.contains(f),
{
    match choose_index(files.len()) {
        Some(i) => {
            assert(files@[i as int] == files@[i as int]);
            Some(files[i])
        },
        None => None,
    }
}

} // verus!
