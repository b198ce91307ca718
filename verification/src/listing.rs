//! Directory listings: which of the entries found in a directory are shown,
//! and in what order.
//!
//! Hidden entries, whose names begin with `.`, are never shown; the sidecar
//! directory of the backup engine is one of them. Of the rest, directories
//! and image files are shown: directories first, and each group by name
//! without regard to case.

use vstd::prelude::*;
use vstd::seq_lib::{to_multiset_build, to_multiset_contains, to_multiset_insert};
use crate::backup::SIDECAR_DIR;
use crate::media::{is_image_file, is_image_name, lowercase, to_lowercase};
use crate::text::chars_of;

verus! {

/// An entry as it was found in a directory.
#[derive(Debug, PartialEq, Eq)]
pub struct FoundEntry {
    /// The entry's name, or `None` where the name is not valid Unicode.
    pub name: Option<String>,
    /// The entry's path, as text.
    pub path: String,
    /// Whether the entry is a directory.
    pub is_dir: bool,
}

/// An entry of a listing.
#[derive(Debug, PartialEq, Eq)]
pub struct DirectoryEntry {
    /// The entry's name.
    pub name: String,
    /// The entry's path, as text.
    pub path: String,
    /// Whether the entry is a directory.
    pub is_dir: bool,
    /// Whether the entry is an image file.
    pub is_image: bool,
}

/// The listing of a directory.
#[derive(Debug, PartialEq, Eq)]
pub struct DirectoryListing {
    /// The directory's path, as text.
    pub current_path: String,
    /// The path of the directory's parent, if it has one.
    pub parent_path: Option<String>,
    /// The entries shown, in order.
    pub entries: Vec<DirectoryEntry>,
}

/// Mathematical form of `FoundEntry`.
pub struct FoundModel {
    pub name: Option<Seq<char>>,
    pub path: Seq<char>,
    pub is_dir: bool,
}

/// Mathematical form of `DirectoryEntry`.
pub struct EntryModel {
    pub name: Seq<char>,
    pub path: Seq<char>,
    pub is_dir: bool,
    pub is_image: bool,
}

impl View for FoundEntry {
    type V = FoundModel;

    open spec fn view(&self) -> FoundModel {
        FoundModel {
            name: match self.name {
                Some(n) => Some(n@),
                None => None,
            },
            path: self.path@,
            is_dir: self.is_dir,
        }
    }
}

impl View for DirectoryEntry {
    type V = EntryModel;

    open spec fn view(&self) -> EntryModel {
        EntryModel {
            name: self.name@,
            path: self.path@,
            is_dir: self.is_dir,
            is_image: self.is_image,
        }
    }
}

/// The mathematical forms of found entries, in order.
pub open spec fn found_models(found: Seq<FoundEntry>) -> Seq<FoundModel> {
    found.map_values(|f: FoundEntry| f@)
}

/// The mathematical forms of listing entries, in order.
pub open spec fn entry_models(entries: Seq<DirectoryEntry>) -> Seq<EntryModel> {
    entries.map_values(|e: DirectoryEntry| e@)
}

/// Whether an entry called `name` is hidden: its name begins with `.`.
pub open spec fn is_hidden_name(name: Seq<char>) -> bool {
    name.len() > 0 && name[0] == '.'
}

/// The listing entry for a found entry, or `None` where it is not shown. An
/// entry is shown where its name is valid Unicode and not hidden, and it is a
/// directory or an image file.
pub open spec fn shown(found: FoundModel) -> Option<EntryModel> {
    match found.name {
        Some(name) => {
            let is_image = !found.is_dir && is_image_name(name);
            if !is_hidden_name(name) && (found.is_dir || is_image) {
                Some(EntryModel { name, path: found.path, is_dir: found.is_dir, is_image })
            } else {
                None
            }
        },
        None => None,
    }
}

/// The entries shown of those found, in the order in which they were found.
pub open spec fn select(found: Seq<FoundModel>) -> Seq<EntryModel>
    decreases found.len(),
{
    if found.len() == 0 {
        Seq::empty()
    } else {
        let front = select(found.drop_last());
        match shown(found.last()) {
            Some(entry) => front.push(entry),
            None => front,
        }
    }
}

/// Whether `a` comes before `b` in the order of characters: at the first place
/// where they differ `a` has the lesser character, or `a` ends there and `b`
/// goes on.
pub open spec fn text_lt(a: Seq<char>, b: Seq<char>) -> bool
    decreases a.len(),
{
    if b.len() == 0 {
        false
    } else if a.len() == 0 {
        true
    } else if a[0] != b[0] {
        a[0] < b[0]
    } else {
        text_lt(a.drop_first(), b.drop_first())
    }
}

/// Whether an entry with the key `a_key` is listed before one with the key
/// `b_key`, whatever their places were: a directory before a file, and within
/// each group the lesser key.
pub open spec fn key_before(
    a_is_dir: bool,
    a_key: Seq<char>,
    b_is_dir: bool,
    b_key: Seq<char>,
) -> bool {
    if a_is_dir != b_is_dir {
        a_is_dir
    } else {
        text_lt(a_key, b_key)
    }
}

/// Whether `a` is listed before `b` whatever their places were. The key of an
/// entry is its name in lowercase.
pub open spec fn comes_before(a: EntryModel, b: EntryModel) -> bool {
    key_before(a.is_dir, lowercase(a.name), b.is_dir, lowercase(b.name))
}

/// Where `entry` goes into `sorted`: before the first entry that it comes
/// before, or at the end.
pub open spec fn insert_point(sorted: Seq<EntryModel>, entry: EntryModel) -> int
    decreases sorted.len(),
{
    if sorted.len() == 0 {
        0
    } else if comes_before(entry, sorted[0]) {
        0
    } else {
        1 + insert_point(sorted.drop_first(), entry)
    }
}

/// `entries` in listing order. Entries of which neither comes before the
/// other keep the order they had.
pub open spec fn sorted_entries(entries: Seq<EntryModel>) -> Seq<EntryModel>
    decreases entries.len(),
{
    if entries.len() == 0 {
        Seq::empty()
    } else {
        let front = sorted_entries(entries.drop_last());
        front.insert(insert_point(front, entries.last()), entries.last())
    }
}

/// The entries of the listing of a directory in which `found` was found.
pub open spec fn listing_of(found: Seq<FoundModel>) -> Seq<EntryModel> {
    sorted_entries(select(found))
}

/// Whether no entry of `entries` comes before one that stands earlier.
pub open spec fn in_order(entries: Seq<EntryModel>) -> bool {
    forall|i: int, j: int|
        0 <= i < j < entries.len() ==> !comes_before(#[trigger] entries[j], #[trigger] entries[i])
}

/// `insert_point` lies within `sorted`; `entry` comes before none of the
/// entries ahead of it there, and before the entry at it, if there is one.
pub proof fn lemma_insert_point(sorted: Seq<EntryModel>, entry: EntryModel)
    ensures
        0 <= insert_point(sorted, entry) <= sorted.len(),
        forall|j: int| 0 <= j < insert_point(sorted, entry) ==> !comes_before(entry, sorted[j]),
        insert_point(sorted, entry) < sorted.len() ==> comes_before(
            entry,
            sorted[insert_point(sorted, entry)],
        ),
    decreases sorted.len(),
{
    if sorted.len() > 0 && !comes_before(entry, sorted[0]) {
        let rest = sorted.drop_first();
        lemma_insert_point(rest, entry);
        let p = insert_point(sorted, entry);
        assert forall|j: int| 0 <= j < p implies !comes_before(entry, sorted[j]) by {
            if j > 0 {
                assert(sorted[j] == rest[j - 1]);
            }
        }
    }
}

/// A place with the properties of `insert_point` is `insert_point`.
pub proof fn lemma_insert_point_at(sorted: Seq<EntryModel>, entry: EntryModel, p: int)
    requires
        0 <= p <= sorted.len(),
        forall|j: int| 0 <= j < p ==> !comes_before(entry, sorted[j]),
        p < sorted.len() ==> comes_before(entry, sorted[p]),
    ensures
        insert_point(sorted, entry) == p,
{
    lemma_insert_point(sorted, entry);
}

/// The order of characters is transitive in this form: if `b` does not come
/// before `a`, and `c` not before `b`, then `c` does not come before `a`.
pub proof fn lemma_text_order_transitive(a: Seq<char>, b: Seq<char>, c: Seq<char>)
    requires
        !text_lt(b, a),
        !text_lt(c, b),
    ensures
        !text_lt(c, a),
    decreases a.len(),
{
    if a.len() > 0 && b.len() > 0 && c.len() > 0 {
        if a[0] == b[0] && b[0] == c[0] {
            lemma_text_order_transitive(a.drop_first(), b.drop_first(), c.drop_first());
        }
    }
}

/// The order of characters is strict: of `a` before `b` and `b` before `a`,
/// at most one holds.
pub proof fn lemma_text_order_asymmetric(a: Seq<char>, b: Seq<char>)
    requires
        text_lt(a, b),
    ensures
        !text_lt(b, a),
    decreases a.len(),
{
    if a.len() > 0 && b.len() > 0 && a[0] == b[0] {
        lemma_text_order_asymmetric(a.drop_first(), b.drop_first());
    }
}

/// Listing order is transitive in this form: if `b` does not come before `a`,
/// and `c` not before `b`, then `c` does not come before `a`.
pub proof fn lemma_order_transitive(a: EntryModel, b: EntryModel, c: EntryModel)
    requires
        !comes_before(b, a),
        !comes_before(c, b),
    ensures
        !comes_before(c, a),
{
    if a.is_dir == b.is_dir && b.is_dir == c.is_dir {
        lemma_text_order_transitive(lowercase(a.name), lowercase(b.name), lowercase(c.name));
    }
}

/// An entry that comes before another is not come before by it.
pub proof fn lemma_order_asymmetric(a: EntryModel, b: EntryModel)
    requires
        comes_before(a, b),
    ensures
        !comes_before(b, a),
{
    if a.is_dir == b.is_dir {
        lemma_text_order_asymmetric(lowercase(a.name), lowercase(b.name));
    }
}

/// Sorting puts entries in order and neither adds nor drops one: the sorted
/// entries are the same entries, each as often as before.
pub proof fn lemma_sorted_entries(entries: Seq<EntryModel>)
    ensures
        in_order(sorted_entries(entries)),
        sorted_entries(entries).to_multiset() == entries.to_multiset(),
        sorted_entries(entries).len() == entries.len(),
    decreases entries.len(),
{
    if entries.len() == 0 {
        assert(entries =~= Seq::<EntryModel>::empty());
    } else {
        let front = sorted_entries(entries.drop_last());
        let e = entries.last();
        let p = insert_point(front, e);
        let out = front.insert(p, e);
        lemma_sorted_entries(entries.drop_last());
        lemma_insert_point(front, e);
        to_multiset_insert(front, p, e);
        to_multiset_build(entries.drop_last(), e);
        assert(entries.drop_last().push(e) =~= entries);
        assert forall|i: int, j: int| 0 <= i < j < out.len() implies !comes_before(
            #[trigger] out[j],
            #[trigger] out[i],
        ) by {
            if i == p {
                lemma_order_asymmetric(e, front[p]);
                if j - 1 > p {
                    lemma_order_transitive(e, front[p], front[j - 1]);
                }
            }
        }
    }
}

/// Whether `a` and `b` have the same place in listing order: both are
/// directories or both are files, and their names are the same in lowercase.
pub open spec fn same_place(a: EntryModel, b: EntryModel) -> bool {
    a.is_dir == b.is_dir && lowercase(a.name) == lowercase(b.name)
}

/// The entries of `entries` that have the same place as `x`, in order.
pub open spec fn sharing_place(entries: Seq<EntryModel>, x: EntryModel) -> Seq<EntryModel>
    decreases entries.len(),
{
    if entries.len() == 0 {
        Seq::empty()
    } else {
        let front = sharing_place(entries.drop_last(), x);
        if same_place(entries.last(), x) {
            front.push(entries.last())
        } else {
            front
        }
    }
}

/// Two texts of which neither comes before the other are the same text.
pub proof fn lemma_text_order_total(a: Seq<char>, b: Seq<char>)
    requires
        !text_lt(a, b),
        !text_lt(b, a),
    ensures
        a == b,
    decreases a.len(),
{
    if a.len() > 0 && b.len() > 0 {
        lemma_text_order_total(a.drop_first(), b.drop_first());
        assert(a =~= seq![a[0]] + a.drop_first());
    }
}

/// Listing order tells apart all entries but those with the same place.
pub proof fn lemma_order_total(a: EntryModel, b: EntryModel)
    ensures
        same_place(a, b) <==> !comes_before(a, b) && !comes_before(b, a),
{
    if a.is_dir == b.is_dir {
        let x = lowercase(a.name);
        let y = lowercase(b.name);
        if !text_lt(x, y) && !text_lt(y, x) {
            lemma_text_order_total(x, y);
        }
        if text_lt(x, y) {
            lemma_text_order_asymmetric(x, y);
        }
    }
}

/// The entries sharing a place with `x` in two sequences put end to end are
/// those in the first followed by those in the second.
proof fn lemma_sharing_place_of_joined(a: Seq<EntryModel>, b: Seq<EntryModel>, x: EntryModel)
    ensures
        sharing_place(a + b, x) == sharing_place(a, x) + sharing_place(b, x),
    decreases b.len(),
{
    if b.len() > 0 {
        lemma_sharing_place_of_joined(a, b.drop_last(), x);
        assert((a + b).drop_last() =~= a + b.drop_last());
        if same_place(b.last(), x) {
            assert((sharing_place(a, x) + sharing_place(b.drop_last(), x)).push(b.last())
                =~= sharing_place(a, x) + sharing_place(b.drop_last(), x).push(b.last()));
        }
    }
}

/// Where no entry shares a place with `x`, none is picked.
proof fn lemma_sharing_place_of_none(entries: Seq<EntryModel>, x: EntryModel)
    requires
        forall|i: int| 0 <= i < entries.len() ==> !same_place(#[trigger] entries[i], x),
    ensures
        sharing_place(entries, x) == Seq::<EntryModel>::empty(),
    decreases entries.len(),
{
    if entries.len() > 0 {
        let front = entries.drop_last();
        assert forall|i: int| 0 <= i < front.len() implies !same_place(#[trigger] front[i], x) by {
        }
        lemma_sharing_place_of_none(front, x);
    }
}

/// Sorting is stable: entries that share a place stand in the sorted listing
/// in the order in which they were given.
pub proof fn lemma_sorting_is_stable(entries: Seq<EntryModel>, x: EntryModel)
    ensures
        sharing_place(sorted_entries(entries), x) == sharing_place(entries, x),
    decreases entries.len(),
{
    if entries.len() > 0 {
        let given = entries.drop_last();
        let front = sorted_entries(given);
        let e = entries.last();
        let p = insert_point(front, e);
        lemma_sorting_is_stable(given, x);
        lemma_sorted_entries(given);
        lemma_insert_point(front, e);
        let head = front.take(p);
        let tail = front.skip(p);
        assert(front =~= head + tail);
        lemma_sharing_place_of_joined(head, tail, x);
        lemma_sharing_place_of_joined(head.push(e), tail, x);
        assert(head.push(e).drop_last() =~= head);
        if same_place(e, x) {
            assert forall|i: int| 0 <= i < tail.len() implies !same_place(
                #[trigger] tail[i],
                x,
            ) by {
                let f = front[p + i];
                if !comes_before(e, f) {
                    lemma_order_transitive(front[p], f, e);
                }
                lemma_order_total(e, f);
            }
            lemma_sharing_place_of_none(tail, x);
            let kept = sharing_place(head, x);
            assert(kept.push(e) + Seq::<EntryModel>::empty() =~= (kept + Seq::<
                EntryModel,
            >::empty()).push(e));
        }
    }
}

/// What is shown is not hidden, and is a directory or an image file.
pub proof fn lemma_select_shows_only_visible(found: Seq<FoundModel>)
    ensures
        forall|i: int|
            0 <= i < select(found).len() ==> {
                let e = #[trigger] select(found)[i];
                &&& !is_hidden_name(e.name)
                &&& (e.is_dir || e.is_image)
                &&& e.is_image == (!e.is_dir && is_image_name(e.name))
            },
    decreases found.len(),
{
    if found.len() > 0 {
        let front = select(found.drop_last());
        lemma_select_shows_only_visible(found.drop_last());
        assert forall|i: int| 0 <= i < select(found).len() implies {
            let e = #[trigger] select(found)[i];
            &&& !is_hidden_name(e.name)
            &&& (e.is_dir || e.is_image)
            &&& e.is_image == (!e.is_dir && is_image_name(e.name))
        } by {
            if i < front.len() {
                assert(select(found)[i] == front[i]);
            }
        }
    }
}

/// No listing shows a hidden entry, and so none shows the sidecar directory
/// of the backup engine, whatever was found.
pub proof fn lemma_listing_hides_sidecar(found: Seq<FoundModel>)
    ensures
        is_hidden_name(SIDECAR_DIR@),
        forall|i: int|
            0 <= i < listing_of(found).len() ==> {
                let e = #[trigger] listing_of(found)[i];
                !is_hidden_name(e.name) && e.name != SIDECAR_DIR@
            },
{
    reveal_strlit(".safety_net");
    let picked = select(found);
    let listed = listing_of(found);
    lemma_select_shows_only_visible(found);
    lemma_sorted_entries(picked);
    assert forall|i: int| 0 <= i < listed.len() implies {
        let e = #[trigger] listed[i];
        !is_hidden_name(e.name) && e.name != SIDECAR_DIR@
    } by {
        let e = listed[i];
        to_multiset_contains(listed, e);
        to_multiset_contains(picked, e);
    }
}

/// Whether an entry called `name` is hidden.
pub fn is_hidden(name: &str) -> (hidden: bool)
    ensures
        hidden == is_hidden_name(name@),
{
    let chars = chars_of(name);
    chars.len() > 0 && chars[0] == '.'
}

/// The listing entry for `found`, or `None` where it is not shown.
pub fn classify(found: &FoundEntry) -> (entry: Option<DirectoryEntry>)
    ensures
        match entry {
            Some(e) => shown(found@) == Some(e@),
            None => shown(found@) is None,
        },
{
    match &found.name {
        Some(name) => {
            if is_hidden(name.as_str()) {
                return None;
            }
            let is_image = !found.is_dir && is_image_file(name.as_str());
            if found.is_dir || is_image {
                Some(
                    DirectoryEntry {
                        name: name.clone(),
                        path: found.path.clone(),
                        is_dir: found.is_dir,
                        is_image,
                    },
                )
            } else {
                None
            }
        },
        None => None,
    }
}

/// Whether `a` comes before `b` in the order of characters.
pub fn text_less(a: &[char], b: &[char]) -> (less: bool)
    ensures
        less == text_lt(a@, b@),
{
    let mut i: usize = 0;
    assert(a@.skip(0) =~= a@ && b@.skip(0) =~= b@);
    while i < a.len() && i < b.len()
        invariant
            i <= a.len(),
            i <= b.len(),
            text_lt(a@, b@) == text_lt(a@.skip(i as int), b@.skip(i as int)),
        decreases a.len() - i,
    {
        if a[i] != b[i] {
            return a[i] < b[i];
        }
        assert(a@.skip(i as int).drop_first() =~= a@.skip(i + 1));
        assert(b@.skip(i as int).drop_first() =~= b@.skip(i + 1));
        i += 1;
    }
    i < b.len()
}

/// The characters by which an entry called `name` is ordered.
fn sort_key(name: &str) -> (key: Vec<char>)
    ensures
        key@ == lowercase(name@),
{
    let lower = to_lowercase(name);
    chars_of(lower.as_str())
}

/// Whether an entry with the key `a_key` is listed before one with the key
/// `b_key`.
pub fn key_precedes(a_is_dir: bool, a_key: &[char], b_is_dir: bool, b_key: &[char]) -> (before:
    bool)
    ensures
        before == key_before(a_is_dir, a_key@, b_is_dir, b_key@),
{
    if a_is_dir != b_is_dir {
        a_is_dir
    } else {
        text_less(a_key, b_key)
    }
}

/// The lowercase forms of the names of `entries` are `keys`, place by place.
spec fn keyed(entries: Seq<DirectoryEntry>, keys: Seq<Vec<char>>) -> bool {
    &&& keys.len() == entries.len()
    &&& forall|i: int|
        0 <= i < entries.len() ==> (#[trigger] keys[i])@ == lowercase(entries[i].name@)
}

/// Puts `entries` in listing order: directories first, then files, each group
/// by name without regard to case. Entries that the order does not tell apart
/// stay as they were.
pub fn sort_entries(entries: Vec<DirectoryEntry>) -> (sorted: Vec<DirectoryEntry>)
    ensures
        entry_models(sorted@) == sorted_entries(entry_models(entries@)),
{
    let ghost given = entry_models(entries@);
    let mut rest = entries;
    let mut sorted: Vec<DirectoryEntry> = Vec::new();
    let mut keys: Vec<Vec<char>> = Vec::new();
    let ghost mut done: int = 0;
    assert(given.take(0) =~= Seq::<EntryModel>::empty());
    while rest.len() > 0
        invariant
            0 <= done <= given.len(),
            entry_models(rest@) == given.skip(done),
            entry_models(sorted@) == sorted_entries(given.take(done)),
            keyed(sorted@, keys@),
        decreases rest.len(),
    {
        let ghost rest_before = rest@;
        let entry = rest.remove(0);
        let key = sort_key(entry.name.as_str());
        let ghost front = entry_models(sorted@);
        proof {
            assert(entry@ == entry_models(rest_before)[0]);
            assert(entry_models(rest_before).len() == rest_before.len());
            assert forall|i: int| 0 <= i < rest@.len() implies entry_models(rest@)[i]
                == given.skip(done + 1)[i] by {
                assert(entry_models(rest_before)[i + 1] == given.skip(done)[i + 1]);
            }
        }
        let mut p: usize = 0;
        while p < sorted.len() && !key_precedes(
            entry.is_dir,
            key.as_slice(),
            sorted[p].is_dir,
            keys[p].as_slice(),
        )
            invariant
                p <= sorted.len(),
                key@ == lowercase(entry.name@),
                keyed(sorted@, keys@),
                front == entry_models(sorted@),
                forall|j: int| 0 <= j < p ==> !comes_before(entry@, front[j]),
            decreases sorted.len() - p,
        {
            p += 1;
        }
        proof {
            lemma_insert_point_at(front, entry@, p as int);
            assert(given.take(done + 1).drop_last() =~= given.take(done));
        }
        sorted.insert(p, entry);
        keys.insert(p, key);
        proof {
            done = done + 1;
        }
    }
    assert(given.take(done) =~= given);
    sorted
}

/// The entries to show, in the order in which they were found.
pub fn select_entries(found: &Vec<FoundEntry>) -> (entries: Vec<DirectoryEntry>)
    ensures
        entry_models(entries@) == select(found_models(found@)),
{
    let ghost given = found_models(found@);
    let mut entries: Vec<DirectoryEntry> = Vec::new();
    let mut i: usize = 0;
    while i < found.len()
        invariant
            i <= found.len(),
            given == found_models(found@),
            entry_models(entries@) == select(given.take(i as int)),
        decreases found.len() - i,
    {
        let ghost before = entry_models(entries@);
        proof {
            assert(given.take(i + 1).drop_last() =~= given.take(i as int));
        }
        match classify(&found[i]) {
            Some(entry) => {
                entries.push(entry);
            },
            None => {},
        }
        i += 1;
    }
    assert(given.take(found@.len() as int) =~= given);
    entries
}

/// The listing of the directory at `current_path`, whose parent is at
/// `parent_path`, and in which `found` was found.
pub fn build_listing(
    current_path: String,
    parent_path: Option<String>,
    found: &Vec<FoundEntry>,
) -> (listing: DirectoryListing)
    ensures
        listing.current_path == current_path,
        listing.parent_path == parent_path,
        entry_models(listing.entries@) == listing_of(found_models(found@)),
{
    let entries = sort_entries(select_entries(found));
    DirectoryListing { current_path, parent_path, entries }
}

} // verus!
