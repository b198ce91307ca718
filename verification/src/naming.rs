//! File names: how a name splits into stem and extension, and the name under
//! which a backup copy is kept.

use vstd::prelude::*;
use crate::digest::ContentHash;
use crate::text::{chars_of, string_of};

verus! {

/// The position of the last `.` in `name`, or -1 where it holds none.
pub open spec fn last_dot(name: Seq<char>) -> int
    decreases name.len(),
{
    if name.len() == 0 {
        -1
    } else if name.last() == '.' {
        name.len() - 1
    } else {
        last_dot(name.drop_last())
    }
}

/// Whether `name` is the parent-directory name `..`.
pub open spec fn is_dot_dot(name: Seq<char>) -> bool {
    name.len() == 2 && name[0] == '.' && name[1] == '.'
}

/// Whether `name` splits at its last `.`: it has one, not at the start, and
/// is not `..`.
pub open spec fn splits(name: Seq<char>) -> bool {
    last_dot(name) > 0 && !is_dot_dot(name)
}

/// The stem of a file name: what stands before its last `.`, or the whole
/// name where it does not split.
pub open spec fn stem_of(name: Seq<char>) -> Seq<char> {
    if splits(name) {
        name.take(last_dot(name))
    } else {
        name
    }
}

/// The extension of a file name: what stands after its last `.`, or nothing
/// where it does not split.
pub open spec fn extension_of(name: Seq<char>) -> Option<Seq<char>> {
    if splits(name) {
        Some(name.skip(last_dot(name) + 1))
    } else {
        None
    }
}

/// The stem used where a path has no file name.
pub open spec fn default_stem() -> Seq<char> {
    seq!['f', 'i', 'l', 'e']
}

/// The suffix of the backup of a file that has no extension.
pub open spec fn fallback_suffix() -> Seq<char> {
    seq!['.', 'b', 'a', 'k']
}

/// The stem under which a file is backed up.
pub open spec fn backup_stem(file_name: Option<Seq<char>>) -> Seq<char> {
    match file_name {
        Some(name) => stem_of(name),
        None => default_stem(),
    }
}

/// The extension that a backup keeps; empty where the file has none.
pub open spec fn backup_extension(file_name: Option<Seq<char>>) -> Seq<char> {
    match file_name {
        Some(name) => match extension_of(name) {
            Some(ext) => ext,
            None => Seq::empty(),
        },
        None => Seq::empty(),
    }
}

/// The name of the backup of a file with content hash `hash`: the stem, `_`,
/// the first eight digits of the hash, and then `.` and the extension, or
/// `.bak` where there is none.
pub open spec fn backup_name(file_name: Option<Seq<char>>, hash: Seq<char>) -> Seq<char> {
    let base = backup_stem(file_name) + seq!['_'] + hash.take(8);
    let ext = backup_extension(file_name);
    if ext.len() == 0 {
        base + fallback_suffix()
    } else {
        base + seq!['.'] + ext
    }
}

/// Whether `text` ends with `suffix`.
pub open spec fn ends_with(text: Seq<char>, suffix: Seq<char>) -> bool {
    text.len() >= suffix.len() && text.skip(text.len() - suffix.len()) == suffix
}

/// `last_dot` is -1 or the position of a `.` with none after it.
pub proof fn lemma_last_dot(name: Seq<char>)
    ensures
        -1 <= last_dot(name) < name.len(),
        last_dot(name) >= 0 ==> name[last_dot(name)] == '.',
        forall|j: int| last_dot(name) < j < name.len() ==> name[j] != '.',
    decreases name.len(),
{
    if name.len() > 0 && name.last() != '.' {
        let front = name.drop_last();
        lemma_last_dot(front);
        assert forall|j: int| last_dot(name) < j < name.len() implies name[j] != '.' by {
            if j < front.len() {
                assert(name[j] == front[j]);
            }
        }
    }
}

/// A position that holds a `.` with none after it, or -1 where there is no
/// `.` at all, is `last_dot(name)`.
pub proof fn lemma_last_dot_at(name: Seq<char>, d: int)
    requires
        -1 <= d < name.len(),
        d >= 0 ==> name[d] == '.',
        forall|j: int| d < j < name.len() ==> name[j] != '.',
    ensures
        last_dot(name) == d,
{
    lemma_last_dot(name);
}

/// The extension of a file name holds no `.`.
pub proof fn lemma_extension_has_no_dot(name: Seq<char>)
    ensures
        extension_of(name) matches Some(ext) ==> !ext.contains('.'),
{
    lemma_last_dot(name);
}

/// A backup keeps the extension of the file: where the file has a non-empty
/// extension, the backup's name ends in `.` and that extension, and that is
/// the backup's own extension; where it has none, the backup's name ends in
/// `.bak`.
pub proof fn lemma_backup_keeps_extension(file_name: Option<Seq<char>>, hash: Seq<char>)
    ensures
        ({
            let ext = backup_extension(file_name);
            let backup = backup_name(file_name, hash);
            if ext.len() > 0 {
                ends_with(backup, seq!['.'] + ext) && extension_of(backup) == Some(ext)
            } else {
                ends_with(backup, fallback_suffix()) && extension_of(backup) == Some(
                    seq!['b', 'a', 'k'],
                )
            }
        }),
{
    let ext = backup_extension(file_name);
    let backup = backup_name(file_name, hash);
    let base = backup_stem(file_name) + seq!['_'] + hash.take(8);
    let kept = if ext.len() > 0 {
        ext
    } else {
        seq!['b', 'a', 'k']
    };
    assert(!kept.contains('.')) by {
        if ext.len() > 0 {
            lemma_extension_has_no_dot(file_name->0);
        }
    }
    let d = base.len() as int;
    assert forall|j: int| d < j < backup.len() implies backup[j] != '.' by {}
    lemma_last_dot_at(backup, d);
    assert(backup.skip(backup.len() - (kept.len() + 1)) =~= seq!['.'] + kept);
    assert(seq!['.'] + seq!['b', 'a', 'k'] =~= fallback_suffix());
}

/// The position of the last `.` in `name`, if it has one.
fn find_last_dot(name: &Vec<char>) -> (found: Option<usize>)
    ensures
        match found {
            Some(d) => d == last_dot(name@) && d < name@.len(),
            None => last_dot(name@) == -1,
        },
{
    let mut i: usize = name.len();
    while i > 0
        invariant
            i <= name.len(),
            forall|j: int| i <= j < name.len() ==> name@[j] != '.',
        decreases i,
    {
        i -= 1;
        if name[i] == '.' {
            proof {
                lemma_last_dot_at(name@, i as int);
            }
            return Some(i);
        }
    }
    proof {
        lemma_last_dot_at(name@, -1);
    }
    None
}

/// Where `name` splits into stem and extension, if it does.
fn split_point(name: &Vec<char>) -> (point: Option<usize>)
    ensures
        match point {
            Some(d) => splits(name@) && d == last_dot(name@) && d < name@.len(),
            None => !splits(name@),
        },
{
    proof {
        lemma_last_dot(name@);
    }
    match find_last_dot(name) {
        Some(d) => {
            if d == 0 || (name.len() == 2 && name[0] == '.') {
                None
            } else {
                Some(d)
            }
        },
        None => None,
    }
}

/// The characters of `chars` from `from` up to `to`.
fn copy_range(chars: &Vec<char>, from: usize, to: usize) -> (part: Vec<char>)
    requires
        from <= to <= chars.len(),
    ensures
        part@ == chars@.subrange(from as int, to as int),
{
    let mut part: Vec<char> = Vec::new();
    let mut i: usize = from;
    while i < to
        invariant
            from <= i <= to <= chars.len(),
            part@ == chars@.subrange(from as int, i as int),
        decreases to - i,
    {
        part.push(chars[i]);
        i += 1;
    }
    part
}

/// The stem of the file name `name`.
pub fn file_stem(name: &str) -> (stem: String)
    ensures
        stem@ == stem_of(name@),
{
    let chars = chars_of(name);
    match split_point(&chars) {
        Some(d) => {
            let part = copy_range(&chars, 0, d);
            string_of(part.as_slice())
        },
        None => string_of(chars.as_slice()),
    }
}

/// The extension of the file name `name`, if it has one.
pub fn file_extension(name: &str) -> (extension: Option<String>)
    ensures
        match extension {
            Some(ext) => extension_of(name@) == Some(ext@),
            None => extension_of(name@) is None,
        },
{
    let chars = chars_of(name);
    match split_point(&chars) {
        Some(d) => {
            let part = copy_range(&chars, d + 1, chars.len());
            Some(string_of(part.as_slice()))
        },
        None => None,
    }
}

/// Appends the characters of `more` to `chars`.
fn extend_chars(chars: &mut Vec<char>, more: &Vec<char>)
    ensures
        final(chars)@ == old(chars)@ + more@,
{
    let mut i: usize = 0;
    while i < more.len()
        invariant
            i <= more.len(),
            chars@ == old(chars)@ + more@.take(i as int),
        decreases more.len() - i,
    {
        chars.push(more[i]);
        i += 1;
    }
}

/// The name under which the file called `file_name` is backed up when its
/// content has the hash `hash`. A path without a file name is backed up as
/// `file`.
pub fn backup_file_name(file_name: Option<&str>, hash: &ContentHash) -> (name: String)
    ensures
        name@ == backup_name(
            match file_name {
                Some(n) => Some(n@),
                None => None,
            },
            hash@,
        ),
{
    let ghost model: Option<Seq<char>> = match file_name {
        Some(n) => Some(n@),
        None => None,
    };
    let mut out: Vec<char> = Vec::new();
    let mut ext: Vec<char> = Vec::new();
    match file_name {
        Some(n) => {
            let chars = chars_of(n);
            match split_point(&chars) {
                Some(d) => {
                    out = copy_range(&chars, 0, d);
                    ext = copy_range(&chars, d + 1, chars.len());
                },
                None => {
                    out = chars;
                },
            }
        },
        None => {
            out.push('f');
            out.push('i');
            out.push('l');
            out.push('e');
        },
    }
    out.push('_');
    let digits = chars_of(hash.prefix().as_str());
    extend_chars(&mut out, &digits);
    if ext.len() == 0 {
        out.push('.');
        out.push('b');
        out.push('a');
        out.push('k');
    } else {
        out.push('.');
        extend_chars(&mut out, &ext);
    }
    string_of(out.as_slice())
}

} // verus!
