//! The grammar of file names: separators, drive prefixes and segments, the
//! plain name under which an upload is stored, and the names that a download
//! may ask for.
//!
//! The grammar is the same on every platform. Both `/` and `\` separate
//! segments, and a letter followed by `:` at the start of a name is a drive
//! prefix, so that a name accepted here is harmless wherever the service runs.

use vstd::prelude::*;
use vstd::string::*;
use crate::text::{chars_of, same_text};

verus! {

/// A character that separates the segments of a path.
pub open spec fn is_separator(c: char) -> bool {
    c == '/' || c == '\\'
}

/// A character that can name a drive.
pub open spec fn is_drive_letter(c: char) -> bool {
    ('a' <= c && c <= 'z') || ('A' <= c && c <= 'Z')
}

/// Whether `s` starts with a drive prefix such as `C:`.
pub open spec fn has_drive_prefix(s: Seq<char>) -> bool {
    s.len() >= 2 && is_drive_letter(s[0]) && s[1] == ':'
}

/// `s` behind all the drive prefixes it starts with.
pub open spec fn without_drive_prefix(s: Seq<char>) -> Seq<char>
    decreases s.len(),
{
    if has_drive_prefix(s) {
        without_drive_prefix(s.skip(2))
    } else {
        s
    }
}

/// Where the last segment of `s` starts: behind its last separator, or at 0.
pub open spec fn segment_start(s: Seq<char>) -> int
    decreases s.len(),
{
    if s.len() == 0 || is_separator(s.last()) {
        s.len() as int
    } else {
        segment_start(s.drop_last())
    }
}

/// The segment `.`, which stands for the directory it is met in.
pub open spec fn is_current_marker(seg: Seq<char>) -> bool {
    seg.len() == 1 && seg[0] == '.'
}

/// The segment `..`, which stands for the parent directory.
pub open spec fn is_parent_marker(seg: Seq<char>) -> bool {
    seg.len() == 2 && seg[0] == '.' && seg[1] == '.'
}

/// A segment that names nothing: the empty one that a doubled or trailing
/// separator leaves, and `.`.
pub open spec fn is_skipped(seg: Seq<char>) -> bool {
    seg.len() == 0 || is_current_marker(seg)
}

/// The last segment of `s` that names something, if there is one.
pub open spec fn final_segment(s: Seq<char>) -> Option<Seq<char>>
    decreases s.len(),
{
    let start = segment_start(s);
    let seg = s.skip(start);
    if 0 <= start <= s.len() && !is_skipped(seg) {
        Some(seg)
    } else if 0 < start <= s.len() {
        final_segment(s.take(start - 1))
    } else {
        None
    }
}

/// A name that is one ordinary segment: not empty, free of separators, with no
/// drive prefix, and neither `.` nor `..`.
pub open spec fn is_plain_name(s: Seq<char>) -> bool {
    &&& s.len() > 0
    &&& forall|i: int| 0 <= i < s.len() ==> !is_separator(#[trigger] s[i])
    &&& !has_drive_prefix(s)
    &&& !is_current_marker(s)
    &&& !is_parent_marker(s)
}

/// The plain name that a client's name for an upload comes down to: its final
/// segment without drive prefixes. `None` where nothing ordinary is left.
pub open spec fn sanitized(hint: Seq<char>) -> Option<Seq<char>> {
    match final_segment(hint) {
        None => None,
        Some(seg) => {
            let bare = without_drive_prefix(seg);
            if bare.len() == 0 || is_current_marker(bare) || is_parent_marker(bare) {
                None
            } else {
                Some(bare)
            }
        },
    }
}

/// The name of the file that carries the lock on the storage directory. It is
/// reserved: no upload is stored under it and no download may ask for it.
pub const LOCK_MARKER: &'static str = ".lock";

/// The characters of [`LOCK_MARKER`].
pub open spec fn lock_marker() -> Seq<char> {
    ".lock"@
}

/// The names under which the storage directory holds uploads: the plain names
/// but the lock marker.
pub open spec fn is_storable_name(s: Seq<char>) -> bool {
    is_plain_name(s) && s != lock_marker()
}

/// Whether a `..` segment starts at position `i` of `s`.
pub open spec fn is_parent_segment_at(s: Seq<char>, i: int) -> bool {
    &&& 0 <= i
    &&& i + 2 <= s.len()
    &&& s[i] == '.'
    &&& s[i + 1] == '.'
    &&& (i == 0 || is_separator(s[i - 1]))
    &&& (i + 2 == s.len() || is_separator(s[i + 2]))
}

/// Whether some segment of `s` is `..`.
pub open spec fn has_parent_segment(s: Seq<char>) -> bool {
    exists|i: int| is_parent_segment_at(s, i)
}

/// Whether `s` starts at a root: with a separator.
pub open spec fn is_rooted(s: Seq<char>) -> bool {
    s.len() > 0 && is_separator(s[0])
}

/// The names that a download may ask for: not empty, relative, free of drive
/// prefixes and of `..` segments, and not ending in the lock marker.
pub open spec fn is_valid_download_name(s: Seq<char>) -> bool {
    &&& s.len() > 0
    &&& !is_rooted(s)
    &&& !has_drive_prefix(s)
    &&& !has_parent_segment(s)
    &&& final_segment(s) != Some(lock_marker())
}

/// `name` below the directory `base`: the two joined by `/`, which is left
/// out where `base` is empty or already ends in it.
pub open spec fn joined(base: Seq<char>, name: Seq<char>) -> Seq<char> {
    if base.len() == 0 || base.last() == '/' {
        base + name
    } else {
        base.push('/') + name
    }
}

/// The start of the last segment lies within `s`, no separator stands from
/// there on, and one stands just before it unless it is 0.
pub proof fn lemma_segment_start(s: Seq<char>)
    ensures
        0 <= segment_start(s) <= s.len(),
        forall|i: int| segment_start(s) <= i < s.len() ==> !is_separator(#[trigger] s[i]),
        segment_start(s) == 0 || is_separator(s[segment_start(s) - 1]),
    decreases s.len(),
{
    if s.len() == 0 || is_separator(s.last()) {
    } else {
        let t = s.drop_last();
        lemma_segment_start(t);
        assert forall|i: int| segment_start(s) <= i < s.len() implies !is_separator(
            #[trigger] s[i],
        ) by {
            if i < t.len() {
                assert(t[i] == s[i]);
            }
        }
    }
}

/// A position with no separator from it on, and one just before it unless it
/// is 0, is the start of the last segment.
pub proof fn lemma_segment_start_is(s: Seq<char>, k: int)
    requires
        0 <= k <= s.len(),
        forall|i: int| k <= i < s.len() ==> !is_separator(#[trigger] s[i]),
        k == 0 || is_separator(s[k - 1]),
    ensures
        segment_start(s) == k,
    decreases s.len(),
{
    if k < s.len() {
        lemma_segment_start_is(s.drop_last(), k);
    }
}

fn is_separator_char(c: char) -> (b: bool)
    ensures
        b == is_separator(c),
{
    c == '/' || c == '\\'
}

fn is_drive_letter_char(c: char) -> (b: bool)
    ensures
        b == is_drive_letter(c),
{
    ('a' <= c && c <= 'z') || ('A' <= c && c <= 'Z')
}

/// The bounds of the final segment of `chars`.
fn final_segment_bounds(chars: &Vec<char>) -> (r: Option<(usize, usize)>)
    ensures
        match r {
            Some((from, to)) => from < to <= chars.len() && final_segment(chars@) == Some(
                chars@.subrange(from as int, to as int),
            ),
            None => final_segment(chars@) is None,
        },
{
    let mut end: usize = chars.len();
    assert(chars@.take(end as int) =~= chars@);
    loop
        invariant
            end <= chars.len(),
            final_segment(chars@) == final_segment(chars@.take(end as int)),
        decreases end,
    {
        let mut start: usize = end;
        while start > 0 && !is_separator_char(chars[start - 1])
            invariant
                start <= end <= chars.len(),
                forall|i: int| start <= i < end ==> !is_separator(#[trigger] chars@[i]),
            decreases start,
        {
            start -= 1;
        }
        let ghost head = chars@.take(end as int);
        proof {
            lemma_segment_start_is(head, start as int);
        }
        let skipped = end - start == 0 || (end - start == 1 && chars[start] == '.');
        if !skipped {
            return Some((start, end));
        }
        if start == 0 {
            return None;
        }
        proof {
            assert(head.take(start - 1) =~= chars@.take(start - 1));
        }
        end = start - 1;
    }
}

/// The plain name that `hint` comes down to, if any.
pub fn sanitize(hint: &str) -> (r: Option<String>)
    ensures
        match r {
            Some(name) => sanitized(hint@) == Some(name@),
            None => sanitized(hint@) is None,
        },
{
    let chars = chars_of(hint);
    match final_segment_bounds(&chars) {
        None => None,
        Some((from, to)) => {
            let ghost seg = chars@.subrange(from as int, to as int);
            let mut from: usize = from;
            while to - from >= 2 && is_drive_letter_char(chars[from]) && chars[from + 1] == ':'
                invariant
                    from <= to <= chars.len(),
                    without_drive_prefix(seg) == without_drive_prefix(
                        chars@.subrange(from as int, to as int),
                    ),
                decreases to - from,
            {
                proof {
                    assert(chars@.subrange(from as int, to as int).skip(2) =~= chars@.subrange(
                        from + 2,
                        to as int,
                    ));
                }
                from += 2;
            }
            let ghost bare = chars@.subrange(from as int, to as int);
            let len = to - from;
            if len == 0 || (len == 1 && chars[from] == '.') || (len == 2 && chars[from] == '.'
                && chars[from + 1] == '.') {
                None
            } else {
                Some(String::from_str(hint.substring_char(from, to)))
            }
        },
    }
}

/// Whether `name` is a plain name.
pub fn is_plain(name: &str) -> (b: bool)
    ensures
        b == is_plain_name(name@),
{
    let chars = chars_of(name);
    let n = chars.len();
    if n == 0 {
        return false;
    }
    if n == 1 && chars[0] == '.' {
        return false;
    }
    if n >= 2 {
        if chars[0] == '.' && chars[1] == '.' && n == 2 {
            return false;
        }
        if is_drive_letter_char(chars[0]) && chars[1] == ':' {
            return false;
        }
    }
    let mut i: usize = 0;
    while i < n
        invariant
            i <= n == chars.len(),
            chars@ == name@,
            forall|j: int| 0 <= j < i ==> !is_separator(#[trigger] chars@[j]),
        decreases n - i,
    {
        if is_separator_char(chars[i]) {
            return false;
        }
        i += 1;
    }
    true
}

/// Whether the storage directory can hold an upload under `name`.
pub fn is_storable(name: &str) -> (b: bool)
    ensures
        b == is_storable_name(name@),
{
    is_plain(name) && !same_text(name, LOCK_MARKER)
}

fn find_parent_segment(chars: &Vec<char>) -> (b: bool)
    ensures
        b == has_parent_segment(chars@),
{
    let n = chars.len();
    let mut i: usize = 0;
    while n >= 2 && i <= n - 2
        invariant
            n == chars.len(),
            forall|j: int| 0 <= j < i ==> !is_parent_segment_at(chars@, j),
        decreases n - i,
    {
        if chars[i] == '.' && chars[i + 1] == '.' && (i == 0 || is_separator_char(chars[i - 1]))
            && (i + 2 == n || is_separator_char(chars[i + 2])) {
            assert(is_parent_segment_at(chars@, i as int));
            return true;
        }
        i += 1;
    }
    false
}

/// Whether a download may ask for `name`.
pub fn is_valid_download(name: &str) -> (b: bool)
    ensures
        b == is_valid_download_name(name@),
{
    let chars = chars_of(name);
    let n = chars.len();
    if n == 0 || is_separator_char(chars[0]) {
        return false;
    }
    if n >= 2 && is_drive_letter_char(chars[0]) && chars[1] == ':' {
        return false;
    }
    if find_parent_segment(&chars) {
        return false;
    }
    match final_segment_bounds(&chars) {
        None => true,
        Some((from, to)) => !same_text(name.substring_char(from, to), LOCK_MARKER),
    }
}

/// The path of `name` below the directory `base`.
pub fn join(base: &str, name: &str) -> (path: String)
    ensures
        path@ == joined(base@, name@),
{
    let n = base.unicode_len();
    let mut path = String::from_str(base);
    if n > 0 && base.get_char(n - 1) != '/' {
        proof {
            reveal_strlit("/");
        }
        path.append("/");
    }
    path.append(name);
    path
}

/// The final segment of a name is not empty, holds no separator and is not
/// `.`.
pub proof fn lemma_final_segment_is_one_segment(s: Seq<char>)
    ensures
        final_segment(s) matches Some(seg) ==> {
            &&& seg.len() > 0
            &&& !is_current_marker(seg)
            &&& forall|i: int| 0 <= i < seg.len() ==> !is_separator(#[trigger] seg[i])
        },
    decreases s.len(),
{
    lemma_segment_start(s);
    let start = segment_start(s);
    let seg = s.skip(start);
    if is_skipped(seg) && 0 < start {
        lemma_final_segment_is_one_segment(s.take(start - 1));
    }
}

/// What is left behind the drive prefixes of `s` starts with none, is no
/// longer than `s`, and holds no separator where `s` holds none.
pub proof fn lemma_without_drive_prefix(s: Seq<char>)
    ensures
        !has_drive_prefix(without_drive_prefix(s)),
        without_drive_prefix(s).len() <= s.len(),
        (forall|i: int| 0 <= i < s.len() ==> !is_separator(#[trigger] s[i])) ==> (forall|i: int|
            0 <= i < without_drive_prefix(s).len() ==> !is_separator(
                #[trigger] without_drive_prefix(s)[i],
            )),
    decreases s.len(),
{
    if has_drive_prefix(s) {
        lemma_without_drive_prefix(s.skip(2));
    }
}

/// Whatever sanitization leaves is a plain name.
pub proof fn lemma_sanitized_is_plain(hint: Seq<char>)
    ensures
        sanitized(hint) matches Some(name) ==> is_plain_name(name),
{
    lemma_final_segment_is_one_segment(hint);
    if let Some(seg) = final_segment(hint) {
        lemma_without_drive_prefix(seg);
    }
}

/// A plain name is its own final segment.
pub proof fn lemma_plain_name_is_final_segment(name: Seq<char>)
    requires
        is_plain_name(name),
    ensures
        final_segment(name) == Some(name),
{
    lemma_segment_start_is(name, 0);
}

/// Sanitization keeps a plain name as it is.
pub proof fn lemma_plain_name_is_kept(name: Seq<char>)
    requires
        is_plain_name(name),
    ensures
        sanitized(name) == Some(name),
{
    lemma_plain_name_is_final_segment(name);
}

/// Sanitizing twice changes nothing more.
pub proof fn lemma_sanitized_is_idempotent(hint: Seq<char>)
    ensures
        sanitized(hint) matches Some(name) ==> sanitized(name) == Some(name),
{
    lemma_sanitized_is_plain(hint);
    if let Some(name) = sanitized(hint) {
        lemma_plain_name_is_kept(name);
    }
}

/// Whatever directories, roots and separators stand in front of a plain name,
/// sanitization drops them and keeps the name: `a/b/c.txt` comes down to
/// `c.txt`.
pub proof fn lemma_directories_are_dropped(dir: Seq<char>, sep: char, name: Seq<char>)
    requires
        is_separator(sep),
        is_plain_name(name),
    ensures
        sanitized(dir.push(sep) + name) == Some(name),
{
    lemma_segment_start_is(dir.push(sep) + name, dir.len() as int + 1);
}

/// A name with a `..` segment anywhere in it, between separators or at either
/// end, has a parent segment.
pub proof fn lemma_parent_segment_anywhere(front: Seq<char>, back: Seq<char>)
    requires
        front.len() == 0 || is_separator(front.last()),
        back.len() == 0 || is_separator(back[0]),
    ensures
        has_parent_segment(front + seq!['.', '.'] + back),
{
    assert(is_parent_segment_at(front + seq!['.', '.'] + back, front.len() as int));
}

/// Every plain name but the lock marker may be asked for by a download.
pub proof fn lemma_plain_name_can_be_downloaded(name: Seq<char>)
    requires
        is_plain_name(name),
        name != lock_marker(),
    ensures
        is_valid_download_name(name),
{
    lemma_plain_name_is_final_segment(name);
}

/// The path of a name below a directory starts with the directory.
pub proof fn lemma_joined_extends_base(base: Seq<char>, name: Seq<char>)
    ensures
        base.is_prefix_of(joined(base, name)),
        name.is_suffix_of(joined(base, name)),
{
}

/// A name that a download may ask for leads nowhere but below the directory:
/// its path takes no step to a parent that the directory's own path does not
/// take.
pub proof fn lemma_joined_stays_below(base: Seq<char>, name: Seq<char>)
    requires
        is_valid_download_name(name),
    ensures
        forall|i: int|
            is_parent_segment_at(joined(base, name), i) ==> is_parent_segment_at(base, i),
{
    let path = joined(base, name);
    let off = path.len() - name.len();
    assert forall|i: int| is_parent_segment_at(path, i) implies is_parent_segment_at(base, i) by {
        if i >= off {
            assert(is_parent_segment_at(name, i - off));
        }
    }
}

/// A plain name below a directory is the final segment of its path: the file
/// lies in the directory itself and in no directory under it.
pub proof fn lemma_plain_name_is_direct_child(base: Seq<char>, name: Seq<char>)
    requires
        is_plain_name(name),
    ensures
        final_segment(joined(base, name)) == Some(name),
        segment_start(joined(base, name)) == joined(base, name).len() - name.len(),
{
    let path = joined(base, name);
    lemma_segment_start_is(path, path.len() - name.len());
}

} // verus!
