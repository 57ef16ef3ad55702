//! From the path of a log file back to the pod and the container that wrote
//! it.

use crate::platform::Platform;
use crate::segments::{chars_of, last_segment, segments};
use crate::split::{first_separator, lemma_first_separator_at, lemma_split_first, split};
use vstd::prelude::*;

verus! {

/// What the path of a pod's log file says of its origin. The fields borrow
/// from the path that was parsed.
#[derive(Debug, Clone, PartialEq, Eq, Hash)]
pub struct LogFileInfo<'a> {
    /// The namespace of the pod.
    pub pod_namespace: &'a str,
    /// The name of the pod.
    pub pod_name: &'a str,
    /// The UID of the pod.
    pub pod_uid: &'a str,
    /// The name of the container.
    pub container_name: &'a str,
}

/// A [`LogFileInfo`] as four sequences of characters.
pub struct LogFileInfoView {
    /// The namespace of the pod.
    pub pod_namespace: Seq<char>,
    /// The name of the pod.
    pub pod_name: Seq<char>,
    /// The UID of the pod.
    pub pod_uid: Seq<char>,
    /// The name of the container.
    pub container_name: Seq<char>,
}

impl<'a> View for LogFileInfo<'a> {
    type V = LogFileInfoView;

    open spec fn view(&self) -> LogFileInfoView {
        LogFileInfoView {
            pod_namespace: self.pod_namespace@,
            pod_name: self.pod_name@,
            pod_uid: self.pod_uid@,
            container_name: self.container_name@,
        }
    }
}

/// `part` is a run of consecutive characters of `whole`.
pub open spec fn is_part_of(part: Seq<char>, whole: Seq<char>) -> bool {
    exists|from: int, to: int|
        0 <= from <= to <= whole.len() && #[trigger] whole.subrange(from, to) == part
}

/// The character that separates the fields of a pod's directory name.
pub open spec fn field_separators() -> Set<char> {
    set!['_']
}

/// What a path says of its log file, if it has the shape of one.
///
/// The last segment is the log file's own name and says nothing. The one
/// before it is the container's name, and the one before that the pod's
/// directory name, whose first three fields are namespace, name and UID; a
/// fourth field and what follows it are passed over. Segments further out are
/// not looked at. With fewer than three segments, or fewer than three fields,
/// the path says nothing.
pub open spec fn parsed_log_file_path(platform: Platform, path: Seq<char>) -> Option<
    LogFileInfoView,
> {
    let segs = segments(platform, path);
    if segs.len() < 3 {
        None
    } else {
        let fields = split(segs[segs.len() - 3], field_separators());
        if fields.len() < 3 {
            None
        } else {
            Some(
                LogFileInfoView {
                    pod_namespace: fields[0],
                    pod_name: fields[1],
                    pod_uid: fields[2],
                    container_name: segs[segs.len() - 2],
                },
            )
        }
    }
}

/// Where the field that starts at `from` ends: at the first `_` in
/// `chars[from..to]`, or at `to` where there is none.
fn field_end(chars: &Vec<char>, from: usize, to: usize) -> (end: usize)
    requires
        from <= to <= chars.len(),
    ensures
        from <= end <= to,
        end - from == first_separator(chars@.subrange(from as int, to as int), field_separators()),
{
    let ghost rest = chars@.subrange(from as int, to as int);
    let mut end: usize = from;
    while end < to && chars[end] != '_'
        invariant
            from <= end <= to <= chars.len(),
            rest == chars@.subrange(from as int, to as int),
            forall|i: int| from <= i < end ==> chars@[i] != '_',
        decreases to - end,
    {
        end += 1;
    }
    proof {
        assert forall|i: int| 0 <= i < end - from implies !field_separators().contains(
            #[trigger] rest.take(end - from)[i],
        ) by {
            assert(rest.take(end - from)[i] == chars@[from + i]);
        }
        lemma_first_separator_at(rest, field_separators(), end - from);
    }
    end
}

/// Finds the first three fields of the pod directory name `chars[from..to]`:
/// `Some((a, b, c))` where they end at `a`, `b` and `c`, `None` where the name
/// has fewer than three fields.
fn pod_dir_fields(chars: &Vec<char>, from: usize, to: usize) -> (ends: Option<
    (usize, usize, usize),
>)
    requires
        from <= to <= chars.len(),
    ensures
        match ends {
            Some((a, b, c)) => {
                let fields = split(chars@.subrange(from as int, to as int), field_separators());
                &&& from <= a < b < c <= to
                &&& fields.len() >= 3
                &&& fields[0] == chars@.subrange(from as int, a as int)
                &&& fields[1] == chars@.subrange(a + 1, b as int)
                &&& fields[2] == chars@.subrange(b + 1, c as int)
            },
            None => split(chars@.subrange(from as int, to as int), field_separators()).len() < 3,
        },
{
    let ghost name = chars@.subrange(from as int, to as int);
    let a = field_end(chars, from, to);
    if a == to {
        return None;
    }
    let ghost after_a = chars@.subrange(a + 1, to as int);
    assert(name.skip(a - from + 1) == after_a);
    assert(name.take(a - from) == chars@.subrange(from as int, a as int));
    assert(split(name, field_separators()) == seq![name.take(a - from)] + split(
        after_a,
        field_separators(),
    ));
    let b = field_end(chars, a + 1, to);
    if b == to {
        return None;
    }
    let ghost after_b = chars@.subrange(b + 1, to as int);
    assert(after_a.skip(b - a) == after_b);
    assert(after_a.take(b - a - 1) == chars@.subrange(a + 1, b as int));
    assert(split(after_a, field_separators()) == seq![after_a.take(b - a - 1)] + split(
        after_b,
        field_separators(),
    ));
    let c = field_end(chars, b + 1, to);
    proof {
        lemma_split_first(after_b, field_separators());
        assert(after_b.take(c - b - 1) == chars@.subrange(b + 1, c as int));
    }
    Some((a, b, c))
}

/// Parses the path of a pod's log file and returns what it says of the pod
/// and the container.
///
/// Only the shape of the path is read: it need not exist, be absolute, or
/// start with the root directory of pod logs. A path of another shape gives
/// `None`, never a record with some fields missing. Each field of the record
/// is a part of `path`, and borrows from it.
pub fn parse_log_file_path<'a>(platform: Platform, path: &'a str) -> (info: Option<
    LogFileInfo<'a>,
>)
    ensures
        match info {
            Some(info) => {
                &&& parsed_log_file_path(platform, path@) == Some(info@)
                &&& is_part_of(info.pod_namespace@, path@)
                &&& is_part_of(info.pod_name@, path@)
                &&& is_part_of(info.pod_uid@, path@)
                &&& is_part_of(info.container_name@, path@)
            },
            None => parsed_log_file_path(platform, path@) is None,
        },
{
    let chars = chars_of(path);
    assert(chars@.take(chars.len() as int) == path@);
    let file = match last_segment(platform, &chars, chars.len()) {
        Some(file) => file,
        None => { return None; },
    };
    let container = match last_segment(platform, &chars, file.0) {
        Some(container) => container,
        None => { return None; },
    };
    let pod_dir = match last_segment(platform, &chars, container.0) {
        Some(pod_dir) => pod_dir,
        None => { return None; },
    };
    match pod_dir_fields(&chars, pod_dir.0, pod_dir.1) {
        Some((a, b, c)) => Some(
            LogFileInfo {
                pod_namespace: path.substring_char(pod_dir.0, a),
                pod_name: path.substring_char(a + 1, b),
                pod_uid: path.substring_char(b + 1, c),
                container_name: path.substring_char(container.0, container.1),
            },
        ),
        None => None,
    }
}

} // verus!
