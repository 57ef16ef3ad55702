//! What holds between building a pod's directory and parsing a path.

use crate::directory::{pod_dir_name, pod_logs_directory};
use crate::parse::{field_separators, parsed_log_file_path, LogFileInfoView};
use crate::platform::{k8s_logs_dir, Platform};
use crate::segments::{
    is_segment, lemma_segments_at, lemma_segments_begin, lemma_segments_push, segments,
};
use crate::split::{
    lemma_split_at, lemma_split_len, lemma_split_separator_free, separator_count, separator_free,
    split,
};
use vstd::prelude::*;

verus! {

/// A path parses exactly when it has three segments or more and the third
/// from the end holds two `_` or more. So a pod directory name with fewer
/// than two `_` gives no record.
pub proof fn lemma_parses_iff_two_underscores(platform: Platform, path: Seq<char>)
    ensures
        parsed_log_file_path(platform, path) is Some <==> {
            let segs = segments(platform, path);
            segs.len() >= 3 && separator_count(segs[segs.len() - 3], field_separators()) >= 2
        },
{
    let segs = segments(platform, path);
    if segs.len() >= 3 {
        lemma_split_len(segs[segs.len() - 3], field_separators());
    }
}

/// What stands before the pod's directory is not read: a path with three
/// segments or more parses to the same record behind any prefix that ends in
/// a separator, the root directory of pod logs or another.
pub proof fn lemma_prefix_is_ignored(platform: Platform, prefix: Seq<char>, path: Seq<char>)
    requires
        prefix.len() == 0 || platform.separators().contains(prefix.last()),
        segments(platform, path).len() >= 3,
    ensures
        parsed_log_file_path(platform, prefix + path) == parsed_log_file_path(platform, path),
{
    let whole = prefix + path;
    if prefix.len() == 0 {
        assert(whole == path);
    } else {
        let j = prefix.len() - 1;
        assert(whole[j] == prefix.last());
        assert(whole.skip(j + 1) == path);
        lemma_segments_at(platform, whole, j);
    }
}

/// A path that ends in a pod directory name, a container name and a file
/// name parses by these three alone, whether they stand at its start or
/// behind any prefix that ends in a separator: the record holds the first
/// three fields of the directory name and the container name, and there is
/// none where the directory name has fewer than three fields.
pub proof fn lemma_parse_last_three(
    platform: Platform,
    prefix: Seq<char>,
    pod_dir: Seq<char>,
    sep1: char,
    container: Seq<char>,
    sep2: char,
    file: Seq<char>,
)
    requires
        prefix.len() == 0 || platform.separators().contains(prefix.last()),
        platform.separators().contains(sep1),
        platform.separators().contains(sep2),
        is_segment(pod_dir) && separator_free(pod_dir, platform.separators()),
        is_segment(container) && separator_free(container, platform.separators()),
        is_segment(file) && separator_free(file, platform.separators()),
    ensures
        parsed_log_file_path(
            platform,
            prefix + pod_dir + seq![sep1] + container + seq![sep2] + file,
        ) == {
            let fields = split(pod_dir, field_separators());
            if fields.len() < 3 {
                None
            } else {
                Some(
                    LogFileInfoView {
                        pod_namespace: fields[0],
                        pod_name: fields[1],
                        pod_uid: fields[2],
                        container_name: container,
                    },
                )
            }
        },
{
    let upto_dir = prefix + pod_dir;
    let upto_container = upto_dir + seq![sep1] + container;
    lemma_segments_begin(platform, prefix, pod_dir);
    lemma_segments_push(platform, upto_dir, sep1, container);
    lemma_segments_push(platform, upto_container, sep2, file);
}

/// The fields of a pod's directory name are the three that it was made of,
/// provided that none of them holds `_`.
pub proof fn lemma_pod_dir_name_fields(namespace: Seq<char>, name: Seq<char>, uid: Seq<char>)
    requires
        separator_free(namespace, field_separators()),
        separator_free(name, field_separators()),
        separator_free(uid, field_separators()),
    ensures
        split(pod_dir_name(namespace, name, uid), field_separators()) == seq![namespace, name, uid],
{
    let seps = field_separators();
    let whole = pod_dir_name(namespace, name, uid);
    let tail = name + seq!['_'] + uid;
    let i = namespace.len() as int;
    assert(whole[i] == '_');
    assert(whole.take(i) == namespace);
    assert(whole.skip(i + 1) == tail);
    lemma_split_at(whole, seps, i);
    let j = name.len() as int;
    assert(tail[j] == '_');
    assert(tail.take(j) == name);
    assert(tail.skip(j + 1) == uid);
    lemma_split_at(tail, seps, j);
    lemma_split_separator_free(namespace, seps);
    lemma_split_separator_free(name, seps);
    lemma_split_separator_free(uid, seps);
    assert(seq![namespace] + (seq![name] + seq![uid]) == seq![namespace, name, uid]);
}

/// Building and then parsing gives back what was built from: the path of a
/// log file `file` of a container `container`, under the directory built for a
/// pod, parses to that pod's namespace, name and UID and to that container.
///
/// This holds where the three fields hold no `_`: the directory name escapes
/// nothing, and a field with `_` in it reads as two. The fields must hold no
/// path separator either, and the container and the file must each be one
/// segment, or the path would not have the three segments that were meant.
pub proof fn lemma_build_then_parse(
    platform: Platform,
    namespace: Seq<char>,
    name: Seq<char>,
    uid: Seq<char>,
    sep1: char,
    container: Seq<char>,
    sep2: char,
    file: Seq<char>,
)
    requires
        separator_free(namespace, field_separators()),
        separator_free(name, field_separators()),
        separator_free(uid, field_separators()),
        separator_free(namespace, platform.separators()),
        separator_free(name, platform.separators()),
        separator_free(uid, platform.separators()),
        platform.separators().contains(sep1),
        platform.separators().contains(sep2),
        is_segment(container) && separator_free(container, platform.separators()),
        is_segment(file) && separator_free(file, platform.separators()),
    ensures
        parsed_log_file_path(
            platform,
            pod_logs_directory(platform, namespace, name, uid) + seq![sep1] + container + seq![
                sep2,
            ] + file,
        ) == Some(
            LogFileInfoView {
                pod_namespace: namespace,
                pod_name: name,
                pod_uid: uid,
                container_name: container,
            },
        ),
{
    let pod_dir = pod_dir_name(namespace, name, uid);
    let root = k8s_logs_dir(platform);
    let sep0 = platform.main_separator_spec();
    assert(pod_dir[namespace.len() as int] == '_');
    assert forall|i: int| 0 <= i < pod_dir.len() implies !platform.separators().contains(
        #[trigger] pod_dir[i],
    ) by {
        let n = namespace.len();
        let m = n + 1 + name.len();
        if i < n {
            assert(pod_dir[i] == namespace[i]);
        } else if i == n {
        } else if i < m {
            assert(pod_dir[i] == name[i - n - 1]);
        } else if i == m {
            assert(pod_dir[i] == '_');
        } else {
            assert(pod_dir[i] == uid[i - m - 1]);
        }
    }
    platform.lemma_main_separator_separates();
    lemma_pod_dir_name_fields(namespace, name, uid);
    assert(pod_logs_directory(platform, namespace, name, uid) == root + seq![sep0] + pod_dir);
    lemma_parse_last_three(platform, root + seq![sep0], pod_dir, sep1, container, sep2, file);
}

} // verus!
