//! From a pod's identity to the directory of its logs.

use crate::platform::{get_k8s_logs_dir, k8s_logs_dir, Platform};
use vstd::prelude::*;

verus! {

/// The name of a pod's log directory: namespace, name and UID, joined by `_`.
/// Nothing is escaped, so a field that holds `_` itself cannot be told from
/// two fields when the name is read back.
pub open spec fn pod_dir_name(namespace: Seq<char>, name: Seq<char>, uid: Seq<char>) -> Seq<char> {
    namespace + seq!['_'] + name + seq!['_'] + uid
}

/// The directory of a pod's logs: the root directory, the platform's
/// separator, and the pod's directory name.
pub open spec fn pod_logs_directory(
    platform: Platform,
    namespace: Seq<char>,
    name: Seq<char>,
    uid: Seq<char>,
) -> Seq<char> {
    k8s_logs_dir(platform) + seq![platform.main_separator_spec()] + pod_dir_name(
        namespace,
        name,
        uid,
    )
}

/// Builds the absolute path of the log directory of a pod sandbox.
///
/// Every triple of strings is accepted, the empty ones too: three empty
/// fields give the directory name `__`. No field is read as a path, so the
/// root directory stays in front whatever the fields hold. The result depends
/// on the arguments alone.
pub fn build_pod_logs_directory(
    platform: Platform,
    pod_namespace: &str,
    pod_name: &str,
    pod_uid: &str,
) -> (dir: String)
    ensures
        dir@ == pod_logs_directory(platform, pod_namespace@, pod_name@, pod_uid@),
{
    proof {
        reveal_strlit("_");
    }
    let mut dir = String::from_str(get_k8s_logs_dir(platform));
    dir.append(platform.main_separator_str());
    dir.append(pod_namespace);
    dir.append("_");
    dir.append(pod_name);
    dir.append("_");
    dir.append(pod_uid);
    assert("_"@ =~= seq!['_']);
    assert(dir@ =~= pod_logs_directory(platform, pod_namespace@, pod_name@, pod_uid@));
    dir
}

} // verus!
