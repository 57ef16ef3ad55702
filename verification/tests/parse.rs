use pod_log_paths::segments::{chars_of, last_segment};
use pod_log_paths::{build_pod_logs_directory, parse_log_file_path, LogFileInfo, Platform};
use std::path::Path;

fn info<'a>(
    pod_namespace: &'a str,
    pod_name: &'a str,
    pod_uid: &'a str,
    container_name: &'a str,
) -> Option<LogFileInfo<'a>> {
    Some(LogFileInfo {
        pod_namespace,
        pod_name,
        pod_uid,
        container_name,
    })
}

#[test]
fn test_parse_log_file_path() {
    let cases = vec![
        // Valid inputs.
        (
            "/var/log/pods/sandbox0-ns_sandbox0-name_sandbox0-uid/sandbox0-container0-name/1.log",
            Some(LogFileInfo {
                pod_namespace: "sandbox0-ns",
                pod_name: "sandbox0-name",
                pod_uid: "sandbox0-uid",
                container_name: "sandbox0-container0-name",
            }),
        ),
        // Invalid inputs.
        ("/var/log/pods/other", None),
        ("qwe", None),
        ("", None),
    ];

    for (input, expected) in cases.into_iter() {
        assert_eq!(parse_log_file_path(Platform::Posix, input), expected);
    }
}

#[test]
fn test_parse_log_file_path_windows() {
    let cases = vec![
        (
            "C:\\var\\log\\pods\\sandbox0-ns_sandbox0-name_sandbox0-uid\\sandbox0-container0-name\\1.log",
            Some(LogFileInfo {
                pod_namespace: "sandbox0-ns",
                pod_name: "sandbox0-name",
                pod_uid: "sandbox0-uid",
                container_name: "sandbox0-container0-name",
            }),
        ),
        ("C:\\var\\log\\pods\\other", None),
        ("qwe", None),
        ("", None),
    ];

    for (input, expected) in cases.into_iter() {
        assert_eq!(parse_log_file_path(Platform::Windows, input), expected);
    }
}

#[test]
fn parse_needs_three_segments() {
    for path in ["", "/", "//", ".", "a_b_c", "a_b_c/", "/a_b_c", "a_b_c/x", "/a_b_c/x", "./a_b_c/x", "a_b_c/x/", "a_b_c//x", "a_b_c/./x", "a_b_c/x/."] {
        assert_eq!(parse_log_file_path(Platform::Posix, path), None, "{:?}", path);
        assert_eq!(parse_log_file_path(Platform::Windows, path), None, "{:?}", path);
    }
}

#[test]
fn parse_needs_two_underscores_in_the_pod_directory() {
    for path in [
        "/var/log/pods/other/container/1.log",
        "/var/log/pods/ns_name/container/1.log",
        "/var/log/pods/_/container/1.log",
        "ns-name-uid/container/1.log",
        "a_b_c/ns_name/container/1.log",
        "ns_name/a_b_c/1.log",
        "ns_name/c/a_b_c",
    ] {
        assert_eq!(parse_log_file_path(Platform::Posix, path), None, "{:?}", path);
        assert_eq!(parse_log_file_path(Platform::Windows, path), None, "{:?}", path);
    }
}

#[test]
fn parse_does_not_look_at_the_prefix() {
    let expected = info("ns", "name", "uid", "container");
    for path in [
        "ns_name_uid/container/1.log",
        "/ns_name_uid/container/1.log",
        "./ns_name_uid/container/1.log",
        "../ns_name_uid/container/1.log",
        "/var/log/pods/ns_name_uid/container/1.log",
        "/somewhere/else/entirely/ns_name_uid/container/1.log",
        "relative/ns_name_uid/container/1.log",
        "a_b_c/d_e_f/ns_name_uid/container/1.log",
        "C:\\var\\log\\pods/ns_name_uid/container/1.log",
    ] {
        assert_eq!(parse_log_file_path(Platform::Posix, path), expected, "{:?}", path);
        assert_eq!(parse_log_file_path(Platform::Windows, path), expected, "{:?}", path);
    }
}

#[test]
fn parse_takes_the_first_three_fields() {
    assert_eq!(
        parse_log_file_path(Platform::Posix, "/var/log/pods/a_b_c_d_e/container/0.log"),
        info("a", "b", "c", "container")
    );
    assert_eq!(
        parse_log_file_path(Platform::Posix, "/var/log/pods/a_b_c_/container/0.log"),
        info("a", "b", "c", "container")
    );
    assert_eq!(
        parse_log_file_path(Platform::Posix, "/var/log/pods/__/container/0.log"),
        info("", "", "", "container")
    );
    assert_eq!(
        parse_log_file_path(Platform::Posix, "/var/log/pods/___/container/0.log"),
        info("", "", "", "container")
    );
    assert_eq!(
        parse_log_file_path(Platform::Posix, "/var/log/pods/_name_/container/0.log"),
        info("", "name", "", "container")
    );
    assert_eq!(
        parse_log_file_path(Platform::Posix, "/var/log/pods/ns__uid/con_tai_ner/0_1_2.log"),
        info("ns", "", "uid", "con_tai_ner")
    );
}

#[test]
fn parse_passes_over_empty_and_dot_segments() {
    let expected = info("ns", "name", "uid", "container");
    for path in [
        "ns_name_uid/container/1.log/",
        "ns_name_uid/container/1.log//",
        "ns_name_uid//container///1.log",
        "ns_name_uid/./container/./1.log",
        "ns_name_uid/container/1.log/.",
        "ns_name_uid/container/1.log/./",
        "/./ns_name_uid/./container/1.log",
    ] {
        assert_eq!(parse_log_file_path(Platform::Posix, path), expected, "{:?}", path);
        assert_eq!(parse_log_file_path(Platform::Windows, path), expected, "{:?}", path);
    }
    assert_eq!(
        parse_log_file_path(Platform::Posix, "ns_name_uid/../1.log"),
        info("ns", "name", "uid", "..")
    );
    assert_eq!(
        parse_log_file_path(Platform::Posix, "ns_name_uid/.container/.."),
        info("ns", "name", "uid", ".container")
    );
    assert_eq!(
        parse_log_file_path(Platform::Posix, "ns_name_uid/container/1.log/x"),
        None
    );
}

#[test]
fn parse_separators_follow_the_platform() {
    let path = "C:\\var\\log\\pods\\ns_name_uid\\container\\1.log";
    assert_eq!(parse_log_file_path(Platform::Posix, path), None);
    assert_eq!(
        parse_log_file_path(Platform::Windows, path),
        info("ns", "name", "uid", "container")
    );

    let mixed = "C:\\var/log\\pods/ns_name_uid\\container/1.log";
    assert_eq!(
        parse_log_file_path(Platform::Windows, mixed),
        info("ns", "name", "uid", "container")
    );
    assert_eq!(
        parse_log_file_path(Platform::Posix, "x/a_b\\c_d/e\\f/g"),
        info("a", "b\\c", "d", "e\\f")
    );
    assert_eq!(parse_log_file_path(Platform::Windows, "x/a_b\\c_d/e\\f/g"), None);
}

#[test]
fn parse_counts_characters_not_bytes() {
    assert_eq!(
        parse_log_file_path(Platform::Posix, "/ログ/名前空間_pod-é_ü1d/コンテナ/1.log"),
        info("名前空間", "pod-é", "ü1d", "コンテナ")
    );
    assert_eq!(
        parse_log_file_path(Platform::Windows, "C:\\ログ\\é_ü_𝄞\\ß\\1.log"),
        info("é", "ü", "𝄞", "ß")
    );
}

#[test]
fn parse_fields_borrow_from_the_path() {
    let path = String::from("/var/log/pods/ns_name_uid/container/1.log");
    let parsed = parse_log_file_path(Platform::Posix, &path).unwrap();
    let start = path.as_ptr() as usize;
    let end = start + path.len();
    for field in [parsed.pod_namespace, parsed.pod_name, parsed.pod_uid, parsed.container_name] {
        let at = field.as_ptr() as usize;
        assert!(start <= at && at + field.len() <= end);
    }
    assert_eq!(parsed.pod_namespace.as_ptr() as usize - start, "/var/log/pods/".len());
}

#[test]
fn build_then_parse_gives_the_fields_back() {
    let fields = ["", "a", "kube-system", "pod-é", "web 0", "a.b", "."];
    let containers = ["c", "container-0", "..", ".c", "コンテナ"];
    for platform in [Platform::Posix, Platform::Windows] {
        for namespace in fields {
            for name in fields {
                for uid in fields {
                    for container in containers {
                        for sep in ["/", platform.main_separator_str()] {
                            let mut path = build_pod_logs_directory(platform, namespace, name, uid);
                            path.push_str(sep);
                            path.push_str(container);
                            path.push_str(sep);
                            path.push_str("0.log");
                            assert_eq!(
                                parse_log_file_path(platform, &path),
                                info(namespace, name, uid, container),
                                "{:?}",
                                path
                            );
                        }
                    }
                }
            }
        }
    }
}

#[test]
fn build_then_parse_splits_a_field_that_holds_an_underscore() {
    let mut path = build_pod_logs_directory(Platform::Posix, "a_b", "c", "d");
    path.push_str("/container/0.log");
    assert_eq!(
        parse_log_file_path(Platform::Posix, &path),
        info("a", "b", "c", "container")
    );

    let mut path = build_pod_logs_directory(Platform::Posix, "a", "b", "c_d");
    path.push_str("/container/0.log");
    assert_eq!(
        parse_log_file_path(Platform::Posix, &path),
        info("a", "b", "c", "container")
    );
}

#[test]
fn build_then_parse_loses_a_field_that_holds_a_separator() {
    let mut path = build_pod_logs_directory(Platform::Posix, "a/b", "c", "d");
    path.push_str("/container/0.log");
    assert_eq!(
        parse_log_file_path(Platform::Posix, &path),
        info("b", "c", "d", "container")
    );

    let mut path = build_pod_logs_directory(Platform::Posix, "a", "b", "c");
    path.push_str("/./0.log");
    assert_eq!(parse_log_file_path(Platform::Posix, &path), None);
}

#[test]
fn chars_of_gives_the_characters_in_order() {
    assert_eq!(chars_of(""), Vec::<char>::new());
    assert_eq!(chars_of("a/b"), vec!['a', '/', 'b']);
    assert_eq!(chars_of("é_𝄞"), vec!['é', '_', '𝄞']);
}

#[test]
fn last_segment_walks_back_from_the_end() {
    let chars = chars_of("/ab//c/./d.e/");
    let n = chars.len();
    assert_eq!(n, 13);
    assert_eq!(last_segment(Platform::Posix, &chars, n), Some((9, 12)));
    assert_eq!(last_segment(Platform::Posix, &chars, 12), Some((9, 12)));
    assert_eq!(last_segment(Platform::Posix, &chars, 11), Some((9, 11)));
    assert_eq!(last_segment(Platform::Posix, &chars, 10), Some((9, 10)));
    assert_eq!(last_segment(Platform::Posix, &chars, 9), Some((5, 6)));
    assert_eq!(last_segment(Platform::Posix, &chars, 5), Some((1, 3)));
    assert_eq!(last_segment(Platform::Posix, &chars, 2), Some((1, 2)));
    assert_eq!(last_segment(Platform::Posix, &chars, 1), None);
    assert_eq!(last_segment(Platform::Posix, &chars, 0), None);

    let chars = chars_of("a\\b/.");
    assert_eq!(last_segment(Platform::Posix, &chars, 5), Some((0, 3)));
    assert_eq!(last_segment(Platform::Windows, &chars, 5), Some((2, 3)));
    assert_eq!(last_segment(Platform::Windows, &chars, 2), Some((0, 1)));
}

/// The same question put to `std::path`, which splits by the rules of the
/// host.
fn parse_by_std_path(path: &str) -> Option<LogFileInfo<'_>> {
    let mut components = Path::new(path).iter().rev();
    let _log_file_name = components.next()?;
    let container_name = components.next()?.to_str()?;
    let pod_dir = components.next()?.to_str()?;
    let mut fields = pod_dir.split('_');
    let pod_namespace = fields.next()?;
    let pod_name = fields.next()?;
    let pod_uid = fields.next()?;
    Some(LogFileInfo {
        pod_namespace,
        pod_name,
        pod_uid,
        container_name,
    })
}

#[test]
fn parse_agrees_with_std_path_on_a_posix_host() {
    if std::path::MAIN_SEPARATOR != '/' {
        return;
    }
    let alphabet = ['/', '.', '_', 'a', '\\'];
    let mut paths: Vec<String> = vec![String::new()];
    let mut from = 0;
    for _ in 0..7 {
        let upto = paths.len();
        for i in from..upto {
            for c in alphabet {
                let mut longer = paths[i].clone();
                longer.push(c);
                paths.push(longer);
            }
        }
        from = upto;
    }
    assert_eq!(paths.len(), 97656);
    let mut parsed = 0;
    for path in paths.iter() {
        let ours = parse_log_file_path(Platform::Posix, path);
        assert_eq!(ours, parse_by_std_path(path), "{:?}", path);
        if ours.is_some() {
            parsed += 1;
        }
    }
    assert!(parsed > 0);
}
