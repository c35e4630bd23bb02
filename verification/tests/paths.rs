use java_manager::paths::{
    absolute, file_stem_of, folder_of, home_directory_of, joined, last_segment_of,
    link_target_of, parent_of,
};
use java_manager::{JavaInfo, Platform};
use std::path::Path;

fn chars(s: &str) -> Vec<char> {
    s.chars().collect()
}

fn text(s: &[char]) -> String {
    s.iter().collect()
}

/// Paths written plainly: no repeated or trailing separators, no `.` or
/// `..`, and `/` as the only separator.
const PLAIN: &[&str] = &[
    "/usr/lib/jvm/java-11-openjdk/bin/java",
    "/usr/bin/java",
    "/bin/java",
    "/java",
    "/",
    "",
    "java",
    "bin/java",
    "opt/jdk/bin/java",
    "/opt/jdk/bin",
    "/opt/jdk/sbin/java",
    "/opt/jdk/bin/java.exe",
    "/opt/my jdk/bin/java",
    "/opt/jd\u{e9}k/bin/java",
    "/opt/jdk/.hidden",
    "/opt/jdk/archive.tar.gz",
    "/opt/jdk/trailing.",
    "bin",
    "/bin",
];

/// The home directory as the standard library's paths give it.
fn standard_home(path: &str) -> String {
    let p = Path::new(path);
    if let Some(parent) = p.parent() {
        if parent.ends_with("bin") {
            if let Some(java_home) = parent.parent() {
                return java_home.to_string_lossy().to_string();
            }
        }
    }
    path.to_string()
}

#[test]
fn home_directory_is_that_of_the_standard_paths_for_plain_paths() {
    for path in PLAIN {
        let info = JavaInfo::new("java", path, "11", "64-bit", "X");
        assert_eq!(info.get_java_home(), standard_home(path), "home of {:?}", path);
        assert_eq!(text(home_directory_of(&chars(path))), standard_home(path));
    }
}

#[test]
fn parent_is_that_of_the_standard_paths_for_plain_paths() {
    for path in PLAIN {
        let expected = Path::new(path).parent().map(|p| p.to_str().unwrap().to_string());
        let p = chars(path);
        assert_eq!(parent_of(&p).map(text), expected, "parent of {:?}", path);
        let mut popped = Path::new(path).to_path_buf();
        popped.pop();
        assert_eq!(text(folder_of(&p)), popped.to_str().unwrap(), "folder of {:?}", path);
    }
}

#[test]
fn file_stem_is_that_of_the_standard_paths_for_plain_paths() {
    for path in PLAIN {
        let expected = Path::new(path).file_stem().map(|s| s.to_str().unwrap().to_string());
        assert_eq!(file_stem_of(&chars(path)).map(text), expected, "stem of {:?}", path);
        let name = Path::new(path).file_name().map(|s| s.to_str().unwrap()).unwrap_or("");
        assert_eq!(text(last_segment_of(&chars(path))), name, "name of {:?}", path);
    }
}

#[test]
fn joining_is_that_of_the_standard_paths_for_relative_rests() {
    for dir in PLAIN {
        for rest in ["java", "bin/java", "../lib/x", "a b"] {
            let expected = Path::new(dir).join(rest);
            assert_eq!(
                text(&joined(Platform::Unix, &chars(dir), &chars(rest))),
                expected.to_str().unwrap(),
                "{:?} under {:?}",
                rest,
                dir
            );
        }
    }
    assert_eq!(text(&joined(Platform::Unix, &chars("/opt/"), &chars("java"))), "/opt/java");
    assert_eq!(text(&joined(Platform::Windows, &chars("C:\\jdk"), &chars("bin"))), "C:\\jdk\\bin");
    assert_eq!(text(&joined(Platform::Windows, &chars("C:\\jdk\\"), &chars("bin"))), "C:\\jdk\\bin");
    assert_eq!(text(&joined(Platform::Windows, &chars("C:/jdk/"), &chars("bin"))), "C:/jdk/bin");
    assert_eq!(text(&joined(Platform::MacOs, &chars(""), &chars("bin"))), "bin");
}

#[test]
fn links_resolve_as_the_standard_paths_resolve_them() {
    for link in PLAIN {
        for target in ["/etc/alternatives/java", "java11", "../jdk/bin/java"] {
            let mut expected = Path::new(link).to_path_buf();
            if Path::new(target).is_absolute() {
                expected = Path::new(target).to_path_buf();
            } else {
                expected.pop();
                expected.push(target);
            }
            assert_eq!(
                text(&link_target_of(Platform::Unix, &chars(link), &chars(target))),
                expected.to_str().unwrap(),
                "{:?} in {:?}",
                target,
                link
            );
            assert_eq!(absolute(Platform::Unix, &chars(target)), Path::new(target).is_absolute());
        }
    }
}

#[test]
fn absolute_paths_depend_on_the_platform() {
    for (path, windows, unix) in [
        ("C:\\jdk", true, false),
        ("C:/jdk", true, false),
        ("c:\\", true, false),
        ("C:jdk", false, false),
        ("C:", false, false),
        ("\\\\server\\share", true, false),
        ("//server/share", true, true),
        ("\\jdk", false, false),
        ("/jdk", false, true),
        ("/", false, true),
        ("jdk", false, false),
        ("", false, false),
    ] {
        assert_eq!(absolute(Platform::Windows, &chars(path)), windows, "{:?} on Windows", path);
        assert_eq!(absolute(Platform::Unix, &chars(path)), unix, "{:?} on Unix", path);
        assert_eq!(absolute(Platform::MacOs, &chars(path)), unix, "{:?} on macOS", path);
    }
}

#[test]
fn paths_are_taken_as_written() {
    // Nothing is normalised, and both separators count everywhere.
    let home = |p: &str| text(home_directory_of(&chars(p)));
    assert_eq!(home("/opt/jdk//bin/java"), "/opt/jdk/");
    assert_eq!(home("/opt/jdk/bin/java/"), "/opt/jdk/bin/java/");
    assert_eq!(home("/opt/jdk/bin/./java"), "/opt/jdk/bin/./java");
    assert_eq!(home("/opt/jdk\\bin/java"), "/opt/jdk");
    assert_eq!(home("C:\\bin\\java.exe"), "C:");
    assert_eq!(parent_of(&chars("/opt/")).map(text), Some("/opt".to_string()));
    assert_eq!(file_stem_of(&chars("/opt/jdk/")).map(text), None);
    assert_eq!(file_stem_of(&chars("/opt/jdk/..")).map(text), None);
    assert_eq!(file_stem_of(&chars("/opt/jdk/.")).map(text), Some(".".to_string()));
    assert_eq!(file_stem_of(&chars("a\\b.c.d")).map(text), Some("b.c".to_string()));
}
