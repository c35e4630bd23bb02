use java_manager::locate::{do_locate_java_home, follow_symlinks, java_exec_path_validation};
use java_manager::{
    get_jvm_dyn_lib_file_name, locate_file, locate_java_home, locate_jvm_dyn_library,
    CommandOutput, ErrorKind, JavaLocatorError, Platform, Reply, Request, Step,
};

fn printed(stdout: &str) -> Reply {
    Reply::Output(CommandOutput {
        success: true,
        stdout: stdout.as_bytes().to_vec(),
        stderr: Vec::new(),
    })
}

fn run(program: &str, arguments: &[&str]) -> Request {
    Request::Run(program.to_string(), arguments.iter().map(|a| a.to_string()).collect())
}

fn text(s: &str) -> String {
    s.to_string()
}

/// A host with a `JAVA_HOME`, a locator output, links and files.
struct Host {
    java_home: Option<&'static str>,
    located: &'static str,
    links: Vec<(&'static str, &'static str)>,
    files: Vec<&'static str>,
}

impl Host {
    fn answer(&self, request: &Request) -> Reply {
        match request {
            Request::Variable(name) if name == "JAVA_HOME" => {
                Reply::Variable(self.java_home.map(text))
            }
            Request::Variable(_) => Reply::Variable(None),
            Request::Run(_, _) => printed(self.located),
            Request::Link(path) => Reply::Link(
                self.links.iter().find(|(from, _)| from == path).map(|(_, to)| text(to)),
            ),
            Request::Exists(path) => Reply::Exists(self.files.contains(&path.as_str())),
            Request::Glob(pattern) => match glob::Pattern::new(pattern) {
                Ok(compiled) => Reply::Found(
                    self.files.iter().find(|file| compiled.matches(file)).map(|file| text(file)),
                ),
                Err(e) => Reply::Rejected(e.into()),
            },
            Request::Directories(_) => Reply::Directories(Vec::new()),
        }
    }
}

fn drive<T>(host: &Host, operation: impl Fn(&[Reply]) -> Step<T>) -> (T, Vec<Request>) {
    let mut replies: Vec<Reply> = Vec::new();
    let mut asked: Vec<Request> = Vec::new();
    loop {
        match operation(&replies) {
            Step::Ask(request) => {
                replies.push(host.answer(&request));
                asked.push(request);
            }
            Step::Done(value, used) => {
                assert_eq!(used, replies.len());
                return (value, asked);
            }
        }
    }
}

fn linux() -> Host {
    Host {
        java_home: None,
        located: "/usr/bin/java\n",
        links: vec![
            ("/usr/bin/java", "/etc/alternatives/java"),
            ("/etc/alternatives/java", "/usr/lib/jvm/java-11-openjdk/bin/java"),
        ],
        files: vec![
            "/usr/lib/jvm/java-11-openjdk/bin/java",
            "/usr/lib/jvm/java-11-openjdk/lib/server/libjvm.so",
            "/usr/lib/jvm/java-11-openjdk/lib/libjsig.so",
        ],
    }
}

#[test]
fn test_locate_java_home() {
    let host = linux();
    match drive(&host, |replies| locate_java_home(Platform::Unix, replies)).0 {
        Ok(path) => {
            println!("Java home: {}", path);
            assert!(host.files.iter().any(|file| file.starts_with(&path)));
            assert_eq!(path, "/usr/lib/jvm/java-11-openjdk");
        }
        Err(e) => {
            panic!("Error locating Java home: {}", e.to_string());
        }
    }
}

#[test]
fn test_locate_jvm_dyn_library() {
    let host = linux();
    match drive(&host, |replies| locate_jvm_dyn_library(Platform::Unix, replies)).0 {
        Ok(path) => {
            println!("JVM library path: {}", path);
            assert!(host.files.iter().any(|file| file.starts_with(&path)));
            assert_eq!(path, "/usr/lib/jvm/java-11-openjdk/lib/server");
        }
        Err(e) => {
            panic!("Error locating JVM library: {}", e.to_string());
        }
    }
}

#[test]
fn test_locate_file_with_wildcard() {
    let host = linux();
    if let Ok(java_home) = drive(&host, |replies| locate_java_home(Platform::Unix, replies)).0 {
        let java_exec = "java";
        let (found, asked) = drive(&host, |replies| locate_file(Platform::Unix, java_exec, replies));
        match found {
            Ok(path) => {
                println!("Found {} in: {}", java_exec, path);
                assert!(host.files.iter().any(|file| file.starts_with(&path)));
                assert_eq!(path, format!("{}/bin", java_home));
            }
            Err(e) => {
                panic!("Error locating {}: {}", java_exec, e.to_string());
            }
        }
        assert_eq!(
            asked.last(),
            Some(&Request::Glob(text("/usr/lib/jvm/java-11-openjdk/**/java")))
        );
        let (found, asked) = drive(&host, |replies| locate_file(Platform::Unix, "libjsig*", replies));
        assert_eq!(found.unwrap(), "/usr/lib/jvm/java-11-openjdk/lib");
        assert_eq!(
            asked.last(),
            Some(&Request::Glob(text("/usr/lib/jvm/java-11-openjdk/**/libjsig*")))
        );
    }
}

#[test]
fn test_get_jvm_dyn_lib_file_name() {
    for platform in [Platform::Windows, Platform::MacOs, Platform::Unix] {
        let lib_name = get_jvm_dyn_lib_file_name(platform);
        println!("Platform JVM library name: {}", lib_name);

        if platform == Platform::Windows {
            assert_eq!(lib_name, "jvm.dll");
        } else if platform == Platform::MacOs {
            assert_eq!(lib_name, "libjvm.dylib");
        } else {
            assert_eq!(lib_name, "libjvm.so");
        }
    }
}

#[test]
fn test_follow_symlinks() {
    let host = Host {
        java_home: None,
        located: "",
        links: vec![("/tmp/dir/link.txt", "/tmp/dir/target.txt")],
        files: vec!["/tmp/dir/target.txt"],
    };
    let (followed, asked) =
        drive(&host, |replies| follow_symlinks(Platform::Unix, "/tmp/dir/link.txt", replies));
    let followed = followed.unwrap();
    assert!(host.files.contains(&followed.as_str()));
    assert_eq!(followed, "/tmp/dir/target.txt");
    assert_eq!(
        asked,
        vec![Request::Link(text("/tmp/dir/link.txt")), Request::Link(text("/tmp/dir/target.txt"))]
    );
}

#[test]
fn java_home_of_the_environment_is_taken_as_it_is() {
    let host = Host { java_home: Some("/no/such/place/"), ..linux() };
    let (home, asked) = drive(&host, |replies| locate_java_home(Platform::Unix, replies));
    assert_eq!(home.unwrap(), "/no/such/place/");
    assert_eq!(asked, vec![Request::Variable(text("JAVA_HOME"))]);

    let host = Host { java_home: Some(""), ..linux() };
    let (home, asked) = drive(&host, |replies| locate_java_home(Platform::Unix, replies));
    assert_eq!(home.unwrap(), "/usr/lib/jvm/java-11-openjdk");
    assert_eq!(
        asked,
        vec![
            Request::Variable(text("JAVA_HOME")),
            run("which", &["java"]),
            Request::Link(text("/usr/bin/java")),
            Request::Link(text("/etc/alternatives/java")),
            Request::Link(text("/usr/lib/jvm/java-11-openjdk/bin/java")),
        ]
    );
}

#[test]
fn relative_links_are_read_from_the_directory_of_the_link() {
    let host = Host {
        java_home: None,
        located: "  /opt/current/bin/java \n",
        links: vec![
            ("/opt/current/bin/java", "../../jdk-21/bin/java"),
            ("/opt/current/bin/../../jdk-21/bin/java", "java21"),
        ],
        files: vec![],
    };
    let (real, _) =
        drive(&host, |replies| follow_symlinks(Platform::Unix, "/opt/current/bin/java", replies));
    assert_eq!(real.unwrap(), "/opt/current/bin/../../jdk-21/bin/java21");
    let (home, _) = drive(&host, |replies| do_locate_java_home(Platform::Unix, replies));
    assert_eq!(home.unwrap(), "/opt/current/bin/../../jdk-21");

    let host = Host { java_home: None, located: "", links: vec![("java", "real")], files: vec![] };
    let (real, _) = drive(&host, |replies| follow_symlinks(Platform::Unix, "java", replies));
    assert_eq!(real.unwrap(), "real");
    let host = Host { java_home: None, located: "", links: vec![("/java", "real")], files: vec![] };
    let (real, _) = drive(&host, |replies| follow_symlinks(Platform::Unix, "/java", replies));
    assert_eq!(real.unwrap(), "/real");
}

#[test]
fn absolute_links_depend_on_the_platform() {
    let windows = Host {
        java_home: None,
        located: "",
        links: vec![
            ("C:\\tools\\java.exe", "D:\\jdk\\bin\\java.exe"),
            ("C:\\tools\\a", "\\\\server\\share\\java.exe"),
            ("C:\\tools\\b", "/rooted/java.exe"),
            ("C:\\tools\\c", "D:java.exe"),
        ],
        files: vec![],
    };
    let follow = |path: &str| {
        drive(&windows, |replies| follow_symlinks(Platform::Windows, path, replies)).0.unwrap()
    };
    assert_eq!(follow("C:\\tools\\java.exe"), "D:\\jdk\\bin\\java.exe");
    assert_eq!(follow("C:\\tools\\a"), "\\\\server\\share\\java.exe");
    assert_eq!(follow("C:\\tools\\b"), "C:\\tools\\/rooted/java.exe");
    assert_eq!(follow("C:\\tools\\c"), "C:\\tools\\D:java.exe");

    let unix = Host {
        java_home: None,
        located: "",
        links: vec![("/opt/a", "C:\\jdk\\java"), ("/opt/b", "/abs")],
        files: vec![],
    };
    let follow =
        |path: &str| drive(&unix, |replies| follow_symlinks(Platform::Unix, path, replies)).0.unwrap();
    assert_eq!(follow("/opt/a"), "/opt/C:\\jdk\\java");
    assert_eq!(follow("/opt/b"), "/abs");
}

#[test]
fn the_locator_differs_from_platform_to_platform() {
    let none = [Reply::Variable(None)];
    assert_eq!(locate_java_home(Platform::Unix, &[]), Step::Ask(Request::Variable(text("JAVA_HOME"))));
    assert_eq!(locate_java_home(Platform::Unix, &none), Step::Ask(run("which", &["java"])));
    assert_eq!(locate_java_home(Platform::Windows, &none), Step::Ask(run("where", &["java"])));
    assert_eq!(
        locate_java_home(Platform::MacOs, &none),
        Step::Ask(run("/usr/libexec/java_home", &[]))
    );

    // macOS prints the home itself.
    let mac = Host {
        java_home: None,
        located: "/Library/Java/JavaVirtualMachines/jdk-17.jdk/Contents/Home\n",
        links: vec![],
        files: vec![],
    };
    let (home, _) = drive(&mac, |replies| locate_java_home(Platform::MacOs, replies));
    assert_eq!(home.unwrap(), "/Library/Java/JavaVirtualMachines/jdk-17.jdk/Contents/Home");

    // Windows may print several; the first that is more than white space
    // is taken.
    let windows = Host {
        java_home: None,
        located: " \r\nC:\\Program Files\\Java\\jdk-17\\bin\\java.exe\r\nC:\\other\\java.exe\r\n",
        links: vec![],
        files: vec![],
    };
    let (home, _) = drive(&windows, |replies| locate_java_home(Platform::Windows, replies));
    assert_eq!(home.unwrap(), "C:\\Program Files\\Java\\jdk-17");
}

#[test]
fn a_host_without_java_is_told_apart() {
    for located in ["", "\n", "  \t\r\n "] {
        let host = Host { java_home: None, located, links: vec![], files: vec![] };
        for platform in [Platform::Windows, Platform::MacOs, Platform::Unix] {
            let (home, asked) = drive(&host, |replies| locate_java_home(platform, replies));
            let e = home.unwrap_err();
            assert_eq!(e.kind(), ErrorKind::NotFound);
            assert_eq!(e.description(), "Java is not installed or not in the system PATH");
            assert_eq!(asked.len(), 2);
        }
    }
    let failed = [Reply::Variable(None), Reply::Failed(text("not found"))];
    for (platform, message) in [
        (Platform::Unix, "Failed to run command `which` (not found)"),
        (Platform::Windows, "Failed to run command `where` (not found)"),
        (Platform::MacOs, "Failed to run command `/usr/libexec/java_home` (not found)"),
    ] {
        match locate_java_home(platform, &failed) {
            Step::Done(Err(e), 2) => {
                assert_eq!(e.kind(), ErrorKind::NotFound);
                assert_eq!(e.description(), message);
            }
            other => panic!("unexpected: {:?}", other),
        }
    }
    let bytes = vec![b'/', 0xff];
    let shown = std::str::from_utf8(&bytes).unwrap_err().to_string();
    let garbled = [
        Reply::Variable(None),
        Reply::Output(CommandOutput { success: true, stdout: bytes, stderr: vec![] }),
    ];
    match locate_java_home(Platform::Unix, &garbled) {
        Step::Done(Err(e), 2) => {
            assert_eq!(e.kind(), ErrorKind::Encoding);
            assert_eq!(e.description(), format!("UTF-8 error: {}", shown));
        }
        other => panic!("unexpected: {:?}", other),
    }
    let unreadable = [
        Reply::Variable(None),
        printed("/usr/bin/java"),
        Reply::Link(Some(text("/opt/next"))),
        Reply::InvalidText(text("\"/opt/j\\xFF\"")),
    ];
    match locate_java_home(Platform::Unix, &unreadable) {
        Step::Done(Err(e), 4) => {
            assert_eq!(e.kind(), ErrorKind::NotFound);
            assert_eq!(e.description(), "Java path \"/opt/j\\xFF\" is invalid utf8");
        }
        other => panic!("unexpected: {:?}", other),
    }
}

#[test]
fn two_segments_are_taken_off_the_executable() {
    let home_of = |located: &'static str, platform: Platform| {
        let host = Host { java_home: None, located, links: vec![], files: vec![] };
        drive(&host, |replies| locate_java_home(platform, replies)).0.unwrap()
    };
    assert_eq!(home_of("/usr/lib/jvm/jdk/bin/java", Platform::Unix), "/usr/lib/jvm/jdk");
    assert_eq!(home_of("/usr/bin/java", Platform::Unix), "/usr");
    assert_eq!(home_of("/bin/java", Platform::Unix), "/");
    assert_eq!(home_of("/java", Platform::Unix), "/");
    assert_eq!(home_of("java", Platform::Unix), "");
    assert_eq!(home_of("C:\\jdk\\bin\\java.exe", Platform::Windows), "C:\\jdk");
    assert_eq!(home_of("/whatever/it/says", Platform::MacOs), "/whatever/it/says");
}

#[test]
fn the_empty_path_is_refused() {
    assert_eq!(java_exec_path_validation("/usr/bin/java"), Ok(()));
    assert_eq!(java_exec_path_validation(" "), Ok(()));
    assert_eq!(java_exec_path_validation(""), Err(JavaLocatorError::java_not_found()));
}

#[test]
fn wildcards_in_the_home_are_taken_literally() {
    let host = Host {
        java_home: Some("/opt/jdk[1]*?"),
        located: "",
        links: vec![],
        files: vec!["/opt/jdk[1]*?/lib/amd64/server/libjvm.so"],
    };
    let (found, asked) = drive(&host, |replies| locate_file(Platform::Unix, "libjvm.so", replies));
    assert_eq!(
        asked,
        vec![
            Request::Variable(text("JAVA_HOME")),
            Request::Glob(text("/opt/jdk[[]1[]][*][?]/**/libjvm.so")),
        ]
    );
    assert_eq!(found.unwrap(), "/opt/jdk[1]*?/lib/amd64/server");
    assert!(glob::Pattern::new("/opt/jdk[[]1[]][*][?]").unwrap().matches("/opt/jdk[1]*?"));
}

#[test]
fn the_library_pattern_differs_from_platform_to_platform() {
    let home = [Reply::Variable(Some(text("/opt/jdk")))];
    assert_eq!(
        locate_jvm_dyn_library(Platform::Unix, &home),
        Step::Ask(Request::Glob(text("/opt/jdk/**/libjvm.*")))
    );
    assert_eq!(
        locate_jvm_dyn_library(Platform::MacOs, &home),
        Step::Ask(Request::Glob(text("/opt/jdk/**/libjvm.*")))
    );
    let home = [Reply::Variable(Some(text("C:\\jdk")))];
    assert_eq!(
        locate_jvm_dyn_library(Platform::Windows, &home),
        Step::Ask(Request::Glob(text("C:\\jdk/**/jvm.dll")))
    );
}

#[test]
fn locate_file_reports_what_went_wrong() {
    let home = || Reply::Variable(Some(text("/opt/jdk")));
    match locate_file(Platform::Unix, "libjsig.so", &[home(), Reply::Found(None)]) {
        Step::Done(Err(e), 2) => {
            assert_eq!(e.kind(), ErrorKind::NotFound);
            assert_eq!(
                e.description(),
                "Could not find the libjsig.so library in any subdirectory of /opt/jdk"
            );
        }
        other => panic!("unexpected: {:?}", other),
    }
    let refused: JavaLocatorError = glob::glob("/opt/jdk/**/a**").err().unwrap().into();
    let shown = refused.description().to_string();
    match locate_file(Platform::Unix, "a**", &[home(), Reply::Rejected(refused)]) {
        Step::Done(Err(e), 2) => {
            assert_eq!(e.kind(), ErrorKind::Pattern);
            assert_eq!(e.description(), shown);
            assert!(shown.starts_with("Glob pattern error: Pattern syntax error near position "));
        }
        other => panic!("unexpected: {:?}", other),
    }
    match locate_file(Platform::Unix, "x", &[home(), Reply::InvalidText(text("\"\\xFF\""))]) {
        Step::Done(Err(e), 2) => {
            assert_eq!(e.kind(), ErrorKind::NotFound);
            assert_eq!(e.description(), "Java path \"\\xFF\" is invalid utf8");
        }
        other => panic!("unexpected: {:?}", other),
    }
    match locate_file(Platform::Unix, "x", &[Reply::Variable(None), printed("")]) {
        Step::Done(Err(e), 2) => assert_eq!(e.kind(), ErrorKind::NotFound),
        other => panic!("unexpected: {:?}", other),
    }
    // A match directly under the root lies in the root, and one without a
    // directory lies in the empty path.
    for (found, directory) in [("/libjvm.so", "/"), ("libjvm.so", ""), ("/a/libjvm.so", "/a")] {
        match locate_file(Platform::Unix, "x", &[home(), Reply::Found(Some(text(found)))]) {
            Step::Done(Ok(dir), 2) => assert_eq!(dir, directory),
            other => panic!("unexpected: {:?}", other),
        }
    }
}
