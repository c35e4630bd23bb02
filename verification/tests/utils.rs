use java_manager::{
    get_java_architecture, get_java_info, get_java_suppliers, get_java_version,
    validate_java_executable, CommandOutput, ErrorKind, JavaInfo, JavaLocatorError, Reply,
    Request, Step,
};

fn printed(success: bool, stderr: &str) -> Reply {
    Reply::Output(CommandOutput {
        success,
        stdout: Vec::new(),
        stderr: stderr.as_bytes().to_vec(),
    })
}

fn run(path: &str, arguments: &[&str]) -> Request {
    Request::Run(path.to_string(), arguments.iter().map(|a| a.to_string()).collect())
}

/// A host on which `java` prints the given texts.
struct Java {
    version: &'static str,
    wide: bool,
    narrow: bool,
    properties: &'static str,
}

impl Java {
    fn answer(&self, request: &Request) -> Reply {
        match request {
            Request::Run(_, arguments) => {
                let flags: Vec<&str> = arguments.iter().map(|a| a.as_str()).collect();
                match flags.as_slice() {
                    ["-version"] => printed(true, self.version),
                    ["-d64", "-version"] => printed(self.wide, "d64"),
                    ["-d32", "-version"] => printed(self.narrow, "d32"),
                    ["-XshowSettings:properties", "-version"] => printed(true, self.properties),
                    _ => Reply::Failed("unexpected arguments".to_string()),
                }
            }
            Request::Exists(_) => Reply::Exists(true),
            _ => Reply::Exists(false),
        }
    }
}

fn drive<T>(java: &Java, operation: impl Fn(&[Reply]) -> Step<T>) -> (T, Vec<Request>) {
    let mut replies: Vec<Reply> = Vec::new();
    let mut asked: Vec<Request> = Vec::new();
    loop {
        match operation(&replies) {
            Step::Ask(request) => {
                replies.push(java.answer(&request));
                asked.push(request);
            }
            Step::Done(value, used) => {
                assert_eq!(used, replies.len());
                return (value, asked);
            }
        }
    }
}

const OPENJDK_11: &str = "openjdk version \"11.0.12\" 2021-07-20\nOpenJDK Runtime Environment 18.9 (build 11.0.12+7)\nOpenJDK 64-Bit Server VM 18.9 (build 11.0.12+7, mixed mode)\n";
const ORACLE_8: &str = "java version \"1.8.0_312\"\nJava(TM) SE Runtime Environment (build 1.8.0_312-b07)\nJava HotSpot(TM) 64-Bit Server VM (build 25.312-b07, mixed mode)\n";
const PROPERTIES: &str = "Property settings:\n    java.vendor = Oracle Corporation\n    java.vendor.url = https://java.oracle.com/\n    os.arch = amd64\n    os.name = Linux\n";

fn version_of(output: &str) -> Result<String, JavaLocatorError> {
    match get_java_version("/opt/jdk/bin/java", &[printed(true, output)]) {
        Step::Done(result, 1) => result,
        other => panic!("unexpected: {:?}", other),
    }
}

#[test]
fn test_get_java_version() {
    let java_home = "/opt/jdk";
    let java_exec_path = format!("{}/bin/java", java_home);
    let java = Java { version: OPENJDK_11, wide: true, narrow: false, properties: PROPERTIES };
    let (version, asked) = drive(&java, |replies| get_java_version(&java_exec_path, replies));
    assert!(version.is_ok());
    let version_str = version.unwrap();
    println!("Java version: {}", version_str);
    assert!(!version_str.is_empty());
    assert!(
        version_str.contains('.')
            || version_str.contains('_')
            || version_str.chars().any(|c| c.is_digit(10))
    );
    assert_eq!(version_str, "11.0.12");
    assert_eq!(asked, vec![run("/opt/jdk/bin/java", &["-version"])]);
}

#[test]
fn test_get_java_architecture() {
    let java_exec_path = format!("{}/bin/java", "/opt/jdk");
    let java = Java { version: OPENJDK_11, wide: false, narrow: false, properties: PROPERTIES };
    let (arch, asked) = drive(&java, |replies| get_java_architecture(&java_exec_path, replies));
    assert!(arch.is_ok());
    let arch_str = arch.unwrap();
    println!("Java architecture: {}", arch_str);
    assert!(arch_str == "64-bit" || arch_str == "32-bit" || arch_str == "Unknown");
    assert_eq!(arch_str, "64-bit");
    assert_eq!(
        asked,
        vec![
            run("/opt/jdk/bin/java", &["-d64", "-version"]),
            run("/opt/jdk/bin/java", &["-d32", "-version"]),
            run("/opt/jdk/bin/java", &["-XshowSettings:properties", "-version"]),
        ]
    );
}

#[test]
fn test_get_java_suppliers() {
    let java_exec_path = format!("{}/bin/java", "/opt/jdk");
    let java = Java { version: OPENJDK_11, wide: true, narrow: false, properties: PROPERTIES };
    let (supplier, asked) = drive(&java, |replies| get_java_suppliers(&java_exec_path, replies));
    assert!(supplier.is_ok());
    let supplier_str = supplier.unwrap();
    println!("Java supplier: {}", supplier_str);
    assert!(!supplier_str.is_empty());
    assert_eq!(supplier_str, "OpenJDK");
    assert_eq!(asked, vec![run("/opt/jdk/bin/java", &["-version"])]);
}

#[test]
fn test_get_java_info() {
    let java_exec_path = format!("{}/bin/java", "/opt/jdk");
    let java = Java { version: OPENJDK_11, wide: true, narrow: false, properties: PROPERTIES };
    let (info, asked) = drive(&java, |replies| get_java_info(&java_exec_path, replies));
    assert!(info.is_ok());
    let info = info.unwrap();
    println!("Java Info: {:?}", info);

    assert!(!info.name.is_empty());
    assert!(!info.path.is_empty());
    assert!(!info.version.is_empty());
    assert!(!info.architecture.is_empty());
    assert!(!info.suppliers.is_empty());

    assert_eq!(info.name, "java");
    assert_eq!(info.path, "/opt/jdk/bin/java");
    assert_eq!(info.version, "11.0.12");
    assert_eq!(info.architecture, "64-bit");
    assert_eq!(info.suppliers, "OpenJDK");
    assert_eq!(
        asked,
        vec![
            run("/opt/jdk/bin/java", &["-version"]),
            run("/opt/jdk/bin/java", &["-d64", "-version"]),
            run("/opt/jdk/bin/java", &["-version"]),
        ]
    );
}

#[test]
fn test_validate_java_executable() {
    let java_exec_path = format!("{}/bin/java", "/opt/jdk");
    let java = Java { version: OPENJDK_11, wide: true, narrow: false, properties: PROPERTIES };
    let (result, asked) =
        drive(&java, |replies| validate_java_executable(&java_exec_path, replies));
    assert!(result.is_ok());
    assert_eq!(
        asked,
        vec![
            Request::Exists("/opt/jdk/bin/java".to_string()),
            run("/opt/jdk/bin/java", &["-version"])
        ]
    );

    let result =
        validate_java_executable("/path/that/does/not/exist/java", &[Reply::Exists(false)]);
    match result {
        Step::Done(result, 1) => {
            assert!(result.is_err());
            let e = result.unwrap_err();
            assert_eq!(e.kind(), ErrorKind::NotFound);
            assert_eq!(
                e.description(),
                "Java executable not found: /path/that/does/not/exist/java"
            );
        }
        other => panic!("unexpected: {:?}", other),
    }
}

#[test]
fn test_version_parsing() {
    let test_cases = vec![
        ("java version \"1.8.0_312\"", "1.8.0_312"),
        ("openjdk version \"11.0.12\" 2021-07-20", "11.0.12"),
        ("java version \"17.0.1\" 2021-10-19 LTS", "17.0.1"),
        ("openjdk version \"1.8.0_302\"", "1.8.0_302"),
    ];

    for (input, expected) in test_cases {
        println!("Testing version parsing: {}", input);
        assert_eq!(version_of(input).unwrap(), expected);
    }
}

#[test]
fn test_supplier_patterns() {
    let test_cases = vec![
        ("OpenJDK Runtime Environment", "OpenJDK"),
        ("Java(TM) SE Runtime Environment", "Oracle"),
        ("IBM J9 VM", "IBM"),
        ("Zulu", "Azul"),
        ("AdoptOpenJDK", "AdoptOpenJDK/Adoptium"),
        ("Corretto", "Amazon Corretto"),
        ("Microsoft", "Microsoft"),
    ];

    for (input, expected) in test_cases {
        println!("Testing supplier pattern: {} -> {}", input, expected);
        // A text without marker sends the search on to the properties,
        // where the vendor is stated outright.
        let listing = format!("    java.vendor = {}\n", expected);
        let mut replies = vec![printed(true, input)];
        let supplier = match get_java_suppliers("/opt/jdk/bin/java", &replies) {
            Step::Done(found, 1) => found,
            Step::Ask(request) => {
                assert_eq!(
                    request,
                    run("/opt/jdk/bin/java", &["-XshowSettings:properties", "-version"])
                );
                replies.push(printed(true, &listing));
                match get_java_suppliers("/opt/jdk/bin/java", &replies) {
                    Step::Done(found, 2) => found,
                    other => panic!("unexpected: {:?}", other),
                }
            }
            other => panic!("unexpected: {:?}", other),
        };
        assert_eq!(supplier.unwrap(), expected);
    }
}

#[test]
fn version_is_taken_from_the_first_line_that_states_one() {
    assert_eq!(version_of(OPENJDK_11).unwrap(), "11.0.12");
    assert_eq!(version_of(ORACLE_8).unwrap(), "1.8.0_312");
    assert_eq!(
        version_of("Picked up JAVA_TOOL_OPTIONS: -Xmx1g\nopenjdk version \"21\" 2023-09-19\n")
            .unwrap(),
        "21"
    );
    assert_eq!(
        version_of("java version \"1.7.0\"\r\nopenjdk version \"9\"\r\n").unwrap(),
        "1.7.0"
    );
    assert_eq!(version_of("  \t openjdk version \"17.0.9\"  ").unwrap(), "17.0.9");
    assert_eq!(version_of("IBM semeru version \"11.0.20\" and \"more\"").unwrap(), "11.0.20");
    assert_eq!(version_of("java version \"\"").unwrap(), "");
}

#[test]
fn version_without_quotes_is_the_word_after_version() {
    assert_eq!(version_of("java version 17.0.1").unwrap(), "17.0.1");
    assert_eq!(version_of("openjdk version 11.0.2 2019-01-15").unwrap(), "11.0.2");
    assert_eq!(version_of("java versions: 8").unwrap(), "8");
    assert_eq!(version_of("openjdk version\t12\u{a0}rest").unwrap(), "12");
    // One quote opens no pair: the word after `version` is taken, and
    // quotes at its ends are taken off.
    assert_eq!(version_of("java version \"9").unwrap(), "9");
    assert_eq!(version_of("my version \"\"10").unwrap(), "");
}

#[test]
fn a_line_that_states_no_version_is_passed_over() {
    assert_eq!(version_of("java version\nopenjdk version \"9\"").unwrap(), "9");
    assert_eq!(version_of("version 1\n java version 2\nx version \"3\"").unwrap(), "3");
    for output in ["", "\n", "no such thing", "java version", "openjdk version   ", "Version \"1\""]
    {
        let e = version_of(output).unwrap_err();
        assert_eq!(e.kind(), ErrorKind::ProbeFailed);
        assert_eq!(e.description(), "Could not determine Java version");
    }
}

#[test]
fn version_probe_reports_what_went_wrong() {
    assert_eq!(
        get_java_version("/j", &[]),
        Step::Ask(Request::Run("/j".to_string(), vec!["-version".to_string()]))
    );
    match get_java_version("/j", &[Reply::Failed("Permission denied (os error 13)".to_string())]) {
        Step::Done(Err(e), 1) => {
            assert_eq!(e.kind(), ErrorKind::ProbeFailed);
            assert_eq!(
                e.description(),
                "Failed to run Java command: Permission denied (os error 13)"
            );
        }
        other => panic!("unexpected: {:?}", other),
    }
    match get_java_version("/j", &[Reply::Exists(true)]) {
        Step::Done(Err(e), 1) => {
            assert_eq!(e.description(), "Failed to run Java command: no program was run");
        }
        other => panic!("unexpected: {:?}", other),
    }
    let bytes = vec![b'j', b'a', 0xc3, 0x28];
    let shown = std::str::from_utf8(&bytes).unwrap_err().to_string();
    let reply = Reply::Output(CommandOutput { success: true, stdout: vec![], stderr: bytes });
    match get_java_version("/j", &[reply]) {
        Step::Done(Err(e), 1) => {
            assert_eq!(e.kind(), ErrorKind::Encoding);
            assert_eq!(e.description(), format!("UTF-8 error: {}", shown));
        }
        other => panic!("unexpected: {:?}", other),
    }
    // The version is read from standard error, whatever the exit status.
    let reply = Reply::Output(CommandOutput {
        success: false,
        stdout: b"java version \"1\"".to_vec(),
        stderr: "openjdk version \"2\u{e9}\"".as_bytes().to_vec(),
    });
    match get_java_version("/j", &[reply, Reply::Exists(true)]) {
        Step::Done(Ok(version), 1) => assert_eq!(version, "2\u{e9}"),
        other => panic!("unexpected: {:?}", other),
    }
}

#[test]
fn architecture_is_decided_by_the_first_run_that_succeeds() {
    let path = "/j";
    let wide = Java { version: "", wide: true, narrow: true, properties: "os.arch = x86" };
    let (found, asked) = drive(&wide, |replies| get_java_architecture(path, replies));
    assert_eq!(found.unwrap(), "64-bit");
    assert_eq!(asked, vec![run(path, &["-d64", "-version"])]);

    let narrow = Java { version: "", wide: false, narrow: true, properties: "os.arch = amd64" };
    let (found, asked) = drive(&narrow, |replies| get_java_architecture(path, replies));
    assert_eq!(found.unwrap(), "32-bit");
    assert_eq!(asked, vec![run(path, &["-d64", "-version"]), run(path, &["-d32", "-version"])]);
}

#[test]
fn architecture_falls_back_on_the_properties() {
    let listed = |properties: &'static str| {
        let java = Java { version: "", wide: false, narrow: false, properties };
        let (found, asked) = drive(&java, |replies| get_java_architecture("/j", replies));
        assert_eq!(asked.len(), 3);
        found.unwrap()
    };
    assert_eq!(listed(PROPERTIES), "64-bit");
    assert_eq!(listed("    os.arch = aarch64\n"), "64-bit");
    assert_eq!(listed("    os.arch = x86\n"), "32-bit");
    assert_eq!(listed("os.arch=i386"), "32-bit");
    assert_eq!(listed("os.arch="), "32-bit");
    assert_eq!(listed("    os.name = Linux\n"), "Unknown");
    assert_eq!(listed(""), "Unknown");
    assert_eq!(listed("os.arch = a=64\nos.arch amd64\n"), "Unknown");
    assert_eq!(listed("os.arch = a = b\n  sun.os.arch.data = 64-ish\n"), "64-bit");
    assert_eq!(listed("x = os.arch\n"), "32-bit");
    assert_eq!(listed("os.arch = \u{2003}x86_64\u{a0}\r\n"), "64-bit");
}

#[test]
fn architecture_probe_stops_at_a_run_that_cannot_start() {
    let failed = || Reply::Failed("gone".to_string());
    for replies in [
        vec![failed()],
        vec![printed(false, ""), failed()],
        vec![printed(false, ""), printed(false, ""), failed()],
    ] {
        let count = replies.len();
        match get_java_architecture("/j", &replies) {
            Step::Done(Err(e), used) => {
                assert_eq!(used, count);
                assert_eq!(e.kind(), ErrorKind::ProbeFailed);
                assert_eq!(e.description(), "Failed to run Java command: gone");
            }
            other => panic!("unexpected: {:?}", other),
        }
    }
    let garbled = Reply::Output(CommandOutput { success: true, stdout: vec![], stderr: vec![0x80] });
    match get_java_architecture("/j", &[printed(false, ""), printed(false, ""), garbled]) {
        Step::Done(Err(e), 3) => assert_eq!(e.kind(), ErrorKind::Encoding),
        other => panic!("unexpected: {:?}", other),
    }
}

fn supplier_of(version: &'static str) -> String {
    let java = Java { version, wide: true, narrow: false, properties: "" };
    drive(&java, |replies| get_java_suppliers("/j", replies)).0.unwrap()
}

#[test]
fn supplier_is_known_by_its_marker() {
    assert_eq!(supplier_of(OPENJDK_11), "OpenJDK");
    assert_eq!(supplier_of("OPENJDK Runtime"), "OpenJDK");
    assert_eq!(supplier_of("Oracle Corporation"), "Oracle");
    assert_eq!(supplier_of("build by IBM"), "IBM");
    assert_eq!(supplier_of("Azul Zulu"), "Azul");
    assert_eq!(supplier_of("AdoptOpenJDK (build 11)"), "AdoptOpenJDK/Adoptium");
    assert_eq!(supplier_of("Eclipse Adoptium"), "AdoptOpenJDK/Adoptium");
    assert_eq!(supplier_of("Amazon.com Inc."), "Amazon Corretto");
    assert_eq!(supplier_of("Corretto-17.0.9.8.1"), "Amazon Corretto");
    assert_eq!(supplier_of("MICROSOFT build"), "Microsoft");
    assert_eq!(supplier_of("SapMachine"), "SAP");
    assert_eq!(supplier_of("GraalVM CE 22.3.0"), "GraalVM");
    assert_eq!(supplier_of("BellSoft Liberica"), "BellSoft Liberica");
}

#[test]
fn supplier_markers_are_tried_in_order_line_by_line() {
    // `openjdk` does not count beside `adopt`, and the order of the markers
    // decides within a line.
    assert_eq!(supplier_of("OpenJDK by Eclipse Adoptium"), "AdoptOpenJDK/Adoptium");
    assert_eq!(supplier_of("OpenJDK adopted by Oracle"), "Oracle");
    assert_eq!(supplier_of("GraalVM by Oracle"), "Oracle");
    assert_eq!(supplier_of("OpenJDK GraalVM"), "OpenJDK");
    assert_eq!(supplier_of("Microsoft and Amazon"), "Amazon Corretto");
    assert_eq!(supplier_of("disable sapling"), "SAP");
    // The first line with a marker decides, whatever follows.
    assert_eq!(supplier_of("java version \"21\"\nGraalVM\nOracle\n"), "GraalVM");
    assert_eq!(supplier_of("Temurin adopt\nopenjdk\n"), "OpenJDK");
}

#[test]
fn supplier_falls_back_on_the_properties() {
    let listed = |properties: &'static str| {
        let java = Java { version: ORACLE_8_PLAIN, wide: true, narrow: false, properties };
        let (found, asked) = drive(&java, |replies| get_java_suppliers("/j", replies));
        assert_eq!(
            asked,
            vec![run("/j", &["-version"]), run("/j", &["-XshowSettings:properties", "-version"])]
        );
        found.unwrap()
    };
    assert_eq!(listed(PROPERTIES), "Oracle Corporation");
    assert_eq!(listed("java.vendor=Red Hat, Inc."), "Red Hat, Inc.");
    assert_eq!(listed("java.vendor.url = a = b\n\tjava.vendor.version =  Zing  \n"), "Zing");
    assert_eq!(listed("java.vendor ="), "");
    assert_eq!(listed("os.arch = amd64\n"), "Unknown");
    assert_eq!(listed(""), "Unknown");
}

const ORACLE_8_PLAIN: &str = "java version \"1.8.0_312\"\nJava(TM) SE Runtime Environment (build 1.8.0_312-b07)\nJava HotSpot(TM) 64-Bit Server VM (build 25.312-b07, mixed mode)\n";

#[test]
fn supplier_probe_reports_what_went_wrong() {
    match get_java_suppliers("/j", &[Reply::Failed("gone".to_string())]) {
        Step::Done(Err(e), 1) => assert_eq!(e.description(), "Failed to run Java command: gone"),
        other => panic!("unexpected: {:?}", other),
    }
    match get_java_suppliers("/j", &[printed(true, "plain"), Reply::Failed("late".to_string())]) {
        Step::Done(Err(e), 2) => assert_eq!(e.description(), "Failed to run Java command: late"),
        other => panic!("unexpected: {:?}", other),
    }
}

#[test]
fn info_fails_only_with_the_version() {
    // The version cannot be read: the record fails, after all three
    // searches were made.
    let java = Java { version: "nothing", wide: false, narrow: true, properties: PROPERTIES };
    let (info, asked) = drive(&java, |replies| get_java_info("/opt/jdk/bin/java", replies));
    let e = info.unwrap_err();
    assert_eq!(e.description(), "Could not determine Java version");
    assert_eq!(asked.len(), 5);

    // Architecture and supplier cannot be found: the record says `Unknown`.
    let replies = vec![
        printed(true, "java version \"1.8.0_312\""),
        Reply::Failed("gone".to_string()),
        Reply::Output(CommandOutput { success: true, stdout: vec![], stderr: vec![0xff] }),
    ];
    match get_java_info("C:\\jdk\\bin\\javaw.exe", &replies) {
        Step::Done(Ok(info), 3) => {
            assert_eq!(info.name, "javaw");
            assert_eq!(info.path, "C:\\jdk\\bin\\javaw.exe");
            assert_eq!(info.version, "1.8.0_312");
            assert_eq!(info.architecture, "Unknown");
            assert_eq!(info.suppliers, "Unknown");
        }
        other => panic!("unexpected: {:?}", other),
    }
}

#[test]
fn info_names_the_executable_by_the_stem_of_its_file() {
    let named = |path: &str| -> String {
        let java = Java { version: OPENJDK_11, wide: true, narrow: false, properties: "" };
        drive(&java, |replies| get_java_info(path, replies)).0.unwrap().name
    };
    assert_eq!(named("/usr/bin/java"), "java");
    assert_eq!(named("C:\\Java\\bin\\java.exe"), "java");
    assert_eq!(named("/opt/tools/java.11.bin"), "java.11");
    assert_eq!(named("/opt/.hidden"), ".hidden");
    assert_eq!(named("/opt/jdk/bin/"), "java");
    assert_eq!(named("/opt/jdk/.."), "java");
    assert_eq!(named(""), "java");
    assert_eq!(named("javac"), "javac");
    assert_eq!(named("/opt/jdk/bin/jav\u{e4}."), "jav\u{e4}");
}

#[test]
fn info_of_a_full_probe_equals_the_record_written_by_hand() {
    let java = Java { version: ORACLE_8, wide: false, narrow: false, properties: PROPERTIES };
    let (info, asked) = drive(&java, |replies| get_java_info("/usr/java/bin/java", replies));
    let info = info.unwrap();
    assert_eq!(info, JavaInfo::new("java", "/usr/java/bin/java", "1.8.0_312", "64-bit", "Oracle"));
    assert_eq!(info.architecture, "64-bit");
    assert_eq!(info.suppliers, "Oracle Corporation");
    assert_eq!(asked.len(), 6);
}

#[test]
fn validation_reports_what_went_wrong() {
    assert_eq!(validate_java_executable("/j", &[]), Step::Ask(Request::Exists("/j".to_string())));
    assert_eq!(
        validate_java_executable("/j", &[Reply::Exists(true)]),
        Step::Ask(run("/j", &["-version"]))
    );
    match validate_java_executable("/j", &[Reply::Exists(true), Reply::Failed("x".to_string())]) {
        Step::Done(Err(e), 2) => {
            assert_eq!(e.kind(), ErrorKind::ProbeFailed);
            assert_eq!(e.description(), "Failed to execute Java: x");
        }
        other => panic!("unexpected: {:?}", other),
    }
    match validate_java_executable("/j", &[Reply::Exists(true), printed(false, "")]) {
        Step::Done(Err(e), 2) => {
            assert_eq!(e.kind(), ErrorKind::ProbeFailed);
            assert_eq!(e.description(), "Java executable failed to run: /j");
        }
        other => panic!("unexpected: {:?}", other),
    }
    assert_eq!(
        validate_java_executable("/j", &[Reply::Exists(true), printed(true, "")]),
        Step::Done(Ok(()), 2)
    );
    match validate_java_executable("/j", &[Reply::Variable(None)]) {
        Step::Done(Err(e), 1) => assert_eq!(e.kind(), ErrorKind::NotFound),
        other => panic!("unexpected: {:?}", other),
    }
}
