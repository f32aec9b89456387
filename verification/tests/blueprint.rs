use compile_fail::compile::{Blueprint, BlueprintError, CommandLine, Invocation, TargetKind};
use compile_fail::Config;

fn invocation_json(kind: &str, program: &str, args: &[&str]) -> String {
    let args: Vec<String> = args.iter().map(|a| format!("\"{}\"", a)).collect();
    format!(
        "{{\"package_name\":\"p\",\"package_version\":\"0.1.0\",\"target_kind\":[\"{}\"],\
         \"kind\":\"Host\",\"deps\":[],\"outputs\":[\"/t/out\"],\"links\":{{}},\
         \"program\":\"{}\",\"args\":[{}],\"env\":{{\"A\":\"b\"}},\"cwd\":\"/w\"}}",
        kind,
        program,
        args.join(","),
    )
}

fn plan_json(invocations: &[String]) -> Vec<u8> {
    format!("{{\"invocations\":[{}],\"inputs\":[\"/w/Cargo.toml\"]}}", invocations.join(","))
        .into_bytes()
}

fn strings(items: &[&str]) -> Vec<String> {
    items.iter().map(|s| s.to_string()).collect()
}

fn usual_plan() -> Vec<u8> {
    plan_json(&[
        invocation_json("lib", "rustc", &["--crate-name", "dep", "dep/src/lib.rs"]),
        invocation_json("custom-build", "build-script", &["tests/compile-fail.rs"]),
        invocation_json(
            "test",
            "/usr/bin/rustc",
            &[
                "--crate-name",
                "compile_fail",
                "tests/compile-fail.rs",
                "--test",
                "--emit=link",
                "--out-dir",
                "/target/debug/deps",
                "-L",
                "dependency=/target/debug/deps",
            ],
        ),
    ])
}

#[test]
fn blueprint_is_taken_from_the_test_invocation_of_the_plan() {
    let blueprint = Blueprint::obtain(&Config::default(), &usual_plan()).unwrap();
    assert_eq!(blueprint.build_command("tests/compile-fail/a.rs"), CommandLine {
        program: "/usr/bin/rustc".to_string(),
        args: strings(&[
            "--crate-name",
            "compile_fail",
            "tests/compile-fail/a.rs",
            "--emit=link",
            "--out-dir",
            "/target/debug/deps",
            "-L",
            "dependency=/target/debug/deps",
        ]),
    });
}

#[test]
fn output_directory_replaces_the_value_of_out_dir() {
    let mut blueprint = Blueprint::obtain(&Config::default(), &usual_plan()).unwrap();
    blueprint.set_out_dir("/tmp/rust-compile-fail.x".to_string());
    let copy = blueprint.clone();
    assert_eq!(blueprint.build_command("b.rs").args, strings(&[
        "--crate-name",
        "compile_fail",
        "b.rs",
        "--emit=link",
        "--out-dir",
        "/tmp/rust-compile-fail.x",
        "-L",
        "dependency=/target/debug/deps",
    ]));
    assert_eq!(copy.build_command("b.rs"), blueprint.build_command("b.rs"));
}

#[test]
fn what_is_no_build_plan_is_refused() {
    for raw in ["", "not json", "{\"invocations\":3}", "{\"invocations\":[]}"] {
        match Blueprint::obtain(&Config::default(), raw.as_bytes()) {
            Err(BlueprintError::InvalidPlan(_)) => {}
            other => panic!("expected an invalid plan for {:?}, got {:?}", raw, other),
        }
    }
}

#[test]
fn plan_must_hold_exactly_one_test_invocation() {
    let none = plan_json(&[invocation_json("bin", "rustc", &["tests/compile-fail.rs"])]);
    match Blueprint::obtain(&Config::default(), &none) {
        Err(BlueprintError::TestTargets { found }) => assert_eq!(found, 0),
        other => panic!("expected no test target, got {:?}", other),
    }
    let empty = plan_json(&[]);
    match Blueprint::obtain(&Config::default(), &empty) {
        Err(BlueprintError::TestTargets { found }) => assert_eq!(found, 0),
        other => panic!("expected no test target, got {:?}", other),
    }
    let two = plan_json(&[
        invocation_json("test", "rustc", &["tests/compile-fail.rs"]),
        invocation_json("bench", "rustc", &["tests/compile-fail.rs"]),
        invocation_json("test", "rustc", &["tests/compile-fail.rs"]),
    ]);
    match Blueprint::obtain(&Config::default(), &two) {
        Err(BlueprintError::TestTargets { found }) => assert_eq!(found, 2),
        other => panic!("expected two test targets, got {:?}", other),
    }
}

#[test]
fn wrapper_test_must_be_exactly_one_argument() {
    let config = Config { wrapper_test: "tests/wrapper.rs", ..Config::default() };
    match Blueprint::obtain(&config, &usual_plan()) {
        Err(BlueprintError::WrapperTestNotFound) => {}
        other => panic!("expected a missing wrapper test, got {:?}", other),
    }
    let twice = plan_json(&[invocation_json(
        "test",
        "rustc",
        &["--test", "tests/wrapper.rs", "-x", "--test", "tests/wrapper.rs", "tests/wrapper.rs2"],
    )]);
    match Blueprint::obtain(&config, &twice) {
        Err(BlueprintError::WrapperTestAmbiguous { positions }) => assert_eq!(positions, vec![0, 2]),
        other => panic!("expected an ambiguous wrapper test, got {:?}", other),
    }
}

#[test]
fn blueprint_can_be_made_from_invocations_at_hand() {
    let invocations = vec![
        Invocation {
            target_kind: TargetKind::ExampleBin,
            program: "rustc".to_string(),
            args: strings(&["w.rs"]),
        },
        Invocation {
            target_kind: TargetKind::Test,
            program: "rustc2".to_string(),
            args: strings(&["--out-dir", "w.rs", "--out-dir", "--out-dir", "x", "--test"]),
        },
    ];
    let mut blueprint = Blueprint::from_invocations(&invocations, "w.rs").unwrap();
    assert_eq!(blueprint.build_command("s.rs"), CommandLine {
        program: "rustc2".to_string(),
        args: strings(&["--out-dir", "s.rs", "--out-dir", "--out-dir", "x"]),
    });
    blueprint.set_out_dir("o".to_string());
    assert_eq!(blueprint.build_command("s.rs").args, strings(&[
        "--out-dir",
        "s.rs",
        "o",
        "--out-dir",
        "o",
    ]));
}
