use cross_cli::cli::{parse, Args, Environment};
use cross_cli::subcommand::Subcommand;
use cross_cli::target::{Target, TargetList};

fn strings(items: &[&str]) -> Vec<String> {
    items.iter().map(|s| s.to_string()).collect()
}

fn targets() -> TargetList {
    TargetList {
        triples: strings(&["x86_64-unknown-linux-gnu", "aarch64-unknown-linux-gnu"]),
    }
}

fn work() -> Environment {
    Environment { current_dir: Some("/work".to_string()), docker_in_docker: None }
}

fn run(items: &[&str]) -> Args {
    parse(&strings(items), &targets(), &work())
}

#[test]
fn channel_and_subcommand() {
    let args = run(&["+nightly", "build"]);
    assert_eq!(args.channel, Some("nightly".to_string()));
    assert_eq!(args.subcommand, Some(Subcommand::Build));
    assert_eq!(args.all, strings(&["+nightly", "build"]));
    assert_eq!(args.target, None);
    assert_eq!(args.target_dir, None);
    assert_eq!(args.manifest_path, None);
    assert!(!args.docker_in_docker);
}

#[test]
fn target_dir_in_two_tokens() {
    let args = run(&["--target-dir", "/home/u/out", "test"]);
    assert_eq!(args.target_dir, Some("/home/u/out".to_string()));
    assert_eq!(args.all, strings(&["--target-dir", "/target", "test"]));
    assert_eq!(args.subcommand, Some(Subcommand::Test));
}

#[test]
fn target_dir_in_one_token() {
    let args = run(&["--target-dir=/x"]);
    assert_eq!(args.target_dir, Some("/x".to_string()));
    assert_eq!(args.all, strings(&["--target-dir=/target"]));
    assert_eq!(args.subcommand, None);
}

#[test]
fn target_dir_in_one_token_keeps_later_equals_signs() {
    let args = run(&["--target-dir=/x=y", "build"]);
    assert_eq!(args.target_dir, Some("/x=y".to_string()));
    assert_eq!(args.all, strings(&["--target-dir=/target", "build"]));
}

#[test]
fn target_dir_with_empty_value_in_one_token() {
    let args = run(&["--target-dir="]);
    assert_eq!(args.target_dir, Some(String::new()));
    assert_eq!(args.all, strings(&["--target-dir=/target"]));
}

#[test]
fn relative_manifest_path_in_one_token() {
    let args = run(&["--manifest-path=rel/Cargo.toml"]);
    assert_eq!(args.manifest_path, Some("/work/rel/Cargo.toml".to_string()));
    assert_eq!(args.all, strings(&["--manifest-path=rel/Cargo.toml"]));
}

#[test]
fn relative_manifest_path_in_two_tokens() {
    let args = run(&["build", "--manifest-path", "rel/Cargo.toml"]);
    assert_eq!(args.manifest_path, Some("/work/rel/Cargo.toml".to_string()));
    assert_eq!(args.all, strings(&["build", "--manifest-path", "rel/Cargo.toml"]));
    assert_eq!(args.subcommand, Some(Subcommand::Build));
}

#[test]
fn absolute_manifest_path_stands_for_itself() {
    let args = run(&["--manifest-path", "/src/Cargo.toml"]);
    assert_eq!(args.manifest_path, Some("/src/Cargo.toml".to_string()));
    let args = run(&["--manifest-path=/src/Cargo.toml"]);
    assert_eq!(args.manifest_path, Some("/src/Cargo.toml".to_string()));
}

#[test]
fn manifest_path_without_working_directory() {
    let env = Environment { current_dir: None, docker_in_docker: None };
    let args = parse(&strings(&["--manifest-path", "/src/Cargo.toml"]), &targets(), &env);
    assert_eq!(args.manifest_path, None);
    assert_eq!(args.all, strings(&["--manifest-path", "/src/Cargo.toml"]));
    let args = parse(&strings(&["--manifest-path=Cargo.toml"]), &targets(), &env);
    assert_eq!(args.manifest_path, None);
    assert_eq!(args.all, strings(&["--manifest-path=Cargo.toml"]));
}

#[test]
fn unknown_target_is_unresolved() {
    let args = run(&["--target", "unknownplatform"]);
    assert_eq!(args.target, Some(Target::Unresolved { triple: "unknownplatform".to_string() }));
    assert_eq!(args.all, strings(&["--target", "unknownplatform"]));
}

#[test]
fn known_target_in_two_tokens() {
    let args = run(&["build", "--target", "aarch64-unknown-linux-gnu"]);
    assert_eq!(
        args.target,
        Some(Target::Known { triple: "aarch64-unknown-linux-gnu".to_string() })
    );
    assert_eq!(args.all, strings(&["build", "--target", "aarch64-unknown-linux-gnu"]));
}

#[test]
fn target_in_one_token() {
    let args = run(&["--target=x86_64-unknown-linux-gnu", "run"]);
    assert_eq!(
        args.target,
        Some(Target::Known { triple: "x86_64-unknown-linux-gnu".to_string() })
    );
    assert_eq!(args.all, strings(&["--target=x86_64-unknown-linux-gnu", "run"]));
    assert_eq!(args.subcommand, Some(Subcommand::Run));
    let args = run(&["--target=nowhere"]);
    assert_eq!(args.target, Some(Target::Unresolved { triple: "nowhere".to_string() }));
}

#[test]
fn no_arguments() {
    let args = run(&[]);
    assert!(args.all.is_empty());
    assert_eq!(args.subcommand, None);
    assert_eq!(args.channel, None);
    assert_eq!(args.target, None);
    assert_eq!(args.target_dir, None);
    assert_eq!(args.manifest_path, None);
    assert!(!args.docker_in_docker);
}

#[test]
fn empty_tokens_are_dropped() {
    let args = run(&["", "build", "", "--release", ""]);
    assert_eq!(args.all, strings(&["build", "--release"]));
    assert_eq!(args.subcommand, Some(Subcommand::Build));
}

#[test]
fn forwarded_count_is_count_of_written_tokens() {
    let raw = strings(&["", "+beta", "test", "", "--target-dir", "out", "--target-dir=o", "-v", ""]);
    let written = raw.iter().filter(|t| !t.is_empty()).count();
    let args = parse(&raw, &targets(), &work());
    assert_eq!(written, 6);
    assert_eq!(args.all.len(), written);
    assert_eq!(
        args.all,
        strings(&["+beta", "test", "--target-dir", "/target", "--target-dir=/target", "-v"])
    );
}

#[test]
fn empty_token_taken_as_value_is_forwarded() {
    let args = run(&["--target", ""]);
    assert_eq!(args.all, strings(&["--target", ""]));
    assert_eq!(args.target, Some(Target::Unresolved { triple: String::new() }));

    let args = run(&["--target-dir", "", "build"]);
    assert_eq!(args.all, strings(&["--target-dir", "/target", "build"]));
    assert_eq!(args.target_dir, Some(String::new()));

    let args = run(&["--manifest-path", ""]);
    assert_eq!(args.all, strings(&["--manifest-path", ""]));
    assert_eq!(args.manifest_path, Some("/work/".to_string()));
}

#[test]
fn flag_without_value_sets_nothing() {
    let args = run(&["build", "--target"]);
    assert_eq!(args.all, strings(&["build", "--target"]));
    assert_eq!(args.target, None);

    let args = run(&["--target-dir"]);
    assert_eq!(args.all, strings(&["--target-dir"]));
    assert_eq!(args.target_dir, None);

    let args = run(&["--manifest-path"]);
    assert_eq!(args.all, strings(&["--manifest-path"]));
    assert_eq!(args.manifest_path, None);
}

#[test]
fn flag_without_value_keeps_what_was_set_before() {
    let args = run(&["--target", "a", "--target-dir", "b", "--manifest-path", "c", "--target"]);
    assert_eq!(args.target, Some(Target::Unresolved { triple: "a".to_string() }));
    assert_eq!(args.target_dir, Some("b".to_string()));
    assert_eq!(args.manifest_path, Some("/work/c".to_string()));
    assert_eq!(
        args.all,
        strings(&["--target", "a", "--target-dir", "/target", "--manifest-path", "c", "--target"])
    );
}

#[test]
fn value_is_taken_whatever_it_looks_like() {
    let args = run(&["--target", "--target-dir", "build"]);
    assert_eq!(args.target, Some(Target::Unresolved { triple: "--target-dir".to_string() }));
    assert_eq!(args.target_dir, None);
    assert_eq!(args.subcommand, Some(Subcommand::Build));
    assert_eq!(args.all, strings(&["--target", "--target-dir", "build"]));

    let args = run(&["--target-dir", "+nightly", "build"]);
    assert_eq!(args.target_dir, Some("+nightly".to_string()));
    assert_eq!(args.channel, None);
    assert_eq!(args.all, strings(&["--target-dir", "/target", "build"]));
}

#[test]
fn first_word_is_the_subcommand() {
    let args = run(&["--verbose", "deploy", "build", "test"]);
    assert_eq!(args.subcommand, Some(Subcommand::Other("deploy".to_string())));
    assert_eq!(args.all, strings(&["--verbose", "deploy", "build", "test"]));
}

#[test]
fn flags_name_no_subcommand() {
    let args = run(&["-v", "--release", "--", "-"]);
    assert_eq!(args.subcommand, None);
    assert_eq!(args.all, strings(&["-v", "--release", "--", "-"]));
}

#[test]
fn last_value_counts() {
    let args = run(&[
        "+stable",
        "--target=a",
        "--target-dir=one",
        "--manifest-path=m1",
        "+nightly",
        "--target",
        "x86_64-unknown-linux-gnu",
        "--target-dir",
        "two",
        "--manifest-path",
        "m2",
    ]);
    assert_eq!(args.channel, Some("nightly".to_string()));
    assert_eq!(
        args.target,
        Some(Target::Known { triple: "x86_64-unknown-linux-gnu".to_string() })
    );
    assert_eq!(args.target_dir, Some("two".to_string()));
    assert_eq!(args.manifest_path, Some("/work/m2".to_string()));
}

#[test]
fn channel_token_is_no_subcommand() {
    let args = run(&["+nightly"]);
    assert_eq!(args.channel, Some("nightly".to_string()));
    assert_eq!(args.subcommand, None);
    assert_eq!(args.all, strings(&["+nightly"]));
}

#[test]
fn lone_plus_is_no_channel() {
    let args = run(&["+", "build"]);
    assert_eq!(args.channel, None);
    assert_eq!(args.subcommand, Some(Subcommand::Other("+".to_string())));
    assert_eq!(args.all, strings(&["+", "build"]));
}

#[test]
fn channel_keeps_everything_after_the_plus() {
    let args = run(&["++x"]);
    assert_eq!(args.channel, Some("+x".to_string()));
    let args = run(&["+nightly-2024-01-01"]);
    assert_eq!(args.channel, Some("nightly-2024-01-01".to_string()));
}

#[test]
fn tokens_beyond_ascii() {
    let args = run(&["é", "--target-dir=/données/sortie", "+ü", "--manifest-path", "répertoire/Cargo.toml"]);
    assert_eq!(args.subcommand, Some(Subcommand::Other("é".to_string())));
    assert_eq!(args.target_dir, Some("/données/sortie".to_string()));
    assert_eq!(args.channel, Some("ü".to_string()));
    assert_eq!(args.manifest_path, Some("/work/répertoire/Cargo.toml".to_string()));
    assert_eq!(
        args.all,
        strings(&["é", "--target-dir=/target", "+ü", "--manifest-path", "répertoire/Cargo.toml"])
    );
}

#[test]
fn near_misses_are_plain_flags() {
    let args = run(&["--targets", "--target-dirs=x", "--manifest-paths", "--Target", "build"]);
    assert_eq!(args.target, None);
    assert_eq!(args.target_dir, None);
    assert_eq!(args.manifest_path, None);
    assert_eq!(args.subcommand, Some(Subcommand::Build));
    assert_eq!(
        args.all,
        strings(&["--targets", "--target-dirs=x", "--manifest-paths", "--Target", "build"])
    );
}

#[test]
fn docker_in_docker_is_read_from_the_variable() {
    let with = |value: Option<&str>| {
        let env = Environment {
            current_dir: Some("/work".to_string()),
            docker_in_docker: value.map(|v| v.to_string()),
        };
        parse(&strings(&["build"]), &targets(), &env).docker_in_docker
    };
    assert!(with(Some("true")));
    assert!(!with(Some("false")));
    assert!(!with(Some("TRUE")));
    assert!(!with(Some("1")));
    assert!(!with(Some("")));
    assert!(!with(Some(" true")));
    assert!(!with(None));
}

#[test]
fn parsing_the_forwarded_list_again() {
    let raw = strings(&[
        "",
        "+nightly",
        "build",
        "--target-dir",
        "/home/u/out",
        "--manifest-path=rel/Cargo.toml",
        "--target",
        "unknownplatform",
        "--target-dir=/elsewhere",
        "--manifest-path",
    ]);
    let first = parse(&raw, &targets(), &work());
    let second = parse(&first.all, &targets(), &work());
    assert_eq!(second.all, first.all);
    assert_eq!(second.subcommand, first.subcommand);
    assert_eq!(second.channel, first.channel);
    assert_eq!(second.target, first.target);
    assert_eq!(second.manifest_path, first.manifest_path);
    assert_eq!(second.docker_in_docker, first.docker_in_docker);
    assert_eq!(first.target_dir, Some("/elsewhere".to_string()));
    assert_eq!(second.target_dir, Some("/target".to_string()));
}

#[test]
fn parsing_again_without_target_dir_changes_nothing() {
    let raw = strings(&["test", "--target", "", "--release"]);
    let first = parse(&raw, &targets(), &work());
    let second = parse(&first.all, &targets(), &work());
    assert_eq!(second.all, first.all);
    assert_eq!(first.all, raw);
    assert_eq!(second.target_dir, None);
    assert_eq!(second.target, first.target);
}

#[test]
fn manifest_path_is_absolute_under_an_absolute_directory() {
    for written in ["Cargo.toml", "/abs/Cargo.toml", "", "../x", "a b/c"] {
        let args = run(&["--manifest-path", written]);
        let path = args.manifest_path.unwrap();
        assert!(path.starts_with('/'), "{}", path);
    }
}
