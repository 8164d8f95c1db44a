use fzt::cache::helper::project_hash_of;
use fzt::cli::dependency_check::{
    all_required_installed, colorize_table_output, colorize_table_with, config_row, core_dependencies, expand_home,
    format_optional_status, optional_row, DependencyStatus, StatusLabels,
};
use fzt::java::{JavaParser, JavaTest, JavaTestItem, JavaTests};
use fzt::runner::Preview;
use fzt::search_engine::{history_input, output_lines, picked_option, tests_input, FzfSearchEngine};

fn strings(v: &[&str]) -> Vec<String> {
    v.iter().map(|s| s.to_string()).collect()
}

#[test]
fn project_hash_is_the_sha256_of_the_path() {
    assert_eq!(project_hash_of("abc"), "ba7816bf8f01cfea414140de5dae2223b00361a396177a9cb410ff61f20015ad");
    assert_eq!(project_hash_of("/home/user/project").len(), 64);
}

#[test]
fn dependency_rows_show_status_texts() {
    let deps = core_dependencies();
    assert_eq!(deps.len(), 4);
    assert_eq!(deps[3].name, "ripgrep");
    assert_eq!(deps[3].check_args, strings(&["rg"]));
    let row = deps[0].to_row(DependencyStatus::Missing);
    assert_eq!((row.name.as_str(), row.status.as_str(), row.description.as_str()), ("fzf", "✗ MISSING", "Fuzzy finder"));
    assert_eq!(deps[1].to_row(DependencyStatus::Installed).status, "✓ OK");
    assert_eq!(format_optional_status(DependencyStatus::Missing), "- MISSING");
    assert_eq!(optional_row("pytest", DependencyStatus::Installed, "Test framework").status, "✓ OK");
    assert_eq!(config_row(DependencyStatus::Missing).status, "✗ MISSING");
    let statuses = vec![DependencyStatus::Installed; 4];
    assert!(all_required_installed(&deps, &statuses, DependencyStatus::Installed));
    assert!(!all_required_installed(&deps, &statuses, DependencyStatus::Missing));
    let mut one_missing = statuses.clone();
    one_missing[2] = DependencyStatus::Missing;
    assert!(!all_required_installed(&deps, &one_missing, DependencyStatus::Installed));
}

#[test]
fn home_is_expanded_only_for_tilde_paths() {
    assert_eq!(expand_home("~/.fzt", Some("/home/u")), "/home/u/.fzt");
    assert_eq!(expand_home("~/.fzt", None), "~/.fzt");
    assert_eq!(expand_home("/etc/x", Some("/home/u")), "/etc/x");
}

#[test]
fn table_statuses_are_coloured() {
    let labels = StatusLabels { ok: "<ok>".to_string(), missing: "<miss>".to_string(), optional_missing: "<opt>".to_string() };
    let table = "| fzf | ✓ OK |\r\n| bat | ✗ MISSING |\n| x | - MISSING |\n| plain |";
    assert_eq!(colorize_table_with(table, &labels), "| fzf | <ok> |\n| bat | <miss> |\n| x | <opt> |\n| plain |");
    let coloured = colorize_table_output("a ✓ OK");
    assert!(coloured == "a ✓ OK" || coloured == "a \u{1b}[32m✓ OK\u{1b}[0m");
}

#[test]
fn java_tests_are_run_by_class_and_searched_by_path() {
    let item = JavaTestItem::new("src/A.java".to_string(), "org.A".to_string(), "t1".to_string());
    assert_eq!(item.runtime_argument(), "org.A.t1");
    assert_eq!(item.search_item_name(), "src/A.java->t1");
    let mut tests = JavaTests::new_empty("/p".to_string());
    tests.tests.push((
        "src/A.java".to_string(),
        vec![
            JavaTest { class_path: "org.A".to_string(), method_name: "t1".to_string() },
            JavaTest { class_path: "org.A".to_string(), method_name: "t2".to_string() },
        ],
    ));
    tests.tests.push(("src/B.java".to_string(), vec![JavaTest { class_path: "org.B".to_string(), method_name: "t3".to_string() }]));
    assert_eq!(tests.search_names(), strings(&["src/A.java->t1", "src/A.java->t2", "src/B.java->t3"]));
    assert_eq!(tests.tests().len(), 3);
    let args = tests.selected_runtime_arguments(&strings(&["src/B.java->t3", "src/A.java->t1", "other"]));
    assert_eq!(args, strings(&["org.A.t1", "org.B.t3"]));
    let parser = JavaParser::new("/p".to_string());
    assert_eq!(parser.command_args("{}"), strings(&["-0", "/p", "-c", "{}"]));
}

#[test]
fn fzf_arguments_follow_the_options() {
    let fzf = FzfSearchEngine {};
    assert_eq!(fzf.name(), "fzf");
    let args = fzf.fzf_args(true, Some(Preview::Directory), &Some("q".to_string()), "");
    assert_eq!(
        args,
        strings(&[
            "-m", "--bind", "ctrl-a:select-all,ctrl-d:deselect-all,ctrl-t:toggle-all", "--height", "50%", "--read0",
            "--gap", "--query", "q", "--delimiter", "::", "--preview", " ls '{1}'"
        ])
    );
    let args = fzf.fzf_args(false, Some(Preview::Test), &None, "echo 'x'");
    assert_eq!(args.last().unwrap(), "bash -c 'echo '\"'\"'x'\"'\"'' -- {2} {1} 20");
    assert_eq!(fzf.select_args(Some("Test\n")), strings(&["--height", "50%", "--preview", "echo 'Test\n'"]));
    assert_eq!(fzf.select_args(None), strings(&["--height", "50%"]));
}

#[test]
fn fzf_input_and_output_are_line_based() {
    assert_eq!(tests_input(&strings(&["a", "b"])), "a\nb\n");
    assert_eq!(history_input(&[strings(&["a", "b"]), vec![], strings(&["c"])]), "a\nb\0c\0");
    assert_eq!(output_lines(b"x\ny\r\n".to_vec(), false).unwrap(), strings(&["x", "y"]));
    assert_eq!(output_lines(b"a\nb\0c\0".to_vec(), true).unwrap(), strings(&["a", "b", "c"]));
    assert!(output_lines(vec![0xff, 0xfe], false).is_err());
    assert_eq!(picked_option(b"  File \n").unwrap(), "File");
}
