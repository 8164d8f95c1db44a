use std::collections::HashSet;

use fzt::python::rp_parser::{PytestUpdate, RpParser};
use fzt::errors::FztError;
use fzt::python::tests::{
    collect_tests_from_source, is_test_file, relative_test_path, DiskScan, FileChange, PyTestParser, PythonTest,
    PythonTests, RustPytonParser, ScannedFile, scan_file,
};
use fzt::python::types::PyTests;
use fzt::test_sets::TestSets;

fn strings(v: &[&str]) -> Vec<String> {
    v.iter().map(|s| s.to_string()).collect()
}

fn set(v: &[&str]) -> HashSet<String> {
    v.iter().map(|s| s.to_string()).collect()
}

#[test]
fn top_level_test_functions_are_collected() {
    let source = "import os\n\ndef test_one():\n    pass\n\ndef helper():\n    pass\n\nclass TestX:\n    def test_inner(self):\n        pass\n\ndef test_two():\n    assert True\n\ndef test_one():\n    pass\n";
    let tests = collect_tests_from_source(source).unwrap();
    assert_eq!(tests.iter().cloned().collect::<HashSet<_>>(), set(&["test_one", "test_two"]));
    assert_eq!(tests.len(), 2);
}

#[test]
fn source_that_does_not_parse_is_an_error() {
    let err = collect_tests_from_source("def broken(:\n").unwrap_err();
    assert!(matches!(err, fzt::errors::FztError::PythonParsingError(_)));
}

#[test]
fn test_files_are_recognised_by_name_and_extension() {
    assert!(is_test_file(Some("py"), "test_x.py").unwrap());
    assert!(is_test_file(Some("py"), "x_test.py").unwrap());
    assert!(!is_test_file(Some("py"), "x.py").unwrap());
    assert!(!is_test_file(Some("txt"), "test_x.txt").unwrap());
    assert!(!is_test_file(None, "test_x").unwrap());
}

#[test]
fn relative_paths_drop_the_root_and_its_slash() {
    assert_eq!(relative_test_path("/p", "/p/a/test_b.py").unwrap(), "a/test_b.py");
    let err = relative_test_path("/p", "/q/test_b.py").unwrap_err();
    assert!(format!("{:?}", err).contains("File path could not be parsed: /q/test_b.py"));
    assert!(relative_test_path("/p", "/pa/test.py").is_err());
}

#[test]
fn modified_and_created_files_update_the_tests() {
    let mut tests = PythonTests::new_empty("/p".to_string());
    assert_eq!(tests.timestamp, 0);
    let path = "a/test_b.py".to_string();
    assert_eq!(tests.apply_modified(&path, strings(&["test_1"]), false), FileChange::Added);
    assert_eq!(tests.apply_modified(&path, strings(&["test_1"]), false), FileChange::Unchanged);
    assert_eq!(tests.apply_modified(&path, strings(&["test_2"]), true), FileChange::Found);
    assert_eq!(tests.tests.get(&path).unwrap(), &strings(&["test_1"]));
    assert_eq!(tests.apply_modified(&path, strings(&["test_2"]), false), FileChange::Replaced);
    assert_eq!(tests.apply_created(&"c/test_d.py".to_string(), vec![], false), FileChange::Unchanged);
    assert_eq!(tests.apply_created(&"c/test_d.py".to_string(), strings(&["test_3"]), true), FileChange::Found);
    assert_eq!(tests.apply_created(&"c/test_d.py".to_string(), strings(&["test_3"]), false), FileChange::Added);
    assert!(tests.changed_since_read(1));
    tests.finish_update(true, 500);
    assert_eq!(tests.timestamp, 500);
    assert!(!tests.changed_since_read(500));
    tests.finish_update(false, 900);
    assert_eq!(tests.timestamp, 500);
    let listed: HashSet<String> = tests.tests().iter().map(|t| t.runtime_argument()).collect();
    assert_eq!(listed, set(&["a/test_b.py::test_2", "c/test_d.py::test_3"]));
}

#[test]
fn deleted_files_are_forgotten() {
    let mut sets = TestSets::new();
    sets.insert_names("/".to_string(), strings(&["test_root"]));
    sets.insert_names("/no/such/dir/test_gone.py".to_string(), strings(&["test_gone"]));
    let mut tests = PythonTests::new("/".to_string(), 7, sets);
    assert!(tests.remove_paths(&[]) == false);
    let known = tests.known_paths();
    assert_eq!(known, strings(&["/", "/no/such/dir/test_gone.py"]));
    let present: Vec<bool> = known.iter().map(|p| std::path::Path::new(p).exists()).collect();
    assert!(tests.filter_out_deleted_files(&present));
    assert!(tests.tests.contains_key(&"/".to_string()));
    assert!(!tests.tests.contains_key(&"/no/such/dir/test_gone.py".to_string()));
    assert_eq!(tests.known_paths(), strings(&["/"]));
    assert!(!tests.filter_out_deleted_files(&[true]));
    assert_eq!(tests.timestamp, 7);
}

#[test]
fn only_known_paths_answered_missing_are_removed() {
    let mut sets = TestSets::new();
    sets.insert_names("a/test_a.py".to_string(), strings(&["test_a"]));
    sets.insert_names("b/test_b.py".to_string(), strings(&["test_b"]));
    let mut tests = PythonTests::new("/p".to_string(), 3, sets);
    let keys = strings(&["a/test_a.py", "b/test_b.py", "c/test_c.py"]);
    assert!(!tests.remove_missing(&keys, &[true, true, false]));
    assert_eq!(tests.tests.len(), 2);
    assert!(tests.remove_missing(&keys, &[false, true, true]));
    assert!(!tests.tests.contains_key(&"a/test_a.py".to_string()));
    assert!(tests.tests.contains_key(&"b/test_b.py".to_string()));
    assert_eq!(tests.timestamp, 3);
    assert_eq!(tests.root_folder, "/p");
}

#[test]
fn python_test_names_join_path_and_test() {
    let t = PythonTest::new("a/b.py".to_string(), "test_x".to_string());
    assert_eq!(t.runtime_argument(), "a/b.py::test_x");
    assert_eq!(t.search_item_name(), "a/b.py::test_x");
}

#[test]
fn pytest_listing_becomes_python_tests() {
    let parser = PyTestParser::new("/root".to_string());
    let tests = parser.parse_python_tests("a.py::test_x[1]\na.py::test_y\n\ntrailer", 42);
    assert_eq!(tests.root_folder, "/root");
    assert_eq!(tests.timestamp, 42);
    assert_eq!(tests.tests.get(&"a.py".to_string()).unwrap().iter().cloned().collect::<HashSet<_>>(), set(&["test_x", "test_y"]));
}

#[test]
fn cache_entries_and_change_checks() {
    let parser = RpParser::new("/r".to_string());
    let entry = parser.get_cache_entry(PyTests::new(TestSets::new()), 9);
    assert_eq!(entry.root_folder, "/r");
    assert_eq!(entry.timestamp, 9);
    assert!(PytestUpdate::check_file_for_new_tests(&strings(&["a", "b"]), &strings(&["a"])));
    assert!(!PytestUpdate::check_file_for_new_tests(&strings(&["b", "a"]), &strings(&["a", "b", "a"])));
}

#[test]
fn listing_names_each_test_of_each_file() {
    let mut sets = TestSets::new();
    sets.insert_names("a.py".to_string(), strings(&["test_1"]));
    sets.insert_names("b/c.py".to_string(), strings(&["test_2", "test_3"]));
    let listing = PyTests::new(sets).to_listing();
    assert_eq!(listing, "a.py::test_1\nb/c.py::test_2\nb/c.py::test_3\n");
}

fn scanned(path: &str, modified: Option<u128>, created: Option<u128>, source: Option<&str>) -> ScannedFile {
    let mut file = scan_file("/root", format!("/root/{}", path).as_str(), modified, created).unwrap().unwrap();
    file.source = source.map(|s| s.to_string());
    file
}

#[test]
fn walked_files_are_test_files_under_the_root() {
    let f = scan_file("/root", "/root/a/b/test_x.py", Some(5), None).unwrap().unwrap();
    assert_eq!(f.path, "a/b/test_x.py");
    assert_eq!(f.full_path, "/root/a/b/test_x.py");
    assert_eq!(f.modified, Some(5));
    assert!(f.source.is_none());
    assert!(scan_file("/root", "/root/a/x_test.py", None, None).unwrap().is_some());
    assert!(scan_file("/root", "/root/a/helper.py", None, None).unwrap().is_none());
    assert!(scan_file("/root", "/root/a/test_x.txt", None, None).unwrap().is_none());
    assert!(scan_file("/root", "/root/.venv/test_x.py", None, None).unwrap().is_none());
    assert!(scan_file("/root", "/root/a/.test_x.py", None, None).unwrap().is_none());
    assert!(matches!(scan_file("/root", "/elsewhere/test_x.py", None, None), Err(FztError::GeneralParsingError(_))));
}

fn known_tests() -> PythonTests {
    let mut sets = TestSets::new();
    sets.insert_names("a/test_a.py".to_string(), strings(&["test_a"]));
    sets.insert_names("k/test_k.py".to_string(), strings(&["test_old"]));
    PythonTests::new("/root".to_string(), 100, sets)
}

#[test]
fn scan_forgets_missing_files_and_reads_changed_ones() {
    let mut tests = known_tests();
    assert!(tests.needs_source(Some(200), None));
    assert!(tests.needs_source(None, Some(101)));
    assert!(!tests.needs_source(Some(100), None));
    let scan = DiskScan {
        known: strings(&["a/test_a.py", "k/test_k.py"]),
        present: vec![false, true],
        files: vec![
            scanned("b/test_b.py", Some(200), None, Some("def test_b():\n    pass\n")),
            scanned("k/test_k.py", Some(150), None, Some("def test_new():\n    pass\n")),
            scanned("c/test_c.py", Some(50), Some(60), None),
        ],
        now: 300,
    };
    let (changed, replaced) = RustPytonParser {}.parse_tests(&mut tests, &scan).unwrap();
    assert!(changed);
    assert_eq!(replaced, strings(&["/root/k/test_k.py"]));
    assert_eq!(tests.timestamp, 300);
    let listed: HashSet<String> = tests.tests().iter().map(|t| t.runtime_argument()).collect();
    assert_eq!(listed, set(&["b/test_b.py::test_b", "k/test_k.py::test_new"]));
}

#[test]
fn checking_stops_at_the_first_change() {
    let mut tests = known_tests();
    let scan = DiskScan {
        known: strings(&["a/test_a.py", "k/test_k.py"]),
        present: vec![false, true],
        files: vec![],
        now: 300,
    };
    let (changed, replaced) = tests.update_from_scan(&scan, true).unwrap();
    assert!(changed && replaced.is_empty());
    assert_eq!(tests.timestamp, 100);
    assert!(!tests.tests.contains_key(&"a/test_a.py".to_string()));

    let mut tests = known_tests();
    let scan = DiskScan {
        known: strings(&["a/test_a.py", "k/test_k.py"]),
        present: vec![true, true],
        files: vec![scanned("k/test_k.py", Some(150), None, Some("def test_new():\n    pass\n"))],
        now: 300,
    };
    let (changed, _) = tests.update_from_scan(&scan, true).unwrap();
    assert!(changed);
    assert_eq!(tests.timestamp, 100);
    assert!(tests.tests.contains_key(&"a/test_a.py".to_string()));

    let mut tests = known_tests();
    let scan = DiskScan { known: vec![], present: vec![], files: vec![scanned("k/test_k.py", Some(90), None, None)], now: 300 };
    let (changed, _) = tests.update_from_scan(&scan, true).unwrap();
    assert!(!changed);
    assert_eq!(tests.timestamp, 100);
}

#[test]
fn scanned_source_that_does_not_parse_is_an_error() {
    let mut tests = known_tests();
    let scan = DiskScan { known: vec![], present: vec![], files: vec![scanned("b/test_b.py", None, Some(200), Some("def (:"))], now: 300 };
    assert!(matches!(tests.update_from_scan(&scan, false), Err(FztError::PythonParsingError(_))));
    assert_eq!(tests.timestamp, 100);
}

#[test]
fn a_second_scan_of_unchanged_files_reports_no_change() {
    let mut tests = known_tests();
    let scan = DiskScan {
        known: strings(&["a/test_a.py", "k/test_k.py"]),
        present: vec![true, true],
        files: vec![scanned("b/test_b.py", Some(200), None, Some("def test_b():\n    pass\n"))],
        now: 300,
    };
    let (changed, _) = tests.update_from_scan(&scan, false).unwrap();
    assert!(changed);
    let before: HashSet<String> = tests.tests().iter().map(|t| t.runtime_argument()).collect();
    let again = DiskScan {
        known: strings(&["a/test_a.py", "b/test_b.py", "k/test_k.py"]),
        present: vec![true, true, true],
        files: vec![scanned("b/test_b.py", Some(200), None, None)],
        now: 400,
    };
    for only in [true, false] {
        let (changed, replaced) = tests.update_from_scan(&again, only).unwrap();
        assert!(!changed && replaced.is_empty());
        assert_eq!(tests.timestamp, 300);
        let after: HashSet<String> = tests.tests().iter().map(|t| t.runtime_argument()).collect();
        assert_eq!(after, before);
    }
}

#[test]
fn a_second_scan_after_no_change_reports_no_change() {
    let mut tests = known_tests();
    let scan = DiskScan {
        known: strings(&["a/test_a.py", "k/test_k.py"]),
        present: vec![true, true],
        files: vec![scanned("k/test_k.py", Some(150), None, Some("def test_old():\n    pass\n"))],
        now: 300,
    };
    for only in [false, true, false] {
        let (changed, replaced) = tests.update_from_scan(&scan, only).unwrap();
        assert!(!changed && replaced.is_empty());
        assert_eq!(tests.timestamp, 100);
        assert_eq!(tests.tests.len(), 2);
    }
}

#[test]
fn test_file_names_follow_the_pattern() {
    assert!(is_test_file(Some("py"), "test_a.py").unwrap());
    assert!(is_test_file(Some("py"), "a_test.py").unwrap());
    assert!(is_test_file(Some("py"), "test_.py").unwrap());
    assert!(!is_test_file(Some("py"), "test.py").unwrap());
    assert!(!is_test_file(Some("py"), "test_a\n.py").unwrap());
    assert!(!is_test_file(Some("py"), "atest_b.py").unwrap());
}
