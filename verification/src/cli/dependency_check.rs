//! The dependency check: which tools are needed, and how their status is shown.
use vstd::prelude::*;

use crate::cache::manager::{join_path, path_join};
use crate::external::{ansi_reset, green, painted, red, yellow};
use crate::text::{
    contains, contains_chars, from_chars, join, join_chars, lines, replace, replace_chars, slice_chars, split_lines,
    starts_with, starts_with_chars, to_chars, views,
};

verus! {

/// Whether a dependency was found.
#[derive(Debug, Clone, Copy, PartialEq, Eq, Structural)]
pub enum DependencyStatus {
    Installed,
    Missing,
}

/// Whether a dependency is needed.
#[derive(Debug, Clone, Copy, PartialEq, Eq, Structural)]
pub enum DependencyType {
    Required,
    Optional,
}

/// A row of a dependency table; the status is plain text.
pub struct DependencyRow {
    pub name: String,
    pub status: String,
    pub description: String,
}

/// A dependency and the command that finds it.
pub struct Dependency {
    pub name: String,
    pub check_command: String,
    pub check_args: Vec<String>,
    pub dep_type: DependencyType,
    pub description: String,
}

/// The status text of a dependency.
pub open spec fn status_text(status: DependencyStatus, dep_type: DependencyType) -> Seq<char> {
    match (status, dep_type) {
        (DependencyStatus::Installed, _) => "✓ OK"@,
        (DependencyStatus::Missing, DependencyType::Required) => "✗ MISSING"@,
        (DependencyStatus::Missing, DependencyType::Optional) => "- MISSING"@,
    }
}

impl Dependency {
    /// The table row of the dependency with its status.
    pub fn to_row(&self, status: DependencyStatus) -> (r: DependencyRow)
        ensures
            r.name@ == self.name@,
            r.status@ == status_text(status, self.dep_type),
            r.description@ == self.description@,
    {
        let text = match (status, self.dep_type) {
            (DependencyStatus::Installed, _) => "✓ OK",
            (DependencyStatus::Missing, DependencyType::Required) => "✗ MISSING",
            (DependencyStatus::Missing, DependencyType::Optional) => "- MISSING",
        };
        DependencyRow { name: self.name.clone(), status: text.to_owned(), description: self.description.clone() }
    }
}

/// The status text of an optional dependency.
pub fn format_optional_status(status: DependencyStatus) -> (r: String)
    ensures
        r@ == status_text(status, DependencyType::Optional),
{
    match status {
        DependencyStatus::Installed => "✓ OK".to_owned(),
        DependencyStatus::Missing => "- MISSING".to_owned(),
    }
}

/// The path a check looks at: a leading `~/` stands for the home directory, when it is known.
pub open spec fn expanded_path(path: Seq<char>, home: Option<Seq<char>>) -> Seq<char> {
    if starts_with(path, "~/"@) && home is Some {
        path_join(home->0, path.subrange(2, path.len() as int))
    } else {
        path
    }
}

/// The path a check looks at; `home` is the value of `HOME`, if set.
pub fn expand_home(path: &str, home: Option<&str>) -> (r: String)
    ensures
        r@ == expanded_path(path@, match home {
            Some(h) => Some(h@),
            None => None,
        }),
{
    let p = to_chars(path);
    let tilde = to_chars("~/");
    proof {
        reveal_strlit("~/");
    }
    match home {
        Some(h) => {
            if starts_with_chars(p.as_slice(), tilde.as_slice()) {
                let rest = from_chars(slice_chars(p.as_slice(), 2, p.len()).as_slice());
                join_path(h, rest.as_str())
            } else {
                path.to_owned()
            }
        },
        None => path.to_owned(),
    }
}

/// A dependency whose check runs `which` on a program.
fn required(name: &str, program: &str, description: &str) -> (r: Dependency)
    ensures
        r.name@ == name@,
        r.check_command@ == "which"@,
        r.check_args@.len() == 1 && r.check_args@[0]@ == program@,
        r.dep_type == DependencyType::Required,
        r.description@ == description@,
{
    Dependency {
        name: name.to_owned(),
        check_command: "which".to_owned(),
        check_args: vec![program.to_owned()],
        dep_type: DependencyType::Required,
        description: description.to_owned(),
    }
}

/// The required tools: fzf, expect, bat and ripgrep, each found with `which`.
pub fn core_dependencies() -> (r: Vec<Dependency>)
    ensures
        r@.len() == 4,
        r@[0].name@ == "fzf"@ && r@[0].check_args@[0]@ == "fzf"@ && r@[0].description@ == "Fuzzy finder"@,
        r@[1].name@ == "expect"@ && r@[1].check_args@[0]@ == "expect"@ && r@[1].description@ == "Automation tool"@,
        r@[2].name@ == "bat"@ && r@[2].check_args@[0]@ == "bat"@ && r@[2].description@ == "File preview"@,
        r@[3].name@ == "ripgrep"@ && r@[3].check_args@[0]@ == "rg"@ && r@[3].description@ == "Search tool"@,
        forall|i: int| 0 <= i < 4 ==> (#[trigger] r@[i]).check_command@ == "which"@ && r@[i].check_args@.len() == 1
            && r@[i].dep_type == DependencyType::Required,
{
    vec![
        required("fzf", "fzf", "Fuzzy finder"),
        required("expect", "expect", "Automation tool"),
        required("bat", "bat", "File preview"),
        required("ripgrep", "rg", "Search tool"),
    ]
}

/// The required tools are all installed, and so is the configuration directory.
pub fn all_required_installed(deps: &Vec<Dependency>, statuses: &Vec<DependencyStatus>, config_dir: DependencyStatus) -> (r: bool)
    requires
        deps@.len() == statuses@.len(),
    ensures
        r == ((forall|i: int| 0 <= i < deps@.len() && (#[trigger] deps@[i]).dep_type == DependencyType::Required ==> statuses@[i]
            == DependencyStatus::Installed) && config_dir == DependencyStatus::Installed),
{
    let mut i: usize = 0;
    while i < deps.len()
        invariant
            i <= deps@.len(),
            deps@.len() == statuses@.len(),
            forall|j: int| 0 <= j < i && (#[trigger] deps@[j]).dep_type == DependencyType::Required ==> statuses@[j]
                == DependencyStatus::Installed,
        decreases deps@.len() - i,
    {
        if statuses[i] == DependencyStatus::Missing && deps[i].dep_type == DependencyType::Required {
            return false;
        }
        i = i + 1;
    }
    config_dir == DependencyStatus::Installed
}

/// The coloured forms of the three status texts.
pub struct StatusLabels {
    pub ok: String,
    pub missing: String,
    pub optional_missing: String,
}

/// The labels that `colored` gives: each the plain text, or the text in green, red or yellow.
pub open spec fn status_labels_painted(l: StatusLabels) -> bool {
    &&& painted("✓ OK"@, seq!['3', '2'], l.ok@)
    &&& painted("✗ MISSING"@, seq!['3', '1'], l.missing@)
    &&& painted("- MISSING"@, seq!['3', '3'], l.optional_missing@)
}

/// A table line with its first status text coloured.
pub open spec fn colored_line(line: Seq<char>, l: StatusLabels) -> Seq<char> {
    if contains(line, "✓ OK"@) {
        replace(line, "✓ OK"@, l.ok@)
    } else if contains(line, "✗ MISSING"@) {
        replace(line, "✗ MISSING"@, l.missing@)
    } else if contains(line, "- MISSING"@) {
        replace(line, "- MISSING"@, l.optional_missing@)
    } else {
        line
    }
}

/// A table with the status texts of its lines coloured, its lines joined by line breaks.
pub open spec fn colored_table(table: Seq<char>, l: StatusLabels) -> Seq<char> {
    join(lines(table).map_values(|line: Seq<char>| colored_line(line, l)), seq!['\n'])
}

/// Colours the status texts of a table with the given labels.
pub fn colorize_table_with(table_str: &str, labels: &StatusLabels) -> (r: String)
    ensures
        r@ == colored_table(table_str@, *labels),
{
    let t = to_chars(table_str);
    let ls = split_lines(t.as_slice());
    let ok = to_chars("✓ OK");
    let missing = to_chars("✗ MISSING");
    let optional = to_chars("- MISSING");
    let ok_l = to_chars(labels.ok.as_str());
    let missing_l = to_chars(labels.missing.as_str());
    let optional_l = to_chars(labels.optional_missing.as_str());
    proof {
        reveal_strlit("✓ OK");
        reveal_strlit("✗ MISSING");
        reveal_strlit("- MISSING");
    }
    let mut out: Vec<Vec<char>> = Vec::new();
    let mut i: usize = 0;
    while i < ls.len()
        invariant
            i <= ls@.len(),
            ok@ == "✓ OK"@,
            missing@ == "✗ MISSING"@,
            optional@ == "- MISSING"@,
            ok@.len() > 0,
            missing@.len() > 0,
            optional@.len() > 0,
            views(ls@) == lines(table_str@),
            ok_l@ == labels.ok@,
            missing_l@ == labels.missing@,
            optional_l@ == labels.optional_missing@,
            out@.len() == i,
            forall|j: int| 0 <= j < i ==> (#[trigger] out@[j])@ == colored_line(ls@[j]@, *labels),
        decreases ls@.len() - i,
    {
        let line = ls[i].as_slice();
        let c = if contains_chars(line, ok.as_slice()) {
            replace_chars(line, ok.as_slice(), ok_l.as_slice())
        } else if contains_chars(line, missing.as_slice()) {
            replace_chars(line, missing.as_slice(), missing_l.as_slice())
        } else if contains_chars(line, optional.as_slice()) {
            replace_chars(line, optional.as_slice(), optional_l.as_slice())
        } else {
            ls[i].clone()
        };
        out.push(c);
        i = i + 1;
    }
    let nl: Vec<char> = vec!['\n'];
    let joined = join_chars(&out, nl.as_slice());
    assert(views(out@) =~= lines(table_str@).map_values(|line: Seq<char>| colored_line(line, *labels)));
    assert(nl@ =~= seq!['\n']);
    assert(joined@ == colored_table(table_str@, *labels));
    from_chars(joined.as_slice())
}

/// Colours the status texts of a table as `colored` decides for this process.
pub fn colorize_table_output(table_str: &str) -> (r: String)
    ensures
        exists|l: StatusLabels| status_labels_painted(l) && r@ == colored_table(table_str@, l),
{
    let labels = StatusLabels { ok: green("✓ OK"), missing: red("✗ MISSING"), optional_missing: yellow("- MISSING") };
    proof {
        reveal_strlit("✓ OK");
        reveal_strlit("✗ MISSING");
        reveal_strlit("- MISSING");
        assert(!contains("✓ OK"@, ansi_reset())) by {
            crate::text::lemma_find("✓ OK"@, ansi_reset());
        }
        assert(!contains("✗ MISSING"@, ansi_reset())) by {
            crate::text::lemma_find("✗ MISSING"@, ansi_reset());
        }
        assert(!contains("- MISSING"@, ansi_reset())) by {
            crate::text::lemma_find("- MISSING"@, ansi_reset());
        }
    }
    assert(status_labels_painted(labels));
    let r = colorize_table_with(table_str, &labels);
    assert(status_labels_painted(labels) && r@ == colored_table(table_str@, labels));
    r
}

/// The row of an optional dependency.
pub fn optional_row(name: &str, status: DependencyStatus, description: &str) -> (r: DependencyRow)
    ensures
        r.name@ == name@,
        r.status@ == status_text(status, DependencyType::Optional),
        r.description@ == description@,
{
    DependencyRow { name: name.to_owned(), status: format_optional_status(status), description: description.to_owned() }
}

/// The row of the configuration directory, which is required.
pub fn config_row(status: DependencyStatus) -> (r: DependencyRow)
    ensures
        r.name@ == "~/.fzt/"@,
        r.status@ == status_text(status, DependencyType::Required),
        r.description@ == "Config directory"@,
{
    let text = match status {
        DependencyStatus::Installed => "✓ OK",
        DependencyStatus::Missing => "✗ MISSING",
    };
    DependencyRow { name: "~/.fzt/".to_owned(), status: text.to_owned(), description: "Config directory".to_owned() }
}

} // verus!
