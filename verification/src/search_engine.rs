//! The fzf search engine: its command lines, what it is given, and how its answers are read.
use vstd::prelude::*;

use crate::errors::FztError;
use crate::external::str_from_utf8;
use crate::runner::Preview;
use crate::test_sets::str_views;
use crate::text::{append_str, from_chars, join, lines, replace, replace_chars, split_lines, to_chars, trim, trim_chars, views};

verus! {

/// The fzf search engine.
pub struct FzfSearchEngine {}

/// The lines of context the test preview shows around a test.
pub const BAT_LINE_PREVIEW_CONTEXT: i8 = 20;

/// The preview script with each `'` written so that it survives inside single quotes.
pub open spec fn quoted_script(script: Seq<char>) -> Seq<char> {
    replace(script, seq!['\''], seq!['\'', '"', '\'', '"', '\''])
}

/// The arguments of fzf when selecting: several at once, with key bindings to select all, none
/// or the opposite, at half height; `--read0 --gap` for NUL-separated entries; the query; and
/// the preview of the file, of the test (the preview script run by bash on test name, file and
/// context) or of the directory.
pub open spec fn fzf_arguments(read_null: bool, preview: Option<Preview>, query: Option<Seq<char>>, script: Seq<char>) -> Seq<Seq<char>> {
    seq!["-m"@, "--bind"@, "ctrl-a:select-all,ctrl-d:deselect-all,ctrl-t:toggle-all"@, "--height"@, "50%"@]
        + (if read_null { seq!["--read0"@, "--gap"@] } else { Seq::empty() })
        + (match query { Some(q) => seq!["--query"@, q], None => Seq::empty() })
        + match preview {
            Some(Preview::File) => seq!["--delimiter"@, "::"@, "--preview"@, "bat --style=numbers --color=always {1}"@],
            Some(Preview::Test) => seq![
                "--delimiter"@,
                "::"@,
                "--preview"@,
                "bash -c '"@ + quoted_script(script) + "' -- {2} {1} 20"@,
            ],
            Some(Preview::Directory) => seq!["--delimiter"@, "::"@, "--preview"@, " ls '{1}'"@],
            None => Seq::empty(),
        }
}

/// Appends `items` to `v`.
fn push_all(v: &mut Vec<String>, items: &[&str])
    ensures
        str_views(final(v)@) == str_views(old(v)@) + items@.map_values(|s: &str| s@),
{
    let mut i: usize = 0;
    while i < items.len()
        invariant
            i <= items@.len(),
            str_views(v@) == str_views(old(v)@) + items@.subrange(0, i as int).map_values(|s: &str| s@),
        decreases items@.len() - i,
    {
        let ghost before = v@;
        v.push(items[i].to_owned());
        assert(str_views(v@) =~= str_views(before).push(items@[i as int]@));
        assert(items@.subrange(0, i + 1).map_values(|s: &str| s@) =~= items@.subrange(0, i as int).map_values(|s: &str| s@).push(items@[i as int]@));
        i = i + 1;
    }
    assert(items@.subrange(0, i as int) =~= items@);
}

impl FzfSearchEngine {
    pub fn name(&self) -> (r: String)
        ensures
            r@ == "fzf"@,
    {
        "fzf".to_owned()
    }

    /// The arguments of fzf when selecting; `script` is the preview script for tests.
    pub fn fzf_args(&self, read_null: bool, preview: Option<Preview>, query: &Option<String>, script: &str) -> (r: Vec<String>)
        ensures
            str_views(r@) == fzf_arguments(read_null, preview, match query { Some(q) => Some(q@), None => None }, script@),
    {
        let mut r: Vec<String> = Vec::new();
        let base: Vec<&str> = vec!["-m", "--bind", "ctrl-a:select-all,ctrl-d:deselect-all,ctrl-t:toggle-all", "--height", "50%"];
        push_all(&mut r, base.as_slice());
        let ghost a = str_views(r@);
        assert(a =~= seq!["-m"@, "--bind"@, "ctrl-a:select-all,ctrl-d:deselect-all,ctrl-t:toggle-all"@, "--height"@, "50%"@]);
        if read_null {
            let n: Vec<&str> = vec!["--read0", "--gap"];
            push_all(&mut r, n.as_slice());
            assert(str_views(r@) =~= a + seq!["--read0"@, "--gap"@]);
        } else {
            assert(str_views(r@) =~= a + Seq::<Seq<char>>::empty());
        }
        let ghost b = str_views(r@);
        match query {
            Some(q) => {
                r.push("--query".to_owned());
                r.push(q.clone());
                assert(str_views(r@) =~= b + seq!["--query"@, q@]);
            },
            None => {
                assert(str_views(r@) =~= b + Seq::<Seq<char>>::empty());
            },
        }
        let ghost c = str_views(r@);
        match preview {
            Some(Preview::File) => {
                let p: Vec<&str> = vec!["--delimiter", "::", "--preview", "bat --style=numbers --color=always {1}"];
                push_all(&mut r, p.as_slice());
                assert(str_views(r@) =~= c + seq!["--delimiter"@, "::"@, "--preview"@, "bat --style=numbers --color=always {1}"@]);
            },
            Some(Preview::Test) => {
                let p: Vec<&str> = vec!["--delimiter", "::", "--preview"];
                push_all(&mut r, p.as_slice());
                let ghost d = str_views(r@);
                assert(d =~= c + seq!["--delimiter"@, "::"@, "--preview"@]);
                let s = to_chars(script);
                let q1 = vec!['\''];
                let q2 = vec!['\'', '"', '\'', '"', '\''];
                let escaped = replace_chars(s.as_slice(), q1.as_slice(), q2.as_slice());
                let mut cmd = "bash -c '".to_owned();
                append_str(&mut cmd, from_chars(escaped.as_slice()).as_str());
                append_str(&mut cmd, "' -- {2} {1} 20");
                assert(q1@ =~= seq!['\'']);
                assert(q2@ =~= seq!['\'', '"', '\'', '"', '\'']);
                assert(cmd@ == "bash -c '"@ + quoted_script(script@) + "' -- {2} {1} 20"@);
                let ghost before = r@;
                r.push(cmd);
                assert(str_views(r@) =~= d.push("bash -c '"@ + quoted_script(script@) + "' -- {2} {1} 20"@));
                assert(str_views(r@) =~= c + seq![
                    "--delimiter"@,
                    "::"@,
                    "--preview"@,
                    "bash -c '"@ + quoted_script(script@) + "' -- {2} {1} 20"@,
                ]);
            },
            Some(Preview::Directory) => {
                let p: Vec<&str> = vec!["--delimiter", "::", "--preview", " ls '{1}'"];
                push_all(&mut r, p.as_slice());
                assert(str_views(r@) =~= c + seq!["--delimiter"@, "::"@, "--preview"@, " ls '{1}'"@]);
            },
            None => {
                assert(str_views(r@) =~= c + Seq::<Seq<char>>::empty());
            },
        }
        assert(str_views(r@) =~= fzf_arguments(read_null, preview, match query { Some(q) => Some(q@), None => None }, script@));
        r
    }

    /// The arguments of fzf when picking one option, with a preview of `preview` when given.
    pub fn select_args(&self, preview: Option<&str>) -> (r: Vec<String>)
        ensures
            str_views(r@) == seq!["--height"@, "50%"@] + match preview {
                Some(p) => seq!["--preview"@, "echo '"@ + p@ + "'"@],
                None => Seq::empty(),
            },
    {
        let mut r: Vec<String> = vec!["--height".to_owned(), "50%".to_owned()];
        let ghost a = r@;
        match preview {
            Some(p) => {
                let mut e = "echo '".to_owned();
                append_str(&mut e, p);
                append_str(&mut e, "'");
                r.push("--preview".to_owned());
                r.push(e);
            },
            None => {},
        }
        assert(str_views(r@) =~= seq!["--height"@, "50%"@] + match preview {
            Some(p) => seq!["--preview"@, "echo '"@ + p@ + "'"@],
            None => Seq::empty(),
        });
        r
    }
}

/// Each test on a line of its own.
pub open spec fn tests_text(tests: Seq<Seq<char>>) -> Seq<char>
    decreases tests.len(),
{
    if tests.len() == 0 {
        Seq::empty()
    } else {
        tests_text(tests.drop_last()) + tests.last() + seq!['\n']
    }
}

/// What fzf is given to select tests from.
pub fn tests_input(all_tests: &[String]) -> (r: String)
    ensures
        r@ == tests_text(str_views(all_tests@)),
{
    let mut out = String::new();
    let mut i: usize = 0;
    while i < all_tests.len()
        invariant
            i <= all_tests@.len(),
            out@ == tests_text(str_views(all_tests@.subrange(0, i as int))),
        decreases all_tests@.len() - i,
    {
        append_str(&mut out, all_tests[i].as_str());
        append_str(&mut out, "\n");
        proof {
            reveal_strlit("\n");
        }
        assert(str_views(all_tests@.subrange(0, i + 1)).drop_last() =~= str_views(all_tests@.subrange(0, i as int)));
        i = i + 1;
    }
    assert(all_tests@.subrange(0, i as int) =~= all_tests@);
    out
}

/// The selections of a history as fzf entries: each non-empty one its tests on separate lines,
/// ended by a NUL character.
pub open spec fn history_text(history: Seq<Seq<Seq<char>>>) -> Seq<char>
    decreases history.len(),
{
    if history.len() == 0 {
        Seq::empty()
    } else {
        history_text(history.drop_last()) + if history.last().len() == 0 {
            Seq::empty()
        } else {
            join(history.last(), seq!['\n']) + seq!['\0']
        }
    }
}

/// What fzf is given to pick a selection of the history from.
pub fn history_input(history: &[Vec<String>]) -> (r: String)
    ensures
        r@ == history_text(history@.map_values(|s: Vec<String>| str_views(s@))),
{
    let mut out: Vec<char> = Vec::new();
    let nl: Vec<char> = vec!['\n'];
    let mut i: usize = 0;
    while i < history.len()
        invariant
            i <= history@.len(),
            nl@ == seq!['\n'],
            out@ == history_text(history@.subrange(0, i as int).map_values(|s: Vec<String>| str_views(s@))),
        decreases history@.len() - i,
    {
        let tests = &history[i];
        if tests.len() > 0 {
            let mut parts: Vec<Vec<char>> = Vec::new();
            let mut j: usize = 0;
            while j < tests.len()
                invariant
                    j <= tests@.len(),
                    views(parts@) == str_views(tests@.subrange(0, j as int)),
                decreases tests@.len() - j,
            {
                let ghost before = parts@;
                parts.push(to_chars(tests[j].as_str()));
                assert(views(parts@) =~= views(before).push(tests@[j as int]@));
                assert(str_views(tests@.subrange(0, j + 1)) =~= str_views(tests@.subrange(0, j as int)).push(tests@[j as int]@));
                j = j + 1;
            }
            assert(tests@.subrange(0, j as int) =~= tests@);
            let joined = join_chars_of(&parts, nl.as_slice());
            crate::text::append_chars(&mut out, joined.as_slice());
            out.push('\0');
        }
        assert(history@.subrange(0, i + 1).map_values(|s: Vec<String>| str_views(s@)).drop_last()
            =~= history@.subrange(0, i as int).map_values(|s: Vec<String>| str_views(s@)));
        i = i + 1;
    }
    assert(history@.subrange(0, i as int) =~= history@);
    from_chars(out.as_slice())
}

/// Joins lines with a separator.
fn join_chars_of(parts: &Vec<Vec<char>>, sep: &[char]) -> (r: Vec<char>)
    ensures
        r@ == join(views(parts@), sep@),
{
    crate::text::join_chars(parts, sep)
}

/// The bytes with each NUL byte turned into a line break.
pub open spec fn nul_to_newline(b: Seq<u8>) -> Seq<u8> {
    b.map_values(|x: u8| if x == 0 { 10u8 } else { x })
}

/// The lines fzf printed, the entries of a NUL-separated pick split into lines; an error when
/// the output is not UTF-8.
pub fn output_lines(stdout: Vec<u8>, read_null: bool) -> (r: Result<Vec<String>, FztError>)
    ensures
        ({
            let bytes = if read_null { nul_to_newline(stdout@) } else { stdout@ };
            match r {
                Ok(v) => vstd::utf8::valid_utf8(bytes) && str_views(v@) == lines(vstd::utf8::decode_utf8(bytes)),
                Err(e) => !vstd::utf8::valid_utf8(bytes) && e is StringParsing,
            }
        }),
{
    let mut bytes = stdout;
    if read_null {
        let ghost b0 = bytes@;
        let mut i: usize = 0;
        while i < bytes.len()
            invariant
                i <= bytes@.len(),
                bytes@.len() == b0.len(),
                forall|k: int| 0 <= k < i ==> bytes@[k] == (if b0[k] == 0 { 10u8 } else { b0[k] }),
                forall|k: int| i <= k < bytes@.len() ==> bytes@[k] == b0[k],
            decreases bytes@.len() - i,
        {
            if bytes[i] == 0 {
                bytes.set(i, 10);
            }
            i = i + 1;
        }
        assert(bytes@ =~= nul_to_newline(b0));
    }
    let text = match str_from_utf8(bytes.as_slice()) {
        Ok(t) => t,
        Err(e) => return Err(FztError::StringParsing(e)),
    };
    let chars = to_chars(text.as_str());
    let ls = split_lines(chars.as_slice());
    let mut r: Vec<String> = Vec::new();
    let mut i: usize = 0;
    while i < ls.len()
        invariant
            i <= ls@.len(),
            str_views(r@) == views(ls@).subrange(0, i as int),
        decreases ls@.len() - i,
    {
        let ghost before = r@;
        r.push(from_chars(ls[i].as_slice()));
        assert(str_views(r@) =~= str_views(before).push(ls@[i as int]@));
        assert(str_views(r@) =~= views(ls@).subrange(0, i + 1));
        i = i + 1;
    }
    assert(views(ls@).subrange(0, i as int) =~= views(ls@));
    Ok(r)
}

/// The option fzf printed when picking one: its output without surrounding whitespace.
pub fn picked_option(stdout: &[u8]) -> (r: Result<String, FztError>)
    ensures
        match r {
            Ok(s) => vstd::utf8::valid_utf8(stdout@) && s@ == trim(vstd::utf8::decode_utf8(stdout@)),
            Err(e) => !vstd::utf8::valid_utf8(stdout@) && e is StringParsing,
        },
{
    let text = match str_from_utf8(stdout) {
        Ok(t) => t,
        Err(e) => return Err(FztError::StringParsing(e)),
    };
    let chars = to_chars(text.as_str());
    let t = trim_chars(chars.as_slice());
    Ok(from_chars(t.as_slice()))
}


/// With a preview, entries are split at `::` and the preview command comes last, after
/// `--preview`: a file preview shows the file (the first field, `{1}`) with bat, a directory
/// preview lists the directory (the first field), and a test preview runs the script on the test
/// name (the second field) and the file (the first field). The preview does not depend on the
/// other options.
pub proof fn law_previews_follow_the_fields(read_null: bool, query: Option<Seq<char>>, script: Seq<char>, p: Preview)
    ensures
        ({
            let a = fzf_arguments(read_null, Some(p), query, script);
            let n = a.len() as int;
            &&& n >= 4
            &&& a[n - 4] == "--delimiter"@
            &&& a[n - 3] == "::"@
            &&& a[n - 2] == "--preview"@
            &&& p == Preview::File ==> a[n - 1] == "bat --style=numbers --color=always "@ + "{1}"@
            &&& p == Preview::Directory ==> a[n - 1] == " ls '"@ + "{1}"@ + "'"@
            &&& p == Preview::Test ==> a[n - 1] == "bash -c '"@ + quoted_script(script) + "' -- "@ + "{2}"@ + " "@ + "{1}"@ + " 20"@
        }),
        forall|r2: bool, q2: Option<Seq<char>>| #![trigger fzf_arguments(r2, Some(p), q2, script)]
            ({
                let a = fzf_arguments(read_null, Some(p), query, script);
                let b = fzf_arguments(r2, Some(p), q2, script);
                a.subrange(a.len() - 4, a.len() as int) == b.subrange(b.len() - 4, b.len() as int)
            }),
{
    reveal_strlit("bat --style=numbers --color=always ");
    reveal_strlit("bat --style=numbers --color=always {1}");
    reveal_strlit("{1}");
    reveal_strlit("{2}");
    reveal_strlit(" ls '");
    reveal_strlit("'");
    reveal_strlit(" ls '{1}'");
    reveal_strlit("' -- ");
    reveal_strlit(" ");
    reveal_strlit(" 20");
    reveal_strlit("' -- {2} {1} 20");
    let a = fzf_arguments(read_null, Some(p), query, script);
    assert("bat --style=numbers --color=always {1}"@ =~= "bat --style=numbers --color=always "@ + "{1}"@);
    assert(" ls '{1}'"@ =~= " ls '"@ + "{1}"@ + "'"@);
    assert("bash -c '"@ + quoted_script(script) + "' -- {2} {1} 20"@ =~= "bash -c '"@ + quoted_script(script) + "' -- "@ + "{2}"@ + " "@ + "{1}"@ + " 20"@);
    assert forall|r2: bool, q2: Option<Seq<char>>| #![trigger fzf_arguments(r2, Some(p), q2, script)]
        ({
            let b = fzf_arguments(r2, Some(p), q2, script);
            a.subrange(a.len() - 4, a.len() as int) == b.subrange(b.len() - 4, b.len() as int)
        }) by {
        let b = fzf_arguments(r2, Some(p), q2, script);
        assert(a.subrange(a.len() - 4, a.len() as int) =~= b.subrange(b.len() - 4, b.len() as int));
    }
}

} // verus!
