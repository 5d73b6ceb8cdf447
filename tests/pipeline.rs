use clue_cli::assemble::{assemble, fill_template, wrap_debug, DEBUG_HEAD, DEBUG_TAIL, DEFAULT_TEMPLATE};
use clue_cli::compile::{compile_source, finish_compile, CompileOptions, ContinueMode};
use clue_cli::names::{classify_entry, EntryAction};
use clue_cli::output::{
    artifact_path, build_artifact, output_file_name, prelude, single_output_path,
};
use clue_cli::schedule::{
    collect_outcomes, conclude, format_fragment, pool_size, worker_count, ErrorCounter,
    FragmentList, PendingSet, SourceFile,
};
use clue_cli::text::{chars_of, replace_chars, rfind_chars, strip_suffix_chars};

fn options() -> CompileOptions {
    CompileOptions {
        tokens: false,
        structure: false,
        output: false,
        jitbit: None,
        continue_mode: ContinueMode::Simple,
        rawset_globals: false,
        debug: false,
    }
}

fn source(path: &str, name: &str) -> SourceFile {
    SourceFile { path: path.to_string(), qualified_name: name.to_string() }
}

fn compile(text: &str, name: &str) -> Result<String, String> {
    compile_source(text.to_string(), &name.to_string(), 2, &options()).map(|o| o.code)
}

const VALID_MAIN: &str = "local x = 1\nprint(x)\n";
const VALID_HELPERS: &str = "global fn greet(name) {\n\treturn \"hi \" .. name\n}\n";
const MALFORMED: &str = "local x = (\n";

fn qualified(dir_names: &[&str], file: &str) -> String {
    let mut dir = String::from("root");
    let mut prefix = String::new();
    for d in dir_names {
        match classify_entry(&dir, &prefix, d, true) {
            EntryAction::Descend { path, prefix: p } => {
                dir = path;
                prefix = p;
            }
            _ => panic!("a directory is walked"),
        }
    }
    match classify_entry(&dir, &prefix, file, false) {
        EntryAction::Source(f) => f.qualified_name,
        _ => panic!("a source file is recorded"),
    }
}

#[test]
fn compilation_success() {
    let files = vec![source("main.clue", "main"), source("util/helpers.clue", "util.helpers")];
    let outcomes = vec![compile(VALID_MAIN, "main.clue"), compile(VALID_HELPERS, "util/helpers.clue")];
    assert!(outcomes.iter().all(|o| o.is_ok()));
    collect_outcomes(&files, outcomes).unwrap();
}

#[test]
fn nested_file_gets_dotted_name() {
    assert_eq!(qualified(&["a", "b"], "c.clue"), "a.b.c");
    assert_eq!(qualified(&[], "main.clue"), "main");
    assert_eq!(qualified(&["util"], "helpers.clue"), "util.helpers");
}

#[test]
fn entries_are_classified() {
    match classify_entry("root/src", "src.", "lib", true) {
        EntryAction::Descend { path, prefix } => {
            assert_eq!(path, "root/src/lib");
            assert_eq!(prefix, "src.lib.");
        }
        _ => panic!("expected a directory to walk"),
    }
    match classify_entry("root", "", "main.clue", false) {
        EntryAction::Source(f) => {
            assert_eq!(f.path, "root/main.clue");
            assert_eq!(f.qualified_name, "main");
        }
        _ => panic!("expected a source file"),
    }
    assert!(matches!(classify_entry("root", "", "notes.txt", false), EntryAction::Skip));
    assert!(matches!(classify_entry("root", "", "clue", false), EntryAction::Skip));
}

#[test]
fn scenario_one_bad_file_fails_the_run() {
    let names: Vec<String> = vec![
        qualified(&[], "main.clue"),
        qualified(&["util"], "helpers.clue"),
        qualified(&[], "bad.clue"),
    ];
    assert_eq!(names, vec!["main", "util.helpers", "bad"]);
    let files = vec![
        source("root/main.clue", "main"),
        source("root/util/helpers.clue", "util.helpers"),
        source("root/bad.clue", "bad"),
    ];
    let outcomes = vec![
        compile(VALID_MAIN, "root/main.clue"),
        compile(VALID_HELPERS, "root/util/helpers.clue"),
        compile(MALFORMED, "root/bad.clue"),
    ];
    assert!(outcomes[2].is_err());
    assert_eq!(collect_outcomes(&files, outcomes), Err("1 file failed to compile!".to_string()));
}

#[test]
fn all_valid_files_give_one_entry_each() {
    let files = vec![source("a.clue", "a"), source("b/c.clue", "b.c"), source("d.clue", "d")];
    let outcomes = vec![
        compile(VALID_MAIN, "a.clue"),
        compile(VALID_HELPERS, "b/c.clue"),
        compile(VALID_MAIN, "d.clue"),
    ];
    let fragments = collect_outcomes(&files, outcomes).unwrap();
    assert_eq!(fragments.len(), 3);
    for key in ["\t[\"a\"] = function()\n", "\t[\"b.c\"] = function()\n", "\t[\"d\"] = function()\n"] {
        assert_eq!(fragments.iter().filter(|f| f.starts_with(key)).count(), 1);
    }
    for f in &fragments {
        let body = f.split_once("function()\n").unwrap().1.strip_suffix("\n\tend,\n").unwrap();
        assert!(!body.trim().is_empty());
    }
}

#[test]
fn failures_are_counted_exactly() {
    let files = vec![source("a", "a"), source("b", "b"), source("c", "c"), source("d", "d")];
    let two = vec![Ok("x".to_string()), Err("e".to_string()), Ok("y".to_string()), Err("f".to_string())];
    assert_eq!(collect_outcomes(&files, two), Err("2 files failed to compile!".to_string()));
    let three = vec![Err("a".to_string()), Err("b".to_string()), Ok("y".to_string()), Err("c".to_string())];
    assert_eq!(collect_outcomes(&files, three), Err("3 files failed to compile!".to_string()));
    let one = vec![Ok("x".to_string()), Ok("z".to_string()), Ok("y".to_string()), Err("c".to_string())];
    assert_eq!(collect_outcomes(&files, one), Err("1 file failed to compile!".to_string()));
}

#[test]
fn large_failure_counts_are_written_in_decimal() {
    let mut errors = ErrorCounter::new();
    for _ in 0..120 {
        errors.record_failure();
    }
    assert_eq!(errors.count, 120);
    assert_eq!(conclude(errors, FragmentList::new()), Err("120 files failed to compile!".to_string()));
    let mut ten = ErrorCounter::new();
    for _ in 0..10 {
        ten.record_failure();
    }
    assert_eq!(conclude(ten, FragmentList::new()), Err("10 files failed to compile!".to_string()));
}

#[test]
fn no_files_is_a_success() {
    assert_eq!(collect_outcomes(&vec![], vec![]), Ok(vec![]));
    assert_eq!(conclude(ErrorCounter::new(), FragmentList::new()), Ok(vec![]));
}

#[test]
fn same_file_compiles_identically_twice() {
    let first = compile(VALID_HELPERS, "util/helpers.clue").unwrap();
    let second = compile(VALID_HELPERS, "util/helpers.clue").unwrap();
    assert_eq!(first, second);
    assert!(!first.is_empty());
}

#[test]
fn fragment_format() {
    assert_eq!(format_fragment("util.helpers", "return 1"), "\t[\"util.helpers\"] = function()\nreturn 1\n\tend,\n");
    let mut list = FragmentList::new();
    list.push_compiled("m", "x()");
    assert_eq!(list.fragments, vec!["\t[\"m\"] = function()\nx()\n\tend,\n".to_string()]);
}

#[test]
fn output_marker_twice_gets_the_same_body() {
    let artifact = assemble("", &vec!["A".to_string(), "B".to_string()], "--STATICS\nfirst \u{a7} second \u{a7} end");
    assert_eq!(artifact, "first \nAB second \nAB end");
}

#[test]
fn template_fill_replaces_every_marker() {
    let statics = chars_of("S");
    let body = chars_of("BODY");
    assert_eq!(fill_template("--STATICS\n[\u{a7}|\u{a7}|\u{a7}]", &statics, &body), "S[BODY|BODY|BODY]");
    assert_eq!(fill_template("no markers", &statics, &body), "no markers");
}

#[test]
fn statics_emitted_by_fragments_are_hoisted() {
    let frags = vec!["\t[\"a\"] = function()\nA\n\tend,\n".to_string(), "local s = 1\n--STATICS\n\t[\"b\"] = function()\nB\n\tend,\n".to_string()];
    let artifact = assemble("", &frags, "--STATICS\nT{\u{a7}}");
    assert_eq!(artifact, "--STATICS\n\t[\"a\"] = function()\nA\n\tend,\nlocal s = 1\nT{\n\t[\"b\"] = function()\nB\n\tend,\n}");
}

#[test]
fn default_template_builds_a_module_table() {
    let frags = vec![format_fragment("main", "print(1)")];
    let artifact = assemble("", &frags, DEFAULT_TEMPLATE);
    assert!(artifact.contains("\t[\"main\"] = function()\nprint(1)\n\tend,\n"));
    assert!(!artifact.contains('\u{a7}'));
    assert!(!artifact.contains("--STATICS"));
}

#[test]
fn debug_wrapper_embeds_artifact_once() {
    let plain = "return 'unique artifact text'";
    let wrapped = wrap_debug(plain);
    assert_eq!(wrapped.matches(plain).count(), 1);
    assert_eq!(wrapped, format!("{DEBUG_HEAD}{plain}{DEBUG_TAIL}"));
}

#[test]
fn build_artifact_applies_prelude_and_debug() {
    let mut o = options();
    o.jitbit = Some("bit".to_string());
    let frags = vec!["F".to_string()];
    let plain = build_artifact(&o, &frags, Some("<--STATICS\n|\u{a7}>"));
    assert_eq!(plain, "<local bit = require(\"bit\");\n|\nF>");
    o.debug = true;
    let wrapped = build_artifact(&o, &frags, Some("<--STATICS\n|\u{a7}>"));
    assert_eq!(wrapped, wrap_debug(&plain));
}

#[test]
fn prelude_loads_bit_library() {
    let mut o = options();
    assert_eq!(prelude(&o), "");
    o.jitbit = Some("b".to_string());
    assert_eq!(prelude(&o), "local b = require(\"bit\");\n");
}

#[test]
fn worker_pool_sizing() {
    assert_eq!(worker_count(1, 1), 1);
    assert_eq!(worker_count(1, 64), 1);
    assert_eq!(worker_count(1000, 4), 8);
    assert_eq!(worker_count(8, 4), 8);
    assert_eq!(worker_count(9, 4), 8);
    assert_eq!(worker_count(0, 4), 0);
    assert_eq!(worker_count(usize::MAX, usize::MAX), usize::MAX);
    let (one, cpus) = pool_size(1);
    assert_eq!(one, 1);
    assert!(cpus >= 1);
    let (many, cpus) = pool_size(10_000);
    assert_eq!(many, 2 * cpus);
    assert_eq!(pool_size(0).0, 0);
}

#[test]
fn pending_set_hands_out_each_file_once() {
    let mut pending = PendingSet::new(3);
    assert!(!pending.is_empty());
    let mut seen = vec![];
    while let Some(i) = pending.take() {
        seen.push(i);
    }
    assert_eq!(seen, vec![2, 1, 0]);
    assert!(pending.is_empty());
    assert_eq!(pending.take(), None);
}

#[test]
fn output_names() {
    assert_eq!(output_file_name("main"), "main.lua");
    assert_eq!(output_file_name("bundle.lua"), "bundle.lua");
    assert_eq!(artifact_path("dir", "main.lua"), "dir/main.lua");
    assert_eq!(artifact_path("dir/", "main.lua"), "dir/main.lua");
    assert_eq!(artifact_path("dir\\", "main.lua"), "dir\\main.lua");
    assert_eq!(single_output_path("src/app.clue"), Some("src/app.lua".to_string()));
    assert_eq!(single_output_path("src/app.txt"), None);
}

#[test]
fn text_operations() {
    let s = chars_of("abcabc");
    assert_eq!(rfind_chars(&s, &chars_of("bc")), Some(4));
    assert_eq!(rfind_chars(&s, &chars_of("x")), None);
    let r: String = replace_chars(&chars_of("aaa"), &chars_of("aa"), &chars_of("b")).into_iter().collect();
    assert_eq!(r, "ba");
    assert_eq!(strip_suffix_chars("file.clue", ".clue"), Some("file".to_string()));
    assert_eq!(strip_suffix_chars("file.lua", ".clue"), None);
}

#[test]
fn compile_reports_follow_the_options() {
    let mut o = options();
    o.tokens = true;
    o.structure = true;
    o.output = true;
    let out = compile_source(VALID_MAIN.to_string(), &"m.clue".to_string(), 0, &o).unwrap();
    assert!(out.tokens.unwrap().starts_with("Scanned tokens of file \"m.clue\":\n"));
    assert!(out.structure.unwrap().starts_with("Parsed structure of file \"m.clue\":\n"));
    let generated = out.output.unwrap();
    let g = generated.strip_prefix("Compiled Lua code of file \"m.clue\":\n").unwrap();
    assert!(out.code.ends_with(g));
    let plain = compile_source(VALID_MAIN.to_string(), &"m.clue".to_string(), 0, &options()).unwrap();
    assert!(plain.tokens.is_none() && plain.structure.is_none() && plain.output.is_none());
    assert!(compile_source(MALFORMED.to_string(), &"m.clue".to_string(), 0, &options()).is_err());
}

#[test]
fn finish_compile_puts_statics_first() {
    let mut o = options();
    o.output = true;
    let out = finish_compile(
        "local s = 1\n".to_string(),
        Ok("print(s)".to_string()),
        Some("[tokens]".to_string()),
        None,
        &"f.clue".to_string(),
        &o,
    )
    .unwrap();
    assert_eq!(out.code, "local s = 1\nprint(s)");
    assert_eq!(out.tokens, Some("Scanned tokens of file \"f.clue\":\n[tokens]".to_string()));
    assert_eq!(out.structure, None);
    assert_eq!(out.output, Some("Compiled Lua code of file \"f.clue\":\nprint(s)".to_string()));
    let failed = finish_compile(String::new(), Err("bad".to_string()), None, None, &"f".to_string(), &o);
    assert_eq!(failed.err(), Some("bad".to_string()));
}

#[test]
fn discovery_order_changes_only_fragment_order() {
    let first = vec![source("a.clue", "a"), source("b/c.clue", "b.c")];
    let second = vec![source("b/c.clue", "b.c"), source("a.clue", "a")];
    let mut run1 = collect_outcomes(&first, vec![compile(VALID_MAIN, "a.clue"), compile(VALID_HELPERS, "b/c.clue")]).unwrap();
    let mut run2 = collect_outcomes(&second, vec![compile(VALID_HELPERS, "b/c.clue"), compile(VALID_MAIN, "a.clue")]).unwrap();
    assert_ne!(run1, run2);
    run1.sort();
    run2.sort();
    assert_eq!(run1, run2);
}
