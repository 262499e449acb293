use barrelgen::classify::{classify_patterns, MAX_EXCLUSIONS};
use barrelgen::error::IndexError;
use barrelgen::locate::locate_declaration;
use barrelgen::paths::exclusion_rejects;
use barrelgen::pipeline::{
    prepare, render_exports, resolve_files, run, strip_extension, Config, OperatingMode, Snapshot,
};
use barrelgen::resolve::{find_files_matching, is_ignored, trim_first_character};
use barrelgen::template::{extract_template, ExportTemplate};

fn chars(s: &str) -> Vec<char> {
    s.chars().collect()
}

fn strings(v: &[&str]) -> Vec<String> {
    v.iter().map(|s| s.to_string()).collect()
}

fn snapshot(files: &[&str]) -> Snapshot {
    Snapshot { files: strings(files), errors: vec![] }
}

fn rewrite_default() -> Config {
    Config { mode: OperatingMode::Rewrite, templated: false, abort_on_resolution_error: true }
}

#[test]
fn end_to_end_rewrite_components() {
    let text = "// @index([\"./components/**/*.ts\", \"!**/*.test.ts\"])\nold line\n";
    let snap = snapshot(&[
        "components/Button.ts",
        "components/Button.test.ts",
        "components/utils/format.ts",
        "components/types.d.ts",
        "index.ts",
    ]);
    let out = run(Ok(text.to_string()), "src", &snap, rewrite_default()).unwrap();
    assert_eq!(
        out,
        "// @index([\"./components/**/*.ts\", \"!**/*.test.ts\"])\n\
         export * from \"./components/Button\"\n\
         export * from \"./components/utils/format\"\n"
    );
}

#[test]
fn single_quoted_patterns_are_not_literals() {
    let text = "// @index('./components/**/*.ts', '!./components/**/*.test.ts')\n";
    let snap = snapshot(&["components/Button.ts"]);
    let out = run(Ok(text.to_string()), "src", &snap, rewrite_default()).unwrap();
    assert_eq!(out, "// @index('./components/**/*.ts', '!./components/**/*.test.ts')\n");
}

#[test]
fn missing_root_file_is_unreadable() {
    let snap = snapshot(&["a.ts"]);
    let r = run(Err("no such file".to_string()), "src", &snap, Config::simple());
    assert_eq!(r, Err(IndexError::FileUnreadable("no such file".to_string())));
    assert!(matches!(
        prepare(Err("gone".to_string()), Config::templated()),
        Err(IndexError::FileUnreadable(_))
    ));
}

#[test]
fn no_directive_is_not_found() {
    let r = locate_declaration("export const a = 1;\n// index(\"x\")\n");
    assert!(matches!(r, Err(IndexError::DeclarationNotFound)));
    let r = prepare(Ok("nothing here".to_string()), Config::simple());
    assert!(matches!(r, Err(IndexError::DeclarationNotFound)));
}

#[test]
fn first_directive_wins() {
    let d = locate_declaration("header\n// @index([\"./a/*.ts\"])\n// @index([\"./b/*.ts\"])\n").unwrap();
    assert_eq!(d.header_line, "header");
    assert_eq!(d.raw_body, "[\"./a/*.ts\"]");
}

#[test]
fn directive_body_runs_to_last_parenthesis() {
    let d = locate_declaration("// @index([\"./*.ts\"], (x) => x) trailing\r\nnext").unwrap();
    assert_eq!(d.raw_body, "[\"./*.ts\"], (x) => x");
    assert_eq!(d.header_line, "// @index([\"./*.ts\"], (x) => x) trailing\r");
}

#[test]
fn empty_body_is_not_a_directive() {
    assert!(matches!(locate_declaration("// @index()\n"), Err(IndexError::DeclarationNotFound)));
}

#[test]
fn classify_keeps_order_within_each_class() {
    let ps = classify_patterns("[\"./a/*.ts\", \"!**/x/**\", \"./b/*.ts\", \"!**/y/**\"]").unwrap();
    assert_eq!(ps.inclusions, strings(&["./a/*.ts", "./b/*.ts"]));
    assert_eq!(ps.exclusions, strings(&["!**/x/**", "!**/y/**"]));
}

#[test]
fn classify_skips_literals_not_followed_by_comma_or_bracket() {
    let ps = classify_patterns("[\"./a/*.ts\"], `export * from \"${f}\"`, \"loose\" ").unwrap();
    assert_eq!(ps.inclusions, strings(&["./a/*.ts"]));
    assert!(ps.exclusions.is_empty());
}

#[test]
fn nine_exclusions_are_accepted() {
    let mut body = String::from("[\"./*.ts\"");
    for i in 0..9 {
        body.push_str(&format!(", \"!**/e{}/**\"", i));
    }
    body.push(']');
    let ps = classify_patterns(&body).unwrap();
    assert_eq!(ps.exclusions.len(), MAX_EXCLUSIONS);
}

#[test]
fn ten_exclusions_are_too_many() {
    let mut body = String::from("[\"./*.ts\"");
    for i in 0..10 {
        body.push_str(&format!(", \"!**/e{}/**\"", i));
    }
    body.push(']');
    assert_eq!(classify_patterns(&body).err(), Some(IndexError::TooManyExclusions(10)));
    let text = format!("// @index({})\n", body);
    let r = prepare(Ok(text), Config::simple());
    assert!(matches!(r, Err(IndexError::TooManyExclusions(10))));
}

#[test]
fn template_is_split_around_placeholder() {
    let t = extract_template("[\"./*.ts\"], `export { default } from '${file}';`").unwrap();
    assert_eq!(t.before, "export { default } from '");
    assert_eq!(t.after, "';");
}

#[test]
fn template_errors() {
    assert_eq!(extract_template("[\"./*.ts\"]").err(), Some(IndexError::NoExportTemplate));
    assert_eq!(extract_template("[\"./*.ts\"], `").err(), Some(IndexError::NoExportTemplate));
    assert_eq!(extract_template("[\"./*.ts\"], ``").err(), Some(IndexError::NoExportTemplate));
    assert_eq!(extract_template("[\"./*.ts\"], `x`").err(), Some(IndexError::MalformedTemplate));
    assert_eq!(extract_template("[\"./*.ts\"], `export ${}`").err(), Some(IndexError::MalformedTemplate));
    assert_eq!(extract_template("[\"./*.ts\"], `export all`").err(), Some(IndexError::MalformedTemplate));
}

#[test]
fn default_format_line() {
    let t = ExportTemplate::default_format();
    let out = render_exports(&t, &strings(&["./a/b.ts", "./c.tsx"]));
    assert_eq!(out, "export * from \"./a/b\"\nexport * from \"./c.tsx\"\n");
}

#[test]
fn strip_extension_only_at_end() {
    assert_eq!(strip_extension(&chars("./a.ts")), chars("./a"));
    assert_eq!(strip_extension(&chars("./x.tsy/a")), chars("./x.tsy/a"));
    assert_eq!(strip_extension(&chars("./b.test.ts")), chars("./b.test"));
}

#[test]
fn trims_leading_dot_slash() {
    assert_eq!(trim_first_character("./a/**/*.ts"), "a/**/*.ts");
    assert_eq!(trim_first_character("a/*.ts"), "a/*.ts");
    assert_eq!(trim_first_character("."), ".");
    assert_eq!(trim_first_character("../a"), "../a");
}

#[test]
fn exclusion_rejects_path_segment() {
    let p = chars("!**/fixtures/**");
    assert!(exclusion_rejects(&p, &chars("src/a/fixtures/b.ts")));
    assert!(exclusion_rejects(&p, &chars("src/fixtures/b.ts")));
    assert!(!exclusion_rejects(&p, &chars("src/fixturesx/b.ts")));
    assert!(!exclusion_rejects(&p, &chars("/fixtures/")));
}

#[test]
fn exclusion_needs_pieces_in_order() {
    let p = chars("!**/*.test.ts");
    assert!(exclusion_rejects(&p, &chars("src/components/Button.test.ts")));
    assert!(!exclusion_rejects(&p, &chars("src/components/Button.ts")));
    assert!(!exclusion_rejects(&p, &chars("src/.test.ts")));
}

#[test]
fn ignore_set() {
    assert!(is_ignored(&chars("index.ts")));
    assert!(is_ignored(&chars("a/index.ts")));
    assert!(is_ignored(&chars("a/types.d.ts")));
    assert!(is_ignored(&chars("a/__tests__/b.ts")));
    assert!(is_ignored(&chars("testUtils/b.ts")));
    assert!(!is_ignored(&chars("a/testUtils.ts")));
    assert!(!is_ignored(&chars("a/myindex.ts")));
}

#[test]
fn find_files_uses_glob_matching() {
    let files = strings(&["a/x.ts", "a/b/y.ts", "c/z.ts", "a/x.js"]);
    let r = find_files_matching("./a/*.ts", "src", &[], &files).unwrap();
    assert_eq!(r, strings(&["./a/x.ts"]));
    let r = find_files_matching("./a/**/*.ts", "src", &[], &files).unwrap();
    assert_eq!(r, strings(&["./a/x.ts", "./a/b/y.ts"]));
}

#[test]
fn find_files_applies_exclusions_to_full_path() {
    let files = strings(&["a/x.ts", "a/fixtures/y.ts"]);
    let ex = strings(&["!**/fixtures/**"]);
    let r = find_files_matching("./a/**/*.ts", "src", &ex, &files).unwrap();
    assert_eq!(r, strings(&["./a/x.ts"]));
}

#[test]
fn invalid_pattern_is_reported() {
    let r = find_files_matching("./a/***.ts", "src", &[], &strings(&["a/x.ts"]));
    assert_eq!(r, Err(IndexError::InvalidPattern("./a/***.ts".to_string())));
    let text = "// @index([\"./a/*.ts\", \"./a/***.ts\"])\n";
    let r = run(Ok(text.to_string()), "src", &snapshot(&["a/x.ts"]), Config::simple());
    assert_eq!(r, Err(IndexError::InvalidPattern("./a/***.ts".to_string())));
}

#[test]
fn overlapping_patterns_yield_each_file_once() {
    let text = "// @index([\"./a/*.ts\", \"./**/*.ts\"])\n";
    let snap = snapshot(&["b/y.ts", "a/x.ts"]);
    let out = run(Ok(text.to_string()), "src", &snap, rewrite_default()).unwrap();
    assert_eq!(
        out,
        "// @index([\"./a/*.ts\", \"./**/*.ts\"])\nexport * from \"./a/x\"\nexport * from \"./b/y\"\n"
    );
}

#[test]
fn resolution_errors_follow_policy() {
    let ps = classify_patterns("[\"./*.ts\"]").unwrap();
    let snap = Snapshot { files: strings(&["a.ts"]), errors: strings(&["denied: secret"]) };
    let r = resolve_files(&ps, "src", &snap, true);
    assert_eq!(r, Err(IndexError::ResolutionError("denied: secret".to_string())));
    let r = resolve_files(&ps, "src", &snap, false).unwrap();
    assert_eq!(r, strings(&["./a.ts"]));
}

#[test]
fn rewrite_twice_is_unchanged() {
    let text = "// @index([\"./*.ts\"], `export * from '${f}';`)\nstale\n";
    let snap = snapshot(&["a.ts", "b.ts", "index.ts"]);
    let once = run(Ok(text.to_string()), "src", &snap, Config::templated()).unwrap();
    assert_eq!(
        once,
        "// @index([\"./*.ts\"], `export * from '${f}';`)\n\
         export * from './a';\nexport * from './b';\n"
    );
    let twice = run(Ok(once.clone()), "src", &snap, Config::templated()).unwrap();
    assert_eq!(twice, once);
}

#[test]
fn append_twice_duplicates_lines() {
    let text = "// @index([\"./*.ts\"])\n";
    let snap = snapshot(&["a.ts"]);
    let added = run(Ok(text.to_string()), "src", &snap, Config::simple()).unwrap();
    assert_eq!(added, "export * from \"./a\"\n");
    let after_first = format!("{}{}", text, added);
    let added_again = run(Ok(after_first.clone()), "src", &snap, Config::simple()).unwrap();
    assert_eq!(added_again, added);
    let after_second = format!("{}{}", after_first, added_again);
    assert_eq!(after_second.matches("export * from \"./a\"").count(), 2);
}

#[test]
fn no_literals_is_an_empty_success() {
    let text = "// @index(nothing quoted)\nrest\n";
    let snap = Snapshot { files: strings(&["a.ts"]), errors: strings(&["io"]) };
    let out = run(Ok(text.to_string()), "src", &snap, rewrite_default()).unwrap();
    assert_eq!(out, "// @index(nothing quoted)\n");
    let out = run(Ok(text.to_string()), "src", &snap, Config::simple()).unwrap();
    assert_eq!(out, "");
}

#[test]
fn templated_run_needs_template() {
    let r = run(Ok("// @index([\"./*.ts\"])\n".to_string()), "src", &snapshot(&[]), Config::templated());
    assert_eq!(r, Err(IndexError::NoExportTemplate));
}

#[test]
fn stages_are_named() {
    assert_eq!(IndexError::TooManyExclusions(10).stage(), "classifying patterns");
    assert_eq!(IndexError::FileUnreadable(String::new()).stage(), "reading the root file");
    assert_eq!(IndexError::MalformedTemplate.stage(), "extracting the export template");
}
