use sumic::PreprocessError;
use sumic::Preprocessor;
use sumic::SourceFile;
use sumic::SourceFiles;

// the directive keyword, assembled so the marker reads naturally in sources
fn directive(path: &str) -> String {
    format!("#{}{} \"{}\"", "inc", "lude", path)
}

fn table(entries: &[(&str, String)]) -> SourceFiles {
    SourceFiles {
        files: entries
            .iter()
            .map(|(p, t)| SourceFile { path: p.to_string(), text: t.clone() })
            .collect(),
    }
}

#[test]
fn directives_are_spliced_in_place() {
    let files = table(&[
        ("main.sl", format!("A\n{}\nB", directive("lib.sl"))),
        ("lib.sl", "L".to_string()),
    ]);
    let out = Preprocessor::new().process(&files, "main.sl").unwrap();
    assert_eq!(out, "A\nL\nB");
}

#[test]
fn paths_resolve_against_the_containing_file() {
    let files = table(&[
        ("sub/a.sl", directive("b.sl")),
        ("sub/b.sl", "inner".to_string()),
    ]);
    let out = Preprocessor::new().process(&files, "sub/a.sl").unwrap();
    assert_eq!(out, "inner");
}

#[test]
fn revisiting_a_file_yields_an_empty_expansion_not_an_error() {
    let files = table(&[
        (
            "main.sl",
            format!("X{}Y{}Z", directive("lib.sl"), directive("lib.sl")),
        ),
        ("lib.sl", "L".to_string()),
    ]);
    let out = Preprocessor::new().process(&files, "main.sl").unwrap();
    assert_eq!(out, "XLYZ");
}

#[test]
fn nesting_past_the_depth_limit_is_a_cycle_or_depth_error() {
    let mut entries: Vec<(String, String)> = Vec::new();
    for k in 0..11 {
        entries.push((format!("f{}.sl", k), directive(&format!("f{}.sl", k + 1))));
    }
    let files = SourceFiles {
        files: entries
            .iter()
            .map(|(p, t)| SourceFile { path: p.clone(), text: t.clone() })
            .collect(),
    };
    let err = Preprocessor::new().process(&files, "f0.sl").unwrap_err();
    assert_eq!(err, PreprocessError::CycleOrDepth("f11.sl".to_string()));
}

#[test]
fn a_missing_file_is_an_io_error_with_its_path() {
    let files = table(&[("main.sl", directive("nope.sl"))]);
    let err = Preprocessor::new().process(&files, "main.sl").unwrap_err();
    assert_eq!(err, PreprocessError::Io("nope.sl".to_string()));
}

#[test]
fn text_without_directives_passes_through_untouched() {
    let files = table(&[("main.sl", "void f() { return 1; }\n".to_string())]);
    let out = Preprocessor::new().process(&files, "main.sl").unwrap();
    assert_eq!(out, "void f() { return 1; }\n");
}
