use cpp_guard::error::CInputError;
use cpp_guard::preprocess::{check_preprocessor_tokens, preprocess_line, CPPDirective};

#[test]
fn normal_code() {
    let contents = r#"
int main(void){
    printf("Hello world from test1\n");
    return 0;
}        
"#;
    let res = check_preprocessor_tokens(contents);
    assert!(res.is_ok());
}

#[test]
fn pragmaed_code() {
    let contents = r#"
#include<stdio.h>
int main(void){
    printf("Hello world from test1\n");
    return 0;
}        
"#;
    let res = check_preprocessor_tokens(contents);
    if let CInputError::PreprocessorError(_, _, directive) = res.unwrap_err() {
        assert_eq!(directive, CPPDirective::Include);
    } else {
        panic!("Was not a preprocessor error!");
    }
}

#[test]
fn tokened_code() {
    let contents = r#"
int main(void){
    printf("Hello world from test1\n");
    printf("I'm on line %d\n", __LINE__);
    return 0;
}        
"#;
    let res = check_preprocessor_tokens(contents);
    if let CInputError::PreprocessorError(_, _, directive) = res.unwrap_err() {
        assert_eq!(directive, CPPDirective::Line);
    } else {
        panic!("Was not a preprocessor error!");
    }
}

#[test]
fn scenario_plain_program() {
    let res = check_preprocessor_tokens("int main(void){\n  return 0;\n}\n");
    assert!(res.is_ok());
}

#[test]
fn scenario_include_on_first_line() {
    let res = check_preprocessor_tokens("#include<stdio.h>\nint main(void){return 0;}\n");
    match res {
        Err(CInputError::PreprocessorError(lineno, text, kind)) => {
            assert_eq!(lineno, 0);
            assert_eq!(text, "#include<stdio.h>");
            assert_eq!(kind, CPPDirective::Include);
        }
        _ => panic!("expected a preprocessor diagnostic"),
    }
}

#[test]
fn scenario_line_macro_mid_program() {
    let res =
        check_preprocessor_tokens("int main(void){\n  printf(\"%d\\n\", __LINE__);\n  return 0;\n}\n");
    match res {
        Err(CInputError::PreprocessorError(lineno, text, kind)) => {
            assert_eq!(lineno, 1);
            assert_eq!(text, "  printf(\"%d\\n\", __LINE__);");
            assert_eq!(kind, CPPDirective::Line);
        }
        _ => panic!("expected a preprocessor diagnostic"),
    }
}

#[test]
fn scenario_empty_input() {
    assert!(check_preprocessor_tokens("").is_ok());
}

#[test]
fn directive_must_start_the_line() {
    assert!(check_preprocessor_tokens("  x = 5; // #define not real\n").is_ok());
    assert!(check_preprocessor_tokens("int x = 5;\n").is_ok());
}

#[test]
fn leading_whitespace_before_directive_is_allowed() {
    let res = check_preprocessor_tokens("   #define FOO\n");
    match res {
        Err(CInputError::PreprocessorError(lineno, text, kind)) => {
            assert_eq!(lineno, 0);
            assert_eq!(text, "   #define FOO");
            assert_eq!(kind, CPPDirective::Define);
        }
        _ => panic!("expected a preprocessor diagnostic"),
    }
}

#[test]
fn unicode_whitespace_before_directive_is_allowed() {
    assert_eq!(
        preprocess_line("\u{00A0}#define FOO"),
        Some(CPPDirective::Define)
    );
    assert_eq!(
        preprocess_line("\u{3000}\t#pragma once"),
        Some(CPPDirective::Pragma)
    );
}

#[test]
fn macro_token_matches_anywhere_on_the_line() {
    assert_eq!(
        preprocess_line("printf(\"%d\", __LINE__);"),
        Some(CPPDirective::Line)
    );
}

#[test]
fn tie_breaks_resolve_to_the_lowest_catalog_position() {
    assert_eq!(
        preprocess_line("#define X __LINE__"),
        Some(CPPDirective::Define)
    );
    assert_eq!(preprocess_line("#ifdef FOO"), Some(CPPDirective::Ifdef));
    assert_eq!(preprocess_line("#ifndef FOO"), Some(CPPDirective::Ifndef));
    assert_eq!(
        preprocess_line("#include __DATE__"),
        Some(CPPDirective::Include)
    );
    assert_eq!(
        preprocess_line("x = __DATE__; y = __LINE__;"),
        Some(CPPDirective::Date)
    );
}

#[test]
fn scanning_twice_gives_identical_results() {
    let contents = "int a;\n  #undef B\n__FILE__\n";
    let first = check_preprocessor_tokens(contents);
    let second = check_preprocessor_tokens(contents);
    match (first, second) {
        (
            Err(CInputError::PreprocessorError(l1, t1, k1)),
            Err(CInputError::PreprocessorError(l2, t2, k2)),
        ) => {
            assert_eq!(l1, l2);
            assert_eq!(t1, t2);
            assert_eq!(k1, k2);
            assert_eq!(l1, 1);
            assert_eq!(t1, "  #undef B");
            assert_eq!(k1, CPPDirective::Undef);
        }
        _ => panic!("expected the same preprocessor diagnostic twice"),
    }
}

#[test]
fn every_kind_is_detected() {
    let cases: Vec<(&str, CPPDirective)> = vec![
        ("#define X 1", CPPDirective::Define),
        ("#include <stdio.h>", CPPDirective::Include),
        ("#undef X", CPPDirective::Undef),
        ("#ifdef X", CPPDirective::Ifdef),
        ("#ifndef X", CPPDirective::Ifndef),
        ("#if 1", CPPDirective::If),
        ("#else", CPPDirective::Else),
        ("#elif 0", CPPDirective::Elif),
        ("#endif", CPPDirective::Endif),
        ("#error broken", CPPDirective::Error),
        ("#pragma once", CPPDirective::Pragma),
        ("d = __DATE__;", CPPDirective::Date),
        ("t = __TIME__;", CPPDirective::Time),
        ("ts = __TIMESTAMP__;", CPPDirective::Timestamp),
        ("f = __FILE__;", CPPDirective::File),
        ("l = __LINE__;", CPPDirective::Line),
        ("s = __STDC__;", CPPDirective::Stdc),
    ];
    for (line, expected) in cases {
        assert_eq!(preprocess_line(line), Some(expected));
    }
}

#[test]
fn unmatched_lines_give_none() {
    assert_eq!(preprocess_line(""), None);
    assert_eq!(preprocess_line("int define = 0;"), None);
    assert_eq!(preprocess_line("char *s = \"__line__\";"), None);
}

#[test]
fn carriage_returns_are_not_part_of_the_line_text() {
    let res = check_preprocessor_tokens("line one\r\n#define X\r\nrest\r\n");
    match res {
        Err(CInputError::PreprocessorError(lineno, text, kind)) => {
            assert_eq!(lineno, 1);
            assert_eq!(text, "#define X");
            assert_eq!(kind, CPPDirective::Define);
        }
        _ => panic!("expected a preprocessor diagnostic"),
    }
}

#[test]
fn trailing_newline_adds_no_phantom_line() {
    assert!(check_preprocessor_tokens("int a;\n").is_ok());
    assert!(check_preprocessor_tokens("int a;").is_ok());
}

#[test]
fn display_is_the_canonical_form() {
    assert_eq!(CPPDirective::Define.display(), "#define");
    assert_eq!(CPPDirective::Include.display(), "#include");
    assert_eq!(CPPDirective::Timestamp.display(), "__TIMESTAMP__");
    assert_eq!(CPPDirective::Line.display(), "__LINE__");
    assert_eq!(CPPDirective::Stdc.display(), "__STDC__");
}
