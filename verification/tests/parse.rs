use cpp_guard::error::CInputError;
use cpp_guard::parse;
use cpp_guard::preprocess::CPPDirective;

#[test]
fn parse_accepts_a_plain_program() {
    let res = parse("int main(void){ return 0; }\n".to_string());
    assert!(res.is_ok());
}

#[test]
fn parse_blocks_on_a_directive_before_parsing() {
    let res = parse("#include<stdio.h>\nint main(void){ return 0; }\n".to_string());
    match res {
        Err(CInputError::PreprocessorError(lineno, text, kind)) => {
            assert_eq!(lineno, 0);
            assert_eq!(text, "#include<stdio.h>");
            assert_eq!(kind, CPPDirective::Include);
        }
        _ => panic!("expected a preprocessor diagnostic"),
    }
}

#[test]
fn parse_passes_the_grammar_failure_through() {
    let res = parse("int int int not c at all ;;;\n".to_string());
    assert!(matches!(res, Err(CInputError::LangCSyntaxError(_))));
}
