use ext_php_rs::php_eval::{embedded_source, evaluation_result, strip_bom, strip_php_open_tag, PhpEvalError};

#[test]
fn test_strip_bom() {
    let cases: &[(&[u8], &[u8])] = &[
        (&[0xEF, 0xBB, 0xBF, b'h', b'i'], b"hi"),
        (b"hello", b"hello"),
        (b"", b""),
    ];
    for (input, expected) in cases {
        assert_eq!(strip_bom(input), *expected, "input: {:?}", String::from_utf8_lossy(input));
    }
}

#[test]
fn test_strip_php_open_tag() {
    let cases: &[(&[u8], Option<&[u8]>)] = &[
        (b"<?php $x;", Some(b"$x;")),
        (b"<?php\n$x;", Some(b"$x;")),
        (b"<?php\r\n$x;", Some(b"$x;")),
        (b"<?php\t\n  $x;", Some(b"$x;")),
        (b"<?php", Some(b"")),
        (b"  <?php $x;", Some(b"$x;")),
        (b"<?PHP $x;", Some(b"$x;")),
        (b"<?Php\n$x;", Some(b"$x;")),
        (b"", None),
        (b"   ", None),
        (b"$x = 1;", None),
        (b"hello", None),
    ];
    for (input, expected) in cases {
        assert_eq!(strip_php_open_tag(input), *expected, "input: {:?}", String::from_utf8_lossy(input));
    }
}

#[test]
fn eval_error_messages() {
    assert_eq!(PhpEvalError::MissingOpenTag.message(), "PHP code must start with a <?php open tag");
    assert_eq!(PhpEvalError::Bailout.message(), "PHP fatal error (bailout) during execution");
}

#[test]
fn embedded_source_drops_bom_and_tag() {
    assert_eq!(embedded_source(b"\xEF\xBB\xBF  <?PHP\n echo 1;"), Ok(&b"echo 1;"[..]));
    assert_eq!(embedded_source(b"<?php"), Ok(&b""[..]));
    assert_eq!(embedded_source(b"echo 1;"), Err(PhpEvalError::MissingOpenTag));
}

#[test]
fn evaluation_result_ranks_the_failures() {
    assert_eq!(evaluation_result(true, false, false), Ok(()));
    assert_eq!(evaluation_result(true, true, false), Err(PhpEvalError::ExecutionFailed));
    assert_eq!(evaluation_result(false, true, false), Err(PhpEvalError::CompilationFailed));
    assert_eq!(evaluation_result(false, false, true), Err(PhpEvalError::Bailout));
}
