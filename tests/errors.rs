use mq_backuper::error::{joined, Error};

#[test]
fn custom_error_lines() {
    let e = Error::new(vec!["one".to_string(), "two".to_string()]);
    assert_eq!(e.texts(), vec!["one".to_string(), "two".to_string()]);
    assert_eq!(Error::new_s("only").texts(), vec!["only".to_string()]);
}

#[test]
fn joined_error_puts_context_first() {
    let cause = Error::new(vec!["a".to_string(), "b".to_string()]);
    let e = Error::new_j("could not read config.json", cause);
    assert!(matches!(e, Error::Custom(_)));
    assert_eq!(
        e.texts(),
        vec!["could not read config.json".to_string(), "a".to_string(), "b".to_string()]
    );
}

#[test]
fn single_line_variants_give_their_text() {
    assert_eq!(Error::IOFailure("disk full".to_string()).texts(), vec!["disk full".to_string()]);
    assert_eq!(Error::SourceMissing("gone".to_string()).texts(), vec!["gone".to_string()]);
    assert_eq!(Error::DestinationConflict("x".to_string()).texts(), vec!["x".to_string()]);
    assert_eq!(Error::PathComputationFailure("p".to_string()).texts(), vec!["p".to_string()]);
    assert_eq!(
        Error::ConfigMissingOrInvalid(vec!["c".to_string()]).texts(),
        vec!["c".to_string()]
    );
}

#[test]
fn concat_joins() {
    assert_eq!(joined("ab", "cd"), "abcd");
    assert_eq!(joined("", ""), "");
}
