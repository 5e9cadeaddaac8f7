use contrafact::{Check, ContrafactError, Fact, MutationError};

#[test]
fn fact2_test() {
    let eq = contrafact::eq("equals", 3u32);
    let mut g = contrafact::Generator::from(&[1][..]);
    assert!(eq.check(&3).is_ok());
    assert_eq!(eq.mutate(&mut g, 8), Ok(3));
}

#[test]
fn pass_and_fail_convert_to_results() {
    assert_eq!(Check::pass().result(), Ok(Ok(())));
    assert_eq!(Check::fail("message").result(), Ok(Err(vec!["message".to_string()])));
    assert_eq!(Check::pass(), Check::Failures(vec![]));
    assert_eq!(Check::fail("message"), Check::Failures(vec!["message".to_string()]));
    assert_eq!(
        Check::Error("broken".to_string()).result(),
        Err(ContrafactError::Other("broken".to_string()))
    );
}

#[test]
fn check_from_a_condition() {
    assert_eq!(Check::check(true, "message"), Check::pass());
    assert_eq!(Check::check(false, "message"), Check::fail("message"));
}

#[test]
fn check_from_a_mutation() {
    assert_eq!(Check::from_mutation(Ok(42)), Check::pass());
    assert_eq!(
        Check::from_mutation::<()>(Err(MutationError::Check("message".to_string()))),
        Check::fail("message")
    );
    assert_eq!(
        Check::from_mutation::<()>(Err(MutationError::User("a \"b\"".to_string()))),
        Check::Error("\"a \\\"b\\\"\"".to_string())
    );
    assert_eq!(
        Check::from_mutation::<()>(Err(MutationError::Internal(ContrafactError::Other("x".to_string())))),
        Check::Error("Other(\"x\")".to_string())
    );
    assert_eq!(
        Check::from_mutation::<()>(Err(MutationError::Arbitrary(arbitrary::Error::NotEnoughData))),
        Check::Error(arbitrary::Error::NotEnoughData.to_string())
    );
}

#[test]
fn check_from_a_result() {
    assert_eq!(Check::from_result(Ok(vec!["a".to_string()])), Check::fail("a"));
    assert_eq!(
        Check::from_result(Err(ContrafactError::Other("bad".to_string()))),
        Check::Error("Other(\"bad\")".to_string())
    );
}

#[test]
fn is_ok_and_is_err() {
    assert!(Check::pass().is_ok());
    assert!(!Check::pass().is_err());
    assert!(Check::fail("x").is_err());
    assert!(Check::Error("x".to_string()).is_err());
    Check::pass().unwrap();
}

#[test]
fn failures_of_a_check() {
    let c = Check::Failures(vec!["a".to_string(), "b".to_string()]);
    assert_eq!(c.failures(), Ok(&["a".to_string(), "b".to_string()][..]));
    assert_eq!(
        Check::Error("bad".to_string()).failures(),
        Err(ContrafactError::Other("bad".to_string()))
    );
}

#[test]
fn joined_failures() {
    let c = Check::Failures(vec!["a".to_string(), "b".to_string(), "c".to_string()]);
    assert_eq!(c.result_joined(), Ok(Err("a;b;c".to_string())));
    assert_eq!(Check::pass().result_joined(), Ok(Ok(())));
    assert_eq!(Check::fail("only").result_joined(), Ok(Err("only".to_string())));
}

#[test]
fn map_rewords_every_failure_in_order() {
    let c = Check::Failures(vec!["a".to_string(), "b".to_string()]);
    assert_eq!(
        c.map(|e| format!("ctx > {}", e)),
        Check::Failures(vec!["ctx > a".to_string(), "ctx > b".to_string()])
    );
    assert_eq!(
        Check::Error("bad".to_string()).map(|e| format!("ctx > {}", e)),
        Check::Error("bad".to_string())
    );
}
