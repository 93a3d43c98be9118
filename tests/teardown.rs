use aws_throwaway::{keypair_failure, termination_batch, KeypairFailure};

#[test]
fn unauthorized_keypair_deletion_skips_the_rest() {
    assert_eq!(keypair_failure(&Some("UnauthorizedOperation".to_owned())), KeypairFailure::SkipRemaining);
}

#[test]
fn other_keypair_deletion_failures_are_fatal() {
    assert_eq!(keypair_failure(&Some("InvalidKeyPair.NotFound".to_owned())), KeypairFailure::Fatal);
    assert_eq!(keypair_failure(&None), KeypairFailure::Fatal);
}

#[test]
fn termination_batch_only_when_owned() {
    assert!(termination_batch(vec![]).is_none());
    assert_eq!(termination_batch(vec!["i-1".to_owned(), "i-2".to_owned()]), Some(vec!["i-1".to_owned(), "i-2".to_owned()]));
}
