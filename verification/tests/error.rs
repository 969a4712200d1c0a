use lard::{Error, KldataResp};

#[test]
fn success_echoes_the_message_id() {
    assert_eq!(
        KldataResp::from_outcome(&Ok(23)),
        KldataResp {
            message: "".to_string(),
            message_id: 23,
            res: 0,
            retry: false,
        }
    );
}

#[test]
fn parse_failure_is_not_retried() {
    let failure = Error::Parse("empty row in kldata csv".to_string());
    assert!(!failure.retryable());
    assert_eq!(
        KldataResp::from_outcome(&Err(failure)),
        KldataResp {
            message: "parse error: empty row in kldata csv".to_string(),
            message_id: 0,
            res: 1,
            retry: false,
        }
    );
}

#[test]
fn every_other_failure_is_retried() {
    let cases = [
        (
            Error::Database("down".to_string()),
            "postgres returned an error: down",
        ),
        (
            Error::Pool("empty".to_string()),
            "database pool could not return a connection: empty",
        ),
        (
            Error::Qc("bad".to_string()),
            "qc system returned an error: bad",
        ),
        (
            Error::Connector("bad".to_string()),
            "rove connector returned an error: bad",
        ),
        (
            Error::Lock("poisoned".to_string()),
            "RwLock was poisoned: poisoned",
        ),
        (
            Error::Env("HOME".to_string()),
            "Could not read environment variable: HOME",
        ),
    ];
    for (failure, message) in cases {
        assert!(failure.retryable());
        assert_eq!(failure.message(), message);
        let resp = KldataResp::from_outcome(&Err(failure));
        assert_eq!(resp.message, message);
        assert_eq!(resp.res, 1);
        assert!(resp.retry);
        assert_eq!(resp.message_id, 0);
    }
}

#[test]
fn failures_compare_by_kind_and_text() {
    assert_eq!(Error::Parse("a".to_string()), Error::Parse("a".to_string()));
    assert_ne!(Error::Parse("a".to_string()), Error::Parse("b".to_string()));
    assert_ne!(Error::Parse("a".to_string()), Error::Lock("a".to_string()));
    assert_ne!(Error::Qc("a".to_string()), Error::Qc("a".to_string()));
    assert_ne!(
        Error::Connector("a".to_string()),
        Error::Connector("a".to_string())
    );
}
