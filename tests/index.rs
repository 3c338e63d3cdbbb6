use git_repository::index::{thread_limit, ConfigInteger, IntegerSuffix, OpenIndexError};
use git_repository::repository::{Config, ObjectHash, Repository};

fn raw(s: &str) -> Option<Result<bool, Vec<u8>>> {
    Some(Err(s.as_bytes().to_vec()))
}

#[test]
fn threads_true_means_all_cores() {
    assert_eq!(thread_limit(&Some(Ok(true))).unwrap(), Some(0));
}

#[test]
fn threads_false_means_one_thread() {
    assert_eq!(thread_limit(&Some(Ok(false))).unwrap(), Some(1));
}

#[test]
fn threads_absent_sets_no_limit() {
    assert_eq!(thread_limit(&None).unwrap(), None);
}

#[test]
fn threads_integer_is_taken_as_limit() {
    assert_eq!(thread_limit(&raw("3")).unwrap(), Some(3));
    assert_eq!(thread_limit(&raw("0")).unwrap(), Some(0));
    assert_eq!(thread_limit(&raw("2k")).unwrap(), Some(2048));
    assert_eq!(thread_limit(&raw("1M")).unwrap(), Some(1048576));
}

#[test]
fn threads_integer_out_of_range_falls_back_to_one() {
    assert_eq!(thread_limit(&raw("-4")).unwrap(), Some(1));
    assert_eq!(thread_limit(&raw("9223372036854775807g")).unwrap(), Some(1));
}

#[test]
fn threads_garbage_is_a_config_error() {
    match thread_limit(&raw("banana")) {
        Err(OpenIndexError::ConfigIndexThreads { value, err }) => {
            assert_eq!(value, b"banana".to_vec());
            assert_eq!(err.expect("the integer parser was asked").input, "banana");
        }
        other => panic!("expected a configuration error, got {:?}", other),
    }
}

#[test]
fn to_decimal_applies_suffix() {
    let i = ConfigInteger { value: 3, suffix: Some(IntegerSuffix::Gibi) };
    assert_eq!(i.to_decimal(), Some(3 * 1024 * 1024 * 1024));
    let i = ConfigInteger { value: -2, suffix: Some(IntegerSuffix::Kibi) };
    assert_eq!(i.to_decimal(), Some(-2048));
    let i = ConfigInteger { value: i64::MAX, suffix: Some(IntegerSuffix::Mebi) };
    assert_eq!(i.to_decimal(), None);
    let i = ConfigInteger { value: 42, suffix: None };
    assert_eq!(i.to_decimal(), Some(42));
}

#[test]
fn decode_options_carry_hash_and_limit() {
    let repo = Repository {
        git_dir: b"/r/.git".to_vec(),
        common_dir: b"/r/.git".to_vec(),
        work_dir: None,
        config: Config { is_bare: true, index_threads: raw("8") },
        object_hash: ObjectHash::Sha1,
    };
    let opts = repo.index_decode_options().unwrap();
    assert_eq!(opts.object_hash, ObjectHash::Sha1);
    assert_eq!(opts.thread_limit, Some(8));
    assert_eq!(opts.min_extension_block_in_bytes_for_threading, 0);
}

#[test]
fn threads_ending_in_non_ascii_is_a_config_error() {
    for text in ["\u{e9}", "1\u{e9}", "12\u{20ac}"] {
        match thread_limit(&raw(text)) {
            Err(OpenIndexError::ConfigIndexThreads { value, err }) => {
                assert_eq!(value, text.as_bytes().to_vec());
                assert!(err.is_none());
            }
            other => panic!("expected a configuration error, got {:?}", other),
        }
    }
}

#[test]
fn threads_signed_and_suffixed_forms() {
    assert_eq!(thread_limit(&raw("+5")).unwrap(), Some(5));
    assert_eq!(thread_limit(&raw("1g")).unwrap(), Some(1073741824));
    assert!(thread_limit(&raw("k")).is_err());
    assert!(thread_limit(&raw("5x")).is_err());
    assert!(thread_limit(&raw("")).is_err());
}
