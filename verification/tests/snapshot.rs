use brig::api::Dataset;
use brig::error::ErrorCode;
use brig::snapshot::{all_agree, find_latest_common_snapshot, parse_snapshot_name, tag_of};

fn names(list: &[&str]) -> Vec<String> {
    list.iter().map(|n| n.to_string()).collect()
}

#[test]
fn tag_is_what_follows_the_first_at_sign() {
    assert_eq!(tag_of("tank/x@brig-20240101000000"), Some("brig-20240101000000".to_string()));
    assert_eq!(tag_of("tank/x@a@b"), Some("a@b".to_string()));
    assert_eq!(tag_of("tank/x@"), Some("".to_string()));
    assert_eq!(tag_of("tank/x"), None);
    assert_eq!(tag_of(""), None);
}

#[test]
fn name_is_parted_into_pool_dataset_and_tag() {
    assert_eq!(
        parse_snapshot_name("tank/home/x@monday"),
        Some(Dataset {
            pool: "tank".to_string(),
            dataset: "home/x".to_string(),
            snapshot: "monday".to_string(),
        })
    );
    assert_eq!(
        parse_snapshot_name("/@"),
        Some(Dataset { pool: "".to_string(), dataset: "".to_string(), snapshot: "".to_string() })
    );
}

#[test]
fn name_without_pool_or_tag_names_no_snapshot() {
    assert_eq!(parse_snapshot_name("tank/x"), None);
    assert_eq!(parse_snapshot_name("tank@x"), None);
    assert_eq!(parse_snapshot_name("a@b/c@d"), None);
    assert_eq!(parse_snapshot_name(""), None);
}

#[test]
fn parted_name_is_put_together_again() {
    for name in ["tank/x@brig-20240101000000", "a/b/c@d@e/f", "/@", "p/d@"] {
        let parts = parse_snapshot_name(name).unwrap();
        assert_eq!(parts.name(), name);
    }
}

#[test]
fn name_of_parts_is_parted_into_them() {
    let parts = Dataset {
        pool: "tank".to_string(),
        dataset: "home/x".to_string(),
        snapshot: "brig-20240101000000".to_string(),
    };
    assert_eq!(parts.name(), "tank/home/x@brig-20240101000000");
    assert_eq!(parse_snapshot_name(&parts.name()), Some(parts));
}

#[test]
fn latest_common_snapshot_is_the_owners_first_shared_tag() {
    let src = names(&["poolA/x@brig-3", "poolA/x@brig-2", "poolA/x@brig-1"]);
    let dst = names(&["poolB/x@brig-2", "poolB/x@brig-1"]);
    assert_eq!(find_latest_common_snapshot("x", &src, &dst), Ok("poolA/x@brig-2".to_string()));
}

#[test]
fn latest_common_snapshot_goes_by_the_tag_alone() {
    let src = names(&["poolA/x@brig-20240101000000"]);
    let dst = names(&["some/other/pool/x@brig-20240101000000"]);
    assert_eq!(
        find_latest_common_snapshot("x", &src, &dst),
        Ok("poolA/x@brig-20240101000000".to_string())
    );
}

#[test]
fn no_common_snapshot_is_an_error_for_the_dataset() {
    let src = names(&["poolA/x@brig-20240101000001"]);
    let dst = names(&["poolB/x@brig-20240101000002"]);
    assert_eq!(
        find_latest_common_snapshot("x", &src, &dst),
        Err(ErrorCode::NoCommonSnapshot { dataset: "x".to_string() })
    );
    assert_eq!(
        find_latest_common_snapshot("x", &Vec::new(), &dst),
        Err(ErrorCode::NoCommonSnapshot { dataset: "x".to_string() })
    );
    assert_eq!(
        find_latest_common_snapshot("x", &src, &Vec::new()),
        Err(ErrorCode::NoCommonSnapshot { dataset: "x".to_string() })
    );
}

#[test]
fn names_without_tag_are_never_common() {
    let src = names(&["poolA/x", "poolA/x@one"]);
    let dst = names(&["poolB/x", "poolB/x@one"]);
    assert_eq!(find_latest_common_snapshot("x", &src, &dst), Ok("poolA/x@one".to_string()));
}

#[test]
fn fleet_agrees_where_the_tags_are_the_same() {
    assert!(all_agree(&names(&["poolA/x@brig-1", "poolB/x@brig-1", "c/d/x@brig-1"])));
    assert!(all_agree(&names(&["poolA/x@brig-1"])));
    assert!(!all_agree(&names(&["poolA/x@brig-1", "poolA/x@brig-2"])));
    assert!(!all_agree(&names(&["poolA/x@brig-1", "poolA/x"])));
    assert!(!all_agree(&names(&["poolA/x"])));
    assert!(!all_agree(&Vec::new()));
}

#[test]
fn fleet_agreement_survives_a_pool_rename() {
    let before = names(&["poolA/x@brig-7", "poolB/x@brig-7"]);
    let after = names(&["renamed/x@brig-7", "poolB/x@brig-7"]);
    assert_eq!(all_agree(&before), all_agree(&after));
    assert!(all_agree(&after));
}
