use brig::clock::{holds_stamp, local_stamp, stamp_from};
use brig::config::{Config, Dataset, Server};
use brig::error::ErrorCode;
use brig::remote::{Invocation, Reply};
use brig::retention::{
    clean, clean_at, expired_snapshots, is_expired, parse_lifetime, retention_cutoff, Sweep,
};

fn names(list: &[&str]) -> Vec<String> {
    list.iter().map(|n| n.to_string()).collect()
}

fn server(name: &str, pool: &str) -> Server {
    Server {
        name: name.to_string(),
        user: "root".to_string(),
        address: format!("{}.example", name),
        pool: pool.to_string(),
    }
}

fn dataset(name: &str, owner: &str, lifetime: &str) -> Dataset {
    Dataset {
        name: name.to_string(),
        owner: "ops".to_string(),
        server: owner.to_string(),
        snapshot_lifetime: lifetime.to_string(),
    }
}

fn is_stamp(text: &str) -> bool {
    text.len() == 14 && text.chars().all(|c| c.is_ascii_digit())
}

#[test]
fn lifetime_is_a_number_of_days_weeks_or_months() {
    assert_eq!(parse_lifetime("7d"), Some(7));
    assert_eq!(parse_lifetime("2w"), Some(14));
    assert_eq!(parse_lifetime("3M"), Some(90));
    assert_eq!(parse_lifetime("0d"), Some(0));
    assert_eq!(parse_lifetime("010w"), Some(70));
}

#[test]
fn lifetime_with_another_unit_is_none() {
    assert_eq!(parse_lifetime("7m"), None);
    assert_eq!(parse_lifetime("7D"), None);
    assert_eq!(parse_lifetime("7y"), None);
    assert_eq!(parse_lifetime("7"), None);
    assert_eq!(parse_lifetime("d"), None);
    assert_eq!(parse_lifetime(""), None);
    assert_eq!(parse_lifetime("7dd"), None);
    assert_eq!(parse_lifetime("+7d"), None);
    assert_eq!(parse_lifetime("-7d"), None);
    assert_eq!(parse_lifetime("7 d"), None);
    assert_eq!(parse_lifetime("1.5w"), None);
}

#[test]
fn lifetime_stops_at_the_width_of_its_number() {
    assert_eq!(parse_lifetime("9223372036854775807d"), Some(i64::MAX));
    assert_eq!(parse_lifetime("9223372036854775808d"), None);
    assert_eq!(parse_lifetime("1317624576693539401w"), Some(9223372036854775807));
    assert_eq!(parse_lifetime("1317624576693539402w"), None);
    assert_eq!(parse_lifetime("307445734561825860M"), Some(9223372036854775800));
    assert_eq!(parse_lifetime("307445734561825861M"), None);
    assert_eq!(parse_lifetime("99999999999999999999999999d"), None);
}

#[test]
fn stamp_of_now_is_fourteen_digits() {
    let now = local_stamp(0).unwrap();
    assert!(is_stamp(&now), "{}", now);
    assert!(now.as_str() > "20200101000000");
}

#[test]
fn cutoff_lies_in_the_past() {
    let before = local_stamp(0).unwrap();
    let cutoff = retention_cutoff("7d").unwrap();
    assert!(is_stamp(&cutoff), "{}", cutoff);
    assert!(cutoff < before);
    let older = retention_cutoff("2w").unwrap();
    assert!(older < cutoff);
    let now = retention_cutoff("0d").unwrap();
    assert!(now >= before);
}

#[test]
fn cutoff_of_no_lifetime_is_none() {
    assert_eq!(retention_cutoff("7x"), None);
    assert_eq!(retention_cutoff(""), None);
    assert_eq!(retention_cutoff("9223372036854775807d"), None);
}

#[test]
fn expired_is_a_managed_snapshot_older_than_the_cutoff() {
    let stamp = Some("20240101000000".to_string());
    assert!(is_expired("tank/x@brig-20240101000000", "tank", "x", &stamp, "20240102000000"));
    assert!(!is_expired("tank/x@brig-20240101000000", "tank", "x", &stamp, "20240101000000"));
    assert!(!is_expired("tank/x@brig-20240101000000", "tank", "x", &stamp, "20231231235959"));
    assert!(!is_expired("tank/x@brig-20240101000000", "tank", "x", &None, "20240102000000"));
    assert!(!is_expired("tank/y@brig-20240101000000", "tank", "x", &stamp, "20240102000000"));
    assert!(!is_expired("pool/x@brig-20240101000000", "tank", "x", &stamp, "20240102000000"));
    assert!(!is_expired("tank/x@brig-20240101000000", "tank", "x", &Some("2024".to_string()), "3"));
}

#[test]
fn retention_destroys_only_the_older_managed_snapshot() {
    let listing = names(&[
        "tank/x@brig-20240101000000",
        "tank/x@manual",
        "tank/x@brig-20240110000000",
        "tank/x@brig-2024010100000",
        "tank/x@brig-202401010000000",
        "tank/x@brig-2024010100000a",
        "tank/x@brig-foo@brig-20240101000000",
        "tank/xy@brig-20240101000000",
        "other/x@brig-20240101000000",
        "tank/x@Brig-20240101000000",
        "tank/x@brig-20240101000001",
    ]);
    assert_eq!(
        expired_snapshots(&listing, "tank", "x", "20240103000000"),
        names(&["tank/x@brig-20240101000000", "tank/x@brig-20240101000001"])
    );
    assert_eq!(expired_snapshots(&listing, "tank", "x", "20240101000000"), Vec::<String>::new());
    assert_eq!(
        expired_snapshots(&listing, "tank", "x", "99999999999999"),
        names(&[
            "tank/x@brig-20240101000000",
            "tank/x@brig-20240110000000",
            "tank/x@brig-20240101000001"
        ])
    );
}

#[test]
fn retention_of_an_empty_listing_destroys_nothing() {
    assert_eq!(expired_snapshots(&Vec::new(), "tank", "x", "20240103000000"), Vec::<String>::new());
}

#[test]
fn sweeps_cover_every_server_for_each_dataset_with_a_cutoff() {
    let config = Config {
        servers: vec![server("A", "poolA"), server("B", "poolB")],
        datasets: vec![dataset("x", "A", "7d"), dataset("y", "B", "never"), dataset("z", "A", "1M")],
    };
    let cutoffs = vec![Some("20240103000000".to_string()), None, Some("20231201000000".to_string())];
    let sweeps = clean_at(&config, &cutoffs);
    assert_eq!(
        sweeps,
        vec![
            Sweep {
                server: server("A", "poolA"),
                dataset: "x".to_string(),
                cutoff: "20240103000000".to_string()
            },
            Sweep {
                server: server("B", "poolB"),
                dataset: "x".to_string(),
                cutoff: "20240103000000".to_string()
            },
            Sweep {
                server: server("A", "poolA"),
                dataset: "z".to_string(),
                cutoff: "20231201000000".to_string()
            },
            Sweep {
                server: server("B", "poolB"),
                dataset: "z".to_string(),
                cutoff: "20231201000000".to_string()
            },
        ]
    );
    assert_eq!(clean_at(&config, &Vec::new()), Vec::<Sweep>::new());
}

#[test]
fn sweeps_of_now_leave_out_datasets_without_lifetime() {
    let config = Config {
        servers: vec![server("A", "poolA"), server("B", "poolB")],
        datasets: vec![dataset("x", "A", "7d"), dataset("y", "B", "7x")],
    };
    let sweeps = clean(&config);
    assert_eq!(sweeps.len(), 2);
    assert_eq!(sweeps[0].server, server("A", "poolA"));
    assert_eq!(sweeps[1].server, server("B", "poolB"));
    for sweep in &sweeps {
        assert_eq!(sweep.dataset, "x");
        assert!(is_stamp(&sweep.cutoff));
    }
}

#[test]
fn sweep_lists_the_oldest_first_and_condemns_the_expired() {
    let sweep = Sweep {
        server: server("B", "poolB"),
        dataset: "x".to_string(),
        cutoff: "20240103000000".to_string(),
    };
    assert_eq!(
        sweep.command(),
        Invocation {
            program: "zfs".to_string(),
            args: names(&["list", "-t", "snapshot", "-o", "name", "-s", "creation", "poolB/x"]),
        }
    );
    let reply = Reply::Output {
        stdout: b"NAME\npoolB/x@brig-20240101000000\npoolB/x@keep\npoolB/x@brig-20240109000000\n"
            .to_vec(),
        stderr: Vec::new(),
    };
    assert_eq!(sweep.expired(&reply), Ok(names(&["poolB/x@brig-20240101000000"])));
    assert_eq!(
        sweep.expired(&Reply::Unreachable),
        Err(ErrorCode::SshSessionFail { user: "root".to_string(), ip: "B.example".to_string() })
    );
    assert_eq!(
        sweep.expired(&Reply::Failed),
        Err(ErrorCode::ZfsCommandError { msg: "failed to list snapshots: poolB/x".to_string() })
    );
}

#[test]
fn stamp_is_fourteen_decimal_digits() {
    assert!(holds_stamp("20240102030405"));
    assert!(holds_stamp("00000000000000"));
    assert!(holds_stamp("99999999999999"));
    assert!(!holds_stamp(""));
    assert!(!holds_stamp("2024010203040"));
    assert!(!holds_stamp("202401020304050"));
    assert!(!holds_stamp("2024010203040a"));
    assert!(!holds_stamp("+1000001020304"));
    assert!(!holds_stamp("-0010102030405"));
    assert!(!holds_stamp("2024 102030405"));
    assert!(!holds_stamp("٢٠٢٤٠١٠٢٠٣٠٤٠٥"));
    assert!(!holds_stamp("%Y%m%d%H%M%S"));
}

#[test]
fn stamp_from_the_clock_is_kept_only_where_it_is_one() {
    assert_eq!(stamp_from(Some("20240102030405".to_string())), Some("20240102030405".to_string()));
    assert_eq!(stamp_from(Some("+100000102030405".to_string())), None);
    assert_eq!(stamp_from(Some("2024".to_string())), None);
    assert_eq!(stamp_from(Some(String::new())), None);
    assert_eq!(stamp_from(None), None);
}

#[test]
fn stamp_of_a_time_out_of_reach_is_none() {
    assert_eq!(local_stamp(i64::MAX), None);
    assert_eq!(local_stamp(i64::MIN), None);
    assert_eq!(local_stamp(4_000_000), None);
    assert_eq!(local_stamp(-4_000_000), None);
    assert!(holds_stamp(&local_stamp(365).unwrap()));
    assert!(local_stamp(365).unwrap() < local_stamp(1).unwrap());
}
