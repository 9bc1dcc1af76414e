use sol_dispatch::address::{AddressError, WalletListError};
use sol_dispatch::amount::{sol_to_lamports, AmountError};
use sol_dispatch::dispatch::{DispatchError, Dispatcher, TransferResult, TransferStatus};
use sol_dispatch::plan::{expand_plan, Config, PlanError, SourceWallet, TransferSpec};
use sol_dispatch::poll::{
    action_after, action_at, confirmation_deadline, PollAction, StatusReply, ERROR_WAIT_MS,
    PENDING_WAIT_MS,
};
use sol_dispatch::report::summarize;
use sol_dispatch::unit::{key_load_failure, resolve_destination, send_failure};

const SYSTEM: &str = "11111111111111111111111111111111";
const CLOCK: &str = "SysvarC1ock11111111111111111111111111111111";

fn source(path: &str, amount: Option<&str>) -> SourceWallet {
    SourceWallet { from_keypair_path: path.to_string(), amount: amount.map(|a| a.to_string()) }
}

fn plan(sources: Vec<SourceWallet>, dests: &[&str], amount: &str) -> Config {
    Config {
        rpc_url: "http://localhost:8899".to_string(),
        amount: amount.to_string(),
        source_wallets: sources,
        destination_wallets: dests.iter().map(|d| d.to_string()).collect(),
    }
}

fn spec(from: &str, to: &str, lamports: u64) -> TransferSpec {
    TransferSpec {
        from_keypair_path: from.to_string(),
        to_address: to.to_string(),
        amount_lamports: lamports,
    }
}

fn outcome(status: TransferStatus, duration_ms: u64) -> TransferResult {
    TransferResult {
        from: "a".to_string(),
        to: "b".to_string(),
        amount_lamports: 1,
        signature: None,
        duration_ms,
        status,
    }
}

#[test]
fn amount_whole_and_fraction() {
    assert_eq!(sol_to_lamports("1.0"), Ok(1_000_000_000));
    assert_eq!(sol_to_lamports("2.5"), Ok(2_500_000_000));
    assert_eq!(sol_to_lamports("7"), Ok(7_000_000_000));
    assert_eq!(sol_to_lamports("0.001"), Ok(1_000_000));
    assert_eq!(sol_to_lamports("0.000000001"), Ok(1));
}

#[test]
fn amount_truncates_past_nine_places() {
    assert_eq!(sol_to_lamports("0.0000000015"), Ok(1));
    assert_eq!(sol_to_lamports("0.0000000019"), Ok(1));
    assert_eq!(sol_to_lamports("0.0000000009"), Ok(0));
    assert_eq!(sol_to_lamports("1.9999999999999"), Ok(1_999_999_999));
}

#[test]
fn amount_malformed() {
    for s in ["", "abc", "1.", ".5", "1.5a", "-1", "1..2", "1,5", " 1"] {
        assert_eq!(sol_to_lamports(s), Err(AmountError::Malformed), "{}", s);
    }
}

#[test]
fn amount_largest_and_too_large() {
    assert_eq!(sol_to_lamports("18446744073.709551615"), Ok(u64::MAX));
    assert_eq!(sol_to_lamports("18446744073.709551616"), Err(AmountError::TooLarge));
    assert_eq!(sol_to_lamports("18446744074"), Err(AmountError::TooLarge));
    assert_eq!(sol_to_lamports("99999999999999999999999"), Err(AmountError::TooLarge));
    assert_eq!(sol_to_lamports("00000000000000000000001.5"), Ok(1_500_000_000));
}

#[test]
fn plan_two_by_two_with_override() {
    let c = plan(vec![source("src1", None), source("src2", Some("2.5"))], &["dst1", "dst2"], "1.0");
    let v = expand_plan(&c).unwrap();
    let got: Vec<(&str, &str, u64)> = v
        .iter()
        .map(|t| (t.from_keypair_path.as_str(), t.to_address.as_str(), t.amount_lamports))
        .collect();
    assert_eq!(
        got,
        vec![
            ("src1", "dst1", 1_000_000_000),
            ("src1", "dst2", 1_000_000_000),
            ("src2", "dst1", 2_500_000_000),
            ("src2", "dst2", 2_500_000_000),
        ]
    );
}

#[test]
fn plan_is_cross_product_source_major() {
    let c = plan(
        vec![source("a", None), source("b", None), source("c", Some("0.5"))],
        &["x", "y"],
        "3",
    );
    let v = expand_plan(&c).unwrap();
    assert_eq!(v.len(), 6);
    for i in 0..3 {
        for j in 0..2 {
            let t = &v[i * 2 + j];
            assert_eq!(t.from_keypair_path, c.source_wallets[i].from_keypair_path);
            assert_eq!(t.to_address, c.destination_wallets[j]);
        }
    }
    assert_eq!(v[5].amount_lamports, 500_000_000);
    assert_eq!(v[0].amount_lamports, 3_000_000_000);
}

#[test]
fn plan_errors() {
    assert_eq!(expand_plan(&plan(vec![], &["x"], "1")).err(), Some(PlanError::NoSources));
    assert_eq!(
        expand_plan(&plan(vec![source("a", None)], &[], "1")).err(),
        Some(PlanError::NoDestinations)
    );
    assert_eq!(
        expand_plan(&plan(vec![source("a", None)], &["x"], "one")).err(),
        Some(PlanError::BadDefaultAmount(AmountError::Malformed))
    );
    assert_eq!(
        expand_plan(&plan(vec![source("a", None), source("b", Some("1e3"))], &["x"], "1")).err(),
        Some(PlanError::BadSourceAmount { source_index: 1, error: AmountError::Malformed })
    );
}

#[test]
fn dispatcher_rejects_zero_limit() {
    assert_eq!(Dispatcher::new(3, 0).err(), Some(DispatchError::InvalidConcurrency));
}

#[test]
fn dispatcher_bounds_permits_and_keeps_order() {
    let mut d = Dispatcher::new(4, 2).unwrap();
    assert_eq!(d.try_admit(), Some(0));
    assert_eq!(d.try_admit(), Some(1));
    assert_eq!(d.try_admit(), None);
    d.complete(1, outcome(TransferStatus::Timeout, 20));
    assert_eq!(d.try_admit(), Some(2));
    assert_eq!(d.try_admit(), None);
    d.complete(2, outcome(TransferStatus::Failed("x".to_string()), 30));
    d.complete(0, outcome(TransferStatus::Success, 10));
    assert!(!d.is_finished());
    assert_eq!(d.try_admit(), Some(3));
    assert_eq!(d.try_admit(), None);
    d.complete(3, outcome(TransferStatus::Success, 41));
    assert!(d.is_finished());
    let r = d.into_report();
    let durations: Vec<u64> = r.outcomes.iter().map(|o| o.duration_ms).collect();
    assert_eq!(durations, vec![10, 20, 30, 41]);
    assert_eq!(r.success_count, 2);
    assert_eq!(r.failed_count, 1);
    assert_eq!(r.timeout_count, 1);
    assert_eq!(r.total_duration_ms, 101);
    assert_eq!(r.average_duration_ms, 25);
}

#[test]
fn dispatcher_empty_work_list() {
    let d = Dispatcher::new(0, 1).unwrap();
    assert!(d.is_finished());
    let r = d.into_report();
    assert_eq!(r.outcomes.len(), 0);
    assert_eq!(r.average_duration_ms, 0);
}

#[test]
fn report_counts_and_mean() {
    let r = summarize(vec![
        outcome(TransferStatus::Success, u64::MAX),
        outcome(TransferStatus::Success, u64::MAX),
    ]);
    assert_eq!(r.total_duration_ms, 2 * u64::MAX as u128);
    assert_eq!(r.average_duration_ms, u64::MAX);
    let e = summarize(vec![]);
    assert_eq!((e.success_count, e.failed_count, e.timeout_count), (0, 0, 0));
    assert_eq!(e.average_duration_ms, 0);
}

#[test]
fn poll_deadline_and_actions() {
    assert_eq!(confirmation_deadline(1_000, 60), 61_000);
    assert_eq!(confirmation_deadline(u64::MAX - 5, 1), u64::MAX);
    assert_eq!(confirmation_deadline(0, u64::MAX), u64::MAX);
    assert!(matches!(action_at(10, 11), PollAction::Query));
    assert!(matches!(action_at(11, 11), PollAction::Finish(TransferStatus::Timeout)));
    assert!(matches!(action_after(StatusReply::Confirmed), PollAction::Finish(TransferStatus::Success)));
    assert!(matches!(action_after(StatusReply::Unknown), PollAction::Wait(500)));
    assert!(matches!(action_after(StatusReply::QueryFailed), PollAction::Wait(1000)));
    match action_after(StatusReply::Rejected("InsufficientFundsForRent".to_string())) {
        PollAction::Finish(TransferStatus::Failed(m)) => {
            assert_eq!(m, "Transaction error: InsufficientFundsForRent")
        }
        _ => panic!("expected a failure"),
    }
}

#[test]
fn poll_without_resolution_times_out_once() {
    let deadline = confirmation_deadline(0, 2);
    let mut now: u64 = 0;
    let mut timeouts = 0;
    let mut step = 0;
    loop {
        match action_at(now, deadline) {
            PollAction::Finish(TransferStatus::Timeout) => {
                timeouts += 1;
                break;
            }
            PollAction::Query => {}
            _ => panic!("unexpected action"),
        }
        let reply = if step % 2 == 0 { StatusReply::Unknown } else { StatusReply::QueryFailed };
        step += 1;
        match action_after(reply) {
            PollAction::Wait(ms) => now += ms,
            _ => panic!("expected a wait"),
        }
    }
    assert_eq!(timeouts, 1);
    assert!(now >= deadline);
    assert!(now <= deadline + ERROR_WAIT_MS);
    assert_eq!(now, 2_000);
    assert!(PENDING_WAIT_MS < ERROR_WAIT_MS);
}

#[test]
fn missing_key_fails_only_its_own_unit() {
    let specs = vec![spec("k1", SYSTEM, 5), spec("missing.json", CLOCK, 6), spec("k3", CLOCK, 7)];
    let mut d = Dispatcher::new(specs.len(), 3).unwrap();
    while let Some(i) = d.try_admit() {
        let o = if specs[i].from_keypair_path == "missing.json" {
            key_load_failure(&specs[i], "No such file or directory (os error 2)")
        } else {
            TransferResult {
                from: "payer".to_string(),
                to: specs[i].to_address.clone(),
                amount_lamports: specs[i].amount_lamports,
                signature: Some("sig".to_string()),
                duration_ms: 100,
                status: if i == 0 { TransferStatus::Success } else { TransferStatus::Timeout },
            }
        };
        d.complete(i, o);
    }
    let r = d.into_report();
    assert_eq!(r.outcomes.len(), 3);
    assert!(matches!(r.outcomes[0].status, TransferStatus::Success));
    assert!(matches!(r.outcomes[2].status, TransferStatus::Timeout));
    let failed = &r.outcomes[1];
    match &failed.status {
        TransferStatus::Failed(m) => {
            assert!(m.contains("loading error"));
            assert_eq!(m, "Keypair loading error: No such file or directory (os error 2)");
        }
        _ => panic!("expected a failure"),
    }
    assert_eq!(failed.from, "missing.json");
    assert_eq!(failed.duration_ms, 0);
    assert!(failed.signature.is_none());
    assert_eq!((r.success_count, r.failed_count, r.timeout_count), (1, 1, 1));
}

#[test]
fn destination_is_decoded() {
    let ok = resolve_destination(&spec("k", SYSTEM, 1), "payer").ok().unwrap();
    assert_eq!(ok, vec![0u8; 32]);
    let clock = resolve_destination(&spec("k", CLOCK, 1), "payer").ok().unwrap();
    assert_eq!(clock.len(), 32);
    assert_ne!(clock, vec![0u8; 32]);
}

#[test]
fn bad_destination_is_a_failed_outcome() {
    let o = resolve_destination(&spec("k", "not-an-address0", 9), "payer").err().unwrap();
    assert_eq!(o.from, "payer");
    assert_eq!(o.to, "not-an-address0");
    assert_eq!(o.amount_lamports, 9);
    assert_eq!(o.duration_ms, 0);
    match o.status {
        TransferStatus::Failed(m) => assert_eq!(m, "Invalid destination address: Invalid Base58 string"),
        _ => panic!("expected a failure"),
    }
    let short = resolve_destination(&spec("k", "1", 9), "payer").err().unwrap();
    match short.status {
        TransferStatus::Failed(m) => {
            assert_eq!(m, "Invalid destination address: String is the wrong size")
        }
        _ => panic!("expected a failure"),
    }
    assert_eq!(AddressError::Invalid.message(), "Invalid Base58 string");
}

#[test]
fn send_failure_outcome() {
    let o = send_failure("payer", &spec("k", SYSTEM, 3), 42, "connection refused");
    assert_eq!(o.duration_ms, 42);
    assert_eq!(o.from, "payer");
    match o.status {
        TransferStatus::Failed(m) => assert_eq!(m, "Send error: connection refused"),
        _ => panic!("expected a failure"),
    }
    let _ = WalletListError::Empty;
}

/// Runs units of the given durations through a dispatcher on a simulated
/// clock; returns the total time and the most permits ever held at once.
fn simulate(durations: &[u64], limit: usize) -> (u64, usize) {
    let mut d = Dispatcher::new(durations.len(), limit).unwrap();
    let mut now: u64 = 0;
    let mut running: Vec<(u64, usize)> = Vec::new();
    let mut peak = 0;
    loop {
        while let Some(i) = d.try_admit() {
            running.push((now + durations[i], i));
        }
        peak = peak.max(d.permits_in_use());
        if running.is_empty() {
            break;
        }
        running.sort();
        let (end, i) = running.remove(0);
        now = end;
        d.complete(i, outcome(TransferStatus::Success, durations[i]));
    }
    assert!(d.is_finished());
    assert_eq!(d.into_report().outcomes.len(), durations.len());
    (now, peak)
}

#[test]
fn serialized_and_parallel_wall_time() {
    let (serial, serial_peak) = simulate(&[100, 100, 100], 1);
    assert!(serial >= 300);
    assert_eq!(serial_peak, 1);
    let (parallel, parallel_peak) = simulate(&[100, 100, 100], 3);
    assert_eq!(parallel, 100);
    assert_eq!(parallel_peak, 3);
}

#[test]
fn permits_never_exceed_limit() {
    for k in 1..6 {
        let (_, peak) = simulate(&[30, 10, 50, 20, 20, 40, 10], k);
        assert!(peak <= k);
        assert_eq!(peak, k.min(7));
    }
}
