use autodns::config::DnsServer;
use autodns::dns_checker::{DnsCheckResult, DnsChecker};
use autodns::selector::{select_best_dns, select_first_online_dns};

fn server(name: &str, address: &str) -> DnsServer {
    DnsServer { name: name.to_string(), address: address.to_string() }
}

fn three_candidates() -> Vec<DnsServer> {
    vec![
        server("X", "10.0.0.1"),
        server("Y", "10.0.0.2"),
        server("Z", "10.0.0.3"),
    ]
}

#[test]
fn first_online_keeps_first_two_reachable_in_order() {
    // Candidates X, Y, Z with reachability [true, false, true] and K = 2:
    // the selection is the first two reachable addresses, in input order.
    let checker = DnsChecker::new();
    let batch = checker.assemble_check_batch(&three_candidates(), &vec![true, false, true]);
    let selected = select_first_online_dns(&batch, 2);
    assert_eq!(selected, vec!["10.0.0.1".to_string(), "10.0.0.3".to_string()]);
}

#[test]
fn best_latency_ranks_reachable_entries_ascending() {
    // X answers in 20 ms, Y is offline (its latency is never measured),
    // Z answers in 50 ms; K = 2 selects X then Z, ascending by latency.
    let checker = DnsChecker::new();
    let batch = checker.assemble_benchmark_batch(
        &three_candidates(),
        &vec![Some(20_000), None, Some(50_000)],
    );
    let selected = select_best_dns(&batch, 2);
    assert_eq!(selected, vec!["10.0.0.1".to_string(), "10.0.0.3".to_string()]);
}

#[test]
fn best_latency_orders_by_speed_not_input_order() {
    let checker = DnsChecker::new();
    let batch = checker.assemble_benchmark_batch(
        &three_candidates(),
        &vec![Some(50_000), Some(5_000), Some(20_000)],
    );
    let selected = select_best_dns(&batch, 2);
    assert_eq!(selected, vec!["10.0.0.2".to_string(), "10.0.0.3".to_string()]);
}

#[test]
fn single_unreachable_candidate_yields_empty_selection() {
    // One candidate, unreachable, K = 2: both policies return an empty
    // selection rather than an error.
    let checker = DnsChecker::new();
    let candidates = vec![server("X", "10.0.0.1")];
    let check_batch = checker.assemble_check_batch(&candidates, &vec![false]);
    assert_eq!(select_first_online_dns(&check_batch, 2), Vec::<String>::new());
    let bench_batch = checker.assemble_benchmark_batch(&candidates, &vec![None]);
    assert_eq!(select_best_dns(&bench_batch, 2), Vec::<String>::new());
}

#[test]
fn empty_batch_yields_empty_selection() {
    let empty: Vec<DnsCheckResult> = Vec::new();
    assert_eq!(select_first_online_dns(&empty, 2), Vec::<String>::new());
    assert_eq!(select_best_dns(&empty, 2), Vec::<String>::new());
}

#[test]
fn all_offline_batch_yields_empty_selection() {
    let checker = DnsChecker::new();
    let batch = checker.assemble_check_batch(&three_candidates(), &vec![false, false, false]);
    assert_eq!(select_first_online_dns(&batch, 2), Vec::<String>::new());
    let bench = checker.assemble_benchmark_batch(&three_candidates(), &vec![None, None, None]);
    assert_eq!(select_best_dns(&bench, 2), Vec::<String>::new());
}

#[test]
fn policies_are_idempotent_over_an_unchanged_batch() {
    let checker = DnsChecker::new();
    let check_batch = checker.assemble_check_batch(&three_candidates(), &vec![true, true, false]);
    assert_eq!(
        select_first_online_dns(&check_batch, 2),
        select_first_online_dns(&check_batch, 2)
    );
    let bench_batch = checker.assemble_benchmark_batch(
        &three_candidates(),
        &vec![Some(30_000), Some(10_000), Some(20_000)],
    );
    assert_eq!(select_best_dns(&bench_batch, 2), select_best_dns(&bench_batch, 2));
}

#[test]
fn first_online_fails_open_when_fewer_are_reachable() {
    let checker = DnsChecker::new();
    let batch = checker.assemble_check_batch(&three_candidates(), &vec![false, true, false]);
    let selected = select_first_online_dns(&batch, 2);
    assert_eq!(selected, vec!["10.0.0.2".to_string()]);
}

#[test]
fn best_latency_fails_open_when_fewer_qualify() {
    let checker = DnsChecker::new();
    let batch = checker.assemble_benchmark_batch(
        &three_candidates(),
        &vec![None, Some(8_000), None],
    );
    let selected = select_best_dns(&batch, 2);
    assert_eq!(selected, vec!["10.0.0.2".to_string()]);
}

#[test]
fn best_latency_resolves_ties_in_batch_order() {
    let checker = DnsChecker::new();
    let batch = checker.assemble_benchmark_batch(
        &three_candidates(),
        &vec![Some(10_000), Some(10_000), Some(10_000)],
    );
    let selected = select_best_dns(&batch, 2);
    assert_eq!(selected, vec!["10.0.0.1".to_string(), "10.0.0.2".to_string()]);
}

#[test]
fn best_latency_ignores_latency_on_offline_entries() {
    // A result can only carry a latency when it is online, but the policy
    // also requires both flags: an online entry without a measurement does
    // not qualify.
    let checker = DnsChecker::new();
    let batch = checker.assemble_check_batch(&three_candidates(), &vec![true, true, true]);
    assert_eq!(select_best_dns(&batch, 2), Vec::<String>::new());
}

#[test]
fn selection_is_capped_by_requested_count() {
    let checker = DnsChecker::new();
    let batch = checker.assemble_check_batch(&three_candidates(), &vec![true, true, true]);
    assert_eq!(select_first_online_dns(&batch, 0), Vec::<String>::new());
    assert_eq!(select_first_online_dns(&batch, 1), vec!["10.0.0.1".to_string()]);
    assert_eq!(
        select_first_online_dns(&batch, 5),
        vec!["10.0.0.1".to_string(), "10.0.0.2".to_string(), "10.0.0.3".to_string()]
    );
}
