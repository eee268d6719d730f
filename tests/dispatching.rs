use latexml_runner::dispatch::{
    batch_size, finish_batch, reorder, sink_lines, worker_ports, JobAttempts, JobStep,
};
use latexml_runner::files::{dir_targets, input_format, InputFormat};
use latexml_runner::options::order_boot_options;
use latexml_runner::pool::ServerPool;
use latexml_runner::response::LatexmlResponse;

fn record(code: u8, result: &str) -> LatexmlResponse {
    LatexmlResponse {
        status_code: code,
        status: String::new(),
        result: result.to_string(),
        log: String::new(),
    }
}

fn opts(pairs: &[(&str, &str)]) -> Vec<(String, String)> {
    pairs.iter().map(|(k, v)| (k.to_string(), v.to_string())).collect()
}

#[test]
fn batch_and_ports() {
    assert_eq!(batch_size(4), 400);
    assert_eq!(batch_size(1), 100);
    assert_eq!(worker_ports(3334, 3), Some(vec![3334, 3335, 3336]));
    assert_eq!(worker_ports(3334, 0), None);
    assert_eq!(worker_ports(65335, 1), Some(vec![65335]));
    assert_eq!(worker_ports(65335, 2), None);
    assert_eq!(worker_ports(65336, 1), None);
}

#[test]
fn three_failures_give_the_sentinel() {
    let mut attempts = JobAttempts::new();
    assert!(matches!(attempts.record(None), JobStep::Retry));
    assert!(matches!(attempts.record(None), JobStep::Retry));
    match attempts.record(None) {
        JobStep::Done(r) => {
            assert_eq!(r.result, "");
            assert_eq!(r.status_code, 3);
            let lines = sink_lines(&vec![r]);
            assert_eq!(lines.results, vec![""]);
            assert_eq!(lines.logs, vec!["3"]);
        }
        JobStep::Retry => panic!("a third failure must settle the job"),
    }
}

#[test]
fn success_after_failures_is_kept() {
    let mut attempts = JobAttempts::new();
    assert!(matches!(attempts.record(None), JobStep::Retry));
    match attempts.record(Some(record(0, "<math/>"))) {
        JobStep::Done(r) => assert_eq!(r.result, "<math/>"),
        JobStep::Retry => panic!("a record settles the job"),
    }
}

#[test]
fn reorder_restores_positions() {
    assert_eq!(reorder(vec![(2, 'c'), (0, 'a'), (1, 'b')]), Some(vec!['a', 'b', 'c']));
    assert_eq!(reorder::<char>(vec![]), Some(vec![]));
    assert_eq!(reorder(vec![(0, 'a'), (0, 'b')]), None);
    assert_eq!(reorder(vec![(0, 'a'), (2, 'b')]), None);
}

#[test]
fn batch_lines_follow_input_order() {
    let tagged = vec![
        (2, record(0, "<math>c</math>")),
        (0, record(0, "<math>a</math>")),
        (1, record(1, "<math>b</math>")),
    ];
    let lines = finish_batch(3, tagged).expect("aligned batch");
    assert_eq!(lines.results, vec!["<math>a</math>", "<math>b</math>", "<math>c</math>"]);
    assert_eq!(lines.logs, vec!["0", "1", "0"]);
}

#[test]
fn mixed_severity_lines_stay_aligned() {
    let tagged = vec![(1, record(2, "")), (0, record(0, "<math>x</math>"))];
    let lines = finish_batch(2, tagged).expect("aligned batch");
    assert_eq!(lines.results, vec!["<math>x</math>", ""]);
    assert_eq!(lines.logs, vec!["0", "2"]);
}

#[test]
fn misaligned_batches_are_refused() {
    assert!(finish_batch(3, vec![(0, record(0, "a")), (1, record(0, "b"))]).is_none());
    assert!(finish_batch(2, vec![(0, record(0, "a")), (0, record(0, "b"))]).is_none());
    assert!(finish_batch(0, vec![]).is_some());
}

#[test]
fn pool_lends_and_takes_back() {
    let mut pool = ServerPool::new(3);
    assert_eq!(pool.take(), Some(0));
    assert_eq!(pool.take(), Some(1));
    assert_eq!(pool.take(), Some(2));
    assert_eq!(pool.take(), None);
    assert!(pool.give_back(1));
    assert!(!pool.give_back(1));
    assert!(!pool.give_back(7));
    assert_eq!(pool.take(), Some(1));
    assert!(pool.give_back(2));
    assert!(pool.give_back(0));
    assert_eq!(pool.take(), Some(2));
    assert_eq!(pool.take(), Some(0));
}

#[test]
fn pool_refuses_a_waiting_worker() {
    let mut pool = ServerPool::new(1);
    assert!(!pool.give_back(0));
    assert_eq!(pool.take(), Some(0));
    assert_eq!(pool.take(), None);
    assert!(pool.give_back(0));
}

#[test]
fn math_toggles_go_last_in_fixed_order() {
    let given = opts(&[
        ("preload", "amsmath.sty"),
        ("nopmml", ""),
        ("cmml", ""),
        ("profile", "math"),
        ("pmml", ""),
        ("cmml", ""),
        ("preload", "article.cls"),
        ("includestyles", ""),
    ]);
    assert_eq!(
        order_boot_options(&given),
        opts(&[
            ("preload", "amsmath.sty"),
            ("profile", "math"),
            ("preload", "article.cls"),
            ("includestyles", ""),
            ("pmml", ""),
            ("cmml", ""),
            ("nopmml", ""),
        ])
    );
    assert_eq!(order_boot_options(&Vec::new()), Vec::new());
    assert_eq!(order_boot_options(&opts(&[("pmml", "x")])), opts(&[("pmml", "x")]));
}

#[test]
fn input_format_by_extension() {
    assert_eq!(input_format("tests/data/sqrts.txt"), InputFormat::Lines);
    assert_eq!(input_format("a.txt"), InputFormat::Lines);
    assert_eq!(input_format("sqrts.csv"), InputFormat::Records);
    assert_eq!(input_format("data/.txt"), InputFormat::Records);
    assert_eq!(input_format(".txt"), InputFormat::Records);
    assert_eq!(input_format("notes.TXT"), InputFormat::Records);
    assert_eq!(input_format("plain"), InputFormat::Records);
}

#[test]
fn directory_entries_and_their_targets() {
    let first = dir_targets("in", "out", "logs", "sqrts.csv").expect("a csv file");
    assert_eq!(first.input, "in/sqrts.csv");
    assert_eq!(first.output, "out/result_sqrts.csv");
    assert_eq!(first.log, "logs/sqrts.csv.log");
    let second = dir_targets("in", "out", "logs", "mixed.csv").expect("a csv file");
    assert_eq!(second.output, "out/result_mixed.csv");
    assert_eq!(second.log, "logs/mixed.csv.log");
    assert!(dir_targets("in", "out", "logs", "notes.txt").is_none());
    assert!(dir_targets("in", "out", "logs", "csv").is_none());
}
