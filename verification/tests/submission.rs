use priority_tx::plan::assemble;
use priority_tx::submit::begin;
use priority_tx::submit::estimate_received;
use priority_tx::types::AccountMeta;
use priority_tx::types::Begun;
use priority_tx::types::Commitment;
use priority_tx::types::EstimateOutcome;
use priority_tx::types::FailureKind;
use priority_tx::types::Ix;
use priority_tx::types::Operation;
use priority_tx::types::TxEncoding;
use priority_tx::types::send_policy;

fn transfer(keys: &[&str]) -> Operation {
    Operation {
        program_id: String::from("11111111111111111111111111111111"),
        accounts: keys
            .iter()
            .map(|k| AccountMeta { pubkey: String::from(*k), is_signer: false, is_writable: true })
            .collect(),
        data: vec![2, 0, 0, 0],
    }
}

#[test]
fn limit_directive_is_always_first() {
    for n in [0usize, 1, 5] {
        let ops: Vec<Operation> = (0..n).map(|_| transfer(&["a"])).collect();
        for fee in [None, Some(7u64)] {
            let plan = assemble(ops.clone(), 9000, fee);
            assert_eq!(plan[0], Ix::CuLimit(9000));
            assert_eq!(
                plan.iter().filter(|ix| matches!(ix, Ix::CuLimit(_))).count(),
                1
            );
        }
    }
}

#[test]
fn price_directive_is_second_or_absent() {
    let ops = vec![transfer(&["a"]), transfer(&["b"])];
    let with_fee = assemble(ops.clone(), 100, Some(55));
    assert_eq!(with_fee[1], Ix::CuPrice(55));
    let without = assemble(ops, 100, None);
    assert!(without.iter().all(|ix| !matches!(ix, Ix::CuPrice(_))));
}

#[test]
fn operations_keep_their_order() {
    for n in [0usize, 1, 7] {
        let ops: Vec<Operation> = (0..n)
            .map(|i| transfer(&[format!("k{}", i).as_str()]))
            .collect();
        for (fee, skip) in [(None, 1usize), (Some(3u64), 2usize)] {
            let plan = assemble(ops.clone(), 1, fee);
            assert_eq!(plan.len(), skip + n);
            for (i, orig) in ops.iter().enumerate() {
                assert_eq!(plan[skip + i], Ix::Op(orig.clone()));
            }
        }
    }
}

#[test]
fn end_to_end_priced_submission() {
    let t = transfer(&["payer", "recipient"]);
    let begun = begin(vec![t.clone()], 200000, true);
    let (pending, body) = match begun {
        Begun::NeedEstimate(p, b) => (p, b),
        Begun::Ready(_) => panic!("an estimation request was expected"),
    };
    assert!(body.contains("\"accountKeys\":[\"payer\",\"recipient\"]"));
    assert!(body.contains("\"priorityLevel\":\"MEDIUM\""));
    assert!(body.contains("\"transaction\":null"));
    let outcome = EstimateOutcome::Body("{\"priorityFeeEstimate\":5000.0}".to_string());
    let plan = estimate_received(pending, &outcome).expect("the estimate was numeric");
    assert_eq!(
        plan,
        vec![Ix::CuLimit(200000), Ix::CuPrice(5000), Ix::Op(t)]
    );
    let policy = send_policy();
    assert!(!policy.skip_preflight);
    assert_eq!(policy.preflight_commitment, Some(Commitment::Confirmed));
    assert_eq!(policy.encoding, Some(TxEncoding::Base64));
    assert_eq!(policy.max_retries, Some(0));
    assert_eq!(policy.min_context_slot, None);
}

#[test]
fn unpriced_submission_is_ready_at_once() {
    let t = transfer(&["payer", "recipient"]);
    let begun = begin(vec![t.clone()], 1400, false);
    match begun {
        Begun::Ready(plan) => {
            assert_eq!(plan, vec![Ix::CuLimit(1400), Ix::Op(t)]);
        },
        Begun::NeedEstimate(_, _) => panic!("no estimation request was expected"),
    }
}

#[test]
fn estimator_timeout_stops_the_submission() {
    let t = transfer(&["payer"]);
    let begun = begin(vec![t], 200000, true);
    let pending = match begun {
        Begun::NeedEstimate(p, _) => p,
        Begun::Ready(_) => panic!("an estimation request was expected"),
    };
    let r = estimate_received(pending, &EstimateOutcome::TransportFailed);
    assert_eq!(r.unwrap_err(), FailureKind::Transport);
}

#[test]
fn empty_estimate_stops_the_submission() {
    let t = transfer(&["payer"]);
    let pending = match begin(vec![t], 200000, true) {
        Begun::NeedEstimate(p, _) => p,
        Begun::Ready(_) => panic!("an estimation request was expected"),
    };
    let outcome = EstimateOutcome::Body("{\"priorityFeeEstimate\":null}".to_string());
    let r = estimate_received(pending, &outcome);
    assert_eq!(r.unwrap_err(), FailureKind::EmptyEstimate);
}
