use priority_tx::request::estimate_request_body;
use priority_tx::request::estimate_request_for;
use priority_tx::response::parse_estimate_response;
use priority_tx::submit::fee_from_outcome;
use priority_tx::keys::account_keys;
use priority_tx::types::AccountMeta;
use priority_tx::types::EstimateOutcome;
use priority_tx::types::FailureKind;
use priority_tx::types::Operation;
use priority_tx::types::ParsedEstimate;

fn meta(key: &str) -> AccountMeta {
    AccountMeta { pubkey: String::from(key), is_signer: false, is_writable: true }
}

fn op(keys: &[&str]) -> Operation {
    Operation {
        program_id: String::from("Prog1111111111111111111111111111111111111111"),
        accounts: keys.iter().map(|k| meta(k)).collect(),
        data: vec![1, 2, 3],
    }
}

const OPTIONS_TAIL: &str = "],\"options\":{\"priorityLevel\":\"MEDIUM\",\"includeAllPriorityFeeLevels\":false,\"transactionEncoding\":\"base64\",\"lookbackSlots\":null,\"recommended\":true,\"includeVote\":true}}";

#[test]
fn keys_are_ordered_and_kept() {
    let ops = vec![op(&["x", "y"]), op(&["y"])];
    let keys = account_keys(&ops);
    assert_eq!(keys, vec!["x".to_string(), "y".to_string(), "y".to_string()]);
}

#[test]
fn keys_of_no_operations() {
    let ops: Vec<Operation> = Vec::new();
    assert_eq!(account_keys(&ops), Vec::<String>::new());
}

#[test]
fn request_body_lists_keys_in_order() {
    let keys = vec!["x".to_string(), "y".to_string(), "y".to_string()];
    let body = estimate_request_body(&keys);
    let expected = format!(
        "{}\"x\",\"y\",\"y\"{}",
        "{\"transaction\":null,\"accountKeys\":[", OPTIONS_TAIL
    );
    assert_eq!(body, expected);
}

#[test]
fn request_body_with_no_keys() {
    let keys: Vec<String> = Vec::new();
    let body = estimate_request_body(&keys);
    let expected = format!("{}{}", "{\"transaction\":null,\"accountKeys\":[", OPTIONS_TAIL);
    assert_eq!(body, expected);
}

#[test]
fn request_body_escapes_keys() {
    let keys = vec!["a\"b\\c\u{1}".to_string()];
    let body = estimate_request_body(&keys);
    let expected = format!(
        "{}\"a\\\"b\\\\c\\u0001\"{}",
        "{\"transaction\":null,\"accountKeys\":[", OPTIONS_TAIL
    );
    assert_eq!(body, expected);
}

#[test]
fn request_body_from_operations() {
    let ops = vec![op(&["x", "y"]), op(&["y"])];
    let body = estimate_request_for(&ops);
    assert_eq!(body, estimate_request_body(&account_keys(&ops)));
}

#[test]
fn estimate_is_truncated_not_rounded() {
    let r = parse_estimate_response("{\"priorityFeeEstimate\": 1234.9}");
    assert_eq!(r, ParsedEstimate::Fee(1234));
}

#[test]
fn estimate_below_one_truncates_to_zero() {
    let r = parse_estimate_response("{\"priorityFeeEstimate\": 0.999}");
    assert_eq!(r, ParsedEstimate::Fee(0));
}

#[test]
fn whole_estimate_kept_exactly() {
    let r = parse_estimate_response("{\"priorityFeeEstimate\":5000.0}");
    assert_eq!(r, ParsedEstimate::Fee(5000));
}

#[test]
fn estimate_with_positive_exponent() {
    let r = parse_estimate_response("{\"priorityFeeEstimate\":1.2349e3}");
    assert_eq!(r, ParsedEstimate::Fee(1234));
}

#[test]
fn estimate_with_negative_exponent() {
    let r = parse_estimate_response("{\"priorityFeeEstimate\":125e-2}");
    assert_eq!(r, ParsedEstimate::Fee(1));
}

#[test]
fn huge_estimate_saturates() {
    let r = parse_estimate_response("{\"priorityFeeEstimate\":1e30}");
    assert_eq!(r, ParsedEstimate::Fee(u64::MAX));
}

#[test]
fn negative_estimate_truncates_to_zero() {
    let r = parse_estimate_response("{\"priorityFeeEstimate\":-3.5}");
    assert_eq!(r, ParsedEstimate::Fee(0));
}

#[test]
fn null_estimate_is_empty() {
    let r = parse_estimate_response("{\"priorityFeeEstimate\": null}");
    assert_eq!(r, ParsedEstimate::Empty);
}

#[test]
fn absent_estimate_is_empty() {
    assert_eq!(parse_estimate_response("{}"), ParsedEstimate::Empty);
    assert_eq!(
        parse_estimate_response("{\"somethingElse\": 7}"),
        ParsedEstimate::Empty
    );
}

#[test]
fn other_members_are_skipped() {
    let r = parse_estimate_response(
        "{\"context\":{\"slot\":[1,2,{\"a\":true}]},\"priorityFeeEstimate\":42.7,\"note\":\"x\"}",
    );
    assert_eq!(r, ParsedEstimate::Fee(42));
}

#[test]
fn whitespace_is_tolerated() {
    let r = parse_estimate_response(" \t\r\n{ \"priorityFeeEstimate\" : 8.25 } \n");
    assert_eq!(r, ParsedEstimate::Fee(8));
}

#[test]
fn malformed_bodies_are_rejected() {
    assert_eq!(parse_estimate_response(""), ParsedEstimate::Malformed);
    assert_eq!(parse_estimate_response("not json"), ParsedEstimate::Malformed);
    assert_eq!(parse_estimate_response("[1,2]"), ParsedEstimate::Malformed);
    assert_eq!(parse_estimate_response("{\"a\":1"), ParsedEstimate::Malformed);
    assert_eq!(parse_estimate_response("{\"a\":01}"), ParsedEstimate::Malformed);
    assert_eq!(parse_estimate_response("{\"a\":1.}"), ParsedEstimate::Malformed);
    assert_eq!(parse_estimate_response("{\"a\":1} x"), ParsedEstimate::Malformed);
    assert_eq!(parse_estimate_response("{,}"), ParsedEstimate::Malformed);
    assert_eq!(parse_estimate_response("{\"a\":1,}"), ParsedEstimate::Malformed);
}

#[test]
fn wrongly_typed_estimate_is_malformed() {
    assert_eq!(
        parse_estimate_response("{\"priorityFeeEstimate\":\"5000\"}"),
        ParsedEstimate::Malformed
    );
    assert_eq!(
        parse_estimate_response("{\"priorityFeeEstimate\":true}"),
        ParsedEstimate::Malformed
    );
}

#[test]
fn repeated_estimate_field_is_malformed() {
    let r = parse_estimate_response("{\"priorityFeeEstimate\":1,\"priorityFeeEstimate\":2}");
    assert_eq!(r, ParsedEstimate::Malformed);
}

#[test]
fn empty_estimate_is_a_failure_not_a_default() {
    let outcome = EstimateOutcome::Body("{\"priorityFeeEstimate\": null}".to_string());
    assert_eq!(fee_from_outcome(&outcome), Err(FailureKind::EmptyEstimate));
    let absent = EstimateOutcome::Body("{}".to_string());
    assert_eq!(fee_from_outcome(&absent), Err(FailureKind::EmptyEstimate));
}

#[test]
fn transport_failure_is_classified() {
    assert_eq!(
        fee_from_outcome(&EstimateOutcome::TransportFailed),
        Err(FailureKind::Transport)
    );
}

#[test]
fn malformed_body_is_a_deserialization_failure() {
    let outcome = EstimateOutcome::Body("<html>".to_string());
    assert_eq!(fee_from_outcome(&outcome), Err(FailureKind::Deserialization));
}

#[test]
fn numeric_estimate_is_returned() {
    let outcome = EstimateOutcome::Body("{\"priorityFeeEstimate\":1234.9}".to_string());
    assert_eq!(fee_from_outcome(&outcome), Ok(1234));
}

#[test]
fn exponent_with_plus_sign() {
    let r = parse_estimate_response("{\"priorityFeeEstimate\":2.5e+2}");
    assert_eq!(r, ParsedEstimate::Fee(250));
}

#[test]
fn saturation_boundary() {
    assert_eq!(
        parse_estimate_response("{\"priorityFeeEstimate\":1e19}"),
        ParsedEstimate::Fee(10000000000000000000)
    );
    assert_eq!(
        parse_estimate_response("{\"priorityFeeEstimate\":18446744073709551615}"),
        ParsedEstimate::Fee(u64::MAX)
    );
    assert_eq!(
        parse_estimate_response("{\"priorityFeeEstimate\":18446744073709551616}"),
        ParsedEstimate::Fee(u64::MAX)
    );
}

#[test]
fn string_escapes_in_other_members() {
    let r = parse_estimate_response(
        "{\"note\":\"a\\\"b\\\\c\\u00ffd\",\"priorityFeeEstimate\":3}",
    );
    assert_eq!(r, ParsedEstimate::Fee(3));
}

#[test]
fn bad_strings_are_malformed() {
    assert_eq!(
        parse_estimate_response("{\"a\":\"unterminated}"),
        ParsedEstimate::Malformed
    );
    assert_eq!(
        parse_estimate_response("{\"a\":\"bad\\x escape\"}"),
        ParsedEstimate::Malformed
    );
    assert_eq!(
        parse_estimate_response("{\"a\":\"short\\u00f\"}"),
        ParsedEstimate::Malformed
    );
}

#[test]
fn nested_values_are_skipped() {
    let r = parse_estimate_response(
        "{\"a\":[[{\"b\":[null,false,\"x\"]}],-1.5e-7],\"priorityFeeEstimate\":6.01}",
    );
    assert_eq!(r, ParsedEstimate::Fee(6));
}
