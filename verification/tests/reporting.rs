use efflux::endpoint::EndpointConfig;
use efflux::report::{fmt_usize, DeliveryOutcome, RunError};
use efflux::run::Orchestrator;

#[test]
fn url_construction() {
    let cfg = EndpointConfig::new("x.splunk.com", "app", "json", "tok");
    assert_eq!(
        cfg.url().as_str(),
        "https://x.splunk.com/services/collector/raw?source=app&sourcetype=json"
    );
}

#[test]
fn url_with_default_tags() {
    let cfg = EndpointConfig::new("foo.splunk.com", "efflux", "generic_single_line", "tok");
    assert_eq!(
        cfg.url().as_str(),
        "https://foo.splunk.com/services/collector/raw?source=efflux&sourcetype=generic_single_line"
    );
}

#[test]
fn auth_header_value() {
    let cfg = EndpointConfig::new("x.splunk.com", "app", "json", "abcd-1234");
    assert_eq!(cfg.auth_header().as_str(), "Splunk abcd-1234");
}

#[test]
fn decimal_rendering() {
    assert_eq!(fmt_usize(0), "0");
    assert_eq!(fmt_usize(7), "7");
    assert_eq!(fmt_usize(10), "10");
    assert_eq!(fmt_usize(200), "200");
    assert_eq!(fmt_usize(972800), "972800");
    assert_eq!(fmt_usize(usize::MAX), usize::MAX.to_string());
}

#[test]
fn report_line_format() {
    let outcome = DeliveryOutcome { index: 0, size: 7, status: Some(200) };
    assert_eq!(outcome.report_line(), "request:0 size:7 status:200");
}

#[test]
fn report_line_multidigit() {
    let outcome = DeliveryOutcome { index: 12, size: 345, status: Some(404) };
    assert_eq!(outcome.report_line(), "request:12 size:345 status:404");
}

#[test]
fn report_line_transport_failure() {
    let outcome = DeliveryOutcome { index: 3, size: 99, status: None };
    assert_eq!(outcome.report_line(), "request:3 size:99 status:transport failure");
}

#[test]
fn error_messages() {
    assert_eq!(RunError::FileAccess.message(), "fatal: the input file cannot be opened");
    assert_eq!(
        RunError::LineDecode.message(),
        "fatal: a line of the input file cannot be decoded"
    );
    assert_eq!(
        RunError::Transport.message(),
        "fatal: transport failure while sending a batch"
    );
}

#[test]
fn empty_input_dispatches_nothing() {
    let mut orch = Orchestrator::new(10);
    assert_eq!(orch.dispatched(), 0);
    assert!(orch.end_of_input().is_none());
    assert!(orch.finished());
}

#[test]
fn orchestrator_numbers_batches_in_order() {
    let mut orch = Orchestrator::new(10);
    assert!(orch.offer_line("abcde".to_string()).is_none());
    assert!(orch.offer_line("fg".to_string()).is_none());
    let first = orch.offer_line("hijk".to_string()).expect("first batch is complete");
    assert_eq!(first.index, 0);
    assert_eq!(first.size, 7);
    assert_eq!(first.body, "abcde\nfg\n");
    assert!(orch.offer_line("l".to_string()).is_none());
    assert_eq!(orch.dispatched(), 1);
    let last = orch.end_of_input().expect("the partial batch is flushed");
    assert_eq!(last.index, 1);
    assert_eq!(last.size, 5);
    assert_eq!(last.body, "hijk\nl\n");
    assert!(orch.finished());
}
