use ipputil::attribute::{AttributeGroup, DelimiterTag, IppAttribute, Response};
use ipputil::error::IppError;
use ipputil::value::IppValue;
use ipputil::workflow::{
    check_printer_state, extract_job_id, job_lines, parse_option, status_lines, JobWorkflow,
};

fn attr(name: &str, value: IppValue) -> IppAttribute {
    IppAttribute::new(String::from(name), value)
}

fn printer_response(attrs: Vec<IppAttribute>) -> Response {
    let mut g = AttributeGroup::new(DelimiterTag::PrinterAttributes);
    for a in attrs {
        g.add_attribute(a);
    }
    let mut r = Response::new();
    r.push_group(g);
    r
}

#[test]
fn precheck_blocks_stopped_printer() {
    let resp = printer_response(vec![attr("printer-state", IppValue::Enum(5))]);
    match check_printer_state(&resp) {
        Err(IppError::PrinterState(reasons)) => {
            assert_eq!(reasons, vec![String::from("stopped")]);
        },
        _ => panic!("a stopped printer must block the precheck"),
    }
}

#[test]
fn precheck_blocks_deny_listed_reason() {
    let resp = printer_response(vec![
        attr("printer-state", IppValue::Enum(3)),
        attr("printer-state-reasons", IppValue::Keyword(String::from("media-jam"))),
    ]);
    match check_printer_state(&resp) {
        Err(IppError::PrinterState(reasons)) => {
            assert_eq!(reasons, vec![String::from("media-jam")]);
        },
        _ => panic!("a deny-listed reason must block the precheck"),
    }
}

#[test]
fn precheck_reports_all_reasons_verbatim() {
    let reasons = IppValue::list_of(vec![
        IppValue::Keyword(String::from("none")),
        IppValue::Keyword(String::from("toner-empty")),
    ]);
    let resp = printer_response(vec![attr("printer-state-reasons", reasons)]);
    match check_printer_state(&resp) {
        Err(IppError::PrinterState(reasons)) => {
            assert_eq!(reasons, vec![String::from("none"), String::from("toner-empty")]);
        },
        _ => panic!("a deny-listed reason must block the precheck"),
    }
}

#[test]
fn precheck_passes_idle_printer() {
    let resp = printer_response(vec![
        attr("printer-state", IppValue::Enum(3)),
        attr("printer-state-reasons", IppValue::Keyword(String::from("none"))),
    ]);
    assert!(check_printer_state(&resp).is_ok());
}

#[test]
fn precheck_passes_empty_response() {
    assert!(check_printer_state(&Response::new()).is_ok());
}

#[test]
fn job_id_extraction() {
    let mut g = AttributeGroup::new(DelimiterTag::JobAttributes);
    g.add_attribute(attr("job-id", IppValue::Integer(42)));
    let mut resp = Response::new();
    resp.push_group(g);
    assert_eq!(extract_job_id(&resp).unwrap(), 42);

    match extract_job_id(&Response::new()) {
        Err(IppError::Protocol(_)) => {},
        _ => panic!("a missing job-id is a protocol error"),
    }

    let mut g = AttributeGroup::new(DelimiterTag::JobAttributes);
    g.add_attribute(attr("job-id", IppValue::Keyword(String::from("42"))));
    let mut resp = Response::new();
    resp.push_group(g);
    match extract_job_id(&resp) {
        Err(IppError::Protocol(_)) => {},
        _ => panic!("a non-integer job-id is a protocol error"),
    }
}

#[test]
fn three_document_workflow_in_order() {
    let mut wf = JobWorkflow::new(7, 3);

    let s0 = wf.next_document().unwrap();
    assert_eq!((s0.job_id, s0.index, s0.last), (7, 0, false));
    wf.document_sent();

    let s1 = wf.next_document().unwrap();
    assert_eq!((s1.job_id, s1.index, s1.last), (7, 1, false));
    wf.document_sent();

    let s2 = wf.next_document().unwrap();
    assert_eq!((s2.job_id, s2.index, s2.last), (7, 2, true));
    wf.document_sent();

    assert!(wf.next_document().is_none());
    assert!(wf.is_done());
    assert!(!wf.has_failed());
}

#[test]
fn failure_aborts_remaining_documents() {
    let mut wf = JobWorkflow::new(7, 3);
    wf.document_sent();

    // document 2 of 3 fails: document 3 is never issued
    assert!(wf.next_document().is_some());
    wf.document_failed();
    assert!(wf.next_document().is_none());
    assert!(wf.has_failed());
    assert!(!wf.is_done());
}

#[test]
fn single_document_is_last_at_once() {
    let mut wf = JobWorkflow::new(1, 1);
    let s = wf.next_document().unwrap();
    assert!(s.last);
    wf.document_sent();
    assert!(wf.is_done());
}

#[test]
fn parse_option_key_value() {
    let a = parse_option("copies=3").unwrap();
    assert_eq!(a.name(), "copies");
    assert!(matches!(a.value(), IppValue::Integer(3)));

    let a = parse_option("duplex=true").unwrap();
    assert!(matches!(a.value(), IppValue::Boolean(true)));

    let a = parse_option("media=a4").unwrap();
    match a.value() {
        IppValue::Keyword(k) => assert_eq!(k, "a4"),
        _ => panic!("expected a keyword"),
    }

    // the value is the text between the first and second equals sign
    let a = parse_option("a=b=c").unwrap();
    assert_eq!(a.name(), "a");
    match a.value() {
        IppValue::Keyword(k) => assert_eq!(k, "b"),
        _ => panic!("expected a keyword"),
    }

    assert!(parse_option("no-separator").is_none());
    assert!(parse_option("").is_none());
}

#[test]
fn status_lines_single_attribute() {
    let resp = printer_response(vec![attr("printer-state", IppValue::Enum(3))]);
    let lines = status_lines(&resp);
    assert_eq!(lines, vec![String::from("printer-state: 3")]);
}

#[test]
fn status_lines_sorted_by_name() {
    let resp = printer_response(vec![
        attr("printer-state", IppValue::Enum(3)),
        attr("media-default", IppValue::Keyword(String::from("a4"))),
        attr("copies-supported", IppValue::Integer(99)),
    ]);
    let lines = status_lines(&resp);
    assert_eq!(
        lines,
        vec![
            String::from("copies-supported: 99"),
            String::from("media-default: a4"),
            String::from("printer-state: 3"),
        ]
    );
}

#[test]
fn status_lines_empty_without_printer_group() {
    assert_eq!(status_lines(&Response::new()).len(), 0);
}

#[test]
fn job_lines_keep_response_order() {
    let mut g = AttributeGroup::new(DelimiterTag::JobAttributes);
    g.add_attribute(attr("job-id", IppValue::Integer(42)));
    g.add_attribute(attr("job-state", IppValue::Enum(3)));
    let mut resp = Response::new();
    resp.push_group(g);
    let lines = job_lines(&resp);
    assert_eq!(lines, vec![String::from("job-id: 42"), String::from("job-state: 3")]);
    assert_eq!(job_lines(&Response::new()).len(), 0);
}
