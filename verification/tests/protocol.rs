use ipputil::attribute::{AttributeGroup, DelimiterTag, IppAttribute, Response};
use ipputil::builder::IppOperationBuilder;
use ipputil::client::IppClient;
use ipputil::error::IppError;
use ipputil::operation::{
    DocumentSource, IppOperation, OP_CREATE_JOB, OP_GET_PRINTER_ATTRIBUTES, OP_PRINT_JOB,
    OP_SEND_DOCUMENT, PrinterState,
};
use ipputil::value::{parse_text, render_value, IppValue};

fn attr(name: &str, value: IppValue) -> IppAttribute {
    IppAttribute::new(String::from(name), value)
}

#[test]
fn render_integer_and_enum() {
    assert_eq!(render_value(&IppValue::Integer(42)), "42");
    assert_eq!(render_value(&IppValue::Integer(-7)), "-7");
    assert_eq!(render_value(&IppValue::Integer(0)), "0");
    assert_eq!(render_value(&IppValue::Integer(i32::MIN)), "-2147483648");
    assert_eq!(render_value(&IppValue::Integer(i32::MAX)), "2147483647");
    assert_eq!(render_value(&IppValue::Enum(5)), "5");
}

#[test]
fn render_boolean_keyword_text_list() {
    assert_eq!(render_value(&IppValue::Boolean(true)), "true");
    assert_eq!(render_value(&IppValue::Boolean(false)), "false");
    assert_eq!(render_value(&IppValue::Keyword(String::from("media-jam"))), "media-jam");
    assert_eq!(render_value(&IppValue::Text(String::from("hello printer"))), "hello printer");
    let list = IppValue::list_of(vec![
        IppValue::Integer(1),
        IppValue::Keyword(String::from("two")),
        IppValue::Boolean(true),
    ]);
    assert_eq!(render_value(&list), "[1, two, true]");
}

#[test]
fn list_of_flattens_nested_lists() {
    let inner = IppValue::list_of(vec![IppValue::Integer(2), IppValue::Integer(3)]);
    let outer = IppValue::list_of(vec![IppValue::Integer(1), inner]);
    assert_eq!(render_value(&outer), "[1, 2, 3]");
}

#[test]
fn parse_infers_integer_boolean_keyword() {
    assert!(matches!(parse_text("42"), IppValue::Integer(42)));
    assert!(matches!(parse_text("-7"), IppValue::Integer(-7)));
    assert!(matches!(parse_text("+7"), IppValue::Integer(7)));
    assert!(matches!(parse_text("007"), IppValue::Integer(7)));
    assert!(matches!(parse_text("true"), IppValue::Boolean(true)));
    assert!(matches!(parse_text("false"), IppValue::Boolean(false)));
    match parse_text("draft") {
        IppValue::Keyword(k) => assert_eq!(k, "draft"),
        _ => panic!("expected a keyword"),
    }
    match parse_text("") {
        IppValue::Keyword(k) => assert_eq!(k, ""),
        _ => panic!("expected a keyword"),
    }
    // out of 32-bit range: stays textual
    match parse_text("2147483648") {
        IppValue::Keyword(k) => assert_eq!(k, "2147483648"),
        _ => panic!("expected a keyword"),
    }
    assert!(matches!(parse_text("-2147483648"), IppValue::Integer(i32::MIN)));
}

#[test]
fn render_parse_render_is_stable() {
    let values = vec![
        IppValue::Integer(42),
        IppValue::Integer(-1),
        IppValue::Boolean(true),
        IppValue::Boolean(false),
        IppValue::Enum(3),
        IppValue::Keyword(String::from("media-jam")),
        IppValue::Keyword(String::from("7")),
        IppValue::Keyword(String::from("true")),
        IppValue::Text(String::from("a plain title")),
        IppValue::list_of(vec![IppValue::Integer(1), IppValue::Integer(2)]),
    ];
    for v in values {
        let first = render_value(&v);
        let second = render_value(&parse_text(&first));
        assert_eq!(first, second);
    }
}

#[test]
fn group_get_after_add_returns_value() {
    let mut g = AttributeGroup::new(DelimiterTag::OperationAttributes);
    g.add_attribute(attr("copies", IppValue::Integer(2)));
    let got = g.get("copies").expect("attribute must be present");
    assert_eq!(got.name(), "copies");
    assert!(matches!(got.value(), IppValue::Integer(2)));
    assert!(g.get("absent").is_none());
}

#[test]
fn group_lookup_is_last_wins_and_order_kept() {
    let mut g = AttributeGroup::new(DelimiterTag::JobAttributes);
    g.add_attribute(attr("copies", IppValue::Integer(1)));
    g.add_attribute(attr("media", IppValue::Keyword(String::from("a4"))));
    g.add_attribute(attr("copies", IppValue::Integer(9)));
    let got = g.get("copies").expect("attribute must be present");
    assert!(matches!(got.value(), IppValue::Integer(9)));
    let names: Vec<&String> = g.values().iter().map(|a| a.name()).collect();
    assert_eq!(names, vec!["copies", "media", "copies"]);
}

#[test]
fn groups_of_filters_by_tag_in_order() {
    let mut r = Response::new();
    let mut p1 = AttributeGroup::new(DelimiterTag::PrinterAttributes);
    p1.add_attribute(attr("which", IppValue::Integer(1)));
    let mut j1 = AttributeGroup::new(DelimiterTag::JobAttributes);
    j1.add_attribute(attr("which", IppValue::Integer(2)));
    let mut p2 = AttributeGroup::new(DelimiterTag::PrinterAttributes);
    p2.add_attribute(attr("which", IppValue::Integer(3)));
    r.push_group(p1);
    r.push_group(j1);
    r.push_group(p2);

    let printers = r.groups_of(DelimiterTag::PrinterAttributes);
    assert_eq!(printers.len(), 2);
    for g in &printers {
        assert_eq!(g.tag(), DelimiterTag::PrinterAttributes);
    }
    assert!(matches!(printers[0].get("which").unwrap().value(), IppValue::Integer(1)));
    assert!(matches!(printers[1].get("which").unwrap().value(), IppValue::Integer(3)));

    assert_eq!(r.groups_of(DelimiterTag::UnsupportedAttributes).len(), 0);
    let got = r.get(DelimiterTag::JobAttributes, "which").unwrap();
    assert!(matches!(got.value(), IppValue::Integer(2)));
}

#[test]
fn printer_state_codes() {
    assert_eq!(PrinterState::from_code(3), Some(PrinterState::Idle));
    assert_eq!(PrinterState::from_code(4), Some(PrinterState::Processing));
    assert_eq!(PrinterState::from_code(5), Some(PrinterState::Stopped));
    assert_eq!(PrinterState::from_code(6), None);
    assert_eq!(PrinterState::from_code(0), None);
}

#[test]
fn send_document_builder_rejects_job_id_zero() {
    let source = DocumentSource::new(vec![1, 2, 3]);
    let r = IppOperationBuilder::send_document(0, source).build();
    match r {
        Err(IppError::Validation(_)) => {},
        _ => panic!("job_id = 0 must fail at build time"),
    }
    let source = DocumentSource::new(vec![1, 2, 3]);
    let r = IppOperationBuilder::send_document(-4, source).build();
    assert!(r.is_err());
    let source = DocumentSource::new(vec![1, 2, 3]);
    assert!(IppOperationBuilder::send_document(1, source).build().is_ok());
}

#[test]
fn send_document_request_attributes() {
    let source = DocumentSource::new(vec![9, 9]);
    let op = IppOperationBuilder::send_document(7, source)
        .user_name("alice")
        .last(false)
        .build()
        .unwrap();
    let req = op.into_request(11);
    assert_eq!(req.operation_code, OP_SEND_DOCUMENT);
    assert_eq!(req.request_id, 11);
    assert_eq!(req.operation_attributes.tag(), DelimiterTag::OperationAttributes);
    let names: Vec<&String> = req.operation_attributes.values().iter().map(|a| a.name()).collect();
    assert_eq!(names, vec!["job-id", "requesting-user-name", "last-document"]);
    assert!(matches!(
        req.operation_attributes.get("job-id").unwrap().value(),
        IppValue::Integer(7)
    ));
    assert!(matches!(
        req.operation_attributes.get("last-document").unwrap().value(),
        IppValue::Boolean(false)
    ));
    let payload = req.payload.expect("send-document carries a payload");
    assert_eq!(payload.into_bytes(), vec![9, 9]);
}

#[test]
fn print_job_builder_appends_extras_after_well_known() {
    let source = DocumentSource::new(vec![1]);
    let op = IppOperationBuilder::print_job(source)
        .user_name("bob")
        .job_title("report")
        .attribute(attr("copies", IppValue::Integer(2)))
        .attribute(attr("copies", IppValue::Integer(3)))
        .build();
    let req = op.into_request(1);
    assert_eq!(req.operation_code, OP_PRINT_JOB);
    let names: Vec<&String> = req.operation_attributes.values().iter().map(|a| a.name()).collect();
    assert_eq!(names, vec!["requesting-user-name", "job-name", "copies", "copies"]);
    assert!(req.payload.is_some());
}

#[test]
fn create_job_builder_request() {
    let op = IppOperationBuilder::create_job()
        .job_name("big job")
        .attribute(attr("media", IppValue::Keyword(String::from("a4"))))
        .build();
    let req = op.into_request(5);
    assert_eq!(req.operation_code, OP_CREATE_JOB);
    assert!(req.payload.is_none());
    let names: Vec<&String> = req.operation_attributes.values().iter().map(|a| a.name()).collect();
    assert_eq!(names, vec!["job-name", "media"]);
}

#[test]
fn get_printer_attributes_builder_request() {
    let op = IppOperationBuilder::get_printer_attributes()
        .attributes(&vec![String::from("printer-state"), String::from("printer-state-reasons")])
        .attribute("printer-name")
        .build();
    let req = op.into_request(2);
    assert_eq!(req.operation_code, OP_GET_PRINTER_ATTRIBUTES);
    assert!(req.payload.is_none());
    let requested = req.operation_attributes.get("requested-attributes").unwrap();
    match requested.value() {
        IppValue::ListOf(items) => {
            assert_eq!(items.len(), 3);
            match &items[2] {
                IppValue::Keyword(k) => assert_eq!(k, "printer-name"),
                _ => panic!("expected a keyword"),
            }
        },
        _ => panic!("expected a list"),
    }
}

#[test]
fn get_printer_attributes_empty_requests_all() {
    let op = IppOperationBuilder::get_printer_attributes().build();
    let req = op.into_request(3);
    assert_eq!(req.operation_attributes.values().len(), 0);
}

#[test]
fn client_assigns_request_ids_in_order() {
    let mut client = IppClient::new(String::from("ipp://printer.local/ipp/print"));
    assert_eq!(client.uri(), "ipp://printer.local/ipp/print");
    assert!(client.verify_hostname());
    client.set_verify_hostname(false);
    assert!(!client.verify_hostname());

    let r1 = client.prepare(IppOperationBuilder::get_printer_attributes().build());
    let r2 = client.prepare(IppOperationBuilder::create_job().build());
    assert_eq!(r1.request_id, 1);
    assert_eq!(r2.request_id, 2);
}

#[test]
fn client_with_root_certificates_keeps_them() {
    let client = IppClient::with_root_certificates(
        String::from("ipps://printer.local"),
        vec![String::from("ca.pem")],
    );
    assert_eq!(client.cacerts().len(), 1);
    assert_eq!(client.cacerts()[0], "ca.pem");
    assert!(client.verify_hostname());
}

#[test]
fn interpret_response_by_status() {
    let ok = IppClient::interpret_response(0x0000, Response::new());
    assert!(ok.is_ok());
    let ok_ignored = IppClient::interpret_response(0x0001, Response::new());
    assert!(ok_ignored.is_ok());
    match IppClient::interpret_response(0x0400, Response::new()) {
        Err(IppError::Status(code)) => assert_eq!(code, 0x0400),
        _ => panic!("a non-success status must be a status error"),
    }
}
