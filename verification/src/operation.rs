//! The four concrete IPP operations and the capability they share: producing
//! an operation code, request attributes and an optional document payload.

use vstd::prelude::*;
use vstd::string::StringExecFns;
use crate::attribute::{AttributeGroup, AttrModel, DelimiterTag, IppAttribute};
use crate::value::{IppValue, ValueModel};

verus! {

/// Operation code of Print-Job.
pub const OP_PRINT_JOB: u16 = 0x0002;

/// Operation code of Create-Job.
pub const OP_CREATE_JOB: u16 = 0x0005;

/// Operation code of Send-Document.
pub const OP_SEND_DOCUMENT: u16 = 0x0006;

/// Operation code of Get-Printer-Attributes.
pub const OP_GET_PRINTER_ATTRIBUTES: u16 = 0x000B;

/// The printer-state enum value meaning idle.
pub const PRINTER_STATE_IDLE: i32 = 3;

/// The printer-state enum value meaning processing.
pub const PRINTER_STATE_PROCESSING: i32 = 4;

/// The printer-state enum value meaning stopped.
pub const PRINTER_STATE_STOPPED: i32 = 5;

/// The printer states this client recognizes.
#[derive(Clone, Copy, PartialEq, Eq, Structural, Debug)]
pub enum PrinterState {
    Idle,
    Processing,
    Stopped,
}

/// The state a printer-state enum code denotes, if recognized.
pub open spec fn spec_printer_state(code: int) -> Option<PrinterState> {
    if code == 3 {
        Option::Some(PrinterState::Idle)
    } else if code == 4 {
        Option::Some(PrinterState::Processing)
    } else if code == 5 {
        Option::Some(PrinterState::Stopped)
    } else {
        Option::None
    }
}

impl PrinterState {
    /// Decodes a printer-state enum value.
    pub fn from_code(code: i32) -> (r: Option<PrinterState>)
        ensures
            r == spec_printer_state(code as int),
    {
        if code == PRINTER_STATE_IDLE {
            Option::Some(PrinterState::Idle)
        } else if code == PRINTER_STATE_PROCESSING {
            Option::Some(PrinterState::Processing)
        } else if code == PRINTER_STATE_STOPPED {
            Option::Some(PrinterState::Stopped)
        } else {
            Option::None
        }
    }
}

/// Document bytes an operation transfers; opaque to the protocol layer.
pub struct DocumentSource {
    bytes: Vec<u8>,
}

impl View for DocumentSource {
    type V = Seq<u8>;

    closed spec fn view(&self) -> Seq<u8> {
        self.bytes@
    }
}

impl DocumentSource {
    /// Wraps document bytes.
    pub fn new(bytes: Vec<u8>) -> (r: DocumentSource)
        ensures
            r@ == bytes@,
    {
        DocumentSource { bytes }
    }

    /// The document bytes, handed to the transport.
    pub fn into_bytes(self) -> (r: Vec<u8>)
        ensures
            r@ == self@,
    {
        self.bytes
    }
}

/// A prepared request: header fields, the operation-attributes group, and
/// the payload for operations that transfer a document.  The outside wire
/// codec serializes it.
pub struct IppRequest {
    pub operation_code: u16,
    pub request_id: i32,
    pub operation_attributes: AttributeGroup,
    pub payload: Option<DocumentSource>,
}

/// The capability every concrete operation implements: it knows its code,
/// its request attributes and its payload, and builds the request carrying
/// exactly those.
pub trait IppOperation: Sized {
    /// The operation code sent in the request header.
    spec fn spec_code(&self) -> u16;

    /// The operation attributes of the request, in order.
    spec fn spec_attrs(&self) -> Seq<AttrModel>;

    /// The document payload, if the operation transfers one.
    spec fn spec_payload(&self) -> Option<Seq<u8>>;

    /// Builds the request this operation stands for.
    fn into_request(self, request_id: i32) -> (r: IppRequest)
        ensures
            r.operation_code == self.spec_code(),
            r.request_id == request_id,
            r.operation_attributes@.tag == DelimiterTag::OperationAttributes,
            r.operation_attributes@.attrs == self.spec_attrs(),
            match self.spec_payload() {
                Option::Some(b) => r.payload matches Option::Some(p) && p@ == b,
                Option::None => r.payload is None,
            },
    ;
}

/// Get-Printer-Attributes: requests the named attributes, or all of them
/// when no name is given.
pub struct GetPrinterAttributes {
    attributes: Vec<String>,
}

impl GetPrinterAttributes {
    /// Requests all attributes.
    pub fn new() -> (r: GetPrinterAttributes)
        ensures
            r.names_model() == Seq::<Seq<char>>::empty(),
    {
        let r = GetPrinterAttributes { attributes: Vec::new() };
        proof {
            assert(r.names_model() =~= Seq::<Seq<char>>::empty());
        }
        r
    }

    /// Requests exactly the given attribute names, without augmentation; an
    /// empty list requests everything.
    pub fn with_attributes(names: Vec<String>) -> (r: GetPrinterAttributes)
        ensures
            r.names_model() == names@.map(|i: int, s: String| s@),
    {
        GetPrinterAttributes { attributes: names }
    }

    /// The requested attribute names, in order.
    pub closed spec fn names_model(&self) -> Seq<Seq<char>> {
        self.attributes@.map(|i: int, s: String| s@)
    }
}

impl IppOperation for GetPrinterAttributes {
    open spec fn spec_code(&self) -> u16 {
        OP_GET_PRINTER_ATTRIBUTES
    }

    open spec fn spec_attrs(&self) -> Seq<AttrModel> {
        if self.names_model().len() == 0 {
            Seq::empty()
        } else {
            seq![
                AttrModel {
                    name: "requested-attributes"@,
                    value: ValueModel::List(
                        self.names_model().map(|i: int, s: Seq<char>| ValueModel::Keyword(s)),
                    ),
                },
            ]
        }
    }

    open spec fn spec_payload(&self) -> Option<Seq<u8>> {
        Option::None
    }

    fn into_request(self, request_id: i32) -> (r: IppRequest) {
        let mut group = AttributeGroup::new(DelimiterTag::OperationAttributes);
        if self.attributes.len() > 0 {
            let mut keywords: Vec<IppValue> = Vec::new();
            let mut j: usize = 0;
            while j < self.attributes.len()
                invariant
                    j <= self.attributes@.len(),
                    keywords@.map(|i: int, e: IppValue| crate::value::elem_model(e))
                        =~= self.attributes@.take(j as int).map(
                        |i: int, s: String| ValueModel::Keyword(s@),
                    ),
                    forall|i: int|
                        0 <= i < keywords@.len() ==> !(#[trigger] keywords@[i] is ListOf),
                decreases self.attributes@.len() - j,
            {
                let kw = IppValue::Keyword(self.attributes[j].clone());
                let ghost old_kws = keywords@;
                keywords.push(kw);
                proof {
                    assert(self.attributes@.take(j + 1) =~= self.attributes@.take(
                        j as int,
                    ).push(self.attributes@[j as int]));
                    assert(kw@ == ValueModel::Keyword(self.attributes@[j as int]@));
                    assert(keywords@.map(|i: int, e: IppValue| crate::value::elem_model(e))
                        =~= old_kws.map(|i: int, e: IppValue| crate::value::elem_model(e)).push(
                        crate::value::elem_model(kw),
                    ));
                    assert(self.attributes@.take(j + 1).map(
                        |i: int, s: String| ValueModel::Keyword(s@),
                    ) =~= self.attributes@.take(j as int).map(
                        |i: int, s: String| ValueModel::Keyword(s@),
                    ).push(ValueModel::Keyword(self.attributes@[j as int]@)));
                    assert(keywords@.map(|i: int, e: IppValue| crate::value::elem_model(e))
                        =~= self.attributes@.take(j + 1).map(
                        |i: int, s: String| ValueModel::Keyword(s@),
                    ));
                }
                j = j + 1;
            }
            proof {
                assert(self.attributes@.take(self.attributes@.len() as int)
                    =~= self.attributes@);
            }
            let list = IppValue::ListOf(keywords);
            let name = String::from_str("requested-attributes");
            group.add_attribute(IppAttribute::new(name, list));
            proof {
                assert(self.names_model().map(|i: int, s: Seq<char>| ValueModel::Keyword(s))
                    =~= self.attributes@.map(|i: int, s: String| ValueModel::Keyword(s@)));
                assert(group@.attrs =~= self.spec_attrs());
            }
        } else {
            proof {
                assert(group@.attrs =~= self.spec_attrs());
            }
        }
        IppRequest {
            operation_code: OP_GET_PRINTER_ATTRIBUTES,
            request_id,
            operation_attributes: group,
            payload: Option::None,
        }
    }
}

/// Create-Job: opens a job, optionally named, with extra job attributes
/// appended after the well-known ones.
pub struct CreateJob {
    job_name: Option<String>,
    attributes: Vec<IppAttribute>,
}

impl CreateJob {
    /// A Create-Job operation, optionally carrying a job-name attribute.
    pub fn new(job_name: Option<String>) -> (r: CreateJob)
        ensures
            r.spec_attrs() == match job_name {
                Option::Some(n) => seq![
                    AttrModel { name: "job-name"@, value: ValueModel::Text(n@) },
                ],
                Option::None => Seq::<AttrModel>::empty(),
            },
    {
        let r = CreateJob { job_name, attributes: Vec::new() };
        proof {
            assert(crate::attribute::attr_models(r.attributes@) =~= Seq::<AttrModel>::empty());
            if r.job_name is Some {
                assert(r.spec_attrs() =~= seq![
                    AttrModel { name: "job-name"@, value: ValueModel::Text(r.job_name->0@) },
                ]);
            } else {
                assert(r.spec_attrs() =~= Seq::<AttrModel>::empty());
            }
        }
        r
    }

    /// Appends an extra job attribute; well-known attributes are never
    /// overwritten, a duplicate name is carried alongside.
    pub fn add_attribute(&mut self, a: IppAttribute)
        ensures
            final(self).spec_attrs() == old(self).spec_attrs().push(a@),
    {
        let ghost old_attrs = self.attributes@;
        self.attributes.push(a);
        proof {
            assert(crate::attribute::attr_models(self.attributes@)
                =~= crate::attribute::attr_models(old_attrs).push(a@));
            assert(self.spec_attrs() =~= old(self).spec_attrs().push(a@));
        }
    }

    /// The well-known attributes this operation sets itself: the job-name,
    /// when one was given.
    pub closed spec fn well_known(&self) -> Seq<AttrModel> {
        match self.job_name {
            Option::Some(n) => seq![
                AttrModel { name: "job-name"@, value: ValueModel::Text(n@) },
            ],
            Option::None => Seq::empty(),
        }
    }
}

impl IppOperation for CreateJob {
    open spec fn spec_code(&self) -> u16 {
        OP_CREATE_JOB
    }

    closed spec fn spec_attrs(&self) -> Seq<AttrModel> {
        self.well_known() + crate::attribute::attr_models(self.attributes@)
    }

    open spec fn spec_payload(&self) -> Option<Seq<u8>> {
        Option::None
    }

    fn into_request(self, request_id: i32) -> (r: IppRequest) {
        let ghost orig = self;
        let mut group = AttributeGroup::new(DelimiterTag::OperationAttributes);
        let CreateJob { job_name, attributes } = self;
        match job_name {
            Option::Some(n) => {
                let name = String::from_str("job-name");
                group.add_attribute(IppAttribute::new(name, IppValue::Text(n)));
            },
            Option::None => {},
        }
        let ghost base = group@.attrs;
        let mut j: usize = 0;
        proof {
            assert(base =~= orig.well_known());
        }
        while j < attributes.len()
            invariant
                j <= attributes@.len(),
                group@.tag == DelimiterTag::OperationAttributes,
                group@.attrs =~= base + crate::attribute::attr_models(
                    attributes@.take(j as int),
                ),
            decreases attributes@.len() - j,
        {
            let a = attributes[j].clone_attr();
            group.add_attribute(a);
            proof {
                assert(crate::attribute::attr_models(attributes@.take(j + 1))
                    =~= crate::attribute::attr_models(attributes@.take(j as int)).push(
                    attributes@[j as int]@,
                ));
                assert(group@.attrs =~= base + crate::attribute::attr_models(
                    attributes@.take(j + 1),
                ));
            }
            j = j + 1;
        }
        proof {
            assert(attributes@.take(attributes@.len() as int) =~= attributes@);
            assert(group@.attrs =~= orig.spec_attrs());
        }
        IppRequest {
            operation_code: OP_CREATE_JOB,
            request_id,
            operation_attributes: group,
            payload: Option::None,
        }
    }
}

/// The operation attributes of Send-Document: the job id, the optional
/// requesting user, and the last-document flag, in that order.
pub open spec fn send_document_attrs(
    job_id: int,
    user: Option<Seq<char>>,
    last: bool,
) -> Seq<AttrModel> {
    seq![AttrModel { name: "job-id"@, value: ValueModel::Integer(job_id) }] + (match user {
        Option::Some(u) => seq![
            AttrModel { name: "requesting-user-name"@, value: ValueModel::Text(u) },
        ],
        Option::None => Seq::empty(),
    }) + seq![AttrModel { name: "last-document"@, value: ValueModel::Boolean(last) }]
}

/// Send-Document: transfers one document of a created job; `last` closes
/// the job.
pub struct SendDocument {
    job_id: i32,
    source: DocumentSource,
    user_name: Option<String>,
    last: bool,
}

impl SendDocument {
    /// A Send-Document operation for a job created in this session.  A
    /// non-positive job id is a caller programming error that the builder
    /// rejects before construction.
    pub fn new(job_id: i32, source: DocumentSource, user_name: Option<String>, last: bool) -> (r:
        SendDocument)
        requires
            job_id >= 1,
        ensures
            r.job_id_model() == job_id as int,
            r.last_model() == last,
            r.spec_payload() == Option::Some(source@),
            r.spec_attrs() == send_document_attrs(
                job_id as int,
                match user_name {
                    Option::Some(u) => Option::Some(u@),
                    Option::None => Option::<Seq<char>>::None,
                },
                last,
            ),
    {
        SendDocument { job_id, source, user_name, last }
    }

    /// The job this document belongs to.
    pub closed spec fn job_id_model(&self) -> int {
        self.job_id as int
    }

    /// Whether this document closes the job.
    pub closed spec fn last_model(&self) -> bool {
        self.last
    }

    /// The optional requesting user, as a model.
    pub closed spec fn user_model(&self) -> Option<Seq<char>> {
        match self.user_name {
            Option::Some(u) => Option::Some(u@),
            Option::None => Option::None,
        }
    }
}

impl IppOperation for SendDocument {
    open spec fn spec_code(&self) -> u16 {
        OP_SEND_DOCUMENT
    }

    closed spec fn spec_attrs(&self) -> Seq<AttrModel> {
        send_document_attrs(self.job_id as int, self.user_model(), self.last)
    }

    closed spec fn spec_payload(&self) -> Option<Seq<u8>> {
        Option::Some(self.source@)
    }

    fn into_request(self, request_id: i32) -> (r: IppRequest) {
        let ghost orig = self;
        let mut group = AttributeGroup::new(DelimiterTag::OperationAttributes);
        let SendDocument { job_id, source, user_name, last } = self;
        group.add_attribute(
            IppAttribute::new(String::from_str("job-id"), IppValue::Integer(job_id)),
        );
        match user_name {
            Option::Some(u) => {
                group.add_attribute(
                    IppAttribute::new(String::from_str("requesting-user-name"), IppValue::Text(u)),
                );
            },
            Option::None => {},
        }
        group.add_attribute(
            IppAttribute::new(String::from_str("last-document"), IppValue::Boolean(last)),
        );
        proof {
            assert(group@.attrs =~= orig.spec_attrs());
        }
        IppRequest {
            operation_code: OP_SEND_DOCUMENT,
            request_id,
            operation_attributes: group,
            payload: Option::Some(source),
        }
    }
}

/// The operation attributes of Print-Job: the optional requesting user, the
/// optional job name, then the extra attributes in call order.
pub open spec fn print_job_attrs(
    user: Option<Seq<char>>,
    job_name: Option<Seq<char>>,
    extras: Seq<AttrModel>,
) -> Seq<AttrModel> {
    (match user {
        Option::Some(u) => seq![
            AttrModel { name: "requesting-user-name"@, value: ValueModel::Text(u) },
        ],
        Option::None => Seq::empty(),
    }) + (match job_name {
        Option::Some(n) => seq![AttrModel { name: "job-name"@, value: ValueModel::Text(n) }],
        Option::None => Seq::empty(),
    }) + extras
}

/// Print-Job: submits one document in a single call, the one-step
/// equivalent of Create-Job followed by a last Send-Document.
pub struct PrintJob {
    source: DocumentSource,
    user_name: Option<String>,
    job_name: Option<String>,
    attributes: Vec<IppAttribute>,
}

impl PrintJob {
    /// A Print-Job operation over one document.
    pub fn new(source: DocumentSource, user_name: Option<String>, job_name: Option<String>) -> (r:
        PrintJob)
        ensures
            r.spec_payload() == Option::Some(source@),
            r.spec_attrs() == print_job_attrs(
                match user_name {
                    Option::Some(u) => Option::Some(u@),
                    Option::None => Option::<Seq<char>>::None,
                },
                match job_name {
                    Option::Some(n) => Option::Some(n@),
                    Option::None => Option::<Seq<char>>::None,
                },
                Seq::empty(),
            ),
    {
        let r = PrintJob { source, user_name, job_name, attributes: Vec::new() };
        proof {
            assert(crate::attribute::attr_models(r.attributes@) =~= Seq::<AttrModel>::empty());
        }
        r
    }

    /// Appends an extra job attribute; well-known attributes are never
    /// overwritten, a duplicate name is carried alongside.
    pub fn add_attribute(&mut self, a: IppAttribute)
        ensures
            final(self).spec_attrs() == old(self).spec_attrs().push(a@),
            final(self).spec_payload() == old(self).spec_payload(),
    {
        let ghost old_attrs = self.attributes@;
        self.attributes.push(a);
        proof {
            assert(crate::attribute::attr_models(self.attributes@)
                =~= crate::attribute::attr_models(old_attrs).push(a@));
            assert(self.spec_attrs() =~= old(self).spec_attrs().push(a@));
        }
    }

    /// The optional requesting user, as a model.
    pub closed spec fn user_model(&self) -> Option<Seq<char>> {
        match self.user_name {
            Option::Some(u) => Option::Some(u@),
            Option::None => Option::None,
        }
    }

    /// The optional job name, as a model.
    pub closed spec fn job_name_model(&self) -> Option<Seq<char>> {
        match self.job_name {
            Option::Some(n) => Option::Some(n@),
            Option::None => Option::None,
        }
    }
}

impl IppOperation for PrintJob {
    open spec fn spec_code(&self) -> u16 {
        OP_PRINT_JOB
    }

    closed spec fn spec_attrs(&self) -> Seq<AttrModel> {
        print_job_attrs(
            self.user_model(),
            self.job_name_model(),
            crate::attribute::attr_models(self.attributes@),
        )
    }

    closed spec fn spec_payload(&self) -> Option<Seq<u8>> {
        Option::Some(self.source@)
    }

    fn into_request(self, request_id: i32) -> (r: IppRequest) {
        let ghost orig = self;
        let mut group = AttributeGroup::new(DelimiterTag::OperationAttributes);
        let PrintJob { source, user_name, job_name, attributes } = self;
        match user_name {
            Option::Some(u) => {
                group.add_attribute(
                    IppAttribute::new(String::from_str("requesting-user-name"), IppValue::Text(u)),
                );
            },
            Option::None => {},
        }
        match job_name {
            Option::Some(n) => {
                group.add_attribute(
                    IppAttribute::new(String::from_str("job-name"), IppValue::Text(n)),
                );
            },
            Option::None => {},
        }
        let ghost base = group@.attrs;
        let mut j: usize = 0;
        proof {
            assert(base =~= print_job_attrs(
                orig.user_model(),
                orig.job_name_model(),
                Seq::empty(),
            ));
        }
        while j < attributes.len()
            invariant
                j <= attributes@.len(),
                group@.tag == DelimiterTag::OperationAttributes,
                group@.attrs =~= base + crate::attribute::attr_models(attributes@.take(j as int)),
            decreases attributes@.len() - j,
        {
            let a = attributes[j].clone_attr();
            group.add_attribute(a);
            proof {
                assert(crate::attribute::attr_models(attributes@.take(j + 1))
                    =~= crate::attribute::attr_models(attributes@.take(j as int)).push(
                    attributes@[j as int]@,
                ));
                assert(group@.attrs =~= base + crate::attribute::attr_models(
                    attributes@.take(j + 1),
                ));
            }
            j = j + 1;
        }
        proof {
            assert(attributes@.take(attributes@.len() as int) =~= attributes@);
            assert(group@.attrs =~= orig.spec_attrs());
        }
        IppRequest {
            operation_code: OP_PRINT_JOB,
            request_id,
            operation_attributes: group,
            payload: Option::Some(source),
        }
    }
}

} // verus!
