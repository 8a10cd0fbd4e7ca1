//! Fluent builders for the four IPP operations.  Setters consume and return
//! the builder; `build` consumes it and produces the immutable operation.
//! Builders never perform I/O; required-field validation happens at build
//! time, before any network call.

use vstd::prelude::*;
use vstd::string::StringExecFns;
use crate::attribute::{attr_models, AttrModel, IppAttribute};
use crate::error::IppError;
use crate::operation::{
    print_job_attrs, send_document_attrs, CreateJob, DocumentSource, GetPrinterAttributes,
    IppOperation, PrintJob, SendDocument,
};

verus! {

/// Entry point: builds a builder for each operation.
pub struct IppOperationBuilder;

impl IppOperationBuilder {
    /// Begins a Print-Job operation over the given document.
    pub fn print_job(source: DocumentSource) -> (r: PrintJobBuilder)
        ensures
            r.source_model() == source@,
            r.user_model() is None,
            r.title_model() is None,
            r.extras_model() == Seq::<AttrModel>::empty(),
    {
        PrintJobBuilder::new(source)
    }

    /// Begins a Get-Printer-Attributes operation.
    pub fn get_printer_attributes() -> (r: GetPrinterAttributesBuilder)
        ensures
            r.names_model() == Seq::<Seq<char>>::empty(),
    {
        GetPrinterAttributesBuilder::new()
    }

    /// Begins a Create-Job operation.
    pub fn create_job() -> (r: CreateJobBuilder)
        ensures
            r.job_name_model() is None,
            r.extras_model() == Seq::<AttrModel>::empty(),
    {
        CreateJobBuilder::new()
    }

    /// Begins a Send-Document operation for a job id returned by Create-Job.
    pub fn send_document(job_id: i32, source: DocumentSource) -> (r: SendDocumentBuilder)
        ensures
            r.job_id_model() == job_id as int,
            r.source_model() == source@,
            r.user_model() is None,
            r.last_model() == true,
    {
        SendDocumentBuilder::new(job_id, source)
    }
}

/// Builder for a Print-Job operation.
pub struct PrintJobBuilder {
    source: DocumentSource,
    user_name: Option<String>,
    job_title: Option<String>,
    attributes: Vec<IppAttribute>,
}

impl PrintJobBuilder {
    fn new(source: DocumentSource) -> (r: PrintJobBuilder)
        ensures
            r.source_model() == source@,
            r.user_model() is None,
            r.title_model() is None,
            r.extras_model() == Seq::<AttrModel>::empty(),
    {
        let r = PrintJobBuilder {
            source,
            user_name: Option::None,
            job_title: Option::None,
            attributes: Vec::new(),
        };
        proof {
            assert(r.extras_model() =~= Seq::<AttrModel>::empty());
        }
        r
    }

    /// The document bytes.
    pub closed spec fn source_model(&self) -> Seq<u8> {
        self.source@
    }

    /// The requesting-user-name set so far.
    pub closed spec fn user_model(&self) -> Option<Seq<char>> {
        match self.user_name {
            Option::Some(u) => Option::Some(u@),
            Option::None => Option::None,
        }
    }

    /// The job-name set so far.
    pub closed spec fn title_model(&self) -> Option<Seq<char>> {
        match self.job_title {
            Option::Some(t) => Option::Some(t@),
            Option::None => Option::None,
        }
    }

    /// The extra attributes set so far, in call order.
    pub closed spec fn extras_model(&self) -> Seq<AttrModel> {
        attr_models(self.attributes@)
    }

    /// Sets the requesting-user-name attribute.
    pub fn user_name(self, user_name: &str) -> (r: Self)
        ensures
            r.user_model() == Option::Some(user_name@),
            r.title_model() == self.title_model(),
            r.extras_model() == self.extras_model(),
            r.source_model() == self.source_model(),
    {
        PrintJobBuilder { user_name: Option::Some(user_name.to_owned()), ..self }
    }

    /// Sets the job-name attribute.
    pub fn job_title(self, job_title: &str) -> (r: Self)
        ensures
            r.title_model() == Option::Some(job_title@),
            r.user_model() == self.user_model(),
            r.extras_model() == self.extras_model(),
            r.source_model() == self.source_model(),
    {
        PrintJobBuilder { job_title: Option::Some(job_title.to_owned()), ..self }
    }

    /// Appends a custom job attribute; may be repeated.
    pub fn attribute(self, attribute: IppAttribute) -> (r: Self)
        ensures
            r.extras_model() == self.extras_model().push(attribute@),
            r.user_model() == self.user_model(),
            r.title_model() == self.title_model(),
            r.source_model() == self.source_model(),
    {
        let ghost old_attrs = self.attributes@;
        let mut attributes = self.attributes;
        attributes.push(attribute);
        proof {
            assert(attr_models(attributes@) =~= attr_models(old_attrs).push(attribute@));
        }
        PrintJobBuilder {
            source: self.source,
            user_name: self.user_name,
            job_title: self.job_title,
            attributes,
        }
    }

    /// Builds the operation: the well-known attributes first, then the extra
    /// attributes in call order.
    pub fn build(self) -> (r: PrintJob)
        ensures
            r.spec_attrs() == print_job_attrs(
                self.user_model(),
                self.title_model(),
                self.extras_model(),
            ),
            r.spec_payload() == Option::Some(self.source_model()),
    {
        let ghost orig = self;
        let PrintJobBuilder { source, user_name, job_title, attributes } = self;
        let mut op = PrintJob::new(source, user_name, job_title);
        let mut j: usize = 0;
        proof {
            assert(print_job_attrs(orig.user_model(), orig.title_model(), Seq::empty())
                + attr_models(attributes@.take(0)) =~= op.spec_attrs());
        }
        while j < attributes.len()
            invariant
                j <= attributes@.len(),
                op.spec_attrs() =~= print_job_attrs(
                    orig.user_model(),
                    orig.title_model(),
                    Seq::empty(),
                ) + attr_models(attributes@.take(j as int)),
                op.spec_payload() == Option::Some(orig.source_model()),
            decreases attributes@.len() - j,
        {
            let a = attributes[j].clone_attr();
            op.add_attribute(a);
            proof {
                assert(attr_models(attributes@.take(j + 1)) =~= attr_models(
                    attributes@.take(j as int),
                ).push(attributes@[j as int]@));
            }
            j = j + 1;
        }
        proof {
            assert(attributes@.take(attributes@.len() as int) =~= attributes@);
            assert(op.spec_attrs() =~= print_job_attrs(
                orig.user_model(),
                orig.title_model(),
                orig.extras_model(),
            ));
        }
        op
    }
}

/// Builder for a Get-Printer-Attributes operation.
pub struct GetPrinterAttributesBuilder {
    attributes: Vec<String>,
}

impl GetPrinterAttributesBuilder {
    fn new() -> (r: GetPrinterAttributesBuilder)
        ensures
            r.names_model() == Seq::<Seq<char>>::empty(),
    {
        let r = GetPrinterAttributesBuilder { attributes: Vec::new() };
        proof {
            assert(r.names_model() =~= Seq::<Seq<char>>::empty());
        }
        r
    }

    /// The attribute names requested so far, in order.
    pub closed spec fn names_model(&self) -> Seq<Seq<char>> {
        self.attributes@.map(|i: int, s: String| s@)
    }

    /// Requests one more attribute; may be repeated.
    pub fn attribute(self, attribute: &str) -> (r: Self)
        ensures
            r.names_model() == self.names_model().push(attribute@),
    {
        let ghost old_names = self.attributes@;
        let mut attributes = self.attributes;
        attributes.push(attribute.to_owned());
        proof {
            assert(attributes@.map(|i: int, s: String| s@) =~= old_names.map(
                |i: int, s: String| s@,
            ).push(attribute@));
        }
        GetPrinterAttributesBuilder { attributes }
    }

    /// Requests all the given attributes, in order.
    pub fn attributes(self, attributes: &Vec<String>) -> (r: Self)
        ensures
            r.names_model() == self.names_model() + attributes@.map(|i: int, s: String| s@),
    {
        let ghost base = self.attributes@;
        let mut names = self.attributes;
        let mut j: usize = 0;
        proof {
            assert(names@.map(|i: int, s: String| s@) =~= base.map(|i: int, s: String| s@)
                + attributes@.take(0).map(|i: int, s: String| s@));
        }
        while j < attributes.len()
            invariant
                j <= attributes@.len(),
                names@.map(|i: int, s: String| s@) =~= base.map(|i: int, s: String| s@)
                    + attributes@.take(j as int).map(|i: int, s: String| s@),
            decreases attributes@.len() - j,
        {
            let ghost old_names = names@;
            names.push(attributes[j].clone());
            proof {
                assert(names@.map(|i: int, s: String| s@) =~= old_names.map(
                    |i: int, s: String| s@,
                ).push(attributes@[j as int]@));
                assert(attributes@.take(j + 1).map(|i: int, s: String| s@) =~= attributes@.take(
                    j as int,
                ).map(|i: int, s: String| s@).push(attributes@[j as int]@));
            }
            j = j + 1;
        }
        proof {
            assert(attributes@.take(attributes@.len() as int) =~= attributes@);
        }
        GetPrinterAttributesBuilder { attributes: names }
    }

    /// Builds the operation, requesting exactly the accumulated names.
    pub fn build(self) -> (r: GetPrinterAttributes)
        ensures
            r.names_model() == self.names_model(),
    {
        GetPrinterAttributes::with_attributes(self.attributes)
    }
}

/// Builder for a Create-Job operation.
pub struct CreateJobBuilder {
    job_name: Option<String>,
    attributes: Vec<IppAttribute>,
}

impl CreateJobBuilder {
    fn new() -> (r: CreateJobBuilder)
        ensures
            r.job_name_model() is None,
            r.extras_model() == Seq::<AttrModel>::empty(),
    {
        let r = CreateJobBuilder { job_name: Option::None, attributes: Vec::new() };
        proof {
            assert(r.extras_model() =~= Seq::<AttrModel>::empty());
        }
        r
    }

    /// The job-name set so far.
    pub closed spec fn job_name_model(&self) -> Option<Seq<char>> {
        match self.job_name {
            Option::Some(n) => Option::Some(n@),
            Option::None => Option::None,
        }
    }

    /// The extra attributes set so far, in call order.
    pub closed spec fn extras_model(&self) -> Seq<AttrModel> {
        attr_models(self.attributes@)
    }

    /// Sets the job-name attribute.
    pub fn job_name(self, job_name: &str) -> (r: Self)
        ensures
            r.job_name_model() == Option::Some(job_name@),
            r.extras_model() == self.extras_model(),
    {
        CreateJobBuilder { job_name: Option::Some(job_name.to_owned()), ..self }
    }

    /// Appends a custom job attribute; may be repeated.
    pub fn attribute(self, attribute: IppAttribute) -> (r: Self)
        ensures
            r.extras_model() == self.extras_model().push(attribute@),
            r.job_name_model() == self.job_name_model(),
    {
        let ghost old_attrs = self.attributes@;
        let mut attributes = self.attributes;
        attributes.push(attribute);
        proof {
            assert(attr_models(attributes@) =~= attr_models(old_attrs).push(attribute@));
        }
        CreateJobBuilder { job_name: self.job_name, attributes }
    }

    /// Builds the operation: the job-name first if set, then the extra
    /// attributes in call order.
    pub fn build(self) -> (r: CreateJob)
        ensures
            r.spec_attrs() == (match self.job_name_model() {
                Option::Some(n) => seq![
                    AttrModel {
                        name: "job-name"@,
                        value: crate::value::ValueModel::Text(n),
                    },
                ],
                Option::None => Seq::<AttrModel>::empty(),
            }) + self.extras_model(),
    {
        let ghost orig = self;
        let CreateJobBuilder { job_name, attributes } = self;
        let mut op = CreateJob::new(job_name);
        let ghost base = op.spec_attrs();
        let mut j: usize = 0;
        while j < attributes.len()
            invariant
                j <= attributes@.len(),
                op.spec_attrs() =~= base + attr_models(attributes@.take(j as int)),
            decreases attributes@.len() - j,
        {
            let a = attributes[j].clone_attr();
            op.add_attribute(a);
            proof {
                assert(attr_models(attributes@.take(j + 1)) =~= attr_models(
                    attributes@.take(j as int),
                ).push(attributes@[j as int]@));
            }
            j = j + 1;
        }
        proof {
            assert(attributes@.take(attributes@.len() as int) =~= attributes@);
            assert(op.spec_attrs() =~= base + orig.extras_model());
        }
        op
    }
}

/// Builder for a Send-Document operation.
pub struct SendDocumentBuilder {
    job_id: i32,
    source: DocumentSource,
    user_name: Option<String>,
    is_last: bool,
}

impl SendDocumentBuilder {
    fn new(job_id: i32, source: DocumentSource) -> (r: SendDocumentBuilder)
        ensures
            r.job_id_model() == job_id as int,
            r.source_model() == source@,
            r.user_model() is None,
            r.last_model() == true,
    {
        SendDocumentBuilder { job_id, source, user_name: Option::None, is_last: true }
    }

    /// The job id this document is for.
    pub closed spec fn job_id_model(&self) -> int {
        self.job_id as int
    }

    /// The document bytes.
    pub closed spec fn source_model(&self) -> Seq<u8> {
        self.source@
    }

    /// The requesting-user-name set so far.
    pub closed spec fn user_model(&self) -> Option<Seq<char>> {
        match self.user_name {
            Option::Some(u) => Option::Some(u@),
            Option::None => Option::None,
        }
    }

    /// Whether this document is marked as the job's last.
    pub closed spec fn last_model(&self) -> bool {
        self.is_last
    }

    /// Sets the requesting-user-name attribute.
    pub fn user_name(self, user_name: &str) -> (r: Self)
        ensures
            r.user_model() == Option::Some(user_name@),
            r.job_id_model() == self.job_id_model(),
            r.source_model() == self.source_model(),
            r.last_model() == self.last_model(),
    {
        SendDocumentBuilder { user_name: Option::Some(user_name.to_owned()), ..self }
    }

    /// Marks whether this document is the job's last; the default is true.
    pub fn last(self, last: bool) -> (r: Self)
        ensures
            r.last_model() == last,
            r.job_id_model() == self.job_id_model(),
            r.source_model() == self.source_model(),
            r.user_model() == self.user_model(),
    {
        SendDocumentBuilder { is_last: last, ..self }
    }

    /// Builds the operation.  A non-positive job id is rejected here, before
    /// any network call, as a validation error.
    pub fn build(self) -> (r: Result<SendDocument, IppError>)
        ensures
            r is Ok <==> self.job_id_model() >= 1,
            r matches Ok(op) ==> {
                &&& op.spec_attrs() == send_document_attrs(
                    self.job_id_model(),
                    self.user_model(),
                    self.last_model(),
                )
                &&& op.spec_payload() == Option::Some(self.source_model())
                &&& op.job_id_model() == self.job_id_model()
                &&& op.last_model() == self.last_model()
            },
            r matches Err(e) ==> e is Validation,
    {
        if self.job_id < 1 {
            return Result::Err(
                IppError::Validation(String::from_str("job-id must be positive")),
            );
        }
        let SendDocumentBuilder { job_id, source, user_name, is_last } = self;
        Result::Ok(SendDocument::new(job_id, source, user_name, is_last))
    }
}

} // verus!
