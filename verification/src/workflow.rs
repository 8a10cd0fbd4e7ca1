//! The job workflow layer: the printer-state precondition check, job-id
//! extraction, option-text parsing, display lines, and the ordered
//! multi-document send sequence of one print intent.

use vstd::prelude::*;
use vstd::string::StrSliceExecFns;
use vstd::string::StringExecFns;
use crate::attribute::{
    attr_models, AttrModel, DelimiterTag, GroupModel, IppAttribute, Response, groups_with_tag,
    response_get,
};
use crate::error::IppError;
use crate::operation::PrinterState;
use crate::strutil::str_eq;
use crate::value::{IppValue, ValueModel};

verus! {

/// The views of a vector of strings, in order.
pub open spec fn texts(vs: Seq<String>) -> Seq<Seq<char>> {
    vs.map(|i: int, s: String| s@)
}

/// The fixed deny-list: a printer reporting any of these state-reason
/// keywords is not ready to print.
pub open spec fn spec_deny_listed(k: Seq<char>) -> bool {
    ||| k == "media-jam"@
    ||| k == "toner-empty"@
    ||| k == "spool-area-full"@
    ||| k == "cover-open"@
    ||| k == "door-open"@
    ||| k == "input-tray-missing"@
    ||| k == "output-tray-missing"@
    ||| k == "marker-supply-empty"@
    ||| k == "paused"@
    ||| k == "shutdown"@
}

/// Whether a state-reason keyword is on the deny-list.
pub fn deny_listed(k: &str) -> (r: bool)
    ensures
        r == spec_deny_listed(k@),
{
    str_eq(k, "media-jam") || str_eq(k, "toner-empty") || str_eq(k, "spool-area-full") || str_eq(
        k,
        "cover-open",
    ) || str_eq(k, "door-open") || str_eq(k, "input-tray-missing") || str_eq(
        k,
        "output-tray-missing",
    ) || str_eq(k, "marker-supply-empty") || str_eq(k, "paused") || str_eq(k, "shutdown")
}

/// The keyword texts among a list's element models, in order.
pub open spec fn keyword_texts(items: Seq<ValueModel>) -> Seq<Seq<char>>
    decreases items.len(),
{
    if items.len() == 0 {
        Seq::empty()
    } else {
        keyword_texts(items.drop_last()) + (match items.last() {
            ValueModel::Keyword(k) => seq![k],
            _ => Seq::empty(),
        })
    }
}

/// The state-reason keywords a printer-state-reasons value carries: the
/// keywords of a list, a single keyword, nothing otherwise.
pub open spec fn spec_reason_keywords(m: ValueModel) -> Seq<Seq<char>> {
    match m {
        ValueModel::List(items) => keyword_texts(items),
        ValueModel::Keyword(k) => seq![k],
        _ => Seq::empty(),
    }
}

proof fn lemma_keyword_texts_push(items: Seq<ValueModel>, m: ValueModel)
    ensures
        keyword_texts(items.push(m)) == keyword_texts(items) + (match m {
            ValueModel::Keyword(k) => seq![k],
            _ => Seq::empty(),
        }),
{
    assert(items.push(m).drop_last() =~= items);
}

/// Collects the state-reason keywords of a value.
fn reason_keywords(v: &IppValue) -> (r: Vec<String>)
    ensures
        texts(r@) == spec_reason_keywords(v@),
{
    match v {
        IppValue::Keyword(k) => {
            let mut r: Vec<String> = Vec::new();
            r.push(k.clone());
            proof {
                assert(texts(r@) =~= seq![k@]);
            }
            r
        },
        IppValue::ListOf(items) => {
            let mut r: Vec<String> = Vec::new();
            let mut j: usize = 0;
            proof {
                assert(texts(r@) =~= keyword_texts(crate::value::elem_models(
                    items@.take(0),
                )));
            }
            while j < items.len()
                invariant
                    j <= items@.len(),
                    texts(r@) =~= keyword_texts(crate::value::elem_models(
                        items@.take(j as int),
                    )),
                decreases items@.len() - j,
            {
                proof {
                    assert(items@.take(j + 1) =~= items@.take(j as int).push(
                        items@[j as int],
                    ));
                    assert(crate::value::elem_models(items@.take(j + 1))
                        =~= crate::value::elem_models(items@.take(j as int)).push(
                        crate::value::elem_model(items@[j as int]),
                    ));
                    lemma_keyword_texts_push(
                        crate::value::elem_models(items@.take(j as int)),
                        crate::value::elem_model(items@[j as int]),
                    );
                }
                let item = &items[j];
                match item {
                    IppValue::Keyword(k) => {
                        let ghost old_r = r@;
                        r.push(k.clone());
                        proof {
                            assert(texts(r@) =~= texts(old_r).push(k@));
                        }
                    },
                    _ => {},
                }
                j = j + 1;
            }
            proof {
                assert(items@.take(items@.len() as int) =~= items@);
            }
            r
        },
        _ => Vec::new(),
    }
}

/// Some keyword in the list is deny-listed.
pub open spec fn spec_any_denied(ks: Seq<Seq<char>>) -> bool {
    exists|i: int| 0 <= i < ks.len() && spec_deny_listed(ks[i])
}

/// Whether any collected keyword is on the deny-list.
fn any_denied(ks: &Vec<String>) -> (r: bool)
    ensures
        r == spec_any_denied(texts(ks@)),
{
    let mut j: usize = 0;
    while j < ks.len()
        invariant
            j <= ks@.len(),
            forall|i: int| 0 <= i < j ==> !spec_deny_listed(texts(ks@)[i]),
        decreases ks@.len() - j,
    {
        if deny_listed(ks[j].as_str()) {
            proof {
                assert(spec_deny_listed(texts(ks@)[j as int]));
            }
            return true;
        }
        j = j + 1;
    }
    false
}

/// The precheck response reports the printer stopped.
pub open spec fn spec_printer_stopped(gs: Seq<GroupModel>) -> bool {
    match response_get(gs, DelimiterTag::PrinterAttributes, "printer-state"@) {
        Option::Some(a) => a.value matches ValueModel::Enum(e) && e == 5,
        Option::None => false,
    }
}

/// The state-reason keywords the precheck response reports.
pub open spec fn spec_state_reasons(gs: Seq<GroupModel>) -> Seq<Seq<char>> {
    match response_get(gs, DelimiterTag::PrinterAttributes, "printer-state-reasons"@) {
        Option::Some(a) => spec_reason_keywords(a.value),
        Option::None => Seq::empty(),
    }
}

/// What a precheck failure must carry: the reason `stopped` when the
/// printer-state enum says stopped, else all reported state-reason keywords
/// verbatim, at least one of them deny-listed.
pub open spec fn spec_blocked(gs: Seq<GroupModel>, ks: Seq<Seq<char>>) -> bool {
    if spec_printer_stopped(gs) {
        ks == seq!["stopped"@]
    } else {
        spec_any_denied(spec_state_reasons(gs)) && ks == spec_state_reasons(gs)
    }
}

/// The printer-state precondition check over a Get-Printer-Attributes
/// response: blocked when the printer-state enum says stopped, carrying the
/// reason `stopped`; else blocked when any reported state-reason keyword is
/// deny-listed, carrying all reported keywords verbatim; ready otherwise.
pub fn check_printer_state(resp: &Response) -> (r: Result<(), IppError>)
    ensures
        match r {
            Result::Ok(_) => !spec_printer_stopped(resp@) && !spec_any_denied(
                spec_state_reasons(resp@),
            ),
            Result::Err(e) => e matches IppError::PrinterState(ks) && spec_blocked(
                resp@,
                texts(ks@),
            ),
        },
{
    match resp.get(DelimiterTag::PrinterAttributes, "printer-state") {
        Option::Some(a) => {
            match a.value() {
                IppValue::Enum(e) => {
                    match PrinterState::from_code(*e) {
                        Option::Some(PrinterState::Stopped) => {
                            let mut ks: Vec<String> = Vec::new();
                            ks.push(String::from_str("stopped"));
                            proof {
                                assert(texts(ks@) =~= seq!["stopped"@]);
                            }
                            return Result::Err(IppError::PrinterState(ks));
                        },
                        _ => {},
                    }
                },
                _ => {},
            }
        },
        Option::None => {},
    }
    match resp.get(DelimiterTag::PrinterAttributes, "printer-state-reasons") {
        Option::Some(a) => {
            let ks = reason_keywords(a.value());
            if any_denied(&ks) {
                return Result::Err(IppError::PrinterState(ks));
            }
        },
        Option::None => {},
    }
    Result::Ok(())
}

/// The job id a Create-Job response carries, when its job-attributes group
/// holds an integer job-id.
pub open spec fn spec_job_id(gs: Seq<GroupModel>) -> Option<int> {
    match response_get(gs, DelimiterTag::JobAttributes, "job-id"@) {
        Option::Some(a) => match a.value {
            ValueModel::Integer(i) => Option::Some(i),
            _ => Option::None,
        },
        Option::None => Option::None,
    }
}

/// Extracts the assigned job id from a Create-Job response.  A missing or
/// non-integer job-id is a protocol-contract violation, fatal for the
/// workflow instance.
pub fn extract_job_id(resp: &Response) -> (r: Result<i32, IppError>)
    ensures
        match r {
            Result::Ok(id) => spec_job_id(resp@) == Option::Some(id as int),
            Result::Err(e) => spec_job_id(resp@) is None && e is Protocol,
        },
{
    match resp.get(DelimiterTag::JobAttributes, "job-id") {
        Option::Some(a) => {
            match a.value() {
                IppValue::Integer(i) => Result::Ok(*i),
                _ => Result::Err(
                    IppError::Protocol(String::from_str("job-id is not an integer")),
                ),
            }
        },
        Option::None => Result::Err(
            IppError::Protocol(String::from_str("no job-id in job attributes")),
        ),
    }
}

/// The position of the first equals sign at or after `i`, or the length.
pub open spec fn find_eq(s: Seq<char>, i: int) -> int
    decreases s.len() - i,
{
    if i < 0 || i >= s.len() {
        s.len() as int
    } else if s[i] == '=' {
        i
    } else {
        find_eq(s, i + 1)
    }
}

/// What parsing a `key=value` option text yields: nothing without an equals
/// sign; else the key before the first equals sign, and the value parsed
/// from the text between the first and second equals signs.
pub open spec fn spec_parse_option(s: Seq<char>) -> Option<AttrModel> {
    let k = find_eq(s, 0);
    if k == s.len() {
        Option::None
    } else {
        Option::Some(
            AttrModel {
                name: s.take(k),
                value: crate::value::spec_parse(s.subrange(k + 1, find_eq(s, k + 1))),
            },
        )
    }
}

/// Finds the first equals sign at or after `from`.
fn find_eq_at(s: &str, from: usize) -> (r: usize)
    requires
        from <= s@.len(),
    ensures
        r as int == find_eq(s@, from as int),
        from <= r <= s@.len(),
{
    let len = s.unicode_len();
    let mut i = from;
    while i < len
        invariant
            from <= i <= len,
            len == s@.len(),
            find_eq(s@, from as int) == find_eq(s@, i as int),
        decreases len - i,
    {
        if s.get_char(i) == '=' {
            return i;
        }
        i = i + 1;
    }
    i
}

/// Parses an extra-attribute option of the form `key=value`.  The value is
/// inferred as an integer when numeric, a boolean for the literal boolean
/// words, else a keyword.  Text without an equals sign is ignored.
pub fn parse_option(arg: &str) -> (r: Option<IppAttribute>)
    ensures
        match r {
            Option::Some(a) => spec_parse_option(arg@) == Option::Some(a@),
            Option::None => spec_parse_option(arg@) is None,
        },
{
    let len = arg.unicode_len();
    let k = find_eq_at(arg, 0);
    if k == len {
        return Option::None;
    }
    let e = find_eq_at(arg, k + 1);
    let key = arg.substring_char(0, k);
    let vtext = arg.substring_char(k + 1, e);
    let value = crate::value::parse_text(vtext);
    proof {
        assert(key@ =~= arg@.take(k as int));
    }
    Option::Some(IppAttribute::new(key.to_owned(), value))
}

/// The display line of an attribute: its name, a colon and a space, and its
/// rendered value.
pub open spec fn spec_attr_line(a: AttrModel) -> Seq<char> {
    a.name + seq![':', ' '] + crate::value::spec_render(a.value)
}

/// The display lines of an attribute sequence, in order.
pub open spec fn spec_attr_lines(attrs: Seq<AttrModel>) -> Seq<Seq<char>> {
    attrs.map(|i: int, a: AttrModel| spec_attr_line(a))
}

/// Renders one attribute's display line.
pub fn attr_line(a: &IppAttribute) -> (r: String)
    ensures
        r@ == spec_attr_line(a@),
{
    let mut r = String::new();
    r.append(a.name().as_str());
    let sep: &str = ": ";
    proof {
        reveal_strlit(": ");
        assert(sep@ =~= seq![':', ' ']);
    }
    r.append(sep);
    let v = crate::value::render_value(a.value());
    r.append(v.as_str());
    r
}

/// Renders the display lines of the given attributes, in order.
pub fn attr_lines(attrs: &Vec<IppAttribute>) -> (r: Vec<String>)
    ensures
        texts(r@) == spec_attr_lines(attr_models(attrs@)),
{
    let mut r: Vec<String> = Vec::new();
    let mut j: usize = 0;
    proof {
        assert(texts(r@) =~= spec_attr_lines(attr_models(attrs@.take(0))));
    }
    while j < attrs.len()
        invariant
            j <= attrs@.len(),
            texts(r@) =~= spec_attr_lines(attr_models(attrs@.take(j as int))),
        decreases attrs@.len() - j,
    {
        let line = attr_line(&attrs[j]);
        let ghost old_r = r@;
        r.push(line);
        proof {
            assert(attrs@.take(j + 1) =~= attrs@.take(j as int).push(attrs@[j as int]));
            assert(texts(r@) =~= texts(old_r).push(spec_attr_line(attrs@[j as int]@)));
            assert(spec_attr_lines(attr_models(attrs@.take(j + 1))) =~= spec_attr_lines(
                attr_models(attrs@.take(j as int)),
            ).push(spec_attr_line(attrs@[j as int]@)));
        }
        j = j + 1;
    }
    proof {
        assert(attrs@.take(attrs@.len() as int) =~= attrs@);
    }
    r
}

/// The attribute models are ordered by name.
pub open spec fn sorted_by_name(s: Seq<AttrModel>) -> bool {
    forall|i: int, j: int|
        0 <= i < j < s.len() ==> crate::strutil::lex_le(
            (#[trigger] s[i]).name,
            (#[trigger] s[j]).name,
        )
}

/// Sorts attributes by name for display: the result holds the same
/// attributes and is ordered by name.
pub fn sort_attrs_by_name(attrs: Vec<IppAttribute>) -> (r: Vec<IppAttribute>)
    ensures
        attr_models(r@).to_multiset() == attr_models(attrs@).to_multiset(),
        sorted_by_name(attr_models(r@)),
{
    broadcast use vstd::seq_lib::group_to_multiset_ensures;
    broadcast use vstd::multiset::group_multiset_axioms;

    let mut src = attrs;
    let mut out: Vec<IppAttribute> = Vec::new();
    let ghost orig = attr_models(src@).to_multiset();
    proof {
        assert(attr_models(out@) =~= Seq::<AttrModel>::empty());
        assert(attr_models(out@).to_multiset().add(attr_models(src@).to_multiset())
            =~= orig);
    }
    while src.len() > 0
        invariant
            attr_models(out@).to_multiset().add(attr_models(src@).to_multiset()) == orig,
            sorted_by_name(attr_models(out@)),
            forall|i: int, j: int|
                0 <= i < out@.len() && 0 <= j < src@.len() ==> crate::strutil::lex_le(
                    (#[trigger] attr_models(out@)[i]).name,
                    (#[trigger] attr_models(src@)[j]).name,
                ),
        decreases src@.len(),
    {
        let mut m: usize = 0;
        let mut k: usize = 1;
        proof {
            crate::strutil::lemma_lex_le_total(
                attr_models(src@)[0].name,
                attr_models(src@)[0].name,
            );
        }
        while k < src.len()
            invariant
                src@.len() > 0,
                m < src@.len(),
                1 <= k <= src@.len(),
                forall|t: int|
                    0 <= t < k ==> crate::strutil::lex_le(
                        attr_models(src@)[m as int].name,
                        (#[trigger] attr_models(src@)[t]).name,
                    ),
            decreases src@.len() - k,
        {
            if crate::strutil::str_le(src[k].name().as_str(), src[m].name().as_str()) {
                proof {
                    assert forall|t: int| 0 <= t < k + 1 implies crate::strutil::lex_le(
                        attr_models(src@)[k as int].name,
                        (#[trigger] attr_models(src@)[t]).name,
                    ) by {
                        if t < k {
                            crate::strutil::lemma_lex_le_trans(
                                attr_models(src@)[k as int].name,
                                attr_models(src@)[m as int].name,
                                attr_models(src@)[t].name,
                            );
                        } else {
                            crate::strutil::lemma_lex_le_total(
                                attr_models(src@)[k as int].name,
                                attr_models(src@)[k as int].name,
                            );
                        }
                    }
                }
                m = k;
            } else {
                proof {
                    crate::strutil::lemma_lex_le_total(
                        attr_models(src@)[m as int].name,
                        attr_models(src@)[k as int].name,
                    );
                }
            }
            k = k + 1;
        }
        let ghost old_src = src@;
        let ghost old_out = out@;
        let a = src.remove(m);
        out.push(a);
        proof {
            let s_old = attr_models(old_src);
            let o_old = attr_models(old_out);
            s_old.to_multiset_ensures();
            o_old.to_multiset_ensures();
            assert(s_old[m as int] == old_src[m as int]@);
            assert(attr_models(src@) =~= s_old.remove(m as int));
            assert(attr_models(out@) =~= o_old.push(a@));
            assert(a@ == s_old[m as int]);
            assert(s_old.remove(m as int).to_multiset() =~= s_old.to_multiset().remove(
                s_old[m as int],
            ));
            assert(o_old.push(a@).to_multiset() =~= o_old.to_multiset().insert(a@));
            assert(s_old.contains(a@));
            assert(s_old.to_multiset().contains(a@));
            assert(attr_models(out@).to_multiset().add(attr_models(src@).to_multiset())
                =~= orig);
            assert forall|i: int, j: int|
                0 <= i < out@.len() && 0 <= j < src@.len() implies crate::strutil::lex_le(
                (#[trigger] attr_models(out@)[i]).name,
                (#[trigger] attr_models(src@)[j]).name,
            ) by {
                let jj = if j < m { j } else { j + 1 };
                assert(attr_models(src@)[j] == attr_models(old_src)[jj]);
                if i < old_out.len() {
                    assert(crate::strutil::lex_le(
                        attr_models(old_out)[i].name,
                        attr_models(old_src)[jj].name,
                    ));
                } else {
                    assert(crate::strutil::lex_le(a@.name, attr_models(old_src)[jj].name));
                }
            }
            assert forall|i: int, j: int| 0 <= i < j < attr_models(out@).len() implies
                crate::strutil::lex_le(
                (#[trigger] attr_models(out@)[i]).name,
                (#[trigger] attr_models(out@)[j]).name,
            ) by {
                if j < old_out.len() {
                } else {
                    assert(attr_models(out@)[j] == a@);
                    assert(crate::strutil::lex_le(attr_models(old_out)[i].name, a@.name));
                }
            }
        }
    }
    proof {
        assert(attr_models(src@) =~= Seq::<AttrModel>::empty());
        assert(attr_models(out@).to_multiset().add(attr_models(src@).to_multiset())
            =~= attr_models(out@).to_multiset());
    }
    out
}

/// The display lines of a Print-Job or Create-Job response: the first
/// job-attributes group's attributes in response order, or nothing.
pub fn job_lines(resp: &Response) -> (r: Vec<String>)
    ensures
        groups_with_tag(resp@, DelimiterTag::JobAttributes).len() > 0 ==> texts(r@)
            == spec_attr_lines(groups_with_tag(resp@, DelimiterTag::JobAttributes)[0].attrs),
        groups_with_tag(resp@, DelimiterTag::JobAttributes).len() == 0 ==> r@.len() == 0,
{
    match resp.first_group_of(DelimiterTag::JobAttributes) {
        Option::Some(g) => attr_lines(g.values()),
        Option::None => Vec::new(),
    }
}

/// The display lines of a Get-Printer-Attributes response for status
/// output: the first printer-attributes group's attributes sorted by name,
/// or nothing.
pub fn status_lines(resp: &Response) -> (r: Vec<String>)
    ensures
        groups_with_tag(resp@, DelimiterTag::PrinterAttributes).len() > 0 ==> exists|
            t: Seq<AttrModel>,
        |
            {
                &&& t.to_multiset() == groups_with_tag(
                    resp@,
                    DelimiterTag::PrinterAttributes,
                )[0].attrs.to_multiset()
                &&& sorted_by_name(t)
                &&& texts(r@) == spec_attr_lines(t)
            },
        groups_with_tag(resp@, DelimiterTag::PrinterAttributes).len() == 0 ==> r@.len() == 0,
{
    match resp.first_group_of(DelimiterTag::PrinterAttributes) {
        Option::Some(g) => {
            let mut copies: Vec<IppAttribute> = Vec::new();
            let vs = g.values();
            let mut j: usize = 0;
            proof {
                assert(attr_models(copies@) =~= attr_models(vs@.take(0)));
            }
            while j < vs.len()
                invariant
                    j <= vs@.len(),
                    attr_models(copies@) =~= attr_models(vs@.take(j as int)),
                decreases vs@.len() - j,
            {
                let c = vs[j].clone_attr();
                copies.push(c);
                proof {
                    assert(attr_models(vs@.take(j + 1)) =~= attr_models(vs@.take(j as int)).push(
                        vs@[j as int]@,
                    ));
                    assert(attr_models(copies@) =~= attr_models(vs@.take(j + 1)));
                }
                j = j + 1;
            }
            proof {
                assert(vs@.take(vs@.len() as int) =~= vs@);
            }
            let sorted = sort_attrs_by_name(copies);
            let lines = attr_lines(&sorted);
            proof {
                let t = attr_models(sorted@);
                assert(t.to_multiset() == groups_with_tag(
                    resp@,
                    DelimiterTag::PrinterAttributes,
                )[0].attrs.to_multiset());
            }
            lines
        },
        Option::None => Vec::new(),
    }
}

/// The parameters of one Send-Document call within a workflow.
pub struct SendStep {
    pub job_id: i32,
    pub index: usize,
    pub last: bool,
}

/// The ordered multi-document send sequence of one print intent: documents
/// go out one at a time, in order, sharing one job id, the final one marked
/// last; the first failure aborts the remainder.
pub struct JobWorkflow {
    job_id: i32,
    total: usize,
    sent: usize,
    failed: bool,
}

impl JobWorkflow {
    /// The job id every send of this workflow carries.
    pub closed spec fn job_id_model(&self) -> int {
        self.job_id as int
    }

    /// How many documents the job has.
    pub closed spec fn total_model(&self) -> int {
        self.total as int
    }

    /// How many documents have been sent and acknowledged.
    pub closed spec fn sent_model(&self) -> int {
        self.sent as int
    }

    /// Whether a step failed; failure is final for the workflow.
    pub closed spec fn failed_model(&self) -> bool {
        self.failed
    }

    /// The workflow's invariant.
    pub open spec fn wf(&self) -> bool {
        &&& self.job_id_model() >= 1
        &&& self.total_model() >= 1
        &&& self.sent_model() <= self.total_model()
    }

    /// A workflow for a created job with a known number of documents.
    pub fn new(job_id: i32, total: usize) -> (r: JobWorkflow)
        requires
            job_id >= 1,
            total >= 1,
        ensures
            r.wf(),
            r.job_id_model() == job_id as int,
            r.total_model() == total as int,
            r.sent_model() == 0,
            !r.failed_model(),
    {
        JobWorkflow { job_id, total, sent: 0, failed: false }
    }

    /// The next Send-Document call to issue: the shared job id, the next
    /// document index, and the last flag exactly on the final document.
    /// Nothing remains after a failure or once every document is sent.
    pub fn next_document(&self) -> (r: Option<SendStep>)
        requires
            self.wf(),
        ensures
            (r is Some) == (!self.failed_model() && self.sent_model() < self.total_model()),
            r matches Some(p) ==> {
                &&& p.job_id as int == self.job_id_model()
                &&& p.index as int == self.sent_model()
                &&& p.last == (self.sent_model() + 1 == self.total_model())
                &&& p.job_id >= 1
            },
    {
        if self.failed || self.sent >= self.total {
            Option::None
        } else {
            Option::Some(
                SendStep {
                    job_id: self.job_id,
                    index: self.sent,
                    last: self.sent + 1 == self.total,
                },
            )
        }
    }

    /// Records that the current document's send succeeded; the workflow
    /// advances to the next document in order.
    pub fn document_sent(&mut self)
        requires
            old(self).wf(),
            !old(self).failed_model(),
            old(self).sent_model() < old(self).total_model(),
        ensures
            final(self).wf(),
            final(self).sent_model() == old(self).sent_model() + 1,
            final(self).job_id_model() == old(self).job_id_model(),
            final(self).total_model() == old(self).total_model(),
            !final(self).failed_model(),
    {
        self.sent = self.sent + 1;
    }

    /// Records a step failure: the workflow aborts, and no further document
    /// is ever issued.
    pub fn document_failed(&mut self)
        requires
            old(self).wf(),
        ensures
            final(self).wf(),
            final(self).failed_model(),
            final(self).sent_model() == old(self).sent_model(),
            final(self).job_id_model() == old(self).job_id_model(),
            final(self).total_model() == old(self).total_model(),
    {
        self.failed = true;
    }

    /// Every document was sent and none failed.
    pub fn is_done(&self) -> (r: bool)
        ensures
            r == (!self.failed_model() && self.sent_model() == self.total_model()),
    {
        !self.failed && self.sent == self.total
    }

    /// A step failed; the remaining documents were never issued.
    pub fn has_failed(&self) -> (r: bool)
        ensures
            r == self.failed_model(),
    {
        self.failed
    }
}

} // verus!
