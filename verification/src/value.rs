//! The IPP attribute value model: a closed tagged union with a deterministic
//! text rendering and a textual parse that infers integers and booleans.

use vstd::prelude::*;
use vstd::string::StrSliceExecFns;
use vstd::string::StringExecFns;
use crate::strutil::{
    all_digits, dec_text, digits_val, int_body, int_is_neg, int_text_val, is_digit_char,
    is_int_text, lemma_dec_text_int, lemma_digits_val_push, render_i32, str_eq,
};

verus! {

/// An IPP attribute value.  `ListOf` carries the values of a multi-valued
/// attribute and, by construction through [`IppValue::list_of`], never nests
/// another `ListOf` directly.  `Other` is the opaque fallback for value tags
/// this model does not interpret.
pub enum IppValue {
    Integer(i32),
    Boolean(bool),
    Enum(i32),
    Keyword(String),
    Text(String),
    ListOf(Vec<IppValue>),
    Other(String),
}

/// The mathematical model of an [`IppValue`].
pub enum ValueModel {
    Integer(int),
    Boolean(bool),
    Enum(int),
    Keyword(Seq<char>),
    Text(Seq<char>),
    List(Seq<ValueModel>),
    Other(Seq<char>),
}

/// The model of a value standing inside a list.  A directly nested list never
/// occurs in a constructed value (lists are flattened on construction); this
/// total function maps such an element to the empty opaque value.
pub open spec fn elem_model(v: IppValue) -> ValueModel {
    match v {
        IppValue::Integer(i) => ValueModel::Integer(i as int),
        IppValue::Boolean(b) => ValueModel::Boolean(b),
        IppValue::Enum(i) => ValueModel::Enum(i as int),
        IppValue::Keyword(s) => ValueModel::Keyword(s@),
        IppValue::Text(s) => ValueModel::Text(s@),
        IppValue::ListOf(_) => ValueModel::Other(Seq::empty()),
        IppValue::Other(s) => ValueModel::Other(s@),
    }
}

/// The element models of a sequence of values.
pub open spec fn elem_models(items: Seq<IppValue>) -> Seq<ValueModel> {
    items.map(|i: int, e: IppValue| elem_model(e))
}

impl View for IppValue {
    type V = ValueModel;

    open spec fn view(&self) -> ValueModel {
        match self {
            IppValue::ListOf(items) => ValueModel::List(elem_models(items@)),
            _ => elem_model(*self),
        }
    }
}

/// Values with equal models have equal element models.
pub proof fn lemma_elem_model_congruent(x: IppValue, y: IppValue)
    requires
        x@ == y@,
    ensures
        elem_model(x) == elem_model(y),
{
}

impl IppValue {
    /// No list stands directly inside a list.
    pub open spec fn flat(&self) -> bool {
        match self {
            IppValue::ListOf(items) => forall|i: int|
                0 <= i < items@.len() ==> !(#[trigger] items@[i] is ListOf),
            _ => true,
        }
    }

    /// Builds a list value, flattening one level: an item that is itself a
    /// list contributes its elements in place.
    pub fn list_of(items: Vec<IppValue>) -> (r: IppValue)
        ensures
            r.flat(),
            r is ListOf,
            r@ == ValueModel::List(flatten_models(items@)),
    {
        let mut out: Vec<IppValue> = Vec::new();
        let mut idx: usize = 0;
        while idx < items.len()
            invariant
                idx <= items@.len(),
                elem_models(out@) =~= flatten_models(items@.take(idx as int)),
                forall|i: int| 0 <= i < out@.len() ==> !(#[trigger] out@[i] is ListOf),
            decreases items@.len() - idx,
        {
            proof {
                assert(items@.take(idx + 1).drop_last() =~= items@.take(idx as int));
                assert(items@.take(idx + 1).last() == items@[idx as int]);
            }
            let item = &items[idx];
            match item {
                IppValue::ListOf(inner) => {
                    let mut j: usize = 0;
                    while j < inner.len()
                        invariant
                            j <= inner@.len(),
                            elem_models(out@) =~= flatten_models(items@.take(idx as int))
                                + elem_models(inner@.take(j as int)),
                            forall|i: int|
                                0 <= i < out@.len() ==> !(#[trigger] out@[i] is ListOf),
                            items@[idx as int] is ListOf,
                            inner@ == items@[idx as int]->ListOf_0@,
                        decreases inner@.len() - j,
                    {
                        proof {
                            broadcast use vstd::std_specs::vec::axiom_vec_index_decreases;

                            assert(inner@.take(j + 1) =~= inner@.take(j as int).push(
                                inner@[j as int],
                            ));
                        }
                        let ghost old_out = out@;
                        let e = clone_value(&inner[j]);
                        match e {
                            IppValue::ListOf(_) => {
                                // A list directly inside a list element has the
                                // empty opaque model; push the value with that
                                // same model.
                                out.push(IppValue::Other(String::new()));
                            },
                            _ => {
                                out.push(e);
                            },
                        }
                        proof {
                            assert(elem_models(out@) =~= elem_models(old_out).push(
                                elem_model(inner@[j as int]),
                            ));
                            assert(elem_models(inner@.take(j + 1)) =~= elem_models(
                                inner@.take(j as int),
                            ).push(elem_model(inner@[j as int])));
                        }
                        j = j + 1;
                    }
                    proof {
                        assert(inner@.take(inner@.len() as int) =~= inner@);
                    }
                },
                _ => {
                    let ghost old_out = out@;
                    let e = clone_value(item);
                    out.push(e);
                    proof {
                        assert(elem_models(out@) =~= elem_models(old_out).push(
                            elem_model(items@[idx as int]),
                        ));
                    }
                },
            }
            idx = idx + 1;
        }
        proof {
            assert(items@.take(items@.len() as int) =~= items@);
        }
        IppValue::ListOf(out)
    }
}

/// The flattened element models of a list under one level of flattening.
pub open spec fn flatten_models(items: Seq<IppValue>) -> Seq<ValueModel>
    decreases items.len(),
{
    if items.len() == 0 {
        Seq::empty()
    } else {
        flatten_models(items.drop_last()) + (match items.last() {
            IppValue::ListOf(inner) => elem_models(inner@),
            _ => seq![elem_model(items.last())],
        })
    }
}

/// The rendered text of a value that stands alone or inside a list.  A list
/// renders through [`spec_render`]; here it contributes nothing, matching its
/// empty opaque element model.
pub open spec fn render_scalar(m: ValueModel) -> Seq<char> {
    match m {
        ValueModel::Integer(i) => dec_text(i),
        ValueModel::Boolean(b) => if b {
            "true"@
        } else {
            "false"@
        },
        ValueModel::Enum(i) => dec_text(i),
        ValueModel::Keyword(s) => s,
        ValueModel::Text(s) => s,
        ValueModel::List(_) => Seq::empty(),
        ValueModel::Other(s) => s,
    }
}

/// The rendered elements of a list, separated by a comma and a space.
pub open spec fn render_items(items: Seq<ValueModel>) -> Seq<char>
    decreases items.len(),
{
    if items.len() == 0 {
        Seq::empty()
    } else if items.len() == 1 {
        render_scalar(items[0])
    } else {
        render_scalar(items[0]) + seq![',', ' '] + render_items(items.drop_first())
    }
}

/// The canonical text of a value: lists are bracketed, everything else
/// renders as [`render_scalar`].
pub open spec fn spec_render(m: ValueModel) -> Seq<char> {
    match m {
        ValueModel::List(items) => seq!['['] + render_items(items) + seq![']'],
        _ => render_scalar(m),
    }
}

/// Rendering one more element appends a separator and its text.
proof fn lemma_render_items_push(items: Seq<ValueModel>, m: ValueModel)
    ensures
        render_items(items.push(m)) == if items.len() == 0 {
            render_scalar(m)
        } else {
            render_items(items) + seq![',', ' '] + render_scalar(m)
        },
    decreases items.len(),
{
    if items.len() == 0 {
        assert(items.push(m).len() == 1);
        assert(items.push(m)[0] == m);
    } else {
        assert(items.push(m).drop_first() =~= items.drop_first().push(m));
        lemma_render_items_push(items.drop_first(), m);
        assert(items.push(m)[0] == items[0]);
        if items.len() == 1 {
            assert(render_items(items) == render_scalar(items[0]));
        }
        assert(render_items(items.push(m)) == render_scalar(items[0]) + seq![',', ' ']
            + render_items(items.drop_first().push(m)));
        if items.drop_first().len() == 0 {
            assert(render_items(items.push(m)) =~= render_items(items) + seq![',', ' ']
                + render_scalar(m));
        } else {
            assert(render_items(items.push(m)) =~= render_items(items) + seq![',', ' ']
                + render_scalar(m));
        }
    }
}

/// Renders a value to its canonical text.
pub fn render_value(v: &IppValue) -> (r: String)
    ensures
        r@ == spec_render(v@),
{
    match v {
        IppValue::Integer(i) => render_i32(*i),
        IppValue::Enum(i) => render_i32(*i),
        IppValue::Boolean(b) => {
            if *b {
                let mut r = String::new();
                r.append("true");
                r
            } else {
                let mut r = String::new();
                r.append("false");
                r
            }
        },
        IppValue::Keyword(s) => s.clone(),
        IppValue::Text(s) => s.clone(),
        IppValue::Other(s) => s.clone(),
        IppValue::ListOf(items) => {
            let mut r = String::new();
            let open: &str = "[";
            let close: &str = "]";
            let sep: &str = ", ";
            proof {
                reveal_strlit("[");
                reveal_strlit("]");
                reveal_strlit(", ");
                assert(open@ =~= seq!['[']);
                assert(close@ =~= seq![']']);
                assert(sep@ =~= seq![',', ' ']);
            }
            r.append(open);
            let mut j: usize = 0;
            while j < items.len()
                invariant
                    j <= items@.len(),
                    open@ == seq!['['],
                    close@ == seq![']'],
                    sep@ == seq![',', ' '],
                    r@ == seq!['['] + render_items(elem_models(items@.take(j as int))),
                decreases items@.len() - j,
            {
                proof {
                    assert(items@.take(j + 1) =~= items@.take(j as int).push(items@[j as int]));
                    assert(elem_models(items@.take(j + 1)) =~= elem_models(
                        items@.take(j as int),
                    ).push(elem_model(items@[j as int])));
                    lemma_render_items_push(
                        elem_models(items@.take(j as int)),
                        elem_model(items@[j as int]),
                    );
                }
                if j > 0 {
                    r.append(sep);
                }
                let item = &items[j];
                match item {
                    IppValue::ListOf(_) => {
                        // contributes the empty text of its opaque element model
                    },
                    _ => {
                        let t = render_value_nonlist(item);
                        r.append(t.as_str());
                    },
                }
                proof {
                    assert(elem_models(items@.take(j as int)).len() == j);
                }
                j = j + 1;
            }
            proof {
                assert(items@.take(items@.len() as int) =~= items@);
            }
            r.append(close);
            r
        },
    }
}

/// Renders a value known not to be a list; its text is its element model's.
fn render_value_nonlist(v: &IppValue) -> (r: String)
    requires
        !(v is ListOf),
    ensures
        r@ == render_scalar(elem_model(*v)),
{
    match v {
        IppValue::Integer(i) => render_i32(*i),
        IppValue::Enum(i) => render_i32(*i),
        IppValue::Boolean(b) => {
            if *b {
                let mut r = String::new();
                r.append("true");
                r
            } else {
                let mut r = String::new();
                r.append("false");
                r
            }
        },
        IppValue::Keyword(s) => s.clone(),
        IppValue::Text(s) => s.clone(),
        IppValue::Other(s) => s.clone(),
        IppValue::ListOf(_) => {
            proof {
                assert(false);
            }
            String::new()
        },
    }
}

/// What textual parsing yields: an integer when the text denotes one, a
/// boolean for the two boolean words, else the text as a keyword.
pub open spec fn spec_parse(s: Seq<char>) -> ValueModel {
    if is_int_text(s) {
        ValueModel::Integer(int_text_val(s))
    } else if s == "true"@ {
        ValueModel::Boolean(true)
    } else if s == "false"@ {
        ValueModel::Boolean(false)
    } else {
        ValueModel::Keyword(s)
    }
}

/// Parses attribute text, inferring an integer when the text is numeric and
/// in range, a boolean for the literal boolean words, else a keyword.
pub fn parse_text(s: &str) -> (v: IppValue)
    ensures
        v@ == spec_parse(s@),
{
    let len = s.unicode_len();
    let mut start: usize = 0;
    let mut neg = false;
    if len > 0 {
        let c0 = s.get_char(0);
        if c0 == '-' {
            start = 1;
            neg = true;
        } else if c0 == '+' {
            start = 1;
        }
    }
    let ghost body = int_body(s@);
    proof {
        assert(neg == int_is_neg(s@));
        if start == 1 {
            assert(body =~= s@.skip(1));
        } else {
            assert(body =~= s@.skip(0));
        }
    }
    let cap: u64 = 2147483648;
    let mut i = start;
    let mut ok = len > start;
    let mut acc: u64 = 0;
    while i < len
        invariant
            start <= i <= len,
            len == s@.len(),
            start <= 1,
            cap == 2147483648,
            body == int_body(s@),
            body =~= s@.skip(start as int),
            ok == (len > start && all_digits(body.take(i - start))),
            ok ==> acc <= cap + 1,
            ok && digits_val(body.take(i - start)) <= cap ==> acc == digits_val(
                body.take(i - start),
            ),
            ok && digits_val(body.take(i - start)) > cap ==> acc == cap + 1,
        decreases len - i,
    {
        let c = s.get_char(i);
        let cu = c as u32;
        let ghost pref = body.take(i - start);
        proof {
            assert(body[i - start] == s@[i as int]);
            assert(body.take(i + 1 - start) =~= pref.push(s@[i as int]));
            lemma_digits_val_push(pref, s@[i as int]);
        }
        if 48 <= cu && cu <= 57 {
            if ok {
                let d = (cu - 48) as u64;
                if acc > cap {
                    acc = cap + 1;
                } else {
                    acc = acc * 10 + d;
                    if acc > cap {
                        acc = cap + 1;
                    }
                }
            }
        } else {
            ok = false;
        }
        i = i + 1;
    }
    proof {
        assert(body.take(len - start) =~= body);
    }
    if ok {
        if neg {
            if acc <= cap {
                proof {
                    assert(is_int_text(s@));
                }
                let val = (-(acc as i64)) as i32;
                proof {
                    assert(val as int == int_text_val(s@));
                }
                return IppValue::Integer(val);
            }
        } else {
            if acc < cap {
                proof {
                    assert(is_int_text(s@));
                }
                let val = acc as i32;
                proof {
                    assert(val as int == int_text_val(s@));
                }
                return IppValue::Integer(val);
            }
        }
    }
    proof {
        assert(!is_int_text(s@));
    }
    if str_eq(s, "true") {
        IppValue::Boolean(true)
    } else if str_eq(s, "false") {
        IppValue::Boolean(false)
    } else {
        IppValue::Keyword(String::from_str(s))
    }
}

/// A model whose rendered text parses back without loss: integers and enums
/// lie in 32-bit range, and a textual value that happens to spell an integer
/// spells it canonically.  Every value built from `i32` constructors and from
/// [`parse_text`] satisfies this.
pub open spec fn parse_stable(m: ValueModel) -> bool {
    match m {
        ValueModel::Integer(i) => -0x8000_0000 <= i <= 0x7fff_ffff,
        ValueModel::Enum(i) => -0x8000_0000 <= i <= 0x7fff_ffff,
        ValueModel::Keyword(s) => is_int_text(s) ==> s == dec_text(int_text_val(s)),
        ValueModel::Text(s) => is_int_text(s) ==> s == dec_text(int_text_val(s)),
        ValueModel::Other(s) => is_int_text(s) ==> s == dec_text(int_text_val(s)),
        _ => true,
    }
}

/// Round-trip stability of the textual rendering: parsing a rendered value
/// and rendering the parse gives the same text back.  A textual value whose
/// text spells an integer non-canonically (such as the keyword `007`) renders
/// to that same text but parses to the integer, so `parse_stable` leaves it
/// out.
pub proof fn lemma_render_parse_render(m: ValueModel)
    requires
        parse_stable(m),
    ensures
        spec_render(spec_parse(spec_render(m))) == spec_render(m),
{
    reveal_strlit("true");
    reveal_strlit("false");
    let s = spec_render(m);
    match m {
        ValueModel::Integer(i) => {
            lemma_dec_text_int(i);
        },
        ValueModel::Enum(i) => {
            lemma_dec_text_int(i);
        },
        ValueModel::Boolean(b) => {
            assert(s[0] == 't' || s[0] == 'f');
            assert(!is_digit_char(s[0]));
            assert(s[0] != '-' && s[0] != '+');
            assert(int_body(s) == s);
            assert(!is_int_text(s));
        },
        ValueModel::List(_) => {
            assert(s[0] == '[');
            assert(!is_digit_char(s[0]));
            assert(s[0] != '-' && s[0] != '+');
            assert(int_body(s) == s);
            assert(!is_int_text(s));
            assert(s != "true"@ && s != "false"@) by {
                assert(s[0] != 't' && s[0] != 'f');
            }
        },
        ValueModel::Keyword(_) => {},
        ValueModel::Text(_) => {},
        ValueModel::Other(_) => {},
    }
}

/// Structural copy of a value; the copy has the same model.
pub fn clone_value(v: &IppValue) -> (r: IppValue)
    ensures
        r@ == v@,
    decreases *v,
{
    match v {
        IppValue::Integer(i) => IppValue::Integer(*i),
        IppValue::Boolean(b) => IppValue::Boolean(*b),
        IppValue::Enum(i) => IppValue::Enum(*i),
        IppValue::Keyword(s) => IppValue::Keyword(s.clone()),
        IppValue::Text(s) => IppValue::Text(s.clone()),
        IppValue::ListOf(items) => {
            let mut out: Vec<IppValue> = Vec::new();
            let mut j: usize = 0;
            while j < items.len()
                invariant
                    j <= items@.len(),
                    out@.len() == j,
                    forall|i: int| 0 <= i < j ==> (#[trigger] out@[i])@ == items@[i]@,
                    *v == IppValue::ListOf(*items),
                decreases items@.len() - j,
            {
                proof {
                    broadcast use vstd::std_specs::vec::axiom_vec_index_decreases;

                    assert(decreases_to!(*v => v->ListOf_0));
                    assert(decreases_to!(v->ListOf_0 => v->ListOf_0@));
                    assert(decreases_to!(v->ListOf_0@ => v->ListOf_0@[j as int]));
                    assert(v->ListOf_0@[j as int] == items@[j as int]);
                    assert(decreases_to!(*v => items@[j as int]));
                }
                let e = clone_value(&items[j]);
                out.push(e);
                j = j + 1;
            }
            proof {
                assert forall|i: int| 0 <= i < items@.len() implies elem_model(out@[i])
                    == elem_model(items@[i]) by {
                    lemma_elem_model_congruent(out@[i], items@[i]);
                }
                assert(elem_models(out@) =~= elem_models(items@));
            }
            IppValue::ListOf(out)
        },
        IppValue::Other(s) => IppValue::Other(s.clone()),
    }
}

} // verus!
