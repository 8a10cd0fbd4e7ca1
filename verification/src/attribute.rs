//! Named attributes, attribute groups tagged by a delimiter, and the ordered
//! group sequence of a response.

use vstd::prelude::*;
use crate::strutil::str_eq;
use crate::value::{clone_value, IppValue, ValueModel};

verus! {

/// The delimiter tag that names an attribute group.
#[derive(Clone, Copy, PartialEq, Eq, Structural, Debug)]
pub enum DelimiterTag {
    OperationAttributes,
    JobAttributes,
    PrinterAttributes,
    UnsupportedAttributes,
    EndOfAttributes,
}

/// A named attribute value.
pub struct IppAttribute {
    name: String,
    value: IppValue,
}

/// The model of an attribute: its name and its value model.
pub ghost struct AttrModel {
    pub name: Seq<char>,
    pub value: ValueModel,
}

impl View for IppAttribute {
    type V = AttrModel;

    closed spec fn view(&self) -> AttrModel {
        AttrModel { name: self.name@, value: self.value@ }
    }
}

impl IppAttribute {
    /// Builds an attribute from a name and a value.
    pub fn new(name: String, value: IppValue) -> (r: IppAttribute)
        ensures
            r@ == (AttrModel { name: name@, value: value@ }),
    {
        IppAttribute { name, value }
    }

    /// The attribute's name.
    pub fn name(&self) -> (r: &String)
        ensures
            r@ == self@.name,
    {
        &self.name
    }

    /// The attribute's value.
    pub fn value(&self) -> (r: &IppValue)
        ensures
            r@ == self@.value,
    {
        &self.value
    }

    /// Structural copy with the same model.
    pub fn clone_attr(&self) -> (r: IppAttribute)
        ensures
            r@ == self@,
    {
        IppAttribute { name: self.name.clone(), value: clone_value(&self.value) }
    }
}

/// Last-wins lookup by name in an attribute sequence.
pub open spec fn attrs_get(attrs: Seq<AttrModel>, name: Seq<char>) -> Option<AttrModel>
    decreases attrs.len(),
{
    if attrs.len() == 0 {
        Option::None
    } else if attrs.last().name == name {
        Option::Some(attrs.last())
    } else {
        attrs_get(attrs.drop_last(), name)
    }
}

/// Looking a name up right after adding it yields the added attribute:
/// repeated names resolve last-wins at lookup.
pub proof fn lemma_get_after_add(attrs: Seq<AttrModel>, a: AttrModel)
    ensures
        attrs_get(attrs.push(a), a.name) == Option::Some(a),
{
    assert(attrs.push(a).last() == a);
}

/// An attribute group: a delimiter tag and the attributes in insertion
/// order.  Lookup is by name, last-wins; storage is append-only.
pub struct AttributeGroup {
    tag: DelimiterTag,
    attributes: Vec<IppAttribute>,
}

/// The model of a group: its tag and its attribute models in order.
pub ghost struct GroupModel {
    pub tag: DelimiterTag,
    pub attrs: Seq<AttrModel>,
}

/// The attribute models of a vector of attributes, in order.
pub open spec fn attr_models(attrs: Seq<IppAttribute>) -> Seq<AttrModel> {
    attrs.map(|i: int, a: IppAttribute| a@)
}

impl View for AttributeGroup {
    type V = GroupModel;

    closed spec fn view(&self) -> GroupModel {
        GroupModel { tag: self.tag, attrs: attr_models(self.attributes@) }
    }
}

impl AttributeGroup {
    /// An empty group with the given tag.
    pub fn new(tag: DelimiterTag) -> (r: AttributeGroup)
        ensures
            r@ == (GroupModel { tag, attrs: Seq::empty() }),
    {
        let r = AttributeGroup { tag, attributes: Vec::new() };
        proof {
            assert(r@.attrs =~= Seq::<AttrModel>::empty());
        }
        r
    }

    /// The group's delimiter tag.
    pub fn tag(&self) -> (r: DelimiterTag)
        ensures
            r == self@.tag,
    {
        self.tag
    }

    /// Appends an attribute; earlier attributes and their order are kept.
    pub fn add_attribute(&mut self, a: IppAttribute)
        ensures
            final(self)@.tag == old(self)@.tag,
            final(self)@.attrs == old(self)@.attrs.push(a@),
    {
        let ghost old_attrs = self.attributes@;
        self.attributes.push(a);
        proof {
            assert(attr_models(self.attributes@) =~= attr_models(old_attrs).push(a@));
        }
    }

    /// The attributes in insertion order.
    pub fn values(&self) -> (r: &Vec<IppAttribute>)
        ensures
            attr_models(r@) == self@.attrs,
    {
        &self.attributes
    }

    /// Last-wins lookup by name.
    pub fn get(&self, name: &str) -> (r: Option<&IppAttribute>)
        ensures
            match r {
                Option::Some(a) => attrs_get(self@.attrs, name@) == Option::Some(a@),
                Option::None => attrs_get(self@.attrs, name@) is None,
            },
    {
        let mut i = self.attributes.len();
        proof {
            assert(attr_models(self.attributes@).take(i as int) =~= attr_models(
                self.attributes@,
            ));
        }
        while i > 0
            invariant
                i <= self.attributes@.len(),
                attrs_get(self@.attrs, name@) == attrs_get(
                    attr_models(self.attributes@).take(i as int),
                    name@,
                ),
            decreases i,
        {
            i = i - 1;
            let a = &self.attributes[i];
            proof {
                let pref = attr_models(self.attributes@).take(i + 1);
                assert(pref.last() == a@);
                assert(pref.drop_last() =~= attr_models(self.attributes@).take(i as int));
            }
            if str_eq(a.name().as_str(), name) {
                return Option::Some(a);
            }
        }
        proof {
            assert(attr_models(self.attributes@).take(0) =~= Seq::<AttrModel>::empty());
        }
        Option::None
    }

    /// Structural copy with the same model.
    pub fn clone_group(&self) -> (r: AttributeGroup)
        ensures
            r@ == self@,
    {
        let mut out: Vec<IppAttribute> = Vec::new();
        let mut j: usize = 0;
        while j < self.attributes.len()
            invariant
                j <= self.attributes@.len(),
                attr_models(out@) =~= attr_models(self.attributes@).take(j as int),
            decreases self.attributes@.len() - j,
        {
            let a = self.attributes[j].clone_attr();
            let ghost old_out = out@;
            out.push(a);
            proof {
                assert(attr_models(out@) =~= attr_models(old_out).push(a@));
                assert(attr_models(self.attributes@).take(j + 1) =~= attr_models(
                    self.attributes@,
                ).take(j as int).push(self.attributes@[j as int]@));
            }
            j = j + 1;
        }
        proof {
            assert(attr_models(self.attributes@).take(self.attributes@.len() as int)
                =~= attr_models(self.attributes@));
        }
        let r = AttributeGroup { tag: self.tag, attributes: out };
        proof {
            assert(r@.attrs =~= self@.attrs);
        }
        r
    }
}

/// The groups of a response that carry a given tag, in response order.
pub open spec fn groups_with_tag(gs: Seq<GroupModel>, tag: DelimiterTag) -> Seq<GroupModel>
    decreases gs.len(),
{
    if gs.len() == 0 {
        Seq::empty()
    } else {
        groups_with_tag(gs.drop_last(), tag) + (if gs.last().tag == tag {
            seq![gs.last()]
        } else {
            Seq::empty()
        })
    }
}

proof fn lemma_groups_with_tag_push(gs: Seq<GroupModel>, tag: DelimiterTag, g: GroupModel)
    ensures
        groups_with_tag(gs.push(g), tag) == groups_with_tag(gs, tag) + (if g.tag == tag {
            seq![g]
        } else {
            Seq::empty()
        }),
{
    assert(gs.push(g).drop_last() =~= gs);
}

/// Selecting by tag yields only groups of that tag, keeps their response
/// order, and yields all of them: it distributes over extension.
pub proof fn lemma_groups_with_tag_sound(gs: Seq<GroupModel>, tag: DelimiterTag)
    ensures
        forall|i: int|
            0 <= i < groups_with_tag(gs, tag).len() ==> (#[trigger] groups_with_tag(gs, tag)[i]).tag
                == tag,
        groups_with_tag(gs, tag).len() <= gs.len(),
        forall|i: int|
            0 <= i < gs.len() && (#[trigger] gs[i]).tag == tag ==> groups_with_tag(
                gs,
                tag,
            ).contains(gs[i]),
        forall|i: int|
            0 <= i < groups_with_tag(gs, tag).len() ==> gs.contains(
                #[trigger] groups_with_tag(gs, tag)[i],
            ),
    decreases gs.len(),
{
    if gs.len() > 0 {
        lemma_groups_with_tag_sound(gs.drop_last(), tag);
        assert forall|i: int| 0 <= i < groups_with_tag(gs, tag).len() implies gs.contains(
            #[trigger] groups_with_tag(gs, tag)[i],
        ) by {
            let all = groups_with_tag(gs, tag);
            let pre = groups_with_tag(gs.drop_last(), tag);
            if i < pre.len() {
                assert(pre.contains(pre[i]));
                let k = choose|k: int| 0 <= k < gs.drop_last().len() && gs.drop_last()[k] == pre[i];
                assert(gs[k] == all[i]);
            } else {
                assert(all[i] == gs[gs.len() - 1]);
            }
        }
        assert forall|i: int| 0 <= i < gs.len() && (#[trigger] gs[i]).tag == tag implies
            groups_with_tag(gs, tag).contains(gs[i]) by {
            if i < gs.len() - 1 {
                assert(gs.drop_last()[i] == gs[i]);
                let pre = groups_with_tag(gs.drop_last(), tag);
                let k = choose|k: int| 0 <= k < pre.len() && pre[k] == gs[i];
                assert(groups_with_tag(gs, tag)[k] == gs[i]);
            } else {
                let all = groups_with_tag(gs, tag);
                assert(all[all.len() - 1] == gs[i]);
            }
        }
    }
}

/// An ordered sequence of attribute groups, as decoded from one response.
pub struct Response {
    groups: Vec<AttributeGroup>,
}

/// The group models of a vector of groups, in order.
pub open spec fn group_models(gs: Seq<AttributeGroup>) -> Seq<GroupModel> {
    gs.map(|i: int, g: AttributeGroup| g@)
}

impl View for Response {
    type V = Seq<GroupModel>;

    closed spec fn view(&self) -> Seq<GroupModel> {
        group_models(self.groups@)
    }
}

impl Response {
    /// An empty response.
    pub fn new() -> (r: Response)
        ensures
            r@ == Seq::<GroupModel>::empty(),
    {
        let r = Response { groups: Vec::new() };
        proof {
            assert(r@ =~= Seq::<GroupModel>::empty());
        }
        r
    }

    /// Appends a group, keeping response order.
    pub fn push_group(&mut self, g: AttributeGroup)
        ensures
            final(self)@ == old(self)@.push(g@),
    {
        let ghost old_groups = self.groups@;
        self.groups.push(g);
        proof {
            assert(group_models(self.groups@) =~= group_models(old_groups).push(g@));
        }
    }

    /// The groups in response order.
    pub fn groups(&self) -> (r: &Vec<AttributeGroup>)
        ensures
            group_models(r@) == self@,
    {
        &self.groups
    }

    /// The groups carrying `tag`, in response order, possibly empty; no group
    /// of another tag appears, and no merging or reordering happens.
    pub fn groups_of(&self, tag: DelimiterTag) -> (r: Vec<AttributeGroup>)
        ensures
            group_models(r@) == groups_with_tag(self@, tag),
    {
        let mut out: Vec<AttributeGroup> = Vec::new();
        let mut j: usize = 0;
        proof {
            assert(group_models(out@) =~= groups_with_tag(
                group_models(self.groups@.take(0)),
                tag,
            ));
        }
        while j < self.groups.len()
            invariant
                j <= self.groups@.len(),
                group_models(out@) =~= groups_with_tag(group_models(self.groups@.take(j as int)), tag),
            decreases self.groups@.len() - j,
        {
            proof {
                assert(self.groups@.take(j + 1) =~= self.groups@.take(j as int).push(
                    self.groups@[j as int],
                ));
                assert(group_models(self.groups@.take(j + 1)) =~= group_models(
                    self.groups@.take(j as int),
                ).push(self.groups@[j as int]@));
                lemma_groups_with_tag_push(
                    group_models(self.groups@.take(j as int)),
                    tag,
                    self.groups@[j as int]@,
                );
            }
            let g = &self.groups[j];
            if tag_eq(g.tag(), tag) {
                let c = g.clone_group();
                out.push(c);
            }
            proof {
                assert(group_models(out@) =~= groups_with_tag(
                    group_models(self.groups@.take(j + 1)),
                    tag,
                ));
            }
            j = j + 1;
        }
        proof {
            assert(self.groups@.take(self.groups@.len() as int) =~= self.groups@);
        }
        out
    }

    /// The first group carrying `tag`, if any.
    pub fn first_group_of(&self, tag: DelimiterTag) -> (r: Option<&AttributeGroup>)
        ensures
            match r {
                Option::Some(g) => {
                    &&& groups_with_tag(self@, tag).len() > 0
                    &&& g@ == groups_with_tag(self@, tag)[0]
                },
                Option::None => groups_with_tag(self@, tag).len() == 0,
            },
    {
        let mut j: usize = 0;
        while j < self.groups.len()
            invariant
                j <= self.groups@.len(),
                groups_with_tag(group_models(self.groups@.take(j as int)), tag).len() == 0,
            decreases self.groups@.len() - j,
        {
            proof {
                assert(self.groups@.take(j + 1) =~= self.groups@.take(j as int).push(
                    self.groups@[j as int],
                ));
                assert(group_models(self.groups@.take(j + 1)) =~= group_models(
                    self.groups@.take(j as int),
                ).push(self.groups@[j as int]@));
                lemma_groups_with_tag_push(
                    group_models(self.groups@.take(j as int)),
                    tag,
                    self.groups@[j as int]@,
                );
            }
            let g = &self.groups[j];
            if tag_eq(g.tag(), tag) {
                proof {
                    assert(group_models(self.groups@.take(j as int)) =~= self@.take(j as int));
                    lemma_groups_with_tag_prefix(self@, tag, j as int);
                }
                return Option::Some(g);
            }
            j = j + 1;
        }
        proof {
            assert(self.groups@.take(self.groups@.len() as int) =~= self.groups@);
        }
        Option::None
    }

    /// Last-wins lookup of `name` in the first group carrying `tag`.
    pub fn get(&self, tag: DelimiterTag, name: &str) -> (r: Option<&IppAttribute>)
        ensures
            match r {
                Option::Some(a) => response_get(self@, tag, name@) == Option::Some(a@),
                Option::None => response_get(self@, tag, name@) is None,
            },
    {
        match self.first_group_of(tag) {
            Option::Some(g) => g.get(name),
            Option::None => Option::None,
        }
    }
}

/// Lookup in the first group of a tag, if the response has one.
pub open spec fn response_get(
    gs: Seq<GroupModel>,
    tag: DelimiterTag,
    name: Seq<char>,
) -> Option<AttrModel> {
    if groups_with_tag(gs, tag).len() > 0 {
        attrs_get(groups_with_tag(gs, tag)[0].attrs, name)
    } else {
        Option::None
    }
}

/// Once a prefix contributes a group of the tag, the whole sequence's first
/// group of that tag is that prefix's.
proof fn lemma_groups_with_tag_prefix(gs: Seq<GroupModel>, tag: DelimiterTag, j: int)
    requires
        0 <= j < gs.len(),
        groups_with_tag(gs.take(j), tag).len() == 0,
        gs[j].tag == tag,
    ensures
        groups_with_tag(gs, tag).len() > 0,
        groups_with_tag(gs, tag)[0] == gs[j],
    decreases gs.len(),
{
    if j == gs.len() - 1 {
        assert(gs.drop_last() =~= gs.take(j));
    } else {
        assert(gs.drop_last().take(j) =~= gs.take(j));
        assert(gs.drop_last()[j] == gs[j]);
        lemma_groups_with_tag_prefix(gs.drop_last(), tag, j);
        let pre = groups_with_tag(gs.drop_last(), tag);
        assert(groups_with_tag(gs, tag)[0] == pre[0]);
    }
}

/// Tag equality as an executable test.
pub fn tag_eq(a: DelimiterTag, b: DelimiterTag) -> (r: bool)
    ensures
        r == (a == b),
{
    a == b
}

} // verus!
