//! Conditions of a package descriptor: named boolean gates over device
//! attributes, each carrying accept, deny, and require component lists.

use vstd::prelude::*;

use crate::error::{Error, ErrV};
use crate::pack_index::ov;
use crate::xml::{DocV, XmlDoc};

verus! {

/// One row of a condition: a pattern over device attributes.
#[derive(Debug)]
pub struct ConditionComponent {
    pub device_family: Option<String>,
    pub device_sub_family: Option<String>,
    pub device_variant: Option<String>,
    pub device_vendor: Option<String>,
    pub device_name: Option<String>,
}

/// The mathematical image of a condition row.
#[verifier::ext_equal]
pub struct ConditionComponentV {
    pub device_family: Option<Seq<char>>,
    pub device_sub_family: Option<Seq<char>>,
    pub device_variant: Option<Seq<char>>,
    pub device_vendor: Option<Seq<char>>,
    pub device_name: Option<Seq<char>>,
}

impl View for ConditionComponent {
    type V = ConditionComponentV;

    open spec fn view(&self) -> ConditionComponentV {
        ConditionComponentV {
            device_family: ov(self.device_family),
            device_sub_family: ov(self.device_sub_family),
            device_variant: ov(self.device_variant),
            device_vendor: ov(self.device_vendor),
            device_name: ov(self.device_name),
        }
    }
}

impl Clone for ConditionComponent {
    fn clone(&self) -> (r: ConditionComponent)
        ensures
            r@ == self@,
    {
        ConditionComponent {
            device_family: crate::device::clone_opt_string(&self.device_family),
            device_sub_family: crate::device::clone_opt_string(&self.device_sub_family),
            device_variant: crate::device::clone_opt_string(&self.device_variant),
            device_vendor: crate::device::clone_opt_string(&self.device_vendor),
            device_name: crate::device::clone_opt_string(&self.device_name),
        }
    }
}

/// What parsing one condition row yields; every field is optional, so it
/// never fails.
pub open spec fn spec_condition_component(n: crate::xml::NodeV) -> ConditionComponentV {
    ConditionComponentV {
        device_family: crate::xml::spec_attr(n, "Dfamily"@),
        device_sub_family: crate::xml::spec_attr(n, "Dsubfamily"@),
        device_variant: crate::xml::spec_attr(n, "Dvariant"@),
        device_vendor: crate::xml::spec_attr(n, "Dvendor"@),
        device_name: crate::xml::spec_attr(n, "Dname"@),
    }
}

impl ConditionComponent {
    /// Parses one condition row from an `accept`, `deny`, or `require`
    /// element.
    pub fn from_doc(doc: &XmlDoc, i: usize) -> (r: ConditionComponent)
        requires
            doc.wf(),
            i < doc@.nodes.len(),
        ensures
            r@ == spec_condition_component(doc@.nodes[i as int]),
    {
        ConditionComponent {
            device_family: crate::xml::attr_opt(doc, i, "Dfamily"),
            device_sub_family: crate::xml::attr_opt(doc, i, "Dsubfamily"),
            device_variant: crate::xml::attr_opt(doc, i, "Dvariant"),
            device_vendor: crate::xml::attr_opt(doc, i, "Dvendor"),
            device_name: crate::xml::attr_opt(doc, i, "Dname"),
        }
    }
}

/// One named condition.
#[derive(Debug)]
pub struct Condition {
    pub id: String,
    pub accept: Vec<ConditionComponent>,
    pub deny: Vec<ConditionComponent>,
    pub require: Vec<ConditionComponent>,
}

/// The mathematical image of a condition.
#[verifier::ext_equal]
pub struct ConditionV {
    pub id: Seq<char>,
    pub accept: Seq<ConditionComponentV>,
    pub deny: Seq<ConditionComponentV>,
    pub require: Seq<ConditionComponentV>,
}

impl View for Condition {
    type V = ConditionV;

    open spec fn view(&self) -> ConditionV {
        ConditionV {
            id: self.id@,
            accept: self.accept@.map_values(|c: ConditionComponent| c@),
            deny: self.deny@.map_values(|c: ConditionComponent| c@),
            require: self.require@.map_values(|c: ConditionComponent| c@),
        }
    }
}

/// A copy of a list of condition rows.
fn clone_rows(v: &Vec<ConditionComponent>) -> (r: Vec<ConditionComponent>)
    ensures
        r@.map_values(|c: ConditionComponent| c@) == v@.map_values(|c: ConditionComponent| c@),
{
    let n = v.len();
    let mut out: Vec<ConditionComponent> = Vec::new();
    let mut i: usize = 0;
    while i < n
        invariant
            0 <= i <= n == v@.len(),
            out@.len() == i,
            forall|j: int| 0 <= j < i ==> #[trigger] out@[j]@ == v@[j]@,
        decreases n - i,
    {
        out.push(v[i].clone());
        i = i + 1;
    }
    assert(out@.map_values(|c: ConditionComponent| c@) =~= v@.map_values(
        |c: ConditionComponent| c@,
    ));
    out
}

impl Clone for Condition {
    fn clone(&self) -> (r: Condition)
        ensures
            r@ == self@,
    {
        let r = Condition {
            id: self.id.clone(),
            accept: clone_rows(&self.accept),
            deny: clone_rows(&self.deny),
            require: clone_rows(&self.require),
        };
        assert(r@ =~= self@);
        r
    }
}

/// The rows among the children that bear the given tag name.
pub open spec fn spec_rows_named(doc: DocV, cs: Seq<int>, tag: Seq<char>) -> Seq<
    ConditionComponentV,
>
    decreases cs.len(),
{
    if cs.len() == 0 {
        Seq::empty()
    } else {
        let rest = spec_rows_named(doc, cs.drop_first(), tag);
        if doc.nodes[cs[0]].name == tag {
            seq![spec_condition_component(doc.nodes[cs[0]])] + rest
        } else {
            rest
        }
    }
}

/// What parsing a `<condition>` element yields: its required id, and its
/// accept, deny, and require rows.
pub open spec fn spec_condition(doc: DocV, i: int) -> Result<ConditionV, ErrV> {
    let n = doc.nodes[i];
    if n.name != "condition"@ {
        Err(ErrV::WrongRoot("condition"@, n.name))
    } else {
        match crate::xml::spec_attr(n, "id"@) {
            None => Err(ErrV::MissingAttribute("id"@)),
            Some(id) => Ok(
                ConditionV {
                    id,
                    accept: spec_rows_named(doc, n.children, "accept"@),
                    deny: spec_rows_named(doc, n.children, "deny"@),
                    require: spec_rows_named(doc, n.children, "require"@),
                },
            ),
        }
    }
}

/// Collects the rows among the children bearing one tag name.
fn rows_named(doc: &XmlDoc, i: usize, tag: &str) -> (r: Vec<ConditionComponent>)
    requires
        doc.wf(),
        i < doc@.nodes.len(),
    ensures
        r@.map_values(|c: ConditionComponent| c@) == spec_rows_named(
            doc@,
            doc@.nodes[i as int].children,
            tag@,
        ),
{
    let ghost cs = doc@.nodes[i as int].children;
    let n = crate::xml::child_count(doc, i);
    let mut out: Vec<ConditionComponent> = Vec::new();
    assert(cs.skip(0) =~= cs);
    let mut k: usize = 0;
    while k < n
        invariant
            doc.wf(),
            i < doc@.nodes.len(),
            0 <= k <= n == cs.len(),
            cs == doc@.nodes[i as int].children,
            out@.map_values(|c: ConditionComponent| c@) + spec_rows_named(
                doc@,
                cs.skip(k as int),
                tag@,
            ) == spec_rows_named(doc@, cs, tag@),
        decreases n - k,
    {
        let ghost pre = cs.skip(k as int);
        assert(pre[0] == cs[k as int]);
        assert(pre.drop_first() =~= cs.skip(k as int + 1));
        let j = crate::xml::child_at(doc, i, k);
        if crate::xml::name_is(doc, j, tag) {
            out.push(ConditionComponent::from_doc(doc, j));
            proof {
                assert(out@.map_values(|c: ConditionComponent| c@) + spec_rows_named(
                    doc@,
                    cs.skip(k as int + 1),
                    tag@,
                ) =~= spec_rows_named(doc@, cs, tag@));
            }
        }
        k = k + 1;
    }
    proof {
        assert(cs.skip(n as int) =~= Seq::<int>::empty());
        assert(out@.map_values(|c: ConditionComponent| c@) =~= spec_rows_named(doc@, cs, tag@));
    }
    out
}

impl Condition {
    /// Parses a `<condition>` element.
    pub fn from_doc(doc: &XmlDoc, i: usize) -> (r: Result<Condition, Error>)
        requires
            doc.wf(),
            i < doc@.nodes.len(),
        ensures
            match r {
                Ok(c) => spec_condition(doc@, i as int) == Ok::<ConditionV, ErrV>(c@),
                Err(e) => spec_condition(doc@, i as int) == Err::<ConditionV, ErrV>(e@),
            },
    {
        crate::xml::assert_root_name(doc, i, "condition")?;
        let id = crate::xml::attr_map(doc, i, "id")?;
        let out = Condition {
            id,
            accept: rows_named(doc, i, "accept"),
            deny: rows_named(doc, i, "deny"),
            require: rows_named(doc, i, "require"),
        };
        proof {
            assert(spec_condition(doc@, i as int) matches Ok(v) && out@ =~= v);
        }
        Ok(out)
    }
}

/// The condition table of a package.
#[derive(Debug)]
pub struct Conditions(pub Vec<Condition>);

impl View for Conditions {
    type V = Seq<ConditionV>;

    open spec fn view(&self) -> Seq<ConditionV> {
        self.0@.map_values(|c: Condition| c@)
    }
}

/// The conditions among the children that parse, in order.
pub open spec fn spec_condition_list(doc: DocV, cs: Seq<int>) -> Seq<ConditionV>
    decreases cs.len(),
{
    if cs.len() == 0 {
        Seq::empty()
    } else {
        let rest = spec_condition_list(doc, cs.drop_first());
        match spec_condition(doc, cs[0]) {
            Ok(c) => seq![c] + rest,
            Err(_) => rest,
        }
    }
}

impl Conditions {
    /// Parses a `<conditions>` block; a child that does not parse is
    /// dropped.
    pub fn from_doc(doc: &XmlDoc, i: usize) -> (r: Result<Conditions, Error>)
        requires
            doc.wf(),
            i < doc@.nodes.len(),
        ensures
            match r {
                Ok(c) => doc@.nodes[i as int].name == "conditions"@ && c@ == spec_condition_list(
                    doc@,
                    doc@.nodes[i as int].children,
                ),
                Err(e) => doc@.nodes[i as int].name != "conditions"@ && e@ == ErrV::WrongRoot(
                    "conditions"@,
                    doc@.nodes[i as int].name,
                ),
            },
    {
        crate::xml::assert_root_name(doc, i, "conditions")?;
        let ghost cs = doc@.nodes[i as int].children;
        let n = crate::xml::child_count(doc, i);
        let mut out: Vec<Condition> = Vec::new();
        assert(cs.skip(0) =~= cs);
        let mut k: usize = 0;
        while k < n
            invariant
                doc.wf(),
                i < doc@.nodes.len(),
                0 <= k <= n == cs.len(),
                cs == doc@.nodes[i as int].children,
                out@.map_values(|c: Condition| c@) + spec_condition_list(doc@, cs.skip(k as int))
                    == spec_condition_list(doc@, cs),
            decreases n - k,
        {
            let ghost pre = cs.skip(k as int);
            assert(pre[0] == cs[k as int]);
            assert(pre.drop_first() =~= cs.skip(k as int + 1));
            let j = crate::xml::child_at(doc, i, k);
            match Condition::from_doc(doc, j) {
                Ok(c) => {
                    out.push(c);
                    proof {
                        assert(out@.map_values(|c: Condition| c@) + spec_condition_list(
                            doc@,
                            cs.skip(k as int + 1),
                        ) =~= spec_condition_list(doc@, cs));
                    }
                },
                Err(_) => {},
            }
            k = k + 1;
        }
        proof {
            assert(cs.skip(n as int) =~= Seq::<int>::empty());
            assert(out@.map_values(|c: Condition| c@) =~= spec_condition_list(doc@, cs));
        }
        Ok(Conditions(out))
    }
}

} // verus!
