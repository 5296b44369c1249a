//! Software components of a package descriptor: file references with their
//! closed category set, component builders, and bundles that expand into
//! components sharing their class, version and vendor.

use vstd::prelude::*;

use crate::error::{Error, ErrV};
use crate::numbers::str_eq;
use crate::pack_index::ov;
use crate::xml::{DocV, XmlDoc};

verus! {

/// The closed set of file categories.
#[derive(Debug, Clone, Copy, PartialEq, Eq, Structural)]
pub enum FileCategory {
    Doc,
    Header,
    Include,
    Library,
    Object,
    Source,
    SourceC,
    SourceCpp,
    SourceAsm,
    LinkerScript,
    Utility,
    Image,
    PreIncludeGlobal,
    PreIncludeLocal,
    Other,
}

pub open spec fn spec_parse_file_category(s: Seq<char>) -> Option<FileCategory> {
    if s == "doc"@ {
        Some(FileCategory::Doc)
    } else if s == "header"@ {
        Some(FileCategory::Header)
    } else if s == "include"@ {
        Some(FileCategory::Include)
    } else if s == "library"@ {
        Some(FileCategory::Library)
    } else if s == "object"@ {
        Some(FileCategory::Object)
    } else if s == "source"@ {
        Some(FileCategory::Source)
    } else if s == "sourceC"@ {
        Some(FileCategory::SourceC)
    } else if s == "sourceCpp"@ {
        Some(FileCategory::SourceCpp)
    } else if s == "sourceAsm"@ {
        Some(FileCategory::SourceAsm)
    } else if s == "linkerScript"@ {
        Some(FileCategory::LinkerScript)
    } else if s == "utility"@ {
        Some(FileCategory::Utility)
    } else if s == "image"@ {
        Some(FileCategory::Image)
    } else if s == "preIncludeGlobal"@ {
        Some(FileCategory::PreIncludeGlobal)
    } else if s == "preIncludeLocal"@ {
        Some(FileCategory::PreIncludeLocal)
    } else if s == "other"@ {
        Some(FileCategory::Other)
    } else {
        None
    }
}

pub fn parse_file_category(s: &str) -> (r: Option<FileCategory>)
    ensures
        r == spec_parse_file_category(s@),
{
    if str_eq(s, "doc") {
        Some(FileCategory::Doc)
    } else if str_eq(s, "header") {
        Some(FileCategory::Header)
    } else if str_eq(s, "include") {
        Some(FileCategory::Include)
    } else if str_eq(s, "library") {
        Some(FileCategory::Library)
    } else if str_eq(s, "object") {
        Some(FileCategory::Object)
    } else if str_eq(s, "source") {
        Some(FileCategory::Source)
    } else if str_eq(s, "sourceC") {
        Some(FileCategory::SourceC)
    } else if str_eq(s, "sourceCpp") {
        Some(FileCategory::SourceCpp)
    } else if str_eq(s, "sourceAsm") {
        Some(FileCategory::SourceAsm)
    } else if str_eq(s, "linkerScript") {
        Some(FileCategory::LinkerScript)
    } else if str_eq(s, "utility") {
        Some(FileCategory::Utility)
    } else if str_eq(s, "image") {
        Some(FileCategory::Image)
    } else if str_eq(s, "preIncludeGlobal") {
        Some(FileCategory::PreIncludeGlobal)
    } else if str_eq(s, "preIncludeLocal") {
        Some(FileCategory::PreIncludeLocal)
    } else if str_eq(s, "other") {
        Some(FileCategory::Other)
    } else {
        None
    }
}

/// The closed set of file attributes.
#[derive(Debug, Clone, Copy, PartialEq, Eq, Structural)]
pub enum FileAttribute {
    Config,
    Template,
}

pub open spec fn spec_parse_file_attribute(s: Seq<char>) -> Option<FileAttribute> {
    if s == "config"@ {
        Some(FileAttribute::Config)
    } else if s == "template"@ {
        Some(FileAttribute::Template)
    } else {
        None
    }
}

pub fn parse_file_attribute(s: &str) -> (r: Option<FileAttribute>)
    ensures
        r == spec_parse_file_attribute(s@),
{
    if str_eq(s, "config") {
        Some(FileAttribute::Config)
    } else if str_eq(s, "template") {
        Some(FileAttribute::Template)
    } else {
        None
    }
}

/// A boolean written as the bare literals `true` or `false`.
pub open spec fn spec_plain_bool(s: Seq<char>) -> Option<bool> {
    if s == "true"@ {
        Some(true)
    } else if s == "false"@ {
        Some(false)
    } else {
        None
    }
}

fn parse_plain_bool(s: &str) -> (r: Option<bool>)
    ensures
        r == spec_plain_bool(s@),
{
    if str_eq(s, "true") {
        Some(true)
    } else if str_eq(s, "false") {
        Some(false)
    } else {
        None
    }
}

/// One file belonging to a component.
#[derive(Debug)]
pub struct FileRef {
    pub path: String,
    pub category: FileCategory,
    pub attr: Option<FileAttribute>,
    pub condition: Option<String>,
    pub select: Option<String>,
    pub src: Option<String>,
    pub version: Option<String>,
}

/// The mathematical image of a file reference.
#[verifier::ext_equal]
pub struct FileRefV {
    pub path: Seq<char>,
    pub category: FileCategory,
    pub attr: Option<FileAttribute>,
    pub condition: Option<Seq<char>>,
    pub select: Option<Seq<char>>,
    pub src: Option<Seq<char>>,
    pub version: Option<Seq<char>>,
}

impl View for FileRef {
    type V = FileRefV;

    open spec fn view(&self) -> FileRefV {
        FileRefV {
            path: self.path@,
            category: self.category,
            attr: self.attr,
            condition: ov(self.condition),
            select: ov(self.select),
            src: ov(self.src),
            version: ov(self.version),
        }
    }
}

impl Clone for FileRef {
    fn clone(&self) -> (r: FileRef)
        ensures
            r@ == self@,
    {
        FileRef {
            path: self.path.clone(),
            category: self.category,
            attr: self.attr,
            condition: crate::device::clone_opt_string(&self.condition),
            select: crate::device::clone_opt_string(&self.select),
            src: crate::device::clone_opt_string(&self.src),
            version: crate::device::clone_opt_string(&self.version),
        }
    }
}

/// What parsing a `<file>` element yields: the path with backslashes
/// normalized, a category from the closed set, and the optional fields.
pub open spec fn spec_file_ref(doc: DocV, i: int) -> Result<FileRefV, ErrV> {
    let n = doc.nodes[i];
    if n.name != "file"@ {
        Err(ErrV::WrongRoot("file"@, n.name))
    } else {
        match crate::xml::spec_attr(n, "name"@) {
            None => Err(ErrV::MissingAttribute("name"@)),
            Some(p) => match crate::xml::spec_attr(n, "category"@) {
                None => Err(ErrV::MissingAttribute("category"@)),
                Some(c) => match spec_parse_file_category(c) {
                    None => Err(ErrV::BadValue(c)),
                    Some(category) => Ok(
                        FileRefV {
                            path: crate::device::slashes(p),
                            category,
                            attr: match crate::xml::spec_attr(n, "attr"@) {
                                Some(a) => spec_parse_file_attribute(a),
                                None => None,
                            },
                            condition: crate::xml::spec_attr(n, "condition"@),
                            select: crate::xml::spec_attr(n, "select"@),
                            src: crate::xml::spec_attr(n, "src"@),
                            version: crate::xml::spec_attr(n, "version"@),
                        },
                    ),
                },
            },
        }
    }
}

impl FileRef {
    /// Parses a `<file>` element.
    pub fn from_doc(doc: &XmlDoc, i: usize) -> (r: Result<FileRef, Error>)
        requires
            doc.wf(),
            i < doc@.nodes.len(),
        ensures
            match r {
                Ok(f) => spec_file_ref(doc@, i as int) == Ok::<FileRefV, ErrV>(f@),
                Err(e) => spec_file_ref(doc@, i as int) == Err::<FileRefV, ErrV>(e@),
            },
    {
        crate::xml::assert_root_name(doc, i, "file")?;
        let path = match crate::xml::attr_map(doc, i, "name") {
            Ok(p) => crate::device::normalize_path(p.as_str()),
            Err(e) => {
                return Err(e);
            },
        };
        let category = match crate::xml::attr_map(doc, i, "category") {
            Ok(c) => match parse_file_category(c.as_str()) {
                Some(cat) => cat,
                None => {
                    return Err(Error::BadValue(c));
                },
            },
            Err(e) => {
                return Err(e);
            },
        };
        Ok(
            FileRef {
                path,
                category,
                attr: match crate::xml::attr_opt(doc, i, "attr") {
                    Some(a) => parse_file_attribute(a.as_str()),
                    None => None,
                },
                condition: crate::xml::attr_opt(doc, i, "condition"),
                select: crate::xml::attr_opt(doc, i, "select"),
                src: crate::xml::attr_opt(doc, i, "src"),
                version: crate::xml::attr_opt(doc, i, "version"),
            },
        )
    }
}

/// The file children of a `<files>` block that parse, in order.
pub open spec fn spec_file_list(doc: DocV, cs: Seq<int>) -> Seq<FileRefV>
    decreases cs.len(),
{
    if cs.len() == 0 {
        Seq::empty()
    } else {
        let rest = spec_file_list(doc, cs.drop_first());
        match spec_file_ref(doc, cs[0]) {
            Ok(f) => seq![f] + rest,
            Err(_) => rest,
        }
    }
}

/// Parses every `<file>` child that parses, dropping the rest.
fn file_vec_from_children(doc: &XmlDoc, i: usize) -> (r: Vec<FileRef>)
    requires
        doc.wf(),
        i < doc@.nodes.len(),
    ensures
        r@.map_values(|f: FileRef| f@) == spec_file_list(doc@, doc@.nodes[i as int].children),
{
    let ghost cs = doc@.nodes[i as int].children;
    let n = crate::xml::child_count(doc, i);
    let mut out: Vec<FileRef> = Vec::new();
    assert(cs.skip(0) =~= cs);
    let mut k: usize = 0;
    while k < n
        invariant
            doc.wf(),
            i < doc@.nodes.len(),
            0 <= k <= n == cs.len(),
            cs == doc@.nodes[i as int].children,
            out@.map_values(|f: FileRef| f@) + spec_file_list(doc@, cs.skip(k as int))
                == spec_file_list(doc@, cs),
        decreases n - k,
    {
        let ghost pre = cs.skip(k as int);
        assert(pre[0] == cs[k as int]);
        assert(pre.drop_first() =~= cs.skip(k as int + 1));
        let j = crate::xml::child_at(doc, i, k);
        match FileRef::from_doc(doc, j) {
            Ok(f) => {
                out.push(f);
                proof {
                    assert(out@.map_values(|f: FileRef| f@) + spec_file_list(
                        doc@,
                        cs.skip(k as int + 1),
                    ) =~= spec_file_list(doc@, cs));
                }
            },
            Err(_) => {},
        }
        k = k + 1;
    }
    assert(cs.skip(n as int) =~= Seq::<int>::empty());
    assert(out@.map_values(|f: FileRef| f@) =~= spec_file_list(doc@, cs));
    out
}

/// A component as declared, before inheriting from its bundle or package.
#[derive(Debug)]
pub struct ComponentBuilder {
    pub vendor: Option<String>,
    pub class: Option<String>,
    pub group: Option<String>,
    pub sub_group: Option<String>,
    pub variant: Option<String>,
    pub version: Option<String>,
    pub api_version: Option<String>,
    pub condition: Option<String>,
    pub max_instances: Option<u8>,
    pub is_default: bool,
    pub deprecated: bool,
    pub description: String,
    pub rte_addition: String,
    pub files: Vec<FileRef>,
}

/// The mathematical image of a component builder.
#[verifier::ext_equal]
pub struct ComponentBuilderV {
    pub vendor: Option<Seq<char>>,
    pub class: Option<Seq<char>>,
    pub group: Option<Seq<char>>,
    pub sub_group: Option<Seq<char>>,
    pub variant: Option<Seq<char>>,
    pub version: Option<Seq<char>>,
    pub api_version: Option<Seq<char>>,
    pub condition: Option<Seq<char>>,
    pub max_instances: Option<u8>,
    pub is_default: bool,
    pub deprecated: bool,
    pub description: Seq<char>,
    pub rte_addition: Seq<char>,
    pub files: Seq<FileRefV>,
}

impl View for ComponentBuilder {
    type V = ComponentBuilderV;

    open spec fn view(&self) -> ComponentBuilderV {
        ComponentBuilderV {
            vendor: ov(self.vendor),
            class: ov(self.class),
            group: ov(self.group),
            sub_group: ov(self.sub_group),
            variant: ov(self.variant),
            version: ov(self.version),
            api_version: ov(self.api_version),
            condition: ov(self.condition),
            max_instances: self.max_instances,
            is_default: self.is_default,
            deprecated: self.deprecated,
            description: self.description@,
            rte_addition: self.rte_addition@,
            files: self.files@.map_values(|f: FileRef| f@),
        }
    }
}

/// A copy of a list of file references.
fn clone_files(v: &Vec<FileRef>) -> (r: Vec<FileRef>)
    ensures
        r@.map_values(|f: FileRef| f@) == v@.map_values(|f: FileRef| f@),
{
    let n = v.len();
    let mut out: Vec<FileRef> = Vec::new();
    let mut i: usize = 0;
    while i < n
        invariant
            0 <= i <= n == v@.len(),
            out@.len() == i,
            forall|j: int| 0 <= j < i ==> #[trigger] out@[j]@ == v@[j]@,
        decreases n - i,
    {
        out.push(v[i].clone());
        i = i + 1;
    }
    assert(out@.map_values(|f: FileRef| f@) =~= v@.map_values(|f: FileRef| f@));
    out
}

impl Clone for ComponentBuilder {
    fn clone(&self) -> (r: ComponentBuilder)
        ensures
            r@ == self@,
    {
        let r = ComponentBuilder {
            vendor: crate::device::clone_opt_string(&self.vendor),
            class: crate::device::clone_opt_string(&self.class),
            group: crate::device::clone_opt_string(&self.group),
            sub_group: crate::device::clone_opt_string(&self.sub_group),
            variant: crate::device::clone_opt_string(&self.variant),
            version: crate::device::clone_opt_string(&self.version),
            api_version: crate::device::clone_opt_string(&self.api_version),
            condition: crate::device::clone_opt_string(&self.condition),
            max_instances: self.max_instances,
            is_default: self.is_default,
            deprecated: self.deprecated,
            description: self.description.clone(),
            rte_addition: self.rte_addition.clone(),
            files: clone_files(&self.files),
        };
        assert(r@ =~= self@);
        r
    }
}

/// What parsing a `<component>` element yields: the optional naming
/// attributes, the flags with their defaults, the required description,
/// and the best-effort file list.
pub open spec fn spec_component_builder(doc: DocV, i: int) -> Result<ComponentBuilderV, ErrV> {
    let n = doc.nodes[i];
    if n.name != "component"@ {
        Err(ErrV::WrongRoot("component"@, n.name))
    } else {
        match crate::xml::spec_child_text(doc, i, "description"@) {
            None => Err(ErrV::MissingChild("description"@)),
            Some(description) => Ok(
                ComponentBuilderV {
                    vendor: crate::xml::spec_attr(n, "Cvendor"@),
                    class: crate::xml::spec_attr(n, "Cclass"@),
                    group: crate::xml::spec_attr(n, "Cgroup"@),
                    sub_group: crate::xml::spec_attr(n, "Csub"@),
                    variant: crate::xml::spec_attr(n, "Cvariant"@),
                    version: crate::xml::spec_attr(n, "Cversion"@),
                    api_version: crate::xml::spec_attr(n, "Capiversion"@),
                    condition: crate::xml::spec_attr(n, "condition"@),
                    max_instances: match crate::device::spec_num_attr_upto(
                        n,
                        "maxInstances"@,
                        255,
                    ) {
                        Some(v) => Some(v as u8),
                        None => None,
                    },
                    is_default: match crate::xml::spec_attr(n, "isDefaultVariant"@) {
                        Some(s) => match spec_plain_bool(s) {
                            Some(b) => b,
                            None => true,
                        },
                        None => true,
                    },
                    deprecated: match crate::xml::spec_child_text(doc, i, "deprecated"@) {
                        Some(t) => match spec_plain_bool(t) {
                            Some(b) => b,
                            None => false,
                        },
                        None => false,
                    },
                    description,
                    rte_addition: match crate::xml::spec_child_text(doc, i, "RTE_components_h"@) {
                        Some(t) => t,
                        None => Seq::empty(),
                    },
                    files: match crate::xml::spec_child(doc, i, "files"@) {
                        Some(j) => spec_file_list(doc, doc.nodes[j].children),
                        None => Seq::empty(),
                    },
                },
            ),
        }
    }
}

impl ComponentBuilder {
    /// Parses a `<component>` element.
    pub fn from_doc(doc: &XmlDoc, i: usize) -> (r: Result<ComponentBuilder, Error>)
        requires
            doc.wf(),
            i < doc@.nodes.len(),
        ensures
            match r {
                Ok(c) => spec_component_builder(doc@, i as int) == Ok::<ComponentBuilderV, ErrV>(
                    c@,
                ),
                Err(e) => spec_component_builder(doc@, i as int) == Err::<ComponentBuilderV, ErrV>(
                    e@,
                ),
            },
    {
        crate::xml::assert_root_name(doc, i, "component")?;
        let description = crate::xml::child_text(doc, i, "description")?;
        let files = match crate::xml::find_child(doc, i, "files") {
            Some(j) => file_vec_from_children(doc, j),
            None => Vec::new(),
        };
        let out = ComponentBuilder {
            vendor: crate::xml::attr_opt(doc, i, "Cvendor"),
            class: crate::xml::attr_opt(doc, i, "Cclass"),
            group: crate::xml::attr_opt(doc, i, "Cgroup"),
            sub_group: crate::xml::attr_opt(doc, i, "Csub"),
            variant: crate::xml::attr_opt(doc, i, "Cvariant"),
            version: crate::xml::attr_opt(doc, i, "Cversion"),
            api_version: crate::xml::attr_opt(doc, i, "Capiversion"),
            condition: crate::xml::attr_opt(doc, i, "condition"),
            max_instances: match crate::device::num_attr_upto(doc, i, "maxInstances", 255) {
                Some(v) => Some(v as u8),
                None => None,
            },
            is_default: match crate::xml::attr_opt(doc, i, "isDefaultVariant") {
                Some(s) => match parse_plain_bool(s.as_str()) {
                    Some(b) => b,
                    None => true,
                },
                None => true,
            },
            deprecated: match crate::xml::find_child(doc, i, "deprecated") {
                Some(j) => match parse_plain_bool(crate::xml::node_text(doc, j).as_str()) {
                    Some(b) => b,
                    None => false,
                },
                None => false,
            },
            description,
            rte_addition: match crate::xml::find_child(doc, i, "RTE_components_h") {
                Some(j) => crate::xml::node_text(doc, j),
                None => String::new(),
            },
            files,
        };
        proof {
            assert(spec_component_builder(doc@, i as int) matches Ok(v) && out@ =~= v);
        }
        Ok(out)
    }
}

/// A bundle: a grouping of components that share class, version, and
/// vendor.
#[derive(Debug)]
pub struct Bundle {
    pub name: String,
    pub class: String,
    pub version: String,
    pub vendor: Option<String>,
    pub description: String,
    pub doc: String,
    pub components: Vec<ComponentBuilder>,
}

/// The mathematical image of a bundle.
#[verifier::ext_equal]
pub struct BundleV {
    pub name: Seq<char>,
    pub class: Seq<char>,
    pub version: Seq<char>,
    pub vendor: Option<Seq<char>>,
    pub description: Seq<char>,
    pub doc: Seq<char>,
    pub components: Seq<ComponentBuilderV>,
}

impl View for Bundle {
    type V = BundleV;

    open spec fn view(&self) -> BundleV {
        BundleV {
            name: self.name@,
            class: self.class@,
            version: self.version@,
            vendor: ov(self.vendor),
            description: self.description@,
            doc: self.doc@,
            components: self.components@.map_values(|c: ComponentBuilder| c@),
        }
    }
}

/// The `<component>` children of a bundle that parse, in order.
pub open spec fn spec_bundle_components(doc: DocV, cs: Seq<int>) -> Seq<ComponentBuilderV>
    decreases cs.len(),
{
    if cs.len() == 0 {
        Seq::empty()
    } else {
        let rest = spec_bundle_components(doc, cs.drop_first());
        if doc.nodes[cs[0]].name == "component"@ {
            match spec_component_builder(doc, cs[0]) {
                Ok(c) => seq![c] + rest,
                Err(_) => rest,
            }
        } else {
            rest
        }
    }
}

/// What parsing a `<bundle>` element yields.
pub open spec fn spec_bundle(doc: DocV, i: int) -> Result<BundleV, ErrV> {
    let n = doc.nodes[i];
    if n.name != "bundle"@ {
        Err(ErrV::WrongRoot("bundle"@, n.name))
    } else if crate::xml::spec_attr(n, "Cbundle"@) is None {
        Err(ErrV::MissingAttribute("Cbundle"@))
    } else if crate::xml::spec_attr(n, "Cclass"@) is None {
        Err(ErrV::MissingAttribute("Cclass"@))
    } else if crate::xml::spec_attr(n, "Cversion"@) is None {
        Err(ErrV::MissingAttribute("Cversion"@))
    } else if crate::xml::spec_child_text(doc, i, "description"@) is None {
        Err(ErrV::MissingChild("description"@))
    } else if crate::xml::spec_child_text(doc, i, "doc"@) is None {
        Err(ErrV::MissingChild("doc"@))
    } else {
        Ok(
            BundleV {
                name: crate::xml::spec_attr(n, "Cbundle"@).unwrap(),
                class: crate::xml::spec_attr(n, "Cclass"@).unwrap(),
                version: crate::xml::spec_attr(n, "Cversion"@).unwrap(),
                vendor: crate::xml::spec_attr(n, "Cvendor"@),
                description: crate::xml::spec_child_text(doc, i, "description"@).unwrap(),
                doc: crate::xml::spec_child_text(doc, i, "doc"@).unwrap(),
                components: spec_bundle_components(doc, n.children),
            },
        )
    }
}

/// One expanded component: the bundle's class, version and vendor fill the
/// component's absent fields.
pub open spec fn spec_bundle_expand_one(c: ComponentBuilderV, b: BundleV) -> ComponentBuilderV {
    ComponentBuilderV {
        class: if c.class is Some {
            c.class
        } else {
            Some(b.class)
        },
        version: if c.version is Some {
            c.version
        } else {
            Some(b.version)
        },
        vendor: if c.vendor is Some {
            c.vendor
        } else {
            b.vendor
        },
        ..c
    }
}

/// What expanding a bundle into components yields.
pub open spec fn spec_into_components(b: BundleV) -> Seq<ComponentBuilderV> {
    b.components.map_values(|c: ComponentBuilderV| spec_bundle_expand_one(c, b))
}

impl Bundle {
    /// Parses a `<bundle>` element.
    pub fn from_doc(doc: &XmlDoc, i: usize) -> (r: Result<Bundle, Error>)
        requires
            doc.wf(),
            i < doc@.nodes.len(),
        ensures
            match r {
                Ok(b) => spec_bundle(doc@, i as int) == Ok::<BundleV, ErrV>(b@),
                Err(e) => spec_bundle(doc@, i as int) == Err::<BundleV, ErrV>(e@),
            },
    {
        crate::xml::assert_root_name(doc, i, "bundle")?;
        let name = crate::xml::attr_map(doc, i, "Cbundle")?;
        let class = crate::xml::attr_map(doc, i, "Cclass")?;
        let version = crate::xml::attr_map(doc, i, "Cversion")?;
        let vendor = crate::xml::attr_opt(doc, i, "Cvendor");
        let description = crate::xml::child_text(doc, i, "description")?;
        let doc_field = crate::xml::child_text(doc, i, "doc")?;
        let ghost cs = doc@.nodes[i as int].children;
        let n = crate::xml::child_count(doc, i);
        let mut components: Vec<ComponentBuilder> = Vec::new();
        assert(cs.skip(0) =~= cs);
        let mut k: usize = 0;
        while k < n
            invariant
                doc.wf(),
                i < doc@.nodes.len(),
                0 <= k <= n == cs.len(),
                cs == doc@.nodes[i as int].children,
                components@.map_values(|c: ComponentBuilder| c@) + spec_bundle_components(
                    doc@,
                    cs.skip(k as int),
                ) == spec_bundle_components(doc@, cs),
            decreases n - k,
        {
            let ghost pre = cs.skip(k as int);
            assert(pre[0] == cs[k as int]);
            assert(pre.drop_first() =~= cs.skip(k as int + 1));
            let j = crate::xml::child_at(doc, i, k);
            if crate::xml::name_is(doc, j, "component") {
                match ComponentBuilder::from_doc(doc, j) {
                    Ok(c) => {
                        components.push(c);
                        proof {
                            assert(components@.map_values(|c: ComponentBuilder| c@)
                                + spec_bundle_components(doc@, cs.skip(k as int + 1))
                                =~= spec_bundle_components(doc@, cs));
                        }
                    },
                    Err(_) => {},
                }
            }
            k = k + 1;
        }
        proof {
            assert(cs.skip(n as int) =~= Seq::<int>::empty());
            assert(components@.map_values(|c: ComponentBuilder| c@) =~= spec_bundle_components(
                doc@,
                cs,
            ));
        }
        let out = Bundle {
            name,
            class,
            version,
            vendor,
            description,
            doc: doc_field,
            components,
        };
        proof {
            assert(spec_bundle(doc@, i as int) matches Ok(v) && out@ =~= v);
        }
        Ok(out)
    }

    /// Expands the bundle into its components: each component inherits the
    /// bundle's class, version, and vendor where its own field is absent.
    pub fn into_components(self) -> (r: Vec<ComponentBuilder>)
        ensures
            r@.map_values(|c: ComponentBuilder| c@) == spec_into_components(self@),
    {
        let ghost bv = self@;
        let n = self.components.len();
        let mut out: Vec<ComponentBuilder> = Vec::new();
        let mut k: usize = 0;
        while k < n
            invariant
                0 <= k <= n == self.components@.len(),
                bv == self@,
                out@.len() == k,
                forall|j: int|
                    0 <= j < k ==> #[trigger] out@[j]@ == spec_bundle_expand_one(
                        bv.components[j],
                        bv,
                    ),
            decreases n - k,
        {
            let c = self.components[k].clone();
            let merged = ComponentBuilder {
                class: match c.class {
                    Some(s) => Some(s),
                    None => Some(self.class.clone()),
                },
                version: match c.version {
                    Some(s) => Some(s),
                    None => Some(self.version.clone()),
                },
                vendor: match c.vendor {
                    Some(s) => Some(s),
                    None => crate::device::clone_opt_string(&self.vendor),
                },
                ..c
            };
            proof {
                assert(merged@ =~= spec_bundle_expand_one(bv.components[k as int], bv));
            }
            out.push(merged);
            k = k + 1;
        }
        assert(out@.map_values(|c: ComponentBuilder| c@) =~= spec_into_components(bv));
        out
    }
}

/// The component builders of a `<components>` block: a `component` child
/// contributes itself, a `bundle` child contributes its expansion, and any
/// other child contributes nothing.
pub open spec fn spec_components_block(doc: DocV, cs: Seq<int>) -> Seq<ComponentBuilderV>
    decreases cs.len(),
{
    if cs.len() == 0 {
        Seq::empty()
    } else {
        let rest = spec_components_block(doc, cs.drop_first());
        let n = doc.nodes[cs[0]];
        if n.name == "component"@ {
            match spec_component_builder(doc, cs[0]) {
                Ok(c) => seq![c] + rest,
                Err(_) => rest,
            }
        } else if n.name == "bundle"@ {
            match spec_bundle(doc, cs[0]) {
                Ok(b) => spec_into_components(b) + rest,
                Err(_) => rest,
            }
        } else {
            rest
        }
    }
}

/// The component builders of a package.
#[derive(Debug)]
pub struct ComponentBuilders(pub Vec<ComponentBuilder>);

impl View for ComponentBuilders {
    type V = Seq<ComponentBuilderV>;

    open spec fn view(&self) -> Seq<ComponentBuilderV> {
        self.0@.map_values(|c: ComponentBuilder| c@)
    }
}

/// The element names the components block tells apart.
proof fn lemma_component_names_distinct()
    ensures
        "component"@ != "bundle"@,
{
    reveal_strlit("component");
    reveal_strlit("bundle");
    assert("component"@.len() == 9);
    assert("bundle"@.len() == 6);
}

impl ComponentBuilders {
    /// Parses a `<components>` block.
    pub fn from_doc(doc: &XmlDoc, i: usize) -> (r: Result<ComponentBuilders, Error>)
        requires
            doc.wf(),
            i < doc@.nodes.len(),
        ensures
            match r {
                Ok(c) => doc@.nodes[i as int].name == "components"@ && c@
                    == spec_components_block(doc@, doc@.nodes[i as int].children),
                Err(e) => doc@.nodes[i as int].name != "components"@ && e@
                    == ErrV::WrongRoot("components"@, doc@.nodes[i as int].name),
            },
    {
        crate::xml::assert_root_name(doc, i, "components")?;
        let ghost cs = doc@.nodes[i as int].children;
        let n = crate::xml::child_count(doc, i);
        let mut out: Vec<ComponentBuilder> = Vec::new();
        assert(cs.skip(0) =~= cs);
        let mut k: usize = 0;
        while k < n
            invariant
                doc.wf(),
                i < doc@.nodes.len(),
                0 <= k <= n == cs.len(),
                cs == doc@.nodes[i as int].children,
                out@.map_values(|c: ComponentBuilder| c@) + spec_components_block(
                    doc@,
                    cs.skip(k as int),
                ) == spec_components_block(doc@, cs),
            decreases n - k,
        {
            let ghost pre = cs.skip(k as int);
            assert(pre[0] == cs[k as int]);
            assert(pre.drop_first() =~= cs.skip(k as int + 1));
            proof {
                lemma_component_names_distinct();
            }
            let j = crate::xml::child_at(doc, i, k);
            if crate::xml::name_is(doc, j, "component") {
                match ComponentBuilder::from_doc(doc, j) {
                    Ok(c) => {
                        out.push(c);
                        proof {
                            assert(out@.map_values(|c: ComponentBuilder| c@)
                                + spec_components_block(doc@, cs.skip(k as int + 1))
                                =~= spec_components_block(doc@, cs));
                        }
                    },
                    Err(_) => {},
                }
            } else if crate::xml::name_is(doc, j, "bundle") {
                match Bundle::from_doc(doc, j) {
                    Ok(b) => {
                        let ghost bv = b@;
                        let mut cs2 = b.into_components();
                        let ghost add = cs2@.map_values(|c: ComponentBuilder| c@);
                        let ghost before = out@.map_values(|c: ComponentBuilder| c@);
                        out.append(&mut cs2);
                        proof {
                            assert(out@.map_values(|c: ComponentBuilder| c@) =~= before + add);
                            assert((before + add) + spec_components_block(
                                doc@,
                                cs.skip(k as int + 1),
                            ) =~= before + (add + spec_components_block(
                                doc@,
                                cs.skip(k as int + 1),
                            )));
                        }
                    },
                    Err(_) => {},
                }
            }
            k = k + 1;
        }
        proof {
            assert(cs.skip(n as int) =~= Seq::<int>::empty());
            assert(out@.map_values(|c: ComponentBuilder| c@) =~= spec_components_block(doc@, cs));
        }
        Ok(ComponentBuilders(out))
    }
}

} // verus!
