//! The package descriptor model: releases, the package itself, boards,
//! resolved components, the provenance-tagged device records of the
//! catalog, and the condition-reference check.

use vstd::prelude::*;

use crate::assoc::{assoc_has_key, assoc_insert};
use crate::component::{ComponentBuilder, ComponentBuilderV, ComponentBuilders, FileRef, FileRefV};
use crate::condition::{Condition, ConditionV, Conditions};
use crate::device::{Device, DeviceV, Devices, Memories};
use crate::error::{Error, ErrV};
use crate::pack_index::ov;
use crate::xml::{DocV, XmlDoc};

verus! {

/// One release of a package; index zero of the release list is the latest.
#[derive(Debug)]
pub struct Release {
    pub version: String,
    pub text: String,
}

/// The mathematical image of a release.
#[verifier::ext_equal]
pub struct ReleaseV {
    pub version: Seq<char>,
    pub text: Seq<char>,
}

impl View for Release {
    type V = ReleaseV;

    open spec fn view(&self) -> ReleaseV {
        ReleaseV { version: self.version@, text: self.text@ }
    }
}

impl Clone for Release {
    fn clone(&self) -> (r: Release)
        ensures
            r@ == self@,
    {
        Release { version: self.version.clone(), text: self.text.clone() }
    }
}

/// What parsing a `<release>` element yields: the required version and the
/// free text.
pub open spec fn spec_release(doc: DocV, i: int) -> Result<ReleaseV, ErrV> {
    let n = doc.nodes[i];
    if n.name != "release"@ {
        Err(ErrV::WrongRoot("release"@, n.name))
    } else {
        match crate::xml::spec_attr(n, "version"@) {
            None => Err(ErrV::MissingAttribute("version"@)),
            Some(version) => Ok(ReleaseV { version, text: n.text }),
        }
    }
}

impl Release {
    /// Parses a `<release>` element.
    pub fn from_doc(doc: &XmlDoc, i: usize) -> (r: Result<Release, Error>)
        requires
            doc.wf(),
            i < doc@.nodes.len(),
        ensures
            match r {
                Ok(v) => spec_release(doc@, i as int) == Ok::<ReleaseV, ErrV>(v@),
                Err(e) => spec_release(doc@, i as int) == Err::<ReleaseV, ErrV>(e@),
            },
    {
        crate::xml::assert_root_name(doc, i, "release")?;
        let version = crate::xml::attr_map(doc, i, "version")?;
        Ok(Release { version, text: crate::xml::node_text(doc, i) })
    }
}

/// The ordered release list of a package.
#[derive(Debug)]
pub struct Releases(pub Vec<Release>);

impl View for Releases {
    type V = Seq<ReleaseV>;

    open spec fn view(&self) -> Seq<ReleaseV> {
        self.0@.map_values(|r: Release| r@)
    }
}

/// The releases among the children that parse, in order.
pub open spec fn spec_release_list(doc: DocV, cs: Seq<int>) -> Seq<ReleaseV>
    decreases cs.len(),
{
    if cs.len() == 0 {
        Seq::empty()
    } else {
        let rest = spec_release_list(doc, cs.drop_first());
        match spec_release(doc, cs[0]) {
            Ok(v) => seq![v] + rest,
            Err(_) => rest,
        }
    }
}

/// What parsing a `<releases>` block yields: its parsable children, which
/// must number at least one.
pub open spec fn spec_releases(doc: DocV, i: int) -> Result<Seq<ReleaseV>, ErrV> {
    let n = doc.nodes[i];
    if n.name != "releases"@ {
        Err(ErrV::WrongRoot("releases"@, n.name))
    } else {
        let list = spec_release_list(doc, n.children);
        if list.len() == 0 {
            Err(ErrV::NoReleases)
        } else {
            Ok(list)
        }
    }
}

impl Releases {
    /// The newest release: the package's release list starts with it.
    pub fn latest_release(&self) -> (r: &Release)
        requires
            self@.len() > 0,
        ensures
            r@ == self@[0],
    {
        &self.0[0]
    }

    /// Parses a `<releases>` block; an empty result is an error.
    pub fn from_doc(doc: &XmlDoc, i: usize) -> (r: Result<Releases, Error>)
        requires
            doc.wf(),
            i < doc@.nodes.len(),
        ensures
            match r {
                Ok(v) => spec_releases(doc@, i as int) == Ok::<Seq<ReleaseV>, ErrV>(v@) && v@.len()
                    > 0,
                Err(e) => spec_releases(doc@, i as int) == Err::<Seq<ReleaseV>, ErrV>(e@),
            },
    {
        crate::xml::assert_root_name(doc, i, "releases")?;
        let ghost cs = doc@.nodes[i as int].children;
        let n = crate::xml::child_count(doc, i);
        let mut out: Vec<Release> = Vec::new();
        assert(cs.skip(0) =~= cs);
        let mut k: usize = 0;
        while k < n
            invariant
                doc.wf(),
                i < doc@.nodes.len(),
                0 <= k <= n == cs.len(),
                cs == doc@.nodes[i as int].children,
                out@.map_values(|r: Release| r@) + spec_release_list(doc@, cs.skip(k as int))
                    == spec_release_list(doc@, cs),
            decreases n - k,
        {
            let ghost pre = cs.skip(k as int);
            assert(pre[0] == cs[k as int]);
            assert(pre.drop_first() =~= cs.skip(k as int + 1));
            let j = crate::xml::child_at(doc, i, k);
            match Release::from_doc(doc, j) {
                Ok(v) => {
                    out.push(v);
                    proof {
                        assert(out@.map_values(|r: Release| r@) + spec_release_list(
                            doc@,
                            cs.skip(k as int + 1),
                        ) =~= spec_release_list(doc@, cs));
                    }
                },
                Err(_) => {},
            }
            k = k + 1;
        }
        proof {
            assert(cs.skip(n as int) =~= Seq::<int>::empty());
            assert(out@.map_values(|r: Release| r@) =~= spec_release_list(doc@, cs));
        }
        if out.len() == 0 {
            Err(Error::NoReleases)
        } else {
            Ok(Releases(out))
        }
    }
}

/// A board with the names of its mounted devices.
#[derive(Debug)]
pub struct Board {
    pub name: String,
    pub mounted_devices: Vec<String>,
}

/// The mathematical image of a board.
#[verifier::ext_equal]
pub struct BoardV {
    pub name: Seq<char>,
    pub mounted_devices: Seq<Seq<char>>,
}

impl View for Board {
    type V = BoardV;

    open spec fn view(&self) -> BoardV {
        BoardV {
            name: self.name@,
            mounted_devices: self.mounted_devices@.map_values(|s: String| s@),
        }
    }
}

/// The mounted-device names among a board's children.
pub open spec fn spec_mounted(doc: DocV, cs: Seq<int>) -> Seq<Seq<char>>
    decreases cs.len(),
{
    if cs.len() == 0 {
        Seq::empty()
    } else {
        let rest = spec_mounted(doc, cs.drop_first());
        if doc.nodes[cs[0]].name == "mountedDevice"@ {
            match crate::xml::spec_attr(doc.nodes[cs[0]], "Dname"@) {
                Some(d) => seq![d] + rest,
                None => rest,
            }
        } else {
            rest
        }
    }
}

/// What parsing a `<board>` element yields: its required name and the
/// devices its `mountedDevice` children declare.
pub open spec fn spec_board(doc: DocV, i: int) -> Result<BoardV, ErrV> {
    let n = doc.nodes[i];
    match crate::xml::spec_attr(n, "name"@) {
        None => Err(ErrV::MissingAttribute("name"@)),
        Some(name) => Ok(BoardV { name, mounted_devices: spec_mounted(doc, n.children) }),
    }
}

impl Board {
    /// Parses a `<board>` element.
    pub fn from_doc(doc: &XmlDoc, i: usize) -> (r: Result<Board, Error>)
        requires
            doc.wf(),
            i < doc@.nodes.len(),
        ensures
            match r {
                Ok(b) => spec_board(doc@, i as int) == Ok::<BoardV, ErrV>(b@),
                Err(e) => spec_board(doc@, i as int) == Err::<BoardV, ErrV>(e@),
            },
    {
        let name = crate::xml::attr_map(doc, i, "name")?;
        let ghost cs = doc@.nodes[i as int].children;
        let n = crate::xml::child_count(doc, i);
        let mut mounted: Vec<String> = Vec::new();
        assert(cs.skip(0) =~= cs);
        let mut k: usize = 0;
        while k < n
            invariant
                doc.wf(),
                i < doc@.nodes.len(),
                0 <= k <= n == cs.len(),
                cs == doc@.nodes[i as int].children,
                mounted@.map_values(|s: String| s@) + spec_mounted(doc@, cs.skip(k as int))
                    == spec_mounted(doc@, cs),
            decreases n - k,
        {
            let ghost pre = cs.skip(k as int);
            assert(pre[0] == cs[k as int]);
            assert(pre.drop_first() =~= cs.skip(k as int + 1));
            let j = crate::xml::child_at(doc, i, k);
            if crate::xml::name_is(doc, j, "mountedDevice") {
                match crate::xml::attr_opt(doc, j, "Dname") {
                    Some(d) => {
                        mounted.push(d);
                        proof {
                            assert(mounted@.map_values(|s: String| s@) + spec_mounted(
                                doc@,
                                cs.skip(k as int + 1),
                            ) =~= spec_mounted(doc@, cs));
                        }
                    },
                    None => {},
                }
            }
            k = k + 1;
        }
        proof {
            assert(cs.skip(n as int) =~= Seq::<int>::empty());
            assert(mounted@.map_values(|s: String| s@) =~= spec_mounted(doc@, cs));
        }
        Ok(Board { name, mounted_devices: mounted })
    }
}

/// The boards among the children that parse, in order.
pub open spec fn spec_board_list(doc: DocV, cs: Seq<int>) -> Seq<BoardV>
    decreases cs.len(),
{
    if cs.len() == 0 {
        Seq::empty()
    } else {
        let rest = spec_board_list(doc, cs.drop_first());
        match spec_board(doc, cs[0]) {
            Ok(b) => seq![b] + rest,
            Err(_) => rest,
        }
    }
}

/// A whole parsed package descriptor.
#[derive(Debug)]
pub struct Package {
    pub name: String,
    pub description: String,
    pub vendor: String,
    pub url: String,
    pub license: Option<String>,
    pub components: ComponentBuilders,
    pub releases: Releases,
    pub conditions: Conditions,
    pub devices: Devices,
    pub boards: Vec<Board>,
}

/// The mathematical image of a package.
#[verifier::ext_equal]
pub struct PackageV {
    pub name: Seq<char>,
    pub description: Seq<char>,
    pub vendor: Seq<char>,
    pub url: Seq<char>,
    pub license: Option<Seq<char>>,
    pub components: Seq<ComponentBuilderV>,
    pub releases: Seq<ReleaseV>,
    pub conditions: Seq<ConditionV>,
    pub devices: Seq<(Seq<char>, DeviceV)>,
    pub boards: Seq<BoardV>,
}

impl View for Package {
    type V = PackageV;

    open spec fn view(&self) -> PackageV {
        PackageV {
            name: self.name@,
            description: self.description@,
            vendor: self.vendor@,
            url: self.url@,
            license: ov(self.license),
            components: self.components@,
            releases: self.releases@,
            conditions: self.conditions@,
            devices: self.devices@,
            boards: self.boards@.map_values(|b: Board| b@),
        }
    }
}

/// What parsing a `<package>` element yields: the four required child
/// texts, the optional license, and the five optional blocks, each of
/// which falls back to empty when absent or malformed.
pub open spec fn spec_package(doc: DocV, i: int) -> Result<PackageV, ErrV> {
    let n = doc.nodes[i];
    if n.name != "package"@ {
        Err(ErrV::WrongRoot("package"@, n.name))
    } else if crate::xml::spec_child_text(doc, i, "name"@) is None {
        Err(ErrV::MissingChild("name"@))
    } else if crate::xml::spec_child_text(doc, i, "description"@) is None {
        Err(ErrV::MissingChild("description"@))
    } else if crate::xml::spec_child_text(doc, i, "vendor"@) is None {
        Err(ErrV::MissingChild("vendor"@))
    } else if crate::xml::spec_child_text(doc, i, "url"@) is None {
        Err(ErrV::MissingChild("url"@))
    } else {
        Ok(
            PackageV {
                name: crate::xml::spec_child_text(doc, i, "name"@).unwrap(),
                description: crate::xml::spec_child_text(doc, i, "description"@).unwrap(),
                vendor: crate::xml::spec_child_text(doc, i, "vendor"@).unwrap(),
                url: crate::xml::spec_child_text(doc, i, "url"@).unwrap(),
                license: crate::xml::spec_child_text(doc, i, "license"@),
                components: match crate::xml::spec_child(doc, i, "components"@) {
                    Some(j) => crate::component::spec_components_block(
                        doc,
                        doc.nodes[j].children,
                    ),
                    None => Seq::empty(),
                },
                releases: match crate::xml::spec_child(doc, i, "releases"@) {
                    Some(j) => match spec_releases(doc, j) {
                        Ok(v) => v,
                        Err(_) => Seq::empty(),
                    },
                    None => Seq::empty(),
                },
                conditions: match crate::xml::spec_child(doc, i, "conditions"@) {
                    Some(j) => crate::condition::spec_condition_list(doc, doc.nodes[j].children),
                    None => Seq::empty(),
                },
                devices: match crate::xml::spec_child(doc, i, "devices"@) {
                    Some(j) => crate::device::spec_parse_devices(doc, j),
                    None => Seq::empty(),
                },
                boards: match crate::xml::spec_child(doc, i, "boards"@) {
                    Some(j) => spec_board_list(doc, doc.nodes[j].children),
                    None => Seq::empty(),
                },
            },
        )
    }
}

/// Parses every `<board>` child that parses, dropping the rest.
fn board_vec_from_children(doc: &XmlDoc, i: usize) -> (r: Vec<Board>)
    requires
        doc.wf(),
        i < doc@.nodes.len(),
    ensures
        r@.map_values(|b: Board| b@) == spec_board_list(doc@, doc@.nodes[i as int].children),
{
    let ghost cs = doc@.nodes[i as int].children;
    let n = crate::xml::child_count(doc, i);
    let mut out: Vec<Board> = Vec::new();
    assert(cs.skip(0) =~= cs);
    let mut k: usize = 0;
    while k < n
        invariant
            doc.wf(),
            i < doc@.nodes.len(),
            0 <= k <= n == cs.len(),
            cs == doc@.nodes[i as int].children,
            out@.map_values(|b: Board| b@) + spec_board_list(doc@, cs.skip(k as int))
                == spec_board_list(doc@, cs),
        decreases n - k,
    {
        let ghost pre = cs.skip(k as int);
        assert(pre[0] == cs[k as int]);
        assert(pre.drop_first() =~= cs.skip(k as int + 1));
        let j = crate::xml::child_at(doc, i, k);
        match Board::from_doc(doc, j) {
            Ok(b) => {
                out.push(b);
                proof {
                    assert(out@.map_values(|b: Board| b@) + spec_board_list(
                        doc@,
                        cs.skip(k as int + 1),
                    ) =~= spec_board_list(doc@, cs));
                }
            },
            Err(_) => {},
        }
        k = k + 1;
    }
    proof {
        assert(cs.skip(n as int) =~= Seq::<int>::empty());
        assert(out@.map_values(|b: Board| b@) =~= spec_board_list(doc@, cs));
    }
    out
}

impl Package {
    /// Parses a `<package>` element of a parsed document.
    pub fn from_doc(doc: &XmlDoc, i: usize) -> (r: Result<Package, Error>)
        requires
            doc.wf(),
            i < doc@.nodes.len(),
        ensures
            match r {
                Ok(p) => spec_package(doc@, i as int) == Ok::<PackageV, ErrV>(p@),
                Err(e) => spec_package(doc@, i as int) == Err::<PackageV, ErrV>(e@),
            },
    {
        crate::xml::assert_root_name(doc, i, "package")?;
        let name = crate::xml::child_text(doc, i, "name")?;
        let description = crate::xml::child_text(doc, i, "description")?;
        let vendor = crate::xml::child_text(doc, i, "vendor")?;
        let url = crate::xml::child_text(doc, i, "url")?;
        let license = match crate::xml::find_child(doc, i, "license") {
            Some(j) => Some(crate::xml::node_text(doc, j)),
            None => None,
        };
        let components = match crate::xml::find_child(doc, i, "components") {
            Some(j) => match ComponentBuilders::from_doc(doc, j) {
                Ok(c) => c,
                Err(_) => ComponentBuilders(Vec::new()),
            },
            None => ComponentBuilders(Vec::new()),
        };
        let releases = match crate::xml::find_child(doc, i, "releases") {
            Some(j) => match Releases::from_doc(doc, j) {
                Ok(v) => v,
                Err(_) => Releases(Vec::new()),
            },
            None => Releases(Vec::new()),
        };
        let conditions = match crate::xml::find_child(doc, i, "conditions") {
            Some(j) => match Conditions::from_doc(doc, j) {
                Ok(c) => c,
                Err(_) => Conditions(Vec::new()),
            },
            None => Conditions(Vec::new()),
        };
        let devices = match crate::xml::find_child(doc, i, "devices") {
            Some(j) => Devices::from_doc(doc, j),
            None => Devices(Vec::new()),
        };
        let boards = match crate::xml::find_child(doc, i, "boards") {
            Some(j) => board_vec_from_children(doc, j),
            None => Vec::new(),
        };
        let out = Package {
            name,
            description,
            vendor,
            url,
            license,
            components,
            releases,
            conditions,
            devices,
            boards,
        };
        proof {
            assert(spec_package(doc@, i as int) matches Ok(v) && out@ =~= v);
        }
        Ok(out)
    }

    /// Parses a package descriptor out of a text.
    pub fn from_string(s: &str) -> (r: Result<Package, Error>)
        ensures
            match crate::xml::doc_of(s@) {
                Some(d) => match r {
                    Ok(p) => spec_package(d, 0) == Ok::<PackageV, ErrV>(p@),
                    Err(e) => spec_package(d, 0) == Err::<PackageV, ErrV>(e@),
                },
                None => r == Err::<Package, Error>(Error::Syntax),
            },
    {
        match crate::xml::parse_doc(s) {
            Some(doc) => Package::from_doc(&doc, 0),
            None => Err(Error::Syntax),
        }
    }
}

/// A component with its vendor, class, group, and version resolved.
#[derive(Debug)]
pub struct Component {
    pub vendor: String,
    pub class: String,
    pub group: String,
    pub sub_group: Option<String>,
    pub variant: Option<String>,
    pub version: String,
    pub api_version: Option<String>,
    pub condition: Option<String>,
    pub max_instances: Option<u8>,
    pub is_default: bool,
    pub deprecated: bool,
    pub description: String,
    pub rte_addition: String,
    pub files: Vec<FileRef>,
}

/// The mathematical image of a resolved component.
#[verifier::ext_equal]
pub struct ComponentV {
    pub vendor: Seq<char>,
    pub class: Seq<char>,
    pub group: Seq<char>,
    pub sub_group: Option<Seq<char>>,
    pub variant: Option<Seq<char>>,
    pub version: Seq<char>,
    pub api_version: Option<Seq<char>>,
    pub condition: Option<Seq<char>>,
    pub max_instances: Option<u8>,
    pub is_default: bool,
    pub deprecated: bool,
    pub description: Seq<char>,
    pub rte_addition: Seq<char>,
    pub files: Seq<FileRefV>,
}

impl View for Component {
    type V = ComponentV;

    open spec fn view(&self) -> ComponentV {
        ComponentV {
            vendor: self.vendor@,
            class: self.class@,
            group: self.group@,
            sub_group: ov(self.sub_group),
            variant: ov(self.variant),
            version: self.version@,
            api_version: ov(self.api_version),
            condition: ov(self.condition),
            max_instances: self.max_instances,
            is_default: self.is_default,
            deprecated: self.deprecated,
            description: self.description@,
            rte_addition: self.rte_addition@,
            files: self.files@.map_values(|f: FileRef| f@),
        }
    }
}

/// One component resolved against its package: an absent vendor falls back
/// to the package vendor, an absent version to the latest release's.
pub open spec fn spec_resolve_component(
    c: ComponentBuilderV,
    pkg_vendor: Seq<char>,
    latest_version: Seq<char>,
) -> ComponentV {
    ComponentV {
        vendor: match c.vendor {
            Some(v) => v,
            None => pkg_vendor,
        },
        class: c.class.unwrap(),
        group: c.group.unwrap(),
        sub_group: c.sub_group,
        variant: c.variant,
        version: match c.version {
            Some(v) => v,
            None => latest_version,
        },
        api_version: c.api_version,
        condition: c.condition,
        max_instances: c.max_instances,
        is_default: c.is_default,
        deprecated: c.deprecated,
        description: c.description,
        rte_addition: c.rte_addition,
        files: c.files,
    }
}

impl Package {
    /// Resolves every component builder against the package. Resolution
    /// takes every component to carry a class and a group, and the package
    /// to have a release; a caller tests both first.
    pub fn make_components(&self) -> (r: Vec<Component>)
        requires
            self@.releases.len() > 0,
            forall|j: int|
                0 <= j < self@.components.len() ==> (#[trigger] self@.components[j]).class is Some
                    && self@.components[j].group is Some,
        ensures
            r@.map_values(|c: Component| c@) == self@.components.map_values(
                |c: ComponentBuilderV|
                    spec_resolve_component(c, self@.vendor, self@.releases[0].version),
            ),
    {
        let latest = self.releases.latest_release();
        let n = self.components.0.len();
        let mut out: Vec<Component> = Vec::new();
        let mut k: usize = 0;
        while k < n
            invariant
                0 <= k <= n == self.components.0@.len(),
                self@.releases.len() > 0,
                latest@ == self@.releases[0],
                forall|j: int|
                    0 <= j < self@.components.len() ==> (
                    #[trigger] self@.components[j]).class is Some
                        && self@.components[j].group is Some,
                out@.len() == k,
                forall|j: int|
                    0 <= j < k ==> #[trigger] out@[j]@ == spec_resolve_component(
                        self@.components[j],
                        self@.vendor,
                        self@.releases[0].version,
                    ),
            decreases n - k,
        {
            let c = self.components.0[k].clone();
            assert(c@ == self@.components[k as int]);
            let vendor = match c.vendor {
                Some(v) => v,
                None => self.vendor.clone(),
            };
            let version = match c.version {
                Some(v) => v,
                None => latest.version.clone(),
            };
            let class = match c.class {
                Some(v) => v,
                None => {
                    proof {
                        assert(false);
                    }
                    String::new()
                },
            };
            let group = match c.group {
                Some(v) => v,
                None => {
                    proof {
                        assert(false);
                    }
                    String::new()
                },
            };
            let resolved = Component {
                vendor,
                class,
                group,
                sub_group: c.sub_group,
                variant: c.variant,
                version,
                api_version: c.api_version,
                condition: c.condition,
                max_instances: c.max_instances,
                is_default: c.is_default,
                deprecated: c.deprecated,
                description: c.description,
                rte_addition: c.rte_addition,
                files: c.files,
            };
            proof {
                assert(resolved@ =~= spec_resolve_component(
                    self@.components[k as int],
                    self@.vendor,
                    self@.releases[0].version,
                ));
            }
            out.push(resolved);
            k = k + 1;
        }
        assert(out@.map_values(|c: Component| c@) =~= self@.components.map_values(
            |c: ComponentBuilderV|
                spec_resolve_component(c, self@.vendor, self@.releases[0].version),
        ));
        out
    }

    /// Builds the condition table of the package: conditions keyed by id,
    /// a repeated id overwritten so that the last declaration wins.
    pub fn make_condition_lookup(&self) -> (r: Vec<(String, Condition)>)
        ensures
            r@.map_values(|p: (String, Condition)| (p.0@, p.1@)) == spec_condition_table(
                self@.conditions,
            ),
    {
        let n = self.conditions.0.len();
        let mut out: Vec<(String, Condition)> = Vec::new();
        let mut k: usize = 0;
        proof {
            assert(self@.conditions.skip(0) =~= self@.conditions);
            assert(out@.map_values(|p: (String, Condition)| (p.0@, p.1@)) =~= Seq::<
                (Seq<char>, ConditionV),
            >::empty());
        }
        while k < n
            invariant
                0 <= k <= n == self.conditions.0@.len(),
                spec_cond_fold(
                    out@.map_values(|p: (String, Condition)| (p.0@, p.1@)),
                    self@.conditions.skip(k as int),
                ) == spec_condition_table(self@.conditions),
            decreases n - k,
        {
            let ghost pre = self@.conditions.skip(k as int);
            assert(pre[0] == self@.conditions[k as int]);
            assert(pre.drop_first() =~= self@.conditions.skip(k as int + 1));
            let c = self.conditions.0[k].clone();
            assert(c@ == self@.conditions[k as int]);
            let key = c.id.clone();
            cond_table_insert(&mut out, key, c);
            k = k + 1;
        }
        proof {
            assert(self@.conditions.skip(n as int) =~= Seq::<ConditionV>::empty());
        }
        out
    }
}

/// The condition table: conditions inserted by id in order, the last
/// declaration of an id winning.
pub open spec fn spec_condition_table(cs: Seq<ConditionV>) -> Seq<(Seq<char>, ConditionV)> {
    spec_cond_fold(Seq::empty(), cs)
}

pub open spec fn spec_cond_fold(
    acc: Seq<(Seq<char>, ConditionV)>,
    cs: Seq<ConditionV>,
) -> Seq<(Seq<char>, ConditionV)>
    decreases cs.len(),
{
    if cs.len() == 0 {
        acc
    } else {
        spec_cond_fold(assoc_insert(acc, cs[0].id, cs[0]), cs.drop_first())
    }
}

/// Inserts a condition under its id, overwriting an entry of the same id.
fn cond_table_insert(table: &mut Vec<(String, Condition)>, key: String, c: Condition)
    requires
        key@ == c@.id,
    ensures
        final(table)@.map_values(|p: (String, Condition)| (p.0@, p.1@)) == assoc_insert(
            old(table)@.map_values(|p: (String, Condition)| (p.0@, p.1@)),
            c@.id,
            c@,
        ),
{
    let ghost tv = table@.map_values(|p: (String, Condition)| (p.0@, p.1@));
    let n = table.len();
    let mut i: usize = 0;
    while i < n
        invariant
            0 <= i <= n == table@.len(),
            forall|j: int| 0 <= j < i ==> tv[j].0 != key@,
            table@ == old(table)@,
            tv == table@.map_values(|p: (String, Condition)| (p.0@, p.1@)),
            key@ == c@.id,
        decreases n - i,
    {
        if crate::numbers::str_eq(table[i].0.as_str(), key.as_str()) {
            assert(tv[i as int].0 == key@);
            table[i] = (key, c);
            proof {
                crate::assoc::lemma_assoc_insert_found(tv, table@[i as int].1@.id, table@[i as int].1@, i as int);
                assert(table@.map_values(|p: (String, Condition)| (p.0@, p.1@)) =~= tv.update(
                    i as int,
                    (table@[i as int].1@.id, table@[i as int].1@),
                ));
            }
            return ;
        }
        i = i + 1;
    }
    proof {
        crate::assoc::lemma_assoc_insert_new(tv, c@.id, c@);
    }
    table.push((key, c));
    assert(table@.map_values(|p: (String, Condition)| (p.0@, p.1@)) =~= tv.push((c@.id, c@)));
}

} // verus!

verus! {

// ---- catalog records ----

/// The provenance of a catalog entry: which pack contributed it.
#[derive(Debug)]
pub struct FromPack {
    pub vendor: String,
    pub pack: String,
    pub version: String,
    pub url: String,
}

/// The mathematical image of a provenance tag.
#[verifier::ext_equal]
pub struct FromPackV {
    pub vendor: Seq<char>,
    pub pack: Seq<char>,
    pub version: Seq<char>,
    pub url: Seq<char>,
}

impl View for FromPack {
    type V = FromPackV;

    open spec fn view(&self) -> FromPackV {
        FromPackV {
            vendor: self.vendor@,
            pack: self.pack@,
            version: self.version@,
            url: self.url@,
        }
    }
}

impl Clone for FromPack {
    fn clone(&self) -> (r: FromPack)
        ensures
            r@ == self@,
    {
        FromPack {
            vendor: self.vendor.clone(),
            pack: self.pack.clone(),
            version: self.version.clone(),
            url: self.url.clone(),
        }
    }
}

impl FromPack {
    /// Bundles a pack's identity into a provenance tag.
    pub fn new(vendor: String, pack: String, version: String, url: String) -> (r: FromPack)
        ensures
            r@ == (FromPackV { vendor: vendor@, pack: pack@, version: version@, url: url@ }),
    {
        FromPack { vendor, pack, version, url }
    }
}

/// A device as it stands in the aggregated catalog: the device itself plus
/// the provenance of the pack that declared it.
#[derive(Debug)]
pub struct DumpDevice {
    pub name: String,
    pub memories: Memories,
    pub algorithms: Vec<crate::device::Algorithm>,
    pub processors: Vec<crate::device::Processor>,
    pub from_pack: FromPack,
    pub vendor: Option<String>,
    pub family: String,
    pub sub_family: Option<String>,
}

/// The mathematical image of a catalog device.
#[verifier::ext_equal]
pub struct DumpDeviceV {
    pub name: Seq<char>,
    pub memories: Seq<(Seq<char>, crate::device::MemoryV)>,
    pub algorithms: Seq<crate::device::AlgorithmV>,
    pub processors: Seq<crate::device::ProcessorV>,
    pub from_pack: FromPackV,
    pub vendor: Option<Seq<char>>,
    pub family: Seq<char>,
    pub sub_family: Option<Seq<char>>,
}

impl View for DumpDevice {
    type V = DumpDeviceV;

    open spec fn view(&self) -> DumpDeviceV {
        DumpDeviceV {
            name: self.name@,
            memories: self.memories@,
            algorithms: self.algorithms@.map_values(|a: crate::device::Algorithm| a@),
            processors: self.processors@.map_values(|p: crate::device::Processor| p@),
            from_pack: self.from_pack@,
            vendor: ov(self.vendor),
            family: self.family@,
            sub_family: ov(self.sub_family),
        }
    }
}

impl Clone for DumpDevice {
    fn clone(&self) -> (r: DumpDevice)
        ensures
            r@ == self@,
    {
        let d = Device {
            name: self.name.clone(),
            memories: self.memories.clone(),
            algorithms: Vec::new(),
            processors: Vec::new(),
            vendor: crate::device::clone_opt_string(&self.vendor),
            family: self.family.clone(),
            sub_family: crate::device::clone_opt_string(&self.sub_family),
        };
        let r = DumpDevice {
            name: d.name,
            memories: d.memories,
            algorithms: crate::device::clone_algorithms(&self.algorithms),
            processors: crate::device::clone_processors(&self.processors),
            from_pack: self.from_pack.clone(),
            vendor: d.vendor,
            family: d.family,
            sub_family: d.sub_family,
        };
        assert(r@ =~= self@);
        r
    }
}

/// A catalog device made from a resolved device and a provenance tag.
pub open spec fn spec_dump_device(d: DeviceV, fp: FromPackV) -> DumpDeviceV {
    DumpDeviceV {
        name: d.name,
        memories: d.memories,
        algorithms: d.algorithms,
        processors: d.processors,
        from_pack: fp,
        vendor: d.vendor,
        family: d.family,
        sub_family: d.sub_family,
    }
}

impl DumpDevice {
    /// Tags a device with the pack it came from.
    pub fn from_device(dev: &Device, from_pack: FromPack) -> (r: DumpDevice)
        ensures
            r@ == spec_dump_device(dev@, from_pack@),
    {
        let c = dev.clone();
        let r = DumpDevice {
            name: c.name,
            memories: c.memories,
            algorithms: c.algorithms,
            processors: c.processors,
            from_pack,
            vendor: c.vendor,
            family: c.family,
            sub_family: c.sub_family,
        };
        assert(r@ =~= spec_dump_device(dev@, r@.from_pack));
        r
    }
}

/// The provenance tag a package stamps on its devices: its vendor, name,
/// latest release version, and URL.
pub open spec fn spec_pack_provenance(p: PackageV) -> FromPackV {
    FromPackV { vendor: p.vendor, pack: p.name, version: p.releases[0].version, url: p.url }
}

/// The catalog rows a package contributes: one per device, in table
/// order, each tagged with the package's provenance.
pub open spec fn spec_make_dump_devices(p: PackageV) -> Seq<(Seq<char>, DumpDeviceV)> {
    p.devices.map_values(
        |row: (Seq<char>, DeviceV)| (row.0, spec_dump_device(row.1, spec_pack_provenance(p))),
    )
}

impl Package {
    /// Tags every device of the package with its provenance, keyed by
    /// device name. The package must have a release to take the version
    /// from.
    pub fn make_dump_devices(&self) -> (r: Vec<(String, DumpDevice)>)
        requires
            self@.releases.len() > 0,
        ensures
            r@.map_values(|p: (String, DumpDevice)| (p.0@, p.1@)) == spec_make_dump_devices(
                self@,
            ),
    {
        let latest = self.releases.latest_release();
        let fp = FromPack {
            vendor: self.vendor.clone(),
            pack: self.name.clone(),
            version: latest.version.clone(),
            url: self.url.clone(),
        };
        assert(fp@ == spec_pack_provenance(self@));
        let n = self.devices.0.len();
        let mut out: Vec<(String, DumpDevice)> = Vec::new();
        let mut k: usize = 0;
        while k < n
            invariant
                0 <= k <= n == self.devices.0@.len(),
                self@.releases.len() > 0,
                fp@ == spec_pack_provenance(self@),
                out@.len() == k,
                forall|j: int|
                    0 <= j < k ==> (#[trigger] out@[j].0@, out@[j].1@) == (
                        self@.devices[j].0,
                        spec_dump_device(self@.devices[j].1, spec_pack_provenance(self@)),
                    ),
            decreases n - k,
        {
            let name = self.devices.0[k].0.clone();
            let dd = DumpDevice::from_device(&self.devices.0[k].1, fp.clone());
            assert((name@, dd@) == (
                self@.devices[k as int].0,
                spec_dump_device(self@.devices[k as int].1, spec_pack_provenance(self@)),
            ));
            out.push((name, dd));
            k = k + 1;
        }
        assert(out@.map_values(|p: (String, DumpDevice)| (p.0@, p.1@)) =~= spec_make_dump_devices(
            self@,
        ));
        out
    }
}

// ---- the condition-reference check ----

/// The unknown condition names referenced by a list of files.
pub open spec fn spec_unknown_file_conds(
    files: Seq<FileRefV>,
    table: Seq<(Seq<char>, ConditionV)>,
) -> Seq<Seq<char>>
    decreases files.len(),
{
    if files.len() == 0 {
        Seq::empty()
    } else {
        let rest = spec_unknown_file_conds(files.drop_first(), table);
        match files[0].condition {
            Some(c) => if !assoc_has_key(table, c) {
                seq![c] + rest
            } else {
                rest
            },
            None => rest,
        }
    }
}

/// The unknown condition names referenced by the components and their
/// files, in traversal order.
pub open spec fn spec_unknown_conds(
    comps: Seq<ComponentBuilderV>,
    table: Seq<(Seq<char>, ConditionV)>,
) -> Seq<Seq<char>>
    decreases comps.len(),
{
    if comps.len() == 0 {
        Seq::empty()
    } else {
        let rest = spec_unknown_conds(comps.drop_first(), table);
        let own: Seq<Seq<char>> = match comps[0].condition {
            Some(c) => if !assoc_has_key(table, c) {
                seq![c]
            } else {
                Seq::empty()
            },
            None => Seq::empty(),
        };
        own + spec_unknown_file_conds(comps[0].files, table) + rest
    }
}

/// Whether the condition table holds an id, executably.
fn cond_table_has(table: &Vec<(String, Condition)>, id: &str) -> (r: bool)
    ensures
        r == assoc_has_key(
            table@.map_values(|p: (String, Condition)| (p.0@, p.1@)),
            id@,
        ),
{
    let ghost tv = table@.map_values(|p: (String, Condition)| (p.0@, p.1@));
    let n = table.len();
    let mut i: usize = 0;
    while i < n
        invariant
            0 <= i <= n == table@.len(),
            tv == table@.map_values(|p: (String, Condition)| (p.0@, p.1@)),
            forall|j: int| 0 <= j < i ==> tv[j].0 != id@,
        decreases n - i,
    {
        if crate::numbers::str_eq(table[i].0.as_str(), id) {
            assert(tv[i as int].0 == id@);
            return true;
        }
        i = i + 1;
    }
    false
}

impl Package {
    /// Reports every condition name that a component or one of its files
    /// references but the package's condition table lacks, in traversal
    /// order. This is the integrity check behind descriptor checking.
    pub fn check_conditions(&self) -> (r: Vec<String>)
        ensures
            r@.map_values(|s: String| s@) == spec_unknown_conds(
                self@.components,
                spec_condition_table(self@.conditions),
            ),
    {
        let table = self.make_condition_lookup();
        let ghost tv = spec_condition_table(self@.conditions);
        let n = self.components.0.len();
        let mut out: Vec<String> = Vec::new();
        let mut k: usize = 0;
        proof {
            assert(self@.components.skip(0) =~= self@.components);
        }
        while k < n
            invariant
                0 <= k <= n == self.components.0@.len(),
                tv == spec_condition_table(self@.conditions),
                table@.map_values(|p: (String, Condition)| (p.0@, p.1@)) == tv,
                out@.map_values(|s: String| s@) + spec_unknown_conds(
                    self@.components.skip(k as int),
                    tv,
                ) == spec_unknown_conds(self@.components, tv),
            decreases n - k,
        {
            let ghost pre = self@.components.skip(k as int);
            assert(pre[0] == self@.components[k as int]);
            assert(pre.drop_first() =~= self@.components.skip(k as int + 1));
            let ghost before = out@.map_values(|s: String| s@);
            let comp = &self.components.0[k];
            assert(comp@ == self@.components[k as int]);
            match &comp.condition {
                Some(c) => {
                    if !cond_table_has(&table, c.as_str()) {
                        out.push(c.clone());
                    }
                },
                None => {},
            }
            let ghost own_done = out@.map_values(|s: String| s@);
            let fn_ = comp.files.len();
            let ghost fv = comp@.files;
            let mut m: usize = 0;
            proof {
                assert(fv.skip(0) =~= fv);
            }
            while m < fn_
                invariant
                    0 <= m <= fn_ == comp.files@.len(),
                    fv == comp@.files,
                    tv == table@.map_values(|p: (String, Condition)| (p.0@, p.1@)),
                    out@.map_values(|s: String| s@) + spec_unknown_file_conds(
                        fv.skip(m as int),
                        tv,
                    ) == own_done + spec_unknown_file_conds(fv, tv),
                decreases fn_ - m,
            {
                let ghost fpre = fv.skip(m as int);
                assert(fpre[0] == fv[m as int]);
                assert(fpre.drop_first() =~= fv.skip(m as int + 1));
                match &comp.files[m].condition {
                    Some(c) => {
                        if !cond_table_has(&table, c.as_str()) {
                            out.push(c.clone());
                            proof {
                                assert(out@.map_values(|s: String| s@) + spec_unknown_file_conds(
                                    fv.skip(m as int + 1),
                                    tv,
                                ) =~= own_done + spec_unknown_file_conds(fv, tv));
                            }
                        }
                    },
                    None => {},
                }
                m = m + 1;
            }
            proof {
                assert(fv.skip(fn_ as int) =~= Seq::<FileRefV>::empty());
                assert(out@.map_values(|s: String| s@) =~= own_done + spec_unknown_file_conds(
                    fv,
                    tv,
                ));
                assert(before + spec_unknown_conds(pre, tv) =~= (before + (own_done.skip(
                    before.len() as int,
                ) + spec_unknown_file_conds(fv, tv))) + spec_unknown_conds(
                    pre.drop_first(),
                    tv,
                ));
            }
            k = k + 1;
        }
        proof {
            assert(self@.components.skip(n as int) =~= Seq::<ComponentBuilderV>::empty());
            assert(out@.map_values(|s: String| s@) =~= spec_unknown_conds(
                self@.components,
                tv,
            ));
        }
        out
    }
}

} // verus!
