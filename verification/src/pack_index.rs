//! The two-tier index model: a vendor index (`<index>`) lists package
//! references (`<pdsc>`) and pointers to further vendor indices (`<pidx>`,
//! named `vidx` in older indices).

use vstd::prelude::*;

use crate::error::{Error, ErrV};
use crate::xml::{DocV, XmlDoc};

verus! {

/// A view of an optional string.
pub open spec fn ov(o: Option<String>) -> Option<Seq<char>> {
    match o {
        Some(s) => Some(s@),
        None => None,
    }
}

/// A pointer to one versioned package descriptor.
#[derive(Debug)]
pub struct PdscRef {
    pub url: String,
    pub vendor: String,
    pub name: String,
    pub version: String,
    pub date: Option<String>,
    pub deprecated: Option<String>,
    pub replacement: Option<String>,
    pub size: Option<String>,
}

/// The mathematical image of a package reference.
#[verifier::ext_equal]
pub struct PdscRefV {
    pub url: Seq<char>,
    pub vendor: Seq<char>,
    pub name: Seq<char>,
    pub version: Seq<char>,
    pub date: Option<Seq<char>>,
    pub deprecated: Option<Seq<char>>,
    pub replacement: Option<Seq<char>>,
    pub size: Option<Seq<char>>,
}

impl View for PdscRef {
    type V = PdscRefV;

    open spec fn view(&self) -> PdscRefV {
        PdscRefV {
            url: self.url@,
            vendor: self.vendor@,
            name: self.name@,
            version: self.version@,
            date: ov(self.date),
            deprecated: ov(self.deprecated),
            replacement: ov(self.replacement),
            size: ov(self.size),
        }
    }
}

/// A pointer to another vendor's index file.
#[derive(Debug)]
pub struct Pidx {
    pub url: String,
    pub vendor: String,
    pub date: Option<String>,
}

/// The mathematical image of a vendor index entry.
#[verifier::ext_equal]
pub struct PidxV {
    pub url: Seq<char>,
    pub vendor: Seq<char>,
    pub date: Option<Seq<char>>,
}

impl View for Pidx {
    type V = PidxV;

    open spec fn view(&self) -> PidxV {
        PidxV { url: self.url@, vendor: self.vendor@, date: ov(self.date) }
    }
}

impl Clone for PdscRef {
    fn clone(&self) -> (r: PdscRef)
        ensures
            r@ == self@,
    {
        let r = PdscRef {
            url: self.url.clone(),
            vendor: self.vendor.clone(),
            name: self.name.clone(),
            version: self.version.clone(),
            date: crate::device::clone_opt_string(&self.date),
            deprecated: crate::device::clone_opt_string(&self.deprecated),
            replacement: crate::device::clone_opt_string(&self.replacement),
            size: crate::device::clone_opt_string(&self.size),
        };
        assert(r@ =~= self@);
        r
    }
}

impl Clone for Pidx {
    fn clone(&self) -> (r: Pidx)
        ensures
            r@ == self@,
    {
        let r = Pidx {
            url: self.url.clone(),
            vendor: self.vendor.clone(),
            date: crate::device::clone_opt_string(&self.date),
        };
        assert(r@ =~= self@);
        r
    }
}

/// A parsed vendor index file.
#[derive(Debug)]
pub struct Vidx {
    pub vendor: String,
    pub url: String,
    pub timestamp: Option<String>,
    pub pdsc_index: Vec<PdscRef>,
    pub vendor_index: Vec<Pidx>,
}

/// The mathematical image of a vendor index.
#[verifier::ext_equal]
pub struct VidxV {
    pub vendor: Seq<char>,
    pub url: Seq<char>,
    pub timestamp: Option<Seq<char>>,
    pub pdsc_index: Seq<PdscRefV>,
    pub vendor_index: Seq<PidxV>,
}

impl View for Vidx {
    type V = VidxV;

    open spec fn view(&self) -> VidxV {
        VidxV {
            vendor: self.vendor@,
            url: self.url@,
            timestamp: ov(self.timestamp),
            pdsc_index: self.pdsc_index@.map_values(|p: PdscRef| p@),
            vendor_index: self.vendor_index@.map_values(|p: Pidx| p@),
        }
    }
}

// ---- parsing ----

/// What parsing a `<pdsc>` element yields: the four required attributes,
/// the optional ones carried over, or the first missing attribute.
pub open spec fn spec_pdsc_ref(doc: DocV, i: int) -> Result<PdscRefV, ErrV> {
    let n = doc.nodes[i];
    if n.name != "pdsc"@ {
        Err(ErrV::WrongRoot("pdsc"@, n.name))
    } else if crate::xml::spec_attr(n, "url"@) is None {
        Err(ErrV::MissingAttribute("url"@))
    } else if crate::xml::spec_attr(n, "vendor"@) is None {
        Err(ErrV::MissingAttribute("vendor"@))
    } else if crate::xml::spec_attr(n, "name"@) is None {
        Err(ErrV::MissingAttribute("name"@))
    } else if crate::xml::spec_attr(n, "version"@) is None {
        Err(ErrV::MissingAttribute("version"@))
    } else {
        Ok(
            PdscRefV {
                url: crate::xml::spec_attr(n, "url"@).unwrap(),
                vendor: crate::xml::spec_attr(n, "vendor"@).unwrap(),
                name: crate::xml::spec_attr(n, "name"@).unwrap(),
                version: crate::xml::spec_attr(n, "version"@).unwrap(),
                date: crate::xml::spec_attr(n, "date"@),
                deprecated: crate::xml::spec_attr(n, "deprecated"@),
                replacement: crate::xml::spec_attr(n, "replacement"@),
                size: crate::xml::spec_attr(n, "size"@),
            },
        )
    }
}

/// What parsing a `<pidx>` (or old-style `<vidx>`) entry yields.
pub open spec fn spec_pidx(doc: DocV, i: int) -> Result<PidxV, ErrV> {
    let n = doc.nodes[i];
    if n.name != "pidx"@ && n.name != "vidx"@ {
        Err(ErrV::WrongRoot("pidx"@, n.name))
    } else if crate::xml::spec_attr(n, "url"@) is None {
        Err(ErrV::MissingAttribute("url"@))
    } else if crate::xml::spec_attr(n, "vendor"@) is None {
        Err(ErrV::MissingAttribute("vendor"@))
    } else {
        Ok(
            PidxV {
                url: crate::xml::spec_attr(n, "url"@).unwrap(),
                vendor: crate::xml::spec_attr(n, "vendor"@).unwrap(),
                date: crate::xml::spec_attr(n, "date"@),
            },
        )
    }
}

/// The package references among the children, keeping those that parse.
pub open spec fn spec_pdsc_list(doc: DocV, cs: Seq<int>) -> Seq<PdscRefV>
    decreases cs.len(),
{
    if cs.len() == 0 {
        Seq::empty()
    } else {
        let rest = spec_pdsc_list(doc, cs.drop_first());
        match spec_pdsc_ref(doc, cs[0]) {
            Ok(p) => seq![p] + rest,
            Err(_) => rest,
        }
    }
}

/// The index entries among the children, keeping those that parse.
pub open spec fn spec_pidx_list(doc: DocV, cs: Seq<int>) -> Seq<PidxV>
    decreases cs.len(),
{
    if cs.len() == 0 {
        Seq::empty()
    } else {
        let rest = spec_pidx_list(doc, cs.drop_first());
        match spec_pidx(doc, cs[0]) {
            Ok(p) => seq![p] + rest,
            Err(_) => rest,
        }
    }
}

/// What parsing an `<index>` element yields: the required `vendor` and
/// `url` child text, the optional timestamp, and the two best-effort entry
/// lists under `pindex` and `vindex`.
pub open spec fn spec_vidx(doc: DocV, i: int) -> Result<VidxV, ErrV> {
    let n = doc.nodes[i];
    if n.name != "index"@ {
        Err(ErrV::WrongRoot("index"@, n.name))
    } else if crate::xml::spec_child_text(doc, i, "vendor"@) is None {
        Err(ErrV::MissingChild("vendor"@))
    } else if crate::xml::spec_child_text(doc, i, "url"@) is None {
        Err(ErrV::MissingChild("url"@))
    } else {
        Ok(
            VidxV {
                vendor: crate::xml::spec_child_text(doc, i, "vendor"@).unwrap(),
                url: crate::xml::spec_child_text(doc, i, "url"@).unwrap(),
                timestamp: crate::xml::spec_child_text(doc, i, "timestamp"@),
                pdsc_index: match crate::xml::spec_child(doc, i, "pindex"@) {
                    Some(j) => spec_pdsc_list(doc, doc.nodes[j].children),
                    None => Seq::empty(),
                },
                vendor_index: match crate::xml::spec_child(doc, i, "vindex"@) {
                    Some(j) => spec_pidx_list(doc, doc.nodes[j].children),
                    None => Seq::empty(),
                },
            },
        )
    }
}

impl PdscRef {
    /// Parses a `<pdsc>` element of a parsed document.
    pub fn from_doc(doc: &XmlDoc, i: usize) -> (r: Result<PdscRef, Error>)
        requires
            doc.wf(),
            i < doc@.nodes.len(),
        ensures
            match r {
                Ok(p) => spec_pdsc_ref(doc@, i as int) == Ok::<PdscRefV, ErrV>(p@),
                Err(e) => spec_pdsc_ref(doc@, i as int) == Err::<PdscRefV, ErrV>(e@),
            },
    {
        crate::xml::assert_root_name(doc, i, "pdsc")?;
        let url = crate::xml::attr_map(doc, i, "url")?;
        let vendor = crate::xml::attr_map(doc, i, "vendor")?;
        let name = crate::xml::attr_map(doc, i, "name")?;
        let version = crate::xml::attr_map(doc, i, "version")?;
        Ok(
            PdscRef {
                url,
                vendor,
                name,
                version,
                date: crate::xml::attr_opt(doc, i, "date"),
                deprecated: crate::xml::attr_opt(doc, i, "deprecated"),
                replacement: crate::xml::attr_opt(doc, i, "replacement"),
                size: crate::xml::attr_opt(doc, i, "size"),
            },
        )
    }

    /// Parses a `<pdsc>` element out of a text.
    pub fn from_string(s: &str) -> (r: Result<PdscRef, Error>)
        ensures
            match crate::xml::doc_of(s@) {
                Some(d) => match r {
                    Ok(p) => spec_pdsc_ref(d, 0) == Ok::<PdscRefV, ErrV>(p@),
                    Err(e) => spec_pdsc_ref(d, 0) == Err::<PdscRefV, ErrV>(e@),
                },
                None => r == Err::<PdscRef, Error>(Error::Syntax),
            },
    {
        match crate::xml::parse_doc(s) {
            Some(doc) => PdscRef::from_doc(&doc, 0),
            None => Err(Error::Syntax),
        }
    }
}

impl Pidx {
    /// Parses a `<pidx>` or old-style `<vidx>` entry of a parsed document.
    pub fn from_doc(doc: &XmlDoc, i: usize) -> (r: Result<Pidx, Error>)
        requires
            doc.wf(),
            i < doc@.nodes.len(),
        ensures
            match r {
                Ok(p) => spec_pidx(doc@, i as int) == Ok::<PidxV, ErrV>(p@),
                Err(e) => spec_pidx(doc@, i as int) == Err::<PidxV, ErrV>(e@),
            },
    {
        if !crate::xml::name_is(doc, i, "pidx") && !crate::xml::name_is(doc, i, "vidx") {
            return Err(Error::WrongRoot("pidx".to_owned(), crate::xml::node_name(doc, i)));
        }
        let url = crate::xml::attr_map(doc, i, "url")?;
        let vendor = crate::xml::attr_map(doc, i, "vendor")?;
        Ok(Pidx { url, vendor, date: crate::xml::attr_opt(doc, i, "date") })
    }

    /// Parses an index entry out of a text.
    pub fn from_string(s: &str) -> (r: Result<Pidx, Error>)
        ensures
            match crate::xml::doc_of(s@) {
                Some(d) => match r {
                    Ok(p) => spec_pidx(d, 0) == Ok::<PidxV, ErrV>(p@),
                    Err(e) => spec_pidx(d, 0) == Err::<PidxV, ErrV>(e@),
                },
                None => r == Err::<Pidx, Error>(Error::Syntax),
            },
    {
        match crate::xml::parse_doc(s) {
            Some(doc) => Pidx::from_doc(&doc, 0),
            None => Err(Error::Syntax),
        }
    }
}

/// Parses every `<pdsc>` child that parses, dropping the rest.
fn pdsc_vec_from_children(doc: &XmlDoc, i: usize) -> (r: Vec<PdscRef>)
    requires
        doc.wf(),
        i < doc@.nodes.len(),
    ensures
        r@.map_values(|p: PdscRef| p@) == spec_pdsc_list(doc@, doc@.nodes[i as int].children),
{
    let ghost cs = doc@.nodes[i as int].children;
    let n = crate::xml::child_count(doc, i);
    let mut out: Vec<PdscRef> = Vec::new();
    assert(cs.skip(0) =~= cs);
    let mut k: usize = 0;
    while k < n
        invariant
            doc.wf(),
            i < doc@.nodes.len(),
            0 <= k <= n == cs.len(),
            cs == doc@.nodes[i as int].children,
            out@.map_values(|p: PdscRef| p@) + spec_pdsc_list(doc@, cs.skip(k as int))
                == spec_pdsc_list(doc@, cs),
        decreases n - k,
    {
        let ghost pre = cs.skip(k as int);
        assert(pre[0] == cs[k as int]);
        assert(pre.drop_first() =~= cs.skip(k as int + 1));
        let j = crate::xml::child_at(doc, i, k);
        match PdscRef::from_doc(doc, j) {
            Ok(p) => {
                out.push(p);
                proof {
                    assert(out@.map_values(|p: PdscRef| p@) + spec_pdsc_list(
                        doc@,
                        cs.skip(k as int + 1),
                    ) =~= spec_pdsc_list(doc@, cs));
                }
            },
            Err(_) => {},
        }
        k = k + 1;
    }
    assert(cs.skip(n as int) =~= Seq::<int>::empty());
    assert(out@.map_values(|p: PdscRef| p@) =~= spec_pdsc_list(doc@, cs));
    out
}

/// Parses every index entry child that parses, dropping the rest.
fn pidx_vec_from_children(doc: &XmlDoc, i: usize) -> (r: Vec<Pidx>)
    requires
        doc.wf(),
        i < doc@.nodes.len(),
    ensures
        r@.map_values(|p: Pidx| p@) == spec_pidx_list(doc@, doc@.nodes[i as int].children),
{
    let ghost cs = doc@.nodes[i as int].children;
    let n = crate::xml::child_count(doc, i);
    let mut out: Vec<Pidx> = Vec::new();
    assert(cs.skip(0) =~= cs);
    let mut k: usize = 0;
    while k < n
        invariant
            doc.wf(),
            i < doc@.nodes.len(),
            0 <= k <= n == cs.len(),
            cs == doc@.nodes[i as int].children,
            out@.map_values(|p: Pidx| p@) + spec_pidx_list(doc@, cs.skip(k as int))
                == spec_pidx_list(doc@, cs),
        decreases n - k,
    {
        let ghost pre = cs.skip(k as int);
        assert(pre[0] == cs[k as int]);
        assert(pre.drop_first() =~= cs.skip(k as int + 1));
        let j = crate::xml::child_at(doc, i, k);
        match Pidx::from_doc(doc, j) {
            Ok(p) => {
                out.push(p);
                proof {
                    assert(out@.map_values(|p: Pidx| p@) + spec_pidx_list(
                        doc@,
                        cs.skip(k as int + 1),
                    ) =~= spec_pidx_list(doc@, cs));
                }
            },
            Err(_) => {},
        }
        k = k + 1;
    }
    assert(cs.skip(n as int) =~= Seq::<int>::empty());
    assert(out@.map_values(|p: Pidx| p@) =~= spec_pidx_list(doc@, cs));
    out
}

impl Vidx {
    /// Parses an `<index>` element of a parsed document.
    pub fn from_doc(doc: &XmlDoc, i: usize) -> (r: Result<Vidx, Error>)
        requires
            doc.wf(),
            i < doc@.nodes.len(),
        ensures
            match r {
                Ok(v) => spec_vidx(doc@, i as int) == Ok::<VidxV, ErrV>(v@),
                Err(e) => spec_vidx(doc@, i as int) == Err::<VidxV, ErrV>(e@),
            },
    {
        crate::xml::assert_root_name(doc, i, "index")?;
        let vendor = crate::xml::child_text(doc, i, "vendor")?;
        let url = crate::xml::child_text(doc, i, "url")?;
        let timestamp = match crate::xml::find_child(doc, i, "timestamp") {
            Some(j) => Some(crate::xml::node_text(doc, j)),
            None => None,
        };
        let pdsc_index = match crate::xml::find_child(doc, i, "pindex") {
            Some(j) => pdsc_vec_from_children(doc, j),
            None => Vec::new(),
        };
        let vendor_index = match crate::xml::find_child(doc, i, "vindex") {
            Some(j) => pidx_vec_from_children(doc, j),
            None => Vec::new(),
        };
        let out = Vidx { vendor, url, timestamp, pdsc_index, vendor_index };
        proof {
            assert(spec_vidx(doc@, i as int) matches Ok(v) && v =~= out@);
        }
        Ok(out)
    }

    /// Parses a vendor index out of a text.
    pub fn from_string(s: &str) -> (r: Result<Vidx, Error>)
        ensures
            match crate::xml::doc_of(s@) {
                Some(d) => match r {
                    Ok(v) => spec_vidx(d, 0) == Ok::<VidxV, ErrV>(v@),
                    Err(e) => spec_vidx(d, 0) == Err::<VidxV, ErrV>(e@),
                },
                None => r == Err::<Vidx, Error>(Error::Syntax),
            },
    {
        match crate::xml::parse_doc(s) {
            Some(doc) => Vidx::from_doc(&doc, 0),
            None => Err(Error::Syntax),
        }
    }
}

// ---- URL composition ----

/// The index URL of a vendor index entry: base, vendor, and `.pidx`,
/// concatenated without a separator.
pub open spec fn spec_pidx_url(p: PidxV) -> Seq<char> {
    p.url + p.vendor + ".pidx"@
}

/// Composes the index URL of a vendor index entry.
pub fn pidx_url(p: &Pidx) -> (r: String)
    ensures
        r@ == spec_pidx_url(p@),
{
    let mut out = p.url.clone();
    out.push_str(p.vendor.as_str());
    out.push_str(".pidx");
    out
}

/// The descriptor URL of a package reference: base and
/// `vendor.name.pdsc`, with exactly one slash between them.
pub open spec fn spec_pdsc_url(url: Seq<char>, vendor: Seq<char>, name: Seq<char>) -> Seq<char> {
    if url.len() > 0 && url.last() == '/' {
        url + vendor + "."@ + name + ".pdsc"@
    } else {
        url + "/"@ + vendor + "."@ + name + ".pdsc"@
    }
}

/// Composes the canonical descriptor URL of a package reference. The
/// version plays no part: this string is also the deduplication key of the
/// crawler's output.
pub fn pdsc_url(p: &PdscRef) -> (r: String)
    ensures
        r@ == spec_pdsc_url(p@.url, p@.vendor, p@.name),
{
    let mut out = p.url.clone();
    let len = p.url.as_str().unicode_len();
    if !(len > 0 && p.url.as_str().get_char(len - 1) == '/') {
        out.push_str("/");
    }
    out.push_str(p.vendor.as_str());
    out.push_str(".");
    out.push_str(p.name.as_str());
    out.push_str(".pdsc");
    out
}

/// The flat store file name of a downloaded descriptor:
/// `vendor.name.version.pdsc`.
pub open spec fn spec_pdsc_filename(p: PdscRefV) -> Seq<char> {
    p.vendor + "."@ + p.name + "."@ + p.version + ".pdsc"@
}

/// Composes the file name under which a descriptor is stored.
pub fn pdsc_filename(p: &PdscRef) -> (r: String)
    ensures
        r@ == spec_pdsc_filename(p@),
{
    let mut out = p.vendor.clone();
    out.push_str(".");
    out.push_str(p.name.as_str());
    out.push_str(".");
    out.push_str(p.version.as_str());
    out.push_str(".pdsc");
    out
}

} // verus!

verus! {

/// The serialized element of a package reference: a `pdsc` element whose
/// attributes carry the reference's fields, the optional ones only when
/// present.
pub open spec fn spec_pdsc_node(p: PdscRefV) -> crate::xml::NodeV {
    crate::xml::NodeV {
        name: "pdsc"@,
        attrs: seq![
            ("url"@, p.url),
            ("vendor"@, p.vendor),
            ("name"@, p.name),
            ("version"@, p.version),
        ] + opt_attr("date"@, p.date) + opt_attr("deprecated"@, p.deprecated) + opt_attr(
            "replacement"@,
            p.replacement,
        ) + opt_attr("size"@, p.size),
        text: Seq::empty(),
        children: Seq::empty(),
    }
}

/// An optional attribute: one pair when present, nothing when absent.
pub open spec fn opt_attr(name: Seq<char>, v: Option<Seq<char>>) -> Seq<(Seq<char>, Seq<char>)> {
    match v {
        Some(x) => seq![(name, x)],
        None => Seq::empty(),
    }
}

proof fn lemma_lookup_is_assoc(ps: Seq<(Seq<char>, Seq<char>)>, k: Seq<char>)
    ensures
        crate::xml::lookup_pair(ps, k) == crate::assoc::assoc_lookup(ps, k),
    decreases ps.len(),
{
    if ps.len() > 0 {
        lemma_lookup_is_assoc(ps.drop_first(), k);
    }
}

proof fn lemma_attr_names_distinct()
    ensures
        "url"@ != "vendor"@ && "url"@ != "name"@ && "url"@ != "version"@ && "url"@ != "date"@
            && "url"@ != "deprecated"@ && "url"@ != "replacement"@ && "url"@ != "size"@,
        "vendor"@ != "name"@ && "vendor"@ != "version"@ && "vendor"@ != "date"@ && "vendor"@
            != "deprecated"@ && "vendor"@ != "replacement"@ && "vendor"@ != "size"@,
        "name"@ != "version"@ && "name"@ != "date"@ && "name"@ != "deprecated"@ && "name"@
            != "replacement"@ && "name"@ != "size"@,
        "version"@ != "date"@ && "version"@ != "deprecated"@ && "version"@ != "replacement"@
            && "version"@ != "size"@,
        "date"@ != "deprecated"@ && "date"@ != "replacement"@ && "date"@ != "size"@,
        "deprecated"@ != "replacement"@ && "deprecated"@ != "size"@,
        "replacement"@ != "size"@,
{
    reveal_strlit("url");
    reveal_strlit("vendor");
    reveal_strlit("name");
    reveal_strlit("version");
    reveal_strlit("date");
    reveal_strlit("deprecated");
    reveal_strlit("replacement");
    reveal_strlit("size");
    assert("url"@.len() == 3);
    assert("vendor"@.len() == 6);
    assert("name"@.len() == 4);
    assert("version"@.len() == 7);
    assert("date"@.len() == 4);
    assert("deprecated"@.len() == 10);
    assert("replacement"@.len() == 11);
    assert("size"@.len() == 4);
    assert("name"@[0] == 'n');
    assert("date"@[0] == 'd');
    assert("size"@[0] == 's');
}

/// Looking one attribute up in the serialized element.
proof fn lemma_node_attr(p: PdscRefV, k: Seq<char>)
    ensures
        crate::xml::spec_attr(spec_pdsc_node(p), k) == (if k == "url"@ {
            Some(p.url)
        } else if k == "vendor"@ {
            Some(p.vendor)
        } else if k == "name"@ {
            Some(p.name)
        } else if k == "version"@ {
            Some(p.version)
        } else if k == "date"@ {
            p.date
        } else if k == "deprecated"@ {
            p.deprecated
        } else if k == "replacement"@ {
            p.replacement
        } else if k == "size"@ {
            p.size
        } else {
            None
        }),
{
    lemma_attr_names_distinct();
    reveal_with_fuel(crate::assoc::assoc_lookup, 8);
    let base = seq![
        ("url"@, p.url),
        ("vendor"@, p.vendor),
        ("name"@, p.name),
        ("version"@, p.version),
    ];
    let od = opt_attr("date"@, p.date);
    let odep = opt_attr("deprecated"@, p.deprecated);
    let orep = opt_attr("replacement"@, p.replacement);
    let osz = opt_attr("size"@, p.size);
    let attrs = spec_pdsc_node(p).attrs;
    lemma_lookup_is_assoc(attrs, k);
    let rest = od + (odep + (orep + osz));
    assert(attrs =~= base + rest);
    assert(base[0].0 == "url"@ && base[1].0 == "vendor"@ && base[2].0 == "name"@ && base[3].0
        == "version"@);
    assert forall|i: int|
        0 <= i < base.len() implies (#[trigger] base[i]).0 == "url"@ || base[i].0 == "vendor"@
        || base[i].0 == "name"@ || base[i].0 == "version"@ by {
        if i == 0 {
        } else if i == 1 {
        } else if i == 2 {
        } else {
        }
    }
    assert(crate::assoc::assoc_has_key(base, k) <==> (k == "url"@ || k == "vendor"@ || k
        == "name"@ || k == "version"@)) by {
        if crate::assoc::assoc_has_key(base, k) {
            let i = choose|i: int| 0 <= i < base.len() && base[i].0 == k;
        }
    }
    crate::assoc::lemma_assoc_lookup_concat(base, rest, k);
    assert(base.drop_first() =~= seq![
        ("vendor"@, p.vendor),
        ("name"@, p.name),
        ("version"@, p.version),
    ]);
    assert(base.drop_first().drop_first() =~= seq![("name"@, p.name), ("version"@, p.version)]);
    assert(base.drop_first().drop_first().drop_first() =~= seq![("version"@, p.version)]);
    assert(base.drop_first().drop_first().drop_first().drop_first() =~= Seq::<
        (Seq<char>, Seq<char>),
    >::empty());
    if k == "url"@ || k == "vendor"@ || k == "name"@ || k == "version"@ {
    } else {
        // the optional chain
        crate::assoc::lemma_assoc_lookup_concat(od, odep + (orep + osz), k);
        crate::assoc::lemma_assoc_lookup_concat(odep, orep + osz, k);
        crate::assoc::lemma_assoc_lookup_concat(orep, osz, k);
        assert(crate::assoc::assoc_has_key(od, k) <==> (p.date is Some && k == "date"@)) by {
            if crate::assoc::assoc_has_key(od, k) {
                let i = choose|i: int| 0 <= i < od.len() && od[i].0 == k;
            }
            if p.date is Some {
                assert(od[0].0 == "date"@);
            }
        }
        assert(crate::assoc::assoc_has_key(odep, k) <==> (p.deprecated is Some && k
            == "deprecated"@)) by {
            if crate::assoc::assoc_has_key(odep, k) {
                let i = choose|i: int| 0 <= i < odep.len() && odep[i].0 == k;
            }
            if p.deprecated is Some {
                assert(odep[0].0 == "deprecated"@);
            }
        }
        assert(crate::assoc::assoc_has_key(orep, k) <==> (p.replacement is Some && k
            == "replacement"@)) by {
            if crate::assoc::assoc_has_key(orep, k) {
                let i = choose|i: int| 0 <= i < orep.len() && orep[i].0 == k;
            }
            if p.replacement is Some {
                assert(orep[0].0 == "replacement"@);
            }
        }
        if p.date is Some {
            assert(od.drop_first() =~= Seq::<(Seq<char>, Seq<char>)>::empty());
        }
        if p.deprecated is Some {
            assert(odep.drop_first() =~= Seq::<(Seq<char>, Seq<char>)>::empty());
        }
        if p.replacement is Some {
            assert(orep.drop_first() =~= Seq::<(Seq<char>, Seq<char>)>::empty());
        }
        if p.size is Some {
            assert(osz[0].0 == "size"@);
            assert(osz.drop_first() =~= Seq::<(Seq<char>, Seq<char>)>::empty());
        }
    }
}

/// The round trip at the element level: parsing the serialized element of
/// a package reference returns the reference unchanged.
pub proof fn lemma_pdsc_ref_round_trip(p: PdscRefV)
    ensures
        spec_pdsc_ref(
            crate::xml::DocV { nodes: seq![spec_pdsc_node(p)] },
            0,
        ) == Ok::<PdscRefV, crate::error::ErrV>(p),
{
    let doc = crate::xml::DocV { nodes: seq![spec_pdsc_node(p)] };
    lemma_node_attr(p, "url"@);
    lemma_node_attr(p, "vendor"@);
    lemma_node_attr(p, "name"@);
    lemma_node_attr(p, "version"@);
    lemma_node_attr(p, "date"@);
    lemma_node_attr(p, "deprecated"@);
    lemma_node_attr(p, "replacement"@);
    lemma_node_attr(p, "size"@);
    lemma_attr_names_distinct();
    assert(spec_pdsc_ref(doc, 0) matches Ok(q) && q =~= p);
}

} // verus!

verus! {

/// The serialized element of a vendor index entry.
pub open spec fn spec_pidx_node(p: PidxV) -> crate::xml::NodeV {
    crate::xml::NodeV {
        name: "pidx"@,
        attrs: seq![("url"@, p.url), ("vendor"@, p.vendor)] + opt_attr("date"@, p.date),
        text: Seq::empty(),
        children: Seq::empty(),
    }
}

/// The round trip at the element level: parsing the serialized element of
/// a vendor index entry returns the entry unchanged.
pub proof fn lemma_pidx_round_trip(p: PidxV)
    ensures
        spec_pidx(
            crate::xml::DocV { nodes: seq![spec_pidx_node(p)] },
            0,
        ) == Ok::<PidxV, crate::error::ErrV>(p),
{
    lemma_attr_names_distinct();
    reveal_with_fuel(crate::assoc::assoc_lookup, 4);
    let n = spec_pidx_node(p);
    let base = seq![("url"@, p.url), ("vendor"@, p.vendor)];
    let od = opt_attr("date"@, p.date);
    lemma_lookup_is_assoc(n.attrs, "url"@);
    lemma_lookup_is_assoc(n.attrs, "vendor"@);
    lemma_lookup_is_assoc(n.attrs, "date"@);
    assert(base[0].0 == "url"@ && base[1].0 == "vendor"@);
    assert forall|i: int|
        0 <= i < base.len() implies (#[trigger] base[i]).0 == "url"@ || base[i].0
        == "vendor"@ by {
        if i == 0 {
        } else {
        }
    }
    assert(crate::assoc::assoc_has_key(base, "url"@)) by {
        assert(base[0].0 == "url"@);
    }
    assert(crate::assoc::assoc_has_key(base, "vendor"@)) by {
        assert(base[1].0 == "vendor"@);
    }
    assert(!crate::assoc::assoc_has_key(base, "date"@)) by {
        if crate::assoc::assoc_has_key(base, "date"@) {
            let i = choose|i: int| 0 <= i < base.len() && base[i].0 == "date"@;
        }
    }
    crate::assoc::lemma_assoc_lookup_concat(base, od, "url"@);
    crate::assoc::lemma_assoc_lookup_concat(base, od, "vendor"@);
    crate::assoc::lemma_assoc_lookup_concat(base, od, "date"@);
    assert(base.drop_first() =~= seq![("vendor"@, p.vendor)]);
    assert(base.drop_first().drop_first() =~= Seq::<(Seq<char>, Seq<char>)>::empty());
    if p.date is Some {
        assert(od[0].0 == "date"@);
        assert(od.drop_first() =~= Seq::<(Seq<char>, Seq<char>)>::empty());
    }
    assert(spec_pidx(crate::xml::DocV { nodes: seq![n] }, 0) matches Ok(q) && q =~= p);
}

} // verus!
