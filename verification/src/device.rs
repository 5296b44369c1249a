//! The device model of a package descriptor: processors, debug options,
//! memories and flash algorithms, declared in a four-level hierarchy
//! (family, sub-family, device, variant) whose attributes are inherited by
//! all descendants unless overridden.

use vstd::prelude::*;

use crate::error::{Error, ErrV};
use crate::numbers::str_eq;
use crate::xml::{DocV, XmlDoc};

verus! {

/// The ARM core names a processor specification may declare.
#[derive(Debug, Clone, Copy, PartialEq, Eq, Structural)]
pub enum Core {
    CortexM0,
    CortexM0Plus,
    CortexM1,
    CortexM3,
    CortexM4,
    CortexM7,
    CortexM23,
    CortexM33,
    SC000,
    SC300,
    ARMV8MBL,
    ARMV8MML,
    CortexR4,
    CortexR5,
    CortexR7,
    CortexR8,
    CortexA5,
    CortexA7,
    CortexA8,
    CortexA9,
    CortexA15,
    CortexA17,
    CortexA32,
    CortexA35,
    CortexA53,
    CortexA57,
    CortexA72,
    CortexA73,
}

/// What parsing a core name yields.
pub open spec fn spec_parse_core(s: Seq<char>) -> Option<Core> {
    if s == "Cortex-M0"@ {
        Some(Core::CortexM0)
    } else if s == "Cortex-M0+"@ {
        Some(Core::CortexM0Plus)
    } else if s == "Cortex-M1"@ {
        Some(Core::CortexM1)
    } else if s == "Cortex-M3"@ {
        Some(Core::CortexM3)
    } else if s == "Cortex-M4"@ {
        Some(Core::CortexM4)
    } else if s == "Cortex-M7"@ {
        Some(Core::CortexM7)
    } else if s == "Cortex-M23"@ {
        Some(Core::CortexM23)
    } else if s == "Cortex-M33"@ {
        Some(Core::CortexM33)
    } else if s == "SC000"@ {
        Some(Core::SC000)
    } else if s == "SC300"@ {
        Some(Core::SC300)
    } else if s == "ARMV8MBL"@ {
        Some(Core::ARMV8MBL)
    } else if s == "ARMV8MML"@ {
        Some(Core::ARMV8MML)
    } else if s == "Cortex-R4"@ {
        Some(Core::CortexR4)
    } else if s == "Cortex-R5"@ {
        Some(Core::CortexR5)
    } else if s == "Cortex-R7"@ {
        Some(Core::CortexR7)
    } else if s == "Cortex-R8"@ {
        Some(Core::CortexR8)
    } else if s == "Cortex-A5"@ {
        Some(Core::CortexA5)
    } else if s == "Cortex-A7"@ {
        Some(Core::CortexA7)
    } else if s == "Cortex-A8"@ {
        Some(Core::CortexA8)
    } else if s == "Cortex-A9"@ {
        Some(Core::CortexA9)
    } else if s == "Cortex-A15"@ {
        Some(Core::CortexA15)
    } else if s == "Cortex-A17"@ {
        Some(Core::CortexA17)
    } else if s == "Cortex-A32"@ {
        Some(Core::CortexA32)
    } else if s == "Cortex-A35"@ {
        Some(Core::CortexA35)
    } else if s == "Cortex-A53"@ {
        Some(Core::CortexA53)
    } else if s == "Cortex-A57"@ {
        Some(Core::CortexA57)
    } else if s == "Cortex-A72"@ {
        Some(Core::CortexA72)
    } else if s == "Cortex-A73"@ {
        Some(Core::CortexA73)
    } else {
        None
    }
}

/// Parses a core name.
pub fn parse_core(s: &str) -> (r: Option<Core>)
    ensures
        r == spec_parse_core(s@),
{
    if str_eq(s, "Cortex-M0") {
        Some(Core::CortexM0)
    } else if str_eq(s, "Cortex-M0+") {
        Some(Core::CortexM0Plus)
    } else if str_eq(s, "Cortex-M1") {
        Some(Core::CortexM1)
    } else if str_eq(s, "Cortex-M3") {
        Some(Core::CortexM3)
    } else if str_eq(s, "Cortex-M4") {
        Some(Core::CortexM4)
    } else if str_eq(s, "Cortex-M7") {
        Some(Core::CortexM7)
    } else if str_eq(s, "Cortex-M23") {
        Some(Core::CortexM23)
    } else if str_eq(s, "Cortex-M33") {
        Some(Core::CortexM33)
    } else if str_eq(s, "SC000") {
        Some(Core::SC000)
    } else if str_eq(s, "SC300") {
        Some(Core::SC300)
    } else if str_eq(s, "ARMV8MBL") {
        Some(Core::ARMV8MBL)
    } else if str_eq(s, "ARMV8MML") {
        Some(Core::ARMV8MML)
    } else if str_eq(s, "Cortex-R4") {
        Some(Core::CortexR4)
    } else if str_eq(s, "Cortex-R5") {
        Some(Core::CortexR5)
    } else if str_eq(s, "Cortex-R7") {
        Some(Core::CortexR7)
    } else if str_eq(s, "Cortex-R8") {
        Some(Core::CortexR8)
    } else if str_eq(s, "Cortex-A5") {
        Some(Core::CortexA5)
    } else if str_eq(s, "Cortex-A7") {
        Some(Core::CortexA7)
    } else if str_eq(s, "Cortex-A8") {
        Some(Core::CortexA8)
    } else if str_eq(s, "Cortex-A9") {
        Some(Core::CortexA9)
    } else if str_eq(s, "Cortex-A15") {
        Some(Core::CortexA15)
    } else if str_eq(s, "Cortex-A17") {
        Some(Core::CortexA17)
    } else if str_eq(s, "Cortex-A32") {
        Some(Core::CortexA32)
    } else if str_eq(s, "Cortex-A35") {
        Some(Core::CortexA35)
    } else if str_eq(s, "Cortex-A53") {
        Some(Core::CortexA53)
    } else if str_eq(s, "Cortex-A57") {
        Some(Core::CortexA57)
    } else if str_eq(s, "Cortex-A72") {
        Some(Core::CortexA72)
    } else if str_eq(s, "Cortex-A73") {
        Some(Core::CortexA73)
    } else {
        None
    }
}

/// A floating point unit declaration. The descriptor aliases are
/// `FPU`, `SP_FPU`, `1` and `None`, `0` and `DP_FPU`, `2`.
#[derive(Debug, Clone, Copy, PartialEq, Eq, Structural)]
pub enum FPU {
    NotPresent,
    SinglePrecision,
    DoublePrecision,
}

pub open spec fn spec_parse_fpu(s: Seq<char>) -> Option<FPU> {
    if s == "FPU"@ || s == "SP_FPU"@ || s == "1"@ {
        Some(FPU::SinglePrecision)
    } else if s == "None"@ || s == "0"@ {
        Some(FPU::NotPresent)
    } else if s == "DP_FPU"@ || s == "2"@ {
        Some(FPU::DoublePrecision)
    } else {
        None
    }
}

pub fn parse_fpu(s: &str) -> (r: Option<FPU>)
    ensures
        r == spec_parse_fpu(s@),
{
    if str_eq(s, "FPU") || str_eq(s, "SP_FPU") || str_eq(s, "1") {
        Some(FPU::SinglePrecision)
    } else if str_eq(s, "None") || str_eq(s, "0") {
        Some(FPU::NotPresent)
    } else if str_eq(s, "DP_FPU") || str_eq(s, "2") {
        Some(FPU::DoublePrecision)
    } else {
        None
    }
}

/// A memory protection unit declaration, with aliases `MPU`, `1` and
/// `None`, `0`.
#[derive(Debug, Clone, Copy, PartialEq, Eq, Structural)]
pub enum MPU {
    NotPresent,
    Present,
}

pub open spec fn spec_parse_mpu(s: Seq<char>) -> Option<MPU> {
    if s == "MPU"@ || s == "1"@ {
        Some(MPU::Present)
    } else if s == "None"@ || s == "0"@ {
        Some(MPU::NotPresent)
    } else {
        None
    }
}

pub fn parse_mpu(s: &str) -> (r: Option<MPU>)
    ensures
        r == spec_parse_mpu(s@),
{
    if str_eq(s, "MPU") || str_eq(s, "1") {
        Some(MPU::Present)
    } else if str_eq(s, "None") || str_eq(s, "0") {
        Some(MPU::NotPresent)
    } else {
        None
    }
}

// ---- memory permissions ----

/// The permission flags of a memory region.
#[derive(Debug, Clone, Copy, PartialEq, Eq, Structural)]
pub struct MemoryPermissions {
    pub read: bool,
    pub write: bool,
    pub execute: bool,
    pub peripheral: bool,
    pub secure: bool,
    pub non_secure: bool,
    pub non_secure_callable: bool,
}

pub open spec fn no_permissions() -> MemoryPermissions {
    MemoryPermissions {
        read: false,
        write: false,
        execute: false,
        peripheral: false,
        secure: false,
        non_secure: false,
        non_secure_callable: false,
    }
}

/// Turns one access character's flag on; unknown characters change nothing.
pub open spec fn set_permission(p: MemoryPermissions, c: char) -> MemoryPermissions {
    if c == 'r' {
        MemoryPermissions { read: true, ..p }
    } else if c == 'w' {
        MemoryPermissions { write: true, ..p }
    } else if c == 'x' {
        MemoryPermissions { execute: true, ..p }
    } else if c == 'p' {
        MemoryPermissions { peripheral: true, ..p }
    } else if c == 's' {
        MemoryPermissions { secure: true, ..p }
    } else if c == 'n' {
        MemoryPermissions { non_secure: true, ..p }
    } else if c == 'c' {
        MemoryPermissions { non_secure_callable: true, ..p }
    } else {
        p
    }
}

/// What reading a whole access string yields.
pub open spec fn spec_permissions(s: Seq<char>) -> MemoryPermissions
    decreases s.len(),
{
    if s.len() == 0 {
        no_permissions()
    } else {
        set_permission(spec_permissions(s.drop_last()), s.last())
    }
}

impl MemoryPermissions {
    /// Reads an access string such as `rwx`; unknown characters are
    /// ignored.
    pub fn from_str(input: &str) -> (r: MemoryPermissions)
        ensures
            r == spec_permissions(input@),
    {
        let len = input.unicode_len();
        let mut p = MemoryPermissions {
            read: false,
            write: false,
            execute: false,
            peripheral: false,
            secure: false,
            non_secure: false,
            non_secure_callable: false,
        };
        let mut i: usize = 0;
        assert(input@.subrange(0, 0) =~= Seq::<char>::empty());
        while i < len
            invariant
                0 <= i <= len == input@.len(),
                p == spec_permissions(input@.subrange(0, i as int)),
            decreases len - i,
        {
            let c = input.get_char(i);
            i = i + 1;
            proof {
                let t = input@.subrange(0, i as int);
                assert(t.drop_last() =~= input@.subrange(0, i - 1 as int));
                assert(t.last() == input@[i - 1 as int]);
            }
            if c == 'r' {
                p.read = true;
            } else if c == 'w' {
                p.write = true;
            } else if c == 'x' {
                p.execute = true;
            } else if c == 'p' {
                p.peripheral = true;
            } else if c == 's' {
                p.secure = true;
            } else if c == 'n' {
                p.non_secure = true;
            } else if c == 'c' {
                p.non_secure_callable = true;
            }
        }
        assert(input@.subrange(0, len as int) =~= input@);
        p
    }
}

// ---- substring search, for the id-based access default ----

/// Whether `needle` occurs in `hay` starting at position `k`.
pub open spec fn occurs_at(hay: Seq<char>, needle: Seq<char>, k: int) -> bool {
    0 <= k && k + needle.len() <= hay.len() && hay.subrange(k, k + needle.len()) == needle
}

pub open spec fn contains_sub(hay: Seq<char>, needle: Seq<char>) -> bool {
    exists|k: int| occurs_at(hay, needle, k)
}

/// Whether the needle occurs anywhere in the hay.
pub fn contains(hay: &str, needle: &str) -> (r: bool)
    ensures
        r == contains_sub(hay@, needle@),
{
    let hl = hay.unicode_len();
    let nl = needle.unicode_len();
    if nl > hl {
        assert(forall|k: int| !occurs_at(hay@, needle@, k));
        return false;
    }
    if nl == 0 {
        assert(hay@.subrange(0, 0) =~= needle@);
        assert(occurs_at(hay@, needle@, 0));
        return true;
    }
    let mut k: usize = 0;
    while k <= hl - nl
        invariant
            0 < nl <= hl == hay@.len(),
            nl == needle@.len(),
            0 <= k <= hl - nl + 1,
            forall|j: int| 0 <= j < k ==> !occurs_at(hay@, needle@, j),
        decreases hl - k,
    {
        let piece = hay.substring_char(k, k + nl);
        if str_eq(piece, needle) {
            assert(occurs_at(hay@, needle@, k as int));
            return true;
        }
        k = k + 1;
    }
    assert(forall|j: int| !occurs_at(hay@, needle@, j));
    false
}

// ---- memories ----

/// A copy of an optional string.
pub fn clone_opt_string(o: &Option<String>) -> (r: Option<String>)
    ensures
        crate::pack_index::ov(r) == crate::pack_index::ov(*o),
{
    match o {
        Some(s) => Some(s.clone()),
        None => None,
    }
}

/// One memory region of a device.
#[derive(Debug)]
pub struct Memory {
    pub p_name: Option<String>,
    pub access: MemoryPermissions,
    pub start: u64,
    pub size: u64,
    pub startup: bool,
    pub default: bool,
}

/// The mathematical image of a memory region.
#[verifier::ext_equal]
pub struct MemoryV {
    pub p_name: Option<Seq<char>>,
    pub access: MemoryPermissions,
    pub start: u64,
    pub size: u64,
    pub startup: bool,
    pub default: bool,
}

impl View for Memory {
    type V = MemoryV;

    open spec fn view(&self) -> MemoryV {
        MemoryV {
            p_name: crate::pack_index::ov(self.p_name),
            access: self.access,
            start: self.start,
            size: self.size,
            startup: self.startup,
            default: self.default,
        }
    }
}

impl Clone for Memory {
    fn clone(&self) -> (r: Memory)
        ensures
            r@ == self@,
    {
        Memory {
            p_name: clone_opt_string(&self.p_name),
            access: self.access,
            start: self.start,
            size: self.size,
            startup: self.startup,
            default: self.default,
        }
    }
}

/// The named memory regions of a device, keyed by region name; keys are
/// unique, and a later insertion under the same name replaces the entry.
#[derive(Debug)]
pub struct Memories(pub Vec<(String, Memory)>);

impl Clone for Memories {
    fn clone(&self) -> (r: Memories)
        ensures
            r@ == self@,
    {
        let n = self.0.len();
        let mut out: Vec<(String, Memory)> = Vec::new();
        let mut i: usize = 0;
        while i < n
            invariant
                0 <= i <= n == self.0@.len(),
                out@.len() == i,
                forall|j: int| 0 <= j < i ==> (#[trigger] out@[j].0@, out@[j].1@) == self@[j],
            decreases n - i,
        {
            let s = self.0[i].0.clone();
            let m = self.0[i].1.clone();
            assert((s@, m@) == self@[i as int]);
            out.push((s, m));
            i = i + 1;
        }
        let r = Memories(out);
        assert(r@ =~= self@);
        r
    }
}

impl View for Memories {
    type V = Seq<(Seq<char>, MemoryV)>;

    open spec fn view(&self) -> Seq<(Seq<char>, MemoryV)> {
        self.0@.map_values(|p: (String, Memory)| (p.0@, p.1@))
    }
}

/// Whether the table holds an entry under the key.
pub open spec fn mem_has_key(ms: Seq<(Seq<char>, MemoryV)>, k: Seq<char>) -> bool {
    exists|i: int| 0 <= i < ms.len() && ms[i].0 == k
}

/// The first entry under the key.
pub open spec fn mem_lookup(ms: Seq<(Seq<char>, MemoryV)>, k: Seq<char>) -> Option<MemoryV>
    decreases ms.len(),
{
    if ms.len() == 0 {
        None
    } else if ms[0].0 == k {
        Some(ms[0].1)
    } else {
        mem_lookup(ms.drop_first(), k)
    }
}

/// The entries of `r` whose keys are absent from `l`, in order.
pub open spec fn mem_missing(l: Seq<(Seq<char>, MemoryV)>, r: Seq<(Seq<char>, MemoryV)>) -> Seq<
    (Seq<char>, MemoryV),
>
    decreases r.len(),
{
    if r.len() == 0 {
        Seq::empty()
    } else {
        let rest = mem_missing(l, r.drop_first());
        if mem_has_key(l, r[0].0) {
            rest
        } else {
            seq![r[0]] + rest
        }
    }
}

/// The memory merge of the inheritance walk: the child's entries stand,
/// and the parent contributes exactly those names the child lacks.
pub open spec fn spec_merge_memories(l: Seq<(Seq<char>, MemoryV)>, r: Seq<(Seq<char>, MemoryV)>) -> Seq<
    (Seq<char>, MemoryV),
> {
    l + mem_missing(l, r)
}

/// Whether the table holds the key, executably.
fn memories_has_key(ms: &Memories, k: &str) -> (r: bool)
    ensures
        r == mem_has_key(ms@, k@),
{
    let n = ms.0.len();
    let mut i: usize = 0;
    while i < n
        invariant
            0 <= i <= n == ms.0@.len(),
            forall|j: int| 0 <= j < i ==> ms@[j].0 != k@,
        decreases n - i,
    {
        if str_eq(ms.0[i].0.as_str(), k) {
            assert(ms@[i as int].0 == k@);
            return true;
        }
        i = i + 1;
    }
    false
}

/// Merges a parent's memories under a child's: entries of the parent whose
/// names the child lacks are appended, and the child's own entries win.
pub fn merge_memories(lhs: Memories, rhs: &Memories) -> (r: Memories)
    ensures
        r@ == spec_merge_memories(lhs@, rhs@),
{
    let ghost l = lhs@;
    let ghost rv = rhs@;
    let mut added: Vec<(String, Memory)> = Vec::new();
    let n = rhs.0.len();
    let mut k: usize = 0;
    assert(rv.skip(0) =~= rv);
    while k < n
        invariant
            added@.map_values(|p: (String, Memory)| (p.0@, p.1@)) + mem_missing(
                l,
                rv.skip(k as int),
            ) == mem_missing(l, rv),
            0 <= k <= n == rhs.0@.len(),
            rv == rhs@,
            l == lhs@,
        decreases n - k,
    {
        let ghost pre = rv.skip(k as int);
        assert(pre[0] == rv[k as int]);
        assert(pre.drop_first() =~= rv.skip(k as int + 1));
        let key = rhs.0[k].0.clone();
        let m = rhs.0[k].1.clone();
        assert((key@, m@) == rv[k as int]);
        if !memories_has_key(&lhs, key.as_str()) {
            added.push((key, m));
            proof {
                assert(added@.map_values(|p: (String, Memory)| (p.0@, p.1@)) + mem_missing(
                    l,
                    rv.skip(k as int + 1),
                ) =~= mem_missing(l, rv));
            }
        }
        k = k + 1;
    }
    assert(rv.skip(n as int) =~= Seq::<(Seq<char>, MemoryV)>::empty());
    let mut out = lhs;
    let mut added = added;
    out.0.append(&mut added);
    proof {
        assert(out@ =~= spec_merge_memories(l, rv));
    }
    out
}

// ---- insertion with replacement ----

/// Inserts under a key, replacing the first entry with that key in place,
/// or appending when the key is new.
pub open spec fn mem_insert(
    ms: Seq<(Seq<char>, MemoryV)>,
    k: Seq<char>,
    v: MemoryV,
) -> Seq<(Seq<char>, MemoryV)>
    decreases ms.len(),
{
    if ms.len() == 0 {
        seq![(k, v)]
    } else if ms[0].0 == k {
        seq![(k, v)] + ms.drop_first()
    } else {
        seq![ms[0]] + mem_insert(ms.drop_first(), k, v)
    }
}

proof fn lemma_mem_insert_found(ms: Seq<(Seq<char>, MemoryV)>, k: Seq<char>, v: MemoryV, i: int)
    requires
        0 <= i < ms.len(),
        ms[i].0 == k,
        forall|j: int| 0 <= j < i ==> ms[j].0 != k,
    ensures
        mem_insert(ms, k, v) == ms.update(i, (k, v)),
    decreases i,
{
    if i == 0 {
        assert(mem_insert(ms, k, v) =~= ms.update(0, (k, v)));
    } else {
        lemma_mem_insert_found(ms.drop_first(), k, v, i - 1);
        assert(ms.drop_first().update(i - 1, (k, v)) =~= ms.update(i, (k, v)).drop_first());
        assert(mem_insert(ms, k, v) =~= ms.update(i, (k, v)));
    }
}

proof fn lemma_mem_insert_new(ms: Seq<(Seq<char>, MemoryV)>, k: Seq<char>, v: MemoryV)
    requires
        forall|j: int| 0 <= j < ms.len() ==> ms[j].0 != k,
    ensures
        mem_insert(ms, k, v) == ms.push((k, v)),
    decreases ms.len(),
{
    if ms.len() == 0 {
        assert(mem_insert(ms, k, v) =~= ms.push((k, v)));
    } else {
        lemma_mem_insert_new(ms.drop_first(), k, v);
        assert(mem_insert(ms, k, v) =~= ms.push((k, v)));
    }
}

impl Memories {
    /// Inserts a region under its name, overwriting an entry of the same
    /// name as a repeated declaration does.
    pub fn insert(&mut self, name: String, mem: Memory)
        ensures
            final(self)@ == mem_insert(old(self)@, name@, mem@),
    {
        let n = self.0.len();
        let mut i: usize = 0;
        while i < n
            invariant
                0 <= i <= n == self.0@.len(),
                forall|j: int| 0 <= j < i ==> self@[j].0 != name@,
                self@ == old(self)@,
            decreases n - i,
        {
            if str_eq(self.0[i].0.as_str(), name.as_str()) {
                assert(self@[i as int].0 == name@);
                self.0[i] = (name, mem);
                proof {
                    lemma_mem_insert_found(old(self)@, name@, mem@, i as int);
                    assert(self@ =~= old(self)@.update(i as int, (name@, mem@)));
                }
                return ;
            }
            i = i + 1;
        }
        proof {
            lemma_mem_insert_new(old(self)@, name@, mem@);
        }
        self.0.push((name, mem));
        assert(self@ =~= old(self)@.push((name@, mem@)));
    }
}

// ---- parsing one memory region ----

/// The permissions a memory element resolves to: the `access` string when
/// present, else a default read from the `id`: ids containing `ROM` read
/// and execute, ids containing `RAM` read and write, anything else nothing.
pub open spec fn spec_memory_access(n: crate::xml::NodeV) -> MemoryPermissions {
    match crate::xml::spec_attr(n, "access"@) {
        Some(a) => spec_permissions(a),
        None => {
            let id = match crate::xml::spec_attr(n, "id"@) {
                Some(s) => s,
                None => Seq::empty(),
            };
            if contains_sub(id, "ROM"@) {
                spec_permissions("rx"@)
            } else if contains_sub(id, "RAM"@) {
                spec_permissions("rw"@)
            } else {
                no_permissions()
            }
        },
    }
}

/// What parsing a `<memory>` element yields: its name (the `id` attribute,
/// else `name`), and the region with its permissions, bounds and flags.
pub open spec fn spec_memory(doc: DocV, i: int) -> Result<(Seq<char>, MemoryV), ErrV> {
    let n = doc.nodes[i];
    let name = if crate::xml::spec_attr(n, "id"@) is Some {
        crate::xml::spec_attr(n, "id"@)
    } else {
        crate::xml::spec_attr(n, "name"@)
    };
    if name is None {
        Err(ErrV::NoMemoryName)
    } else {
        match crate::xml::spec_attr(n, "start"@) {
            None => Err(ErrV::MissingAttribute("start"@)),
            Some(st) => match crate::numbers::spec_parse_number(st) {
                None => Err(ErrV::BadNumber(st)),
                Some(start) => match crate::xml::spec_attr(n, "size"@) {
                    None => Err(ErrV::MissingAttribute("size"@)),
                    Some(sz) => match crate::numbers::spec_parse_number(sz) {
                        None => Err(ErrV::BadNumber(sz)),
                        Some(size) => Ok(
                            (
                                name.unwrap(),
                                MemoryV {
                                    p_name: crate::xml::spec_attr(n, "Pname"@),
                                    access: spec_memory_access(n),
                                    start,
                                    size,
                                    startup: spec_bool_attr(n, "startup"@),
                                    default: spec_bool_attr(n, "default"@),
                                },
                            ),
                        ),
                    },
                },
            },
        }
    }
}

/// A boolean attribute that falls back to false when absent or unreadable.
pub open spec fn spec_bool_attr(n: crate::xml::NodeV, name: Seq<char>) -> bool {
    match crate::xml::spec_attr(n, name) {
        Some(s) => match crate::numbers::spec_parse_bool(s) {
            Some(b) => b,
            None => false,
        },
        None => false,
    }
}

/// Parses one `<memory>` element into its name and region.
pub fn parse_memory(doc: &XmlDoc, i: usize) -> (r: Result<(String, Memory), Error>)
    requires
        doc.wf(),
        i < doc@.nodes.len(),
    ensures
        match r {
            Ok(p) => spec_memory(doc@, i as int) == Ok::<(Seq<char>, MemoryV), ErrV>(
                (p.0@, p.1@),
            ),
            Err(e) => spec_memory(doc@, i as int) == Err::<(Seq<char>, MemoryV), ErrV>(e@),
        },
{
    let access = match crate::xml::attr_opt(doc, i, "access") {
        Some(a) => MemoryPermissions::from_str(a.as_str()),
        None => {
            let id = match crate::xml::attr_opt(doc, i, "id") {
                Some(s) => s,
                None => String::new(),
            };
            if contains(id.as_str(), "ROM") {
                MemoryPermissions::from_str("rx")
            } else if contains(id.as_str(), "RAM") {
                MemoryPermissions::from_str("rw")
            } else {
                proof {
                    reveal_strlit("");
                    assert(spec_permissions(""@) == no_permissions());
                }
                MemoryPermissions::from_str("")
            }
        },
    };
    assert(access == spec_memory_access(doc@.nodes[i as int]));
    let name = match crate::xml::attr_opt(doc, i, "id") {
        Some(s) => s,
        None => match crate::xml::attr_opt(doc, i, "name") {
            Some(s) => s,
            None => {
                return Err(Error::NoMemoryName);
            },
        },
    };
    let p_name = crate::xml::attr_opt(doc, i, "Pname");
    let start = match crate::xml::attr_map(doc, i, "start") {
        Ok(s) => match crate::numbers::parse_number(s.as_str()) {
            Some(v) => v,
            None => {
                return Err(Error::BadNumber(s));
            },
        },
        Err(e) => {
            return Err(e);
        },
    };
    let size = match crate::xml::attr_map(doc, i, "size") {
        Ok(s) => match crate::numbers::parse_number(s.as_str()) {
            Some(v) => v,
            None => {
                return Err(Error::BadNumber(s));
            },
        },
        Err(e) => {
            return Err(e);
        },
    };
    let startup = crate::xml::attr_parse_bool_or(doc, i, "startup", false);
    let default = crate::xml::attr_parse_bool_or(doc, i, "default", false);
    Ok((name, Memory { p_name, access, start, size, startup, default }))
}

// ---- flash algorithms ----

/// A path with every backslash turned into a forward slash.
pub open spec fn slashes(s: Seq<char>) -> Seq<char> {
    s.map_values(
        |c: char|
            if c == '\\' {
                '/'
            } else {
                c
            },
    )
}

/// Normalizes backslashes in a path to forward slashes.
pub fn normalize_path(s: &str) -> (r: String)
    ensures
        r@ == slashes(s@),
{
    let len = s.unicode_len();
    let mut out = String::new();
    let mut i: usize = 0;
    while i < len
        invariant
            0 <= i <= len == s@.len(),
            out@.len() == i,
            forall|j: int| 0 <= j < i ==> out@[j] == slashes(s@)[j],
        decreases len - i,
    {
        let c = s.get_char(i);
        if c == '\\' {
            out.push('/');
        } else {
            out.push(c);
        }
        i = i + 1;
    }
    assert(out@ =~= slashes(s@));
    out
}

/// One flash algorithm record of a device.
#[derive(Debug)]
pub struct Algorithm {
    pub file_name: String,
    pub start: u64,
    pub size: u64,
    pub default: bool,
    pub ram_start: Option<u64>,
    pub ram_size: Option<u64>,
}

/// The mathematical image of an algorithm record.
#[verifier::ext_equal]
pub struct AlgorithmV {
    pub file_name: Seq<char>,
    pub start: u64,
    pub size: u64,
    pub default: bool,
    pub ram_start: Option<u64>,
    pub ram_size: Option<u64>,
}

impl View for Algorithm {
    type V = AlgorithmV;

    open spec fn view(&self) -> AlgorithmV {
        AlgorithmV {
            file_name: self.file_name@,
            start: self.start,
            size: self.size,
            default: self.default,
            ram_start: self.ram_start,
            ram_size: self.ram_size,
        }
    }
}

impl Clone for Algorithm {
    fn clone(&self) -> (r: Algorithm)
        ensures
            r@ == self@,
    {
        Algorithm {
            file_name: self.file_name.clone(),
            start: self.start,
            size: self.size,
            default: self.default,
            ram_start: self.ram_start,
            ram_size: self.ram_size,
        }
    }
}

/// An optional numeric attribute; an unreadable value counts as absent.
pub open spec fn spec_hex_attr_opt(n: crate::xml::NodeV, name: Seq<char>) -> Option<u64> {
    match crate::xml::spec_attr(n, name) {
        Some(s) => crate::numbers::spec_parse_number(s),
        None => None,
    }
}

/// What parsing an `<algorithm>` element yields.
pub open spec fn spec_algorithm(doc: DocV, i: int) -> Result<AlgorithmV, ErrV> {
    let n = doc.nodes[i];
    match crate::xml::spec_attr(n, "name"@) {
        None => Err(ErrV::MissingAttribute("name"@)),
        Some(fname) => match crate::xml::spec_attr(n, "start"@) {
            None => Err(ErrV::MissingAttribute("start"@)),
            Some(st) => match crate::numbers::spec_parse_number(st) {
                None => Err(ErrV::BadNumber(st)),
                Some(start) => match crate::xml::spec_attr(n, "size"@) {
                    None => Err(ErrV::MissingAttribute("size"@)),
                    Some(sz) => match crate::numbers::spec_parse_number(sz) {
                        None => Err(ErrV::BadNumber(sz)),
                        Some(size) => Ok(
                            AlgorithmV {
                                file_name: slashes(fname),
                                start,
                                size,
                                default: spec_bool_attr(n, "default"@),
                                ram_start: spec_hex_attr_opt(n, "RAMstart"@),
                                ram_size: spec_hex_attr_opt(n, "RAMsize"@),
                            },
                        ),
                    },
                },
            },
        },
    }
}

/// Parses one `<algorithm>` element.
pub fn parse_algorithm(doc: &XmlDoc, i: usize) -> (r: Result<Algorithm, Error>)
    requires
        doc.wf(),
        i < doc@.nodes.len(),
    ensures
        match r {
            Ok(a) => spec_algorithm(doc@, i as int) == Ok::<AlgorithmV, ErrV>(a@),
            Err(e) => spec_algorithm(doc@, i as int) == Err::<AlgorithmV, ErrV>(e@),
        },
{
    let default = crate::xml::attr_parse_bool_or(doc, i, "default", false);
    let file_name = match crate::xml::attr_map(doc, i, "name") {
        Ok(s) => normalize_path(s.as_str()),
        Err(e) => {
            return Err(e);
        },
    };
    let start = match crate::xml::attr_map(doc, i, "start") {
        Ok(s) => match crate::numbers::parse_number(s.as_str()) {
            Some(v) => v,
            None => {
                return Err(Error::BadNumber(s));
            },
        },
        Err(e) => {
            return Err(e);
        },
    };
    let size = match crate::xml::attr_map(doc, i, "size") {
        Ok(s) => match crate::numbers::parse_number(s.as_str()) {
            Some(v) => v,
            None => {
                return Err(Error::BadNumber(s));
            },
        },
        Err(e) => {
            return Err(e);
        },
    };
    let ram_start = match crate::xml::attr_opt(doc, i, "RAMstart") {
        Some(s) => crate::numbers::parse_number(s.as_str()),
        None => None,
    };
    let ram_size = match crate::xml::attr_opt(doc, i, "RAMsize") {
        Some(s) => crate::numbers::parse_number(s.as_str()),
        None => None,
    };
    Ok(Algorithm { file_name, start, size, default, ram_start, ram_size })
}

// ---- debug options ----

/// One resolved debug option record.
#[derive(Debug)]
pub struct Debug {
    pub ap: u8,
    pub dp: u8,
    pub apid: Option<u32>,
    pub address: Option<u32>,
    pub svd: Option<String>,
    pub name: Option<String>,
    pub unit: Option<u64>,
    pub default_reset_sequence: Option<String>,
}

/// The mathematical image of a debug option record.
#[verifier::ext_equal]
pub struct DebugV {
    pub ap: u8,
    pub dp: u8,
    pub apid: Option<u32>,
    pub address: Option<u32>,
    pub svd: Option<Seq<char>>,
    pub name: Option<Seq<char>>,
    pub unit: Option<u64>,
    pub default_reset_sequence: Option<Seq<char>>,
}

impl View for Debug {
    type V = DebugV;

    open spec fn view(&self) -> DebugV {
        DebugV {
            ap: self.ap,
            dp: self.dp,
            apid: self.apid,
            address: self.address,
            svd: crate::pack_index::ov(self.svd),
            name: crate::pack_index::ov(self.name),
            unit: self.unit,
            default_reset_sequence: crate::pack_index::ov(self.default_reset_sequence),
        }
    }
}

impl Clone for Debug {
    fn clone(&self) -> (r: Debug)
        ensures
            r@ == self@,
    {
        Debug {
            ap: self.ap,
            dp: self.dp,
            apid: self.apid,
            address: self.address,
            svd: clone_opt_string(&self.svd),
            name: clone_opt_string(&self.name),
            unit: self.unit,
            default_reset_sequence: clone_opt_string(&self.default_reset_sequence),
        }
    }
}

/// A debug option while its level is being read: everything optional.
#[derive(Debug)]
pub struct DebugBuilder {
    pub ap: Option<u8>,
    pub dp: Option<u8>,
    pub apid: Option<u32>,
    pub address: Option<u32>,
    pub svd: Option<String>,
    pub name: Option<String>,
    pub unit: Option<u64>,
    pub default_reset_sequence: Option<String>,
}

/// The mathematical image of a debug option builder.
#[verifier::ext_equal]
pub struct DebugBuilderV {
    pub ap: Option<u8>,
    pub dp: Option<u8>,
    pub apid: Option<u32>,
    pub address: Option<u32>,
    pub svd: Option<Seq<char>>,
    pub name: Option<Seq<char>>,
    pub unit: Option<u64>,
    pub default_reset_sequence: Option<Seq<char>>,
}

impl View for DebugBuilder {
    type V = DebugBuilderV;

    open spec fn view(&self) -> DebugBuilderV {
        DebugBuilderV {
            ap: self.ap,
            dp: self.dp,
            apid: self.apid,
            address: self.address,
            svd: crate::pack_index::ov(self.svd),
            name: crate::pack_index::ov(self.name),
            unit: self.unit,
            default_reset_sequence: crate::pack_index::ov(self.default_reset_sequence),
        }
    }
}

impl Clone for DebugBuilder {
    fn clone(&self) -> (r: DebugBuilder)
        ensures
            r@ == self@,
    {
        DebugBuilder {
            ap: self.ap,
            dp: self.dp,
            apid: self.apid,
            address: self.address,
            svd: clone_opt_string(&self.svd),
            name: clone_opt_string(&self.name),
            unit: self.unit,
            default_reset_sequence: clone_opt_string(&self.default_reset_sequence),
        }
    }
}

/// A numeric attribute that must fit the given bound; anything else counts
/// as absent.
pub open spec fn spec_num_attr_upto(n: crate::xml::NodeV, name: Seq<char>, bound: u64) -> Option<
    u64,
> {
    match crate::xml::spec_attr(n, name) {
        Some(s) => match crate::numbers::spec_parse_radix(s, 10) {
            Some(v) => if v <= bound {
                Some(v)
            } else {
                None
            },
            None => None,
        },
        None => None,
    }
}

/// Reads a bounded decimal attribute.
pub fn num_attr_upto(doc: &XmlDoc, i: usize, name: &str, bound: u64) -> (r: Option<u64>)
    requires
        i < doc@.nodes.len(),
    ensures
        r == spec_num_attr_upto(doc@.nodes[i as int], name@, bound),
{
    match crate::xml::attr_opt(doc, i, name) {
        Some(s) => match crate::numbers::parse_radix(s.as_str(), 10) {
            Some(v) => if v <= bound {
                Some(v)
            } else {
                None
            },
            None => None,
        },
        None => None,
    }
}

/// What parsing a `<debug>` element yields; every field is optional and an
/// unreadable value counts as absent.
pub open spec fn spec_debug_builder(n: crate::xml::NodeV) -> DebugBuilderV {
    DebugBuilderV {
        ap: match spec_num_attr_upto(n, "__ap"@, 255) {
            Some(v) => Some(v as u8),
            None => None,
        },
        dp: match spec_num_attr_upto(n, "__dp"@, 255) {
            Some(v) => Some(v as u8),
            None => None,
        },
        apid: match spec_num_attr_upto(n, "__apid"@, 0xffff_ffff) {
            Some(v) => Some(v as u32),
            None => None,
        },
        address: match spec_num_attr_upto(n, "address"@, 0xffff_ffff) {
            Some(v) => Some(v as u32),
            None => None,
        },
        svd: crate::xml::spec_attr(n, "svd"@),
        name: crate::xml::spec_attr(n, "Pname"@),
        unit: spec_num_attr_upto(n, "Punit"@, u64::MAX),
        default_reset_sequence: crate::xml::spec_attr(n, "defaultResetSequence"@),
    }
}

impl DebugBuilder {
    /// Parses one `<debug>` element.
    pub fn from_doc(doc: &XmlDoc, i: usize) -> (r: DebugBuilder)
        requires
            doc.wf(),
            i < doc@.nodes.len(),
        ensures
            r@ == spec_debug_builder(doc@.nodes[i as int]),
    {
        DebugBuilder {
            ap: match num_attr_upto(doc, i, "__ap", 255) {
                Some(v) => Some(v as u8),
                None => None,
            },
            dp: match num_attr_upto(doc, i, "__dp", 255) {
                Some(v) => Some(v as u8),
                None => None,
            },
            apid: match num_attr_upto(doc, i, "__apid", 0xffff_ffff) {
                Some(v) => Some(v as u32),
                None => None,
            },
            address: match num_attr_upto(doc, i, "address", 0xffff_ffff) {
                Some(v) => Some(v as u32),
                None => None,
            },
            svd: crate::xml::attr_opt(doc, i, "svd"),
            name: crate::xml::attr_opt(doc, i, "Pname"),
            unit: num_attr_upto(doc, i, "Punit", u64::MAX),
            default_reset_sequence: crate::xml::attr_opt(doc, i, "defaultResetSequence"),
        }
    }

    /// Fills the missing access and debug port numbers with zero.
    pub fn build(self) -> (r: Debug)
        ensures
            r@ == spec_debug_build(self@),
    {
        Debug {
            ap: match self.ap {
                Some(v) => v,
                None => 0,
            },
            dp: match self.dp {
                Some(v) => v,
                None => 0,
            },
            apid: self.apid,
            address: self.address,
            svd: self.svd,
            name: self.name,
            unit: self.unit,
            default_reset_sequence: self.default_reset_sequence,
        }
    }
}

/// What building one debug option yields: missing ports default to zero.
pub open spec fn spec_debug_build(b: DebugBuilderV) -> DebugV {
    DebugV {
        ap: match b.ap {
            Some(v) => v,
            None => 0,
        },
        dp: match b.dp {
            Some(v) => v,
            None => 0,
        },
        apid: b.apid,
        address: b.address,
        svd: b.svd,
        name: b.name,
        unit: b.unit,
        default_reset_sequence: b.default_reset_sequence,
    }
}

/// The debug options a device level accumulates.
#[derive(Debug)]
pub struct DebugsBuilder(pub Vec<DebugBuilder>);

impl View for DebugsBuilder {
    type V = Seq<DebugBuilderV>;

    open spec fn view(&self) -> Seq<DebugBuilderV> {
        self.0@.map_values(|b: DebugBuilder| b@)
    }
}

impl Clone for DebugsBuilder {
    fn clone(&self) -> (r: DebugsBuilder)
        ensures
            r@ == self@,
    {
        let n = self.0.len();
        let mut out: Vec<DebugBuilder> = Vec::new();
        let mut i: usize = 0;
        while i < n
            invariant
                0 <= i <= n == self.0@.len(),
                out@.len() == i,
                forall|j: int| 0 <= j < i ==> #[trigger] out@[j]@ == self.0@[j]@,
            decreases n - i,
        {
            out.push(self.0[i].clone());
            i = i + 1;
        }
        let r = DebugsBuilder(out);
        assert(r@ =~= self@);
        r
    }
}

impl DebugsBuilder {
    /// Appends a parent's debug options after this level's own.
    pub fn merge(self, parent: &Self) -> (r: Self)
        ensures
            r@ == self@ + parent@,
    {
        let ghost sv = self@;
        let mut out = self;
        let mut par = parent.clone();
        let ghost pv = par@;
        out.0.append(&mut par.0);
        proof {
            assert(out@ =~= sv + pv);
        }
        out
    }

    /// Appends another set of debug options declared at the same level.
    pub fn merge_into(&mut self, other: Self)
        ensures
            final(self)@ == old(self)@ + other@,
    {
        let ghost ov = other@;
        let mut other = other;
        self.0.append(&mut other.0);
        assert(self@ =~= old(self)@ + ov);
    }

    /// Builds every accumulated debug option.
    pub fn build(self) -> (r: Vec<Debug>)
        ensures
            r@.map_values(|d: Debug| d@) == self@.map_values(|b: DebugBuilderV| spec_debug_build(b)),
    {
        let n = self.0.len();
        let mut out: Vec<Debug> = Vec::new();
        let mut i: usize = 0;
        while i < n
            invariant
                0 <= i <= n == self.0@.len(),
                out@.len() == i,
                forall|j: int| 0 <= j < i ==> #[trigger] out@[j]@ == spec_debug_build(self.0@[j]@),
            decreases n - i,
        {
            let b = self.0[i].clone();
            out.push(b.build());
            i = i + 1;
        }
        assert(out@.map_values(|d: Debug| d@) =~= self@.map_values(
            |b: DebugBuilderV| spec_debug_build(b),
        ));
        out
    }
}

} // verus!

use vstd::prelude::*;

verus! {

// ---- processors ----

/// One resolved processor record: one unit of an SMP cluster.
#[derive(Debug)]
pub struct Processor {
    pub core: Core,
    pub fpu: FPU,
    pub mpu: MPU,
    pub ap: u8,
    pub dp: u8,
    pub apid: Option<u32>,
    pub address: Option<u32>,
    pub svd: Option<String>,
    pub name: Option<String>,
    pub unit: u64,
    pub default_reset_sequence: Option<String>,
}

/// The mathematical image of a processor record.
#[verifier::ext_equal]
pub struct ProcessorV {
    pub core: Core,
    pub fpu: FPU,
    pub mpu: MPU,
    pub ap: u8,
    pub dp: u8,
    pub apid: Option<u32>,
    pub address: Option<u32>,
    pub svd: Option<Seq<char>>,
    pub name: Option<Seq<char>>,
    pub unit: u64,
    pub default_reset_sequence: Option<Seq<char>>,
}

impl View for Processor {
    type V = ProcessorV;

    open spec fn view(&self) -> ProcessorV {
        ProcessorV {
            core: self.core,
            fpu: self.fpu,
            mpu: self.mpu,
            ap: self.ap,
            dp: self.dp,
            apid: self.apid,
            address: self.address,
            svd: crate::pack_index::ov(self.svd),
            name: crate::pack_index::ov(self.name),
            unit: self.unit,
            default_reset_sequence: crate::pack_index::ov(self.default_reset_sequence),
        }
    }
}

impl Clone for Processor {
    fn clone(&self) -> (r: Processor)
        ensures
            r@ == self@,
    {
        Processor {
            core: self.core,
            fpu: self.fpu,
            mpu: self.mpu,
            ap: self.ap,
            dp: self.dp,
            apid: self.apid,
            address: self.address,
            svd: clone_opt_string(&self.svd),
            name: clone_opt_string(&self.name),
            unit: self.unit,
            default_reset_sequence: clone_opt_string(&self.default_reset_sequence),
        }
    }
}

/// A processor specification before resolution: each field optional.
#[derive(Debug)]
pub struct ProcessorBuilder {
    pub core: Option<Core>,
    pub units: Option<u64>,
    pub name: Option<String>,
    pub fpu: Option<FPU>,
    pub mpu: Option<MPU>,
}

/// The mathematical image of a processor specification.
#[verifier::ext_equal]
pub struct ProcessorBuilderV {
    pub core: Option<Core>,
    pub units: Option<u64>,
    pub name: Option<Seq<char>>,
    pub fpu: Option<FPU>,
    pub mpu: Option<MPU>,
}

impl View for ProcessorBuilder {
    type V = ProcessorBuilderV;

    open spec fn view(&self) -> ProcessorBuilderV {
        ProcessorBuilderV {
            core: self.core,
            units: self.units,
            name: crate::pack_index::ov(self.name),
            fpu: self.fpu,
            mpu: self.mpu,
        }
    }
}

impl Clone for ProcessorBuilder {
    fn clone(&self) -> (r: ProcessorBuilder)
        ensures
            r@ == self@,
    {
        ProcessorBuilder {
            core: self.core,
            units: self.units,
            name: clone_opt_string(&self.name),
            fpu: self.fpu,
            mpu: self.mpu,
        }
    }
}

/// What parsing a `<processor>` element yields; it never fails, and an
/// unreadable value counts as absent.
pub open spec fn spec_processor_builder(n: crate::xml::NodeV) -> ProcessorBuilderV {
    ProcessorBuilderV {
        core: match crate::xml::spec_attr(n, "Dcore"@) {
            Some(s) => spec_parse_core(s),
            None => None,
        },
        units: spec_num_attr_upto(n, "Punits"@, u64::MAX),
        name: crate::xml::spec_attr(n, "Pname"@),
        fpu: match crate::xml::spec_attr(n, "Dfpu"@) {
            Some(s) => spec_parse_fpu(s),
            None => None,
        },
        mpu: match crate::xml::spec_attr(n, "Dmpu"@) {
            Some(s) => spec_parse_mpu(s),
            None => None,
        },
    }
}

/// Merging a child's processor specification under a parent's: each absent
/// field is taken from the parent.
pub open spec fn spec_pb_merge(c: ProcessorBuilderV, p: ProcessorBuilderV) -> ProcessorBuilderV {
    ProcessorBuilderV {
        core: if c.core is Some { c.core } else { p.core },
        units: if c.units is Some { c.units } else { p.units },
        name: if c.name is Some { c.name } else { p.name },
        fpu: if c.fpu is Some { c.fpu } else { p.fpu },
        mpu: if c.mpu is Some { c.mpu } else { p.mpu },
    }
}

/// The debug record selected for one unit: the first whose name equals the
/// processor's and whose unit is either undeclared or equal; a zero-filled
/// default carrying the processor's name when none matches.
pub open spec fn spec_find_debug(ds: Seq<DebugV>, name: Option<Seq<char>>, unit: u64) -> DebugV
    decreases ds.len(),
{
    if ds.len() == 0 {
        DebugV {
            ap: 0,
            dp: 0,
            apid: None,
            address: None,
            svd: None,
            name: name,
            unit: None,
            default_reset_sequence: None,
        }
    } else if ds[0].name == name && (ds[0].unit is None || ds[0].unit == Some(unit)) {
        ds[0]
    } else {
        spec_find_debug(ds.drop_first(), name, unit)
    }
}

/// The processor record resolved for one unit.
pub open spec fn spec_build_processor(pb: ProcessorBuilderV, ds: Seq<DebugV>, unit: u64) -> ProcessorV {
    let d = spec_find_debug(ds, pb.name, unit);
    ProcessorV {
        core: pb.core.unwrap(),
        fpu: match pb.fpu {
            Some(f) => f,
            None => FPU::NotPresent,
        },
        mpu: match pb.mpu {
            Some(m) => m,
            None => MPU::NotPresent,
        },
        ap: d.ap,
        dp: d.dp,
        apid: d.apid,
        address: d.address,
        svd: d.svd,
        name: d.name,
        unit: unit,
        default_reset_sequence: d.default_reset_sequence,
    }
}

/// The declared unit count, one when undeclared.
pub open spec fn spec_units(pb: ProcessorBuilderV) -> u64 {
    match pb.units {
        Some(u) => u,
        None => 1,
    }
}

/// What building one processor specification yields: without a core it
/// fails; otherwise one record per unit, with `unit` running from zero.
pub open spec fn spec_pb_build(pb: ProcessorBuilderV, ds: Seq<DebugV>) -> Result<Seq<ProcessorV>, ErrV> {
    if pb.core is None {
        Err(ErrV::NoCore)
    } else {
        Ok(Seq::new(spec_units(pb) as nat, |u: int| spec_build_processor(pb, ds, u as u64)))
    }
}

/// Finds the debug record for one unit, executably.
fn find_debug(ds: &Vec<Debug>, name: &Option<String>, unit: u64) -> (r: Debug)
    ensures
        r@ == spec_find_debug(
            ds@.map_values(|d: Debug| d@),
            crate::pack_index::ov(*name),
            unit,
        ),
{
    let ghost dv = ds@.map_values(|d: Debug| d@);
    let n = ds.len();
    let mut k: usize = 0;
    assert(dv.skip(0) =~= dv);
    while k < n
        invariant
            0 <= k <= n == ds@.len(),
            dv == ds@.map_values(|d: Debug| d@),
            spec_find_debug(dv, crate::pack_index::ov(*name), unit) == spec_find_debug(
                dv.skip(k as int),
                crate::pack_index::ov(*name),
                unit,
            ),
        decreases n - k,
    {
        let ghost pre = dv.skip(k as int);
        assert(pre[0] == dv[k as int]);
        assert(pre.drop_first() =~= dv.skip(k as int + 1));
        let name_matches = match (&ds[k].name, name) {
            (Some(a), Some(b)) => crate::numbers::str_eq(a.as_str(), b.as_str()),
            (None, None) => true,
            _ => false,
        };
        let unit_matches = match ds[k].unit {
            Some(u) => u == unit,
            None => true,
        };
        if name_matches && unit_matches {
            return ds[k].clone();
        }
        k = k + 1;
    }
    assert(dv.skip(n as int) =~= Seq::<DebugV>::empty());
    Debug {
        ap: 0,
        dp: 0,
        apid: None,
        address: None,
        svd: None,
        name: clone_opt_string(name),
        unit: None,
        default_reset_sequence: None,
    }
}

impl ProcessorBuilder {
    /// Parses one `<processor>` element; it never fails.
    pub fn from_doc(doc: &XmlDoc, i: usize) -> (r: ProcessorBuilder)
        requires
            doc.wf(),
            i < doc@.nodes.len(),
        ensures
            r@ == spec_processor_builder(doc@.nodes[i as int]),
    {
        ProcessorBuilder {
            core: match crate::xml::attr_opt(doc, i, "Dcore") {
                Some(s) => parse_core(s.as_str()),
                None => None,
            },
            units: num_attr_upto(doc, i, "Punits", u64::MAX),
            name: crate::xml::attr_opt(doc, i, "Pname"),
            fpu: match crate::xml::attr_opt(doc, i, "Dfpu") {
                Some(s) => parse_fpu(s.as_str()),
                None => None,
            },
            mpu: match crate::xml::attr_opt(doc, i, "Dmpu") {
                Some(s) => parse_mpu(s.as_str()),
                None => None,
            },
        }
    }

    /// Fills absent fields from a parent's specification.
    pub fn merge(self, other: &ProcessorBuilder) -> (r: ProcessorBuilder)
        ensures
            r@ == spec_pb_merge(self@, other@),
    {
        ProcessorBuilder {
            core: match self.core {
                Some(c) => Some(c),
                None => other.core,
            },
            units: match self.units {
                Some(u) => Some(u),
                None => other.units,
            },
            name: match self.name {
                Some(s) => Some(s),
                None => clone_opt_string(&other.name),
            },
            fpu: match self.fpu {
                Some(f) => Some(f),
                None => other.fpu,
            },
            mpu: match self.mpu {
                Some(m) => Some(m),
                None => other.mpu,
            },
        }
    }

    /// Expands the specification into one processor record per unit,
    /// pairing each unit with its debug record.
    pub fn build(self, debugs: &Vec<Debug>) -> (r: Result<Vec<Processor>, Error>)
        ensures
            match r {
                Ok(ps) => spec_pb_build(self@, debugs@.map_values(|d: Debug| d@))
                    == Ok::<Seq<ProcessorV>, ErrV>(ps@.map_values(|p: Processor| p@)),
                Err(e) => spec_pb_build(self@, debugs@.map_values(|d: Debug| d@))
                    == Err::<Seq<ProcessorV>, ErrV>(e@),
            },
    {
        let ghost dv = debugs@.map_values(|d: Debug| d@);
        let core = match self.core {
            Some(c) => c,
            None => {
                return Err(Error::NoCore);
            },
        };
        let units: u64 = match self.units {
            Some(u) => u,
            None => 1,
        };
        let mut out: Vec<Processor> = Vec::new();
        let mut u: u64 = 0;
        while u < units
            invariant
                0 <= u <= units,
                units == spec_units(self@),
                self@.core == Some(core),
                dv == debugs@.map_values(|d: Debug| d@),
                out@.len() == u,
                forall|k: int|
                    0 <= k < u ==> #[trigger] out@[k]@ == spec_build_processor(
                        self@,
                        dv,
                        k as u64,
                    ),
            decreases units - u,
        {
            let d = find_debug(debugs, &self.name, u);
            let p = Processor {
                core,
                fpu: match self.fpu {
                    Some(f) => f,
                    None => FPU::NotPresent,
                },
                mpu: match self.mpu {
                    Some(m) => m,
                    None => MPU::NotPresent,
                },
                ap: d.ap,
                dp: d.dp,
                apid: d.apid,
                address: d.address,
                svd: d.svd,
                name: d.name,
                unit: u,
                default_reset_sequence: d.default_reset_sequence,
            };
            assert(p@ == spec_build_processor(self@, dv, u));
            out.push(p);
            u = u + 1;
        }
        assert(out@.map_values(|p: Processor| p@) =~= Seq::new(
            spec_units(self@) as nat,
            |k: int| spec_build_processor(self@, dv, k as u64),
        ));
        Ok(out)
    }
}

/// The processor specifications a device level accumulates.
#[derive(Debug)]
pub struct ProcessorsBuilder(pub Vec<ProcessorBuilder>);

impl View for ProcessorsBuilder {
    type V = Seq<ProcessorBuilderV>;

    open spec fn view(&self) -> Seq<ProcessorBuilderV> {
        self.0@.map_values(|b: ProcessorBuilder| b@)
    }
}

impl Clone for ProcessorsBuilder {
    fn clone(&self) -> (r: ProcessorsBuilder)
        ensures
            r@ == self@,
    {
        let n = self.0.len();
        let mut out: Vec<ProcessorBuilder> = Vec::new();
        let mut i: usize = 0;
        while i < n
            invariant
                0 <= i <= n == self.0@.len(),
                out@.len() == i,
                forall|j: int| 0 <= j < i ==> #[trigger] out@[j]@ == self.0@[j]@,
            decreases n - i,
        {
            out.push(self.0[i].clone());
            i = i + 1;
        }
        let r = ProcessorsBuilder(out);
        assert(r@ =~= self@);
        r
    }
}

/// Merging this level's specifications against a parent: each one fills
/// its absent fields from the single parent specification; a parent list
/// of any other length cannot be merged.
pub open spec fn spec_psb_merge(
    s: Seq<ProcessorBuilderV>,
    parent: Option<Seq<ProcessorBuilderV>>,
) -> Result<Seq<ProcessorBuilderV>, ErrV> {
    match parent {
        None => Ok(s),
        Some(p) => if p.len() == 1 {
            Ok(s.map_values(|x: ProcessorBuilderV| spec_pb_merge(x, p[0])))
        } else {
            Err(ErrV::TwoProcessorParents)
        },
    }
}

/// What building a list of specifications yields: the concatenation of
/// each specification's units, or the first failure.
pub open spec fn spec_psb_build(ps: Seq<ProcessorBuilderV>, ds: Seq<DebugV>) -> Result<
    Seq<ProcessorV>,
    ErrV,
>
    decreases ps.len(),
{
    if ps.len() == 0 {
        Ok(Seq::empty())
    } else {
        match spec_pb_build(ps[0], ds) {
            Err(e) => Err(e),
            Ok(v) => match spec_psb_build(ps.drop_first(), ds) {
                Err(e) => Err(e),
                Ok(r) => Ok(v + r),
            },
        }
    }
}

impl ProcessorsBuilder {
    /// Merges this level's specifications against an optional parent.
    pub fn merge(self, parent: &Option<ProcessorsBuilder>) -> (r: Result<
        ProcessorsBuilder,
        Error,
    >)
        ensures
            match r {
                Ok(v) => spec_psb_merge(
                    self@,
                    match parent {
                        Some(p) => Some(p@),
                        None => None,
                    },
                ) == Ok::<Seq<ProcessorBuilderV>, ErrV>(v@),
                Err(e) => spec_psb_merge(
                    self@,
                    match parent {
                        Some(p) => Some(p@),
                        None => None,
                    },
                ) == Err::<Seq<ProcessorBuilderV>, ErrV>(e@),
            },
    {
        let p = match parent {
            None => {
                return Ok(self);
            },
            Some(p) => p,
        };
        if p.0.len() != 1 {
            return Err(Error::TwoProcessorParents);
        }
        let par = &p.0[0];
        let ghost sv = self@;
        let ghost pv = p@[0];
        let n = self.0.len();
        let mut out: Vec<ProcessorBuilder> = Vec::new();
        let mut i: usize = 0;
        while i < n
            invariant
                0 <= i <= n == self.0@.len(),
                sv == self@,
                par@ == pv,
                out@.len() == i,
                forall|j: int| 0 <= j < i ==> #[trigger] out@[j]@ == spec_pb_merge(sv[j], pv),
            decreases n - i,
        {
            let b = self.0[i].clone();
            out.push(b.merge(par));
            i = i + 1;
        }
        let r = ProcessorsBuilder(out);
        proof {
            assert(r@ =~= sv.map_values(|x: ProcessorBuilderV| spec_pb_merge(x, pv)));
        }
        Ok(r)
    }

    /// Appends specifications declared at the same level.
    pub fn merge_into(&mut self, other: ProcessorsBuilder)
        ensures
            final(self)@ == old(self)@ + other@,
    {
        let ghost ov = other@;
        let mut other = other;
        self.0.append(&mut other.0);
        assert(self@ =~= old(self)@ + ov);
    }

    /// Builds every specification in order, concatenating their units.
    pub fn build(self, debugs: Vec<Debug>) -> (r: Result<Vec<Processor>, Error>)
        ensures
            match r {
                Ok(ps) => spec_psb_build(self@, debugs@.map_values(|d: Debug| d@))
                    == Ok::<Seq<ProcessorV>, ErrV>(ps@.map_values(|p: Processor| p@)),
                Err(e) => spec_psb_build(self@, debugs@.map_values(|d: Debug| d@))
                    == Err::<Seq<ProcessorV>, ErrV>(e@),
            },
    {
        let ghost sv = self@;
        let ghost dv = debugs@.map_values(|d: Debug| d@);
        let n = self.0.len();
        let mut out: Vec<Processor> = Vec::new();
        let mut i: usize = 0;
        proof {
            assert(sv.skip(0) =~= sv);
        }
        while i < n
            invariant
                0 <= i <= n == self.0@.len(),
                sv == self@,
                sv.len() == n,
                dv == debugs@.map_values(|d: Debug| d@),
                spec_psb_build(sv, dv) is Ok ==> spec_psb_build(sv.skip(i as int), dv) is Ok
                    && out@.map_values(|p: Processor| p@) + (spec_psb_build(
                    sv.skip(i as int),
                    dv,
                )->Ok_0) == spec_psb_build(sv, dv)->Ok_0,
                spec_psb_build(sv, dv) is Err ==> spec_psb_build(sv.skip(i as int), dv)
                    == spec_psb_build(sv, dv),
            decreases n - i,
        {
            let ghost pre = sv.skip(i as int);
            assert(pre[0] == sv[i as int]);
            assert(pre.drop_first() =~= sv.skip(i as int + 1));
            let ghost outv0 = out@.map_values(|p: Processor| p@);
            let b = self.0[i].clone();
            assert(b@ == sv[i as int]);
            match b.build(&debugs) {
                Ok(mut ps) => {
                    let ghost pv = ps@.map_values(|p: Processor| p@);
                    out.append(&mut ps);
                    proof {
                        assert(out@.map_values(|p: Processor| p@) =~= outv0 + pv);
                        if spec_psb_build(sv, dv) is Ok {
                            assert((outv0 + pv) + spec_psb_build(sv.skip(i as int + 1), dv)->Ok_0
                                =~= outv0 + (pv + spec_psb_build(
                                sv.skip(i as int + 1),
                                dv,
                            )->Ok_0));
                        }
                    }
                },
                Err(e) => {
                    proof {
                        assert(spec_psb_build(pre, dv) == Err::<Seq<ProcessorV>, ErrV>(e@));
                        assert(spec_psb_build(sv, dv) == Err::<Seq<ProcessorV>, ErrV>(e@));
                    }
                    return Err(e);
                },
            }
            i = i + 1;
        }
        proof {
            assert(sv.skip(n as int) =~= Seq::<ProcessorBuilderV>::empty());
            assert(spec_psb_build(sv.skip(n as int), dv) == Ok::<Seq<ProcessorV>, ErrV>(
                Seq::empty(),
            ));
            if spec_psb_build(sv, dv) is Ok {
                assert(out@.map_values(|p: Processor| p@) + Seq::<ProcessorV>::empty() =~= out@
                    .map_values(|p: Processor| p@));
            }
        }
        Ok(out)
    }
}

} // verus!

use crate::assoc::{assoc_insert, lemma_assoc_insert_found, lemma_assoc_insert_new};

verus! {

// ---- the device builder ----

/// A device while the hierarchy walk accumulates its levels.
#[derive(Debug)]
pub struct DeviceBuilder {
    pub name: Option<String>,
    pub algorithms: Vec<Algorithm>,
    pub memories: Memories,
    pub processor: Option<ProcessorsBuilder>,
    pub debugs: DebugsBuilder,
    pub vendor: Option<String>,
    pub family: Option<String>,
    pub sub_family: Option<String>,
}

/// The mathematical image of a device builder.
#[verifier::ext_equal]
pub struct DeviceBuilderV {
    pub name: Option<Seq<char>>,
    pub algorithms: Seq<AlgorithmV>,
    pub memories: Seq<(Seq<char>, MemoryV)>,
    pub processor: Option<Seq<ProcessorBuilderV>>,
    pub debugs: Seq<DebugBuilderV>,
    pub vendor: Option<Seq<char>>,
    pub family: Option<Seq<char>>,
    pub sub_family: Option<Seq<char>>,
}

impl View for DeviceBuilder {
    type V = DeviceBuilderV;

    open spec fn view(&self) -> DeviceBuilderV {
        DeviceBuilderV {
            name: crate::pack_index::ov(self.name),
            algorithms: self.algorithms@.map_values(|a: Algorithm| a@),
            memories: self.memories@,
            processor: match self.processor {
                Some(p) => Some(p@),
                None => None,
            },
            debugs: self.debugs@,
            vendor: crate::pack_index::ov(self.vendor),
            family: crate::pack_index::ov(self.family),
            sub_family: crate::pack_index::ov(self.sub_family),
        }
    }
}

/// A copy of a list of algorithms.
pub fn clone_algorithms(v: &Vec<Algorithm>) -> (r: Vec<Algorithm>)
    ensures
        r@.map_values(|a: Algorithm| a@) == v@.map_values(|a: Algorithm| a@),
{
    let n = v.len();
    let mut out: Vec<Algorithm> = Vec::new();
    let mut i: usize = 0;
    while i < n
        invariant
            0 <= i <= n == v@.len(),
            out@.len() == i,
            forall|j: int| 0 <= j < i ==> #[trigger] out@[j]@ == v@[j]@,
        decreases n - i,
    {
        out.push(v[i].clone());
        i = i + 1;
    }
    assert(out@.map_values(|a: Algorithm| a@) =~= v@.map_values(|a: Algorithm| a@));
    out
}

impl Clone for DeviceBuilder {
    fn clone(&self) -> (r: DeviceBuilder)
        ensures
            r@ == self@,
    {
        let r = DeviceBuilder {
            name: clone_opt_string(&self.name),
            algorithms: clone_algorithms(&self.algorithms),
            memories: self.memories.clone(),
            processor: match &self.processor {
                Some(p) => Some(p.clone()),
                None => None,
            },
            debugs: self.debugs.clone(),
            vendor: clone_opt_string(&self.vendor),
            family: clone_opt_string(&self.family),
            sub_family: clone_opt_string(&self.sub_family),
        };
        assert(r@ =~= self@);
        r
    }
}

/// What one hierarchy level starts from: its own naming attributes, with
/// the family and sub-family names read only at their own levels.
pub open spec fn spec_device_builder(n: crate::xml::NodeV) -> DeviceBuilderV {
    DeviceBuilderV {
        name: if crate::xml::spec_attr(n, "Dname"@) is Some {
            crate::xml::spec_attr(n, "Dname"@)
        } else {
            crate::xml::spec_attr(n, "Dvariant"@)
        },
        algorithms: Seq::empty(),
        memories: Seq::empty(),
        processor: None,
        debugs: Seq::empty(),
        vendor: crate::xml::spec_attr(n, "Dvendor"@),
        family: if n.name == "family"@ {
            crate::xml::spec_attr(n, "Dfamily"@)
        } else {
            None
        },
        sub_family: if n.name == "subFamily"@ {
            crate::xml::spec_attr(n, "DsubFamily"@)
        } else {
            None
        },
    }
}

/// Adding processor specifications at one level: a first specification
/// starts the list, later ones are appended.
pub open spec fn spec_add_processor(st: DeviceBuilderV, ps: Seq<ProcessorBuilderV>) -> DeviceBuilderV {
    match st.processor {
        None => DeviceBuilderV { processor: Some(ps), ..st },
        Some(have) => DeviceBuilderV { processor: Some(have + ps), ..st },
    }
}

/// Merging a child level under a parent level: lists concatenate (the
/// child's entries first), memories merge with the child winning, the
/// processor specifications merge against the parent's single entry, and
/// scalar fields keep the child's value when present.
pub open spec fn spec_add_parent(c: DeviceBuilderV, p: DeviceBuilderV) -> Result<
    DeviceBuilderV,
    ErrV,
> {
    let merged_proc = match c.processor {
        Some(cp) => match spec_psb_merge(cp, p.processor) {
            Ok(v) => Ok(Some(v)),
            Err(e) => Err(e),
        },
        None => Ok(p.processor),
    };
    match merged_proc {
        Err(e) => Err(e),
        Ok(proc) => Ok(
            DeviceBuilderV {
                name: if c.name is Some {
                    c.name
                } else {
                    p.name
                },
                algorithms: c.algorithms + p.algorithms,
                memories: spec_merge_memories(c.memories, p.memories),
                processor: proc,
                debugs: c.debugs + p.debugs,
                vendor: if c.vendor is Some {
                    c.vendor
                } else {
                    p.vendor
                },
                family: if c.family is Some {
                    c.family
                } else {
                    p.family
                },
                sub_family: if c.sub_family is Some {
                    c.sub_family
                } else {
                    p.sub_family
                },
            },
        ),
    }
}

/// What building an accumulated device yields: it must have a name, a
/// family, and at least one processor specification; the debug options are
/// finalized and the processors expanded per unit.
pub open spec fn spec_db_build(b: DeviceBuilderV) -> Result<DeviceV, ErrV> {
    if b.name is None {
        Err(ErrV::NoDeviceName)
    } else if b.family is None {
        Err(ErrV::NoDeviceFamily)
    } else {
        match b.processor {
            None => Err(ErrV::NoProcessor(b.name.unwrap())),
            Some(ps) => match spec_psb_build(
                ps,
                b.debugs.map_values(|d: DebugBuilderV| spec_debug_build(d)),
            ) {
                Err(e) => Err(e),
                Ok(procs) => Ok(
                    DeviceV {
                        name: b.name.unwrap(),
                        memories: b.memories,
                        algorithms: b.algorithms,
                        processors: procs,
                        vendor: b.vendor,
                        family: b.family.unwrap(),
                        sub_family: b.sub_family,
                    },
                ),
            },
        }
    }
}

/// One resolved device.
#[derive(Debug)]
pub struct Device {
    pub name: String,
    pub memories: Memories,
    pub algorithms: Vec<Algorithm>,
    pub processors: Vec<Processor>,
    pub vendor: Option<String>,
    pub family: String,
    pub sub_family: Option<String>,
}

/// The mathematical image of a device.
#[verifier::ext_equal]
pub struct DeviceV {
    pub name: Seq<char>,
    pub memories: Seq<(Seq<char>, MemoryV)>,
    pub algorithms: Seq<AlgorithmV>,
    pub processors: Seq<ProcessorV>,
    pub vendor: Option<Seq<char>>,
    pub family: Seq<char>,
    pub sub_family: Option<Seq<char>>,
}

impl View for Device {
    type V = DeviceV;

    open spec fn view(&self) -> DeviceV {
        DeviceV {
            name: self.name@,
            memories: self.memories@,
            algorithms: self.algorithms@.map_values(|a: Algorithm| a@),
            processors: self.processors@.map_values(|p: Processor| p@),
            vendor: crate::pack_index::ov(self.vendor),
            family: self.family@,
            sub_family: crate::pack_index::ov(self.sub_family),
        }
    }
}

/// A copy of a list of processors.
pub fn clone_processors(v: &Vec<Processor>) -> (r: Vec<Processor>)
    ensures
        r@.map_values(|p: Processor| p@) == v@.map_values(|p: Processor| p@),
{
    let n = v.len();
    let mut out: Vec<Processor> = Vec::new();
    let mut i: usize = 0;
    while i < n
        invariant
            0 <= i <= n == v@.len(),
            out@.len() == i,
            forall|j: int| 0 <= j < i ==> #[trigger] out@[j]@ == v@[j]@,
        decreases n - i,
    {
        out.push(v[i].clone());
        i = i + 1;
    }
    assert(out@.map_values(|p: Processor| p@) =~= v@.map_values(|p: Processor| p@));
    out
}

impl Clone for Device {
    fn clone(&self) -> (r: Device)
        ensures
            r@ == self@,
    {
        let r = Device {
            name: self.name.clone(),
            memories: self.memories.clone(),
            algorithms: clone_algorithms(&self.algorithms),
            processors: clone_processors(&self.processors),
            vendor: clone_opt_string(&self.vendor),
            family: self.family.clone(),
            sub_family: clone_opt_string(&self.sub_family),
        };
        assert(r@ =~= self@);
        r
    }
}

impl DeviceBuilder {
    /// Starts a level from its element's naming attributes.
    pub fn from_doc(doc: &XmlDoc, i: usize) -> (r: DeviceBuilder)
        requires
            doc.wf(),
            i < doc@.nodes.len(),
        ensures
            r@ == spec_device_builder(doc@.nodes[i as int]),
    {
        let name = match crate::xml::attr_opt(doc, i, "Dname") {
            Some(s) => Some(s),
            None => crate::xml::attr_opt(doc, i, "Dvariant"),
        };
        let family = if crate::xml::name_is(doc, i, "family") {
            crate::xml::attr_opt(doc, i, "Dfamily")
        } else {
            None
        };
        let sub_family = if crate::xml::name_is(doc, i, "subFamily") {
            crate::xml::attr_opt(doc, i, "DsubFamily")
        } else {
            None
        };
        let r = DeviceBuilder {
            name,
            algorithms: Vec::new(),
            memories: Memories(Vec::new()),
            processor: None,
            debugs: DebugsBuilder(Vec::new()),
            vendor: crate::xml::attr_opt(doc, i, "Dvendor"),
            family,
            sub_family,
        };
        assert(r@ =~= spec_device_builder(doc@.nodes[i as int]));
        r
    }

    /// Records a memory region, overwriting one of the same name.
    pub fn add_memory(&mut self, name: String, mem: Memory)
        ensures
            final(self)@ == (DeviceBuilderV {
                memories: mem_insert(old(self)@.memories, name@, mem@),
                ..old(self)@
            }),
    {
        self.memories.insert(name, mem);
        assert(self@ =~= (DeviceBuilderV {
            memories: mem_insert(old(self)@.memories, name@, mem@),
            ..old(self)@
        }));
    }

    /// Records a flash algorithm.
    pub fn add_algorithm(&mut self, alg: Algorithm)
        ensures
            final(self)@ == (DeviceBuilderV {
                algorithms: old(self)@.algorithms.push(alg@),
                ..old(self)@
            }),
    {
        self.algorithms.push(alg);
        assert(self@ =~= (DeviceBuilderV {
            algorithms: old(self)@.algorithms.push(alg@),
            ..old(self)@
        }));
    }

    /// Records processor specifications declared at this level.
    pub fn add_processor(&mut self, processor: ProcessorsBuilder)
        ensures
            final(self)@ == spec_add_processor(old(self)@, processor@),
    {
        let ghost pv = processor@;
        match &mut self.processor {
            None => {
                self.processor = Some(processor);
            },
            Some(origin) => {
                origin.merge_into(processor);
            },
        }
        assert(self@ =~= spec_add_processor(old(self)@, pv));
    }

    /// Records debug options declared at this level.
    pub fn add_debug(&mut self, debug: DebugsBuilder)
        ensures
            final(self)@ == (DeviceBuilderV { debugs: old(self)@.debugs + debug@, ..old(self)@ }),
    {
        let ghost dv = debug@;
        self.debugs.merge_into(debug);
        assert(self@ =~= (DeviceBuilderV { debugs: old(self)@.debugs + dv, ..old(self)@ }));
    }

    /// Merges this level under its parent level.
    pub fn add_parent(self, parent: &DeviceBuilder) -> (r: Result<DeviceBuilder, Error>)
        ensures
            match r {
                Ok(b) => spec_add_parent(self@, parent@) == Ok::<DeviceBuilderV, ErrV>(b@),
                Err(e) => spec_add_parent(self@, parent@) == Err::<DeviceBuilderV, ErrV>(e@),
            },
    {
        let ghost cv = self@;
        let ghost pv = parent@;
        let processor = match self.processor {
            Some(old_proc) => match old_proc.merge(&parent.processor) {
                Ok(v) => Some(v),
                Err(e) => {
                    return Err(e);
                },
            },
            None => match &parent.processor {
                Some(p) => Some(p.clone()),
                None => None,
            },
        };
        let mut algorithms = self.algorithms;
        let mut palgs = clone_algorithms(&parent.algorithms);
        let ghost av = algorithms@.map_values(|a: Algorithm| a@);
        let ghost pav = palgs@.map_values(|a: Algorithm| a@);
        algorithms.append(&mut palgs);
        proof {
            assert(algorithms@.map_values(|a: Algorithm| a@) =~= av + pav);
        }
        let r = DeviceBuilder {
            name: match self.name {
                Some(s) => Some(s),
                None => clone_opt_string(&parent.name),
            },
            algorithms,
            memories: merge_memories(self.memories, &parent.memories),
            processor,
            debugs: self.debugs.merge(&parent.debugs),
            vendor: match self.vendor {
                Some(s) => Some(s),
                None => clone_opt_string(&parent.vendor),
            },
            family: match self.family {
                Some(s) => Some(s),
                None => clone_opt_string(&parent.family),
            },
            sub_family: match self.sub_family {
                Some(s) => Some(s),
                None => clone_opt_string(&parent.sub_family),
            },
        };
        proof {
            assert(spec_add_parent(cv, pv) matches Ok(b) && r@ =~= b);
        }
        Ok(r)
    }

    /// Builds the accumulated device.
    pub fn build(self) -> (r: Result<Device, Error>)
        ensures
            match r {
                Ok(d) => spec_db_build(self@) == Ok::<DeviceV, ErrV>(d@),
                Err(e) => spec_db_build(self@) == Err::<DeviceV, ErrV>(e@),
            },
    {
        let name = match self.name {
            Some(s) => s,
            None => {
                return Err(Error::NoDeviceName);
            },
        };
        let family = match self.family {
            Some(s) => s,
            None => {
                return Err(Error::NoDeviceFamily);
            },
        };
        let debugs = self.debugs.build();
        let processors = match self.processor {
            Some(pb) => match pb.build(debugs) {
                Ok(ps) => ps,
                Err(e) => {
                    return Err(e);
                },
            },
            None => {
                return Err(Error::NoProcessor(name));
            },
        };
        let d = Device {
            name,
            memories: self.memories,
            algorithms: self.algorithms,
            processors,
            vendor: self.vendor,
            family,
            sub_family: self.sub_family,
        };
        proof {
            assert(spec_db_build(self@) matches Ok(v) && d@ =~= v);
        }
        Ok(d)
    }
}

} // verus!

verus! {

// ---- the hierarchy walk ----

/// The element names that the hierarchy walk tells apart.
proof fn lemma_walk_names_distinct()
    ensures
        "memory"@ != "variant"@,
        "algorithm"@ != "variant"@,
        "processor"@ != "variant"@,
        "debug"@ != "variant"@,
        "memory"@ != "device"@,
        "algorithm"@ != "device"@,
        "processor"@ != "device"@,
        "memory"@ != "subFamily"@,
        "algorithm"@ != "subFamily"@,
        "processor"@ != "subFamily"@,
{
    reveal_strlit("memory");
    reveal_strlit("algorithm");
    reveal_strlit("processor");
    reveal_strlit("debug");
    reveal_strlit("variant");
    reveal_strlit("device");
    reveal_strlit("subFamily");
    assert("memory"@.len() == 6);
    assert("algorithm"@.len() == 9);
    assert("processor"@.len() == 9);
    assert("debug"@.len() == 5);
    assert("variant"@.len() == 7);
    assert("device"@.len() == 6);
    assert("subFamily"@.len() == 9);
    assert("memory"@[0] == 'm');
    assert("device"@[0] == 'd');
    assert("algorithm"@[0] == 'a');
    assert("subFamily"@[0] == 's');
    assert("processor"@[0] == 'p');
}

/// One step of reading a device-level child: memories, algorithms,
/// processors, and debug options accumulate; a child that does not parse
/// changes nothing.
pub open spec fn spec_dev_step(doc: DocV, st: DeviceBuilderV, c: int) -> DeviceBuilderV {
    let n = doc.nodes[c];
    if n.name == "memory"@ {
        match spec_memory(doc, c) {
            Ok(p) => DeviceBuilderV { memories: mem_insert(st.memories, p.0, p.1), ..st },
            Err(_) => st,
        }
    } else if n.name == "algorithm"@ {
        match spec_algorithm(doc, c) {
            Ok(a) => DeviceBuilderV { algorithms: st.algorithms.push(a), ..st },
            Err(_) => st,
        }
    } else if n.name == "processor"@ {
        spec_add_processor(st, seq![spec_processor_builder(n)])
    } else if n.name == "debug"@ {
        DeviceBuilderV { debugs: st.debugs + seq![spec_debug_builder(n)], ..st }
    } else {
        st
    }
}

/// Folding every child of a device element into its builder.
pub open spec fn spec_dev_fold(doc: DocV, st: DeviceBuilderV, cs: Seq<int>) -> DeviceBuilderV
    decreases cs.len(),
{
    if cs.len() == 0 {
        st
    } else {
        spec_dev_fold(doc, spec_dev_step(doc, st, cs[0]), cs.drop_first())
    }
}

/// One step of reading a family or sub-family child: as a device level,
/// but without debug options.
pub open spec fn spec_level_step(doc: DocV, st: DeviceBuilderV, c: int) -> DeviceBuilderV {
    let n = doc.nodes[c];
    if n.name == "memory"@ {
        match spec_memory(doc, c) {
            Ok(p) => DeviceBuilderV { memories: mem_insert(st.memories, p.0, p.1), ..st },
            Err(_) => st,
        }
    } else if n.name == "algorithm"@ {
        match spec_algorithm(doc, c) {
            Ok(a) => DeviceBuilderV { algorithms: st.algorithms.push(a), ..st },
            Err(_) => st,
        }
    } else if n.name == "processor"@ {
        spec_add_processor(st, seq![spec_processor_builder(n)])
    } else {
        st
    }
}

/// Folding every child of a family or sub-family element.
pub open spec fn spec_level_fold(doc: DocV, st: DeviceBuilderV, cs: Seq<int>) -> DeviceBuilderV
    decreases cs.len(),
{
    if cs.len() == 0 {
        st
    } else {
        spec_level_fold(doc, spec_level_step(doc, st, cs[0]), cs.drop_first())
    }
}

/// The builders of the `variant` children, in order.
pub open spec fn spec_variant_list(doc: DocV, cs: Seq<int>) -> Seq<DeviceBuilderV>
    decreases cs.len(),
{
    if cs.len() == 0 {
        Seq::empty()
    } else {
        let rest = spec_variant_list(doc, cs.drop_first());
        if doc.nodes[cs[0]].name == "variant"@ {
            seq![spec_device_builder(doc.nodes[cs[0]])] + rest
        } else {
            rest
        }
    }
}

/// Merging a list of child builders under one parent, keeping those whose
/// processor shapes can merge.
pub open spec fn spec_apply_parent(vs: Seq<DeviceBuilderV>, par: DeviceBuilderV) -> Seq<
    DeviceBuilderV,
>
    decreases vs.len(),
{
    if vs.len() == 0 {
        Seq::empty()
    } else {
        let rest = spec_apply_parent(vs.drop_first(), par);
        match spec_add_parent(vs[0], par) {
            Ok(b) => seq![b] + rest,
            Err(_) => rest,
        }
    }
}

/// What parsing a `<device>` element yields: the accumulated level itself
/// when it has no variants, else one builder per variant, each inheriting
/// from the device level.
pub open spec fn spec_parse_device(doc: DocV, i: int) -> Seq<DeviceBuilderV> {
    let cs = doc.nodes[i].children;
    let acc = spec_dev_fold(doc, spec_device_builder(doc.nodes[i]), cs);
    let vs = spec_variant_list(doc, cs);
    if vs.len() == 0 {
        seq![acc]
    } else {
        spec_apply_parent(vs, acc)
    }
}

/// Parses a `<device>` element into the builders of its concrete devices.
pub fn parse_device(doc: &XmlDoc, i: usize) -> (r: Vec<DeviceBuilder>)
    requires
        doc.wf(),
        i < doc@.nodes.len(),
    ensures
        r@.map_values(|b: DeviceBuilder| b@) == spec_parse_device(doc@, i as int),
{
    let ghost cs = doc@.nodes[i as int].children;
    let ghost base = spec_device_builder(doc@.nodes[i as int]);
    let mut device = DeviceBuilder::from_doc(doc, i);
    let mut variants: Vec<DeviceBuilder> = Vec::new();
    let n = crate::xml::child_count(doc, i);
    let mut k: usize = 0;
    proof {
        assert(cs.skip(0) =~= cs);
    }
    while k < n
        invariant
            doc.wf(),
            i < doc@.nodes.len(),
            0 <= k <= n == cs.len(),
            cs == doc@.nodes[i as int].children,
            base == spec_device_builder(doc@.nodes[i as int]),
            spec_dev_fold(doc@, device@, cs.skip(k as int)) == spec_dev_fold(doc@, base, cs),
            variants@.map_values(|b: DeviceBuilder| b@) + spec_variant_list(
                doc@,
                cs.skip(k as int),
            ) == spec_variant_list(doc@, cs),
        decreases n - k,
    {
        let ghost pre = cs.skip(k as int);
        assert(pre[0] == cs[k as int]);
        assert(pre.drop_first() =~= cs.skip(k as int + 1));
        let ghost st0 = device@;
        proof {
            lemma_walk_names_distinct();
        }
        let j = crate::xml::child_at(doc, i, k);
        if crate::xml::name_is(doc, j, "memory") {
            match parse_memory(doc, j) {
                Ok((name, mem)) => {
                    device.add_memory(name, mem);
                },
                Err(_) => {},
            }
        } else if crate::xml::name_is(doc, j, "algorithm") {
            match parse_algorithm(doc, j) {
                Ok(a) => {
                    device.add_algorithm(a);
                },
                Err(_) => {},
            }
        } else if crate::xml::name_is(doc, j, "processor") {
            let pb = ProcessorBuilder::from_doc(doc, j);
            let ps = ProcessorsBuilder(vec![pb]);
            assert(ps@ =~= seq![spec_processor_builder(doc@.nodes[j as int])]);
            device.add_processor(ps);
        } else if crate::xml::name_is(doc, j, "debug") {
            let db = DebugBuilder::from_doc(doc, j);
            let ds = DebugsBuilder(vec![db]);
            assert(ds@ =~= seq![spec_debug_builder(doc@.nodes[j as int])]);
            device.add_debug(ds);
        } else if crate::xml::name_is(doc, j, "variant") {
            variants.push(DeviceBuilder::from_doc(doc, j));
            proof {
                assert(variants@.map_values(|b: DeviceBuilder| b@) + spec_variant_list(
                    doc@,
                    cs.skip(k as int + 1),
                ) =~= spec_variant_list(doc@, cs));
            }
        }
        proof {
            assert(device@ =~~= spec_dev_step(doc@, st0, cs[k as int]));
            assert(spec_dev_fold(doc@, st0, cs.skip(k as int)) == spec_dev_fold(
                doc@,
                device@,
                cs.skip(k as int + 1),
            ));
        }
        k = k + 1;
    }
    proof {
        assert(cs.skip(n as int) =~= Seq::<int>::empty());
        assert(spec_variant_list(doc@, cs.skip(n as int)) =~= Seq::<DeviceBuilderV>::empty());
        assert(variants@.map_values(|b: DeviceBuilder| b@) + Seq::<DeviceBuilderV>::empty()
            =~= variants@.map_values(|b: DeviceBuilder| b@));
    }
    let ghost acc = spec_dev_fold(doc@, base, cs);
    let ghost vs = spec_variant_list(doc@, cs);
    if variants.len() == 0 {
        let mut out: Vec<DeviceBuilder> = Vec::new();
        out.push(device);
        proof {
            assert(out@.map_values(|b: DeviceBuilder| b@) =~= seq![acc]);
        }
        return out;
    }
    let vn = variants.len();
    let mut out: Vec<DeviceBuilder> = Vec::new();
    let mut k: usize = 0;
    let ghost vsv = variants@.map_values(|b: DeviceBuilder| b@);
    proof {
        assert(vsv.skip(0) =~= vsv);
    }
    while k < vn
        invariant
            0 <= k <= vn == variants@.len(),
            vsv == variants@.map_values(|b: DeviceBuilder| b@),
            device@ == acc,
            out@.map_values(|b: DeviceBuilder| b@) + spec_apply_parent(
                vsv.skip(k as int),
                acc,
            ) == spec_apply_parent(vsv, acc),
        decreases vn - k,
    {
        let ghost pre = vsv.skip(k as int);
        assert(pre[0] == vsv[k as int]);
        assert(pre.drop_first() =~= vsv.skip(k as int + 1));
        let v = variants[k].clone();
        match v.add_parent(&device) {
            Ok(b) => {
                out.push(b);
                proof {
                    assert(out@.map_values(|b: DeviceBuilder| b@) + spec_apply_parent(
                        vsv.skip(k as int + 1),
                        acc,
                    ) =~= spec_apply_parent(vsv, acc));
                }
            },
            Err(_) => {},
        }
        k = k + 1;
    }
    proof {
        assert(vsv.skip(vn as int) =~= Seq::<DeviceBuilderV>::empty());
        assert(out@.map_values(|b: DeviceBuilder| b@) =~= spec_apply_parent(vsv, acc));
    }
    out
}

/// The builders contributed by the `device` children of a sub-family.
pub open spec fn spec_sub_children(doc: DocV, cs: Seq<int>) -> Seq<DeviceBuilderV>
    decreases cs.len(),
{
    if cs.len() == 0 {
        Seq::empty()
    } else {
        let rest = spec_sub_children(doc, cs.drop_first());
        if doc.nodes[cs[0]].name == "device"@ {
            spec_parse_device(doc, cs[0]) + rest
        } else {
            rest
        }
    }
}

/// What parsing a `<subFamily>` element yields: every device under it,
/// merged under the sub-family level.
pub open spec fn spec_parse_sub_family(doc: DocV, i: int) -> Seq<DeviceBuilderV> {
    let cs = doc.nodes[i].children;
    let acc = spec_level_fold(doc, spec_device_builder(doc.nodes[i]), cs);
    spec_apply_parent(spec_sub_children(doc, cs), acc)
}

/// Parses a `<subFamily>` element into the builders of its devices.
pub fn parse_sub_family(doc: &XmlDoc, i: usize) -> (r: Vec<DeviceBuilder>)
    requires
        doc.wf(),
        i < doc@.nodes.len(),
    ensures
        r@.map_values(|b: DeviceBuilder| b@) == spec_parse_sub_family(doc@, i as int),
{
    let ghost cs = doc@.nodes[i as int].children;
    let ghost base = spec_device_builder(doc@.nodes[i as int]);
    let mut sub = DeviceBuilder::from_doc(doc, i);
    let mut devices: Vec<DeviceBuilder> = Vec::new();
    let n = crate::xml::child_count(doc, i);
    let mut k: usize = 0;
    proof {
        assert(cs.skip(0) =~= cs);
    }
    while k < n
        invariant
            doc.wf(),
            i < doc@.nodes.len(),
            0 <= k <= n == cs.len(),
            cs == doc@.nodes[i as int].children,
            base == spec_device_builder(doc@.nodes[i as int]),
            spec_level_fold(doc@, sub@, cs.skip(k as int)) == spec_level_fold(doc@, base, cs),
            devices@.map_values(|b: DeviceBuilder| b@) + spec_sub_children(
                doc@,
                cs.skip(k as int),
            ) == spec_sub_children(doc@, cs),
        decreases n - k,
    {
        let ghost pre = cs.skip(k as int);
        assert(pre[0] == cs[k as int]);
        assert(pre.drop_first() =~= cs.skip(k as int + 1));
        let ghost st0 = sub@;
        proof {
            lemma_walk_names_distinct();
        }
        let j = crate::xml::child_at(doc, i, k);
        if crate::xml::name_is(doc, j, "memory") {
            match parse_memory(doc, j) {
                Ok((name, mem)) => {
                    sub.add_memory(name, mem);
                },
                Err(_) => {},
            }
        } else if crate::xml::name_is(doc, j, "algorithm") {
            match parse_algorithm(doc, j) {
                Ok(a) => {
                    sub.add_algorithm(a);
                },
                Err(_) => {},
            }
        } else if crate::xml::name_is(doc, j, "processor") {
            let pb = ProcessorBuilder::from_doc(doc, j);
            let ps = ProcessorsBuilder(vec![pb]);
            assert(ps@ =~= seq![spec_processor_builder(doc@.nodes[j as int])]);
            sub.add_processor(ps);
        } else if crate::xml::name_is(doc, j, "device") {
            let mut ds = parse_device(doc, j);
            let ghost dv = ds@.map_values(|b: DeviceBuilder| b@);
            let ghost before = devices@.map_values(|b: DeviceBuilder| b@);
            devices.append(&mut ds);
            proof {
                assert(devices@.map_values(|b: DeviceBuilder| b@) =~= before + dv);
                assert((before + dv) + spec_sub_children(doc@, cs.skip(k as int + 1))
                    =~= before + (dv + spec_sub_children(doc@, cs.skip(k as int + 1))));
            }
        }
        proof {
            assert(sub@ =~~= spec_level_step(doc@, st0, cs[k as int]));
            assert(spec_level_fold(doc@, st0, cs.skip(k as int)) == spec_level_fold(
                doc@,
                sub@,
                cs.skip(k as int + 1),
            ));
        }
        k = k + 1;
    }
    proof {
        assert(cs.skip(n as int) =~= Seq::<int>::empty());
        assert(devices@.map_values(|b: DeviceBuilder| b@) + Seq::<DeviceBuilderV>::empty()
            =~= devices@.map_values(|b: DeviceBuilder| b@));
    }
    let ghost acc = spec_level_fold(doc@, base, cs);
    let ghost dvs = devices@.map_values(|b: DeviceBuilder| b@);
    let dn = devices.len();
    let mut out: Vec<DeviceBuilder> = Vec::new();
    let mut k: usize = 0;
    proof {
        assert(dvs.skip(0) =~= dvs);
    }
    while k < dn
        invariant
            0 <= k <= dn == devices@.len(),
            dvs == devices@.map_values(|b: DeviceBuilder| b@),
            sub@ == acc,
            out@.map_values(|b: DeviceBuilder| b@) + spec_apply_parent(
                dvs.skip(k as int),
                acc,
            ) == spec_apply_parent(dvs, acc),
        decreases dn - k,
    {
        let ghost pre = dvs.skip(k as int);
        assert(pre[0] == dvs[k as int]);
        assert(pre.drop_first() =~= dvs.skip(k as int + 1));
        let v = devices[k].clone();
        match v.add_parent(&sub) {
            Ok(b) => {
                out.push(b);
                proof {
                    assert(out@.map_values(|b: DeviceBuilder| b@) + spec_apply_parent(
                        dvs.skip(k as int + 1),
                        acc,
                    ) =~= spec_apply_parent(dvs, acc));
                }
            },
            Err(_) => {},
        }
        k = k + 1;
    }
    proof {
        assert(dvs.skip(dn as int) =~= Seq::<DeviceBuilderV>::empty());
        assert(out@.map_values(|b: DeviceBuilder| b@) =~= spec_apply_parent(dvs, acc));
    }
    out
}

/// The builders contributed by the `subFamily` and `device` children of a
/// family, in document order.
pub open spec fn spec_family_children(doc: DocV, cs: Seq<int>) -> Seq<DeviceBuilderV>
    decreases cs.len(),
{
    if cs.len() == 0 {
        Seq::empty()
    } else {
        let rest = spec_family_children(doc, cs.drop_first());
        if doc.nodes[cs[0]].name == "subFamily"@ {
            spec_parse_sub_family(doc, cs[0]) + rest
        } else if doc.nodes[cs[0]].name == "device"@ {
            spec_parse_device(doc, cs[0]) + rest
        } else {
            rest
        }
    }
}

/// Merging each builder under the family level and building it; a device
/// whose merge or build fails is dropped, the others continue.
pub open spec fn spec_finish_builders(vs: Seq<DeviceBuilderV>, par: DeviceBuilderV) -> Seq<DeviceV>
    decreases vs.len(),
{
    if vs.len() == 0 {
        Seq::empty()
    } else {
        let rest = spec_finish_builders(vs.drop_first(), par);
        match spec_add_parent(vs[0], par) {
            Ok(b) => match spec_db_build(b) {
                Ok(d) => seq![d] + rest,
                Err(_) => rest,
            },
            Err(_) => rest,
        }
    }
}

/// What parsing a `<family>` element yields: every resolved device under
/// it, after inheriting through its whole chain of levels.
pub open spec fn spec_parse_family(doc: DocV, i: int) -> Seq<DeviceV> {
    let cs = doc.nodes[i].children;
    let acc = spec_level_fold(doc, spec_device_builder(doc.nodes[i]), cs);
    spec_finish_builders(spec_family_children(doc, cs), acc)
}

/// Parses a `<family>` element into its resolved devices.
pub fn parse_family(doc: &XmlDoc, i: usize) -> (r: Vec<Device>)
    requires
        doc.wf(),
        i < doc@.nodes.len(),
    ensures
        r@.map_values(|d: Device| d@) == spec_parse_family(doc@, i as int),
{
    let ghost cs = doc@.nodes[i as int].children;
    let ghost base = spec_device_builder(doc@.nodes[i as int]);
    let mut fam = DeviceBuilder::from_doc(doc, i);
    let mut builders: Vec<DeviceBuilder> = Vec::new();
    let n = crate::xml::child_count(doc, i);
    let mut k: usize = 0;
    proof {
        assert(cs.skip(0) =~= cs);
    }
    while k < n
        invariant
            doc.wf(),
            i < doc@.nodes.len(),
            0 <= k <= n == cs.len(),
            cs == doc@.nodes[i as int].children,
            base == spec_device_builder(doc@.nodes[i as int]),
            spec_level_fold(doc@, fam@, cs.skip(k as int)) == spec_level_fold(doc@, base, cs),
            builders@.map_values(|b: DeviceBuilder| b@) + spec_family_children(
                doc@,
                cs.skip(k as int),
            ) == spec_family_children(doc@, cs),
        decreases n - k,
    {
        let ghost pre = cs.skip(k as int);
        assert(pre[0] == cs[k as int]);
        assert(pre.drop_first() =~= cs.skip(k as int + 1));
        let ghost st0 = fam@;
        proof {
            lemma_walk_names_distinct();
        }
        let j = crate::xml::child_at(doc, i, k);
        if crate::xml::name_is(doc, j, "memory") {
            match parse_memory(doc, j) {
                Ok((name, mem)) => {
                    fam.add_memory(name, mem);
                },
                Err(_) => {},
            }
        } else if crate::xml::name_is(doc, j, "algorithm") {
            match parse_algorithm(doc, j) {
                Ok(a) => {
                    fam.add_algorithm(a);
                },
                Err(_) => {},
            }
        } else if crate::xml::name_is(doc, j, "processor") {
            let pb = ProcessorBuilder::from_doc(doc, j);
            let ps = ProcessorsBuilder(vec![pb]);
            assert(ps@ =~= seq![spec_processor_builder(doc@.nodes[j as int])]);
            fam.add_processor(ps);
        } else if crate::xml::name_is(doc, j, "subFamily") {
            let mut ds = parse_sub_family(doc, j);
            let ghost dv = ds@.map_values(|b: DeviceBuilder| b@);
            let ghost before = builders@.map_values(|b: DeviceBuilder| b@);
            builders.append(&mut ds);
            proof {
                assert(builders@.map_values(|b: DeviceBuilder| b@) =~= before + dv);
                assert((before + dv) + spec_family_children(doc@, cs.skip(k as int + 1))
                    =~= before + (dv + spec_family_children(doc@, cs.skip(k as int + 1))));
            }
        } else if crate::xml::name_is(doc, j, "device") {
            let mut ds = parse_device(doc, j);
            let ghost dv = ds@.map_values(|b: DeviceBuilder| b@);
            let ghost before = builders@.map_values(|b: DeviceBuilder| b@);
            builders.append(&mut ds);
            proof {
                assert(builders@.map_values(|b: DeviceBuilder| b@) =~= before + dv);
                assert((before + dv) + spec_family_children(doc@, cs.skip(k as int + 1))
                    =~= before + (dv + spec_family_children(doc@, cs.skip(k as int + 1))));
            }
        }
        proof {
            assert(fam@ =~~= spec_level_step(doc@, st0, cs[k as int]));
            assert(spec_level_fold(doc@, st0, cs.skip(k as int)) == spec_level_fold(
                doc@,
                fam@,
                cs.skip(k as int + 1),
            ));
        }
        k = k + 1;
    }
    proof {
        assert(cs.skip(n as int) =~= Seq::<int>::empty());
        assert(builders@.map_values(|b: DeviceBuilder| b@) + Seq::<DeviceBuilderV>::empty()
            =~= builders@.map_values(|b: DeviceBuilder| b@));
    }
    let ghost acc = spec_level_fold(doc@, base, cs);
    let ghost bvs = builders@.map_values(|b: DeviceBuilder| b@);
    let bn = builders.len();
    let mut out: Vec<Device> = Vec::new();
    let mut k: usize = 0;
    proof {
        assert(bvs.skip(0) =~= bvs);
    }
    while k < bn
        invariant
            0 <= k <= bn == builders@.len(),
            bvs == builders@.map_values(|b: DeviceBuilder| b@),
            fam@ == acc,
            out@.map_values(|d: Device| d@) + spec_finish_builders(
                bvs.skip(k as int),
                acc,
            ) == spec_finish_builders(bvs, acc),
        decreases bn - k,
    {
        let ghost pre = bvs.skip(k as int);
        assert(pre[0] == bvs[k as int]);
        assert(pre.drop_first() =~= bvs.skip(k as int + 1));
        let v = builders[k].clone();
        match v.add_parent(&fam) {
            Ok(b) => match b.build() {
                Ok(d) => {
                    out.push(d);
                    proof {
                        assert(out@.map_values(|d: Device| d@) + spec_finish_builders(
                            bvs.skip(k as int + 1),
                            acc,
                        ) =~= spec_finish_builders(bvs, acc));
                    }
                },
                Err(_) => {},
            },
            Err(_) => {},
        }
        k = k + 1;
    }
    proof {
        assert(bvs.skip(bn as int) =~= Seq::<DeviceBuilderV>::empty());
        assert(out@.map_values(|d: Device| d@) =~= spec_finish_builders(bvs, acc));
    }
    out
}

// ---- the device table ----

/// The devices of a package, keyed by device name; a device declared twice
/// overwrites the earlier entry in declaration order.
#[derive(Debug)]
pub struct Devices(pub Vec<(String, Device)>);

impl View for Devices {
    type V = Seq<(Seq<char>, DeviceV)>;

    open spec fn view(&self) -> Seq<(Seq<char>, DeviceV)> {
        self.0@.map_values(|p: (String, Device)| (p.0@, p.1@))
    }
}

impl Devices {
    /// Inserts a device under its name, overwriting an entry of the same
    /// name.
    pub fn insert(&mut self, d: Device)
        ensures
            final(self)@ == assoc_insert(old(self)@, d@.name, d@),
    {
        let key = d.name.clone();
        let n = self.0.len();
        let mut i: usize = 0;
        while i < n
            invariant
                0 <= i <= n == self.0@.len(),
                forall|j: int| 0 <= j < i ==> self@[j].0 != key@,
                self@ == old(self)@,
                key@ == d@.name,
            decreases n - i,
        {
            if str_eq(self.0[i].0.as_str(), key.as_str()) {
                assert(self@[i as int].0 == key@);
                self.0[i] = (key, d);
                proof {
                    lemma_assoc_insert_found(old(self)@, self@[i as int].0, self@[i as int].1, i as int);
                    assert(self@ =~= old(self)@.update(i as int, (self@[i as int].0, self@[i as int].1)));
                }
                return ;
            }
            i = i + 1;
        }
        proof {
            lemma_assoc_insert_new(old(self)@, key@, d@);
        }
        self.0.push((key, d));
        assert(self@ =~= old(self)@.push((self@[self@.len() - 1].0, self@[self@.len() - 1].1)));
    }
}

/// Inserting a list of resolved devices in order.
pub open spec fn spec_insert_devices(
    ds: Seq<(Seq<char>, DeviceV)>,
    list: Seq<DeviceV>,
) -> Seq<(Seq<char>, DeviceV)>
    decreases list.len(),
{
    if list.len() == 0 {
        ds
    } else {
        spec_insert_devices(assoc_insert(ds, list[0].name, list[0]), list.drop_first())
    }
}

/// What parsing a `<devices>` block yields: every child is read as a
/// family, and the resolved devices are inserted by name in order.
pub open spec fn spec_parse_devices(doc: DocV, i: int) -> Seq<(Seq<char>, DeviceV)>
    decreases doc.nodes[i].children.len(),
{
    spec_devices_fold(doc, Seq::empty(), doc.nodes[i].children)
}

pub open spec fn spec_devices_fold(
    doc: DocV,
    ds: Seq<(Seq<char>, DeviceV)>,
    cs: Seq<int>,
) -> Seq<(Seq<char>, DeviceV)>
    decreases cs.len(),
{
    if cs.len() == 0 {
        ds
    } else {
        spec_devices_fold(doc, spec_insert_devices(ds, spec_parse_family(doc, cs[0])), cs.drop_first())
    }
}

impl Devices {
    /// Parses a `<devices>` block of a parsed document.
    pub fn from_doc(doc: &XmlDoc, i: usize) -> (r: Devices)
        requires
            doc.wf(),
            i < doc@.nodes.len(),
        ensures
            r@ == spec_parse_devices(doc@, i as int),
    {
        let ghost cs = doc@.nodes[i as int].children;
        let mut out = Devices(Vec::new());
        let n = crate::xml::child_count(doc, i);
        let mut k: usize = 0;
        proof {
            assert(cs.skip(0) =~= cs);
            assert(out@ =~= Seq::<(Seq<char>, DeviceV)>::empty());
        }
        while k < n
            invariant
                doc.wf(),
                i < doc@.nodes.len(),
                0 <= k <= n == cs.len(),
                cs == doc@.nodes[i as int].children,
                spec_devices_fold(doc@, out@, cs.skip(k as int)) == spec_devices_fold(
                    doc@,
                    Seq::empty(),
                    cs,
                ),
            decreases n - k,
        {
            let ghost pre = cs.skip(k as int);
            assert(pre[0] == cs[k as int]);
            assert(pre.drop_first() =~= cs.skip(k as int + 1));
            let j = crate::xml::child_at(doc, i, k);
            let ds = parse_family(doc, j);
            let ghost lv = ds@.map_values(|d: Device| d@);
            let dn = ds.len();
            let mut m: usize = 0;
            let ghost at_entry = out@;
            proof {
                assert(lv.skip(0) =~= lv);
            }
            while m < dn
                invariant
                    0 <= m <= dn == ds@.len(),
                    lv == ds@.map_values(|d: Device| d@),
                    spec_insert_devices(out@, lv.skip(m as int)) == spec_insert_devices(
                        at_entry,
                        lv,
                    ),
                decreases dn - m,
            {
                let ghost ipre = lv.skip(m as int);
                assert(ipre[0] == lv[m as int]);
                assert(ipre.drop_first() =~= lv.skip(m as int + 1));
                let d = ds[m].clone();
                out.insert(d);
                m = m + 1;
            }
            proof {
                assert(lv.skip(dn as int) =~= Seq::<DeviceV>::empty());
            }
            k = k + 1;
        }
        proof {
            assert(cs.skip(n as int) =~= Seq::<int>::empty());
        }
        out
    }
}

} // verus!

verus! {

proof fn lemma_mem_has_is_assoc(ms: Seq<(Seq<char>, MemoryV)>, k: Seq<char>)
    ensures
        mem_has_key(ms, k) == crate::assoc::assoc_has_key(ms, k),
{
}

proof fn lemma_mem_lookup_is_assoc(ms: Seq<(Seq<char>, MemoryV)>, k: Seq<char>)
    ensures
        mem_lookup(ms, k) == crate::assoc::assoc_lookup(ms, k),
    decreases ms.len(),
{
    if ms.len() > 0 {
        lemma_mem_lookup_is_assoc(ms.drop_first(), k);
    }
}

proof fn lemma_mem_missing_is_assoc(l: Seq<(Seq<char>, MemoryV)>, r: Seq<(Seq<char>, MemoryV)>)
    ensures
        mem_missing(l, r) == crate::assoc::assoc_missing(l, r),
    decreases r.len(),
{
    if r.len() > 0 {
        lemma_mem_missing_is_assoc(l, r.drop_first());
        lemma_mem_has_is_assoc(l, r[0].0);
    }
}

/// What one memory merge answers: the child's entry where the child knows
/// the name, else the parent's.
pub proof fn lemma_merge_memories_lookup(
    c: Seq<(Seq<char>, MemoryV)>,
    p: Seq<(Seq<char>, MemoryV)>,
    k: Seq<char>,
)
    ensures
        mem_lookup(spec_merge_memories(c, p), k) == if mem_has_key(c, k) {
            mem_lookup(c, k)
        } else {
            mem_lookup(p, k)
        },
        mem_has_key(spec_merge_memories(c, p), k) <==> mem_has_key(c, k) || mem_has_key(p, k),
{
    lemma_mem_missing_is_assoc(c, p);
    lemma_mem_lookup_is_assoc(spec_merge_memories(c, p), k);
    lemma_mem_lookup_is_assoc(c, k);
    lemma_mem_lookup_is_assoc(p, k);
    lemma_mem_has_is_assoc(spec_merge_memories(c, p), k);
    lemma_mem_has_is_assoc(c, k);
    lemma_mem_has_is_assoc(p, k);
    crate::assoc::lemma_assoc_merge_lookup(c, p, k);
    assert(spec_merge_memories(c, p) == crate::assoc::assoc_merge(c, p));
}

/// A memory entry of an enclosing level reaches the resolved device
/// unless a lower level declares the same name: what the memory table
/// accumulated through the four-level walk answers for every name.
pub proof fn lemma_memory_inheritance(
    variant: Seq<(Seq<char>, MemoryV)>,
    device: Seq<(Seq<char>, MemoryV)>,
    sub_family: Seq<(Seq<char>, MemoryV)>,
    family: Seq<(Seq<char>, MemoryV)>,
    k: Seq<char>,
)
    ensures
        ({
            let merged = spec_merge_memories(
                spec_merge_memories(spec_merge_memories(variant, device), sub_family),
                family,
            );
            mem_lookup(merged, k) == if mem_has_key(variant, k) {
                mem_lookup(variant, k)
            } else if mem_has_key(device, k) {
                mem_lookup(device, k)
            } else if mem_has_key(sub_family, k) {
                mem_lookup(sub_family, k)
            } else {
                mem_lookup(family, k)
            }
        }),
{
    let m1 = spec_merge_memories(variant, device);
    let m2 = spec_merge_memories(m1, sub_family);
    lemma_merge_memories_lookup(variant, device, k);
    lemma_merge_memories_lookup(m1, sub_family, k);
    lemma_merge_memories_lookup(m2, family, k);
}

/// A device whose single processor specification declares a unit count
/// resolves to exactly that many processor records, with unit values
/// running from zero.
pub proof fn lemma_unit_expansion(b: DeviceBuilderV)
    requires
        b.name is Some,
        b.family is Some,
        b.processor is Some,
        b.processor.unwrap().len() == 1,
        b.processor.unwrap()[0].core is Some,
    ensures
        spec_db_build(b) is Ok,
        spec_db_build(b)->Ok_0.processors.len() == spec_units(b.processor.unwrap()[0]),
        forall|u: int|
            0 <= u < spec_db_build(b)->Ok_0.processors.len() ==> (#[trigger] spec_db_build(
                b,
            )->Ok_0.processors[u]).unit == u,
{
    let ps = b.processor.unwrap();
    let ds = b.debugs.map_values(|d: DebugBuilderV| spec_debug_build(d));
    assert(ps.drop_first() =~= Seq::<ProcessorBuilderV>::empty());
    assert(spec_psb_build(ps.drop_first(), ds) == Ok::<Seq<ProcessorV>, ErrV>(Seq::empty()));
    let v = spec_pb_build(ps[0], ds)->Ok_0;
    assert(spec_psb_build(ps, ds) == Ok::<Seq<ProcessorV>, ErrV>(v + Seq::empty()));
    assert(v + Seq::<ProcessorV>::empty() =~= v);
}

} // verus!
