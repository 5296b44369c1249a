use cmsis_pack::component::{FileAttribute, FileCategory};
use cmsis_pack::device::{parse_memory, MemoryPermissions, FPU, MPU};
use cmsis_pack::numbers::{parse_bool, parse_number};
use cmsis_pack::pdsc::Package;
use cmsis_pack::xml::parse_doc;

#[test]
fn number_bases() {
    assert_eq!(parse_number("0x10"), Some(16));
    assert_eq!(parse_number("010"), Some(8));
    assert_eq!(parse_number("10"), Some(10));
    assert_eq!(parse_number("0"), Some(0));
    assert_eq!(parse_number("0xfF"), Some(255));
    assert_eq!(parse_number("0x"), None);
    assert_eq!(parse_number("12z"), None);
    assert_eq!(parse_number(""), None);
    assert_eq!(parse_number("0xffffffffffffffff"), Some(u64::MAX));
    assert_eq!(parse_number("0x10000000000000000"), None);
}

#[test]
fn boolean_literals() {
    assert_eq!(parse_bool("true"), Some(true));
    assert_eq!(parse_bool("1"), Some(true));
    assert_eq!(parse_bool("false"), Some(false));
    assert_eq!(parse_bool("0"), Some(false));
    assert_eq!(parse_bool("yes"), None);
}

#[test]
fn memory_access_default_rom() {
    let doc = parse_doc("<memory id=\"Foo_ROM\" start=\"0x0\" size=\"0x100\"/>").unwrap();
    let (name, mem) = parse_memory(&doc, 0).unwrap();
    assert_eq!(name, "Foo_ROM");
    assert!(mem.access.read);
    assert!(mem.access.execute);
    assert!(!mem.access.write);
    assert_eq!(mem.start, 0);
    assert_eq!(mem.size, 0x100);
}

#[test]
fn memory_access_default_ram_and_explicit() {
    let doc = parse_doc("<memory id=\"X_RAM\" start=\"0x20000000\" size=\"0x400\"/>").unwrap();
    let (_, mem) = parse_memory(&doc, 0).unwrap();
    assert!(mem.access.read && mem.access.write && !mem.access.execute);
    let doc = parse_doc("<memory id=\"Z\" access=\"rwxs\" start=\"0\" size=\"1\"/>").unwrap();
    let (_, mem) = parse_memory(&doc, 0).unwrap();
    assert!(mem.access.read && mem.access.write && mem.access.execute && mem.access.secure);
    let p = MemoryPermissions::from_str("pnc");
    assert!(p.peripheral && p.non_secure && p.non_secure_callable && !p.read);
}

const PACK_HEAD: &str = "<package>
  <name>TestPack</name>
  <description>A pack</description>
  <vendor>TestVendor</vendor>
  <url>http://example.com/pack</url>
  <releases>
    <release version=\"2.0.0\">latest</release>
    <release version=\"1.0.0\">older</release>
  </releases>";

#[test]
fn latest_release_is_first() {
    let text = format!("{}{}", PACK_HEAD, "</package>");
    let pack = Package::from_string(&text).unwrap();
    assert_eq!(pack.releases.latest_release().version, "2.0.0");
    assert_eq!(pack.releases.0.len(), 2);
    assert_eq!(pack.name, "TestPack");
    assert_eq!(pack.license, None);
}

#[test]
fn unit_expansion_counts() {
    let text = format!(
        "{}{}",
        PACK_HEAD,
        "<devices>
           <family Dfamily=\"Fam\" Dvendor=\"V\">
             <processor Dcore=\"Cortex-M4\" Punits=\"3\"/>
             <device Dname=\"D1\"/>
           </family>
         </devices>
         </package>"
    );
    let pack = Package::from_string(&text).unwrap();
    assert_eq!(pack.devices.0.len(), 1);
    let dev = &pack.devices.0[0].1;
    assert_eq!(dev.name, "D1");
    assert_eq!(dev.processors.len(), 3);
    for (u, p) in dev.processors.iter().enumerate() {
        assert_eq!(p.unit, u as u64);
        assert!(matches!(p.fpu, FPU::NotPresent));
        assert!(matches!(p.mpu, MPU::NotPresent));
    }
}

#[test]
fn variant_inherits_memories() {
    let text = format!(
        "{}{}",
        PACK_HEAD,
        "<devices>
           <family Dfamily=\"Fam\" Dvendor=\"V\">
             <processor Dcore=\"Cortex-M0\"/>
             <memory id=\"IROM1\" start=\"0x0\" size=\"0x1000\"/>
             <subFamily DsubFamily=\"Sub\">
               <memory id=\"IRAM1\" start=\"0x20000000\" size=\"0x800\"/>
               <device Dname=\"Base\">
                 <memory id=\"IRAM1\" start=\"0x20000000\" size=\"0x2000\"/>
                 <variant Dvariant=\"Var1\"/>
               </device>
             </subFamily>
           </family>
         </devices>
         </package>"
    );
    let pack = Package::from_string(&text).unwrap();
    assert_eq!(pack.devices.0.len(), 1);
    let dev = &pack.devices.0[0].1;
    assert_eq!(dev.name, "Var1");
    assert_eq!(dev.family, "Fam");
    assert_eq!(dev.sub_family.as_deref(), Some("Sub"));
    let lookup = |n: &str| {
        dev.memories
            .0
            .iter()
            .find(|(k, _)| k == n)
            .map(|(_, m)| m.size)
    };
    // the device's override shadows the sub-family's entry, and the
    // family's entry is inherited untouched
    assert_eq!(lookup("IRAM1"), Some(0x2000));
    assert_eq!(lookup("IROM1"), Some(0x1000));
}

#[test]
fn bundle_expansion_fills_fields() {
    let text = format!(
        "{}{}",
        PACK_HEAD,
        "<components>
           <bundle Cbundle=\"B\" Cclass=\"CMSIS\" Cversion=\"3.0.0\">
             <description>bundle</description>
             <doc>doc.html</doc>
             <component Cgroup=\"Core\">
               <description>inner</description>
             </component>
             <component Cclass=\"Own\" Cgroup=\"G2\" Cversion=\"9.9.9\">
               <description>own fields win</description>
             </component>
           </bundle>
           <component Cclass=\"Device\" Cgroup=\"Startup\">
             <description>plain</description>
           </component>
         </components>
         </package>"
    );
    let pack = Package::from_string(&text).unwrap();
    assert_eq!(pack.components.0.len(), 3);
    let c0 = &pack.components.0[0];
    assert_eq!(c0.class.as_deref(), Some("CMSIS"));
    assert_eq!(c0.version.as_deref(), Some("3.0.0"));
    let c1 = &pack.components.0[1];
    assert_eq!(c1.class.as_deref(), Some("Own"));
    assert_eq!(c1.version.as_deref(), Some("9.9.9"));
    let comps = pack.make_components();
    assert_eq!(comps[2].vendor, "TestVendor");
    assert_eq!(comps[2].version, "2.0.0");
    assert!(comps[2].is_default);
}

#[test]
fn file_refs_and_categories() {
    let text = format!(
        "{}{}",
        PACK_HEAD,
        "<components>
           <component Cclass=\"C\" Cgroup=\"G\">
             <description>with files</description>
             <files>
               <file name=\"inc\\core.h\" category=\"header\"/>
               <file name=\"bad\" category=\"nonsense\"/>
               <file name=\"src/a.c\" category=\"sourceC\" attr=\"config\"/>
             </files>
           </component>
         </components>
         </package>"
    );
    let pack = Package::from_string(&text).unwrap();
    let files = &pack.components.0[0].files;
    assert_eq!(files.len(), 2);
    assert_eq!(files[0].path, "inc/core.h");
    assert!(matches!(files[0].category, FileCategory::Header));
    assert!(matches!(files[1].attr, Some(FileAttribute::Config)));
}

#[test]
fn condition_reference_check() {
    let text = format!(
        "{}{}",
        PACK_HEAD,
        "<conditions>
           <condition id=\"Known\">
             <require Dname=\"X*\"/>
           </condition>
         </conditions>
         <components>
           <component Cclass=\"C\" Cgroup=\"G\" condition=\"Known\">
             <description>fine</description>
           </component>
           <component Cclass=\"C\" Cgroup=\"H\" condition=\"Ghostly\">
             <description>dangling</description>
             <files>
               <file name=\"a.c\" category=\"sourceC\" condition=\"AlsoGone\"/>
             </files>
           </component>
         </components>
         </package>"
    );
    let pack = Package::from_string(&text).unwrap();
    let unknown = pack.check_conditions();
    assert_eq!(unknown, vec!["Ghostly".to_string(), "AlsoGone".to_string()]);
    let table = pack.make_condition_lookup();
    assert_eq!(table.len(), 1);
    assert_eq!(table[0].1.require.len(), 1);
    assert_eq!(table[0].1.require[0].device_name.as_deref(), Some("X*"));
}

#[test]
fn boards_and_mounted_devices() {
    let text = format!(
        "{}{}",
        PACK_HEAD,
        "<boards>
           <board name=\"Disco\">
             <mountedDevice Dname=\"D1\"/>
             <mountedDevice Dname=\"D2\"/>
             <otherChild/>
           </board>
         </boards>
         </package>"
    );
    let pack = Package::from_string(&text).unwrap();
    assert_eq!(pack.boards.len(), 1);
    assert_eq!(pack.boards[0].name, "Disco");
    assert_eq!(pack.boards[0].mounted_devices, vec!["D1".to_string(), "D2".to_string()]);
}

#[test]
fn namespaces_and_entities() {
    let doc = parse_doc(
        "<xs:thing xmlns:xs=\"http://www.w3.org/2001/XMLSchema-instance\">a &amp; b &#33;</xs:thing>",
    )
    .unwrap();
    assert_eq!(doc.nodes[0].name, "thing");
    assert_eq!(doc.nodes[0].text, "a & b !");
    assert!(parse_doc("</lonely>").is_none());
    assert!(parse_doc("   ").is_none());
}

#[test]
fn duplicate_devices_last_wins() {
    let text = format!(
        "{}{}",
        PACK_HEAD,
        "<devices>
           <family Dfamily=\"Fam\" Dvendor=\"V\">
             <processor Dcore=\"Cortex-M0\"/>
             <device Dname=\"Twin\">
               <memory id=\"A\" start=\"0\" size=\"1\"/>
             </device>
             <device Dname=\"Twin\">
               <memory id=\"B\" start=\"0\" size=\"2\"/>
             </device>
           </family>
         </devices>
         </package>"
    );
    let pack = Package::from_string(&text).unwrap();
    assert_eq!(pack.devices.0.len(), 1);
    let dev = &pack.devices.0[0].1;
    assert!(dev.memories.0.iter().any(|(k, _)| k == "B"));
    assert!(!dev.memories.0.iter().any(|(k, _)| k == "A"));
}

#[test]
fn device_without_processor_dropped() {
    let text = format!(
        "{}{}",
        PACK_HEAD,
        "<devices>
           <family Dfamily=\"Fam\" Dvendor=\"V\">
             <device Dname=\"NoProc\"/>
           </family>
         </devices>
         </package>"
    );
    let pack = Package::from_string(&text).unwrap();
    assert_eq!(pack.devices.0.len(), 0);
}

#[test]
fn debug_records_match_units() {
    let text = format!(
        "{}{}",
        PACK_HEAD,
        "<devices>
           <family Dfamily=\"Fam\" Dvendor=\"V\">
             <device Dname=\"D\">
               <processor Dcore=\"Cortex-M33\" Punits=\"2\" Pname=\"core0\" Dfpu=\"DP_FPU\" Dmpu=\"MPU\"/>
               <debug __ap=\"1\" __dp=\"2\" Pname=\"core0\" Punit=\"1\" svd=\"f.svd\"/>
             </device>
           </family>
         </devices>
         </package>"
    );
    let pack = Package::from_string(&text).unwrap();
    let dev = &pack.devices.0[0].1;
    assert_eq!(dev.processors.len(), 2);
    // unit 0 has no matching debug record, unit 1 does
    assert_eq!(dev.processors[0].ap, 0);
    assert_eq!(dev.processors[1].ap, 1);
    assert_eq!(dev.processors[1].dp, 2);
    assert_eq!(dev.processors[1].svd.as_deref(), Some("f.svd"));
    assert!(matches!(dev.processors[1].fpu, FPU::DoublePrecision));
    assert!(matches!(dev.processors[1].mpu, MPU::Present));
}
