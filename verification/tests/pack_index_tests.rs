use cmsis_pack::pack_index::{PdscRef, Pidx, Vidx};

#[test]
fn mod_pdscref_missing_attr() {
    let erroring_strings = vec![
        "<pdsc>",
        "<pdsc url=\"Vendor\" name=\"Name\" version=\"1.2.3-alpha\">",
        "<pdsc vendor=\"Vendor\" url=\"Url\" version=\"1.2.3-alpha\">",
        "<pdsc vendor=\"Vendor\" name=\"Name\" url=\"Url\">",
        "<pdsc vendor=\"Vendor\" name=\"Name\" version=\"1.2.3-alpha\">",
    ];
    for bad_string in erroring_strings {
        assert!(PdscRef::from_string(bad_string).is_err());
    }
}

#[test]
fn mod_pdscref_wrong_elem() {
    let bad_string = "<notPdsc vendor=\"Vendor\" url=\"Url\" name=\"name\" version=\"1.2.3-alpha\">";
    assert!(PdscRef::from_string(bad_string).is_err())
}

#[test]
fn mod_pdscref_optionals() {
    let good_string = "<pdsc vendor=\"Vendor\" url=\"Url\" name=\"Name\" version=\"1.2.3-alpha\">";
    let response = PdscRef::from_string(good_string).unwrap();
    assert_eq!(response.vendor, String::from("Vendor"));
    assert_eq!(response.url, "Url");
    assert_eq!(response.name, String::from("Name"));
    assert_eq!(response.version, String::from("1.2.3-alpha"));
    let good_string = "<pdsc vendor=\"Vendor\" url=\"Url\" name=\"Name\" version=\"1.2.3-alpha\"
                date=\"A-Date\" deprecated=\"true\" replacement=\"Other\" size=\"8MB\">";
    let response = PdscRef::from_string(good_string).unwrap();
    assert_eq!(response.date, Some(String::from("A-Date")));
    assert_eq!(response.deprecated, Some(String::from("true")));
    assert_eq!(response.replacement, Some(String::from("Other")));
    assert_eq!(response.size, Some(String::from("8MB")));
}

#[test]
fn mod_pidx_misssing_attr() {
    let erroring_strings = vec!["<pidx/>", "<pidx vendor=\"Vendor\"/>", "<pidx url=\"Url\"/>"];
    for bad_string in erroring_strings {
        assert!(Pidx::from_string(bad_string).is_err());
    }
}

#[test]
fn mod_pidx_wrong_elem() {
    let bad_string = "<notpidx url=\"Url\" vendor=\"Vendor\"/>";
    assert!(Pidx::from_string(bad_string).is_err())
}

#[test]
fn mod_pidx_optionals() {
    let good_string = "<pidx vendor=\"Vendor\" url=\"Url\"/>";
    let response = Pidx::from_string(good_string).unwrap();
    assert_eq!(response.vendor, String::from("Vendor"));
    assert_eq!(response.url, "Url");

    let good_string = "<pidx vendor=\"Vendor\" url=\"Url\" date=\"Fri Sep  1 11:21:06 CDT 2017\"/>";
    let response = Pidx::from_string(good_string).unwrap();
    assert_eq!(response.vendor, String::from("Vendor"));
    assert_eq!(response.url, "Url");
    assert_eq!(response.date, Some(String::from("Fri Sep  1 11:21:06 CDT 2017")))
}

#[test]
fn vidx_misssing_attr() {
    let erroring_strings = vec![
        "<index xmlns:xs=\"http://www.w3.org/2001/XMLSchema-instance\">
             </index>",
        "<index xmlns:xs=\"http://www.w3.org/2001/XMLSchema-instance\">
               <vendor>Vendor</vendor>
             </index>",
        "<index xmlns:xs=\"http://www.w3.org/2001/XMLSchema-instance\">
               <url>Url</url>
             </index>",
    ];
    for bad_string in erroring_strings {
        assert!(Vidx::from_string(bad_string).is_err());
    }
}

#[test]
fn vidx_wrong_elem() {
    let bad_string = "<notindex xmlns:xs=\"http://www.w3.org/2001/XMLSchema-instance\">
               <vendor>Vendor</vendor>
               <url>Url</url>
             </notindex>";
    assert!(Vidx::from_string(bad_string).is_err())
}

#[test]
fn vidx_optionals() {
    let good_string = "<index xmlns:xs=\"http://www.w3.org/2001/XMLSchema-instance\">
               <vendor>Vendor</vendor>
               <url>Url</url>
             </index>";
    let response = Vidx::from_string(good_string).unwrap();
    assert_eq!(response.vendor, String::from("Vendor"));
    assert_eq!(response.url, "Url");

    let good_string = "<index xmlns:xs=\"http://www.w3.org/2001/XMLSchema-instance\">
               <vendor>Vendor</vendor>
               <url>Url</url>
               <timestamp>Fri Sep  1 13:26:41 CDT 2017</timestamp>
             </index>";
    let response = Vidx::from_string(good_string).unwrap();
    assert_eq!(response.vendor, String::from("Vendor"));
    assert_eq!(response.url, "Url");
}

#[test]
fn pack_index_pdscref_missing_attr() {
    let erroring_strings = vec![
        "<pdsc>",
        "<pdsc url=\"Vendor\" name=\"Name\" version=\"1.2.3-alpha\">",
        "<pdsc vendor=\"Vendor\" url=\"Url\" version=\"1.2.3-alpha\">",
        "<pdsc vendor=\"Vendor\" name=\"Name\" url=\"Url\">",
        "<pdsc vendor=\"Vendor\" name=\"Name\" version=\"1.2.3-alpha\">",
    ];
    for bad_string in erroring_strings {
        assert!(PdscRef::from_string(bad_string).is_err());
    }
}

#[test]
fn pack_index_pdscref_wrong_elem() {
    let bad_string = "<notPdsc vendor=\"Vendor\" url=\"Url\" name=\"name\" version=\"1.2.3-alpha\">";
    assert!(PdscRef::from_string(bad_string).is_err())
}

#[test]
fn pack_index_pdscref_optionals() {
    let good_string = "<pdsc vendor=\"Vendor\" url=\"Url\" name=\"Name\" version=\"1.2.3-alpha\">";
    let response = PdscRef::from_string(good_string).unwrap();
    assert_eq!(response.vendor, String::from("Vendor"));
    assert_eq!(response.url, "Url");
    assert_eq!(response.name, String::from("Name"));
    assert_eq!(response.version, String::from("1.2.3-alpha"));
    let good_string = "<pdsc vendor=\"Vendor\" url=\"Url\" name=\"Name\" version=\"1.2.3-alpha\"
               date=\"A-Date\" deprecated=\"true\" replacement=\"Other\" size=\"8MB\">";
    let response = PdscRef::from_string(good_string).unwrap();
    assert_eq!(response.date, Some(String::from("A-Date")));
    assert_eq!(response.deprecated, Some(String::from("true")));
    assert_eq!(response.replacement, Some(String::from("Other")));
    assert_eq!(response.size, Some(String::from("8MB")));
}

#[test]
fn pack_index_pidx_misssing_attr() {
    let erroring_strings = vec!["<pidx/>", "<pidx vendor=\"Vendor\"/>", "<pidx url=\"Url\"/>"];
    for bad_string in erroring_strings {
        assert!(Pidx::from_string(bad_string).is_err());
    }
}

#[test]
fn pack_index_pidx_wrong_elem() {
    let bad_string = "<notpidx url=\"Url\" vendor=\"Vendor\"/>";
    assert!(Pidx::from_string(bad_string).is_err())
}

#[test]
fn pack_index_pidx_optionals() {
    let good_string = "<vidx vendor=\"Vendor\" url=\"Url\"/>";
    let response = Pidx::from_string(good_string).unwrap();
    assert_eq!(response.vendor, String::from("Vendor"));
    assert_eq!(response.url, "Url");

    let good_string = "<vidx vendor=\"Vendor\" url=\"Url\" date=\"Fri Sep  1 11:21:06 CDT 2017\"/>";
    let response = Pidx::from_string(good_string).unwrap();
    assert_eq!(response.vendor, String::from("Vendor"));
    assert_eq!(response.url, "Url");
    assert_eq!(response.date, Some(String::from("Fri Sep  1 11:21:06 CDT 2017")))
}

#[test]
fn pdscref_missing_vendor_names_the_attribute() {
    let err = PdscRef::from_string("<pdsc url=\"U\" name=\"N\" version=\"V\">").unwrap_err();
    assert_eq!(err, cmsis_pack::error::Error::MissingAttribute("vendor".to_string()));
}
