use cmsis_pack::catalog::{collect_devices, merge_catalog};
use cmsis_pack::config::{default_vidx_urls, parse_vidx_list, ConfigBuilder};
use cmsis_pack::crawl::Crawler;
use cmsis_pack::download::{DownloadJob, Downloader};
use cmsis_pack::fetch::{classify_status, fetch_plan, host_of, pack_path, pack_url,
    resolve_location, FetchPlan, StatusClass};
use cmsis_pack::pack_index::{pdsc_filename, pdsc_url, pidx_url, PdscRef, Pidx, Vidx};
use cmsis_pack::pdsc::Package;
use cmsis_pack::poll::{poll_step, result_step, UpdatePoll, UpdateReturn};

fn make_ref(url: &str, vendor: &str, name: &str, version: &str) -> PdscRef {
    PdscRef {
        url: url.to_string(),
        vendor: vendor.to_string(),
        name: name.to_string(),
        version: version.to_string(),
        date: None,
        deprecated: None,
        replacement: None,
        size: None,
    }
}

#[test]
fn vendor_index_url_composition() {
    let p = Pidx { url: "http://x/".to_string(), vendor: "V".to_string(), date: None };
    assert_eq!(pidx_url(&p), "http://x/V.pidx");
}

#[test]
fn descriptor_url_composition() {
    let p = make_ref("http://x", "V", "N", "1.0");
    assert_eq!(pdsc_url(&p), "http://x/V.N.pdsc");
    let p = make_ref("http://x/", "V", "N", "1.0");
    assert_eq!(pdsc_url(&p), "http://x/V.N.pdsc");
    assert_eq!(pdsc_filename(&p), "V.N.1.0.pdsc");
}

#[test]
fn pack_urls_and_paths() {
    let text = "<package>
        <name>N</name><description>d</description><vendor>V</vendor>
        <url>http://x</url>
        <releases><release version=\"1.2\">r</release></releases>
        </package>";
    let pack = Package::from_string(text).unwrap();
    assert_eq!(pack_url(&pack), "http://x/V.N.1.2.pack");
    assert_eq!(pack_path(&pack), "V/N/1.2.pack");
}

#[test]
fn crawl_discovers_and_dedups() {
    // a vendor index naming two further indices, one already known
    let vidx_text = "<index>
        <vendor>Seed</vendor><url>http://seed/</url>
        <vindex>
          <pidx vendor=\"A\" url=\"http://a/\"/>
          <pidx vendor=\"Seed\" url=\"http://seed/\"/>
        </vindex>
        <pindex>
          <pdsc vendor=\"V\" url=\"http://x\" name=\"N\" version=\"1.0\"/>
          <pdsc vendor=\"V\" url=\"http://x/\" name=\"N\" version=\"2.0\"/>
        </pindex>
        </index>";
    let vidx = Vidx::from_string(vidx_text).unwrap();
    let seeds = vec![
        "http://seed/Seed.pidx".to_string(),
        "http://seed/Seed.pidx".to_string(),
    ];
    let mut crawler = Crawler::new(seeds);
    let first = crawler.next_url().unwrap();
    assert_eq!(first, "http://seed/Seed.pidx");
    crawler.report_success(&vidx);
    // the repeated seed URL was dropped, the known child not requeued
    let second = crawler.next_url().unwrap();
    assert_eq!(second, "http://a/A.pidx");
    crawler.report_failure();
    // a failed URL is retried, but only twice more
    assert_eq!(crawler.next_url().unwrap(), "http://a/A.pidx");
    crawler.report_failure();
    assert_eq!(crawler.next_url().unwrap(), "http://a/A.pidx");
    crawler.report_failure();
    assert!(crawler.next_url().is_none());
    assert!(crawler.done());
    // both pdsc entries share (url, vendor, name) up to the slash rule
    let results = crawler.into_results();
    assert_eq!(results.len(), 1);
    assert_eq!(results[0].version, "1.0");
}

#[test]
fn crawl_all_failures_attempt_count() {
    let seeds = vec![
        "http://one/".to_string(),
        "http://two/".to_string(),
        "http://one/".to_string(),
    ];
    let mut crawler = Crawler::new(seeds);
    let mut attempts = 0;
    while let Some(_u) = crawler.next_url() {
        attempts += 1;
        crawler.report_failure();
    }
    // three attempts for each of the two unique URLs
    assert_eq!(attempts, 6);
    assert!(crawler.into_results().is_empty());
}

#[test]
fn downloader_caps_and_completions() {
    let mut jobs = Vec::new();
    for i in 0..40 {
        jobs.push(DownloadJob {
            url: format!("http://h/{}", i),
            host: "h".to_string(),
            dest: format!("store/{}", i),
        });
    }
    jobs.push(DownloadJob {
        url: "http://other/x".to_string(),
        host: "other".to_string(),
        dest: "store/x".to_string(),
    });
    let total = jobs.len() as u64;
    let mut dl = Downloader::new(jobs);
    let mut launched: Vec<DownloadJob> = Vec::new();
    // first round: host h saturates at six, the other host gets its one
    while let Some(job) = dl.take_job() {
        if job.dest == "store/3" {
            // pretend this destination already exists: no request happens
            dl.skip_existing();
        } else {
            launched.push(dl.launch());
        }
    }
    assert_eq!(launched.iter().filter(|j| j.host == "h").count(), 6);
    assert_eq!(launched.iter().filter(|j| j.host == "other").count(), 1);
    dl.round_end();
    // nothing more can start for host h until something finishes
    assert!(dl.take_job().is_none() || launched.len() < 7);
    loop {
        while let Some(job) = dl.take_job() {
            launched.push(dl.launch());
        }
        dl.round_end();
        if let Some(job) = launched.pop() {
            let host = job.host.clone();
            dl.task_finished(host.as_str(), Some(job.dest));
        } else {
            break;
        }
    }
    assert!(dl.done());
    assert_eq!(dl.completes, total);
    assert_eq!(dl.results.len() as u64, total);
}

#[test]
fn existing_destination_issues_no_request() {
    assert_eq!(fetch_plan(true), FetchPlan::UseLocal);
    assert_eq!(fetch_plan(false), FetchPlan::Download);
    let jobs = vec![DownloadJob {
        url: "http://h/a".to_string(),
        host: "h".to_string(),
        dest: "store/a".to_string(),
    }];
    let mut dl = Downloader::new(jobs);
    let job = dl.take_job().unwrap();
    assert_eq!(job.dest, "store/a");
    dl.skip_existing();
    assert!(dl.done());
    assert_eq!(dl.completes, 1);
    assert_eq!(dl.results, vec!["store/a".to_string()]);
    assert_eq!(dl.in_flight, 0);
}

#[test]
fn status_classes_and_redirects() {
    assert_eq!(classify_status(200), StatusClass::Success);
    assert_eq!(classify_status(301), StatusClass::Redirect);
    assert_eq!(classify_status(308), StatusClass::Redirect);
    assert_eq!(classify_status(404), StatusClass::Failure);
    assert_eq!(
        resolve_location("http://h/a/b.pdsc", "http://e/x"),
        "http://e/x"
    );
    assert_eq!(resolve_location("http://h/a/b.pdsc", "/r/y"), "http://h/r/y");
    assert_eq!(resolve_location("http://h/a/b.pdsc", "c.pdsc"), "http://h/a/c.pdsc");
    assert_eq!(host_of("http://h:8080/a/b"), Some("h".to_string()));
    assert_eq!(host_of("https://mirror.example/x"), Some("mirror.example".to_string()));
    assert_eq!(host_of("nonsense"), None);
}

fn one_device_pack(pack_name: &str, device: &str) -> Package {
    let text = format!(
        "<package>
          <name>{}</name><description>d</description><vendor>V</vendor>
          <url>http://x</url>
          <releases><release version=\"1.0\">r</release></releases>
          <devices>
            <family Dfamily=\"F\" Dvendor=\"V\">
              <processor Dcore=\"Cortex-M0\"/>
              <device Dname=\"{}\"/>
            </family>
          </devices>
        </package>",
        pack_name, device
    );
    Package::from_string(&text).unwrap()
}

#[test]
fn catalog_merge_preserves_stranger_entries() {
    let p = one_device_pack("PackP", "DevP");
    let q = one_device_pack("PackQ", "DevQ");
    // a first run writes P's devices
    let first = collect_devices(&vec![p]);
    // a later run collects Q only and merges over what P wrote
    let second = collect_devices(&vec![q]);
    let merged = merge_catalog(second, &first);
    let names: Vec<&str> = merged.iter().map(|(n, _)| n.as_str()).collect();
    assert!(names.contains(&"DevP"));
    assert!(names.contains(&"DevQ"));
    assert_eq!(merged.len(), 2);
    // writing the same run twice changes nothing
    let p2 = one_device_pack("PackP", "DevP");
    let again = collect_devices(&vec![p2]);
    let twice = merge_catalog(again, &merged[..0].to_vec());
    let p3 = one_device_pack("PackP", "DevP");
    let once = collect_devices(&vec![p3]);
    let idem = merge_catalog(once, &twice);
    assert_eq!(idem.len(), twice.len());
    assert_eq!(idem[0].0, twice[0].0);
    // provenance carries the pack identity
    assert_eq!(idem[0].1.from_pack.vendor, "V");
    assert_eq!(idem[0].1.from_pack.pack, "PackP");
    assert_eq!(idem[0].1.from_pack.version, "1.0");
}

#[test]
fn seed_list_lines() {
    let urls = parse_vidx_list("http://a/\r\nhttp://b/\n\nhttp://c/");
    assert_eq!(
        urls,
        vec!["http://a/".to_string(), "http://b/".to_string(), "http://c/".to_string()]
    );
    assert_eq!(parse_vidx_list(""), Vec::<String>::new());
    let defaults = default_vidx_urls();
    assert_eq!(defaults[0], "http://www.keil.com/pack/keil.vidx");
    assert_eq!(defaults[1], "http://www.keil.com/pack/keil.pidx");
}

#[test]
fn config_builder_defaults() {
    let c = ConfigBuilder::new()
        .with_pack_store("store".to_string())
        .build_with_defaults("def_store".to_string(), "def_vidx".to_string());
    assert_eq!(c.pack_store, "store");
    assert_eq!(c.vidx_list, "def_vidx");
}

#[test]
fn poll_state_machine() {
    let (s, done) = poll_step(UpdatePoll::Running, false);
    assert_eq!((s, done), (UpdatePoll::Running, false));
    let (s, done) = poll_step(s, true);
    assert_eq!((s, done), (UpdatePoll::Complete, true));
    // polling after completion is idempotent
    let (s, done) = poll_step(s, false);
    assert_eq!((s, done), (UpdatePoll::Complete, true));
    let (s, yielded) = result_step(s);
    assert_eq!((s, yielded), (UpdatePoll::Drained, true));
    let (s, yielded) = result_step(s);
    assert_eq!((s, yielded), (UpdatePoll::Drained, false));

    let mut r = UpdateReturn::from_vec(vec!["a".to_string(), "b".to_string()]);
    assert_eq!(r.iter().len(), 2);
    assert_eq!(r.next_path(), Some("b".to_string()));
    assert_eq!(r.next_path(), Some("a".to_string()));
    assert_eq!(r.next_path(), None);
}
