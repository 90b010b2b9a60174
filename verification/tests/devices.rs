use kmsvnc::devices::{
    after_drm, after_drm_search, after_fbdev, after_fbdev_search, continue_scan, device_candidates,
    is_usable, setup_capture, start_scan, DeviceProbe, DrmSearch, ScanStep, SetupError, SetupStep,
};
use kmsvnc::kms::cpu_capture::ActiveOutput;
use kmsvnc::kms::outputs::{
    find_output, select_output, CrtcInfo, OutputError, OutputProbe, ProbeStep,
};

fn names(list: &[&str]) -> Vec<String> {
    list.iter().map(|s| s.to_string()).collect()
}

fn named(name: &str) -> ActiveOutput {
    ActiveOutput {
        connector_name: name.to_string(),
        crtc_handle: 0,
        x: 0,
        y: 0,
        width: 1,
        height: 1,
        fb_handle: 0,
    }
}

#[test]
fn candidates_are_filtered_and_sorted() {
    let listing = names(&["renderD128", "card1", "by-path", "card10", "card0", "card", "car"]);
    assert_eq!(
        device_candidates(&listing, "card"),
        names(&["card", "card0", "card1", "card10"])
    );
    let mut sorted = names(&["fb9", "fb\u{e9}", "fb10", "fbA", "fb\u{1f600}"]);
    let candidates = device_candidates(&sorted, "fb");
    sorted.sort();
    assert_eq!(candidates, sorted);
}

#[test]
fn usable_devices_show_a_picture() {
    assert!(!is_usable(DeviceProbe::Failed));
    assert!(!is_usable(DeviceProbe::Outputs(0)));
    assert!(is_usable(DeviceProbe::Outputs(2)));
}

#[test]
fn scan_uses_the_first_usable_device() {
    let usable = [false, true, true];
    let mut step = start_scan(usable.len());
    while let ScanStep::Try { index } = step {
        step = continue_scan(usable.len(), index, usable[index]);
    }
    assert_eq!(step, ScanStep::Use { index: 1 });
    assert_eq!(start_scan(0), ScanStep::Exhausted);
    assert_eq!(continue_scan(1, 0, false), ScanStep::Exhausted);
}

#[test]
fn requested_device_is_tried_both_ways() {
    let path = "/dev/fb0".to_string();
    assert!(matches!(setup_capture(&Some(path.clone())), SetupStep::TryDrm(p) if p == path));
    assert!(matches!(after_drm(path.clone(), true), SetupStep::Ready));
    assert!(matches!(after_drm(path.clone(), false), SetupStep::TryFbdev(p) if p == path));
    assert!(matches!(after_fbdev(path.clone(), true), SetupStep::Ready));
    assert!(matches!(
        after_fbdev(path.clone(), false),
        SetupStep::Failed(SetupError::DeviceUnusable(p)) if p == path
    ));
}

#[test]
fn search_falls_back_only_if_there_is_no_card() {
    assert!(matches!(setup_capture(&None), SetupStep::SearchDrm));
    assert!(matches!(after_drm_search(DrmSearch::Captured), SetupStep::Ready));
    assert!(matches!(
        after_drm_search(DrmSearch::OutputUnusable),
        SetupStep::Failed(SetupError::OutputUnusable)
    ));
    assert!(matches!(after_drm_search(DrmSearch::NotFound), SetupStep::SearchFbdev));
    assert!(matches!(after_fbdev_search(true), SetupStep::Ready));
    assert!(matches!(
        after_fbdev_search(false),
        SetupStep::Failed(SetupError::NoDevice)
    ));
}

#[test]
fn output_is_selected_by_name_or_first() {
    let outputs = vec![named("DP-1"), named("HDMI-A-1"), named("DP-1")];
    assert_eq!(select_output(&outputs, None).unwrap().connector_name, "DP-1");
    let found = select_output(&outputs, Some("HDMI-A-1")).unwrap();
    assert_eq!(found.connector_name, "HDMI-A-1");
    assert_eq!(find_output(&outputs, "DP-1"), Some(0));
    assert_eq!(find_output(&outputs, "DP"), None);
}

#[test]
fn missing_output_lists_those_there_are() {
    let outputs = vec![named("DP-1"), named("HDMI-A-1")];
    match select_output(&outputs, Some("DP-2")) {
        Err(OutputError::NotFound { name, available }) => {
            assert_eq!(name, "DP-2");
            assert_eq!(available.join(", "), "DP-1, HDMI-A-1");
        }
        other => panic!("{other:?}"),
    }
    assert!(matches!(
        select_output(&Vec::new(), None),
        Err(OutputError::NoActiveOutputs)
    ));
    assert!(matches!(
        select_output(&Vec::new(), Some("DP-1")),
        Err(OutputError::NotFound { .. })
    ));
}

#[test]
fn probe_collects_complete_chains() {
    let full = CrtcInfo { mode: Some((800, 600)), framebuffer: Some(9), position: (3, 4) };
    let mut probe = OutputProbe::new(vec![1, 2, 3, 4, 5, 6]);
    assert!(matches!(probe.next_step(), ProbeStep::AskConnector { connector: 1 }));
    // Not connected.
    let step = probe.on_connector("A".to_string(), false, Some(10));
    assert!(matches!(step, ProbeStep::AskConnector { connector: 2 }));
    // No encoder.
    let step = probe.on_connector("B".to_string(), true, None);
    assert!(matches!(step, ProbeStep::AskConnector { connector: 3 }));
    // Encoder without display controller.
    let step = probe.on_connector("C".to_string(), true, Some(10));
    assert!(matches!(step, ProbeStep::AskEncoder { encoder: 10, .. }));
    let step = probe.on_encoder("C".to_string(), None);
    assert!(matches!(step, ProbeStep::AskConnector { connector: 4 }));
    // No picture.
    probe.on_connector("D".to_string(), true, Some(10));
    let step = probe.on_encoder("D".to_string(), Some(20));
    assert!(matches!(step, ProbeStep::AskCrtc { crtc: 20, .. }));
    let step = probe.on_crtc("D".to_string(), 20, CrtcInfo { mode: None, ..full });
    assert!(matches!(step, ProbeStep::AskConnector { connector: 5 }));
    // No framebuffer.
    probe.on_connector("E".to_string(), true, Some(10));
    probe.on_crtc("E".to_string(), 20, CrtcInfo { framebuffer: None, ..full });
    // Complete.
    probe.on_connector("F".to_string(), true, Some(10));
    let step = probe.on_crtc("F".to_string(), 21, full);
    assert!(matches!(step, ProbeStep::Finished));
    assert_eq!(probe.outputs.len(), 1);
    let o = &probe.outputs[0];
    assert_eq!(o.connector_name, "F");
    assert_eq!((o.crtc_handle, o.x, o.y, o.width, o.height, o.fb_handle), (21, 3, 4, 800, 600, 9));
}
