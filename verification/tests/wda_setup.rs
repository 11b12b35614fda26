//! Getting the automation server onto an iPhone.
use phonebridge::integrations::ios_usb_control::WdaEndpoints;
use phonebridge::integrations::ios_wda_setup::{
    brew_ran, choose_device, choose_flow, ensure_iproxy, inspect, plan_probe, prepare,
    runner_ended, runner_registered, set_check, stop_all, IproxyPlan, PrepareStep, ProbePlan,
    SetupFacts, WdaFlow, WdaPreparation,
};
use phonebridge::integrations::usb_devices::{UsbDevice, UsbDeviceKind};
use phonebridge::integrations::wda_source::{
    bundle_id_from_manifest, development_team, hide_udid, log_tail, runner_arguments,
    source_manifest, valid_bundle_id, valid_project, wda_bundle_id, SourceReply, SourceStage,
    WDA_SOURCE_VERSION,
};
use phonebridge::integrations::{tool_run, AdapterError, HostPlatform};

fn phone(state: &str) -> UsbDevice {
    UsbDevice {
        kind: UsbDeviceKind::Iphone,
        name: "iPhone".into(),
        id_masked: "***0001".into(),
        raw_id: "UDID-0001".into(),
        state: state.into(),
    }
}

fn facts(device: Result<UsbDevice, String>) -> SetupFacts {
    SetupFacts {
        ipa: Some("wda.ipa".into()),
        installer: true,
        runner: true,
        bundle_id: "com.example.wda".into(),
        device,
        xcode: Ok("Xcode 16".into()),
        iproxy: true,
        project: true,
        url_configured: false,
    }
}

fn refused() -> Result<(), AdapterError> {
    Err(AdapterError::IosUsbUnavailable("no answer".into()))
}

#[test]
fn the_flow_depends_on_the_platform() {
    assert_eq!(choose_flow(HostPlatform::MacOs, true), WdaFlow::Prebuilt);
    assert_eq!(choose_flow(HostPlatform::MacOs, false), WdaFlow::MacSource);
    assert_eq!(choose_flow(HostPlatform::Windows, true), WdaFlow::Prebuilt);
    assert_eq!(choose_flow(HostPlatform::Windows, false), WdaFlow::Windows);
    assert_eq!(choose_flow(HostPlatform::Other, true), WdaFlow::Unsupported);
}

#[test]
fn ready_is_said_only_where_the_server_answered() {
    for flow in [WdaFlow::Prebuilt, WdaFlow::MacSource, WdaFlow::Windows] {
        let r = inspect(flow, &facts(Ok(phone("connected"))), &refused());
        assert!(!r.ready, "{flow:?}");
        let r = inspect(flow, &facts(Ok(phone("connected"))), &Ok(()));
        assert!(r.ready, "{flow:?}");
        assert_eq!(r.stage, "ready");
        assert_eq!(r.device_id_masked.as_deref(), Some("***0001"));
        assert!(r.checks.iter().all(|c| !c.detail.contains("UDID-0001")));
    }
    let r = inspect(WdaFlow::Unsupported, &facts(Ok(phone("connected"))), &Ok(()));
    assert!(!r.ready);
    assert_eq!(r.stage, "unsupported");
}

#[test]
fn a_phone_that_is_not_trusted_is_not_asked() {
    assert!(matches!(
        plan_probe(WdaFlow::Prebuilt, &facts(Ok(phone("connected")))),
        ProbePlan::Ask { raw_udid } if raw_udid == "UDID-0001"
    ));
    assert!(matches!(
        plan_probe(WdaFlow::Prebuilt, &facts(Ok(phone("unauthorized")))),
        ProbePlan::Skip(_)
    ));
    assert!(matches!(
        plan_probe(WdaFlow::MacSource, &facts(Err("none".into()))),
        ProbePlan::Skip(_)
    ));
}

#[test]
fn a_signed_server_is_installed_and_waited_for() {
    let mut p = prepare(WdaFlow::Prebuilt, &facts(Ok(phone("connected"))), &refused());
    assert_eq!(p.step, PrepareStep::Probe);
    p.probed(false);
    assert_eq!(p.step, PrepareStep::Install);
    p.installed(&None);
    assert_eq!(p.step, PrepareStep::StartRunner);
    p.runner_started(&None);
    assert_eq!(p.step, PrepareStep::Wait);
    assert_eq!(p.report.stage, "preparing");
    p.waited(false, None, false, "");
    assert_eq!(p.step, PrepareStep::Wait);
    p.waited(true, None, false, "");
    assert_eq!(p.step, PrepareStep::Finished);
    assert!(p.report.ready);
    // A preparation that is over stays as it is.
    p.waited(false, Some(false), true, "late");
    assert!(p.report.ready);
}

#[test]
fn nothing_is_installed_where_the_server_answers() {
    let mut p = prepare(WdaFlow::Prebuilt, &facts(Ok(phone("connected"))), &refused());
    p.probed(true);
    assert_eq!(p.step, PrepareStep::Finished);
    assert!(p.report.ready);
}

#[test]
fn each_step_that_fails_ends_the_preparation() {
    let mut p = prepare(WdaFlow::Prebuilt, &facts(Ok(phone("connected"))), &refused());
    p.probed(false);
    p.installed(&Some("signature".into()));
    assert_eq!(p.step, PrepareStep::Finished);
    assert!(!p.report.ready);
    assert!(p.report.detail.contains("signature"));

    let mut f = facts(Ok(phone("connected")));
    f.project = false;
    let mut p = prepare(WdaFlow::MacSource, &f, &refused());
    assert_eq!(p.step, PrepareStep::CheckXcode);
    p.xcode_checked(&None);
    assert_eq!(p.step, PrepareStep::EnsureIproxy);
    p.iproxy_ensured(&None);
    assert_eq!(p.step, PrepareStep::Download);
    p.source_fetched(&Some("offline".into()));
    assert_eq!(p.step, PrepareStep::Finished);
    assert!(p.report.detail.contains("offline"));

    let p = prepare(WdaFlow::Unsupported, &facts(Ok(phone("connected"))), &refused());
    assert_eq!(p.step, PrepareStep::Finished);
    assert!(!p.report.ready);
}

#[test]
fn items_of_a_report_are_replaced_or_added() {
    let mut r = inspect(WdaFlow::Unsupported, &facts(Err("none".into())), &refused());
    let before = r.checks.len();
    set_check(&mut r, "new", "ok", "detail", false);
    assert_eq!(r.checks.len(), before);
    set_check(&mut r, "new", "ok", "detail", true);
    assert_eq!(r.checks.len(), before + 1);
    set_check(&mut r, "new", "failed", "other", true);
    assert_eq!(r.checks.len(), before + 1);
    assert_eq!(r.checks[before].status, "failed");
}

#[test]
fn the_phone_that_was_asked_for_is_chosen() {
    let devices = vec![phone("unauthorized"), phone("connected")];
    assert!(choose_device(WdaFlow::MacSource, &devices, &vec![], Some("***0001")).is_ok());
    assert!(choose_device(WdaFlow::MacSource, &devices, &vec![], Some("***9999")).is_err());
    assert!(choose_device(WdaFlow::MacSource, &vec![], &vec!["note".into()], None).is_err());
}

#[test]
fn the_tunnel_tool_is_installed_where_it_can_be() {
    assert!(matches!(ensure_iproxy(true, false), IproxyPlan::Present));
    assert!(matches!(ensure_iproxy(false, true), IproxyPlan::Install));
    assert!(matches!(ensure_iproxy(false, false), IproxyPlan::Impossible));
    let ok = || Ok(tool_run(true, "exit status: 0", b"", b""));
    assert!(brew_ran(ok(), true).is_none());
    assert!(brew_ran(ok(), false).is_some());
    assert!(brew_ran(Err("not found".into()), true).is_some());
}

#[test]
fn runners_are_registered_until_they_end() {
    let mut runners = WdaEndpoints::new();
    let mut ports = WdaEndpoints::new();
    runner_registered(&mut runners, &mut ports, "UDID-0001", 9100);
    runner_registered(&mut runners, &mut ports, "UDID-0002", 9101);
    runner_ended(&mut runners, &mut ports, "UDID-0001");
    assert!(ports.registered_wda_endpoint("UDID-0001").is_none());
    assert_eq!(stop_all(&mut runners, &mut ports), vec!["UDID-0002".to_string()]);
    assert!(ports.phones().is_empty());
    assert!(runners.phones().is_empty());
}

fn go(stage: SourceStage, replies: Vec<SourceReply>) -> SourceStage {
    replies.into_iter().fold(stage, |s, r| s.advance(r))
}

#[test]
fn the_source_is_fetched_step_by_step() {
    let ran = || SourceReply::Ran(tool_run(true, "exit status: 0", b"", b""));
    let stage = go(
        SourceStage::LookForProject,
        vec![
            SourceReply::No,
            SourceReply::Yes,
            SourceReply::No,
            SourceReply::Yes,
            SourceReply::Yes,
            ran(),
            SourceReply::Yes,
            ran(),
            SourceReply::Yes,
            SourceReply::Yes,
            SourceReply::Yes,
            SourceReply::Yes,
        ],
    );
    assert!(matches!(stage, SourceStage::Ready { fetched: true }), "{stage:?}");
    assert!(matches!(
        SourceStage::LookForProject.advance(SourceReply::Yes),
        SourceStage::Ready { fetched: false }
    ));
    assert!(matches!(
        SourceStage::LookForCurl.advance(SourceReply::No),
        SourceStage::Failed(_)
    ));
}

#[test]
fn identifiers_are_hidden_in_logs() {
    assert!(!hide_udid("device UDID-0001 failed", "UDID-0001").contains("UDID-0001"));
    let tail = log_tail(&Some(b"x UDID-0001 y".to_vec()), "UDID-0001");
    assert!(!tail.contains("UDID-0001"));
    assert!(tail.contains('y'));
}

#[test]
fn names_of_bundles_are_checked() {
    assert!(valid_bundle_id("com.example.wda"));
    assert!(!valid_bundle_id("com example"));
    assert!(!valid_bundle_id(""));
    assert_eq!(
        bundle_id_from_manifest(r#"{"bundleId":"com.example.wda"}"#).as_deref(),
        Some("com.example.wda")
    );
    assert_eq!(bundle_id_from_manifest("not json"), None);
    let chosen = wda_bundle_id(&Some("com.a.b".into()), &vec![]);
    assert_eq!(chosen, "com.a.b");
    assert!(runner_arguments("UDID-0001", &chosen, 9100)
        .iter()
        .any(|a| a.contains("com.a.b")));
}

#[test]
fn teams_and_projects_are_checked() {
    assert_eq!(development_team(&Some("ABCDE12345".into())).as_deref(), Some("ABCDE12345"));
    assert_eq!(development_team(&None), None);
    assert!(valid_project(true, "WebDriverAgent.xcodeproj"));
    assert!(!valid_project(false, "WebDriverAgent.xcodeproj"));
    assert!(!valid_project(true, "Other.xcworkspace"));
    assert!(source_manifest(None).contains(WDA_SOURCE_VERSION));
}

#[test]
fn reports_say_one_thing_at_every_step() {
    let says_one_thing = |p: &WdaPreparation| {
        let service = p.report.checks.iter().find(|c| c.key == "wda_service").unwrap();
        assert_eq!(p.report.ready, p.report.stage == "ready");
        assert_eq!(p.report.ready, service.status == "ok");
        assert_eq!(p.report.stage == "preparing", p.step == PrepareStep::Wait);
        assert!(p.step == PrepareStep::Finished || !p.report.ready);
        assert!(p.step == PrepareStep::Finished || p.report.stage != "failed");
    };
    let facts = facts(Ok(phone("connected")));
    for answers in [true, false] {
        let mut p = prepare(WdaFlow::Prebuilt, &facts, &refused());
        says_one_thing(&p);
        p.probed(false);
        says_one_thing(&p);
        p.installed(&None);
        says_one_thing(&p);
        p.runner_started(&None);
        says_one_thing(&p);
        p.waited(false, None, false, "");
        says_one_thing(&p);
        p.waited(answers, Some(false), false, "log");
        says_one_thing(&p);
        assert_eq!(p.report.ready, answers);
    }
    let mut p = prepare(WdaFlow::MacSource, &facts, &refused());
    says_one_thing(&p);
    p.xcode_checked(&None);
    p.iproxy_ensured(&Some("brew".into()));
    says_one_thing(&p);
    assert_eq!(p.report.stage, "failed");
}
