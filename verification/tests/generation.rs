use supervisor::generation::{
    classify_departure, departure_report, nvidia_egl_vendor, renderer_binary_path, EnvNames, GraphicsNode, Renderer,
    RendererDeparture, RestartBrake, EGL_VENDOR_ENV, RESTART_WINDOW,
};

const SECOND: u64 = 1_000_000_000;

#[test]
fn only_a_machine_whose_every_render_node_is_nvidia_gets_the_nvidia_egl_vendor() {
    let vendors = || Some(vec!["50_mesa.json".to_string(), "10_nvidia.json".to_string()]);
    let node = |name: &str, driver: &str| GraphicsNode { name: name.to_string(), driver: Some(driver.to_string()) };

    assert_eq!(nvidia_egl_vendor(&Some(vec![]), &vendors()), None, "no render node");
    assert_eq!(nvidia_egl_vendor(&Some(vec![node("renderD128", "nvidia")]), &vendors()), Some(1));
    let hybrid = vec![node("renderD128", "nvidia"), node("renderD129", "i915")];
    assert_eq!(nvidia_egl_vendor(&Some(hybrid), &vendors()), None, "a hybrid machine needs Mesa");
    assert_eq!(nvidia_egl_vendor(&None, &vendors()), None);
    assert_eq!(nvidia_egl_vendor(&Some(vec![node("renderD128", "nvidia")]), &None), None);
}

fn names() -> EnvNames {
    EnvNames {
        instance_dir: "INSTANCE_DIR".to_string(),
        config_dir: "CONFIG_DIR".to_string(),
        profile: "PROFILE".to_string(),
        verbose: "VERBOSE".to_string(),
        generation_id: "GENERATION_ID".to_string(),
    }
}

fn pair(name: &str, value: &str) -> (String, String) {
    (name.to_string(), value.to_string())
}

#[test]
fn a_renderer_is_told_its_instance_config_profile_and_verbosity_explicitly() {
    let env = |profile, verbose| {
        Renderer::new(String::new(), &names(), "/instance", "/cfg", profile, verbose, None).spawn(&names(), 7)
    };
    let told = [pair("INSTANCE_DIR", "/instance"), pair("CONFIG_DIR", "/cfg")];
    let generation = [pair("GENERATION_ID", "7")];
    let all = |optional: &[(String, String)]| -> Vec<(String, String)> {
        let mut sorted = [&told[..], optional, &generation[..]].concat();
        sorted.sort();
        sorted
    };
    let sorted = |mut env: Vec<(String, String)>| {
        env.sort();
        env
    };
    assert_eq!(sorted(env(None, 0)), all(&[]), "no profile, no -v: neither optional entry is sent");
    assert_eq!(sorted(env(Some(60), 0)), all(&[pair("PROFILE", "60")]));
    assert_eq!(sorted(env(None, 2)), all(&[pair("VERBOSE", "2")]));
    let vendored = Renderer::new("/r".to_string(), &names(), "/i", "/c", None, 0, Some("/v/10_nvidia.json"));
    assert_eq!(vendored.path(), "/r");
    assert!(vendored.spawn(&names(), 1).contains(&pair(EGL_VENDOR_ENV, "/v/10_nvidia.json")));
}

#[test]
fn the_renderer_stands_beside_the_supervisor() {
    assert_eq!(renderer_binary_path("/usr/bin/mantle"), "/usr/bin/mantle-renderer");
}

#[test]
fn a_renderer_that_exits_zero_is_not_a_crash() {
    assert_eq!(classify_departure(None, Some(0)), RendererDeparture::Clean);
}

#[test]
fn a_renderer_that_exits_nonzero_carries_its_code() {
    assert_eq!(classify_departure(None, Some(101)), RendererDeparture::Failed { code: 101 });
}

#[test]
fn a_renderer_killed_by_a_signal_reports_the_signal_not_an_exit_code() {
    // A signalled child has no exit code.
    assert_eq!(classify_departure(Some(9), None), RendererDeparture::Signalled { signal: 9 });
}

#[test]
fn a_departure_while_locked_says_the_session_stays_locked() {
    let report = departure_report(RendererDeparture::Signalled { signal: 9 }, 3, true);

    assert!(report.contains("signal 9"), "the signal has to survive into the message: {report}");
    assert!(
        report.contains("session stays locked"),
        "a Renderer that died holding the lock is a different emergency from one that died without it, and the \
         message is the only place that distinction reaches a human: {report}"
    );
}

#[test]
fn a_departure_while_unlocked_does_not_mention_the_lock() {
    let report = departure_report(RendererDeparture::Failed { code: 101 }, 3, false);

    assert!(report.contains("code 101"), "{report}");
    assert!(!report.contains("locked"), "an unlocked crash must not cry lock: {report}");
}

#[test]
fn the_brake_allows_restarts_up_to_its_limit() {
    let start = 5 * SECOND;
    let mut brake = RestartBrake::default();

    for attempt in 0..3 {
        assert!(brake.allow(start + attempt * SECOND), "restart {attempt} is within the limit");
    }
}

#[test]
fn the_brake_stops_a_crash_loop_once_the_limit_is_reached_inside_the_window() {
    let start = 5 * SECOND;
    let mut brake = RestartBrake::default();
    for attempt in 0..3 {
        brake.allow(start + attempt * SECOND);
    }

    assert!(
        !brake.allow(start + 4 * SECOND),
        "a config that kills every Renderer it is handed must wait out the cooldown"
    );
    assert!(brake.allow(start + 5 * SECOND), "a refusal clears the window for the cooldown");
}

#[test]
fn the_brake_forgets_restarts_older_than_its_window() {
    let start = 5 * SECOND;
    let mut brake = RestartBrake::default();
    for attempt in 0..3 {
        brake.allow(start + attempt * SECOND);
    }

    // An hour later is a new incident; counting it would refuse a shell healthy all day.
    assert!(brake.allow(start + 3600 * SECOND), "the window has long passed");
}

#[test]
fn a_slow_crash_loop_never_trips_the_brake() {
    let start = 5 * SECOND;
    let mut brake = RestartBrake::default();

    // One crash per window forever is a logged bug, not a restart loop.
    for attempt in 0..10 {
        assert!(brake.allow(start + attempt * 61 * SECOND), "crash {attempt} stands alone in its window");
    }
}

#[test]
fn a_restart_exactly_a_window_old_no_longer_counts() {
    let mut brake = RestartBrake::default();
    for _ in 0..3 {
        assert!(brake.allow(0));
    }
    assert!(brake.allow(RESTART_WINDOW), "the window is over at its end");
}
