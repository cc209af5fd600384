use http_capture::engine::capture_step;
use http_capture::engine::get_capture_status;
use http_capture::engine::init_packet_capture;
use http_capture::engine::process_packet;
use http_capture::engine::send_http_request;
use http_capture::engine::send_status_update;
use http_capture::engine::set_http_channel;
use http_capture::engine::set_status_channel;
use http_capture::engine::stop_packet_capture;
use http_capture::engine::CaptureAction;
use http_capture::engine::CaptureError;
use http_capture::engine::CaptureEvent;
use http_capture::engine::CapturePhase;
use http_capture::engine::DeviceInfo;
use http_capture::engine::EngineContext;
use http_capture::platform::has_chmodbpf;
use http_capture::platform::Platform;

type Ctx = EngineContext<u32, u32>;

fn dev(name: &str, is_loopback: bool) -> DeviceInfo {
    DeviceInfo { name: name.to_string(), is_loopback }
}

fn http_frame(src_port: u16, payload: &[u8]) -> Vec<u8> {
    let mut f: Vec<u8> = Vec::new();
    f.extend_from_slice(&[0x01, 0x02, 0x03, 0x04, 0x05, 0x06]);
    f.extend_from_slice(&[0x0a, 0x0b, 0x0c, 0x0d, 0x0e, 0x0f]);
    f.extend_from_slice(&[0x08, 0x00]);
    let total_len = (20 + 20 + payload.len()) as u16;
    f.push(0x45);
    f.push(0x00);
    f.extend_from_slice(&total_len.to_be_bytes());
    f.extend_from_slice(&[0x00, 0x00, 0x00, 0x00, 0x40, 0x06, 0x00, 0x00]);
    f.extend_from_slice(&[192, 168, 0, 10]);
    f.extend_from_slice(&[93, 184, 216, 34]);
    f.extend_from_slice(&src_port.to_be_bytes());
    f.extend_from_slice(&80u16.to_be_bytes());
    f.extend_from_slice(&[0, 0, 0, 0, 0, 0, 0, 0]);
    f.push(0x50);
    f.push(0x18);
    f.extend_from_slice(&[0xff, 0xff, 0x00, 0x00, 0x00, 0x00]);
    f.extend_from_slice(payload);
    f
}

#[test]
fn status_before_initialization_is_synthesized() {
    let ctx = Ctx::new();
    let st = get_capture_status(&ctx);
    assert!(!st.running);
    assert_eq!(st.message, "capture not initialized");
    assert_eq!(st.device_name, "unknown");
    assert_eq!(st.start_time, 0);
}

#[test]
fn init_sets_initializing_status() {
    let mut ctx = Ctx::new();
    assert!(init_packet_capture(&mut ctx, 1700000000).is_ok());
    let st = get_capture_status(&ctx);
    assert!(!st.running);
    assert_eq!(st.message, "initializing network capture");
    assert_eq!(st.device_name, "unknown");
    assert_eq!(st.start_time, 1700000000);
    assert!(ctx.run_flag);
}

#[test]
fn double_init_fails_and_leaves_first_attempt_intact() {
    let mut ctx = Ctx::new();
    assert!(init_packet_capture(&mut ctx, 1).is_ok());
    let r = init_packet_capture(&mut ctx, 2);
    assert_eq!(r, Err(CaptureError::AlreadyInitialized));
    // the first attempt's state is unchanged
    assert_eq!(get_capture_status(&ctx).start_time, 1);
    assert!(ctx.run_flag);
    assert_eq!(ctx.phase, CapturePhase::Initializing);
}

#[test]
fn stop_is_idempotent_and_clears_running() {
    let mut ctx = Ctx::new();
    init_packet_capture(&mut ctx, 5).unwrap();
    assert!(stop_packet_capture(&mut ctx).is_ok());
    assert!(!ctx.run_flag);
    let st = get_capture_status(&ctx);
    assert!(!st.running);
    assert_eq!(st.message, "packet capture stopped");
    assert!(stop_packet_capture(&mut ctx).is_ok());
    assert!(!get_capture_status(&ctx).running);
}

#[test]
fn second_registered_channel_wins() {
    let mut ctx = Ctx::new();
    assert!(set_status_channel(&mut ctx, 7).is_ok());
    assert!(set_status_channel(&mut ctx, 9).is_ok());
    let (dest, _st) = send_status_update(&ctx).unwrap();
    assert_eq!(*dest, 9);
    assert!(set_http_channel(&mut ctx, 3).is_ok());
    assert!(set_http_channel(&mut ctx, 4).is_ok());
    assert_eq!(ctx.http_channel, Some(4));
}

#[test]
fn publish_without_destination_is_dropped() {
    let ctx = Ctx::new();
    assert!(send_status_update(&ctx).is_none());
    let req = process_packet(&http_frame(5555, b"GET / HTTP/1.1\r\n\r\n"), 10).unwrap();
    assert!(send_http_request(&ctx, req).is_none());
}

#[test]
fn publish_hands_request_to_registered_destination() {
    let mut ctx = Ctx::new();
    set_http_channel(&mut ctx, 42).unwrap();
    let req = process_packet(&http_frame(5555, b"GET / HTTP/1.1\r\n\r\n"), 10).unwrap();
    let (dest, sent) = send_http_request(&ctx, req).unwrap();
    assert_eq!(*dest, 42);
    assert_eq!(sent.method, "GET");
}

#[test]
fn setup_sequence_reaches_running_with_device_name() {
    let mut ctx = Ctx::new();
    init_packet_capture(&mut ctx, 100).unwrap();
    let devices = vec![dev("lo", true), dev("eth0", false), dev("eth1", false)];
    let a = capture_step(&mut ctx, CaptureEvent::DeviceList(Ok(devices)), 0);
    match a {
        CaptureAction::OpenDevice(n) => assert_eq!(n, "eth0"),
        _ => panic!("expected an open-device action"),
    }
    assert_eq!(get_capture_status(&ctx).device_name, "eth0");
    let a = capture_step(&mut ctx, CaptureEvent::OpenResult(Ok(())), 0);
    match a {
        CaptureAction::InstallFilter(f) => {
            assert_eq!(f, "tcp port 80 or tcp port 8080 or tcp port 443")
        }
        _ => panic!("expected a filter action"),
    }
    let a = capture_step(&mut ctx, CaptureEvent::FilterResult(Ok(())), 0);
    assert!(matches!(a, CaptureAction::ReadFrame));
    let st = get_capture_status(&ctx);
    assert!(st.running);
    assert_eq!(st.message, "capturing HTTP requests");
    assert_eq!(st.device_name, "eth0");
}

#[test]
fn empty_device_list_is_fatal() {
    let mut ctx = Ctx::new();
    init_packet_capture(&mut ctx, 100).unwrap();
    let a = capture_step(&mut ctx, CaptureEvent::DeviceList(Ok(vec![])), 0);
    assert!(matches!(a, CaptureAction::Exit));
    assert_eq!(ctx.phase, CapturePhase::Errored);
    assert_eq!(get_capture_status(&ctx).message, "no network devices found");
    assert!(!get_capture_status(&ctx).running);
}

#[test]
fn all_loopback_devices_is_fatal() {
    let mut ctx = Ctx::new();
    init_packet_capture(&mut ctx, 100).unwrap();
    let devices = vec![dev("lo", true), dev("lo0", true)];
    let a = capture_step(&mut ctx, CaptureEvent::DeviceList(Ok(devices)), 0);
    assert!(matches!(a, CaptureAction::Exit));
    assert_eq!(
        get_capture_status(&ctx).message,
        "no non-loopback network device found"
    );
}

#[test]
fn enumeration_failure_is_fatal_with_reason() {
    let mut ctx = Ctx::new();
    init_packet_capture(&mut ctx, 100).unwrap();
    let a = capture_step(
        &mut ctx,
        CaptureEvent::DeviceList(Err("boom".to_string())),
        0,
    );
    assert!(matches!(a, CaptureAction::Exit));
    assert_eq!(
        get_capture_status(&ctx).message,
        "failed to list network devices: boom"
    );
    assert_eq!(ctx.phase, CapturePhase::Errored);
}

#[test]
fn open_failure_mentions_capture_helper() {
    let mut ctx = Ctx::new();
    init_packet_capture(&mut ctx, 100).unwrap();
    capture_step(&mut ctx, CaptureEvent::DeviceList(Ok(vec![dev("en0", false)])), 0);
    let a = capture_step(
        &mut ctx,
        CaptureEvent::OpenResult(Err("permission denied".to_string())),
        0,
    );
    assert!(matches!(a, CaptureAction::Exit));
    assert_eq!(
        get_capture_status(&ctx).message,
        "failed to open network device: permission denied; make sure the capture helper is installed"
    );
}

#[test]
fn filter_failure_is_fatal() {
    let mut ctx = Ctx::new();
    init_packet_capture(&mut ctx, 100).unwrap();
    capture_step(&mut ctx, CaptureEvent::DeviceList(Ok(vec![dev("en0", false)])), 0);
    capture_step(&mut ctx, CaptureEvent::OpenResult(Ok(())), 0);
    let a = capture_step(
        &mut ctx,
        CaptureEvent::FilterResult(Err("bad syntax".to_string())),
        0,
    );
    assert!(matches!(a, CaptureAction::Exit));
    assert_eq!(
        get_capture_status(&ctx).message,
        "failed to set capture filter: bad syntax"
    );
}

fn running_ctx() -> Ctx {
    let mut ctx = Ctx::new();
    init_packet_capture(&mut ctx, 100).unwrap();
    capture_step(&mut ctx, CaptureEvent::DeviceList(Ok(vec![dev("en0", false)])), 0);
    capture_step(&mut ctx, CaptureEvent::OpenResult(Ok(())), 0);
    capture_step(&mut ctx, CaptureEvent::FilterResult(Ok(())), 0);
    ctx
}

#[test]
fn timeout_continues_reading() {
    let mut ctx = running_ctx();
    let a = capture_step(&mut ctx, CaptureEvent::ReadTimeout, 0);
    assert!(matches!(a, CaptureAction::ReadFrame));
    assert!(get_capture_status(&ctx).running);
}

#[test]
fn read_error_retries_while_running() {
    let mut ctx = running_ctx();
    let a = capture_step(&mut ctx, CaptureEvent::ReadError("hiccup".to_string()), 0);
    assert!(matches!(a, CaptureAction::SleepRetry));
    assert!(get_capture_status(&ctx).running);
}

#[test]
fn read_error_after_stop_signal_exits() {
    let mut ctx = running_ctx();
    ctx.run_flag = false;
    let a = capture_step(&mut ctx, CaptureEvent::ReadError("gone".to_string()), 0);
    assert!(matches!(a, CaptureAction::Exit));
    assert_eq!(ctx.phase, CapturePhase::Stopped);
    assert_eq!(get_capture_status(&ctx).message, "packet capture stopped");
}

#[test]
fn stop_observed_publishes_stopped_status() {
    let mut ctx = running_ctx();
    let a = capture_step(&mut ctx, CaptureEvent::StopObserved, 0);
    assert!(matches!(a, CaptureAction::Exit));
    assert!(!get_capture_status(&ctx).running);
    assert_eq!(ctx.phase, CapturePhase::Stopped);
}

#[test]
fn http_frame_is_published_with_provenance() {
    let mut ctx = running_ctx();
    let frame = http_frame(5555, b"GET /a HTTP/1.1\r\nHost: x\r\n\r\nBODY");
    let a = capture_step(&mut ctx, CaptureEvent::Frame(frame), 1700000000);
    match a {
        CaptureAction::PublishHttp(req) => {
            assert_eq!(req.method, "GET");
            assert_eq!(req.path, "/a");
            assert_eq!(req.host, "x");
            assert_eq!(req.body, "BODY");
            assert_eq!(req.src_ip, "192.168.0.10");
            assert_eq!(req.dst_ip, "93.184.216.34");
            assert_eq!(req.src_port, 5555);
            assert_eq!(req.dst_port, 80);
            assert_eq!(req.timestamp, 1700000000);
            assert_eq!(req.id, 1700000000 * 1000 + 5555 % 1000);
        }
        _ => panic!("expected a publish action"),
    }
}

#[test]
fn non_http_frame_is_skipped() {
    let mut ctx = running_ctx();
    let frame = http_frame(5555, b"SSH-2.0-OpenSSH\r\n");
    let a = capture_step(&mut ctx, CaptureEvent::Frame(frame), 10);
    assert!(matches!(a, CaptureAction::ReadFrame));
}

#[test]
fn garbage_frame_is_skipped() {
    let mut ctx = running_ctx();
    let a = capture_step(&mut ctx, CaptureEvent::Frame(vec![1, 2, 3]), 10);
    assert!(matches!(a, CaptureAction::ReadFrame));
}

#[test]
fn process_packet_derives_id_from_time_and_port() {
    let req = process_packet(&http_frame(4321, b"PUT /p HTTP/1.1\r\n\r\n"), 2000).unwrap();
    assert_eq!(req.id, 2000 * 1000 + 321);
    assert_eq!(req.timestamp, 2000);
    assert_eq!(req.method, "PUT");
}

#[test]
fn process_packet_rejects_non_http_payload() {
    assert!(process_packet(&http_frame(1, b"NOPE"), 10).is_none());
    assert!(process_packet(&[0u8; 10], 10).is_none());
}

#[test]
fn capture_error_has_message() {
    assert_eq!(
        CaptureError::AlreadyInitialized.message(),
        "packet capture already initialized"
    );
}

#[test]
fn helper_probe_follows_platform_rules() {
    assert!(has_chmodbpf(Platform::MacOs, true));
    assert!(!has_chmodbpf(Platform::MacOs, false));
    assert!(has_chmodbpf(Platform::Windows, false));
    assert!(has_chmodbpf(Platform::Windows, true));
    assert!(!has_chmodbpf(Platform::Other, true));
    assert!(!has_chmodbpf(Platform::Other, false));
}
