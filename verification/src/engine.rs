//! The capture engine: lifecycle state machine, status registry and the
//! two delivery-channel slots.
//!
//! The engine context owns all shared state as plain fields; the hosting
//! layer keeps it behind its own mutual exclusion and performs the outside
//! work — device enumeration, opening the capture handle, installing the
//! filter, reading frames, sending on the channels — handing each outcome
//! back as a [`CaptureEvent`]. Every decision the capture loop makes is
//! [`capture_step`], whose contract is the transition relation
//! [`step_rel`].
use vstd::prelude::*;

use crate::frame::parse_frame;
use crate::frame::sliced_tcp_of;
use crate::frame::spec_frame_accepted;
use crate::http::HttpRequest;
use crate::http::is_http_request;
use crate::http::pair_views;
use crate::http::parse_http_request;
use crate::http::request_tokens;
use crate::http::spec_body;
use crate::http::spec_content_type;
use crate::http::spec_headers;
use crate::http::spec_host;
use crate::http::spec_is_http_request;
use crate::http::spec_parse_ok;
use crate::text::lossy_of;
use vstd::string::StringExecFns;

verus! {

/// Snapshot of engine health: the single surface on which every
/// non-immediate failure is reported.
#[derive(Debug, Clone)]
pub struct CaptureStatus {
    pub running: bool,
    pub message: String,
    pub device_name: String,
    pub start_time: u64,
}

/// One capture device as enumeration reports it.
pub struct DeviceInfo {
    pub name: String,
    pub is_loopback: bool,
}

/// Lifecycle of the background capture work. `Stopped` and `Errored` are
/// terminal.
#[derive(PartialEq, Eq, Structural, Clone, Copy, Debug)]
pub enum CapturePhase {
    Uninitialized,
    Initializing,
    Opening,
    Filtering,
    Capturing,
    Stopped,
    Errored,
}

/// The one failure surfaced to a setup caller: a singleton slot was already
/// set in this process lifetime.
#[derive(PartialEq, Eq, Structural, Clone, Copy, Debug)]
pub enum CaptureError {
    AlreadyInitialized,
}

impl CaptureError {
    /// Human-readable error text.
    pub fn message(&self) -> (r: String)
        ensures
            r@ == "packet capture already initialized"@,
    {
        "packet capture already initialized".to_owned()
    }
}

/// One outcome of outside work, handed back to the engine.
pub enum CaptureEvent {
    DeviceList(Result<Vec<DeviceInfo>, String>),
    OpenResult(Result<(), String>),
    FilterResult(Result<(), String>),
    Frame(Vec<u8>),
    ReadTimeout,
    ReadError(String),
    StopObserved,
}

/// The outside work the engine asks for next.
pub enum CaptureAction {
    OpenDevice(String),
    InstallFilter(String),
    ReadFrame,
    PublishHttp(HttpRequest),
    SleepRetry,
    Exit,
}

/// All engine state: the run flag, the lifecycle phase, the status registry
/// and the two optional delivery channels, owned as one context object.
pub struct EngineContext<S, H> {
    pub initialized: bool,
    pub run_flag: bool,
    pub phase: CapturePhase,
    pub status: CaptureStatus,
    pub status_channel: Option<S>,
    pub http_channel: Option<H>,
}

// ---------------------------------------------------------------------------
// Status messages.
// ---------------------------------------------------------------------------

pub open spec fn msg_not_initialized() -> Seq<char> {
    "capture not initialized"@
}

pub open spec fn msg_unknown_device() -> Seq<char> {
    "unknown"@
}

pub open spec fn msg_initializing() -> Seq<char> {
    "initializing network capture"@
}

pub open spec fn msg_list_failed(e: Seq<char>) -> Seq<char> {
    "failed to list network devices: "@ + e
}

pub open spec fn msg_no_devices() -> Seq<char> {
    "no network devices found"@
}

pub open spec fn msg_no_non_loopback() -> Seq<char> {
    "no non-loopback network device found"@
}

pub open spec fn msg_open_failed(e: Seq<char>) -> Seq<char> {
    "failed to open network device: "@ + e + "; make sure the capture helper is installed"@
}

pub open spec fn msg_filter_failed(e: Seq<char>) -> Seq<char> {
    "failed to set capture filter: "@ + e
}

pub open spec fn msg_capturing() -> Seq<char> {
    "capturing HTTP requests"@
}

pub open spec fn msg_stopped() -> Seq<char> {
    "packet capture stopped"@
}

/// The kernel-level filter the engine installs: TCP on the HTTP ports.
pub open spec fn filter_expr() -> Seq<char> {
    "tcp port 80 or tcp port 8080 or tcp port 443"@
}

// ---------------------------------------------------------------------------
// Device selection.
// ---------------------------------------------------------------------------

/// Index of the first device not marked loopback, or -1 if every device is.
pub open spec fn first_non_loopback(devs: Seq<DeviceInfo>) -> int
    decreases devs.len(),
{
    if devs.len() == 0 {
        -1
    } else if !devs[0].is_loopback {
        0
    } else {
        let r = first_non_loopback(devs.drop_first());
        if r < 0 {
            -1
        } else {
            r + 1
        }
    }
}

proof fn lemma_first_non_loopback_found(devs: Seq<DeviceInfo>, k: int)
    requires
        0 <= k < devs.len(),
        !devs[k].is_loopback,
        forall|j: int| 0 <= j < k ==> #[trigger] devs[j].is_loopback,
    ensures
        first_non_loopback(devs) == k,
    decreases k,
{
    if k == 0 {
    } else {
        lemma_first_non_loopback_found(devs.drop_first(), k - 1);
    }
}

proof fn lemma_first_non_loopback_none(devs: Seq<DeviceInfo>)
    requires
        forall|j: int| 0 <= j < devs.len() ==> #[trigger] devs[j].is_loopback,
    ensures
        first_non_loopback(devs) == -1,
    decreases devs.len(),
{
    if devs.len() == 0 {
    } else {
        lemma_first_non_loopback_none(devs.drop_first());
    }
}

/// The first non-loopback device, in enumeration order; no further
/// heuristic.
fn select_device(devs: &Vec<DeviceInfo>) -> (r: Option<usize>)
    ensures
        r is Some ==> first_non_loopback(devs@) == r->Some_0 as int && r->Some_0 < devs@.len(),
        r is None ==> first_non_loopback(devs@) == -1,
{
    let mut k: usize = 0;
    while k < devs.len()
        invariant
            k <= devs@.len(),
            forall|j: int| 0 <= j < k ==> #[trigger] devs@[j].is_loopback,
        decreases devs@.len() - k,
    {
        if !devs[k].is_loopback {
            proof {
                lemma_first_non_loopback_found(devs@, k as int);
            }
            return Some(k);
        }
        k += 1;
    }
    proof {
        lemma_first_non_loopback_none(devs@);
    }
    None
}

// ---------------------------------------------------------------------------
// Context construction and the boundary operations.
// ---------------------------------------------------------------------------

impl<S, H> EngineContext<S, H> {
    /// A fresh, uninitialized engine context.
    pub fn new() -> (r: EngineContext<S, H>)
        ensures
            !r.initialized,
            !r.run_flag,
            r.phase == CapturePhase::Uninitialized,
            r.status_channel is None,
            r.http_channel is None,
            !r.status.running,
            r.status.message@ == msg_not_initialized(),
            r.status.device_name@ == msg_unknown_device(),
            r.status.start_time == 0,
    {
        EngineContext {
            initialized: false,
            run_flag: false,
            phase: CapturePhase::Uninitialized,
            status: CaptureStatus {
                running: false,
                message: "capture not initialized".to_owned(),
                device_name: "unknown".to_owned(),
                start_time: 0,
            },
            status_channel: None,
            http_channel: None,
        }
    }
}

pub open spec fn snapshot_running<S, H>(c: EngineContext<S, H>) -> bool {
    if c.initialized {
        c.status.running
    } else {
        false
    }
}

pub open spec fn snapshot_message<S, H>(c: EngineContext<S, H>) -> Seq<char> {
    if c.initialized {
        c.status.message@
    } else {
        msg_not_initialized()
    }
}

pub open spec fn snapshot_device<S, H>(c: EngineContext<S, H>) -> Seq<char> {
    if c.initialized {
        c.status.device_name@
    } else {
        msg_unknown_device()
    }
}

pub open spec fn snapshot_start<S, H>(c: EngineContext<S, H>) -> u64 {
    if c.initialized {
        c.status.start_time
    } else {
        0
    }
}

/// A copy of the current status; before initialization, the synthesized
/// "not initialized" status. Safe to call at any time.
pub fn get_capture_status<S, H>(ctx: &EngineContext<S, H>) -> (r: CaptureStatus)
    ensures
        r.running == snapshot_running(*ctx),
        r.message@ == snapshot_message(*ctx),
        r.device_name@ == snapshot_device(*ctx),
        r.start_time == snapshot_start(*ctx),
{
    if ctx.initialized {
        CaptureStatus {
            running: ctx.status.running,
            message: ctx.status.message.clone(),
            device_name: ctx.status.device_name.clone(),
            start_time: ctx.status.start_time,
        }
    } else {
        CaptureStatus {
            running: false,
            message: "capture not initialized".to_owned(),
            device_name: "unknown".to_owned(),
            start_time: 0,
        }
    }
}

/// Starts the engine: at most once per context. On a second call the
/// context is left untouched and the caller gets the setup error; the
/// first capture attempt is unaffected.
pub fn init_packet_capture<S, H>(ctx: &mut EngineContext<S, H>, now: u64) -> (r: Result<
    (),
    CaptureError,
>)
    ensures
        old(ctx).initialized ==> r is Err && r->Err_0 == CaptureError::AlreadyInitialized
            && *final(ctx) == *old(ctx),
        !old(ctx).initialized ==> r is Ok && final(ctx).initialized && final(ctx).run_flag
            && final(ctx).phase == CapturePhase::Initializing && !final(ctx).status.running
            && final(ctx).status.message@ == msg_initializing()
            && final(ctx).status.device_name@ == msg_unknown_device()
            && final(ctx).status.start_time == now
            && final(ctx).status_channel == old(ctx).status_channel
            && final(ctx).http_channel == old(ctx).http_channel,
{
    if ctx.initialized {
        return Err(CaptureError::AlreadyInitialized);
    }
    ctx.initialized = true;
    ctx.run_flag = true;
    ctx.phase = CapturePhase::Initializing;
    ctx.status = CaptureStatus {
        running: false,
        message: "initializing network capture".to_owned(),
        device_name: "unknown".to_owned(),
        start_time: now,
    };
    Ok(())
}

/// Signals shutdown: clears the run flag and records the stopped status.
/// Idempotent, and safe to call when the engine never started.
pub fn stop_packet_capture<S, H>(ctx: &mut EngineContext<S, H>) -> (r: Result<(), CaptureError>)
    ensures
        r is Ok,
        !final(ctx).run_flag,
        !final(ctx).status.running,
        final(ctx).status.message@ == msg_stopped(),
        final(ctx).status.device_name == old(ctx).status.device_name,
        final(ctx).status.start_time == old(ctx).status.start_time,
        final(ctx).initialized == old(ctx).initialized,
        final(ctx).phase == old(ctx).phase,
        final(ctx).status_channel == old(ctx).status_channel,
        final(ctx).http_channel == old(ctx).http_channel,
{
    ctx.run_flag = false;
    ctx.status.running = false;
    ctx.status.message = "packet capture stopped".to_owned();
    Ok(())
}

/// The context after a status-channel registration: only the status slot
/// changes, to exactly the given destination.
pub open spec fn with_status_channel<S, H>(c: EngineContext<S, H>, channel: S) -> EngineContext<
    S,
    H,
> {
    EngineContext { status_channel: Some(channel), ..c }
}

/// The context after a request-channel registration: only the request slot
/// changes, to exactly the given destination.
pub open spec fn with_http_channel<S, H>(c: EngineContext<S, H>, channel: H) -> EngineContext<
    S,
    H,
> {
    EngineContext { http_channel: Some(channel), ..c }
}

/// Registers (or replaces) the status delivery channel: the last
/// registration wins, and registering always succeeds.
pub fn set_status_channel<S, H>(ctx: &mut EngineContext<S, H>, channel: S) -> (r: Result<
    (),
    CaptureError,
>)
    ensures
        r is Ok,
        *final(ctx) == with_status_channel(*old(ctx), channel),
{
    ctx.status_channel = Some(channel);
    Ok(())
}

/// Registers (or replaces) the recovered-request delivery channel: the
/// last registration wins, and registering always succeeds.
pub fn set_http_channel<S, H>(ctx: &mut EngineContext<S, H>, channel: H) -> (r: Result<
    (),
    CaptureError,
>)
    ensures
        r is Ok,
        *final(ctx) == with_http_channel(*old(ctx), channel),
{
    ctx.http_channel = Some(channel);
    Ok(())
}

/// Registering the status channel twice leaves exactly the second
/// destination active: a status publication then goes to the second
/// destination, and no longer to a distinct first one.
pub proof fn lemma_second_status_registration_wins<S, H>(c: EngineContext<S, H>, a: S, b: S)
    ensures
        with_status_channel(with_status_channel(c, a), b).status_channel == Some(b),
        a != b ==> with_status_channel(with_status_channel(c, a), b).status_channel != Some(a),
{
}

/// Registering the request channel twice leaves exactly the second
/// destination active: a request publication then goes to the second
/// destination, and no longer to a distinct first one.
pub proof fn lemma_second_http_registration_wins<S, H>(c: EngineContext<S, H>, a: H, b: H)
    ensures
        with_http_channel(with_http_channel(c, a), b).http_channel == Some(b),
        a != b ==> with_http_channel(with_http_channel(c, a), b).http_channel != Some(a),
{
}

/// What a status publication sends and where: the currently registered
/// destination with the current status snapshot, or nothing when no
/// destination is registered — the update is then dropped.
pub fn send_status_update<'a, S, H>(ctx: &'a EngineContext<S, H>) -> (r: Option<
    (&'a S, CaptureStatus),
>)
    ensures
        (r is Some) == (ctx.status_channel is Some),
        r is Some ==> *r->Some_0.0 == ctx.status_channel->Some_0,
        r is Some ==> r->Some_0.1.running == snapshot_running(*ctx) && r->Some_0.1.message@
            == snapshot_message(*ctx) && r->Some_0.1.device_name@ == snapshot_device(*ctx)
            && r->Some_0.1.start_time == snapshot_start(*ctx),
{
    match &ctx.status_channel {
        Some(ch) => {
            let st = get_capture_status(ctx);
            Some((ch, st))
        },
        None => None,
    }
}

/// What a recovered-request publication sends and where: the currently
/// registered destination with the request unchanged, or nothing when no
/// destination is registered — the request is then dropped.
pub fn send_http_request<'a, S, H>(ctx: &'a EngineContext<S, H>, request: HttpRequest) -> (r:
    Option<(&'a H, HttpRequest)>)
    ensures
        (r is Some) == (ctx.http_channel is Some),
        r is Some ==> *r->Some_0.0 == ctx.http_channel->Some_0,
        r is Some ==> r->Some_0.1 == request,
{
    match &ctx.http_channel {
        Some(ch) => Some((ch, request)),
        None => None,
    }
}

// ---------------------------------------------------------------------------
// Packet processing.
// ---------------------------------------------------------------------------

/// The largest capture time whose derived request id still fits in 64 bits.
pub const MAX_CAPTURE_SECS: u64 = 18446744073709550;

/// A frame yields a request iff it is accepted by the frame parser, its
/// payload is recognized as an HTTP request start, and extraction succeeds.
pub open spec fn spec_frame_yields(frame: Seq<u8>) -> bool {
    &&& spec_frame_accepted(frame)
    &&& spec_is_http_request(sliced_tcp_of(frame)->Some_0.4)
    &&& spec_parse_ok(lossy_of(sliced_tcp_of(frame)->Some_0.4))
}

/// The provenance and extraction fields of the request a frame yields at
/// capture time `now`.
pub open spec fn frame_request_fields(frame: Seq<u8>, now: u64, req: HttpRequest) -> bool {
    let info = sliced_tcp_of(frame)->Some_0;
    let t = lossy_of(info.4);
    &&& req.method@ == request_tokens(t)[0]
    &&& req.path@ == request_tokens(t)[1]
    &&& req.version@ == request_tokens(t)[2]
    &&& req.host@ == spec_host(t)
    &&& req.content_type@ == spec_content_type(t)
    &&& req.body@ == spec_body(t)
    &&& pair_views(req.headers@) == spec_headers(t)
    &&& req.src_ip@ == info.0
    &&& req.dst_ip@ == info.1
    &&& req.src_port == info.2
    &&& req.dst_port == info.3
    &&& req.timestamp == now
    &&& req.id == now * 1000 + (info.2 as u64) % 1000
}

/// One frame through the whole pipeline: parse, recognize, extract, then
/// fill in provenance and the derived id.
pub fn process_packet(data: &[u8], now: u64) -> (r: Option<HttpRequest>)
    requires
        now <= MAX_CAPTURE_SECS,
    ensures
        (r is Some) == spec_frame_yields(data@),
        r is Some ==> frame_request_fields(data@, now, r->Some_0),
{
    match parse_frame(data) {
        None => None,
        Some(fd) => {
            if !is_http_request(fd.payload.as_slice()) {
                return None;
            }
            match parse_http_request(fd.payload.as_slice()) {
                None => None,
                Some(mut req) => {
                    req.timestamp = now;
                    req.src_ip = fd.src_ip;
                    req.src_port = fd.src_port;
                    req.dst_ip = fd.dst_ip;
                    req.dst_port = fd.dst_port;
                    req.id = now * 1000 + (fd.src_port as u64) % 1000;
                    Some(req)
                },
            }
        },
    }
}

// ---------------------------------------------------------------------------
// The capture-loop state machine.
// ---------------------------------------------------------------------------

/// Which events each phase expects from the hosting layer.
pub open spec fn event_fits(phase: CapturePhase, event: CaptureEvent) -> bool {
    match (phase, event) {
        (CapturePhase::Initializing, CaptureEvent::DeviceList(_)) => true,
        (CapturePhase::Opening, CaptureEvent::OpenResult(_)) => true,
        (CapturePhase::Filtering, CaptureEvent::FilterResult(_)) => true,
        (CapturePhase::Capturing, CaptureEvent::Frame(_)) => true,
        (CapturePhase::Capturing, CaptureEvent::ReadTimeout) => true,
        (CapturePhase::Capturing, CaptureEvent::ReadError(_)) => true,
        (CapturePhase::Capturing, CaptureEvent::StopObserved) => true,
        _ => false,
    }
}

/// An unrecoverable setup failure: the absorbing `Errored` state, status
/// not running with the failure recorded, and the loop never starts.
pub open spec fn fatal_rel<S, H>(
    pre: EngineContext<S, H>,
    post: EngineContext<S, H>,
    action: CaptureAction,
    msg: Seq<char>,
) -> bool {
    &&& post.phase == CapturePhase::Errored
    &&& !post.status.running
    &&& post.status.message@ == msg
    &&& post.status.device_name == pre.status.device_name
    &&& action == CaptureAction::Exit
}

/// The orderly end of the loop: the `Stopped` state with the stopped
/// status recorded.
pub open spec fn stopped_rel<S, H>(
    pre: EngineContext<S, H>,
    post: EngineContext<S, H>,
    action: CaptureAction,
) -> bool {
    &&& post.phase == CapturePhase::Stopped
    &&& !post.status.running
    &&& post.status.message@ == msg_stopped()
    &&& post.status.device_name == pre.status.device_name
    &&& action == CaptureAction::Exit
}

/// The transition relation of the capture loop: how one event moves the
/// engine from `pre` to `post` and which outside work `action` asks for.
pub open spec fn step_rel<S, H>(
    pre: EngineContext<S, H>,
    event: CaptureEvent,
    now: u64,
    post: EngineContext<S, H>,
    action: CaptureAction,
) -> bool {
    &&& post.initialized == pre.initialized
    &&& post.run_flag == pre.run_flag
    &&& post.status_channel == pre.status_channel
    &&& post.http_channel == pre.http_channel
    &&& post.status.start_time == pre.status.start_time
    &&& match (pre.phase, event) {
        (CapturePhase::Initializing, CaptureEvent::DeviceList(res)) => match res {
            Err(e) => fatal_rel(pre, post, action, msg_list_failed(e@)),
            Ok(devs) => {
                if devs@.len() == 0 {
                    fatal_rel(pre, post, action, msg_no_devices())
                } else if first_non_loopback(devs@) < 0 {
                    fatal_rel(pre, post, action, msg_no_non_loopback())
                } else {
                    &&& post.phase == CapturePhase::Opening
                    &&& post.status.running == pre.status.running
                    &&& post.status.message == pre.status.message
                    &&& post.status.device_name@ == devs@[first_non_loopback(devs@)].name@
                    &&& action matches CaptureAction::OpenDevice(n) && n@ == devs@[
                        first_non_loopback(devs@)
                    ].name@
                }
            },
        },
        (CapturePhase::Opening, CaptureEvent::OpenResult(res)) => match res {
            Err(e) => fatal_rel(pre, post, action, msg_open_failed(e@)),
            Ok(_) => {
                &&& post.phase == CapturePhase::Filtering
                &&& post.status == pre.status
                &&& action matches CaptureAction::InstallFilter(f) && f@ == filter_expr()
            },
        },
        (CapturePhase::Filtering, CaptureEvent::FilterResult(res)) => match res {
            Err(e) => fatal_rel(pre, post, action, msg_filter_failed(e@)),
            Ok(_) => {
                &&& post.phase == CapturePhase::Capturing
                &&& post.status.running
                &&& post.status.message@ == msg_capturing()
                &&& post.status.device_name == pre.status.device_name
                &&& action == CaptureAction::ReadFrame
            },
        },
        (CapturePhase::Capturing, CaptureEvent::Frame(data)) => {
            &&& post.phase == pre.phase
            &&& post.status == pre.status
            &&& if spec_frame_yields(data@) {
                action matches CaptureAction::PublishHttp(req) && frame_request_fields(
                    data@,
                    now,
                    req,
                )
            } else {
                action == CaptureAction::ReadFrame
            }
        },
        (CapturePhase::Capturing, CaptureEvent::ReadTimeout) => {
            &&& post.phase == pre.phase
            &&& post.status == pre.status
            &&& action == CaptureAction::ReadFrame
        },
        (CapturePhase::Capturing, CaptureEvent::ReadError(_)) => {
            if pre.run_flag {
                &&& post.phase == pre.phase
                &&& post.status == pre.status
                &&& action == CaptureAction::SleepRetry
            } else {
                stopped_rel(pre, post, action)
            }
        },
        (CapturePhase::Capturing, CaptureEvent::StopObserved) => stopped_rel(pre, post, action),
        _ => false,
    }
}

fn msg_list_failed_exec(e: &String) -> (r: String)
    ensures
        r@ == msg_list_failed(e@),
{
    let mut m = "failed to list network devices: ".to_owned();
    m.append(e.as_str());
    m
}

fn msg_open_failed_exec(e: &String) -> (r: String)
    ensures
        r@ == msg_open_failed(e@),
{
    let mut m = "failed to open network device: ".to_owned();
    m.append(e.as_str());
    m.append("; make sure the capture helper is installed");
    m
}

fn msg_filter_failed_exec(e: &String) -> (r: String)
    ensures
        r@ == msg_filter_failed(e@),
{
    let mut m = "failed to set capture filter: ".to_owned();
    m.append(e.as_str());
    m
}

/// One decision of the capture loop. The hosting layer performs the
/// returned action and hands the next outcome back; it publishes the
/// status after every step that may have changed it.
pub fn capture_step<S, H>(ctx: &mut EngineContext<S, H>, event: CaptureEvent, now: u64) -> (action:
    CaptureAction)
    requires
        event_fits(old(ctx).phase, event),
        now <= MAX_CAPTURE_SECS,
    ensures
        step_rel(*old(ctx), event, now, *final(ctx), action),
{
    match event {
        CaptureEvent::DeviceList(res) => match res {
            Err(e) => {
                ctx.status.running = false;
                ctx.status.message = msg_list_failed_exec(&e);
                ctx.phase = CapturePhase::Errored;
                CaptureAction::Exit
            },
            Ok(devs) => match select_device(&devs) {
                None => {
                    ctx.status.running = false;
                    if devs.len() == 0 {
                        ctx.status.message = "no network devices found".to_owned();
                    } else {
                        ctx.status.message = "no non-loopback network device found".to_owned();
                    }
                    ctx.phase = CapturePhase::Errored;
                    CaptureAction::Exit
                },
                Some(ix) => {
                    let d = &devs[ix];
                    let name = d.name.clone();
                    ctx.status.device_name = d.name.clone();
                    ctx.phase = CapturePhase::Opening;
                    CaptureAction::OpenDevice(name)
                },
            },
        },
        CaptureEvent::OpenResult(res) => match res {
            Err(e) => {
                ctx.status.running = false;
                ctx.status.message = msg_open_failed_exec(&e);
                ctx.phase = CapturePhase::Errored;
                CaptureAction::Exit
            },
            Ok(_) => {
                ctx.phase = CapturePhase::Filtering;
                CaptureAction::InstallFilter(
                    "tcp port 80 or tcp port 8080 or tcp port 443".to_owned(),
                )
            },
        },
        CaptureEvent::FilterResult(res) => match res {
            Err(e) => {
                ctx.status.running = false;
                ctx.status.message = msg_filter_failed_exec(&e);
                ctx.phase = CapturePhase::Errored;
                CaptureAction::Exit
            },
            Ok(_) => {
                ctx.status.running = true;
                ctx.status.message = "capturing HTTP requests".to_owned();
                ctx.phase = CapturePhase::Capturing;
                CaptureAction::ReadFrame
            },
        },
        CaptureEvent::Frame(data) => match process_packet(data.as_slice(), now) {
            Some(req) => CaptureAction::PublishHttp(req),
            None => CaptureAction::ReadFrame,
        },
        CaptureEvent::ReadTimeout => CaptureAction::ReadFrame,
        CaptureEvent::ReadError(_) => {
            if ctx.run_flag {
                CaptureAction::SleepRetry
            } else {
                ctx.status.running = false;
                ctx.status.message = "packet capture stopped".to_owned();
                ctx.phase = CapturePhase::Stopped;
                CaptureAction::Exit
            }
        },
        CaptureEvent::StopObserved => {
            ctx.status.running = false;
            ctx.status.message = "packet capture stopped".to_owned();
            ctx.phase = CapturePhase::Stopped;
            CaptureAction::Exit
        },
    }
}

/// Once devices are listed with a non-loopback entry and both opening the
/// device and installing the filter succeed, the engine is capturing: the
/// status shows running, with the selected device's name recorded.
pub proof fn lemma_setup_reaches_running<S, H>(
    c1: EngineContext<S, H>,
    c2: EngineContext<S, H>,
    c3: EngineContext<S, H>,
    c4: EngineContext<S, H>,
    devs: Vec<DeviceInfo>,
    n1: u64,
    n2: u64,
    n3: u64,
    a1: CaptureAction,
    a2: CaptureAction,
    a3: CaptureAction,
)
    requires
        c1.phase == CapturePhase::Initializing,
        devs@.len() > 0,
        first_non_loopback(devs@) >= 0,
        step_rel(c1, CaptureEvent::DeviceList(Ok(devs)), n1, c2, a1),
        step_rel(c2, CaptureEvent::OpenResult(Ok(())), n2, c3, a2),
        step_rel(c3, CaptureEvent::FilterResult(Ok(())), n3, c4, a3),
    ensures
        c4.phase == CapturePhase::Capturing,
        c4.status.running,
        c4.status.message@ == msg_capturing(),
        c4.status.device_name@ == devs@[first_non_loopback(devs@)].name@,
{
}

} // verus!
