use torwell84::error::{status_details, ConnectionStep, Error};
use torwell84::frames::{CircuitMetrics, FrameHistory, FrameMetrics, TrafficCounters};
use torwell84::simd::{check_luma_shapes, detect_backend, ensure_pixel_chunks, Arch, Backend, SimdError};
use torwell84::socks::{
    connect_reply, destination_port, domain_destination, greeting_methods, ipv4_destination, method_selection_reply,
    request_address_kind, AddressKind,
};
use torwell84::tasks::{
    add_tasks, global_worker_threads, sample_micros, scheduler_error_message, worker_threads, SchedulerSnapshot,
    TaskError,
};

fn frame(id: u64, dropped: u64) -> FrameMetrics {
    FrameMetrics {
        frame_id: id,
        cpu_encode_ns: 1,
        queue_submit_ns: 2,
        gpu_time_ns: 3,
        queue_wait_ns: 4,
        frame_interval_ns: 5,
        triple_buffer_depth: 3,
        dropped_frames: dropped,
        timestamp_ms: 0,
    }
}

#[test]
fn rejects_invalid_lengths() {
    let pixels = vec![0.0f32; 5];
    let err = ensure_pixel_chunks(&pixels).unwrap_err();
    assert!(matches!(err, SimdError::PixelLengthNotMultipleOf4 { .. }));
    assert_eq!(err.message(), "pixel buffer length 5 is not a multiple of 4");
    assert_eq!(ensure_pixel_chunks(&vec![0u8; 8]), Ok(2));
}

#[test]
fn rejects_mask_mismatch() {
    let pixels = vec![0.0f32; 8];
    let err = check_luma_shapes(&pixels, 1).unwrap_err();
    assert!(matches!(err, SimdError::MaskLengthMismatch { .. }));
    assert_eq!(err.message(), "mask length 1 does not match pixel count 2");
    assert_eq!(check_luma_shapes(&pixels, 2), Ok(2));
}

#[test]
fn backend_selection() {
    assert_eq!(detect_backend(Arch::X86, true, true, false), Backend::Avx2);
    assert_eq!(detect_backend(Arch::X86, false, true, false), Backend::Avx);
    assert_eq!(detect_backend(Arch::X86, false, false, true), Backend::Scalar);
    assert_eq!(detect_backend(Arch::Aarch64, false, false, true), Backend::Neon);
    assert_eq!(detect_backend(Arch::Other, true, true, true), Backend::Scalar);
    assert_eq!(Backend::Avx2.name(), "avx2");
    assert_eq!(Backend::Scalar.name(), "scalar");
}

#[test]
fn task_errors_and_statistics() {
    assert_eq!(TaskError::Canceled.message(), "task canceled before completion");
    let p = TaskError::Panicked { task: "write".into(), message: "disk full".into() };
    assert_eq!(p.message(), "task 'write' panicked: disk full");
    assert_eq!(scheduler_error_message("reload_certificates", &TaskError::Canceled), "reload_certificates cancelled by scheduler");
    assert_eq!(scheduler_error_message("write_certificates", &p), "write_certificates panicked: disk full");
    let s = SchedulerSnapshot::empty().with_queue_depth(4);
    assert_eq!((s.p50_us, s.queue_depth, s.total_tasks), (0, 4, 0));
    assert_eq!(worker_threads(0), 1);
    assert_eq!(worker_threads(8), 8);
    assert_eq!(global_worker_threads(1), 2);
    assert_eq!(sample_micros(0), 1);
    assert_eq!(sample_micros(250), 250);
    assert_eq!(sample_micros((1u128 << 64) + 7), 7);
    assert_eq!(add_tasks(u64::MAX, 2), 1);
}

#[test]
fn frame_history_keeps_the_latest_frames() {
    let mut h = FrameHistory::new(2);
    h.record(frame(1, 0));
    h.record(frame(2, 1));
    h.record(frame(3, 2));
    let ids: Vec<u64> = h.history().iter().map(|f| f.frame_id).collect();
    assert_eq!(ids, vec![2, 3]);
    assert_eq!(h.total_frames(), 3);
    assert_eq!(h.total_dropped(), 3);
    let mut c = TrafficCounters::new();
    c.add_sent(10);
    c.add_received(5);
    assert_eq!(c.counters(), TrafficCounters { bytes_sent: 10, bytes_received: 5 });
    assert!(!CircuitMetrics::unavailable().complete);
}

#[test]
fn socks_protocol_steps() {
    assert_eq!(greeting_methods(&[5, 2]), Some(2));
    assert_eq!(greeting_methods(&[4, 1]), None);
    assert_eq!(method_selection_reply(), vec![5, 0]);
    assert!(matches!(request_address_kind(&[5, 1, 0, 1]), Some(AddressKind::Ipv4)));
    assert!(matches!(request_address_kind(&[5, 1, 0, 3]), Some(AddressKind::Domain)));
    assert!(request_address_kind(&[5, 2, 0, 1]).is_none());
    assert_eq!(ipv4_destination(&[192, 0, 2, 7]), "192.0.2.7");
    assert_eq!(domain_destination(b"example.org"), "example.org");
    assert_eq!(destination_port(&[0x1f, 0x90]), 8080);
    assert_eq!(connect_reply(true)[1], 0);
    assert_ne!(connect_reply(false)[1], 0);
}

#[test]
fn error_messages_and_details() {
    let e = Error::ConnectionFailed { step: ConnectionStep::BuildConfig, source_message: "x".into(), backtrace: String::new() };
    assert_eq!(e.message(), "connection failed during build_config: x");
    assert_eq!(status_details(&e), ("build_config".to_string(), "x".to_string()));
    assert_eq!(Error::InvalidToken.message(), "Invalid session token");
    assert_eq!(Error::RateLimitExceeded("api".into()).message(), "Rate limit exceeded for api");
    assert_eq!(status_details(&Error::Timeout), (String::new(), String::new()));
}
