use tvbs_engine::app_status::AppStatus;
use tvbs_engine::config::TimeSyncConfig;
use tvbs_engine::media_probe::now_ms;
use tvbs_engine::ntp::{
    apply_offset, client_packet, drop_offset, from_ntp_timestamp, ntp_offset_ms, reply_offset_ms,
    sync_failed, sync_pause_secs, to_ntp_timestamp, with_port, NtpClock, Sync, NTP_TO_UNIX_SECS,
    PACKET_LEN,
};

#[test]
fn ntp_timestamp_round_trips() {
    let unix_ms: i64 = 1_787_875_200_000;
    let bytes = to_ntp_timestamp(unix_ms);
    // The fraction is only 32 bits, so sub-millisecond drift is fine.
    let back = from_ntp_timestamp(&bytes);
    assert!(
        (back - unix_ms as i128).abs() <= 1,
        "got {back} want {unix_ms}"
    );
}

#[test]
fn unix_epoch_maps_to_ntp_epoch() {
    let bytes = to_ntp_timestamp(0);
    let mut secs = [0u8; 4];
    secs.copy_from_slice(&bytes[0..4]);
    assert_eq!(u32::from_be_bytes(secs), NTP_TO_UNIX_SECS as u32);
}

#[test]
fn with_port_adds_ntp_port() {
    assert_eq!(with_port("ntp.ntsc.ac.cn"), "ntp.ntsc.ac.cn:123");
    assert_eq!(with_port("10.0.0.1:1234"), "10.0.0.1:1234");
}

#[test]
fn timestamps_have_their_exact_bytes() {
    assert_eq!(to_ntp_timestamp(0), [0x83, 0xaa, 0x7e, 0x80, 0, 0, 0, 0]);
    assert_eq!(to_ntp_timestamp(500), [0x83, 0xaa, 0x7e, 0x80, 0x80, 0, 0, 0]);
    assert_eq!(to_ntp_timestamp(-1_000), [0x83, 0xaa, 0x7e, 0x7f, 0, 0, 0, 0]);
    assert_eq!(to_ntp_timestamp(-500), [0x83, 0xaa, 0x7e, 0x80, 0x80, 0, 0, 0]);
    assert_eq!(from_ntp_timestamp(&[0x83, 0xaa, 0x7e, 0x81, 0x40, 0, 0, 0]), 1_250);
    assert_eq!(from_ntp_timestamp(&[0; 8]), -2_208_988_800_000);
    assert_eq!(from_ntp_timestamp(&[1, 2, 3]), 0);
}

#[test]
fn every_millisecond_of_a_second_round_trips() {
    for ms in 0..1_000i64 {
        let back = from_ntp_timestamp(&to_ntp_timestamp(ms));
        assert!(back == ms as i128 || back == ms as i128 - 1);
    }
}

#[test]
fn the_request_carries_the_transmit_time() {
    let p = client_packet(500);
    assert_eq!(p.len(), PACKET_LEN);
    assert_eq!(p[0], 0x23);
    assert!(p[1..40].iter().all(|b| *b == 0));
    assert_eq!(p[40..48].to_vec(), vec![0x83, 0xaa, 0x7e, 0x80, 0x80, 0, 0, 0]);
}

fn reply(t2: i64, t3: i64) -> Vec<u8> {
    let mut p = vec![0u8; 48];
    p[32..40].copy_from_slice(&to_ntp_timestamp(t2));
    p[40..48].copy_from_slice(&to_ntp_timestamp(t3));
    p
}

#[test]
fn the_offset_is_the_error_of_the_local_clock() {
    // The local clock is an hour behind; 40 ms each way, 2 s at the server.
    let hour: i64 = 3_600_000;
    let sent: i64 = 1_787_875_200_000;
    let r = reply(sent + 1_000, sent + 3_000);
    let got = reply_offset_ms(&r, sent + 960 - hour, sent + 3_040 - hour);
    assert_eq!(got.unwrap(), hour);
    let ahead = reply_offset_ms(&r, sent + 960 + hour, sent + 3_040 + hour);
    assert_eq!(ahead.unwrap(), -hour);
}

#[test]
fn half_milliseconds_round_towards_zero() {
    let r = reply(1_000_000, 1_000_000);
    assert_eq!(reply_offset_ms(&r, 999_999, 1_000_000).unwrap(), 0);
    assert_eq!(reply_offset_ms(&r, 1_000_001, 1_000_000).unwrap(), 0);
    assert_eq!(reply_offset_ms(&r, 999_997, 1_000_000).unwrap(), 1);
    assert_eq!(reply_offset_ms(&r, 1_000_003, 1_000_000).unwrap(), -1);
}

#[test]
fn bad_replies_are_refused() {
    assert_eq!(
        reply_offset_ms(&[0; 20], 0, 0).unwrap_err(),
        "short reply (20 of 48 bytes)"
    );
    assert_eq!(
        reply_offset_ms(&reply(0, 0), 0, 0).unwrap_err(),
        "server sent a zero timestamp (not an NTP server?)"
    );
}

#[test]
fn servers_are_asked_in_order() {
    let servers = vec![" ".to_string(), " a ".to_string(), "".to_string(), "b".to_string()];
    let mut s = Sync::new();
    assert_eq!(s.last, "no server configured");
    assert_eq!(s.advance(&servers), Some("a".to_string()));
    s.failed("a", "timed out after 4s");
    assert_eq!(s.advance(&servers), Some("b".to_string()));
    assert_eq!(s.last, "a: timed out after 4s");
    s.failed("b", "no route");
    assert_eq!(s.advance(&servers), None);
    assert_eq!(s.last, "b: no route");
    assert_eq!(s.advance(&servers), None);
}

#[test]
fn an_offset_is_kept_until_it_is_dropped() {
    let mut clock = NtpClock::default();
    let mut st = AppStatus::default();
    sync_failed(&mut st, "x");
    assert_eq!(st.ntp_error.as_deref(), Some("授时失败：x"));
    apply_offset(&mut clock, &mut st, "a", -42, 7);
    assert_eq!(ntp_offset_ms(&clock), -42);
    assert_eq!(st.ntp_offset_ms, Some(-42));
    assert_eq!(st.ntp_server.as_deref(), Some("a"));
    assert_eq!(st.ntp_synced_at, Some(7));
    assert!(st.ntp_error.is_none());
    sync_failed(&mut st, "y");
    assert_eq!(ntp_offset_ms(&clock), -42);
    assert_eq!(st.ntp_offset_ms, Some(-42));
    drop_offset(&mut clock, &mut st);
    assert_eq!(ntp_offset_ms(&clock), 0);
    assert!(st.ntp_offset_ms.is_none());
    assert!(st.ntp_error.is_none());
}

#[test]
fn the_pause_is_at_least_a_minute() {
    let mut cfg = TimeSyncConfig::default();
    assert_eq!(sync_pause_secs(&cfg), 3_600);
    cfg.interval_min = 0;
    assert_eq!(sync_pause_secs(&cfg), 60);
}

#[test]
fn the_machine_clock_runs() {
    let a = now_ms();
    assert!(a > 1_577_836_800_000);
    assert!(now_ms() >= a);
}
