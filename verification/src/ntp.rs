//! The NTP side of the station clock.
//!
//! A broadcast clock must not depend on whatever the operator's PC thinks the time
//! is. So a time server is asked, and the *offset* between its time and that of this
//! machine is kept. Only the offset is used, never the absolute answer: where the
//! local clock is wrong, both local timestamps are wrong by the same amount, and
//! `((T2-T1) + (T3-T4)) / 2` is exactly that amount.

use vstd::prelude::*;

use crate::app_status::{AppStatus, StatusView};
use crate::config::TimeSyncConfig;
use crate::text::{blank, cat, cat3, fmt_u64, has_char, trim};
#[allow(unused_imports)]
use crate::{seqs, text};

verus! {

/// Seconds between the NTP epoch (1900-01-01) and the Unix epoch (1970-01-01).
pub const NTP_TO_UNIX_SECS: u64 = 2_208_988_800;

/// Leap indicator 0, version 4, mode 3 (client).
pub const HEADER_CLIENT: u8 = 0x23;

/// Length of an NTP packet.
pub const PACKET_LEN: usize = 48;

/// How long a server may take to answer.
pub const REPLY_TIMEOUT_SECS: u64 = 4;

/// 2 to the power of 32.
pub const ERA: i128 = 4_294_967_296;

// ------------------------------------------------------------------- addresses

/// A host with its port: 123 where it names none.
pub open spec fn host_and_port(server: Seq<char>) -> Seq<char> {
    if server.contains(':') {
        server
    } else {
        server + ":123"@
    }
}

/// A UDP host that may be missing its `:port`.
pub fn with_port(server: &str) -> (r: String)
    ensures
        r@ == host_and_port(server@),
{
    if has_char(server, ':') {
        server.to_owned()
    } else {
        cat(server, ":123")
    }
}

// ------------------------------------------------------------------ timestamps

/// Division that rounds towards zero.
pub open spec fn towards_zero(a: int, b: int) -> int {
    if a >= 0 {
        a / b
    } else {
        -((-a) / b)
    }
}

/// The seconds of a moment, by the NTP epoch; they wrap with the era.
pub open spec fn ntp_seconds(unix_ms: i64) -> int {
    (towards_zero(unix_ms as int, 1_000) + NTP_TO_UNIX_SECS) % (ERA as int)
}

/// The milliseconds of a moment past its seconds, with its sign.
pub open spec fn ms_part(unix_ms: i64) -> int {
    unix_ms - 1_000 * towards_zero(unix_ms as int, 1_000)
}

/// The binary fraction of a moment.
pub open spec fn ntp_fraction(unix_ms: i64) -> int {
    towards_zero(ms_part(unix_ms) * ERA, 1_000) % (ERA as int)
}

/// Four bytes, the most significant first.
pub open spec fn be_bytes(n: int) -> Seq<u8> {
    seq![
        (n / 16_777_216) as u8,
        (n / 65_536 % 256) as u8,
        (n / 256 % 256) as u8,
        (n % 256) as u8,
    ]
}

/// The number that four bytes from `at` on stand for.
pub open spec fn be_value(b: Seq<u8>, at: int) -> int {
    b[at] * 16_777_216 + b[at + 1] * 65_536 + b[at + 2] * 256 + b[at + 3]
}

/// The moment that an NTP timestamp from `at` on stands for.
pub open spec fn unix_ms_at(b: Seq<u8>, at: int) -> int {
    (be_value(b, at) - NTP_TO_UNIX_SECS) * 1_000 + be_value(b, at + 4) * 1_000 / (ERA as int)
}

fn byte(n: u64) -> (r: u8)
    requires
        n < 256,
    ensures
        r == n,
{
    n as u8
}

/// Unix ms -> NTP 64-bit timestamp (32 bits of seconds, 32 bits of fraction).
pub fn to_ntp_timestamp(unix_ms: i64) -> (r: [u8; 8])
    ensures
        r@ == be_bytes(ntp_seconds(unix_ms)) + be_bytes(ntp_fraction(unix_ms)),
{
    let negative: bool = unix_ms < 0;
    let size: u128 = if negative {
        (-(unix_ms as i128)) as u128
    } else {
        unix_ms as u128
    };
    let whole: i128 = (size / 1_000) as i128;
    let part: u128 = size % 1_000;
    let since_1900: i128 = if negative {
        NTP_TO_UNIX_SECS as i128 - whole
    } else {
        NTP_TO_UNIX_SECS as i128 + whole
    };
    // A multiple of the era, large enough to bring every moment above zero.
    let lifted: u128 = (since_1900 + 18_446_744_073_709_551_616) as u128;
    let secs: u64 = (lifted % 4_294_967_296) as u64;
    let frac_size: u64 = (part * 4_294_967_296 / 1_000) as u64;
    let frac: u64 = if negative && frac_size > 0 {
        4_294_967_296 - frac_size
    } else {
        frac_size
    };
    assert(secs == ntp_seconds(unix_ms));
    assert(frac == ntp_fraction(unix_ms)) by {
        assert(ms_part(unix_ms) == if negative {
            -(part as int)
        } else {
            part as int
        });
    }
    let out: [u8; 8] = [
        byte(secs / 16_777_216),
        byte(secs / 65_536 % 256),
        byte(secs / 256 % 256),
        byte(secs % 256),
        byte(frac / 16_777_216),
        byte(frac / 65_536 % 256),
        byte(frac / 256 % 256),
        byte(frac % 256),
    ];
    assert(out@ =~= be_bytes(secs as int) + be_bytes(frac as int));
    out
}

fn be_at(bytes: &[u8], at: usize) -> (r: i128)
    requires
        at + 4 <= bytes@.len(),
    ensures
        r == be_value(bytes@, at as int),
        0 <= r < ERA,
{
    bytes[at] as i128 * 16_777_216 + bytes[at + 1] as i128 * 65_536 + bytes[at + 2] as i128 * 256
        + bytes[at + 3] as i128
}

fn unix_at(bytes: &[u8], at: usize) -> (r: i128)
    requires
        at + 8 <= bytes@.len(),
    ensures
        r == unix_ms_at(bytes@, at as int),
        -2_208_988_800_000 <= r < 2_085_978_496_000,
{
    assert(at + 8 <= bytes.len());
    let secs: i128 = be_at(bytes, at) - NTP_TO_UNIX_SECS as i128;
    let frac: u128 = be_at(bytes, at + 4) as u128;
    secs * 1_000 + (frac * 1_000 / 4_294_967_296) as i128
}

/// NTP 64-bit timestamp -> Unix ms; 0 for fewer bytes than one.
pub fn from_ntp_timestamp(bytes: &[u8]) -> (r: i128)
    ensures
        r == (if bytes@.len() < 8 {
            0
        } else {
            unix_ms_at(bytes@, 0)
        }),
{
    if bytes.len() < 8 {
        return 0;
    }
    unix_at(bytes, 0)
}

/// A timestamp gives its moment back, to the millisecond below at worst. The moment
/// has to lie in the era, and one before 1970 has to be a whole second.
pub proof fn timestamps_round_trip(unix_ms: i64)
    requires
        -2_208_988_800_000 <= unix_ms < 2_085_978_496_000,
        unix_ms >= 0 || unix_ms % 1_000 == 0,
    ensures
        ({
            let b = be_bytes(ntp_seconds(unix_ms)) + be_bytes(ntp_fraction(unix_ms));
            unix_ms - 1 <= unix_ms_at(b, 0) <= unix_ms
        }),
{
    let s = ntp_seconds(unix_ms);
    let f = ntp_fraction(unix_ms);
    let b = be_bytes(s) + be_bytes(f);
    lemma_be_reads_back(s);
    lemma_be_reads_back(f);
    assert(be_value(b, 0) == be_value(be_bytes(s), 0));
    assert(be_value(b, 4) == be_value(be_bytes(f), 0));
    assert(0 <= ms_part(unix_ms) < 1_000);
    assert(towards_zero(unix_ms as int, 1_000) + NTP_TO_UNIX_SECS == s);
    let m = ms_part(unix_ms);
    assert(f == m * ERA / 1_000);
    assert(m - 1 <= f * 1_000 / (ERA as int) <= m);
}

/// The Unix epoch lands exactly on the offset between the two epochs.
pub proof fn the_unix_epoch_is_the_offset()
    ensures
        ntp_seconds(0) == NTP_TO_UNIX_SECS,
        ntp_fraction(0) == 0,
{
}

proof fn lemma_be_reads_back(n: int)
    requires
        0 <= n < ERA,
    ensures
        be_value(be_bytes(n), 0) == n,
{
}

// --------------------------------------------------------------------- packets

/// The packet that asks a server, sent at `t1`.
pub open spec fn request_packet(t1: i64) -> Seq<u8> {
    seq![HEADER_CLIENT] + Seq::new(39, |i: int| 0u8) + be_bytes(ntp_seconds(t1)) + be_bytes(
        ntp_fraction(t1),
    )
}

/// The packet that asks a server, with our transmit timestamp.
pub fn client_packet(t1_ms: i64) -> (r: Vec<u8>)
    ensures
        r@ == request_packet(t1_ms),
        r@.len() == PACKET_LEN,
{
    let stamp = to_ntp_timestamp(t1_ms);
    let mut packet: Vec<u8> = Vec::new();
    packet.push(HEADER_CLIENT);
    let mut i: usize = 0;
    while i < 39
        invariant
            i <= 39,
            packet@ == seq![HEADER_CLIENT] + Seq::new(i as nat, |j: int| 0u8),
        decreases 39 - i,
    {
        packet.push(0);
        i = i + 1;
        assert(packet@ =~= seq![HEADER_CLIENT] + Seq::new(i as nat, |j: int| 0u8));
    }
    let mut k: usize = 0;
    while k < 8
        invariant
            k <= 8,
            packet@ == seq![HEADER_CLIENT] + Seq::new(39, |j: int| 0u8) + stamp@.take(k as int),
        decreases 8 - k,
    {
        packet.push(stamp[k]);
        k = k + 1;
        assert(stamp@.take(k as int) =~= stamp@.take(k - 1).push(stamp@[k - 1]));
    }
    assert(stamp@.take(8) =~= stamp@);
    assert(packet@ =~= request_packet(t1_ms));
    packet
}

/// The offset that four timestamps give: sent (local), received and sent on (server),
/// received (local).
pub open spec fn offset_of(t1: int, t2: int, t3: int, t4: int) -> int {
    towards_zero((t2 - t1) + (t3 - t4), 2)
}

/// The same number in 64 bits.
pub open spec fn wrapped(x: int) -> i64 {
    if x > i64::MAX {
        (x - 18_446_744_073_709_551_616) as i64
    } else if x < i64::MIN {
        (x + 18_446_744_073_709_551_616) as i64
    } else {
        x as i64
    }
}

/// Why a reply gives no offset; `None` where it gives one.
pub open spec fn reply_problem(reply: Seq<u8>) -> Option<Seq<char>> {
    if reply.len() < PACKET_LEN {
        Some("short reply ("@ + text::decimal(reply.len()) + " of 48 bytes)"@)
    } else if unix_ms_at(reply, 32) == 0 && unix_ms_at(reply, 40) == 0 {
        Some("server sent a zero timestamp (not an NTP server?)"@)
    } else {
        None
    }
}

/// The offset that a reply gives, asked for at `t1_ms` and received at `t4_ms` by the
/// local clock.
pub fn reply_offset_ms(reply: &[u8], t1_ms: i64, t4_ms: i64) -> (r: Result<i64, String>)
    ensures
        match r {
            Ok(offset) => reply_problem(reply@) is None && offset == wrapped(
                offset_of(
                    t1_ms as int,
                    unix_ms_at(reply@, 32),
                    unix_ms_at(reply@, 40),
                    t4_ms as int,
                ),
            ),
            Err(e) => reply_problem(reply@) == Some(e@),
        },
{
    if reply.len() < PACKET_LEN {
        return Err(
            cat3("short reply (", fmt_u64(reply.len() as u64).as_str(), " of 48 bytes)"),
        );
    }
    let t2: i128 = unix_at(reply, 32);
    let t3: i128 = unix_at(reply, 40);
    if t2 == 0 && t3 == 0 {
        return Err("server sent a zero timestamp (not an NTP server?)".to_string());
    }
    let sum: i128 = (t2 - t1_ms as i128) + (t3 - t4_ms as i128);
    let offset: i128 = if sum >= 0 {
        (sum as u128 / 2) as i128
    } else {
        -(((-sum) as u128 / 2) as i128)
    };
    let max: i128 = i64::MAX as i128;
    let min: i128 = i64::MIN as i128;
    Ok(
        if offset > max {
            (offset - 18_446_744_073_709_551_616) as i64
        } else if offset < min {
            (offset + 18_446_744_073_709_551_616) as i64
        } else {
            offset as i64
        },
    )
}

/// The error of the local clock does not matter. Where that clock is `error` behind
/// true time and the request took `out` to get there and `back` to return, the offset
/// is off from `error` by half of what those two differ, rounded; it is `error` itself where
/// they are equal.
pub proof fn the_offset_cancels_the_local_error(
    sent: int,
    out: int,
    held: int,
    back: int,
    error: int,
)
    requires
        0 <= out,
        0 <= back,
        0 <= held,
    ensures
        ({
            let received = sent + out;
            let returned = received + held;
            let arrived = returned + back;
            let offset = offset_of(sent - error, received, returned, arrived - error);
            &&& out == back ==> offset == error
            &&& out - back - 1 <= 2 * (offset - error) <= out - back + 1
        }),
{
}

// ------------------------------------------------------------------------ sync

/// Asking one server after another.
#[derive(Debug)]
pub struct Sync {
    /// Where the next server is looked for.
    pub next: usize,
    /// What went wrong last.
    pub last: String,
}

/// The servers that name a host.
pub open spec fn named() -> spec_fn(String) -> bool {
    |s: String| !text::is_blank(s@)
}

/// Position of the first server from `from` on that names a host.
pub open spec fn server_at(servers: Seq<String>, from: int) -> Option<int> {
    if from <= servers.len() {
        seqs::first_from(servers, named(), from)
    } else {
        None
    }
}

impl Sync {
    /// Starts before the first server.
    pub fn new() -> (r: Self)
        ensures
            r.next == 0,
            r.last@ == "no server configured"@,
    {
        Sync { next: 0, last: "no server configured".to_string() }
    }

    /// The server to ask next, trimmed; `None` once there are no more, and `last` is
    /// then why the synchronisation failed.
    pub fn advance(&mut self, servers: &Vec<String>) -> (r: Option<String>)
        ensures
            match server_at(servers@, old(self).next as int) {
                Some(i) => {
                    &&& r matches Some(name) && name@ == text::trimmed(servers@[i]@)
                    &&& final(self).next == i + 1
                },
                None => r is None && (final(self).next == old(self).next || final(self).next
                    == servers@.len()),
            },
            final(self).last == old(self).last,
    {
        let ghost from = self.next as int;
        while self.next < servers.len()
            invariant
                from == old(self).next <= self.next,
                self.next <= servers@.len() || self.next == from,
                self.last == old(self).last,
                self.next <= servers@.len() ==> server_at(servers@, from) == server_at(
                    servers@,
                    self.next as int,
                ),
            decreases servers@.len() - self.next,
        {
            assert(self.next < servers.len());
            let at: usize = self.next;
            self.next = at + 1;
            let s = servers[at].as_str();
            assert(named()(servers@[at as int]) == !text::is_blank(s@));
            if !blank(s) {
                return Some(trim(s));
            }
        }
        None
    }

    /// Notes that asking `name` failed.
    pub fn failed(&mut self, name: &str, e: &str)
        ensures
            final(self).next == old(self).next,
            final(self).last@ == name@ + ": "@ + e@,
    {
        self.last = cat3(name, ": ", e);
    }
}

/// The offset in force. Positive means that the local clock is behind.
#[derive(Debug, Clone, Copy)]
pub struct NtpClock {
    pub offset_ms: i64,
}

impl Default for NtpClock {
    fn default() -> (r: Self)
        ensures
            r.offset_ms == 0,
    {
        NtpClock { offset_ms: 0 }
    }
}

/// The offset currently in force. Positive means the local clock is behind.
pub fn ntp_offset_ms(clock: &NtpClock) -> (r: i64)
    ensures
        r == clock.offset_ms,
{
    clock.offset_ms
}

/// Stores a fresh offset and surfaces it to the UI.
pub fn apply_offset(
    clock: &mut NtpClock,
    status: &mut AppStatus,
    server: &str,
    offset_ms: i64,
    wall_ms: i64,
)
    ensures
        final(clock).offset_ms == offset_ms,
        final(status)@ == (StatusView {
            ntp_offset_ms: Some(offset_ms),
            ntp_server: Some(server@),
            ntp_synced_at: Some(wall_ms),
            ntp_error: None,
            ..old(status)@
        }),
{
    clock.offset_ms = offset_ms;
    status.ntp_offset_ms = Some(offset_ms);
    status.ntp_server = Some(server.to_owned());
    status.ntp_synced_at = Some(wall_ms);
    status.ntp_error = None;
}

/// Goes by the local clock alone: the synchronisation is switched off.
pub fn drop_offset(clock: &mut NtpClock, status: &mut AppStatus)
    ensures
        final(clock).offset_ms == 0,
        final(status)@ == (StatusView { ntp_error: None, ntp_offset_ms: None, ..old(status)@ }),
{
    clock.offset_ms = 0;
    status.ntp_error = None;
    status.ntp_offset_ms = None;
}

/// Says that no server answered. The last known offset stays in force: stale time is
/// better than a clock that jumps back to the local one.
pub fn sync_failed(status: &mut AppStatus, e: &str)
    ensures
        final(status)@ == (StatusView {
            ntp_error: Some("授时失败："@ + e@),
            ..old(status)@
        }),
{
    status.ntp_error = Some(cat("授时失败：", e));
}

/// How long to wait before the next synchronisation: the configured minutes, at least
/// one.
pub fn sync_pause_secs(cfg: &TimeSyncConfig) -> (r: u64)
    ensures
        r == (if cfg.interval_min == 0 {
            60
        } else {
            cfg.interval_min * 60
        }),
{
    let minutes: u64 = if cfg.interval_min == 0 {
        1
    } else {
        cfg.interval_min as u64
    };
    minutes * 60
}

} // verus!
