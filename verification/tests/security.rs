use vine::network::address::IpAddress;
use vine::security::rate_limiter::{ConnectionCheck, BUCKET_LIFETIME_NANOS, MAX_BUCKETS};
use vine::security::{ConnectionRateLimiter, PacketRateLimiter, Sanitizer};

const SECOND: u128 = 1_000_000_000;

/// Tokens come back at a rate, up to a limit, and one is taken.
fn consume(limiter: &mut ConnectionRateLimiter<f64>, ip: IpAddress, now: u128) -> bool {
    match limiter.check_connection(ip, now) {
        ConnectionCheck::Allowed => true,
        ConnectionCheck::Consume { tokens, elapsed } => {
            let seconds = elapsed as f64 / SECOND as f64;
            let full = (tokens + seconds * limiter.rate_per_sec).min(limiter.burst);
            let allowed = full >= 1.0;
            limiter.settle(ip, if allowed { full - 1.0 } else { full }, now);
            allowed
        }
    }
}

#[test]
fn test_packet_rate_limiter() {
    let mut limiter = PacketRateLimiter::new(3);
    assert!(limiter.record_packet());
    assert!(limiter.record_packet());
    assert!(limiter.record_packet());
    assert!(!limiter.record_packet());
}

#[test]
fn test_connection_rate_limiter() {
    let mut limiter = ConnectionRateLimiter::new(true, 2.0, 2.0);
    let ip = IpAddress::V4(0xc0a8_0164);

    assert!(consume(&mut limiter, ip, 0));
    assert!(consume(&mut limiter, ip, 1000));
    assert!(!consume(&mut limiter, ip, 2000));
}

#[test]
fn tokens_come_back_and_addresses_are_apart() {
    let mut limiter = ConnectionRateLimiter::new(true, 1.0, 1.0);
    let one = IpAddress::V4(1);
    let two = IpAddress::V6(1);
    assert!(consume(&mut limiter, one, 0));
    assert!(!consume(&mut limiter, one, 1));
    assert!(consume(&mut limiter, two, 1));
    assert!(consume(&mut limiter, one, 2 * SECOND));
    assert_eq!(limiter.buckets.len(), 2);
}

#[test]
fn a_disabled_limiter_allows_everything() {
    let mut limiter = ConnectionRateLimiter::new(false, 0u32, 0);
    for i in 0..5 {
        let check = limiter.check_connection(IpAddress::V4(7), i);
        assert!(matches!(check, ConnectionCheck::Allowed));
    }
    assert!(limiter.buckets.is_empty());
}

#[test]
fn old_buckets_are_dropped_when_there_are_too_many() {
    let mut limiter = ConnectionRateLimiter::new(true, 1u32, 9);
    for i in 0..=MAX_BUCKETS as u32 {
        let now = if i == 3 { BUCKET_LIFETIME_NANOS } else { 0 };
        let _ = limiter.check_connection(IpAddress::V4(i), now);
    }
    assert_eq!(limiter.buckets.len(), MAX_BUCKETS + 1);
    let check = limiter.check_connection(IpAddress::V4(u32::MAX), BUCKET_LIFETIME_NANOS);
    assert!(matches!(check, ConnectionCheck::Consume { tokens: 9, elapsed: 0 }));
    assert_eq!(limiter.buckets.len(), 2);
    assert_eq!(limiter.buckets[0].ip, IpAddress::V4(3));
}

#[test]
fn a_full_second_begins_a_new_window() {
    let mut limiter = PacketRateLimiter::new(1);
    assert!(limiter.record_packet_at(0));
    assert!(!limiter.record_packet_at(SECOND - 1));
    assert!(limiter.record_packet_at(SECOND));
    assert_eq!(limiter.packet_count(), 1);
    assert!(!limiter.record_packet_at(2 * SECOND - 1));
    assert!(limiter.record_packet_at(2 * SECOND));
    assert!(!limiter.record_packet_at(SECOND));
}

#[test]
fn a_new_window_is_limited_like_the_first() {
    let mut limiter = PacketRateLimiter::new(3);
    for start in [0, 5 * SECOND, 6 * SECOND + 7] {
        for k in 1..=6u32 {
            assert_eq!(limiter.record_packet_at(start + u128::from(k) - 1), k <= 3);
            assert_eq!(limiter.packet_count(), k);
        }
    }
}

#[test]
fn a_limit_of_zero_allows_nothing() {
    let mut none = PacketRateLimiter::new(0);
    assert!(!none.record_packet());
    assert!(!none.record_packet_at(0));
    assert!(!none.record_packet_at(SECOND));
    assert!(!none.record_packet_at(5 * SECOND));
}

#[test]
fn the_clock_opens_a_new_window() {
    let mut limiter = PacketRateLimiter::new(1);
    assert!(limiter.record_packet());
    assert!(!limiter.record_packet());
    let start = std::time::Instant::now();
    while start.elapsed().as_millis() < 1100 {}
    assert!(limiter.record_packet());
    assert!(!limiter.record_packet());
}

#[test]
fn test_username_validation() {
    assert!(Sanitizer::is_valid_username("Alex"));
    assert!(Sanitizer::is_valid_username("Steve_99"));
    assert!(Sanitizer::is_valid_username("a_"));

    assert!(!Sanitizer::is_valid_username(""));
    assert!(!Sanitizer::is_valid_username("a"));
    assert!(!Sanitizer::is_valid_username("A_very_long_username_here"));
    assert!(!Sanitizer::is_valid_username("Player!@#"));
    assert!(!Sanitizer::is_valid_username("Player with space"));
    assert!(!Sanitizer::is_valid_username("Player\0Null"));
}

#[test]
fn test_host_sanitizer() {
    assert_eq!(Sanitizer::sanitize_host("mc.example.com"), "mc.example.com");
    assert_eq!(
        Sanitizer::sanitize_host("mc.example.com\0malicious_ip\0uuid"),
        "mc.example.commalicious_ipuuid"
    );
}

#[test]
fn sanitizer_edges() {
    assert!(Sanitizer::is_valid_username("abcdefghijklmnop"));
    assert!(!Sanitizer::is_valid_username("abcdefghijklmnopq"));
    assert!(!Sanitizer::is_valid_username("\u{e9}\u{e9}\u{e9}"));
    let long = "a".repeat(300);
    assert_eq!(Sanitizer::sanitize_host(&long).len(), 255);
    let letters = "\u{e9}".repeat(200);
    assert_eq!(Sanitizer::sanitize_host(&letters), letters);
    let more = "\u{e9}\0".repeat(300);
    assert_eq!(Sanitizer::sanitize_host(&more), "\u{e9}".repeat(255));
    let clean = Sanitizer::sanitize_host(&more);
    assert_eq!(Sanitizer::sanitize_host(&clean), clean);
    assert_eq!(Sanitizer::sanitize_host("a\r\nb\tc"), "abc");
    assert!(Sanitizer::is_valid_packet_size(10, 10));
    assert!(!Sanitizer::is_valid_packet_size(11, 10));
    assert!(Sanitizer::is_valid_packet_size(0, 0));
}
