use relay_hub::rate_limit::{Acquire, ClientConnRateLimit, TokenBucket};

fn bucket(bytes_per_second: u32, max_burst_bytes: u32, now: u64) -> TokenBucket {
    TokenBucket::new(ClientConnRateLimit { bytes_per_second, max_burst_bytes }, now).unwrap()
}

#[test]
fn bucket_starts_full() {
    let mut b = bucket(1000, 2000, 0);
    assert_eq!(b.available(), 2000);
    assert_eq!(b.try_acquire(0, 2000), Acquire::Granted);
    assert_eq!(b.available(), 0);
}

#[test]
fn empty_bucket_says_how_long_to_wait() {
    let mut b = bucket(1000, 2000, 0);
    assert_eq!(b.try_acquire(0, 2000), Acquire::Granted);
    // 500 bytes at 1000 bytes a second: half a second
    assert_eq!(b.try_acquire(0, 500), Acquire::Wait(500_000));
    assert_eq!(b.try_acquire(499_999, 500), Acquire::Wait(1));
    assert_eq!(b.try_acquire(500_000, 500), Acquire::Granted);
    assert_eq!(b.available(), 0);
}

#[test]
fn wait_is_rounded_up_to_a_whole_microsecond() {
    let mut b = bucket(3, 10, 0);
    assert_eq!(b.try_acquire(0, 10), Acquire::Granted);
    // one byte costs 1_000_000 units; 3 units accrue each microsecond
    assert_eq!(b.try_acquire(0, 1), Acquire::Wait(333_334));
    assert_eq!(b.try_acquire(333_333, 1), Acquire::Wait(1));
    assert_eq!(b.try_acquire(333_334, 1), Acquire::Granted);
}

#[test]
fn tokens_accrue_up_to_the_burst_and_no_further() {
    let mut b = bucket(1000, 2000, 0);
    assert_eq!(b.try_acquire(0, 2000), Acquire::Granted);
    assert_eq!(b.try_acquire(1_000_000, 0), Acquire::Granted);
    assert_eq!(b.available(), 1000);
    assert_eq!(b.try_acquire(60_000_000, 0), Acquire::Granted);
    assert_eq!(b.available(), 2000);
    assert_eq!(b.try_acquire(u64::MAX, 0), Acquire::Granted);
    assert_eq!(b.available(), 2000);
}

#[test]
fn refusal_takes_no_tokens() {
    let mut b = bucket(100, 1000, 0);
    assert_eq!(b.try_acquire(0, 600), Acquire::Granted);
    assert_eq!(b.try_acquire(0, 600), Acquire::Wait(2_000_000));
    assert_eq!(b.available(), 400);
    assert_eq!(b.try_acquire(0, 400), Acquire::Granted);
}

#[test]
fn frame_larger_than_the_burst_never_passes() {
    let mut b = bucket(1000, 2000, 0);
    assert_eq!(b.try_acquire(0, 2001), Acquire::ExceedsBurst);
    assert_eq!(b.available(), 2000);
}

#[test]
fn clock_that_goes_back_adds_nothing() {
    let mut b = bucket(1000, 2000, 1_000_000);
    assert_eq!(b.try_acquire(1_000_000, 2000), Acquire::Granted);
    assert_eq!(b.try_acquire(0, 1), Acquire::Wait(1000));
    assert_eq!(b.try_acquire(1_001_000, 1), Acquire::Granted);
}

#[test]
fn limit_of_zero_is_no_limit_at_all() {
    assert!(TokenBucket::new(ClientConnRateLimit { bytes_per_second: 0, max_burst_bytes: 9 }, 0)
        .is_none());
    assert!(TokenBucket::new(ClientConnRateLimit { bytes_per_second: 9, max_burst_bytes: 0 }, 0)
        .is_none());
    assert!(!ClientConnRateLimit { bytes_per_second: 0, max_burst_bytes: 0 }.is_valid());
    assert!(ClientConnRateLimit { bytes_per_second: 1, max_burst_bytes: 1 }.is_valid());
}

#[test]
fn largest_limit_does_not_overflow() {
    let mut b = bucket(u32::MAX, u32::MAX, 0);
    assert_eq!(b.available(), u32::MAX as u64);
    assert_eq!(b.try_acquire(0, u32::MAX as usize), Acquire::Granted);
    assert_eq!(b.try_acquire(0, u32::MAX as usize), Acquire::Wait(1_000_000));
    assert_eq!(b.try_acquire(u64::MAX, u32::MAX as usize), Acquire::Granted);
}

#[test]
fn what_passes_is_bounded_by_burst_and_rate() {
    // 1000 bytes a second, a burst of 500: in 2 seconds at most 2500 bytes
    let mut b = bucket(1000, 500, 0);
    let mut passed = 0usize;
    let mut now = 0u64;
    let mut size = 1usize;
    while now <= 2_000_000 {
        if b.try_acquire(now, size) == Acquire::Granted {
            passed += size;
        }
        now += 7_321;
        size = size * 5 % 97 + 1;
    }
    assert!(passed <= 2500, "{passed}");
    // and the limiter does not starve the client either
    assert!(passed >= 2300, "{passed}");
}
