use sleep_srv::timer::{one_shot_expiration, TimerSpec};

#[test]
fn zero_wait_still_arms_the_timer() {
    assert_eq!(one_shot_expiration(0), TimerSpec { secs: 0, nanos: 1 });
}

#[test]
fn sub_second_wait() {
    assert_eq!(one_shot_expiration(1), TimerSpec { secs: 0, nanos: 1_000_000 });
    assert_eq!(one_shot_expiration(200), TimerSpec { secs: 0, nanos: 200_000_000 });
    assert_eq!(one_shot_expiration(999), TimerSpec { secs: 0, nanos: 999_000_000 });
}

#[test]
fn whole_seconds() {
    assert_eq!(one_shot_expiration(1000), TimerSpec { secs: 1, nanos: 0 });
    assert_eq!(one_shot_expiration(2000), TimerSpec { secs: 2, nanos: 0 });
}

#[test]
fn seconds_and_remainder() {
    assert_eq!(one_shot_expiration(1500), TimerSpec { secs: 1, nanos: 500_000_000 });
    assert_eq!(one_shot_expiration(1800), TimerSpec { secs: 1, nanos: 800_000_000 });
}

#[test]
fn longest_wait() {
    assert_eq!(
        one_shot_expiration(u32::MAX),
        TimerSpec { secs: 4_294_967, nanos: 295_000_000 }
    );
}

#[test]
fn expiration_is_never_short_of_the_request() {
    for ms in [0u32, 1, 200, 400, 999, 1000, 1001, 60_000, u32::MAX] {
        let expiry = one_shot_expiration(ms);
        let total = expiry.secs as i128 * 1_000_000_000 + expiry.nanos as i128;
        assert!(total >= ms as i128 * 1_000_000);
        assert!(total > 0);
        assert!(expiry.nanos >= 0 && expiry.nanos < 1_000_000_000);
        if ms > 0 {
            assert_eq!(total, ms as i128 * 1_000_000);
        }
    }
}
