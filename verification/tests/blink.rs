use icy_view::blink::{Blink, CARET_BLINK_RATE, CHARACTER_BLINK_RATE};

#[test]
fn new_blink_is_off() {
    let blink = Blink::new(100);
    assert!(!blink.is_on());
}

#[test]
fn blink_flips_after_more_than_one_period() {
    let mut blink = Blink::new(100);
    assert!(!blink.update(100));
    assert!(!blink.is_on());
    assert!(blink.update(101));
    assert!(blink.is_on());
    assert!(!blink.update(201));
    assert!(blink.update(202));
    assert!(!blink.is_on());
}

#[test]
fn blink_rates_are_the_text_mode_rates() {
    assert_eq!(CARET_BLINK_RATE, 266);
    assert_eq!(CHARACTER_BLINK_RATE, 555);
}

#[test]
fn blink_records_the_time_of_the_flip() {
    let mut blink = Blink::new(10);
    assert!(blink.update(50));
    // The next flip is due more than one period after 50, not after 0.
    assert!(!blink.update(60));
    assert!(blink.update(61));
}

#[test]
fn caret_blink_flips_once_in_the_first_278_ms() {
    let mut blink = Blink::new(CARET_BLINK_RATE);
    let mut flips = 0;
    for now in 0..=278u128 {
        if blink.update(now) {
            flips += 1;
        }
    }
    assert_eq!(flips, 1);
    assert!(blink.is_on());
}

#[test]
fn character_blink_flips_once_per_period() {
    let mut blink = Blink::new(CHARACTER_BLINK_RATE);
    let mut flips = 0;
    for now in 0..=278u128 {
        if blink.update(now) {
            flips += 1;
        }
    }
    assert_eq!(flips, 0);
    for now in 279..=556u128 {
        if blink.update(now) {
            flips += 1;
        }
    }
    assert_eq!(flips, 1);
    assert!(blink.is_on());
}

#[test]
fn blink_tells_its_rate_and_last_flip() {
    let mut blink = Blink::new(40);
    assert_eq!(blink.blink_rate(), 40);
    assert_eq!(blink.last_blink(), 0);
    blink.update(30);
    assert_eq!(blink.last_blink(), 0);
    blink.update(41);
    assert_eq!(blink.last_blink(), 41);
}

#[test]
fn zero_period_flips_on_every_later_tick() {
    let mut blink = Blink::new(0);
    assert!(!blink.update(0));
    assert!(blink.update(1));
    assert!(blink.update(2));
    assert!(!blink.is_on());
}
