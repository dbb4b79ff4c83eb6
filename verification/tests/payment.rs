use track_work::money::Money;
use track_work::money::MoneyExact;
use track_work::money::Payment;
use track_work::money::UNITS_PER_PENCE;

/// The value of an exact amount in pence, as a float.
fn pence(m: MoneyExact) -> f64 {
    m.as_units() as f64 / UNITS_PER_PENCE as f64
}

fn almost_equal(a: f64, b: f64) -> bool {
    (a - b).abs() <= 0.0001
}

#[test]
fn money_format() {
    let tests = [
        (Money::new(23), "£0.23"),
        (Money::new(0), "£0.00"),
        (Money::new(1), "£0.01"),
        (Money::new(100), "£1.00"),
        (Money::new(145), "£1.45"),
        (Money::new(123456), "£1234.56"),
    ];
    for (test, output) in tests {
        assert_eq!(test.display_string(), output);
    }
}

#[test]
fn payment_money_format() {
    let tests = [
        (Money::new(23), "£0.23"),
        (Money::new(0), "£0.00"),
        (Money::new(1), "£0.01"),
        (Money::new(100), "£1.00"),
        (Money::new(145), "£1.45"),
        (Money::new(123456), "£1234.56"),
    ];
    for (test, output) in tests {
        assert_eq!(test.display_string(), output);
    }
}

#[test]
fn fixed_payment() {
    // Durations as (seconds, nanoseconds), as the adapters hand them
    // over; only whole milliseconds reach the library.
    let tests = [
        (Payment::Fixed(Money::new(8000)), (10i64, 23i64), 8000.0),
        (Payment::Fixed(Money::new(4500)), (15, 28), 4500.0),
        (Payment::Fixed(Money::new(23)), (13, 23), 23.0),
        (Payment::Fixed(Money::new(45)), (118, 23), 45.0),
        (Payment::Fixed(Money::new(0)), (12, 23), 0.0),
        (Payment::Fixed(Money::new(1)), (1121, 23), 1.0),
        (Payment::Fixed(Money::new(100)), (15, 23), 100.0),
        (Payment::Fixed(Money::new(245)), (16, 23), 245.0),
        (Payment::Fixed(Money::new(4563)), (3273, 393), 4563.0),
    ];
    for (test, (secs, nanos), output) in tests {
        let ms = (secs * 1000 + nanos / 1_000_000) as u64;
        assert_eq!(pence(test.calculate(ms)), output);
    }
}

#[test]
fn hourly_payment() {
    let tests = [(3600u32, 2.0f64, 7200.0f64), (1250, 5.5, 6875.0), (1250, 5.25, 6562.50)];
    for (hourly, duration, total) in tests {
        let secs = (duration * 60.0 * 60.0).floor() as u64;
        let ms = secs * 1000;
        assert_eq!(pence(Payment::Hourly(Money::new(hourly)).calculate(ms)), total);
    }
}

#[test]
fn fixed_payment_ignores_duration() {
    let p = Payment::Fixed(Money::new(8000));
    let a = p.calculate(0);
    let b = p.calculate(123_456_789);
    assert_eq!(a.as_units(), b.as_units());
    assert_eq!(pence(a), 8000.0);
}

#[test]
fn hourly_payment_formula() {
    // rate * seconds / 3600, continuous accrual: 800 pence/hour over
    // 5 seconds is about 1.11 pence.
    let p = Payment::Hourly(Money::new(800));
    let amount = p.calculate(5_000);
    assert_eq!(amount.as_units(), 800 * 5_000);
    assert!(almost_equal(pence(amount), 800.0 * 5.0 / 3600.0));
}

#[test]
fn money_exact_new_rejects_negative() {
    assert!(MoneyExact::new(-1).is_none());
    let m = MoneyExact::new(42).unwrap();
    assert_eq!(m.as_units(), 42);
    assert_eq!(MoneyExact::new(0).unwrap().as_units(), 0);
}

#[test]
fn money_addition() {
    let a = Money::new(150);
    let b = Money::new(75);
    assert_eq!(a.plus(b).as_pence(), 225);
    let ea = MoneyExact::from(a);
    assert_eq!(ea.as_units(), 150 * UNITS_PER_PENCE);
    assert_eq!(ea.plus(MoneyExact::from(b)).as_units(), 225 * UNITS_PER_PENCE);
    assert_eq!(ea.plus_money(b).as_units(), 225 * UNITS_PER_PENCE);
    assert_eq!(ea.whole_pence(), 150);
}
