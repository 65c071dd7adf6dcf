use eagle_eye::dao::Dao;
use eagle_eye::epoch::EpochAccountant;
use eagle_eye::error::Error;
use eagle_eye::maturity::{MaturityBuffer, MATURITY};

fn snap(h: u64) -> Dao {
    Dao { total: h, rate: 0, secondary: 0, occupied: 0 }
}

#[test]
fn maturity_buffer_delays_by_eleven() {
    assert_eq!(MATURITY, 11);
    let mut buf = MaturityBuffer::new();
    for h in 0..=20u64 {
        let out = buf.push_and_maybe_mature(snap(h));
        if h < 11 {
            assert_eq!(out, None);
            assert_eq!(buf.len(), (h + 1) as usize);
        } else {
            assert_eq!(out, Some(snap(h - 11)));
            assert_eq!(buf.len(), 11);
        }
    }
}

#[test]
fn first_epoch_sets_baseline_with_burn() {
    let mut e = EpochAccountant::new();
    e.accumulate(1900, 960).unwrap();
    e.on_epoch_boundary(0, 100).unwrap();
    assert_eq!(e.epoch_primary_expected, 2000);
    assert_eq!(e.epoch_secondary_expected, 960);
    assert_eq!(e.epoch_primary, 0);
    assert_eq!(e.epoch_secondary, 0);
}

#[test]
fn later_epoch_must_match_baseline() {
    let mut e = EpochAccountant::new();
    e.accumulate(1900, 960).unwrap();
    e.on_epoch_boundary(0, 100).unwrap();
    e.accumulate(2000, 960).unwrap();
    assert_eq!(e.on_epoch_boundary(1, 100), Ok(()));
    e.accumulate(2000, 961).unwrap();
    assert_eq!(e.on_epoch_boundary(2, 100), Err(Error::EpochAccountingMismatch { epoch: 2 }));
    let mut e2 = EpochAccountant::new();
    e2.accumulate(1900, 960).unwrap();
    e2.on_epoch_boundary(0, 100).unwrap();
    e2.accumulate(2001, 960).unwrap();
    assert_eq!(e2.on_epoch_boundary(1, 100), Err(Error::EpochAccountingMismatch { epoch: 1 }));
}

#[test]
fn epoch_accumulate_overflow() {
    let mut e = EpochAccountant::new();
    e.accumulate(u64::MAX, 0).unwrap();
    assert_eq!(e.accumulate(1, 0), Err(Error::ValueOutOfRange));
    assert_eq!(e.epoch_primary, u64::MAX);
    let mut e = EpochAccountant::new();
    e.accumulate(5, 0).unwrap();
    assert_eq!(e.on_epoch_boundary(0, u64::MAX), Err(Error::ValueOutOfRange));
}
