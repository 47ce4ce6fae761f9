use dds_workbench::attributes::standard_information::FileTime;
use dds_workbench::recovery::timestamps::{
    datetime_to_filetime, NtfsTimestamps, TimestampError, EPOCH_DIFFERENCE_SECONDS,
};
use dds_workbench::time::UtcTime;

fn at(secs: i64) -> UtcTime {
    UtcTime::from_timestamp(secs, 0).unwrap()
}

#[test]
fn ntfs_timestamps_struct_holds_three_dates() {
    let c = at(1_704_067_200); // 2024-01-01T00:00:00Z
    let m = at(1_718_454_896); // 2024-06-15T12:34:56Z
    let a = at(1_735_689_599); // 2024-12-31T23:59:59Z
    let ts = NtfsTimestamps {
        created: c,
        modified: m,
        accessed: a,
    };
    assert_eq!(ts.created, c);
    assert_eq!(ts.modified, m);
    assert_eq!(ts.accessed, a);
    let _ts2 = ts;
    assert_eq!(ts.modified, m);
}

#[test]
fn datetime_to_filetime_roundtrip() {
    let dt = at(1_710_498_600); // 2024-03-15T10:30:00Z
    let ft = datetime_to_filetime(dt).unwrap();
    let filetime_u64 = ((ft.high_date_time as u64) << 32) | (ft.low_date_time as u64);
    let windows_seconds = (filetime_u64 / 10_000_000) as i64;
    let unix_secs = windows_seconds - EPOCH_DIFFERENCE_SECONDS;
    assert_eq!(unix_secs, dt.timestamp());
}

#[test]
fn filetime_of_unix_epoch_is_the_epoch_difference() {
    let ft = datetime_to_filetime(at(0)).unwrap();
    let ticks = ((ft.high_date_time as u64) << 32) | (ft.low_date_time as u64);
    assert_eq!(ticks, 116_444_736_000_000_000);
}

#[test]
fn filetime_keeps_whole_hundred_nanosecond_ticks() {
    let dt = UtcTime::from_timestamp(0, 1_234_567).unwrap();
    let ft = datetime_to_filetime(dt).unwrap();
    let ticks = ((ft.high_date_time as u64) << 32) | (ft.low_date_time as u64);
    assert_eq!(ticks, 116_444_736_000_000_000 + 12_345);
    let back = FileTime(ticks).to_datetime().unwrap();
    assert_eq!(back.timestamp(), 0);
    assert_eq!(back.timestamp_subsec_nanos(), 1_234_500);
}

#[test]
fn filetime_before_1601_is_a_conversion_error() {
    let dt = at(-11_644_473_601);
    match datetime_to_filetime(dt) {
        Err(TimestampError::TimeConversion(m)) => {
            assert_eq!(m, "FILETIME は 1601 年より前の時刻を表現できません")
        }
        other => panic!("expected TimeConversion, got {:?}", other),
    }
}

#[test]
fn filetime_far_future_overflows_ticks() {
    // Year 262000 or so: chrono accepts it, but the 100 ns ticks leave i64.
    let dt = at(8_000_000_000_000);
    match datetime_to_filetime(dt) {
        Err(TimestampError::TimeConversion(m)) => {
            assert_eq!(m, "FILETIME 換算オーバーフロー (100ns)")
        }
        other => panic!("expected TimeConversion, got {:?}", other),
    }
}
