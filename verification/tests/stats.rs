use fastvlm::stats::{ProcessingStats, MAX_DURATION_NANOS};

#[test]
fn new_stats_are_empty() {
    let stats = ProcessingStats::new();
    assert_eq!(stats.total_images, 0);
    assert_eq!(stats.successful_images, 0);
    assert_eq!(stats.failed_images, 0);
    assert_eq!(stats.total_processing_time, 0);
    assert_eq!(stats.average_processing_time, 0);
    assert_eq!(stats.min_processing_time, MAX_DURATION_NANOS);
    assert_eq!(stats.max_processing_time, 0);
    assert!(stats.individual_times.is_empty());
}

#[test]
fn max_duration_is_what_std_holds() {
    assert_eq!(MAX_DURATION_NANOS, std::time::Duration::MAX.as_nanos());
}

#[test]
fn add_result_records_successes() {
    let mut stats = ProcessingStats::new();
    stats.add_result(300, true);
    stats.add_result(100, true);
    stats.add_result(200, true);
    assert_eq!(stats.total_images, 3);
    assert_eq!(stats.successful_images, 3);
    assert_eq!(stats.failed_images, 0);
    assert_eq!(stats.total_processing_time, 600);
    assert_eq!(stats.min_processing_time, 100);
    assert_eq!(stats.max_processing_time, 300);
    assert_eq!(stats.individual_times, vec![300, 100, 200]);
    assert_eq!(stats.average_processing_time, 0);
}

#[test]
fn add_result_only_counts_failures() {
    let mut stats = ProcessingStats::new();
    stats.add_result(500, false);
    stats.add_result(70, true);
    stats.add_result(900, false);
    assert_eq!(stats.total_images, 3);
    assert_eq!(stats.successful_images, 1);
    assert_eq!(stats.failed_images, 2);
    assert_eq!(stats.total_processing_time, 70);
    assert_eq!(stats.min_processing_time, 70);
    assert_eq!(stats.max_processing_time, 70);
    assert_eq!(stats.individual_times, vec![70]);
}

#[test]
fn finalize_averages_rounding_down() {
    let mut stats = ProcessingStats::new();
    stats.add_result(10, true);
    stats.add_result(11, true);
    stats.add_result(12, false);
    stats.add_result(12, true);
    stats.finalize();
    assert_eq!(stats.average_processing_time, 11);
    let mut uneven = ProcessingStats::new();
    uneven.add_result(1, true);
    uneven.add_result(2, true);
    uneven.finalize();
    assert_eq!(uneven.average_processing_time, 1);
    assert!(uneven.min_processing_time <= uneven.average_processing_time);
    assert!(uneven.average_processing_time <= uneven.max_processing_time);
}

#[test]
fn finalize_matches_duration_division() {
    let times = [
        std::time::Duration::from_millis(1234),
        std::time::Duration::from_micros(987_654),
        std::time::Duration::from_nanos(5),
    ];
    let mut stats = ProcessingStats::new();
    let mut total = std::time::Duration::ZERO;
    for time in times.iter() {
        stats.add_result(time.as_nanos(), true);
        total += *time;
    }
    stats.finalize();
    assert_eq!(stats.total_processing_time, total.as_nanos());
    assert_eq!(stats.average_processing_time, (total / 3).as_nanos());
}

#[test]
fn finalize_without_success_changes_nothing() {
    let mut stats = ProcessingStats::new();
    stats.add_result(40, false);
    stats.finalize();
    assert_eq!(stats.average_processing_time, 0);
    assert_eq!(stats.total_images, 1);
    assert_eq!(stats.failed_images, 1);
    assert_eq!(stats.min_processing_time, MAX_DURATION_NANOS);
}

#[test]
fn edited_statistics_still_add_up_field_by_field() {
    let mut stats = ProcessingStats::new();
    stats.min_processing_time = 5;
    stats.max_processing_time = 50;
    stats.total_processing_time = 1000;
    stats.add_result(7, true);
    assert_eq!(stats.min_processing_time, 5);
    assert_eq!(stats.max_processing_time, 50);
    assert_eq!(stats.total_processing_time, 1007);
    stats.add_result(3, true);
    stats.add_result(60, true);
    assert_eq!(stats.min_processing_time, 3);
    assert_eq!(stats.max_processing_time, 60);
    stats.finalize();
    assert_eq!(stats.average_processing_time, 1070 / 3);
}
