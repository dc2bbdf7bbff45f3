use aphreco::run::SampleSchedule;
use aphreco::sampling::normalize_sample_times;

fn key(x: f64) -> i64 {
    let bits = (x + 0.0).to_bits() as i64;
    if bits < 0 {
        bits ^ i64::MAX
    } else {
        bits
    }
}

#[test]
fn normal_form_is_sorted_distinct_and_not_before_the_start() {
    let r = normalize_sample_times(&vec![5, 1, 3, 3, -2, 1, 9, 0], 1);
    assert_eq!(r, vec![1, 3, 5, 9]);
}

#[test]
fn normal_form_of_nothing_is_empty() {
    assert_eq!(normalize_sample_times(&Vec::new(), 0), Vec::<i64>::new());
    assert_eq!(normalize_sample_times(&vec![-3, -1], 0), Vec::<i64>::new());
}

#[test]
fn normal_form_keeps_the_start_itself() {
    assert_eq!(normalize_sample_times(&vec![0, 0, 0], 0), vec![0]);
}

#[test]
fn float_keys_order_as_the_floats_do() {
    let xs = [-1.0e9, -2.5, -0.0, 0.0, 1.0e-300, 0.1, 0.2, 1.0, 50.0, f64::INFINITY];
    let keys: Vec<i64> = xs.iter().map(|&x| key(x)).collect();
    let r = normalize_sample_times(&keys, i64::MIN);
    assert_eq!(r.len(), xs.len() - 1);
    assert_eq!(r[0], key(-1.0e9));
    assert_eq!(r[r.len() - 1], key(f64::INFINITY));
}

#[test]
fn run_without_samples_ends_at_once_with_one_record() {
    let run = SampleSchedule::begin(&Vec::new(), 7);
    assert!(run.is_finished());
    assert_eq!(run.end_t, 7);
    assert_eq!(run.finish(), vec![7]);
}

#[test]
fn run_with_only_early_samples_has_one_record() {
    let run = SampleSchedule::begin(&vec![1, 2, 3], 10);
    assert!(run.is_finished());
    assert_eq!(run.finish(), vec![10]);
}

#[test]
fn segment_end_is_capped_by_the_end_of_the_run() {
    let mut run = SampleSchedule::begin(&vec![10, 20], 0);
    assert_eq!(run.begin_segment(15), 15);
    assert_eq!(run.begin_segment(20), 20);
    assert_eq!(run.begin_segment(99), 20);
}

#[test]
fn step_hands_out_the_samples_it_has_passed() {
    let mut run = SampleSchedule::begin(&vec![10, 20, 30, 40], 0);
    run.begin_segment(100);
    let out = run.after_step(5);
    assert!(out.due.is_empty());
    assert!(!out.segment_done);
    let out = run.after_step(25);
    assert_eq!(out.due, vec![10, 20]);
    assert!(!out.segment_done);
    // A sample on the step's end is not inside the step.
    let out = run.after_step(30);
    assert!(out.due.is_empty());
    let out = run.after_step(31);
    assert_eq!(out.due, vec![30]);
    assert_eq!(run.emitted, 3);
}

#[test]
fn samples_at_or_after_the_segment_end_wait_for_the_next_segment() {
    let mut run = SampleSchedule::begin(&vec![10, 20, 30], 0);
    run.begin_segment(20);
    let out = run.after_step(25);
    assert_eq!(out.due, vec![10]);
    assert!(out.segment_done);
    assert_eq!(run.cur_t, 20);
    assert!(!run.is_finished());
    run.begin_segment(30);
    let out = run.after_step(21);
    assert_eq!(out.due, vec![20]);
    assert!(!out.segment_done);
    let out = run.after_step(31);
    assert!(out.due.is_empty());
    assert!(out.segment_done);
    assert!(run.is_finished());
    assert_eq!(run.finish(), vec![10, 20, 30]);
}

/// Runs a schedule with fixed steps and event times, and returns the number
/// of records stored and the times of the finished run.
fn drive(smp_t: &Vec<i64>, ini_t: i64, h: i64, events: &Vec<i64>) -> (usize, Vec<i64>) {
    let mut run = SampleSchedule::begin(smp_t, ini_t);
    let mut stored = 0;
    let mut cur_t = ini_t;
    while !run.is_finished() {
        let next = events.iter().copied().filter(|&e| e > cur_t).min().unwrap_or(i64::MAX);
        let seg_end = run.begin_segment(next);
        let mut t = cur_t;
        loop {
            t += h;
            let out = run.after_step(t);
            stored += out.due.len();
            if out.segment_done {
                break;
            }
        }
        cur_t = seg_end;
    }
    stored += 1;
    (stored, run.finish())
}

#[test]
fn record_count_equals_the_number_of_distinct_samples() {
    let smp = vec![50, 10, 10, 30, -5, 20, 50, 40];
    let (stored, times) = drive(&smp, 0, 7, &vec![15, 30, 45]);
    assert_eq!(times, vec![10, 20, 30, 40, 50]);
    assert_eq!(stored, 5);
    let (stored, times) = drive(&smp, 10, 100, &Vec::new());
    assert_eq!(times, vec![10, 20, 30, 40, 50]);
    assert_eq!(stored, 5);
    let (stored, times) = drive(&Vec::new(), 3, 1, &vec![5]);
    assert_eq!(times, vec![3]);
    assert_eq!(stored, 1);
}

#[test]
fn record_times_are_strictly_increasing() {
    let smp: Vec<i64> = (0..200).map(|i| (i * 37) % 101).collect();
    let (stored, times) = drive(&smp, 4, 3, &vec![20, 21, 22, 60]);
    assert_eq!(stored, times.len());
    for w in times.windows(2) {
        assert!(w[0] < w[1]);
    }
    assert_eq!(times[0], 4);
    assert_eq!(times[times.len() - 1], 100);
}

#[test]
fn five_thousand_samples_at_hundredths_give_as_many_records() {
    let smp: Vec<i64> = (0..=5000).map(|i| key(i as f64 / 100.0)).collect();
    let mut run = SampleSchedule::begin(&smp, key(0.0));
    let mut stored = 0;
    let mut t = 0.0f64;
    run.begin_segment(key(50.0));
    loop {
        t += 1.0e-3;
        let out = run.after_step(key(t));
        stored += out.due.len();
        if out.segment_done {
            break;
        }
    }
    assert!(run.is_finished());
    let times = run.finish();
    assert_eq!(times.len(), 5001);
    assert_eq!(stored + 1, 5001);
}
