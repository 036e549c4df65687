use monte_carlo::barriers::{
    calculate_hit_statistics, check_barriers, check_stop_loss, check_target, BarrierEvent, Ratio,
};

/// Order key of a price: ordered as the prices are.
fn key(x: f64) -> i64 {
    let x = if x == 0.0 { 0.0 } else { x };
    let bits = x.to_bits() as i64;
    if bits >= 0 {
        bits
    } else {
        bits ^ i64::MAX
    }
}

fn keys(xs: &[f64]) -> Vec<i64> {
    xs.iter().map(|&x| key(x)).collect()
}

fn value(r: Ratio) -> f64 {
    r.numerator as f64 / r.denominator as f64
}

#[test]
fn test_stop_loss_hit() {
    let path = keys(&[100.0, 95.0, 90.0, 85.0, 80.0]);
    let event = check_stop_loss(&path, key(92.0));

    assert!(event.hit);
    assert_eq!(event.time_step, Some(1));
    assert_eq!(event.price_at_hit, Some(key(95.0)));
}

#[test]
fn test_stop_loss_not_hit() {
    let path = keys(&[100.0, 105.0, 110.0, 115.0, 120.0]);
    let event = check_stop_loss(&path, key(95.0));

    assert!(!event.hit);
    assert_eq!(event.time_step, None);
    assert_eq!(event.price_at_hit, None);
}

#[test]
fn test_target_hit() {
    let path = keys(&[100.0, 105.0, 110.0, 115.0, 120.0]);
    let event = check_target(&path, key(112.0));

    assert!(event.hit);
    assert_eq!(event.time_step, Some(3));
    assert_eq!(event.price_at_hit, Some(key(115.0)));
}

#[test]
fn test_both_barriers() {
    let path = keys(&[100.0, 95.0, 105.0, 110.0, 115.0]);
    let (sl_event, target_event) = check_barriers(&path, Some(key(97.0)), Some(key(108.0)));

    assert!(sl_event.is_some());
    assert!(sl_event.as_ref().unwrap().hit);
    assert_eq!(sl_event.as_ref().unwrap().time_step, Some(1));

    assert!(target_event.is_some());
    assert!(target_event.as_ref().unwrap().hit);
    assert_eq!(target_event.as_ref().unwrap().time_step, Some(3));
}

#[test]
fn test_hit_statistics() {
    let paths = vec![
        keys(&[100.0, 95.0, 90.0, 85.0]),
        keys(&[100.0, 105.0, 110.0, 115.0]),
        keys(&[100.0, 102.0, 104.0, 106.0]),
    ];

    let (prob_sl, prob_target, avg_sl_time, avg_target_time) =
        calculate_hit_statistics(&paths, Some(key(97.0)), Some(key(112.0)));

    assert_eq!(value(prob_sl), 1.0 / 3.0);
    assert_eq!(value(prob_target), 1.0 / 3.0);
    assert_eq!(avg_sl_time.map(value), Some(1.0));
    assert_eq!(avg_target_time.map(value), Some(3.0));
}

#[test]
fn stop_loss_at_exact_level_hits() {
    let path = keys(&[100.0, 92.0, 80.0]);
    let event = check_stop_loss(&path, key(92.0));
    assert_eq!(event, BarrierEvent::hit_at(1, key(92.0)));
}

#[test]
fn target_at_start_hits_at_step_zero() {
    let path = keys(&[120.0, 90.0]);
    assert_eq!(check_target(&path, key(110.0)), BarrierEvent::hit_at(0, key(120.0)));
}

#[test]
fn empty_path_hits_nothing() {
    let path: Vec<i64> = Vec::new();
    assert_eq!(check_stop_loss(&path, key(1.0)), BarrierEvent::not_hit());
    assert_eq!(check_target(&path, key(1.0)), BarrierEvent::not_hit());
}

#[test]
fn negative_prices_keep_their_order() {
    let path = keys(&[-1.0, -3.0, -2.5]);
    let event = check_stop_loss(&path, key(-2.0));
    assert_eq!(event.time_step, Some(1));
    assert_eq!(event.price_at_hit, Some(key(-3.0)));
}

#[test]
fn unset_or_missed_barriers_give_no_event() {
    let path = keys(&[100.0, 101.0, 99.0]);
    assert_eq!(check_barriers(&path, None, None), (None, None));
    assert_eq!(check_barriers(&path, Some(key(50.0)), Some(key(200.0))), (None, None));
}

#[test]
fn hit_statistics_of_no_paths_are_zero() {
    let paths: Vec<Vec<i64>> = Vec::new();
    let (prob_sl, prob_target, avg_sl, avg_target) =
        calculate_hit_statistics(&paths, Some(key(1.0)), Some(key(2.0)));
    assert_eq!(value(prob_sl), 0.0);
    assert_eq!(value(prob_target), 0.0);
    assert_eq!(avg_sl, None);
    assert_eq!(avg_target, None);
}

#[test]
fn hit_statistics_without_barriers() {
    let paths = vec![keys(&[1.0, 2.0]), keys(&[3.0])];
    let (prob_sl, prob_target, avg_sl, avg_target) = calculate_hit_statistics(&paths, None, None);
    assert_eq!(prob_sl, Ratio { numerator: 0, denominator: 2 });
    assert_eq!(prob_target, Ratio { numerator: 0, denominator: 2 });
    assert_eq!(avg_sl, None);
    assert_eq!(avg_target, None);
}

#[test]
fn hit_statistics_average_several_hit_times() {
    let paths = vec![
        keys(&[100.0, 90.0]),
        keys(&[100.0, 99.0, 98.0, 80.0]),
        keys(&[80.0]),
        keys(&[100.0]),
    ];
    let (prob_sl, _, avg_sl, _) = calculate_hit_statistics(&paths, Some(key(95.0)), None);
    // Hit steps: 1, 3, 0.
    assert_eq!(prob_sl, Ratio { numerator: 3, denominator: 4 });
    assert_eq!(avg_sl, Some(Ratio { numerator: 4, denominator: 3 }));
}

#[test]
fn raising_the_stop_loss_never_delays_the_hit() {
    let path = keys(&[100.0, 97.0, 94.0, 90.0]);
    let low = check_stop_loss(&path, key(91.0));
    let high = check_stop_loss(&path, key(95.0));
    assert_eq!(low.time_step, Some(3));
    assert_eq!(high.time_step, Some(2));
    assert!(high.time_step <= low.time_step);
}

#[test]
fn stop_loss_dip_without_reaching_the_level_is_no_hit() {
    let path = keys(&[100.0, 95.0, 99.0, 93.0]);
    assert_eq!(check_stop_loss(&path, key(92.0)), BarrierEvent::not_hit());
}

#[test]
fn stop_loss_hit_is_the_first_price_at_or_below_the_stop() {
    let path = keys(&[100.0, 99.0, 50.0]);
    assert_eq!(check_stop_loss(&path, key(60.0)), BarrierEvent::hit_at(2, key(50.0)));
    let path = keys(&[100.0, 104.0, 98.0, 101.0, 91.0]);
    assert_eq!(check_stop_loss(&path, key(92.0)), BarrierEvent::hit_at(4, key(91.0)));
    let (sl, _) = check_barriers(&path, Some(key(92.0)), None);
    assert_eq!(sl, Some(BarrierEvent::hit_at(4, key(91.0))));
}

#[test]
fn documented_example_is_dated_in_every_view() {
    let path = keys(&[100.0, 95.0, 90.0, 85.0, 80.0]);
    let (sl, _) = check_barriers(&path, Some(key(92.0)), None);
    assert_eq!(sl, Some(BarrierEvent::hit_at(1, key(95.0))));
    let (_, _, avg, _) = calculate_hit_statistics(&[path.clone()], Some(key(92.0)), None);
    assert_eq!(avg, Some(Ratio { numerator: 1, denominator: 1 }));
    // A different stop on the same path is dated at its first crossing.
    assert_eq!(check_stop_loss(&path, key(91.0)), BarrierEvent::hit_at(2, key(90.0)));
}

#[test]
fn target_ignores_dips_below_the_start() {
    let path = keys(&[100.0, 90.0, 120.0]);
    assert_eq!(check_target(&path, key(110.0)), BarrierEvent::hit_at(2, key(120.0)));
}

#[test]
fn nearer_barriers_are_hit_on_at_least_as_many_paths() {
    let paths = vec![keys(&[100.0, 96.0]), keys(&[100.0, 93.0]), keys(&[100.0, 99.0])];
    let (far, _, _, _) = calculate_hit_statistics(&paths, Some(key(94.0)), None);
    let (near, _, _, _) = calculate_hit_statistics(&paths, Some(key(97.0)), None);
    assert_eq!(far.numerator, 1);
    assert_eq!(near.numerator, 2);
    assert!(far.numerator <= near.numerator);
    assert!(near.numerator <= near.denominator);
}
