use rust_interpolation::{monointerp, InterpError};

#[test]
fn test_interp_simple() {
    let xp = vec![0., 1., 2., 3.];
    let fp = vec![4., 3., 2., 1.];
    let query = vec![1., 2.];
    let expected_output = vec![3., 2.];
    let output = monointerp(&query, &xp, &fp).unwrap();
    assert_eq!(expected_output, output);
}

#[test]
fn test_interp_harder() {
    let xp = vec![1., 2., 3.];
    let fp = vec![3., 2., 0.];
    let query = vec![1., 1.5, 2.72, 3.];
    let expected_output = vec![3., 2.5, 0.56, 0.];
    let output = monointerp(&query, &xp, &fp).unwrap();
    for (o, e) in output.iter().zip(expected_output.iter()) {
        let diff: f64 = o - e;
        assert!(diff.abs() < 0.00001);
    }
}

#[test]
fn columns_of_different_lengths_are_a_length_mismatch() {
    let x = vec![0, 1, 2];
    let y = vec![0, 1];
    let query = vec![1];
    assert_eq!(
        monointerp(&query, &x, &y),
        Err(InterpError::LengthMismatch { x_len: 3, y_len: 2 })
    );
}

#[test]
fn a_length_mismatch_comes_whatever_the_query_holds() {
    let x = vec![0., 1., 2.];
    let y = vec![0., 1., 2., 3.];
    let expected = Err(InterpError::LengthMismatch { x_len: 3, y_len: 4 });
    assert_eq!(monointerp(&[], &x, &y), expected);
    assert_eq!(monointerp(&[-5.], &x, &y), expected);
    assert_eq!(monointerp(&[99.], &x, &y), expected);
    assert_eq!(monointerp(&[1., 0.5, 7.], &x, &y), expected);
    let none: Vec<f64> = Vec::new();
    assert_eq!(
        monointerp(&[1.], &none, &y),
        Err(InterpError::LengthMismatch { x_len: 0, y_len: 4 })
    );
}

#[test]
fn a_first_point_below_the_table_is_below_range() {
    let x = vec![0, 1, 2];
    let y = vec![0, 1, 2];
    let query = vec![-1];
    assert_eq!(
        monointerp(&query, &x, &y),
        Err(InterpError::BelowRange { query: -1, bound: 0 })
    );
}

#[test]
fn an_ascending_query_that_dips_below_the_table_is_below_range() {
    let x = vec![10., 20., 30.];
    let y = vec![1., 2., 3.];
    assert_eq!(
        monointerp(&[9.5, 15., 25.], &x, &y),
        Err(InterpError::BelowRange { query: 9.5, bound: 10. })
    );
    assert_eq!(
        monointerp(&[-3., 50.], &x, &y),
        Err(InterpError::BelowRange { query: -3., bound: 10. })
    );
}

#[test]
fn a_first_point_above_the_table_is_above_range() {
    let x = vec![0., 1., 2.];
    let y = vec![0., 10., 20.];
    assert_eq!(
        monointerp(&[2.5], &x, &y),
        Err(InterpError::AboveRange { query: 2.5, bound: 2. })
    );
}

#[test]
fn a_first_point_on_the_last_reference_point_is_above_range() {
    let x = vec![0., 1., 2.];
    let y = vec![0., 10., 20.];
    assert_eq!(
        monointerp(&[2.], &x, &y),
        Err(InterpError::AboveRange { query: 2., bound: 2. })
    );
}

#[test]
fn a_later_point_above_the_table_is_above_range_and_is_named() {
    let x = vec![0., 1., 2.];
    let y = vec![0., 10., 20.];
    assert_eq!(
        monointerp(&[0.5, 1.5, 2.5, 3.5], &x, &y),
        Err(InterpError::AboveRange { query: 2.5, bound: 2. })
    );
    assert_eq!(
        monointerp(&[0., 7.], &x, &y),
        Err(InterpError::AboveRange { query: 7., bound: 2. })
    );
}

#[test]
fn a_table_of_one_point_has_no_interval() {
    let x = vec![4];
    let y = vec![9];
    assert_eq!(
        monointerp(&[4], &x, &y),
        Err(InterpError::AboveRange { query: 4, bound: 4 })
    );
    assert_eq!(
        monointerp(&[5], &x, &y),
        Err(InterpError::AboveRange { query: 5, bound: 4 })
    );
    assert_eq!(
        monointerp(&[3], &x, &y),
        Err(InterpError::BelowRange { query: 3, bound: 4 })
    );
}

#[test]
fn a_later_point_on_the_last_reference_point_gets_the_last_value() {
    let x = vec![0., 1., 2.];
    let y = vec![0., 10., 20.];
    assert_eq!(monointerp(&[1.5, 2.], &x, &y), Ok(vec![15., 20.]));
}

#[test]
fn every_reference_point_but_the_last_gives_back_its_value() {
    let x = vec![-2., 0., 0.5, 3., 10.];
    let y = vec![7., -1., 4., 4., 100.];
    for i in 0..x.len() - 1 {
        assert_eq!(monointerp(&[x[i]], &x, &y), Ok(vec![y[i]]));
    }
    let xi = vec![-20, -3, 0, 4, 9];
    let yi = vec![5, 50, -7, 0, 1];
    for i in 0..xi.len() - 1 {
        assert_eq!(monointerp(&[xi[i]], &xi, &yi), Ok(vec![yi[i]]));
    }
}

#[test]
fn a_repeated_reference_point_gives_back_the_value_at_its_last_occurrence() {
    let x = vec![0, 1, 1, 2];
    let y = vec![0, 1, 5, 2];
    assert_eq!(monointerp(&[1], &x, &y), Ok(vec![5]));
}

#[test]
fn the_result_has_one_value_per_query_point() {
    let x = vec![0., 1., 2., 3.];
    let y = vec![4., 3., 2., 1.];
    for n in 1..8 {
        let query: Vec<f64> = (0..n).map(|k| 0.25 * k as f64).collect();
        let output = monointerp(&query, &x, &y).unwrap();
        assert_eq!(output.len(), query.len());
    }
}

#[test]
fn a_value_is_blended_from_the_two_ends_of_its_interval() {
    let x = vec![0., 2.];
    let y = vec![10., 20.];
    assert_eq!(monointerp(&[0.5], &x, &y), Ok(vec![12.5]));
    assert_eq!(monointerp(&[0., 1., 1.5, 2.], &x, &y), Ok(vec![10., 15., 17.5, 20.]));
    let falling = vec![8., -8.];
    assert_eq!(monointerp(&[0.25, 1.75], &x, &falling), Ok(vec![6., -6.]));
}

#[test]
fn the_walk_crosses_several_intervals_for_one_query_point() {
    let x = vec![0., 1., 2., 3., 4., 5.];
    let y = vec![0., 1., 4., 9., 16., 25.];
    assert_eq!(monointerp(&[0.5, 4.5], &x, &y), Ok(vec![0.5, 20.5]));
    assert_eq!(monointerp(&[0., 0., 3.5, 3.5, 5.], &x, &y), Ok(vec![0., 0., 12.5, 12.5, 25.]));
}

#[test]
fn an_integer_weight_is_zero_until_the_right_end() {
    let x = vec![0, 10, 20];
    let y = vec![0, 100, 200];
    assert_eq!(monointerp(&[5, 10, 15, 20], &x, &y), Ok(vec![0, 100, 100, 200]));
}

#[test]
fn a_point_on_an_inner_reference_point_is_served_from_where_the_walk_stands() {
    // As the first point, 1 opens the interval that starts at it; as a later
    // point, it closes the interval that ends at it.
    let x = vec![0, 1, 2];
    let y = vec![0, 10, 20];
    assert_eq!(monointerp(&[1], &x, &y), Ok(vec![10]));
    assert_eq!(monointerp(&[0, 1], &x, &y), Ok(vec![0, 10]));
    let xf = vec![0., 1., 2.];
    let yf = vec![0., 10., 20.];
    assert_eq!(monointerp(&[0.5, 1.], &xf, &yf), Ok(vec![5., 10.]));
}

#[test]
fn the_walk_does_not_move_back_for_a_query_out_of_order() {
    let x = vec![0., 1., 2., 3.];
    let y = vec![0., 1., 2., 3.];
    // The second point is served in the interval from 2 to 3, where the
    // first one left the walk, and so lies on that line extended to the left.
    assert_eq!(monointerp(&[2.5, 0.5], &x, &y), Ok(vec![2.5, 0.5]));
    let bent = vec![0., 10., 0., 30.];
    assert_eq!(monointerp(&[2.5, 0.5], &x, &bent), Ok(vec![15., -45.]));
}

#[test]
fn an_error_can_be_cloned_and_compared() {
    let e: InterpError<i32> = InterpError::AboveRange { query: 3, bound: 2 };
    assert_eq!(e.clone(), e);
    assert_ne!(e, InterpError::BelowRange { query: 3, bound: 2 });
    assert_ne!(e, InterpError::AboveRange { query: 4, bound: 2 });
    assert!(format!("{:?}", e).contains("AboveRange"));
}

#[test]
fn a_repeated_reference_point_never_divides_by_no_width() {
    let x = vec![0., 1., 1., 2.];
    let y = vec![0., 1., 5., 2.];
    let output = monointerp(&[0.5, 1., 1.5], &x, &y).unwrap();
    assert_eq!(output, vec![0.5, 1., 3.5]);
    assert!(output.iter().all(|v: &f64| v.is_finite()));
    let flat = vec![3, 3, 3, 4];
    let steps = vec![1, 2, 3, 4];
    assert_eq!(monointerp(&[3, 3, 4], &flat, &steps), Ok(vec![3, 3, 4]));
}

#[test]
fn single_precision_samples_are_blended_alike() {
    let x: Vec<f32> = vec![0., 4., 8.];
    let y: Vec<f32> = vec![1., 3., -5.];
    assert_eq!(monointerp(&[1., 2., 6., 8.], &x, &y), Ok(vec![1.5, 2., -1., -5.]));
}

#[test]
fn an_integer_value_is_the_left_value_until_the_right_end() {
    let x: Vec<i64> = vec![-10, -4, 0, 7, 30];
    let y: Vec<i64> = vec![100, -100, 8, 9, 10];
    let query: Vec<i64> = vec![-10, -9, -5, -4, -1, 0, 6, 7, 29, 30];
    let expected: Vec<i64> = vec![100, 100, 100, -100, -100, 8, 8, 9, 9, 10];
    assert_eq!(monointerp(&query, &x, &y), Ok(expected));
}

#[test]
fn unsigned_samples_rise_with_the_table() {
    let x: Vec<u8> = vec![0, 100, 200, 255];
    let y: Vec<u8> = vec![0, 10, 20, 255];
    assert_eq!(monointerp(&[0, 99, 100, 254, 255], &x, &y), Ok(vec![0, 0, 10, 20, 255]));
}
