use nnawaw::dataset::{dataset_from_rows, detect_delimiter, LoadError, COMMA, SEMICOLON};

fn row(vals: &[Option<f64>]) -> Vec<Option<f64>> {
    vals.to_vec()
}

#[test]
fn semicolon_in_first_line_selects_semicolon() {
    assert_eq!(detect_delimiter("a;b;label"), SEMICOLON);
    assert_eq!(detect_delimiter("a,b;label"), SEMICOLON);
    assert_eq!(SEMICOLON, b';');
}

#[test]
fn first_line_without_semicolon_selects_comma() {
    assert_eq!(detect_delimiter("a,b,label"), COMMA);
    assert_eq!(detect_delimiter(""), COMMA);
    assert_eq!(COMMA, b',');
}

#[test]
fn valid_rows_give_matching_shapes() {
    let rows = vec![
        row(&[Some(1.0), Some(2.0), Some(0.0)]),
        row(&[Some(3.0), Some(4.0), Some(1.0)]),
        row(&[Some(5.0), Some(6.0), Some(1.0)]),
    ];
    let d = dataset_from_rows(&rows).unwrap();
    assert_eq!(d.features.len(), 3);
    assert_eq!(d.labels.len(), 3);
    assert_eq!(d.n_samples(), 3);
    assert!(d.features.iter().all(|f| f.len() == 2));
    assert_eq!(d.features[1], vec![3.0, 4.0]);
    assert_eq!(d.labels, vec![0.0, 1.0, 1.0]);
}

#[test]
fn row_with_non_numeric_field_is_dropped() {
    let rows = vec![
        row(&[Some(1.0), Some(2.0), Some(0.0)]),
        row(&[Some(3.0), None, Some(1.0)]),
        row(&[Some(5.0), Some(6.0), Some(1.0)]),
        row(&[Some(7.0), Some(8.0), Some(0.0)]),
    ];
    let d = dataset_from_rows(&rows).unwrap();
    assert_eq!(d.labels.len(), rows.len() - 1);
    assert_eq!(d.features, vec![vec![1.0, 2.0], vec![5.0, 6.0], vec![7.0, 8.0]]);
    assert_eq!(d.labels, vec![0.0, 1.0, 0.0]);
}

#[test]
fn dropping_keeps_order_and_is_repeatable() {
    let rows = vec![
        row(&[None, Some(9.0)]),
        row(&[Some(1.0), Some(1.0)]),
        row(&[Some(2.0), None]),
        row(&[Some(3.0), Some(0.0)]),
        row(&[]),
    ];
    let a = dataset_from_rows(&rows).unwrap();
    let b = dataset_from_rows(&rows).unwrap();
    assert_eq!(a.features, vec![vec![1.0], vec![3.0]]);
    assert_eq!(a.labels, vec![1.0, 0.0]);
    assert_eq!(a.features, b.features);
    assert_eq!(a.labels, b.labels);
}

#[test]
fn label_only_rows_have_no_features() {
    let rows = vec![row(&[Some(1.0)]), row(&[Some(0.0)])];
    let d = dataset_from_rows(&rows).unwrap();
    assert_eq!(d.features, vec![Vec::<f64>::new(), Vec::new()]);
    assert_eq!(d.labels, vec![1.0, 0.0]);
}

#[test]
fn no_surviving_row_is_empty_dataset() {
    let none: Vec<Vec<Option<f64>>> = Vec::new();
    assert_eq!(dataset_from_rows(&none).err(), Some(LoadError::EmptyDataset));
    let bad = vec![row(&[None, Some(1.0)]), row(&[])];
    assert_eq!(dataset_from_rows(&bad).err(), Some(LoadError::EmptyDataset));
}

#[test]
fn differing_widths_are_inconsistent_shape() {
    let rows = vec![
        row(&[Some(1.0), Some(2.0), Some(0.0)]),
        row(&[Some(3.0), Some(1.0)]),
    ];
    assert_eq!(dataset_from_rows(&rows).err(), Some(LoadError::InconsistentShape));
}

#[test]
fn width_is_taken_from_first_surviving_row() {
    let rows = vec![
        row(&[Some(1.0), None, Some(0.0)]),
        row(&[Some(3.0), Some(1.0)]),
        row(&[Some(4.0), Some(0.0)]),
    ];
    let d = dataset_from_rows(&rows).unwrap();
    assert_eq!(d.features, vec![vec![3.0], vec![4.0]]);
}
