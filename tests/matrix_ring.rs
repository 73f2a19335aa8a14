use pw_scope::matrix::Matrix;
use pw_scope::ring::MatrixFixed;

fn ramp(start: i32, n: i32) -> Vec<i32> {
    (start..start + n).collect()
}

fn row_of(m: &MatrixFixed<i32>, c: usize) -> Vec<i32> {
    m.data()[c].iter().copied().collect()
}

#[test]
fn ring_starts_filled_with_default() {
    let m: MatrixFixed<f32> = MatrixFixed::new(500, 2);
    assert_eq!(m.len(), 500);
    assert_eq!(m.channel(), 2);
    assert_eq!(m.data().len(), 2);
    for row in m.data() {
        assert_eq!(row.len(), 500);
        assert!(row.iter().all(|x| *x == 0.0));
    }
}

#[test]
fn ring_lengths_stay_fixed_over_appends() {
    let mut m: MatrixFixed<i32> = MatrixFixed::new(7, 3);
    for k in 0..10 {
        let batch = Matrix::init(vec![ramp(0, k), ramp(100, k), ramp(200, k)]);
        m.append(batch);
        for row in m.data() {
            assert_eq!(row.len(), 7);
        }
    }
}

#[test]
fn ring_evicts_oldest_first() {
    let mut m = MatrixFixed::new_filled(5, 1, 0);
    m.append(Matrix::init(vec![vec![1, 2, 3, 4, 5]]));
    assert_eq!(row_of(&m, 0), vec![1, 2, 3, 4, 5]);
    m.append(Matrix::init(vec![vec![6, 7]]));
    assert_eq!(row_of(&m, 0), vec![3, 4, 5, 6, 7]);
}

#[test]
fn ring_append_longer_than_capacity_keeps_latest() {
    let mut m = MatrixFixed::new_filled(3, 2, -1);
    m.append(Matrix::init(vec![ramp(0, 8), ramp(10, 8)]));
    assert_eq!(row_of(&m, 0), vec![5, 6, 7]);
    assert_eq!(row_of(&m, 1), vec![15, 16, 17]);
}

#[test]
fn ring_append_empty_batch_changes_nothing() {
    let mut m = MatrixFixed::new_filled(3, 2, 9);
    m.append(Matrix::init(vec![vec![], vec![]]));
    assert_eq!(row_of(&m, 0), vec![9, 9, 9]);
    assert_eq!(row_of(&m, 1), vec![9, 9, 9]);
}

#[test]
fn ring_of_zero_length_stays_empty() {
    let mut m = MatrixFixed::new_filled(0, 1, 0);
    m.append(Matrix::init(vec![vec![1, 2]]));
    assert_eq!(m.data()[0].len(), 0);
}

#[test]
fn chunks_drop_partial_tail() {
    let m = Matrix::init(vec![ramp(0, 95), ramp(1000, 95)]);
    let chunks = m.chunks(80);
    assert_eq!(chunks.len(), 1);
    assert_eq!(chunks[0].channel(), 2);
    assert_eq!(chunks[0].data()[0], ramp(0, 80));
    assert_eq!(chunks[0].data()[1], ramp(1000, 80));
}

#[test]
fn chunks_reassemble_to_prefix() {
    let m = Matrix::init(vec![ramp(0, 23), ramp(50, 23)]);
    let chunks = m.chunks(5);
    assert_eq!(chunks.len(), 4);
    for c in 0..2 {
        let mut joined = vec![];
        for ch in &chunks {
            assert_eq!(ch.frames(), 5);
            joined.extend_from_slice(&ch.data()[c]);
        }
        assert_eq!(joined, m.data()[c][..20].to_vec());
    }
}

#[test]
fn chunks_of_exact_multiple() {
    let m = Matrix::init(vec![ramp(0, 160)]);
    let chunks = m.chunks(80);
    assert_eq!(chunks.len(), 2);
    assert_eq!(chunks[1].data()[0], ramp(80, 80));
}

#[test]
fn chunks_of_short_or_empty_batch() {
    assert_eq!(Matrix::init(vec![ramp(0, 79)]).chunks(80).len(), 0);
    assert_eq!(Matrix::<i32>::init(vec![]).chunks(80).len(), 0);
}

#[test]
fn matrix_shape_queries() {
    let m = Matrix::init(vec![ramp(0, 4), ramp(0, 4), ramp(0, 4)]);
    assert_eq!(m.channel(), 3);
    assert_eq!(m.frames(), 4);
    assert!(m.is_rectangular());
    assert!(!Matrix::init(vec![ramp(0, 4), ramp(0, 3)]).is_rectangular());
}

#[test]
fn append_to_fresh_history_keeps_default_in_front() {
    let mut m: MatrixFixed<f32> = MatrixFixed::new(3, 2);
    m.append(Matrix::init(vec![vec![7.0, 8.0], vec![9.0, 10.0]]));
    let rows: Vec<Vec<f32>> = m.data().iter().map(|r| r.iter().copied().collect()).collect();
    assert_eq!(rows, vec![vec![0.0, 7.0, 8.0], vec![0.0, 9.0, 10.0]]);
    assert_eq!(m.len(), 3);
    assert_eq!(m.channel(), 2);
}
