use serialize2d::Serialize;

#[test]
fn it_works() {
    let a = [[1.0, 2.0], [3.0, 4.0]];
    let s: Vec<f64> = a.serialize();

    println!(
        "{}",
        s.iter().map(|s| s.to_string()).collect::<Vec<String>>().join(", ")
    )
}

#[test]
fn square_matrix_interleaves_rows() {
    let rows: Vec<Vec<i32>> = vec![vec![1, 2], vec![3, 4]];
    let s: Vec<i32> = rows.as_slice().serialize();
    assert_eq!(s, vec![1, 3, 2, 4]);
}

#[test]
fn ragged_rows_truncate_to_shortest() {
    let rows: Vec<Vec<i32>> = vec![vec![1, 2, 3], vec![4, 5]];
    let s: Vec<i32> = rows.as_slice().serialize();
    assert_eq!(s, vec![1, 4, 2, 5]);
}

#[test]
fn zero_length_row_forces_empty_output() {
    let rows: Vec<Vec<i32>> = vec![vec![], vec![1, 2, 3, 4, 5], vec![6, 7, 8, 9, 10]];
    let s: Vec<i32> = rows.as_slice().serialize();
    assert_eq!(s, Vec::<i32>::new());
}

#[test]
fn no_rows_gives_empty_output() {
    let rows: Vec<Vec<i32>> = Vec::new();
    let s: Vec<i32> = rows.as_slice().serialize();
    assert_eq!(s, Vec::<i32>::new());

    let slices: [&[i32]; 0] = [];
    let s: Vec<i32> = slices.as_slice().serialize();
    assert_eq!(s, Vec::<i32>::new());

    let arrays: &[[i32; 3]] = &[];
    let s: Vec<i32> = arrays.serialize();
    assert_eq!(s, Vec::<i32>::new());

    let fixed: [Vec<i32>; 0] = [];
    let s: Vec<i32> = (&fixed).serialize();
    assert_eq!(s, Vec::<i32>::new());
}

#[test]
fn slice_rows_match_vec_rows() {
    let r0: [i32; 2] = [1, 2];
    let r1: [i32; 2] = [3, 4];
    let rows: [&[i32]; 2] = [&r0, &r1];
    let from_slices: Vec<i32> = rows.as_slice().serialize();
    assert_eq!(from_slices, vec![1, 3, 2, 4]);

    let from_fixed_count: Vec<i32> = (&rows).serialize();
    assert_eq!(from_fixed_count, vec![1, 3, 2, 4]);
}

#[test]
fn fixed_count_vec_rows() {
    let rows: [Vec<i32>; 3] = [vec![1, 2], vec![3, 4], vec![5, 6]];
    let s: Vec<i32> = (&rows).serialize();
    assert_eq!(s, vec![1, 3, 5, 2, 4, 6]);
}

#[test]
fn fixed_length_rows() {
    let rows: &[[i32; 2]] = &[[1, 2], [3, 4], [5, 6]];
    let s: Vec<i32> = rows.serialize();
    assert_eq!(s, vec![1, 3, 5, 2, 4, 6]);
}

#[test]
fn fully_fixed_size() {
    let rows: [[i32; 3]; 2] = [[1, 2, 3], [4, 5, 6]];
    let s: Vec<i32> = (&rows).serialize();
    assert_eq!(s, vec![1, 4, 2, 5, 3, 6]);
}

#[test]
fn index_formula_holds_on_a_wide_matrix() {
    let rows: Vec<Vec<u32>> = vec![
        vec![100, 101, 102, 103],
        vec![200, 201, 202, 203],
        vec![300, 301, 302, 303],
    ];
    let width: usize = rows.len();
    let s: Vec<u32> = rows.as_slice().serialize();
    assert_eq!(s.len(), 12);
    for i in 0..s.len() {
        assert_eq!(s[i], rows[i % width][i / width]);
    }
    assert_eq!(
        s,
        vec![100, 200, 300, 101, 201, 301, 102, 202, 302, 103, 203, 303]
    );
}

/// The straightforward reference: transpose the matrix, then
/// concatenate the columns.
fn transpose_then_concat(rows: &[Vec<u32>]) -> Vec<u32> {
    let width: usize = rows.len();
    let len: usize = rows.iter().map(|r| r.len()).min().unwrap_or(0);
    let mut out: Vec<u32> = Vec::new();
    for c in 0..len {
        for r in 0..width {
            out.push(rows[r][c]);
        }
    }
    out
}

#[test]
fn matches_reference_on_varied_rectangular_inputs() {
    let mut state: u64 = 0x2545F4914F6CDD1D;
    for width in 0..6usize {
        for len in 0..6usize {
            let mut rows: Vec<Vec<u32>> = Vec::new();
            for _ in 0..width {
                let mut row: Vec<u32> = Vec::new();
                for _ in 0..len {
                    state = state
                        .wrapping_mul(6364136223846793005)
                        .wrapping_add(1442695040888963407);
                    row.push((state >> 33) as u32);
                }
                rows.push(row);
            }
            let s: Vec<u32> = rows.as_slice().serialize();
            assert_eq!(s, transpose_then_concat(&rows));
        }
    }
}
