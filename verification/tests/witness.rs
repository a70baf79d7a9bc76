use kimchi_linearization::columns::COLUMNS;
use kimchi_linearization::witness::{init, init_cell, init_row, LayoutCell, Variables};

#[test]
fn zero_layout() {
    let layout: Vec<Vec<LayoutCell<u64>>> = vec![vec![
        LayoutCell::Constant(0),
        LayoutCell::Constant(0),
        LayoutCell::Constant(0),
        LayoutCell::Constant(0),
        LayoutCell::Constant(0),
        LayoutCell::Constant(0),
        LayoutCell::Constant(0),
        LayoutCell::Constant(0),
        LayoutCell::Constant(0),
        LayoutCell::Constant(0),
        LayoutCell::Constant(0),
        LayoutCell::Constant(0),
        LayoutCell::Constant(0),
        LayoutCell::Constant(0),
        LayoutCell::Constant(0),
    ]];

    let mut witness: Vec<Vec<u64>> = (0..COLUMNS).map(|_| vec![1u64; 1]).collect();

    for col in witness.clone() {
        for field in col {
            assert_eq!(field, 1);
        }
    }

    let no_vars: Variables<u64> = Variables { values: vec![] };

    // Set a single cell to zero
    init_cell(&mut witness, 0, 0, 4, 0, &layout, &no_vars);
    assert_eq!(witness[4][0], 0);

    // Set all the cells to zero
    init_row(&mut witness, 0, 0, &layout, &no_vars);

    for col in witness {
        for field in col {
            assert_eq!(field, 0);
        }
    }
}

#[test]
fn copy_and_variable_cells() {
    // Within one row, a later cell reads a slot an earlier cell wrote.
    let layout: Vec<Vec<LayoutCell<u64>>> = vec![vec![
        LayoutCell::Constant(12),
        LayoutCell::CopyFrom { row: 0, col: 0 },
        LayoutCell::Variable { index: 0 },
    ]];
    let mut witness: Vec<Vec<u64>> = vec![vec![0; 1], vec![0; 1], vec![0; 1]];
    let vars = Variables { values: vec![7u64] };
    init_row(&mut witness, 0, 0, &layout, &vars);
    assert_eq!(witness[0][0], 12);
    assert_eq!(witness[1][0], 12);
    assert_eq!(witness[2][0], 7);
}

#[test]
fn init_whole_layout() {
    // Two rows written in order; the second row copies from the first.
    let layout: Vec<Vec<LayoutCell<u64>>> = vec![
        vec![LayoutCell::Constant(5), LayoutCell::Constant(6)],
        vec![LayoutCell::CopyFrom { row: 0, col: 1 }, LayoutCell::Variable { index: 1 }],
    ];
    let mut witness: Vec<Vec<u64>> = vec![vec![0; 2], vec![0; 2]];
    let vars = Variables { values: vec![3u64, 4u64] };
    init(&mut witness, 0, &layout, &vars);
    assert_eq!(witness[0][0], 5);
    assert_eq!(witness[1][0], 6);
    assert_eq!(witness[0][1], 6);
    assert_eq!(witness[1][1], 4);
}

#[test]
fn init_with_offset() {
    // An offset shifts the target row of every write.
    let layout: Vec<Vec<LayoutCell<u64>>> = vec![vec![LayoutCell::Constant(9)]];
    let mut witness: Vec<Vec<u64>> = vec![vec![0; 3]];
    let no_vars: Variables<u64> = Variables { values: vec![] };
    init_row(&mut witness, 2, 0, &layout, &no_vars);
    assert_eq!(witness[0], vec![0, 0, 9]);
}
