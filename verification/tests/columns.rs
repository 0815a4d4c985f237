use p3_playground::fib_air::columns::{FibonacciCols, NUM_FIBONACCI_COLS};

#[test]
fn new_puts_each_value_in_its_column() {
    let row = FibonacciCols::new(3u32, 5u32);
    assert_eq!(row.left, 3);
    assert_eq!(row.right, 5);
    assert_eq!(row, FibonacciCols { left: 3, right: 5 });
}

#[test]
fn new_keeps_the_order_of_unequal_values() {
    let row = FibonacciCols::new("left", "right");
    assert_eq!(row.left, "left");
    assert_eq!(row.right, "right");
    assert_ne!(row, FibonacciCols::new("right", "left"));
}

#[test]
fn a_row_has_two_columns() {
    assert_eq!(NUM_FIBONACCI_COLS, 2);
}
