use moxi::chunk::{index_to_pos, pos_to_index, UVec3};

#[test]
fn test_systems() {}

#[test]
fn index_of_position_is_layer_row_cell() {
    let dims = UVec3::new(4, 3, 2);
    assert_eq!(pos_to_index(UVec3::new(1, 2, 1), dims), Some(2 * 8 + 1 * 4 + 1));
    assert_eq!(index_to_pos(21, dims), Some(UVec3::new(1, 2, 1)));
    assert_eq!(pos_to_index(UVec3::new(4, 0, 0), dims), None);
    assert_eq!(index_to_pos(24, dims), None);
}
