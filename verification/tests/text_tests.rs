use controller_core::text::{name_list_string, u64_to_string, u8_list_string, u8_to_string};

#[test]
fn node_ids_render_in_decimal() {
    assert_eq!(u8_to_string(0), "0");
    assert_eq!(u8_to_string(7), "7");
    assert_eq!(u8_to_string(10), "10");
    assert_eq!(u8_to_string(42), "42");
    assert_eq!(u8_to_string(100), "100");
    assert_eq!(u8_to_string(255), "255");
}

#[test]
fn sizes_render_in_decimal() {
    assert_eq!(u64_to_string(0), "0");
    assert_eq!(u64_to_string(9), "9");
    assert_eq!(u64_to_string(1234567), "1234567");
}

#[test]
fn id_lists_render_like_a_debugger() {
    assert_eq!(u8_list_string(&vec![]), "[]");
    assert_eq!(u8_list_string(&vec![3]), "[3]");
    assert_eq!(u8_list_string(&vec![1, 2, 30]), "[1, 2, 30]");
}

#[test]
fn name_lists_render_like_a_debugger() {
    assert_eq!(name_list_string(&vec![]), "[]");
    assert_eq!(name_list_string(&vec!["a.txt".to_string()]), "[\"a.txt\"]");
    assert_eq!(
        name_list_string(&vec!["a.txt".to_string(), "b.png".to_string()]),
        "[\"a.txt\", \"b.png\"]"
    );
}
