#[test]
fn lib_it_works() {
    let result = 4;
    assert_eq!(result, 4);
}
