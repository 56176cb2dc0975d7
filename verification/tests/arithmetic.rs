#[test]
fn it_works() {
    let result = dlpq::add(2, 2);
    assert_eq!(result, 4);
}
