use redidl::idl_types::_check_type;

#[test]
fn it_works() {
    assert_eq!(2 + 2, 4);
}

#[test]
fn lib_it_works() {
    _check_type::<([i32; 4], [i32; 5])>();
}
