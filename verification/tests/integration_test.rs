#[allow(unused_imports)]
use blog::site::post_document;

#[test]
fn it_copies_input_to_output() {}
