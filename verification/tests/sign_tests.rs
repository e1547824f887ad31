use std::path::Path;
use subparse::sign::{md5, sign_param};

#[test]
fn md5_known_vectors() {
    assert_eq!(md5(""), "d41d8cd98f00b204e9800998ecf8427e");
    assert_eq!(md5("abc"), "900150983cd24fb0d6963f7d28e17f72");
}

#[test]
fn sign_param_builds_the_six_fields() {
    let p = sign_param("hello");
    assert_eq!(p[0], ("q".to_string(), "hello".to_string()));
    assert_eq!(p[1], ("le".to_string(), "en".to_string()));
    // "hellowebdict" has twelve characters, so the time digit is 2.
    assert_eq!(p[2], ("t".to_string(), "2".to_string()));
    assert_eq!(p[3], ("client".to_string(), "web".to_string()));
    assert_eq!(p[4], ("keyfrom".to_string(), "webdict".to_string()));
    let inner = md5("hellowebdict");
    let expected = md5(&format!("webhello2Mk6hqtUp33DGGtoS63tTJbMUYjRrG1Lu{inner}"));
    assert_eq!(p[5], ("sign".to_string(), expected));
}

#[test]
fn test_file_path() {
    let path = Path::new("youdao.csv");

    println!("path: {}", path.exists())
}
