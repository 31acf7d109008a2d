use gambit::paths::resolve_path_from_str;
use gambit::text::get_indent;
use std::path::PathBuf;

#[test]
fn test_get_indent1() {
    let s = "";
    let res = get_indent(s);
    assert_eq!(res, "")
}

#[test]
fn test_get_indent2() {
    let s = "   ";
    let res = get_indent(s);
    assert_eq!(res, "   ")
}

#[test]
fn test_get_indent3() {
    let s = "   Hello World";
    let res = get_indent(s);
    assert_eq!(res, "   ")
}

#[test]
fn test_get_indent4() {
    let s = "   Hello    World   ";
    let res = get_indent(s);
    assert_eq!(res, "   ")
}

#[test]
fn test_resolve_from_string1() {
    let s = "foo";
    let t = "bar";
    assert_eq!(
        resolve_path_from_str(s, t),
        PathBuf::from("bar").to_str().unwrap()
    )
}

#[test]
fn test_resolve_from_string2() {
    let s = ".";
    let t = "../baz";
    assert_eq!(
        resolve_path_from_str(s, t),
        PathBuf::from("../baz").to_str().unwrap()
    )
}

#[test]
fn test_resolve_from_string3() {
    let s = "../../fun";
    let t = ".";
    assert_eq!(
        resolve_path_from_str(s, t),
        PathBuf::from("../../.").to_str().unwrap()
    )
}

#[test]
fn test_resolve_from_string4() {
    let s = "/User/foo/bar";
    let t = "bar";
    assert_eq!(
        resolve_path_from_str(s, t),
        PathBuf::from("/User/foo/bar").to_str().unwrap()
    )
}

#[test]
fn test_resolve_from_string5() {
    let s = "../../../foo";
    let t = "../../bar/bar/blip.sh";
    assert_eq!(
        resolve_path_from_str(s, t),
        PathBuf::from("../../../../../bar/bar/blip.sh")
            .to_str()
            .unwrap()
    )
}

#[test]
fn test_resolve_from_string6() {
    let s = "../../../foo/bing.json";
    let t = "../../bar/bar/blip.sh";
    assert_eq!(
        resolve_path_from_str(s, t),
        PathBuf::from("../../../foo/../../bar/bar/blip.sh")
            .to_str()
            .unwrap()
    )
}
