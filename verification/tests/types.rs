use lightc::strutil::{get_module_name, u64_to_string};
use lightc::types::{Operator, Type};

#[test]
fn test_resolve_primitive() {
    assert_eq!(Type::resolve_type("int32"), Type::Int32);
    assert_eq!(Type::resolve_type("Int32"), Type::Comp(String::from("Int32")));
}

#[test]
fn test_resolve_aliases_and_composites() {
    assert_eq!(Type::resolve_type("int"), Type::Int32);
    assert_eq!(Type::resolve_type("uint"), Type::UInt32);
    assert_eq!(Type::resolve_type("double"), Type::Double);
    assert_eq!(Type::resolve_type("void"), Type::Void);
    assert_eq!(Type::resolve_type("Point"), Type::Comp(String::from("Point")));
}

#[test]
fn test_as_strings_names() {
    let names = Type::as_strings();
    assert_eq!(names.len(), 14);
    assert_eq!(names[0], "int8");
    assert_eq!(names[13], "array");
}

#[test]
fn test_type_display() {
    assert_eq!(Type::Int32.to_str(), "int32");
    assert_eq!(Type::Bool.to_str(), "bool");
    let arr = Type::Array(Box::new(Type::Int32), 3);
    assert_eq!(arr.to_str(), "array(int32, 3)");
    assert_eq!(Type::Comp(String::from("Point")).to_str(), "Point");
}

#[test]
fn test_operator_symbols() {
    assert_eq!(Operator::Add.as_str(), "+");
    assert_eq!(Operator::Pow.as_str(), "**");
    assert_eq!(Operator::RetType.as_str(), "->");
    assert_eq!(Operator::NotEq.as_str(), "!=");
}

#[test]
fn test_u64_to_string() {
    assert_eq!(u64_to_string(0), "0");
    assert_eq!(u64_to_string(42), "42");
    assert_eq!(u64_to_string(18446744073709551615), "18446744073709551615");
}

#[test]
fn test_get_module_name() {
    assert_eq!(get_module_name("src/hello.lt"), "hello");
    assert_eq!(get_module_name("hello.lt"), "hello");
    assert_eq!(get_module_name("a/b/c.d.e"), "c.d");
    assert_eq!(get_module_name("noext"), "noext");
    assert_eq!(get_module_name("src/pkg/"), "pkg");
    assert_eq!(get_module_name("///"), "");
}
