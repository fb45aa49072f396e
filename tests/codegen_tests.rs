use codegen::{Enum, Fields, Formatter, Function, Impl, Module, Scope, Struct, Type, TypeAlias};

#[test]
fn type_alias() {
    {
        let mut generic_type = Type::new("From");
        generic_type.generic("Bar");

        let mut impl_type = Impl::new("Foo");
        impl_type.impl_trait(generic_type);

        let mut fmt = Formatter::new();
        impl_type.fmt(&mut fmt);
        assert_eq!(impl_type.key_for_sorting().name(), "Foo");
    }
    {
        let mut generic_type = Type::new("From");
        generic_type.generic("Bar");

        let mut impl_type = Impl::new("Vec");
        impl_type.target_generic("Foo");
        impl_type.impl_trait(generic_type);

        let mut fmt = Formatter::new();
        impl_type.fmt(&mut fmt);
        println!("{:?}", fmt.into_string());
        assert_eq!(impl_type.key_for_sorting().name(), "Bar");
    }
}

#[test]
fn parse_type() {
    let ty = Type::new("u8");
    assert_eq!(ty.name(), "u8");
    assert!(ty.generics().is_empty());
}

#[test]
fn type_parse_generic() {
    {
        let ty = Type::new("Vec<u8>");
        assert_eq!(ty.name(), "Vec");
        assert_eq!(
            ty.generics().iter().map(|generic| generic.name().as_str()).collect::<Vec<&str>>().join(""),
            "u8"
        );
    }
    {
        let ty = Type::new("Vec<Vec<u8>>");
        assert_eq!(ty.name(), "Vec");
        assert_eq!(
            ty.generics().iter().map(|generic| generic.name().as_str()).collect::<Vec<&str>>().join(""),
            "Vec<u8>"
        );
    }
}

#[test]
fn fields_parse_generic() {
    {
        let mut fields = Fields::Empty;
        fields.tuple(Some("pub(crate)".to_string()), "Vec<u8>");

        let mut fmt = Formatter::new();
        fields.fmt(&mut fmt);
        assert_eq!(fmt.into_string(), "(pub(crate) Vec<u8>)");
    }
    {
        let mut fields = Fields::Empty;
        fields.tuple(Some("pub(crate)".to_string()), "Vec<u8>");
        fields.tuple(Some("pub".to_string()), "Vec<u16>");

        let mut fmt = Formatter::new();
        fields.fmt(&mut fmt);
        assert_eq!(fmt.into_string(), "(pub(crate) Vec<u8>, pub Vec<u16>)");
    }
}

#[test]
fn point_struct_with_import() {
    let mut scope = Scope::new();
    scope.push_import("std::collections", "HashMap", None);
    scope.new_struct("Point").field("x", "f64").field("y", "f64");
    assert_eq!(
        scope.to_string(),
        "use std::collections::HashMap;\n\nstruct Point {\n    x: f64,\n    y: f64,\n}"
    );
}

#[test]
fn impl_sort_keys() {
    let mut from_bar = Type::new("From");
    from_bar.generic("Bar");
    let mut conv = Impl::new("Foo");
    conv.target_generic("T");
    conv.impl_trait(from_bar);
    assert_eq!(conv.key_for_sorting().name(), "Bar");

    let plain = Impl::new("Foo");
    assert_eq!(plain.key_for_sorting().name(), "Foo");

    let mut display = Impl::new("Wrapper");
    display.target_generic("T");
    display.impl_trait("Display");
    assert_eq!(display.key_for_sorting().name(), "Display");
}

#[test]
fn render_twice_is_identical() {
    let mut scope = Scope::new();
    scope.new_struct("B").field("x", "u8");
    scope.new_enum("A").new_variant("One");
    scope.push_import("std::fmt", "Debug", None);
    assert_eq!(scope.to_string(), scope.to_string());
}

#[test]
fn insertion_order_does_not_matter() {
    let mut first = Scope::new();
    first.new_struct("Beta");
    first.new_fn("alpha").line("run()");
    let mut second = Scope::new();
    second.new_fn("alpha").line("run()");
    second.new_struct("Beta");
    assert_eq!(first.to_string(), second.to_string());
    assert_eq!(first.to_string(), "struct Beta;\n\nfn alpha() {\n    run()\n}");
}

#[test]
fn struct_sorts_before_impl_of_same_name() {
    let mut scope = Scope::new();
    scope.new_impl("Foo").new_fn("new").line("Foo");
    scope.new_struct("Foo");
    assert_eq!(scope.to_string(), "struct Foo;\n\nimpl Foo {\n    fn new() {\n        Foo\n    }\n}");
}

#[test]
fn nested_modules_indent_each_level() {
    let mut scope = Scope::new();
    {
        let outer = scope.new_module("outer");
        let inner = outer.scope().new_module("inner");
        inner.scope().new_struct("Deep").field("v", "u32");
    }
    assert_eq!(
        scope.to_string(),
        "mod outer {\n    mod inner {\n        struct Deep {\n            v: u32,\n        }\n    }\n}"
    );
}

#[test]
fn block_restores_level() {
    let mut fmt = Formatter::new();
    assert_eq!(fmt.level(), 0);
    let seen = fmt.block(|f: &mut Formatter| {
        f.write("a\n");
        f.level()
    });
    assert_eq!(seen, 1);
    assert_eq!(fmt.level(), 0);
    fmt.write("b\n");
    assert_eq!(fmt.into_string(), "    a\nb");
}

#[test]
fn duplicate_import_renders_once() {
    let mut scope = Scope::new();
    scope.push_import("std::io", "Read", None);
    scope.push_import("std::io", "Read", None);
    assert_eq!(scope.to_string(), "use std::io::Read;\n");
    let once = scope.to_string();
    assert_eq!(once.matches("Read").count(), 1);
}

#[test]
fn imports_grouped_by_path() {
    let mut scope = Scope::new();
    scope.push_import("std::fmt", "Debug", None);
    scope.push_import("std::fmt", "Display", None);
    scope.push_import("std::fmt", "Write", None);
    assert_eq!(scope.to_string(), "use std::fmt::{Debug, Display, Write};\n");
}

#[test]
fn imports_grouped_by_visibility_and_alias() {
    let mut scope = Scope::new();
    scope.push_import("a", "X", None);
    scope.new_import("b", "Y", None).vis("pub");
    scope.push_import("a", "Z", Some("Zed"));
    scope.push_import("a", "W::Inner", None);
    assert_eq!(
        scope.to_string(),
        "use a::Z as Zed;\nuse a::{X, W};\npub use b::Y;\n"
    );
}

#[test]
fn raw_text_comes_first() {
    let mut scope = Scope::new();
    scope.new_struct("S");
    scope.raw("// generated");
    scope.push_import("std::fmt", "Debug", None);
    assert_eq!(scope.to_string(), "// generated\n\nuse std::fmt::Debug;\n\nstruct S;");
}

#[test]
fn enum_and_alias_render() {
    let mut scope = Scope::new();
    {
        let e = scope.new_enum("Shape");
        e.vis("pub").derive("Debug").derive("Clone");
        e.new_variant("Circle").named("r", "f64");
        e.new_variant("Pair").tuple("u8").tuple("u8");
        e.new_variant("Empty");
    }
    scope.new_type_alias("Alias", "Vec<u8>").vis("pub");
    assert_eq!(
        scope.to_string(),
        "pub type Alias = Vec<u8>;\n\n#[derive(Debug, Clone)]\npub enum Shape {\n    Circle {\n        r: f64,\n    }\n    ,\n    Pair(u8, u8),\n    Empty,\n}"
    );
}

#[test]
fn struct_with_docs_bounds_and_tuple_fields() {
    let mut s = Struct::new("Wrap<T>");
    s.doc("A wrapper.\n\nSecond line").bound("T", "Clone").tuple_field("T");
    let mut fmt = Formatter::new();
    s.fmt(&mut fmt);
    assert_eq!(
        fmt.into_string(),
        "/// A wrapper.\n///\n/// Second line\nstruct Wrap<T>\nwhere T: Clone,\n(T);"
    );
}

#[test]
fn impl_with_associated_items() {
    let mut imp = Impl::new("Foo");
    imp.impl_trait("Iterator")
        .associate_type("Item", "u8")
        .associate_const("N", "usize", "3", "pub");
    imp.new_fn("next").arg("x", "u8").ret("Option<u8>").line("None");
    let mut fmt = Formatter::new();
    imp.fmt(&mut fmt);
    assert_eq!(
        fmt.into_string(),
        "impl Iterator for Foo {\n    pub const N: usize = 3;\n    type Item = u8;\n\n    fn next(x: u8) -> Option<u8> {\n        None\n    }\n}"
    );
}

#[test]
fn append_merges_scopes() {
    let mut a = Scope::new();
    a.push_import("std::io", "Read", None);
    a.new_struct("A");
    let mut b = Scope::new();
    b.push_import("std::io", "Write", None);
    b.new_struct("B");
    a.append(&b);
    assert_eq!(a.to_string(), "use std::io::{Read, Write};\n\nstruct A;\n\nstruct B;");
}

#[test]
fn multi_argument_generic_is_one_argument() {
    let ty = Type::new("Map<K, V>");
    assert_eq!(ty.name(), "Map");
    assert_eq!(ty.generics().len(), 1);
    assert_eq!(ty.generics()[0].name(), "K, V");
}

#[test]
fn key_for_sorting_drops_path() {
    let ty = Type::new("std::fmt::Display");
    assert_eq!(ty.key_for_sorting(), "Display");
    let plain = Type::new("Display");
    assert_eq!(plain.key_for_sorting(), "Display");
    let path = plain.path("std::fmt");
    assert_eq!(path.name(), "std::fmt::Display");
}

#[test]
fn module_lookup() {
    let mut scope = Scope::new();
    assert!(scope.get_module("m").is_none());
    scope.get_or_new_module("m").vis("pub");
    assert!(scope.get_module("m").is_some());
    scope.get_or_new_module("m").scope().new_struct("S");
    assert!(scope.get_module_mut("m").is_some());
    let mut other = Module::new("n");
    other.doc("docs");
    scope.push_module(other);
    assert_eq!(scope.to_string(), "pub mod m {\n    struct S;\n}\n\n/// docs\nmod n {\n}");
}

#[test]
fn function_and_alias_builders() {
    let mut f = Function::new("run");
    f.vis("pub").generic("T").arg("t", "T").bound("T", "Send");
    let mut fmt = Formatter::new();
    f.fmt(&mut fmt);
    assert_eq!(fmt.into_string(), "pub fn run<T>(t: T)\nwhere T: Send,\n;");
    let a = TypeAlias::new("A", "B");
    assert_eq!(a.ty().name(), "B");
    let e = Enum::new("E");
    assert_eq!(e.ty().name(), "E");
}
