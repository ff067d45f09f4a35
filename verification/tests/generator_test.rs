use frand_property::common::{is_unit_ty, same_text};
use frand_property::{camel_to_snake, find_block_range, replace_or_append_block, to_kebab_case};

#[test]
fn kebab_case_replaces_every_underscore() {
    assert_eq!(to_kebab_case("current_screen"), "current-screen");
    assert_eq!(to_kebab_case("a__b_"), "a--b-");
    assert_eq!(to_kebab_case("plain"), "plain");
    assert_eq!(to_kebab_case(""), "");
    assert_eq!(to_kebab_case("né_e"), "né-e");
}

#[test]
fn snake_case_sets_capitals_off() {
    assert_eq!(camel_to_snake("AdderData"), "adder_data");
    assert_eq!(camel_to_snake("adder"), "adder");
    assert_eq!(camel_to_snake("ABc"), "a_bc");
    assert_eq!(camel_to_snake(""), "");
    assert_eq!(camel_to_snake("xÉy"), "x_Éy");
}

#[test]
fn block_range_is_found() {
    let content = "export struct A {\n    x: int,\n}\n\nexport global B {\n    a { b } c\n}\n";
    assert_eq!(find_block_range(content, "export struct A"), Some((16, 30)));
    let start = content.find("export global B").unwrap() + "export global B ".len();
    let end = content.rfind('}').unwrap();
    assert_eq!(find_block_range(content, "export global B"), Some((start, end)));
    assert_eq!(find_block_range(content, "export struct C"), None);
    assert_eq!(find_block_range("export struct A", "export struct A"), None);
    assert_eq!(find_block_range("export struct A { {", "export struct A"), None);
    assert_eq!(find_block_range("é{}", ""), Some((2, 3)));
    assert_eq!(find_block_range("", ""), None);
    assert_eq!(find_block_range("ab", "abc"), None);
}

#[test]
fn block_is_replaced_in_place() {
    let content = "// head\nexport struct A {\n    old: int,\n}\n// tail é\n".to_string();
    let replaced = replace_or_append_block(content, "export struct A", "    x: int,", || {
        "unused".to_string()
    });
    assert_eq!(replaced, "// head\nexport struct A {\n    x: int,\n}\n// tail é\n");
}

#[test]
fn block_is_appended_where_there_is_none() {
    let block = || "export struct A {\n    x: int,\n}".to_string();
    assert_eq!(
        replace_or_append_block(String::new(), "export struct A", "    x: int,", block),
        "export struct A {\n    x: int,\n}\n"
    );
    assert_eq!(
        replace_or_append_block("// head".to_string(), "export struct A", "    x: int,", block),
        "// head\n\nexport struct A {\n    x: int,\n}\n"
    );
    assert_eq!(
        replace_or_append_block("// head\n".to_string(), "export struct A", "    x: int,", block),
        "// head\n\nexport struct A {\n    x: int,\n}\n"
    );
}

#[test]
fn texts_are_compared_character_for_character() {
    assert!(same_text("abc", "abc"));
    assert!(!same_text("abc", "abd"));
    assert!(!same_text("abc", "ab"));
    assert!(same_text("", ""));
    assert!(is_unit_ty("()"));
    assert!(!is_unit_ty("( )"));
    assert!(!is_unit_ty("i32"));
}
