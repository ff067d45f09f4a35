use frand_property::generator::{join_lines, slint_file_name, strip_global, update_slint_file, upsert_block};
use frand_property::{
    generate, generate_code_components, generate_file, generate_slint_doc, generate_slint_file,
    rust_type_to_slint_type, update_index_slint, Direction, FieldLen, SlintModel, SlintModelField,
};

fn field(direction: Direction, name: &str, ty: &str, len: FieldLen) -> SlintModelField {
    SlintModelField { direction, name: name.to_string(), ty: ty.to_string(), len }
}

fn adder(global_name: &str) -> SlintModel {
    SlintModel {
        export_path: None,
        public: true,
        model_name: "AdderModel".to_string(),
        len: None,
        global_name: global_name.to_string(),
        fields: vec![
            field(Direction::In, "x", "i32", FieldLen::Scalar),
            field(Direction::Out, "sum", "i32", FieldLen::Scalar),
            field(Direction::In, "click", "()", FieldLen::Scalar),
        ],
    }
}

#[test]
fn test_generate_adder() {
    let input = adder("AdderData");

    let output = generate(&input);

    println!("{}", output);

    assert!(output.contains("export struct AdderData {"));
    assert!(output.contains("x: int,"));
    assert!(output.contains("sum: int,"));

    assert!(output.contains("export global AdderDataGlobal {"));
    assert!(output.contains("in-out property <[AdderData]> data: [{}];"));
    assert!(output.contains("callback click(int);"));

    assert!(output.contains("component AdderDataComponent inherits Rectangle {"));
    assert!(output.contains("in-out property <int> global-index: 0;"));

    assert!(output.contains("in-out property <int> global-x: AdderDataGlobal.data[global-index].x;"));
    assert!(output.contains("changed global-x => { AdderDataGlobal.data[global-index].x = self.global-x; }"));

    assert!(output.contains("out property <int> global-sum: AdderDataGlobal.data[global-index].sum;"));

    assert!(output.contains("callback global-click;"));
    assert!(output.contains("global-click => { AdderDataGlobal.click(global-index); }"));
}

#[test]
fn the_whole_documentation_is_as_expected() {
    let expected = " 생성된 Slint 코드:\n```slint\n\
export struct AdderData {\n    x: int,\n    sum: int,\n}\n\n\
export global AdderDataGlobal {\n    in-out property <[AdderData]> data: [{}];\n    callback click(int);\n}\n\n\
component AdderDataComponent inherits Rectangle {\n\
\x20   in-out property <int> global-index: 0;\n\
\x20   in-out property <int> global-x: AdderDataGlobal.data[global-index].x;\n\
\x20   changed global-x => { AdderDataGlobal.data[global-index].x = self.global-x; }\n\
\x20   out property <int> global-sum: AdderDataGlobal.data[global-index].sum;\n\
\x20   callback global-click;\n\
\x20   global-click => { AdderDataGlobal.click(global-index); }\n}\n```";
    assert_eq!(generate(&adder("AdderData")), expected);
}

#[test]
fn types_are_named_as_the_schema_names_them() {
    for ty in ["i8", "i16", "i32", "i64", "isize", "u8", "u16", "u32", "u64", "usize"] {
        assert_eq!(rust_type_to_slint_type(ty), "int");
    }
    assert_eq!(rust_type_to_slint_type("f32"), "float");
    assert_eq!(rust_type_to_slint_type("f64"), "float");
    assert_eq!(rust_type_to_slint_type("bool"), "bool");
    assert_eq!(rust_type_to_slint_type("char"), "string");
    assert_eq!(rust_type_to_slint_type("String"), "string");
    assert_eq!(rust_type_to_slint_type("ArrayString<U20>"), "string");
    assert_eq!(rust_type_to_slint_type("ArrayString::<U20>"), "string");
    assert_eq!(rust_type_to_slint_type("ArrayString<U20"), "ArrayString<U20");
    assert_eq!(rust_type_to_slint_type("()"), "void");
    assert_eq!(rust_type_to_slint_type("ScreenVariant"), "ScreenVariant");
}

#[test]
fn code_components_of_a_schema_file() {
    let mut input = adder("Adder");
    input.fields.push(field(Direction::In, "all_values", "i32", FieldLen::Fixed(3)));
    let (struct_name, struct_body, global_name, global_body, component_name, component_body) =
        generate_code_components(&input);
    assert_eq!(struct_name, "AdderData");
    assert_eq!(struct_body, "    x: int,\n    sum: int,\n    all-values: [int],");
    assert_eq!(global_name, "Adder");
    assert_eq!(global_body, "    in-out property <[AdderData]> data: [{}];\n    callback click(int);");
    assert_eq!(component_name, "AdderComponent");
    assert_eq!(
        component_body,
        "    in-out property <int> global-data-length: Adder.data.length;\n\
\x20   in-out property <int> global-data-index: 0;\n\
\x20   in-out property <int> global-x: Adder.data[global-data-index].x;\n\
\x20   changed global-x => { Adder.data[global-data-index].x = self.global-x; }\n\
\x20   out property <int> global-sum: Adder.data[global-data-index].sum;\n\
\x20   callback global-click;\n\
\x20   global-click => { Adder.click(global-data-index); }\n\
\x20   in-out property <[int]> global-all-values: Adder.data[global-data-index].all-values;\n\
\x20   changed global-all-values => { Adder.data[global-data-index].all-values = self.global-all-values; }"
    );
    let doc = generate_slint_doc(&input);
    assert!(doc.starts_with(" 생성된 Slint 코드:\n```slint\nexport struct AdderData {\n    x: int,"));
    assert!(doc.contains("}\n\nexport global Adder {\n"));
    assert!(doc.contains("}\n\nexport component AdderComponent inherits Rectangle {\n"));
    assert!(doc.ends_with("all-values = self.global-all-values; }\n}\n```"));
}

#[test]
fn a_schema_file_is_named_in_snake_case() {
    let (name, content) = generate_slint_file(&adder("AdderVecGlobal"), String::new());
    assert_eq!(name, "adder_vec.slint");
    assert!(content.starts_with("export struct AdderVecGlobalData {\n    x: int,\n    sum: int,\n}\n\nexport global AdderVecGlobal {\n"));
    assert!(content.ends_with("    global-click => { AdderVecGlobal.click(global-data-index); }\n}\n"));
    let (name, _) = generate_slint_file(&adder("HTTPData"), String::new());
    assert_eq!(name, "http_data.slint");
    let (name, again) = generate_file(&adder("HTTPData"), String::new());
    assert_eq!(name, "h_t_t_p_data.slint");
    let (_, unchanged) = generate_file(&adder("HTTPData"), again.clone());
    assert_eq!(unchanged, again);
    assert_eq!(strip_global("Global"), "");
    assert_eq!(strip_global("éGlobal"), "é");
    assert_eq!(strip_global("Globals"), "Globals");
    assert_eq!(slint_file_name("a"), "a.slint");
}

#[test]
fn a_schema_file_keeps_what_else_it_holds() {
    let old = "// by hand\nexport struct AdderData {\n    old: int,\n}\nimport { X } from \"x.slint\";\n".to_string();
    let new = update_slint_file(&adder("Adder"), old);
    assert!(new.starts_with("// by hand\nexport struct AdderData {\n    x: int,\n    sum: int,\n}\nimport { X } from \"x.slint\";\n\nexport global Adder {\n"));
    assert_eq!(
        upsert_block("a {\n}\n".to_string(), "a", "  b", "a {\n  b\n}"),
        "a {\n  b\n}\n"
    );
    assert_eq!(upsert_block("c".to_string(), "a", "  b", "a {\n  b\n}"), "c\n\na {\n  b\n}\n");
    assert_eq!(join_lines(&vec!["a".to_string(), "b".to_string()]), "a\nb");
    assert_eq!(join_lines(&Vec::new()), "");
}

#[test]
fn the_index_gets_each_line_once() {
    let line = "export { Adder } from \"adder.slint\";\n";
    assert_eq!(update_index_slint(String::new(), "Adder", "adder.slint"), Some(line.to_string()));
    assert_eq!(
        update_index_slint("// index".to_string(), "Adder", "adder.slint"),
        Some(format!("// index\n{line}"))
    );
    assert_eq!(
        update_index_slint("// index\n".to_string(), "Adder", "adder.slint"),
        Some(format!("// index\n{line}"))
    );
    assert_eq!(update_index_slint(format!("// index\n{line}"), "Adder", "adder.slint"), None);
    assert!(update_index_slint(format!("// index\n{line}"), "Other", "adder.slint").is_some());
}
