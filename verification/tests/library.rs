use std::collections::HashSet;

use glsl_validator::colors::color_is_vec4;
use glsl_validator::complete::handle_completion;
use glsl_validator::completion::{check_following_paren, detect_dot_access, extract_word_prefix};
use glsl_validator::config::{
    detect_formatter_engine, detect_target_api, path_to_uri, percent_decode_str, resolve_glsl_version_header,
    uri_to_path, FormatterEngine, TargetApi,
};
use glsl_validator::diagnostics::{compile_input, needs_preprocessing, parse_compiler_output};
use glsl_validator::format::{basic_glsl_format, clean_glsl_line_syntax, format_document};
use glsl_validator::includes::{choose_include_dirs, include_dir_candidates_of, IncludeWalk};
use glsl_validator::navigation::{handle_definition, handle_hover, handle_signature_help};
use glsl_validator::settings::{
    analyzer_content_length, content_length_of, lsp_header, ServerSettings, SettingValues,
};
use glsl_validator::symbols::scan_user_functions;
use glsl_validator::variables::{is_valid_identifier, scan_user_variables};
use glsl_validator::vectors::parse_fields_from_text;

fn no_values() -> SettingValues {
    SettingValues {
        target_api: None,
        formatter: None,
        glslang_path: None,
        analyzer_path: None,
        clang_path: None,
        default_version: None,
    }
}

#[test]
fn completion_labels_are_distinct() {
    let doc = "float value;\nfloat helper(float x) { return x; }\nvoid main() {\n    \n}\n";
    let funcs = scan_user_functions(doc, None, Some("file:///p/a.frag"));
    let vars = scan_user_variables(doc, None, Some("file:///p/a.frag"));
    let items = handle_completion(doc, 3, 4, &funcs, &vars, &vec![doc.to_string()], &Vec::new());
    assert!(items.iter().any(|i| i.label == "helper"));
    assert!(items.iter().any(|i| i.label == "value"));
    assert!(items.iter().any(|i| i.label == "vec3"));
    let mut seen = HashSet::new();
    for item in &items {
        assert!(seen.insert(item.label.clone()), "label {} twice", item.label);
    }
}

#[test]
fn nothing_is_offered_inside_comments() {
    let doc = "// mix( vec3 helper\nfloat helper(float x) { return x; }\n";
    let funcs = scan_user_functions(doc, None, Some("file:///p/a.frag"));
    let vars = scan_user_variables(doc, None, Some("file:///p/a.frag"));
    assert!(handle_completion(doc, 0, 10, &funcs, &vars, &Vec::new(), &Vec::new()).is_empty());
    assert!(handle_signature_help(doc, 0, 8, &funcs).is_none());
    assert!(handle_hover(doc, 0, 15, &funcs, &vars).is_none());
    assert!(handle_definition(doc, 0, 15, &funcs, &vars).is_none());
    // Outside the comment the same word is known.
    assert!(handle_hover(doc, 1, 8, &funcs, &vars).is_some());
}

#[test]
fn plain_text_decodes_to_itself() {
    assert_eq!(percent_decode_str("/home/user/shader.frag"), "/home/user/shader.frag");
    assert_eq!(percent_decode_str(""), "");
    assert_eq!(percent_decode_str("a%20b"), "a b");
    assert_eq!(percent_decode_str("100%"), "100%");
    assert_eq!(percent_decode_str("%zz!"), "%zz!");
}

#[test]
fn path_comes_back_from_its_uri() {
    let p = "/home/user/my shaders/light.glsl";
    let uri = path_to_uri(p);
    assert_eq!(uri, "file:///home/user/my shaders/light.glsl");
    assert_eq!(uri_to_path(&uri, false), Some(p.to_string()));
    assert_eq!(uri_to_path(&uri, true), Some(p.to_string()));
    assert_eq!(path_to_uri("C:\\work\\a.frag"), "file:///C:/work/a.frag");
    assert_eq!(uri_to_path("file:///C:/work/a.frag", true), Some("C:/work/a.frag".to_string()));
    assert_eq!(uri_to_path("untitled:Untitled-1", false), None);
}

#[test]
fn setting_names_ignore_case() {
    assert_eq!(TargetApi::parse_target("VULKAN"), TargetApi::parse_target("vulkan"));
    assert_eq!(TargetApi::parse_target("Vk"), TargetApi::Vulkan);
    assert_eq!(FormatterEngine::parse_engine("Clang-Format"), FormatterEngine::ClangFormat);
    assert_eq!(FormatterEngine::parse_engine("CLANG"), FormatterEngine::ClangFormat);
    assert_eq!(FormatterEngine::parse_engine("BuiltIn"), FormatterEngine::Builtin);
}

#[test]
fn markers_are_read_in_any_case() {
    assert_eq!(detect_target_api("// @TARGET: VULKAN\nvoid main(){}", TargetApi::OpenGl), TargetApi::Vulkan);
    assert_eq!(detect_target_api("#pragma Target(OpenGL)\n", TargetApi::Vulkan), TargetApi::OpenGl);
    assert_eq!(detect_target_api("void main(){} // @target: vulkan", TargetApi::OpenGl), TargetApi::OpenGl);
    assert_eq!(
        detect_formatter_engine("/* @Formatter: BUILTIN */", FormatterEngine::ClangFormat),
        FormatterEngine::Builtin
    );
    let late = format!("{}// @target: vulkan\n", "\n".repeat(10));
    assert_eq!(detect_target_api(&late, TargetApi::OpenGl), TargetApi::OpenGl);
}

#[test]
fn comment_lines_keep_their_spacing() {
    assert_eq!(clean_glsl_line_syntax("//  a,b){  if(x)"), "//  a,b){  if(x)");
    assert_eq!(clean_glsl_line_syntax("x = f(a,b);  // c,d"), "x = f(a, b); // c,d");
    assert_eq!(clean_glsl_line_syntax("if(a){"), "if (a) {");
    assert_eq!(clean_glsl_line_syntax("s = \"a,b  c\";"), "s = \"a,b  c\";");
}

#[test]
fn headers_end_by_resetting_lines() {
    let no_docs: Vec<(String, String)> = Vec::new();
    let no_siblings: Vec<(String, Option<String>)> = Vec::new();
    let h = resolve_glsl_version_header(
        "file:///p/a.frag",
        "void main() {}",
        TargetApi::OpenGl,
        &no_docs,
        Some(" 330 core "),
        "a.frag",
        &no_siblings,
    );
    assert_eq!(h, Some("#version 330 core\n#line 1\n".to_string()));
    let h = resolve_glsl_version_header(
        "file:///p/a.frag",
        "void main() {}",
        TargetApi::Vulkan,
        &no_docs,
        None,
        "a.frag",
        &no_siblings,
    );
    assert_eq!(h, Some("#version 460\n#line 1\n".to_string()));
    let siblings = vec![
        ("glsl".to_string(), Some("#version 450\n#extension GL_EXT_foo : enable\n#include \"a.frag\"\nvoid f();".to_string())),
    ];
    let h = resolve_glsl_version_header(
        "file:///p/a.frag",
        "void main() {}",
        TargetApi::OpenGl,
        &no_docs,
        None,
        "a.frag",
        &siblings,
    );
    assert_eq!(h, Some("#version 450\n#extension GL_EXT_foo : enable\n#line 1\n".to_string()));
    let h = resolve_glsl_version_header(
        "file:///p/a.frag",
        "#version 310 es\nvoid main() {}",
        TargetApi::OpenGl,
        &no_docs,
        Some("450"),
        "a.frag",
        &no_siblings,
    );
    assert_eq!(h, None);
}

#[test]
fn include_cycle_is_walked_once() {
    let a = "#include \"b.glsl\"\nvoid fa() {}\n";
    let b = "#include \"a.glsl\"\n#include \"b.glsl\"\nvoid fb() {}\n";
    let mut walk = IncludeWalk::new("file:///p/a.glsl", a, false);
    let mut asked: Vec<String> = Vec::new();
    while let Some(req) = walk.next_request() {
        assert!(!asked.contains(&req.path), "{} asked twice", req.path);
        assert!(req.depth <= 8);
        asked.push(req.path.clone());
        let text = if req.path.ends_with("b.glsl") { b } else { a };
        walk.add_file(&req, text, &req.live_uri, true);
        assert!(asked.len() <= 2);
    }
    assert_eq!(asked, vec!["/p/b.glsl".to_string(), "/p/a.glsl".to_string()]);
    let (funcs, _) = walk.into_symbols();
    let names: Vec<&str> = funcs.iter().map(|f| f.name.as_str()).collect();
    assert!(names.contains(&"fa"));
    assert!(names.contains(&"fb"));
}

#[test]
fn formatter_collapses_blank_lines() {
    assert_eq!(basic_glsl_format("\n\nint a;\n\n\n\nint b;\n", 4, true), "int a;\n\nint b;\n");
    assert_eq!(basic_glsl_format("int a;\n   \n\t\nint b;", 2, true), "int a;\n\nint b;");
    assert_eq!(basic_glsl_format("void main(){\nx;\n}", 0, true), "void main() {\n x;\n}");
    assert_eq!(basic_glsl_format("void main(){\nx;\n}", 4, false), "void main() {\n\tx;\n}");
}

#[test]
fn format_document_gives_one_edit_or_none() {
    let text = "void main(){\nx;\n}";
    let edits = format_document(text, None, 4, true);
    assert_eq!(edits.len(), 1);
    assert_eq!(edits[0].end_line, 2);
    assert_eq!(edits[0].end_col, 1);
    assert_eq!(edits[0].new_text, "void main() {\n    x;\n}");
    assert!(format_document("void main() {\n    x;\n}", None, 4, true).is_empty());
    let edits = format_document(text, Some("formatted".to_string()), 4, true);
    assert_eq!(edits.len(), 1);
    assert_eq!(edits[0].new_text, "formatted");
    assert!(format_document(text, Some(text.to_string()), 4, true).is_empty());
}

#[test]
fn struct_members_are_identifiers() {
    let text = "struct Light {\n    vec3 position;\n    highp float intensity, range;\n    float weights[4];\n    int 9bad;\n};\nstruct LightX { int no; };";
    let fields = parse_fields_from_text("Light", text);
    let expected: Vec<(String, String)> = vec![
        ("position".to_string(), "vec3".to_string()),
        ("intensity".to_string(), "float".to_string()),
        ("range".to_string(), "float".to_string()),
        ("weights".to_string(), "float".to_string()),
    ];
    assert_eq!(fields, expected);
    for (name, _) in &fields {
        assert!(is_valid_identifier(name));
    }
}

#[test]
fn identifiers_follow_unicode_letters() {
    assert!(is_valid_identifier("é1"));
    assert!(is_valid_identifier("_x9"));
    assert!(!is_valid_identifier("9x"));
    assert!(!is_valid_identifier("a-b"));
    assert!(!is_valid_identifier(""));
}

#[test]
fn empty_configuration_changes_nothing() {
    let mut s = ServerSettings::new();
    let start = SettingValues {
        target_api: Some("vulkan".to_string()),
        formatter: Some("builtin".to_string()),
        glslang_path: Some("/opt/glslang".to_string()),
        analyzer_path: Some(String::new()),
        clang_path: Some("/usr/bin/clang-format".to_string()),
        default_version: Some("450".to_string()),
    };
    assert!(s.initialize(&start));
    assert_eq!(s.default_target, TargetApi::Vulkan);
    assert_eq!(s.default_engine, FormatterEngine::Builtin);
    assert_eq!(s.analyzer_path, None);
    let change = s.apply_configuration(&no_values());
    assert!(!change.revalidate);
    assert!(!change.relocate_compiler);
    assert!(change.start_analyzer.is_none());
    assert_eq!(s.default_target, TargetApi::Vulkan);
    assert_eq!(s.default_engine, FormatterEngine::Builtin);
    assert_eq!(s.glslang_path, Some("/opt/glslang".to_string()));
    assert_eq!(s.clang_path, Some("/usr/bin/clang-format".to_string()));
    assert_eq!(s.default_version, Some("450".to_string()));
}

#[test]
fn configuration_changes_ask_for_work() {
    let mut s = ServerSettings::new();
    assert!(!s.initialize(&no_values()));
    assert_eq!(s.default_target, TargetApi::OpenGl);
    assert_eq!(s.default_engine, FormatterEngine::ClangFormat);
    let v = SettingValues {
        target_api: Some("vk".to_string()),
        analyzer_path: Some("/bin/analyzer".to_string()),
        ..no_values()
    };
    let change = s.apply_configuration(&v);
    assert!(change.revalidate);
    assert!(!change.relocate_compiler);
    assert_eq!(change.start_analyzer, Some("/bin/analyzer".to_string()));
    // The same analyzer again starts nothing.
    let change = s.apply_configuration(&v);
    assert!(!change.revalidate);
    assert!(change.start_analyzer.is_none());
    // An empty path resets the compiler path.
    let set = SettingValues { glslang_path: Some("/x/glslang".to_string()), ..no_values() };
    let change = s.apply_configuration(&set);
    assert!(change.relocate_compiler && change.revalidate);
    let reset = SettingValues { glslang_path: Some(String::new()), clang_path: Some(String::new()), ..no_values() };
    let change = s.apply_configuration(&reset);
    assert!(change.relocate_compiler && change.revalidate);
    assert_eq!(s.glslang_path, None);
    assert_eq!(s.clang_path, None);
}

#[test]
fn header_lengths_read_back() {
    assert_eq!(lsp_header(12), "Content-Length: 12\r\n\r\n");
    assert_eq!(lsp_header(0), "Content-Length: 0\r\n\r\n");
    let h = lsp_header(123456);
    assert_eq!(content_length_of(h.lines().next().unwrap()), Some(123456));
    assert_eq!(content_length_of("Content-Length: 42\r"), Some(42));
    assert_eq!(content_length_of("CONTENT-LENGTH:+5"), Some(5));
    assert_eq!(content_length_of("Content-Length: x"), None);
    assert_eq!(content_length_of("Content-Length: "), None);
    assert_eq!(content_length_of("Content-Type: text"), None);
    assert_eq!(analyzer_content_length("  content-LENGTH: 77 "), Some(77));
    assert_eq!(analyzer_content_length("Content-Length: -1"), None);
    assert_eq!(analyzer_content_length("Content"), None);
}

#[test]
fn compiler_output_becomes_diagnostics() {
    let out = "ERROR: 0:12:5: 'foo' : undeclared identifier\n\
               WARNING: 0:3: '' : version number deprecated\n\
               ERROR: 0:7: syntax error\n\
               ERROR: 0:5:3: '' : missing\n\
               ERROR: 0:0:0: at start\n\
               ERROR: x:y:z: broken\n\
               ERROR: 2 compilation errors.  No code generated.\n\
               some other line\n";
    let d = parse_compiler_output(out, "GLSL (OpenGL)");
    assert_eq!(d.len(), 5);
    assert_eq!((d[0].line, d[0].start_col, d[0].end_col, d[0].severity), (11, 4, 8, 1));
    assert_eq!(d[0].message, "'foo' : undeclared identifier");
    assert_eq!(d[0].source, "GLSL (OpenGL)");
    assert_eq!((d[1].line, d[1].start_col, d[1].end_col, d[1].severity), (2, 0, 999, 2));
    assert_eq!(d[1].message, "'': version number deprecated");
    assert_eq!((d[2].line, d[2].start_col, d[2].end_col), (6, 0, 999));
    assert_eq!(d[2].message, "syntax error");
    assert_eq!(d[3].message, "missing");
    assert_eq!((d[3].line, d[3].start_col, d[3].end_col), (4, 2, 6));
    assert_eq!((d[4].line, d[4].start_col, d[4].end_col), (0, 0, 4));
    assert!(parse_compiler_output("", "x").is_empty());
}

#[test]
fn compiler_input_and_preprocessing() {
    assert_eq!(
        compile_input(Some("#version 460\n#line 1\n".to_string()), "void main(){}"),
        "#version 460\n#line 1\nvoid main(){}"
    );
    assert_eq!(compile_input(None, "void main(){}"), "void main(){}");
    assert!(needs_preprocessing(TargetApi::OpenGl, "#include \"a.glsl\"\n"));
    assert!(!needs_preprocessing(TargetApi::OpenGl, "void main(){}"));
    assert!(!needs_preprocessing(TargetApi::Vulkan, "#include \"a.glsl\"\n"));
}

#[test]
fn colors_know_their_constructor() {
    let doc = "vec4 c = vec4(1.0);\nvec3 d = vec3(0.5);";
    assert!(color_is_vec4(Some(doc), 0, 9));
    assert!(!color_is_vec4(Some(doc), 1, 9));
    assert!(!color_is_vec4(Some(doc), 0, 17));
    assert!(color_is_vec4(Some(doc), 5, 0));
    assert!(color_is_vec4(None, 0, 0));
}

#[test]
fn cursor_columns_count_bytes() {
    assert_eq!(extract_word_prefix("€ab"), (3, "ab".to_string()));
    assert_eq!(extract_word_prefix("x = ab"), (4, "ab".to_string()));
    let (dot, expr, member, col) = detect_dot_access("€ v.x");
    assert!(dot);
    assert_eq!((expr.as_str(), member.as_str(), col), ("v", "x", 5));
    assert_eq!(check_following_paren("€ab (x)", 3), (5, true));
    assert_eq!(check_following_paren("€ab (x)", 0), (0, false));

    let doc = "float value;\nvoid main() {\n    é = va\n}\n";
    let funcs = scan_user_functions(doc, None, Some("file:///p/a.frag"));
    let vars = scan_user_variables(doc, None, Some("file:///p/a.frag"));
    let items = handle_completion(doc, 2, 11, &funcs, &vars, &Vec::new(), &Vec::new());
    let value = items.iter().find(|i| i.label == "value").expect("value offered");
    let edit = value.text_edit.as_ref().expect("edit");
    assert_eq!((edit.line, edit.start, edit.end), (2, 9, 11));
    // A column inside `é` is taken back to the boundary before it.
    let items = handle_completion(doc, 2, 5, &funcs, &vars, &Vec::new(), &Vec::new());
    assert!(items.iter().all(|i| i.text_edit.as_ref().map_or(true, |e| e.start == 4 && e.end == 6)));
}

#[test]
fn symbol_columns_count_bytes() {
    let doc = "/* é */ float value;\nvoid main() { value; }\n";
    let vars = scan_user_variables(doc, None, Some("file:///p/a.frag"));
    let funcs = scan_user_functions(doc, None, Some("file:///p/a.frag"));
    if let Some(v) = vars.iter().find(|v| v.name == "value") {
        assert_eq!(v.col, 15);
        let loc = handle_definition(doc, 1, 16, &funcs, &vars).expect("definition");
        assert_eq!((loc.start, loc.end), (15, 20));
    }
    let ( name, param) = glsl_validator::lexical::find_enclosing_call("é(mix(a, b", 0, 12).expect("call");
    assert_eq!((name.as_str(), param), ("mix", 1));
}

#[test]
fn cleaning_twice_changes_nothing() {
    for line in ["if(a,b){", "while(x)  {y;}", "for(i=0;i<n;i++){", "f(a,\"b,c\")//x,y", "x  ,y", "){"] {
        let once = clean_glsl_line_syntax(line);
        assert_eq!(clean_glsl_line_syntax(&once), once);
    }
}

#[test]
fn swizzle_lists_have_distinct_labels() {
    for (dim, n) in [(2usize, 19usize), (3, 28), (4, 40)] {
        let items = glsl_validator::completion::generate_swizzle_completions(dim);
        assert_eq!(items.len(), n);
        let labels: HashSet<String> = items.iter().map(|i| i.label.clone()).collect();
        assert_eq!(labels.len(), n);
        assert_eq!(items[n - 1].label, "length()");
        assert!(items[..n - 1].iter().all(|i| glsl_validator::vectors::is_swizzle_pattern(&i.label)));
    }
}

#[test]
fn scanned_symbols_carry_source_and_order() {
    let text = "float a(float x) { return x; }\nint if(int y);\nvec3 b() { return vec3(0.0); }\nuniform float k;\n#define M 1\n";
    let funcs = scan_user_functions(text, Some("lib.glsl"), Some("file:///p/lib.glsl"));
    let names: Vec<&str> = funcs.iter().map(|f| f.name.as_str()).collect();
    assert_eq!(names, vec!["a", "b"]);
    assert!(funcs.windows(2).all(|w| w[0].line < w[1].line));
    assert!(funcs.iter().all(|f| f.source.as_deref() == Some("lib.glsl")));
    let vars = scan_user_variables(text, Some("lib.glsl"), Some("file:///p/lib.glsl"));
    assert!(vars.iter().any(|v| v.name == "k"));
    assert!(vars.iter().all(|v| is_valid_identifier(&v.name) && v.file_uri.as_deref() == Some("file:///p/lib.glsl")));
}

#[test]
fn following_paren_law_examples() {
    assert_eq!(check_following_paren("normalize(x)", 4), (9, true));
    assert_eq!(check_following_paren("abc  (", 0), (3, true));
    assert_eq!(check_following_paren("ab c(", 0), (2, false));
}

#[test]
fn comment_check_on_plain_text() {
    let text = "float a = 1.0;\nvec3 b;";
    for line in 0..4 {
        for col in 0..16 {
            assert!(!glsl_validator::lexical::is_in_comment_or_string(text, line, col));
        }
    }
    assert!(!glsl_validator::lexical::is_in_comment_or_string("// x", 3, 0));
}

#[test]
fn appended_directive_after_ten_lines_is_ignored() {
    assert_eq!(detect_target_api("// @target: opengl\nvoid main() {}", TargetApi::Vulkan), TargetApi::OpenGl);
    let text = "int a;\n".repeat(10);
    let longer = format!("{text}\n// @target: vulkan");
    assert_eq!(detect_target_api(&longer, TargetApi::OpenGl), detect_target_api(&text, TargetApi::OpenGl));
}

#[test]
fn formatted_text_ends_and_starts_well() {
    let r = basic_glsl_format("\n\nint a;\n", 4, true);
    assert!(r.ends_with('\n') && !r.starts_with('\n'));
    assert_eq!(basic_glsl_format("\n", 4, true), "\n");
}

#[test]
fn include_dirs_are_chosen_in_order() {
    let c = include_dir_candidates_of("/p/src", Some("/p"));
    assert_eq!(c, vec!["/p/src", "/p/src/include", "/p/src/shaders", "/p", "/p/include", "/p/shaders"]);
    let chosen = choose_include_dirs(&c, &vec![true, false, true, true, true, false]);
    assert_eq!(chosen, vec!["/p/src", "/p/src/shaders", "/p", "/p/include"]);
    let chosen = choose_include_dirs(&c, &vec![false, true, true, false, true, true]);
    assert!(chosen.is_empty());
}

#[test]
fn formatting_twice_changes_nothing() {
    let texts = [
        "void main(){\nif(x){\ny = f(a,b);\n}\n\n\n#define A 1\n  case 1: z;\n}",
        "\n\n  int a;\r\n\r\n",
        "\n",
        "",
        "struct S{\nfloat a;   // c,d\n};\n \t\n",
    ];
    for t in texts {
        for (tab, spaces) in [(4usize, true), (2, true), (0, true), (4, false)] {
            let once = basic_glsl_format(t, tab, spaces);
            assert_eq!(basic_glsl_format(&once, tab, spaces), once, "{t:?}");
            let lines: Vec<&str> = once.lines().collect();
            assert!(lines.windows(2).all(|w| !(w[0].is_empty() && w[1].is_empty())));
            assert!(lines.iter().all(|l| !l.trim_start().starts_with('#') || *l == l.trim()));
            assert_eq!(
                lines.iter().filter(|l| !l.is_empty()).count(),
                t.lines().filter(|l| !l.trim().is_empty()).count()
            );
        }
    }
}

#[test]
fn whitespace_matches_std() {
    for c in (0u32..=0x10FFFF).filter_map(char::from_u32) {
        assert_eq!(glsl_validator::text::char_is_whitespace(c), c.is_whitespace(), "{:?}", c);
    }
}

#[test]
fn walk_without_includes_gives_own_symbols() {
    let text = "float f(float x) { return x; }\nvec3 g;\n";
    let mut walk = IncludeWalk::new("file:///p/a.frag", text, false);
    assert!(walk.next_request().is_none());
    let (funcs, vars) = walk.into_symbols();
    let own = scan_user_functions(text, None, Some("file:///p/a.frag"));
    assert_eq!(funcs.len(), own.len());
    assert_eq!(funcs[0].name, "f");
    assert_eq!(vars.len(), scan_user_variables(text, None, Some("file:///p/a.frag")).len());
}
