use std::collections::HashMap;

use glsl_validator::colors::{color_token, find_color_candidates};
use glsl_validator::complete::{enhance_analyzer_completions, handle_completion, AnalyzerItem, Enhancement, Entry};
use glsl_validator::completion::{generate_snippet_completions, generate_swizzle_completions, CompletionItem, Documentation};
use glsl_validator::config::{
    detect_formatter_engine, detect_target_api, get_stage_from_uri, percent_decode_str, resolve_glsl_version_header,
    uri_to_path, FormatterEngine, TargetApi,
};
use glsl_validator::docs::lookup_builtin_function;
use glsl_validator::format::{basic_glsl_format, clean_glsl_line_syntax};
use glsl_validator::includes::IncludeWalk;
use glsl_validator::lexical::{find_enclosing_call, is_in_comment_or_string};
use glsl_validator::navigation::{handle_definition, handle_hover, handle_signature_help};
use glsl_validator::symbols::{scan_user_functions, FunctionSignature};
use glsl_validator::variables::{scan_user_variables, VariableSymbol};
use glsl_validator::vectors::{extract_struct_members, infer_vector_dimension, infer_vector_dimension_from_vars};

/// Runs the include walk of a document, reading included files from the open documents only.
fn symbols_of(uri: &str, text: &str, cache: &HashMap<String, String>) -> (Vec<FunctionSignature>, Vec<VariableSymbol>) {
    let mut walk = IncludeWalk::new(uri, text, false);
    while let Some(req) = walk.next_request() {
        if let Some(live) = cache.get(&req.live_uri) {
            walk.add_file(&req, live, &req.live_uri, true);
        }
    }
    walk.into_symbols()
}

fn complete(cache: &HashMap<String, String>, uri: &str, line: usize, col: usize) -> Vec<CompletionItem> {
    let doc = cache.get(uri).cloned().unwrap_or_default();
    let (funcs, vars) = symbols_of(uri, &doc, cache);
    let texts: Vec<String> = cache.values().cloned().collect();
    handle_completion(&doc, line, col, &funcs, &vars, &texts, &Vec::new())
}

fn markdown(d: &Documentation) -> String {
    match d {
        Documentation::Markdown(s) => s.clone(),
        Documentation::Plain(s) => s.clone(),
        Documentation::Absent => String::new(),
    }
}

#[test]
fn test_stage_detection_by_extension() {
    assert_eq!(get_stage_from_uri("file:///project/test.vert", ""), "vert");
    assert_eq!(get_stage_from_uri("file:///project/test.frag", ""), "frag");
    assert_eq!(get_stage_from_uri("file:///project/test.geom", ""), "geom");
    assert_eq!(get_stage_from_uri("file:///project/test.tesc", ""), "tesc");
    assert_eq!(get_stage_from_uri("file:///project/test.tese", ""), "tese");
    assert_eq!(get_stage_from_uri("file:///project/test.comp", ""), "comp");
    assert_eq!(get_stage_from_uri("file:///project/test.mesh", ""), "mesh");
    assert_eq!(get_stage_from_uri("file:///project/test.task", ""), "task");
    assert_eq!(get_stage_from_uri("file:///project/test.rgen", ""), "rgen");
}

#[test]
fn test_stage_detection_heuristics() {
    assert_eq!(
        get_stage_from_uri("file:///project/shader.glsl", "void main() { gl_Position = vec4(1.0); }"),
        "vert"
    );
    assert_eq!(get_stage_from_uri("file:///project/shader.glsl", "void main() { gl_FragCoord.xy; }"), "frag");
    assert_eq!(get_stage_from_uri("file:///project/shader.glslh", "// header file"), "vert");
}

#[test]
fn test_target_api_parsing() {
    assert_eq!(TargetApi::parse_target("vulkan"), TargetApi::Vulkan);
    assert_eq!(TargetApi::parse_target("Vulkan"), TargetApi::Vulkan);
    assert_eq!(TargetApi::parse_target("vk"), TargetApi::Vulkan);
    assert_eq!(TargetApi::parse_target("opengl"), TargetApi::OpenGl);
    assert_eq!(TargetApi::parse_target("OpenGL"), TargetApi::OpenGl);
    assert_eq!(TargetApi::parse_target("gl"), TargetApi::OpenGl);
    assert_eq!(TargetApi::parse_target("anything_else"), TargetApi::OpenGl);
}

#[test]
fn test_detect_target_api_directives() {
    assert_eq!(detect_target_api("// @target: vulkan\nvoid main() {}", TargetApi::OpenGl), TargetApi::Vulkan);
    assert_eq!(detect_target_api("/* @target: vulkan */\nvoid main() {}", TargetApi::OpenGl), TargetApi::Vulkan);
    assert_eq!(detect_target_api("#pragma target(vulkan)\nvoid main() {}", TargetApi::OpenGl), TargetApi::Vulkan);
    assert_eq!(detect_target_api("// standard opengl shader\nvoid main() {}", TargetApi::OpenGl), TargetApi::OpenGl);
    assert_eq!(detect_target_api("// standard vulkan shader\nvoid main() {}", TargetApi::Vulkan), TargetApi::Vulkan);
}

#[test]
fn test_infer_vector_dimension() {
    let doc = "struct Test {\n    vec4 a;\n    vec2 b;\n};\nvec3 normal;\nTest t;\n";
    assert_eq!(infer_vector_dimension(doc, "t.a"), Some(4));
    assert_eq!(infer_vector_dimension(doc, "t.b"), Some(2));
    assert_eq!(infer_vector_dimension(doc, "normal"), Some(3));
    assert_eq!(infer_vector_dimension(doc, "t.a.xyz"), Some(3));
    assert_eq!(infer_vector_dimension(doc, "gl_Position"), Some(4));
    assert_eq!(infer_vector_dimension(doc, "t"), None);

    let test_vars = vec![VariableSymbol {
        name: "testColor".to_string(),
        var_type: "vec4".to_string(),
        qualifier: "".to_string(),
        doc: None,
        source: None,
        line: 0,
        col: 0,
        file_uri: None,
    }];
    assert_eq!(infer_vector_dimension_from_vars(&test_vars, doc, "testColor"), Some(4));
}

#[test]
fn test_generate_swizzle_completions() {
    let items2 = generate_swizzle_completions(2);
    assert!(items2.iter().any(|i| i.label == "xy"));
    assert!(items2.iter().any(|i| i.label == "length()"));

    let items4 = generate_swizzle_completions(4);
    assert!(items4.iter().any(|i| i.label == "xyzw"));
    assert!(items4.iter().any(|i| i.label == "rgba"));
    assert!(items4.iter().any(|i| i.label == "stpq"));
}

#[test]
fn test_percent_decode_str() {
    assert_eq!(percent_decode_str("hello%20world"), "hello world");
    assert_eq!(percent_decode_str("shader%2Bcommon.glsl"), "shader+common.glsl");
    assert_eq!(percent_decode_str("plain_path"), "plain_path");
}

#[test]
fn test_uri_to_path() {
    let p1 = uri_to_path("file:///project/test.frag", false);
    assert!(p1.is_some());

    let p2 = uri_to_path("file:///C:/Users/test/shader.vert", false);
    assert!(p2.is_some());
    let p3 = uri_to_path("file:///C:/Users/test/shader.vert", true);
    assert!(p3.unwrap().contains("C:"));
}

#[test]
fn test_generate_snippet_completions() {
    let ubo_snips = generate_snippet_completions("ubo");
    assert!(ubo_snips.iter().any(|s| s.label == "ubo"));
    assert!(ubo_snips.iter().any(|s| s.label == "ubo-vk"));
    let ubo_item = ubo_snips.iter().find(|s| s.label == "ubo").unwrap();
    assert!(ubo_item
        .insert_text
        .as_ref()
        .unwrap()
        .contains("layout(std140, binding = ${1:0}) uniform ${2:BlockName}"));

    let ssbo_snips = generate_snippet_completions("ssbo");
    assert_eq!(ssbo_snips.len(), 1);
    assert_eq!(ssbo_snips[0].label, "ssbo");

    let vert_snips = generate_snippet_completions("vert");
    assert!(vert_snips.iter().any(|s| s.label == "vert"));
    assert!(vert_snips.iter().any(|s| s.label == "vert-vk"));
    let vert_gl = vert_snips.iter().find(|s| s.label == "vert").unwrap();
    assert!(vert_gl.insert_text.as_ref().unwrap().contains("#version 460 core"));
    let vert_vk = vert_snips.iter().find(|s| s.label == "vert-vk").unwrap();
    assert!(vert_vk.insert_text.as_ref().unwrap().contains("#version 460\n"));

    let all_snips = generate_snippet_completions("");
    assert!(all_snips.len() >= 11);
}

#[test]
fn test_basic_glsl_format() {
    let unformatted = "#version 460 core\nvoid main()\n{\nif (true) {\ngl_Position = vec4(1.0);\n} else {\ngl_Position = vec4(0.0);\n}\n}\n";
    let formatted = basic_glsl_format(unformatted, 4, true);
    assert!(formatted.contains("    if (true) {"));
    assert!(formatted.contains("        gl_Position = vec4(1.0);"));
    assert!(formatted.contains("    } else {"));
    assert!(formatted.contains("        gl_Position = vec4(0.0);"));
    assert!(formatted.starts_with("#version 460 core"));
}

#[test]
fn test_clean_glsl_line_syntax() {
    assert_eq!(clean_glsl_line_syntax("vec4(1.0,0.5,0.2,1.0)"), "vec4(1.0, 0.5, 0.2, 1.0)");
    assert_eq!(clean_glsl_line_syntax("void main(){"), "void main() {");
    assert_eq!(clean_glsl_line_syntax("// a,b"), "// a,b");
}

#[test]
fn test_formatter_engine_detection() {
    assert_eq!(FormatterEngine::parse_engine("builtin"), FormatterEngine::Builtin);
    assert_eq!(FormatterEngine::parse_engine("clang-format"), FormatterEngine::ClangFormat);
    assert_eq!(FormatterEngine::parse_engine("clang"), FormatterEngine::ClangFormat);
    assert_eq!(FormatterEngine::parse_engine("unknown"), FormatterEngine::Builtin);

    assert_eq!(
        detect_formatter_engine("// @formatter: clang-format\nvoid main() {}", FormatterEngine::Builtin),
        FormatterEngine::ClangFormat
    );
    assert_eq!(
        detect_formatter_engine("// @formatter: builtin\nvoid main() {}", FormatterEngine::ClangFormat),
        FormatterEngine::Builtin
    );
}

#[test]
fn test_find_colors_in_text() {
    let glsl = r#"
            vec4 col1 = vec4(1.0, 0.5, 0.2, 1.0);
            vec3 col2 = vec3(0.0, 1.0, 0.0);
            // vec4 comment = vec4(0.0, 0.0, 0.0, 1.0);
            float a = 1.0;
        "#;
    let colors: Vec<(bool, Vec<f64>)> = find_color_candidates(glsl)
        .into_iter()
        .filter_map(|c| {
            let vals: Option<Vec<f64>> = c.args.iter().map(|a| color_token(a).parse::<f64>().ok()).collect();
            vals.map(|v| (c.is_vec4, v))
        })
        .collect();
    assert_eq!(colors.len(), 2);
    assert!(colors[0].0);
    assert_eq!(colors[0].1[0], 1.0);
    assert_eq!(colors[0].1[1], 0.5);
    assert_eq!(colors[0].1[2], 0.2);
    assert_eq!(colors[0].1[3], 1.0);

    assert!(!colors[1].0);
    assert_eq!(colors[1].1[1], 1.0);
}

#[test]
fn test_completion_include_and_builtins() {
    let mut doc_cache = HashMap::new();
    let common_uri = "file:///project/shaders/common.glsl";
    let common_code = r#"
vec3 calculateNormal(mat4 normal, vec3 aNormal) {
    return mat3(normal) * aNormal;
}
"#;
    doc_cache.insert(common_uri.to_string(), common_code.to_string());

    let main_uri = "file:///project/shaders/main.frag";
    let main_code = "#include \"common.glsl\"\nvec3 n = calc";
    doc_cache.insert(main_uri.to_string(), main_code.to_string());

    let items = complete(&doc_cache, main_uri, 1, 13);
    let calc_item = items.iter().find(|it| it.label == "calculateNormal");
    assert!(calc_item.is_some(), "calculateNormal must be found in completions");
    let item = calc_item.unwrap();
    assert_eq!(item.kind, 3);
    assert!(markdown(&item.documentation).contains("common.glsl"));

    doc_cache.insert(main_uri.to_string(), "vec3 n = norm".to_string());
    let norm_items = complete(&doc_cache, main_uri, 0, 13);
    let norm_item = norm_items.iter().find(|it| it.label == "normalize");
    assert!(norm_item.is_some(), "normalize must be found in completions");
    assert_eq!(norm_item.unwrap().insert_text.as_deref(), Some("normalize($1)$0"));

    doc_cache.insert(main_uri.to_string(), "// norm".to_string());
    let comment_items = complete(&doc_cache, main_uri, 0, 7);
    assert!(comment_items.is_empty(), "Completions must be empty inside comments");
}

#[test]
fn test_completion_transpose_and_inverse() {
    let mut doc_cache = HashMap::new();
    let uri = "file:///shader.vert";
    doc_cache.insert(uri.to_string(), "mat3 inv = inv".to_string());
    let items_inv = complete(&doc_cache, uri, 0, 14);
    let inv_item = items_inv.iter().find(|it| it.label == "inverse");
    assert!(inv_item.is_some(), "inverse must be found in completions");
    let item = inv_item.unwrap();
    assert_eq!(item.insert_text.as_deref(), Some("inverse($1)$0"));
    assert_eq!(item.insert_text_format, Some(2));
    assert!(item.text_edit.is_some());

    doc_cache.insert(uri.to_string(), "mat3 normal = trans".to_string());
    let items_trans = complete(&doc_cache, uri, 0, 19);
    let trans_item = items_trans.iter().find(|it| it.label == "transpose");
    assert!(trans_item.is_some(), "transpose must be found in completions");
    let item_t = trans_item.unwrap();
    assert_eq!(item_t.insert_text.as_deref(), Some("transpose($1)$0"));
    assert_eq!(item_t.insert_text_format, Some(2));
    assert_eq!(item_t.text_edit.as_ref().unwrap().new_text, "transpose($1)$0");
}

#[test]
fn test_version_resolution_from_parent_include() {
    let main_code = "#version 330 core\n#extension GL_ARB_explicit_attrib_location : enable\n#include \"common.glsl\"\n";
    let doc_cache = vec![("file:///project/main.vert".to_string(), main_code.to_string())];
    let common_code = "vec3 testFunc(vec3 v) { return inverse(mat3(v.x)) * v; }\n";
    let resolved = resolve_glsl_version_header(
        "file:///project/common.glsl",
        common_code,
        TargetApi::OpenGl,
        &doc_cache,
        None,
        "common.glsl",
        &Vec::new(),
    );
    assert!(resolved.is_some());
    let header = resolved.unwrap();
    assert!(header.contains("#version 330 core"), "Must inherit #version 330 core from parent main.vert: {header}");
    assert!(
        header.contains("#extension GL_ARB_explicit_attrib_location : enable"),
        "Must inherit extensions: {header}"
    );
    assert!(header.ends_with("#line 1\n"), "Must reset line counter with #line 1: {header}");
}

#[test]
fn test_completion_user_variables() {
    let mut doc_cache = HashMap::new();
    let uri = "file:///shader.frag";
    doc_cache.insert(uri.to_string(), "out vec3 FragPos;\nuniform mat4 model;\nvoid main() { Fra".to_string());
    let items = complete(&doc_cache, uri, 2, 17);
    let frag_item = items.iter().find(|it| it.label == "FragPos");
    assert!(frag_item.is_some(), "FragPos must be suggested in completion");
    let item = frag_item.unwrap();
    assert_eq!(item.kind, 6);
    assert_eq!(item.detail.as_deref(), Some("out vec3"));
    assert_eq!(item.insert_text.as_deref(), Some("FragPos"));
    assert_eq!(item.insert_text_format, Some(1));
}

#[test]
fn test_vulkan_shader_validation_and_completion() {
    let code = r#"#version 460
// @target: vulkan

layout(set = 0, binding = 0) uniform GlobalUbo {
    mat4 projection;
    mat4 view;
    vec3 lightPos;
} ubo;

layout(location = 0) in vec3 inPosition;
layout(location = 1) in vec3 inNormal;
layout(location = 0) out vec3 fragColor;

void main() {
    mat4 normalMatrix = transpose(inverse(ubo.view));
    vec3 n = normalize(mat3(normalMatrix) * inNormal);
    fragColor = n;
    gl_Position = ubo.projection * ubo.view * vec4(inPosition, 1.0);
}
"#;
    let mut doc_cache = HashMap::new();
    doc_cache.insert("file:///shader.vert".to_string(), code.to_string());
    let items = complete(&doc_cache, "file:///shader.vert", 16, 4);
    for label in [
        "ubo", "inPosition", "inNormal", "fragColor", "projection", "view", "transpose", "inverse", "vec4", "vec4(...)",
        "layout", "uniform", "gl_Position",
    ] {
        assert!(items.iter().any(|it| it.label == label), "missing {label}");
    }
}

#[test]
fn test_completion_types_keywords_and_deduplication() {
    let code = r#"#version 460 core
layout(location = 0) in vec3 inPosition;
uniform mat4 uModel;

void main() {
    vec4 testColor = vec4(1.0);
    nor
}
"#;
    let mut doc_cache = HashMap::new();
    doc_cache.insert("file:///test.vert".to_string(), code.to_string());
    let items_nor = complete(&doc_cache, "file:///test.vert", 6, 7);
    let norm_item = items_nor.iter().find(|it| it.label == "normalize").expect("normalize must be suggested");
    assert_eq!(norm_item.insert_text.as_deref(), Some("normalize($1)$0"), "normalize must include snippet parentheses");
    assert_eq!(norm_item.insert_text_format, Some(2));

    let items_all = complete(&doc_cache, "file:///test.vert", 5, 4);
    for label in [
        "vec4", "vec4(...)", "mat4", "float", "sampler2D", "layout", "uniform", "in", "out", "discard", "return",
        "gl_Position", "gl_FragCoord", "testColor",
    ] {
        assert!(items_all.iter().any(|it| it.label == label), "missing {label}");
    }
    let mut seen = std::collections::HashSet::new();
    for item in &items_all {
        assert!(seen.insert(item.label.clone()), "Duplicate completion label found: '{}'", item.label);
    }
}

fn enhance(
    cache: &HashMap<String, String>,
    uri: &str,
    line: usize,
    col: usize,
    raw: Vec<AnalyzerItem>,
) -> Vec<(String, Option<String>, Option<u32>, String, String)> {
    let doc = cache.get(uri).cloned().unwrap_or_default();
    let (funcs, vars) = symbols_of(uri, &doc, cache);
    let texts: Vec<String> = cache.values().cloned().collect();
    let files = Vec::new();
    match enhance_analyzer_completions(&doc, line, col, &raw, &funcs, &vars, &texts, &files) {
        Enhancement::Own => handle_completion(&doc, line, col, &funcs, &vars, &texts, &files)
            .into_iter()
            .map(|it| {
                (it.label.clone(), it.insert_text.clone(), it.insert_text_format, markdown(&it.documentation), it.detail.clone().unwrap_or_default())
            })
            .collect(),
        Enhancement::Unchanged => Vec::new(),
        Enhancement::Entries(es) => es
            .into_iter()
            .map(|e| match e {
                Entry::Own(it) => (
                    it.label.clone(),
                    it.insert_text.clone(),
                    it.insert_text_format,
                    markdown(&it.documentation),
                    it.detail.clone().unwrap_or_default(),
                ),
                Entry::Analyzer { index, label, insert } => {
                    let (t, f) = match insert {
                        Some((t, f)) => (Some(t), Some(f)),
                        None => (raw[index].insert_text.clone(), None),
                    };
                    (label, t, f, String::new(), String::new())
                }
            })
            .collect(),
    }
}

fn raw_item(label: &str, kind: u64) -> AnalyzerItem {
    AnalyzerItem { label: Some(label.to_string()), kind, insert_text: None }
}

#[test]
fn test_enhance_analyzer_completions() {
    let code = r#"#version 460 core
void main() {
    vec4 myVec = vec4(1.0);
    myVec.x
    dot
}
"#;
    let mut doc_cache = HashMap::new();
    doc_cache.insert("file:///test.frag".to_string(), code.to_string());

    let items = enhance(&doc_cache, "file:///test.frag", 4, 7, vec![raw_item("dot", 3), raw_item("myVec", 6)]);
    let dot_item = items.iter().find(|i| i.0 == "dot").expect("dot item");
    assert_eq!(dot_item.1.as_deref(), Some("dot($1)$0"));
    assert_eq!(dot_item.2, Some(2));

    let swizzle_items = enhance(&doc_cache, "file:///test.frag", 3, 11, Vec::new());
    assert!(swizzle_items.iter().any(|i| i.0 == "x"));
    assert!(swizzle_items.iter().any(|i| i.0 == "xy"));
    assert!(swizzle_items.iter().any(|i| i.0 == "xyz"));
    assert!(swizzle_items.iter().any(|i| i.0 == "xyzw"));
    assert!(!swizzle_items.iter().any(|i| i.0 == "rgba"));

    let clean_items = enhance(&doc_cache, "file:///test.frag", 3, 10, Vec::new());
    assert!(clean_items.iter().any(|i| i.0 == "rgba"));
    assert!(clean_items.iter().any(|i| i.0 == "stpq"));

    let mut seen = std::collections::HashSet::new();
    for item in &swizzle_items {
        assert!(seen.insert(item.0.clone()), "Duplicate label in enhanced completions: '{}'", item.0);
    }

    doc_cache.insert("file:///project/common.glsl".to_string(), "void test() {}\nvec4 testColor = vec4(1.0);".to_string());
    let shader_uri = "file:///project/main.frag";
    doc_cache.insert(shader_uri.to_string(), "#include \"common.glsl\"\nvoid main() {\n    te\n}".to_string());
    let inc_items = enhance(&doc_cache, shader_uri, 2, 6, vec![raw_item("texture", 3), raw_item("testColor", 6)]);
    let test_func = inc_items.iter().find(|i| i.0 == "test").expect("test() function from include");
    assert_eq!(test_func.1.as_deref(), Some("test()$0"));
    assert_eq!(test_func.2, Some(2));
    assert!(test_func.3.contains("common.glsl"));
    let test_var = inc_items.iter().find(|i| i.0 == "testColor").expect("testColor variable from include");
    assert_eq!(test_var.1.as_deref(), Some("testColor"));
    assert!(test_var.3.contains("common.glsl"));
    assert_eq!(inc_items.iter().filter(|i| i.0 == "testColor").count(), 1, "testColor must be deduplicated");

    let struct_code = r#"struct Material {
    vec4 test;
    float a;
};
void main() {
    Material mat;
    mat.
}
"#;
    doc_cache.insert("file:///struct_test.frag".to_string(), struct_code.to_string());
    let struct_items = enhance(
        &doc_cache,
        "file:///struct_test.frag",
        6,
        8,
        vec![raw_item("test", 5), raw_item("a", 5), raw_item("x", 5), raw_item("xy", 5), raw_item("while", 14)],
    );
    assert!(struct_items.iter().any(|i| i.0 == "test"));
    assert!(struct_items.iter().any(|i| i.0 == "a"));
    assert!(!struct_items.iter().any(|i| i.0 == "while"));
    for swizzle in &["x", "y", "z", "w", "r", "g", "b", "s", "t", "p", "q", "xy", "rgba", "stpq", "length()"] {
        assert!(!struct_items.iter().any(|i| i.0 == *swizzle), "Struct completion must NOT contain swizzle '{swizzle}'");
    }
    let a_item = struct_items.iter().find(|i| i.0 == "a").unwrap();
    assert_eq!(a_item.4, "float", "Member 'a' must be the struct float field, not alpha swizzle");

    let fallback = complete(&doc_cache, "file:///struct_test.frag", 6, 8);
    assert!(fallback.iter().any(|i| i.label == "test"));
    assert!(fallback.iter().any(|i| i.label == "a"));
    assert!(!fallback.iter().any(|i| i.label == "x"));
    assert!(!fallback.iter().any(|i| i.label == "xyzw"));
}

#[test]
fn test_benchmarks_ram_and_cpu() {
    let doc = r#"struct Material {
    vec4 test;
    float a;
};
void main() {
    Material mat;
    vec4 color = vec4(1.0);
    mat.
}
"#;
    let doc_cache = vec![doc.to_string()];
    let files: Vec<(String, String)> = Vec::new();
    let user_vars = scan_user_variables(doc, None, Some("file:///bench.frag"));
    let iters = 10_000;
    let start = std::time::Instant::now();
    for _ in 0..iters {
        let dim = infer_vector_dimension_from_vars(&user_vars, doc, "color");
        assert_eq!(dim, Some(4));
    }
    let elapsed_vec = start.elapsed();
    let start = std::time::Instant::now();
    for _ in 0..iters {
        let dim = infer_vector_dimension_from_vars(&user_vars, doc, "mat");
        assert_eq!(dim, None);
    }
    let elapsed_struct = start.elapsed();
    let start = std::time::Instant::now();
    for _ in 0..iters {
        let members = extract_struct_members(&user_vars, doc, &doc_cache, &files, "mat");
        assert_eq!(members.len(), 2);
    }
    let elapsed_members = start.elapsed();
    println!("Iterations per test: {}", iters);
    println!("Vector Dim Inference: {:?}", elapsed_vec);
    println!("Struct Rejection: {:?}", elapsed_struct);
    println!("Struct Member Extraction: {:?}", elapsed_members);
}

#[test]
fn test_find_enclosing_call_simple() {
    let code = "vec3 res = calcualteNormal();";
    let call = find_enclosing_call(code, 0, 27);
    assert_eq!(call, Some(("calcualteNormal".to_string(), 0)));
}

#[test]
fn test_find_enclosing_call_second_param() {
    let code = "vec3 res = calcualteNormal(mat4(1.0), );";
    let call = find_enclosing_call(code, 0, 38);
    assert_eq!(call, Some(("calcualteNormal".to_string(), 1)));
}

#[test]
fn test_find_enclosing_call_nested() {
    let code = "mat4 m = calculateMVP(getFragPos(model, aPos), view, proj);";
    let call = find_enclosing_call(code, 0, 39);
    assert_eq!(call, Some(("getFragPos".to_string(), 1)));
}

#[test]
fn test_scan_user_functions_from_user_screenshot() {
    let code = r#"
mat4 calculateMVP(mat4 model, mat4 view, mat4 projection){
    return model * view * projection;
}

vec3 getFragPos(mat4 model, vec3 aPos){
    return vec3(model * vec4(aPos, 1.0));
}

vec3 calcualteNormal(mat4 normal, vec3 aNormal){
    return mat3(normal) * aNormal;
}
"#;
    let funcs = scan_user_functions(code, None, None);
    assert_eq!(funcs.len(), 3);

    assert_eq!(funcs[0].name, "calculateMVP");
    assert_eq!(funcs[0].return_type, "mat4");
    assert_eq!(funcs[0].parameters.len(), 3);
    assert_eq!(funcs[0].parameters[0], "mat4 model");
    assert_eq!(funcs[0].parameters[1], "mat4 view");
    assert_eq!(funcs[0].parameters[2], "mat4 projection");

    assert_eq!(funcs[1].name, "getFragPos");
    assert_eq!(funcs[1].parameters.len(), 2);
    assert_eq!(funcs[1].parameters[0], "mat4 model");
    assert_eq!(funcs[1].parameters[1], "vec3 aPos");

    assert_eq!(funcs[2].name, "calcualteNormal");
    assert_eq!(funcs[2].parameters.len(), 2);
    assert_eq!(funcs[2].parameters[0], "mat4 normal");
    assert_eq!(funcs[2].parameters[1], "vec3 aNormal");
}

#[test]
fn test_docs_builtin_lookup() {
    let norm = lookup_builtin_function("normalize");
    assert!(norm.is_some());
    let norm_fn = norm.unwrap();
    assert!(norm_fn.description.contains("docs.gl"));
    assert!(norm_fn.overloads.len() >= 4);

    let dot = lookup_builtin_function("dot");
    assert!(dot.is_some());

    let tex = lookup_builtin_function("texture");
    assert!(tex.is_some());
}

#[test]
fn test_scan_multiline_function_and_docs() {
    let code = r#"
// Calculates lighting attenuation
// based on distance.
float calculateAttenuation(
    float distance,
    float constant,
    float linear,
    float quadratic
) {
    return 1.0 / (constant + linear * distance + quadratic * distance * distance);
}
"#;
    let funcs = scan_user_functions(code, None, None);
    assert_eq!(funcs.len(), 1);
    assert_eq!(funcs[0].name, "calculateAttenuation");
    assert_eq!(funcs[0].parameters.len(), 4);
    assert!(funcs[0].doc.is_some());
    assert!(funcs[0].doc.as_ref().unwrap().contains("attenuation"));
}

#[test]
fn test_find_enclosing_call_crlf() {
    let code = "vec3 a = vec3(1.0);\r\nvec3 b = calcualteNormal(a, );\r\n";
    let call = find_enclosing_call(code, 1, 28);
    assert_eq!(call, Some(("calcualteNormal".to_string(), 1)));
}

#[test]
fn test_resolve_includes_live_cache() {
    let mut doc_cache = HashMap::new();
    let common_uri = "file:///project/shaders/common.glsl";
    let common_code = r#"
vec3 getFragPos(mat4 model, vec3 aPos) {
    return vec3(model * vec4(aPos, 1.0));
}
"#;
    doc_cache.insert(common_uri.to_string(), common_code.to_string());

    let main_code = r#"
#include "common.glsl"
void main() {}
"#;
    let (funcs, _) = symbols_of("file:///project/shaders/main.frag", main_code, &doc_cache);
    assert_eq!(funcs.len(), 2);
    let common_fn = funcs.iter().find(|f| f.name == "getFragPos").expect("getFragPos found");
    assert_eq!(common_fn.source, Some("common.glsl".to_string()));
}

#[test]
fn test_is_in_comment_or_string() {
    let code = r#"vec3 a = vec3(1.0); // comment line
/* block comment
   second line */
vec3 b = "string literal";
"#;
    assert!(!is_in_comment_or_string(code, 0, 10));
    assert!(is_in_comment_or_string(code, 0, 25));
    assert!(is_in_comment_or_string(code, 1, 5));
    assert!(is_in_comment_or_string(code, 2, 5));
    assert!(!is_in_comment_or_string(code, 3, 5));
    assert!(is_in_comment_or_string(code, 3, 12));
}

#[test]
fn test_signature_help_in_comment() {
    let code = "// normalize(vec3(1.0), ";
    let res = handle_signature_help(code, 0, 15, &[]);
    assert!(res.is_none());
}

#[test]
fn test_handle_definition() {
    let uri = "file:///shader.frag";
    let code = "vec3 helper() { return vec3(1.0); }\nvoid main() { helper(); }";
    let funcs = scan_user_functions(code, None, Some(uri));
    let vars = scan_user_variables(code, None, Some(uri));
    let res = handle_definition(code, 1, 16, &funcs, &vars).expect("definition");
    assert_eq!(res.uri, uri);
    assert_eq!(res.line, 0);
}

#[test]
fn test_scan_user_variables() {
    let code = r#"
#version 460 core
layout(location = 0) in vec3 aPos;
// Fragment position in world space
out vec3 FragPos;
uniform mat4 model, view, projection;
const float PI = 3.14159;
#define NR_LIGHTS 4
struct Material {
    vec3 ambient;
};
void main() {
    vec3 norm = normalize(aPos);
}
"#;
    let vars = scan_user_variables(code, None, Some("file:///shader.frag"));
    assert!(vars.iter().any(|v| v.name == "aPos" && v.var_type == "vec3" && v.qualifier == "in"));
    assert!(vars.iter().any(|v| v.name == "FragPos"
        && v.var_type == "vec3"
        && v.qualifier == "out"
        && v.doc.as_ref().unwrap().contains("Fragment position")));
    assert!(vars.iter().any(|v| v.name == "model" && v.var_type == "mat4" && v.qualifier == "uniform"));
    assert!(vars.iter().any(|v| v.name == "view" && v.var_type == "mat4" && v.qualifier == "uniform"));
    assert!(vars.iter().any(|v| v.name == "projection" && v.var_type == "mat4" && v.qualifier == "uniform"));
    assert!(vars.iter().any(|v| v.name == "PI" && v.var_type == "float" && v.qualifier == "const"));
    assert!(vars.iter().any(|v| v.name == "NR_LIGHTS" && v.qualifier == "#define"));
    assert!(vars.iter().any(|v| v.name == "Material" && v.qualifier == "struct"));
    assert!(vars.iter().any(|v| v.name == "norm" && v.var_type == "vec3"));
}

#[test]
fn test_variable_hover_and_definition() {
    let uri = "file:///shader.frag";
    let code = "out vec3 FragPos;\nvoid main() { vec3 p = FragPos; }";
    let funcs = scan_user_functions(code, None, Some(uri));
    let vars = scan_user_variables(code, None, Some(uri));
    let hover = handle_hover(code, 1, 24, &funcs, &vars).expect("hover");
    assert!(hover.contains("out vec3 FragPos"));
    let def = handle_definition(code, 1, 24, &funcs, &vars).expect("definition");
    assert_eq!(def.uri, uri);
    assert_eq!(def.line, 0);
}
