use deno_ast_core::diagnostics::{DiagnosticBuffer, DiagnosticRecord, ErrorBuffer, FileName, Location};
use deno_ast_core::doctest::{
    collect_doctests, DocComment,
    get_caption_from_example, get_code_from_example, render_doctestnew_file, DocTestNew,
    JSDocExample,
};
use deno_ast_core::emit::{finish_emit, BundleHook, EmitConfigOptions, EmitError, EmitOptions, TransformPass};
use deno_ast_core::syntax::{get_es_config, get_syntax, get_ts_config, MediaType, Syntax};

const MARKER: &str = "\n//# sourceMappingURL=data:application/json;base64,";

fn loc(file: &str, line: usize, col: usize) -> Location {
    Location { filename: file.to_string(), line, col }
}

#[test]
fn syntax_for_each_media_type() {
    assert_eq!(get_syntax(&MediaType::JavaScript), Syntax::Es(get_es_config(false)));
    assert_eq!(get_syntax(&MediaType::JSX), Syntax::Es(get_es_config(true)));
    assert_eq!(get_syntax(&MediaType::TypeScript), Syntax::Typescript(get_ts_config(false, false)));
    assert_eq!(get_syntax(&MediaType::Dts), Syntax::Typescript(get_ts_config(false, true)));
    assert_eq!(get_syntax(&MediaType::TSX), Syntax::Typescript(get_ts_config(true, false)));
    assert_eq!(get_syntax(&MediaType::Json), Syntax::Es(get_es_config(false)));
    assert_eq!(get_syntax(&MediaType::Unknown), Syntax::Es(get_es_config(false)));
}

#[test]
fn es_and_ts_features() {
    let es = get_es_config(true);
    assert!(es.jsx && es.dynamic_import && es.top_level_await && es.optional_chaining);
    assert!(es.nullish_coalescing && es.num_sep && es.class_private_methods && es.import_meta);
    assert!(!es.decorators && !es.fn_bind);
    let ts = get_ts_config(false, true);
    assert!(ts.decorators && ts.dynamic_import && ts.dts && !ts.tsx);
}

#[test]
fn default_emit_options() {
    let o = EmitOptions::default();
    assert!(!o.check_js);
    assert!(!o.emit_metadata);
    assert!(o.inline_source_map);
    assert_eq!(o.jsx_factory, "React.createElement");
    assert_eq!(o.jsx_fragment_factory, "React.Fragment");
    assert!(o.transform_jsx);
}

#[test]
fn emit_options_from_config() {
    let c = EmitConfigOptions {
        check_js: true,
        emit_decorator_metadata: true,
        jsx: "react".to_string(),
        jsx_factory: "h".to_string(),
        jsx_fragment_factory: "Fragment".to_string(),
    };
    let o = EmitOptions::from_config(c.clone());
    assert!(o.check_js && o.emit_metadata && o.inline_source_map && o.transform_jsx);
    assert_eq!(o.jsx_factory, "h");
    assert_eq!(o.jsx_fragment_factory, "Fragment");
    let o = EmitOptions::from_config(EmitConfigOptions { jsx: "preserve".to_string(), ..c });
    assert!(!o.transform_jsx);
}

#[test]
fn passes_in_order() {
    let o = EmitOptions::default();
    let p = o.passes();
    assert_eq!(p.len(), 4);
    match &p[0] {
        TransformPass::Jsx { pragma, pragma_frag, use_builtins } => {
            assert_eq!(pragma, "React.createElement");
            assert_eq!(pragma_frag, "React.Fragment");
            assert!(*use_builtins);
        }
        _ => panic!("first pass is not JSX lowering"),
    }
    assert!(matches!(p[1], TransformPass::Decorators { legacy: true, emit_metadata: false }));
    assert!(matches!(p[2], TransformPass::StripTypes));
    assert!(matches!(p[3], TransformPass::Fixer));
    let o = EmitOptions { transform_jsx: false, emit_metadata: true, ..EmitOptions::default() };
    let p = o.passes();
    assert_eq!(p.len(), 3);
    assert!(matches!(p[0], TransformPass::Decorators { legacy: true, emit_metadata: true }));
    assert!(matches!(p[1], TransformPass::StripTypes));
    assert!(matches!(p[2], TransformPass::Fixer));
}

#[test]
fn inline_map_is_appended_once() {
    let (code, map) = finish_emit(b"var a = 1;\n".to_vec(), b"{}".to_vec(), true).unwrap();
    assert_eq!(code, "var a = 1;\n//# sourceMappingURL=data:application/json;base64,e30=");
    assert!(map.is_none());
    assert_eq!(code.matches(MARKER).count(), 1);
}

#[test]
fn inline_map_after_code_without_final_newline() {
    let (code, map) = finish_emit(b"x".to_vec(), b"{\"version\":3}".to_vec(), true).unwrap();
    assert_eq!(code, "x\n//# sourceMappingURL=data:application/json;base64,eyJ2ZXJzaW9uIjozfQ==");
    assert!(map.is_none());
}

#[test]
fn separate_map_when_not_inlined() {
    let (code, map) = finish_emit(b"var a = 1;\n".to_vec(), b"{\"version\":3}".to_vec(), false).unwrap();
    assert_eq!(code, "var a = 1;\n");
    assert_eq!(map, Some("{\"version\":3}".to_string()));
    assert_eq!(code.matches(MARKER).count(), 0);
}

#[test]
fn emit_errors() {
    assert_eq!(finish_emit(vec![0xff, 0xfe], b"{}".to_vec(), true), Err(EmitError::InvalidCode));
    assert_eq!(finish_emit(b"x\n".to_vec(), vec![0xc3], false), Err(EmitError::InvalidSourceMap));
    assert!(finish_emit(b"x\n".to_vec(), vec![0xc3], true).is_ok());
}

#[test]
fn bundle_hook_strips_delimiters() {
    let h = BundleHook;
    assert_eq!(h.get_import_meta_url("<https://deno.land/x/mod.ts>"), "https://deno.land/x/mod.ts");
    assert_eq!(h.get_import_meta_url("file:///a.ts"), "file:///a.ts");
    assert_eq!(h.get_import_meta_url("<>"), "");
    assert_eq!(h.get_import_meta_url(""), "");
}

#[test]
fn location_text() {
    assert_eq!(loc("https://deno.land/x/mod.ts", 12, 0).to_string(), "https://deno.land/x/mod.ts:12:0");
    assert_eq!(loc("a.ts", 1, 105).to_string(), "a.ts:1:105");
    let l = Location::from_loc(FileName::Custom("mod.ts".to_string()), 3, 7);
    assert_eq!(l.filename, "mod.ts");
    assert_eq!((l.line, l.col), (3, 7));
    let l = Location::from_loc(FileName::Real("/tmp/a.js".to_string()), 1, 0);
    assert_eq!(l.filename, "/tmp/a.js");
}

#[test]
fn diagnostics_rendered_in_order() {
    let mut b = ErrorBuffer::new();
    assert_eq!(b.len(), 0);
    b.emit(DiagnosticRecord {
        message: "Unterminated string constant".to_string(),
        location: Some(loc("https://deno.land/x/mod.ts", 2, 14)),
    });
    b.emit(DiagnosticRecord { message: "Expected ';'".to_string(), location: None });
    assert_eq!(b.len(), 2);
    let d = DiagnosticBuffer::from_error_buffer(b);
    assert_eq!(
        d.messages(),
        vec![
            "Unterminated string constant at https://deno.land/x/mod.ts:2:14".to_string(),
            "Expected ';'".to_string()
        ]
    );
    assert_eq!(
        d.to_string(),
        "Unterminated string constant at https://deno.land/x/mod.ts:2:14,Expected ';'"
    );
}

#[test]
fn empty_diagnostics() {
    let d = DiagnosticBuffer::from_error_buffer(ErrorBuffer::new());
    assert!(d.messages().is_empty());
    assert_eq!(d.to_string(), "");
}

#[test]
fn caption_and_code() {
    let ex = "@example <caption>Adds</caption>\n```ts\nimport { a } from './a.ts';\n * const b = 1;\r\n\n   *   add(b);\n```";
    assert_eq!(get_caption_from_example(ex), Some("Adds".to_string()));
    assert_eq!(get_code_from_example(ex), "  const b = 1;\n  add(b);");
    assert_eq!(get_caption_from_example("@example\n```ts\nx\n```"), None);
    assert_eq!(get_code_from_example(""), "");
}

#[test]
fn repeated_imports_collapse() {
    let ex = JSDocExample {
        source_code: "@example\n```ts\nimport { a } from './a.ts';\nimport { a } from './a.ts';\nimport { b } from './b.ts';\nimport { a } from './a.ts';\na(b);\n```".to_string(),
        filename: "f.ts".to_string(),
        line_number: 4,
    };
    let d = ex.parse().unwrap();
    assert_eq!(
        d.imports,
        vec![
            "import { a } from './a.ts';\n".to_string(),
            "import { b } from './b.ts';\n".to_string(),
            "import { a } from './a.ts';\n".to_string()
        ]
    );
    assert_eq!(d.source_code, "  a(b);");
    assert_eq!(d.filename, "f.ts");
    assert_eq!(d.line_number, 4);
}

#[test]
fn example_without_closing_fence_is_dropped() {
    let s = "@example\n```ts\nfirst();\n```\n@example\n```ts\nsecond();\n";
    let res = JSDocExample::from_str(s.to_string(), "f.ts".to_string(), 9);
    assert_eq!(res.len(), 1);
    assert_eq!(res[0].source_code, "@example\n```ts\nfirst();\n");
    assert_eq!(res[0].line_number, 9);
}

fn doc(caption: Option<&str>, imports: &[&str], ignore: bool, is_async: bool) -> DocTestNew {
    DocTestNew {
        imports: imports.iter().map(|s| s.to_string()).collect(),
        caption: caption.map(|s| s.to_string()),
        line_number: 12,
        filename: "mod.ts".to_string(),
        source_code: "  run();".to_string(),
        ignore,
        is_async,
    }
}

const HEADER: &str = "import { \n    assert,\n    assertArrayContains,\n    assertEquals,\n    assertMatch,\n    assertNotEquals,\n    assertStrContains,\n    assertStrictEq,\n    assertThrows,\n    assertThrowsAsync,\n    equal,\n    unimplemented,\n    unreachable,\n   } from \"https://deno.land/std@0.50.0/testing/asserts.ts\";\n";

#[test]
fn render_test_module() {
    let docs = vec![
        doc(Some("first"), &["import { a } from './a.ts';\n"], false, false),
        doc(None, &["import { a } from './a.ts';\n"], true, true),
    ];
    let out = render_doctestnew_file(docs, true, false, None);
    let expected = format!(
        "{}import {{ a }} from './a.ts';\n\nDeno.doctest({{\n\tname: \"mod.ts - first (line 12)\",\n\tignore: false,\n\tfn() {{\n  run();\n}}\n}});\n\nDeno.doctest({{\n\tname: \"mod.ts -  (line 12)\",\n\tignore: true,\n\tasync fn() {{\n  run();\n}}\n}});\n\n// @ts-ignore\nDeno[Deno.internal].runTests({{\"failFast\":true,\"reportToConsole\":true,\"disableLog\":false,\"isDoctest\":true}});\n",
        HEADER
    );
    assert_eq!(out, expected);
}

#[test]
fn render_with_filter() {
    let out = render_doctestnew_file(Vec::new(), false, true, Some("a\"b".to_string()));
    let expected = format!(
        "{}\n\n// @ts-ignore\nDeno[Deno.internal].runTests({{\"failFast\":false,\"reportToConsole\":false,\"disableLog\":true,\"isDoctest\":true,\"filter\":\"a\\\"b\"}});\n",
        HEADER
    );
    assert_eq!(out, expected);
}

#[test]
fn doctests_from_doc_comments() {
    let nodes = vec![
        DocComment {
            filename: "a.ts".to_string(),
            line: 3,
            js_doc: Some("@example <caption>one</caption>\n```ts\nimport { x } from './x.ts';\nx();\n```\n@example\n```text\nnot code\n```".to_string()),
        },
        DocComment { filename: "a.ts".to_string(), line: 8, js_doc: None },
        DocComment {
            filename: "b.ts".to_string(),
            line: 20,
            js_doc: Some("@example\n```ignore\nawait y();\n```".to_string()),
        },
    ];
    let tests = collect_doctests(&nodes);
    assert_eq!(tests.len(), 2);
    assert_eq!(tests[0].filename, "a.ts");
    assert_eq!(tests[0].line_number, 3);
    assert_eq!(tests[0].caption, Some("one".to_string()));
    assert_eq!(tests[0].imports, vec!["import { x } from './x.ts';\n".to_string()]);
    assert_eq!(tests[0].source_code, "  x();");
    assert!(!tests[0].ignore && !tests[0].is_async);
    assert_eq!(tests[1].filename, "b.ts");
    assert_eq!(tests[1].line_number, 20);
    assert!(tests[1].ignore && tests[1].is_async);
    assert_eq!(tests[1].source_code, "  await y();");
}
