//! The syntax dialect that each media type is parsed under.

use vstd::prelude::*;

verus! {

/// The kind of a module's source.
#[derive(Debug, Clone, Copy, PartialEq, Eq, Structural)]
pub enum MediaType {
    JavaScript,
    JSX,
    TypeScript,
    Dts,
    TSX,
    Json,
    Wasm,
    BuildInfo,
    Unknown,
}

/// The features of the JavaScript dialect.
#[derive(Debug, Clone, Copy, PartialEq, Eq, Structural)]
pub struct EsConfig {
    pub jsx: bool,
    pub num_sep: bool,
    pub class_private_props: bool,
    pub class_private_methods: bool,
    pub class_props: bool,
    pub fn_bind: bool,
    pub decorators: bool,
    pub decorators_before_export: bool,
    pub export_default_from: bool,
    pub export_namespace_from: bool,
    pub dynamic_import: bool,
    pub nullish_coalescing: bool,
    pub optional_chaining: bool,
    pub import_meta: bool,
    pub top_level_await: bool,
}

/// The features of the TypeScript dialect.
#[derive(Debug, Clone, Copy, PartialEq, Eq, Structural)]
pub struct TsConfig {
    pub tsx: bool,
    pub decorators: bool,
    pub dynamic_import: bool,
    pub dts: bool,
}

/// A dialect with its features.
#[derive(Debug, Clone, Copy, PartialEq, Eq, Structural)]
pub enum Syntax {
    Es(EsConfig),
    Typescript(TsConfig),
}

/// The JavaScript features that modules are parsed with: the modern
/// proposals on, function binding and decorators off.
pub open spec fn es_config(jsx: bool) -> EsConfig {
    EsConfig {
        jsx,
        num_sep: true,
        class_private_props: true,
        class_private_methods: true,
        class_props: true,
        fn_bind: false,
        decorators: false,
        decorators_before_export: false,
        export_default_from: true,
        export_namespace_from: true,
        dynamic_import: true,
        nullish_coalescing: true,
        optional_chaining: true,
        import_meta: true,
        top_level_await: true,
    }
}

/// The TypeScript features that modules are parsed with: decorators and
/// dynamic import on.
pub open spec fn ts_config(tsx: bool, dts: bool) -> TsConfig {
    TsConfig { tsx, decorators: true, dynamic_import: true, dts }
}

/// The dialect for a media type; any type that is not script falls back to
/// JavaScript without JSX.
pub open spec fn syntax_of(media_type: MediaType) -> Syntax {
    match media_type {
        MediaType::JSX => Syntax::Es(es_config(true)),
        MediaType::TypeScript => Syntax::Typescript(ts_config(false, false)),
        MediaType::Dts => Syntax::Typescript(ts_config(false, true)),
        MediaType::TSX => Syntax::Typescript(ts_config(true, false)),
        _ => Syntax::Es(es_config(false)),
    }
}

/// The JavaScript features, with or without JSX.
pub fn get_es_config(jsx: bool) -> (r: EsConfig)
    ensures
        r == es_config(jsx),
{
    EsConfig {
        jsx,
        num_sep: true,
        class_private_props: true,
        class_private_methods: true,
        class_props: true,
        fn_bind: false,
        decorators: false,
        decorators_before_export: false,
        export_default_from: true,
        export_namespace_from: true,
        dynamic_import: true,
        nullish_coalescing: true,
        optional_chaining: true,
        import_meta: true,
        top_level_await: true,
    }
}

/// The TypeScript features, with or without TSX, for declarations or not.
pub fn get_ts_config(tsx: bool, dts: bool) -> (r: TsConfig)
    ensures
        r == ts_config(tsx, dts),
{
    TsConfig { tsx, decorators: true, dynamic_import: true, dts }
}

/// The dialect that a module of `media_type` is parsed under.
pub fn get_syntax(media_type: &MediaType) -> (r: Syntax)
    ensures
        r == syntax_of(*media_type),
{
    match media_type {
        MediaType::JavaScript => Syntax::Es(get_es_config(false)),
        MediaType::JSX => Syntax::Es(get_es_config(true)),
        MediaType::TypeScript => Syntax::Typescript(get_ts_config(false, false)),
        MediaType::Dts => Syntax::Typescript(get_ts_config(false, true)),
        MediaType::TSX => Syntax::Typescript(get_ts_config(true, false)),
        _ => Syntax::Es(get_es_config(false)),
    }
}

} // verus!
