//! Emit options, the plan of transform passes, the attachment of the
//! source map to generated code, and the bundling hook.

use vstd::prelude::*;
use vstd::utf8::{decode_utf8, valid_utf8};
use crate::text::{chars_of, eq_text, push_range, push_str};

verus! {

/// Options which can be adjusted when transpiling a module.
#[derive(Debug, Clone)]
pub struct EmitOptions {
    /// Whether JavaScript is checked and transformed as well, or only TypeScript.
    pub check_js: bool,
    /// Whether lowering a legacy decorator also emits its type metadata.
    pub emit_metadata: bool,
    /// Whether the source map is inlined in the emitted code, or handed back
    /// on its own.
    pub inline_source_map: bool,
    /// The factory that JSX elements are lowered to.
    pub jsx_factory: String,
    /// The factory that JSX fragments are lowered to.
    pub jsx_fragment_factory: String,
    /// Whether JSX is lowered or kept.
    pub transform_jsx: bool,
}

impl Default for EmitOptions {
    fn default() -> (r: EmitOptions)
        ensures
            !r.check_js,
            !r.emit_metadata,
            r.inline_source_map,
            r.jsx_factory@ == "React.createElement"@,
            r.jsx_fragment_factory@ == "React.Fragment"@,
            r.transform_jsx,
    {
        EmitOptions {
            check_js: false,
            emit_metadata: false,
            inline_source_map: true,
            jsx_factory: "React.createElement".to_owned(),
            jsx_fragment_factory: "React.Fragment".to_owned(),
            transform_jsx: true,
        }
    }
}

/// The emit settings of a compiler configuration.
#[derive(Debug, Clone)]
pub struct EmitConfigOptions {
    pub check_js: bool,
    pub emit_decorator_metadata: bool,
    /// How JSX is handled: `"react"` lowers it.
    pub jsx: String,
    pub jsx_factory: String,
    pub jsx_fragment_factory: String,
}

impl EmitOptions {
    /// The emit options of a compiler configuration; the source map is inlined.
    pub fn from_config(config: EmitConfigOptions) -> (r: EmitOptions)
        ensures
            r.check_js == config.check_js,
            r.emit_metadata == config.emit_decorator_metadata,
            r.inline_source_map,
            r.jsx_factory@ == config.jsx_factory@,
            r.jsx_fragment_factory@ == config.jsx_fragment_factory@,
            r.transform_jsx == (config.jsx@ == "react"@),
    {
        let transform_jsx = eq_text(&config.jsx, "react");
        EmitOptions {
            check_js: config.check_js,
            emit_metadata: config.emit_decorator_metadata,
            inline_source_map: true,
            jsx_factory: config.jsx_factory,
            jsx_fragment_factory: config.jsx_fragment_factory,
            transform_jsx,
        }
    }
}

/// One pass over the syntax tree.
#[derive(Debug, Clone)]
pub enum TransformPass {
    /// Lowers JSX to calls of `pragma`, fragments to `pragma_frag`;
    /// `use_builtins` spreads props with `Object.assign` rather than a helper.
    Jsx { pragma: String, pragma_frag: String, use_builtins: bool },
    /// Lowers decorators to registration calls.
    Decorators { legacy: bool, emit_metadata: bool },
    /// Erases type syntax and lowers TypeScript-only constructs.
    StripTypes,
    /// Restores parentheses and statement forms left by the earlier passes.
    Fixer,
}

impl EmitOptions {
    /// The passes that transpiling runs, in order: JSX lowering when asked
    /// for, then legacy decorators, then type stripping, then the fixer.
    pub fn passes(&self) -> (r: Vec<TransformPass>)
        ensures
            r@.len() == if self.transform_jsx { 4int } else { 3int },
            self.transform_jsx ==> match r@[0] {
                TransformPass::Jsx { pragma, pragma_frag, use_builtins } => {
                    &&& pragma@ == self.jsx_factory@
                    &&& pragma_frag@ == self.jsx_fragment_factory@
                    &&& use_builtins
                },
                _ => false,
            },
            ({
                let k = if self.transform_jsx { 1int } else { 0int };
                &&& r@[k] == TransformPass::Decorators { legacy: true, emit_metadata: self.emit_metadata }
                &&& r@[k + 1] == TransformPass::StripTypes
                &&& r@[k + 2] == TransformPass::Fixer
            }),
    {
        let mut r: Vec<TransformPass> = Vec::new();
        if self.transform_jsx {
            r.push(
                TransformPass::Jsx {
                    pragma: self.jsx_factory.clone(),
                    pragma_frag: self.jsx_fragment_factory.clone(),
                    use_builtins: true,
                },
            );
        }
        r.push(TransformPass::Decorators { legacy: true, emit_metadata: self.emit_metadata });
        r.push(TransformPass::StripTypes);
        r.push(TransformPass::Fixer);
        r
    }
}

/// Why emitting failed.
#[derive(Debug, Clone, Copy, PartialEq, Eq, Structural)]
pub enum EmitError {
    /// The generated code is not UTF-8.
    InvalidCode,
    /// The serialized source map is not UTF-8.
    InvalidSourceMap,
}

/// The standard base64 text of `b`, padded.
pub uninterp spec fn base64_of(b: Seq<u8>) -> Seq<char>;

/// A character of the standard base64 alphabet, or its padding.
pub open spec fn is_base64_char(c: char) -> bool {
    ('A' <= c && c <= 'Z') || ('a' <= c && c <= 'z') || ('0' <= c && c <= '9') || c == '+' || c == '/'
        || c == '='
}

/// Relies on `base64::encode`, which uses the standard alphabet with padding.
#[verifier::external_body]
fn base64_text(b: &Vec<u8>) -> (r: String)
    ensures
        r@ == base64_of(b@),
        forall|i: int| 0 <= i < r@.len() ==> is_base64_char(#[trigger] r@[i]),
{
    base64::encode(b)
}

/// Relies on `String::from_utf8`: the text of `b` when it is UTF-8.
#[verifier::external_body]
fn utf8_text(b: Vec<u8>) -> (r: Option<String>)
    ensures
        r is Some <==> valid_utf8(b@),
        match r {
            Some(s) => s@ == decode_utf8(b@),
            None => true,
        },
{
    String::from_utf8(b).ok()
}

/// The comment that introduces an inlined source map.
pub const MAP_MARKER: &'static str = "\n//# sourceMappingURL=data:application/json;base64,";

/// `code` without one trailing line feed.
pub open spec fn without_final_nl(code: Seq<char>) -> Seq<char> {
    if code.len() > 0 && code.last() == '\n' {
        code.drop_last()
    } else {
        code
    }
}

/// `code` followed by the marker comment and the base64 text of `map`, so
/// that the text ends with the comment on a line of its own.
pub open spec fn with_inline_map(code: Seq<char>, map: Seq<u8>) -> Seq<char> {
    without_final_nl(code) + MAP_MARKER@ + base64_of(map)
}

/// Whether `p` occurs in `s` starting at `i`.
pub open spec fn occurs_at(s: Seq<char>, p: Seq<char>, i: int) -> bool {
    0 <= i && i + p.len() <= s.len() && s.subrange(i, i + p.len()) == p
}

/// The marker starts with its only line feed.
proof fn lemma_marker_lines()
    ensures
        MAP_MARKER@.len() > 1,
        MAP_MARKER@[0] == '\n',
        forall|k: int| 1 <= k < MAP_MARKER@.len() ==> MAP_MARKER@[k] != '\n',
{
    reveal_strlit("\n//# sourceMappingURL=data:application/json;base64,");
}

/// Appending the marker and a base64 text to code that holds no marker
/// leaves exactly one marker, right after the code.
proof fn lemma_marker_once(base: Seq<char>, enc: Seq<char>)
    requires
        forall|i: int| !occurs_at(base, MAP_MARKER@, i),
        forall|i: int| 0 <= i < enc.len() ==> is_base64_char(#[trigger] enc[i]),
    ensures
        occurs_at(base + MAP_MARKER@ + enc, MAP_MARKER@, base.len() as int),
        forall|i: int| occurs_at(base + MAP_MARKER@ + enc, MAP_MARKER@, i) ==> i == base.len(),
{
    lemma_marker_lines();
    let m = MAP_MARKER@;
    let t = base + m + enc;
    let n = base.len() as int;
    assert(t.subrange(n, n + m.len()) =~= m);
    assert forall|i: int| occurs_at(t, m, i) implies i == n by {
        let w = t.subrange(i, i + m.len());
        assert(w[0] == m[0]);
        assert(t[i] == '\n');
        if i < n {
            if i + m.len() <= n {
                assert(base.subrange(i, i + m.len()) =~= w);
                assert(occurs_at(base, m, i));
            } else {
                let k = n - i;
                assert(w[k] == m[k]);
                assert(t[n] == '\n');
            }
        } else if i > n {
            if i < n + m.len() {
                assert(t[i] == m[i - n]);
            } else {
                assert(t[i] == enc[i - n - m.len()]);
                assert(is_base64_char(enc[i - n - m.len()]));
            }
        }
    }
}

/// An occurrence in a prefix is an occurrence in the whole.
proof fn lemma_prefix_occurrence(s: Seq<char>, k: int, p: Seq<char>, i: int)
    requires
        0 <= k <= s.len(),
        occurs_at(s.subrange(0, k), p, i),
    ensures
        occurs_at(s, p, i),
{
    assert(s.subrange(0, k).subrange(i, i + p.len()) =~= s.subrange(i, i + p.len()));
}

/// The outcome of emitting `code` and `map` as bytes.
pub open spec fn emitted(code: Seq<u8>, map: Seq<u8>, inline: bool) -> Result<(Seq<char>, Option<Seq<char>>), EmitError> {
    if !valid_utf8(code) {
        Err(EmitError::InvalidCode)
    } else if inline {
        Ok((with_inline_map(decode_utf8(code), map), None))
    } else if !valid_utf8(map) {
        Err(EmitError::InvalidSourceMap)
    } else {
        Ok((decode_utf8(code), Some(decode_utf8(map))))
    }
}

/// The views of an emit result.
pub open spec fn emit_view(r: Result<(String, Option<String>), EmitError>) -> Result<(Seq<char>, Option<Seq<char>>), EmitError> {
    match r {
        Ok((c, Some(m))) => Ok((c@, Some(m@))),
        Ok((c, None)) => Ok((c@, None)),
        Err(e) => Err(e),
    }
}

/// Finishes emitting from the generated code and the serialized source map:
/// with `inline`, the map is appended to the code as a base64 data URL in a
/// trailing comment; otherwise it is handed back as text of its own.
pub fn finish_emit(code: Vec<u8>, map: Vec<u8>, inline: bool) -> (r: Result<(String, Option<String>), EmitError>)
    ensures
        emit_view(r) == emitted(code@, map@, inline),
        (forall|i: int| !occurs_at(decode_utf8(code@), MAP_MARKER@, i)) ==> match r {
            Ok((text, m)) => if inline {
                &&& m is None
                &&& occurs_at(text@, MAP_MARKER@, without_final_nl(decode_utf8(code@)).len() as int)
                &&& forall|i: int|
                    occurs_at(text@, MAP_MARKER@, i) ==> i == without_final_nl(decode_utf8(code@)).len()
            } else {
                &&& m is Some
                &&& forall|i: int| !occurs_at(text@, MAP_MARKER@, i)
            },
            Err(_) => true,
        },
{
    let code_text = match utf8_text(code) {
        Some(t) => t,
        None => {
            return Err(EmitError::InvalidCode);
        },
    };
    if inline {
        let cs = chars_of(code_text.as_str());
        let end = if cs.len() > 0 && cs[cs.len() - 1] == '\n' { cs.len() - 1 } else { cs.len() };
        let mut out = String::new();
        push_range(&mut out, &cs, 0, end);
        push_str(&mut out, MAP_MARKER);
        let encoded = base64_text(&map);
        push_str(&mut out, encoded.as_str());
        assert(cs@.subrange(0, end as int) =~= without_final_nl(cs@));
        proof {
            if forall|i: int| !occurs_at(decode_utf8(code@), MAP_MARKER@, i) {
                assert forall|i: int| !occurs_at(cs@.subrange(0, end as int), MAP_MARKER@, i) by {
                    if occurs_at(cs@.subrange(0, end as int), MAP_MARKER@, i) {
                        lemma_prefix_occurrence(cs@, end as int, MAP_MARKER@, i);
                    }
                }
                lemma_marker_once(cs@.subrange(0, end as int), encoded@);
            }
        }
        Ok((out, None))
    } else {
        match utf8_text(map) {
            Some(m) => Ok((code_text, Some(m))),
            None => Err(EmitError::InvalidSourceMap),
        }
    }
}

/// Hook of the bundler that renders a module's `import.meta.url`.
pub struct BundleHook;

/// A registered name without the `<` and `>` that wrap synthetic names.
pub open spec fn unwrapped_name(name: Seq<char>) -> Seq<char> {
    if name.len() >= 2 && name[0] == '<' && name.last() == '>' {
        name.subrange(1, name.len() - 1)
    } else {
        name
    }
}

impl BundleHook {
    /// The string that stands for the URL of the module registered as
    /// `file_name`.
    pub fn get_import_meta_url(&self, file_name: &str) -> (r: String)
        ensures
            r@ == unwrapped_name(file_name@),
    {
        let cs = chars_of(file_name);
        let n = cs.len();
        let mut r = String::new();
        if n >= 2 && cs[0] == '<' && cs[n - 1] == '>' {
            push_range(&mut r, &cs, 1, n - 1);
        } else {
            push_range(&mut r, &cs, 0, n);
            assert(cs@.subrange(0, n as int) =~= cs@);
        }
        r
    }
}

} // verus!
