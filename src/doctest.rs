//! Extraction of runnable examples from documentation comments, and the
//! rendering of those examples into one test module.

use vstd::prelude::*;
use crate::text::{
    bool_text, chars_of, decimal, dedup, dedup_strings, eq_text, extend_range, join,
    join_strings, opt_view, push_bool, push_decimal, push_range, push_str, string_of,
    trim_start, views, white,
};

verus! {

/// An `import` statement on one line.
pub const IMPORT_PATTERN: &'static str = r"import[^(].*\n";

/// The opening of a fenced example block after an `@example` tag.
pub const EXAMPLE_PATTERN: &'static str = r"@example\s*(?:<\w+>.*</\w+>)*\n(?:\s*\*\s*\n*)*```";

/// The opening of a fenced example block, capturing its language tag.
pub const TEST_TAG_PATTERN: &'static str = r"@example\s*(?:<\w+>.*</\w+>)*\n(?:\s*\*\s*\n*)*```(\w+)";

/// A use of `await` as a word.
pub const AWAIT_PATTERN: &'static str = r"\Wawait\s";

/// Fence markers and `import` statements, which are not part of an example's body.
pub const TICKS_OR_IMPORT_PATTERN: &'static str = r"(?:import[^(].*)|(?:```\w*)";

/// The caption of an example.
pub const CAPTION_PATTERN: &'static str = r"<caption>([\s\w\W]+)</caption>";

/// The successive non-overlapping matches of `pattern` in `text`, leftmost
/// first, each as the matched text and the text that follows it; `None` when
/// `pattern` is not a valid expression.
pub uninterp spec fn regex_matches(pattern: Seq<char>, text: Seq<char>) -> Option<Seq<(Seq<char>, Seq<char>)>>;

/// Group `group` of the first match of `pattern` in `text`, when there is a
/// first match and the group took part in it; `None` when `pattern` is not a
/// valid expression.
pub uninterp spec fn regex_group(pattern: Seq<char>, text: Seq<char>, group: nat) -> Option<Option<Seq<char>>>;

/// `text` with every match of `pattern` replaced by `rep`; `None` when
/// `pattern` is not a valid expression.
pub uninterp spec fn regex_replaced(pattern: Seq<char>, text: Seq<char>, rep: Seq<char>) -> Option<Seq<char>>;

/// The views of a sequence of string pairs.
pub open spec fn pair_views(v: Seq<(String, String)>) -> Seq<(Seq<char>, Seq<char>)> {
    v.map_values(|p: (String, String)| (p.0@, p.1@))
}

/// Relies on `regex::Regex::new` and `regex::Regex::find_iter`: compiles
/// `pattern` and lists its matches in `text`, each with the text after it.
#[verifier::external_body]
fn find_matches(pattern: &str, text: &str) -> (r: Option<Vec<(String, String)>>)
    ensures
        match r {
            Some(v) => regex_matches(pattern@, text@) == Some(pair_views(v@)),
            None => regex_matches(pattern@, text@) is None,
        },
{
    match regex::Regex::new(pattern) {
        Ok(re) => Some(
            re.find_iter(text).map(|m| (m.as_str().to_string(), text[m.end()..].to_string())).collect(),
        ),
        Err(_) => None,
    }
}

/// Relies on `regex::Regex::new` and `regex::Regex::captures`: compiles
/// `pattern` and takes group `group` of its first match in `text`.
#[verifier::external_body]
fn capture_group(pattern: &str, text: &str, group: usize) -> (r: Option<Option<String>>)
    ensures
        match r {
            Some(g) => regex_group(pattern@, text@, group as nat) == Some(opt_view(g)),
            None => regex_group(pattern@, text@, group as nat) is None,
        },
{
    match regex::Regex::new(pattern) {
        Ok(re) => Some(re.captures(text).and_then(|c| c.get(group)).map(|m| m.as_str().to_string())),
        Err(_) => None,
    }
}

/// Relies on `regex::Regex::new` and `regex::Regex::replace_all`: compiles
/// `pattern` and replaces each of its matches in `text` by `rep`, taken literally.
#[verifier::external_body]
fn replace_matches(pattern: &str, text: &str, rep: &str) -> (r: Option<String>)
    ensures
        match r {
            Some(s) => regex_replaced(pattern@, text@, rep@) == Some(s@),
            None => regex_replaced(pattern@, text@, rep@) is None,
        },
{
    match regex::Regex::new(pattern) {
        Ok(re) => Some(re.replace_all(text, regex::NoExpand(rep)).into_owned()),
        Err(_) => None,
    }
}

/// Whether a fence of three backticks starts at `i` in `s`.
pub open spec fn ticks_at(s: Seq<char>, i: int) -> bool {
    0 <= i && i + 3 <= s.len() && s[i] == '`' && s[i + 1] == '`' && s[i + 2] == '`'
}

/// The first position at or after `i` where a fence starts in `s`.
pub open spec fn find_ticks_from(s: Seq<char>, i: int) -> Option<int>
    decreases s.len() - i,
{
    if i < 0 || i + 3 > s.len() {
        None
    } else if ticks_at(s, i) {
        Some(i)
    } else {
        find_ticks_from(s, i + 1)
    }
}

proof fn lemma_find_ticks_bound(s: Seq<char>, i: int)
    ensures
        match find_ticks_from(s, i) {
            Some(j) => i <= j && ticks_at(s, j),
            None => true,
        },
    decreases s.len() - i,
{
    if 0 <= i && i + 3 <= s.len() && !ticks_at(s, i) {
        lemma_find_ticks_bound(s, i + 1);
    }
}

/// The first position where a fence starts in `v`.
pub fn find_ticks(v: &Vec<char>) -> (r: Option<usize>)
    ensures
        match r {
            Some(i) => find_ticks_from(v@, 0) == Some(i as int),
            None => find_ticks_from(v@, 0) is None,
        },
{
    if v.len() < 3 {
        return None;
    }
    let mut i: usize = 0;
    while i <= v.len() - 3
        invariant
            v@.len() >= 3,
            find_ticks_from(v@, 0) == find_ticks_from(v@, i as int),
        decreases v.len() - i,
    {
        if v[i] == '`' && v[i + 1] == '`' && v[i + 2] == '`' {
            return Some(i);
        }
        i = i + 1;
    }
    None
}

/// The example sources found from the matches `heads` of the opening
/// pattern: each opening followed by what comes before the closing fence.
/// An opening with no closing fence after it gives no example.
pub open spec fn example_sources(heads: Seq<(Seq<char>, Seq<char>)>) -> Seq<Seq<char>>
    decreases heads.len(),
{
    if heads.len() == 0 {
        Seq::empty()
    } else {
        let init = example_sources(heads.drop_last());
        let head = heads.last().0;
        let rest = heads.last().1;
        match find_ticks_from(rest, 0) {
            Some(i) => init.push(head + rest.subrange(0, i)),
            None => init,
        }
    }
}

/// The example sources of a documentation comment.
pub open spec fn jsdoc_sources(s: Seq<char>) -> Seq<Seq<char>> {
    match regex_matches(EXAMPLE_PATTERN@, s) {
        Some(heads) => example_sources(heads),
        None => Seq::empty(),
    }
}

/// One example block of a documentation comment, with where it was found.
#[derive(Debug, Clone)]
pub struct JSDocExample {
    pub source_code: String,
    pub filename: String,
    pub line_number: usize,
}

impl JSDocExample {
    /// The example blocks of the documentation comment `jsdoc_str`, in order.
    pub fn from_str(jsdoc_str: String, filename: String, line_number: usize) -> (r: Vec<JSDocExample>)
        ensures
            r@.len() == jsdoc_sources(jsdoc_str@).len(),
            forall|k: int|
                0 <= k < r@.len() ==> {
                    &&& #[trigger] r@[k].source_code@ == jsdoc_sources(jsdoc_str@)[k]
                    &&& r@[k].filename@ == filename@
                    &&& r@[k].line_number == line_number
                },
    {
        let mut r: Vec<JSDocExample> = Vec::new();
        let found = find_matches(EXAMPLE_PATTERN, jsdoc_str.as_str());
        let heads = match found {
            Some(h) => h,
            None => {
                return r;
            },
        };
        let ghost hv = pair_views(heads@);
        let mut i: usize = 0;
        while i < heads.len()
            invariant
                i <= heads@.len(),
                hv == pair_views(heads@),
                regex_matches(EXAMPLE_PATTERN@, jsdoc_str@) == Some(hv),
                r@.len() == example_sources(hv.subrange(0, i as int)).len(),
                forall|k: int|
                    0 <= k < r@.len() ==> {
                        &&& #[trigger] r@[k].source_code@ == example_sources(hv.subrange(0, i as int))[k]
                        &&& r@[k].filename@ == filename@
                        &&& r@[k].line_number == line_number
                    },
            decreases heads@.len() - i,
        {
            assert(hv.subrange(0, i + 1).drop_last() =~= hv.subrange(0, i as int));
            let rest = chars_of(heads[i].1.as_str());
            match find_ticks(&rest) {
                Some(end) => {
                    proof {
                        lemma_find_ticks_bound(rest@, 0);
                    }
                    let mut source_code = heads[i].0.clone();
                    push_range(&mut source_code, &rest, 0, end);
                    r.push(JSDocExample { source_code, filename: filename.clone(), line_number });
                },
                None => {},
            }
            i = i + 1;
        }
        assert(hv.subrange(0, heads@.len() as int) =~= hv);
        assert(jsdoc_sources(jsdoc_str@) == example_sources(hv));
        r
    }
}

/// The views of a sequence of character vectors.
pub open spec fn vec_views(v: Seq<Vec<char>>) -> Seq<Seq<char>> {
    v.map_values(|x: Vec<char>| x@)
}

/// The pieces of `s` between line feeds, in order; there is always one
/// more piece than there are line feeds.
pub open spec fn split_nl(s: Seq<char>) -> Seq<Seq<char>>
    decreases s.len(),
{
    if s.len() == 0 {
        seq![Seq::empty()]
    } else {
        let init = split_nl(s.drop_last());
        if s.last() == '\n' {
            init.push(Seq::empty())
        } else {
            init.update(init.len() - 1, init.last().push(s.last()))
        }
    }
}

/// `l` without one trailing carriage return.
pub open spec fn strip_cr(l: Seq<char>) -> Seq<char> {
    if l.len() > 0 && l.last() == '\r' {
        l.drop_last()
    } else {
        l
    }
}

/// The lines of `s`: the pieces between line feeds, a carriage return
/// before a line feed dropped, and no empty piece after a final line feed.
pub open spec fn lines_of(s: Seq<char>) -> Seq<Seq<char>> {
    let p = split_nl(s);
    let ended = p.drop_last().map_values(|l: Seq<char>| strip_cr(l));
    if p.last().len() == 0 {
        ended
    } else {
        ended.push(p.last())
    }
}

proof fn lemma_split_nonempty(s: Seq<char>)
    ensures
        split_nl(s).len() >= 1,
    decreases s.len(),
{
    if s.len() > 0 {
        lemma_split_nonempty(s.drop_last());
    }
}

fn split_lines(s: &Vec<char>) -> (r: Vec<Vec<char>>)
    ensures
        vec_views(r@) == split_nl(s@),
{
    let mut done: Vec<Vec<char>> = Vec::new();
    let mut cur: Vec<char> = Vec::new();
    let mut i: usize = 0;
    while i < s.len()
        invariant
            i <= s@.len(),
            vec_views(done@).push(cur@) == split_nl(s@.subrange(0, i as int)),
        decreases s@.len() - i,
    {
        let ghost sub = s@.subrange(0, i + 1);
        assert(sub.drop_last() =~= s@.subrange(0, i as int));
        if s[i] == '\n' {
            done.push(cur);
            cur = Vec::new();
        } else {
            cur.push(s[i]);
        }
        i = i + 1;
        assert(vec_views(done@).push(cur@) =~= split_nl(sub));
    }
    assert(s@.subrange(0, s@.len() as int) =~= s@);
    done.push(cur);
    assert(vec_views(done@) =~= split_nl(s@));
    done
}

fn strip_cr_vec(l: Vec<char>) -> (r: Vec<char>)
    ensures
        r@ == strip_cr(l@),
{
    let mut l = l;
    if l.len() > 0 && l[l.len() - 1] == '\r' {
        l.pop();
    }
    l
}

/// The lines of `s`, as `str::lines` gives them.
pub fn lines(s: &Vec<char>) -> (r: Vec<Vec<char>>)
    ensures
        vec_views(r@) == lines_of(s@),
{
    let p = split_lines(s);
    proof {
        lemma_split_nonempty(s@);
    }
    let ghost pv = split_nl(s@);
    let ghost ended = pv.drop_last().map_values(|l: Seq<char>| strip_cr(l));
    let mut r: Vec<Vec<char>> = Vec::new();
    let mut i: usize = 0;
    let n = p.len() - 1;
    while i < n
        invariant
            n + 1 == p@.len(),
            i <= n,
            vec_views(p@) == pv,
            ended == pv.drop_last().map_values(|l: Seq<char>| strip_cr(l)),
            vec_views(r@) == ended.subrange(0, i as int),
        decreases n - i,
    {
        let piece = p[i].clone();
        assert(piece@ == pv[i as int]);
        let ghost prev = r@;
        let stripped = strip_cr_vec(piece);
        assert(ended[i as int] == strip_cr(pv[i as int]));
        r.push(stripped);
        assert(ended.subrange(0, i + 1) =~= ended.subrange(0, i as int).push(strip_cr(pv[i as int])));
        assert(vec_views(r@) =~= vec_views(prev).push(stripped@));
        i = i + 1;
        assert(vec_views(r@) =~= ended.subrange(0, i as int));
    }
    assert(ended.subrange(0, n as int) =~= ended);
    if p[n].len() > 0 {
        r.push(p[n].clone());
    }
    assert(vec_views(r@) =~= lines_of(s@));
    r
}

/// A line of an example's body without its leading white space, nor a
/// leading `*` of the comment with the white space after it.
pub open spec fn clean_line(l: Seq<char>) -> Seq<char> {
    let t = trim_start(l);
    if t.len() > 0 && t[0] == '*' {
        trim_start(t.drop_first())
    } else {
        t
    }
}

/// The non-empty cleaned lines of `ls`, each indented by two spaces.
pub open spec fn code_lines(ls: Seq<Seq<char>>) -> Seq<Seq<char>>
    decreases ls.len(),
{
    if ls.len() == 0 {
        Seq::empty()
    } else {
        let init = code_lines(ls.drop_last());
        let c = clean_line(ls.last());
        if c.len() == 0 {
            init
        } else {
            init.push(seq![' ', ' '] + c)
        }
    }
}

/// The body of an example from its text with fences and imports already
/// replaced by line feeds: the lines after the first, cleaned, indented and
/// joined by line feeds.
pub open spec fn code_text(replaced: Seq<char>) -> Seq<char> {
    let ls = lines_of(replaced);
    let body = if ls.len() == 0 { ls } else { ls.drop_first() };
    join(code_lines(body), seq!['\n'])
}

/// The body of the example `ex`.
pub open spec fn code_of(ex: Seq<char>) -> Seq<char> {
    match regex_replaced(TICKS_OR_IMPORT_PATTERN@, ex, "\n"@) {
        Some(r) => code_text(r),
        None => Seq::empty(),
    }
}

/// The first index at or after `from` in `v` that is not white space.
fn skip_white(v: &Vec<char>, from: usize) -> (k: usize)
    requires
        from <= v@.len(),
    ensures
        from <= k <= v@.len(),
        v@.subrange(k as int, v@.len() as int) == trim_start(v@.subrange(from as int, v@.len() as int)),
{
    let mut k = from;
    while k < v.len() && white(v[k])
        invariant
            from <= k <= v@.len(),
            trim_start(v@.subrange(k as int, v@.len() as int)) == trim_start(
                v@.subrange(from as int, v@.len() as int),
            ),
        decreases v@.len() - k,
    {
        assert(v@.subrange(k as int, v@.len() as int).drop_first() =~= v@.subrange(
            k + 1,
            v@.len() as int,
        ));
        k = k + 1;
    }
    k
}

/// The start of the cleaned part of `l`: `l[k..]` is `clean_line(l)`.
fn clean_start(l: &Vec<char>) -> (k: usize)
    ensures
        k <= l@.len(),
        l@.subrange(k as int, l@.len() as int) == clean_line(l@),
{
    assert(l@.subrange(0, l@.len() as int) =~= l@);
    let k = skip_white(l, 0);
    if k < l.len() && l[k] == '*' {
        assert(l@.subrange(k as int, l@.len() as int).drop_first() =~= l@.subrange(
            k + 1,
            l@.len() as int,
        ));
        skip_white(l, k + 1)
    } else {
        k
    }
}

/// The body of an example from its text with fences and imports replaced.
pub fn code_from_replaced(replaced: &Vec<char>) -> (r: Vec<char>)
    ensures
        r@ == code_text(replaced@),
{
    let ls = lines(replaced);
    let ghost lv = vec_views(ls@);
    let ghost body = if lv.len() == 0 { lv } else { lv.drop_first() };
    let mut out: Vec<char> = Vec::new();
    if ls.len() == 0 {
        return out;
    }
    let mut any = false;
    let mut i: usize = 1;
    while i < ls.len()
        invariant
            1 <= i <= ls@.len(),
            any == (code_lines(body.subrange(0, i - 1)).len() > 0),
            lv == vec_views(ls@),
            body == lv.drop_first(),
            out@ == join(code_lines(body.subrange(0, i - 1)), seq!['\n']),
        decreases ls@.len() - i,
    {
        let ghost pre = code_lines(body.subrange(0, i - 1));
        assert(body.subrange(0, i as int).drop_last() =~= body.subrange(0, i - 1));
        let line = &ls[i];
        let k = clean_start(line);
        if k < line.len() {
            let ghost c = seq![' ', ' '] + clean_line(line@);
            if any {
                out.push('\n');
            }
            any = true;
            out.push(' ');
            out.push(' ');
            extend_range(&mut out, line, k, line.len());
            assert(pre.push(c).drop_last() =~= pre);
            assert(out@ =~= join(pre.push(c), seq!['\n']));
        }
        i = i + 1;
    }
    assert(body.subrange(0, ls@.len() - 1) =~= body);
    out
}

/// The body of the example `ex`: fences and imports dropped, the lines
/// after the first cleaned of comment stars and indentation, each indented
/// by two spaces, empty ones left out.
pub fn get_code_from_example(ex: &str) -> (r: String)
    ensures
        r@ == code_of(ex@),
{
    match replace_matches(TICKS_OR_IMPORT_PATTERN, ex, "\n") {
        Some(replaced) => {
            let cs = chars_of(replaced.as_str());
            let code = code_from_replaced(&cs);
            string_of(&code)
        },
        None => String::new(),
    }
}

/// The caption of the example `ex`.
pub open spec fn caption_of(ex: Seq<char>) -> Option<Seq<char>> {
    match regex_group(CAPTION_PATTERN@, ex, 1) {
        Some(g) => g,
        None => None,
    }
}

/// The caption of the example `ex`, the text between `<caption>` and
/// `</caption>`.
pub fn get_caption_from_example(ex: &str) -> (r: Option<String>)
    ensures
        opt_view(r) == caption_of(ex@),
{
    match capture_group(CAPTION_PATTERN, ex, 1) {
        Some(g) => g,
        None => None,
    }
}

/// The language tag of the example `src`, the word after its opening fence.
pub open spec fn tag_of(src: Seq<char>) -> Option<Seq<char>> {
    match regex_group(TEST_TAG_PATTERN@, src, 1) {
        Some(g) => g,
        None => None,
    }
}

/// The texts of the matches of `pattern` in `src`, in order.
pub open spec fn match_texts(pattern: Seq<char>, src: Seq<char>) -> Seq<Seq<char>> {
    match regex_matches(pattern, src) {
        Some(ms) => ms.map_values(|p: (Seq<char>, Seq<char>)| p.0),
        None => Seq::empty(),
    }
}

/// Whether the example `src` uses `await`.
pub open spec fn awaits(src: Seq<char>) -> bool {
    match regex_matches(AWAIT_PATTERN@, src) {
        Some(ms) => ms.len() > 0,
        None => false,
    }
}

/// An example made ready to run as a test.
#[derive(Debug, Clone)]
pub struct DocTestNew {
    pub imports: Vec<String>,
    pub caption: Option<String>,
    pub line_number: usize,
    pub filename: String,
    pub source_code: String,
    pub ignore: bool,
    pub is_async: bool,
}

/// The texts of the matches of `pattern` in `src`, in order.
fn matched_texts(pattern: &str, src: &str) -> (r: Vec<String>)
    ensures
        views(r@) == match_texts(pattern@, src@),
{
    let mut r: Vec<String> = Vec::new();
    match find_matches(pattern, src) {
        Some(ms) => {
            let ghost want = match_texts(pattern@, src@);
            let mut i: usize = 0;
            while i < ms.len()
                invariant
                    i <= ms@.len(),
                    regex_matches(pattern@, src@) == Some(pair_views(ms@)),
                    want == pair_views(ms@).map_values(|p: (Seq<char>, Seq<char>)| p.0),
                    views(r@) == want.subrange(0, i as int),
                decreases ms@.len() - i,
            {
                let ghost prev = r@;
                let t = ms[i].0.clone();
                r.push(t);
                assert(views(r@) =~= views(prev).push(t@));
                assert(want.subrange(0, i + 1) =~= want.subrange(0, i as int).push(t@));
                i = i + 1;
            }
            assert(want.subrange(0, ms@.len() as int) =~= want);
        },
        None => {},
    }
    r
}

/// Whether `d` is the test made from the example source `ex.0`, found in
/// file `ex.1` at line `ex.2`.
pub open spec fn doctest_of(d: DocTestNew, ex: (Seq<char>, Seq<char>, usize)) -> bool {
    &&& views(d.imports@) == dedup(match_texts(IMPORT_PATTERN@, ex.0))
    &&& opt_view(d.caption) == caption_of(ex.0)
    &&& d.source_code@ == code_of(ex.0)
    &&& d.is_async == awaits(ex.0)
    &&& d.ignore == (tag_of(ex.0) == Some("ignore"@))
    &&& d.filename@ == ex.1
    &&& d.line_number == ex.2
}

impl JSDocExample {
    /// The test for this example: `None` for an example tagged `text`;
    /// otherwise its imports (repeats in a row collapsed), caption, body,
    /// whether it awaits, and whether it is tagged `ignore`.
    pub fn parse(&self) -> (r: Option<DocTestNew>)
        ensures
            r is None <==> tag_of(self.source_code@) == Some("text"@),
            match r {
                Some(d) => doctest_of(d, (self.source_code@, self.filename@, self.line_number)),
                None => true,
            },
    {
        let src = self.source_code.as_str();
        let tag = match capture_group(TEST_TAG_PATTERN, src, 1) {
            Some(g) => g,
            None => None,
        };
        let ignore = match &tag {
            Some(t) => {
                if eq_text(t, "text") {
                    return None;
                }
                eq_text(t, "ignore")
            },
            None => false,
        };
        let imports = dedup_strings(matched_texts(IMPORT_PATTERN, src));
        let caption = get_caption_from_example(src);
        let source_code = get_code_from_example(src);
        let is_async = match find_matches(AWAIT_PATTERN, src) {
            Some(ms) => ms.len() > 0,
            None => false,
        };
        Some(
            DocTestNew {
                imports,
                caption,
                line_number: self.line_number,
                filename: self.filename.clone(),
                source_code,
                ignore,
                is_async,
            },
        )
    }
}

/// The JSON text of the string `s`, quoted and escaped.
pub uninterp spec fn json_quoted(s: Seq<char>) -> Seq<char>;

/// Relies on `serde_json::Value`'s `Display`: the compact JSON text of a
/// string value.
#[verifier::external_body]
fn json_string(s: &str) -> (r: String)
    ensures
        r@ == json_quoted(s@),
{
    serde_json::Value::String(s.to_string()).to_string()
}

/// The import of the assertion helpers that every rendered test module starts with.
pub const DEFAULT_IMPORT: &'static str = "import { \n    assert,\n    assertArrayContains,\n    assertEquals,\n    assertMatch,\n    assertNotEquals,\n    assertStrContains,\n    assertStrictEq,\n    assertThrows,\n    assertThrowsAsync,\n    equal,\n    unimplemented,\n    unreachable,\n   } from \"https://deno.land/std@0.50.0/testing/asserts.ts\";\n";

/// The imports of `docs`, in order.
pub open spec fn all_imports(docs: Seq<DocTestNew>) -> Seq<Seq<char>>
    decreases docs.len(),
{
    if docs.len() == 0 {
        Seq::empty()
    } else {
        all_imports(docs.drop_last()) + views(docs.last().imports@)
    }
}

/// The caption of `d`, empty when it has none.
pub open spec fn caption_text(d: DocTestNew) -> Seq<char> {
    match d.caption {
        Some(c) => c@,
        None => Seq::empty(),
    }
}

/// The registration of one test.
pub open spec fn section(d: DocTestNew) -> Seq<char> {
    "Deno.doctest({\n\tname: \""@ + d.filename@ + " - "@ + caption_text(d) + " (line "@
        + decimal(d.line_number as nat) + ")\",\n\tignore: "@ + bool_text(d.ignore) + ",\n\t"@
        + (if d.is_async { "async "@ } else { Seq::empty() }) + "fn() {\n"@ + d.source_code@
        + "\n}\n});\n"@
}

/// The registrations of `docs`, in order.
pub open spec fn sections(docs: Seq<DocTestNew>) -> Seq<Seq<char>> {
    docs.map_values(|d: DocTestNew| section(d))
}

/// The options handed to the test runner, as a JSON object.
pub open spec fn run_options(fail_fast: bool, quiet: bool, filter: Option<Seq<char>>) -> Seq<char> {
    "{\"failFast\":"@ + bool_text(fail_fast) + ",\"reportToConsole\":"@ + bool_text(!quiet)
        + ",\"disableLog\":"@ + bool_text(quiet) + ",\"isDoctest\":true"@ + (match filter {
        Some(f) => ",\"filter\":"@ + json_quoted(f),
        None => Seq::empty(),
    }) + "}"@
}

/// The test module that runs `docs`.
pub open spec fn rendered_file(docs: Seq<DocTestNew>, fail_fast: bool, quiet: bool, filter: Option<Seq<char>>) -> Seq<char> {
    DEFAULT_IMPORT@ + join(dedup(all_imports(docs)), "\n"@) + "\n"@ + join(sections(docs), "\n"@)
        + "\n// @ts-ignore\nDeno[Deno.internal].runTests("@ + run_options(fail_fast, quiet, filter)
        + ");\n"@
}

fn render_section(d: &DocTestNew) -> (r: String)
    ensures
        r@ == section(*d),
{
    let mut r = String::new();
    push_str(&mut r, "Deno.doctest({\n\tname: \"");
    push_str(&mut r, d.filename.as_str());
    push_str(&mut r, " - ");
    match &d.caption {
        Some(c) => push_str(&mut r, c.as_str()),
        None => {},
    }
    push_str(&mut r, " (line ");
    push_decimal(&mut r, d.line_number);
    push_str(&mut r, ")\",\n\tignore: ");
    push_bool(&mut r, d.ignore);
    push_str(&mut r, ",\n\t");
    if d.is_async {
        push_str(&mut r, "async ");
    }
    push_str(&mut r, "fn() {\n");
    push_str(&mut r, d.source_code.as_str());
    push_str(&mut r, "\n}\n});\n");
    assert(r@ =~= section(*d));
    r
}

fn collect_imports(docs: &Vec<DocTestNew>) -> (r: Vec<String>)
    ensures
        views(r@) == all_imports(docs@),
{
    let mut r: Vec<String> = Vec::new();
    let mut i: usize = 0;
    while i < docs.len()
        invariant
            i <= docs@.len(),
            views(r@) == all_imports(docs@.subrange(0, i as int)),
        decreases docs@.len() - i,
    {
        assert(docs@.subrange(0, i + 1).drop_last() =~= docs@.subrange(0, i as int));
        let ghost base = views(r@);
        let imports = &docs[i].imports;
        let mut j: usize = 0;
        while j < imports.len()
            invariant
                j <= imports@.len(),
                views(r@) == base + views(imports@.subrange(0, j as int)),
            decreases imports@.len() - j,
        {
            let ghost prev = r@;
            let t = imports[j].clone();
            r.push(t);
            assert(views(r@) =~= views(prev).push(t@));
            assert(views(imports@.subrange(0, j + 1)) =~= views(imports@.subrange(0, j as int)).push(t@));
            j = j + 1;
        }
        assert(imports@.subrange(0, imports@.len() as int) =~= imports@);
        i = i + 1;
    }
    assert(docs@.subrange(0, docs@.len() as int) =~= docs@);
    r
}

/// Renders `doctests` into one test module: the assertion helpers'
/// import, the examples' imports (repeats in a row collapsed), one
/// registration per example, and the call that runs them with the given
/// options.
pub fn render_doctestnew_file(doctests: Vec<DocTestNew>, fail_fast: bool, quiet: bool, filter: Option<String>) -> (r: String)
    ensures
        r@ == rendered_file(doctests@, fail_fast, quiet, opt_view(filter)),
{
    let mut r = String::new();
    push_str(&mut r, DEFAULT_IMPORT);
    let imports = dedup_strings(collect_imports(&doctests));
    let joined = join_strings(&imports, "\n");
    push_str(&mut r, joined.as_str());
    push_str(&mut r, "\n");
    let mut secs: Vec<String> = Vec::new();
    let mut i: usize = 0;
    while i < doctests.len()
        invariant
            i <= doctests@.len(),
            views(secs@) == sections(doctests@.subrange(0, i as int)),
        decreases doctests@.len() - i,
    {
        let ghost prev = secs@;
        let sec = render_section(&doctests[i]);
        secs.push(sec);
        assert(views(secs@) =~= views(prev).push(sec@));
        assert(sections(doctests@.subrange(0, i + 1)) =~= sections(doctests@.subrange(0, i as int)).push(sec@));
        i = i + 1;
    }
    assert(doctests@.subrange(0, doctests@.len() as int) =~= doctests@);
    let body = join_strings(&secs, "\n");
    push_str(&mut r, body.as_str());
    push_str(&mut r, "\n// @ts-ignore\nDeno[Deno.internal].runTests(");
    push_str(&mut r, "{\"failFast\":");
    push_bool(&mut r, fail_fast);
    push_str(&mut r, ",\"reportToConsole\":");
    push_bool(&mut r, !quiet);
    push_str(&mut r, ",\"disableLog\":");
    push_bool(&mut r, quiet);
    push_str(&mut r, ",\"isDoctest\":true");
    match &filter {
        Some(f) => {
            push_str(&mut r, ",\"filter\":");
            let q = json_string(f.as_str());
            push_str(&mut r, q.as_str());
        },
        None => {},
    }
    push_str(&mut r, "}");
    push_str(&mut r, ");\n");
    assert(r@ =~= rendered_file(doctests@, fail_fast, quiet, opt_view(filter)));
    r
}

/// A documented item: where it stands and its documentation comment.
#[derive(Debug, Clone)]
pub struct DocComment {
    pub filename: String,
    pub line: usize,
    pub js_doc: Option<String>,
}

/// The examples of one item, each with the item's file and line.
pub open spec fn item_examples(n: DocComment) -> Seq<(Seq<char>, Seq<char>, usize)> {
    match n.js_doc {
        Some(j) => jsdoc_sources(j@).map_values(|src: Seq<char>| (src, n.filename@, n.line)),
        None => Seq::empty(),
    }
}

/// The examples of `nodes`, in order, each with the file and line of its item.
pub open spec fn node_examples(nodes: Seq<DocComment>) -> Seq<(Seq<char>, Seq<char>, usize)>
    decreases nodes.len(),
{
    if nodes.len() == 0 {
        Seq::empty()
    } else {
        node_examples(nodes.drop_last()) + item_examples(nodes.last())
    }
}

/// The examples of `exs` that are not tagged `text`.
pub open spec fn runnable(exs: Seq<(Seq<char>, Seq<char>, usize)>) -> Seq<(Seq<char>, Seq<char>, usize)>
    decreases exs.len(),
{
    if exs.len() == 0 {
        Seq::empty()
    } else if tag_of(exs.last().0) == Some("text"@) {
        runnable(exs.drop_last())
    } else {
        runnable(exs.drop_last()).push(exs.last())
    }
}

/// The tests of every example in the documentation comments of `nodes`, in
/// order; examples tagged `text` give none.
pub fn collect_doctests(nodes: &Vec<DocComment>) -> (r: Vec<DocTestNew>)
    ensures
        r@.len() == runnable(node_examples(nodes@)).len(),
        forall|k: int|
            0 <= k < r@.len() ==> doctest_of(#[trigger] r@[k], runnable(node_examples(nodes@))[k]),
{
    let mut r: Vec<DocTestNew> = Vec::new();
    let ghost mut seen: Seq<(Seq<char>, Seq<char>, usize)> = Seq::empty();
    let mut i: usize = 0;
    while i < nodes.len()
        invariant
            i <= nodes@.len(),
            seen == node_examples(nodes@.subrange(0, i as int)),
            r@.len() == runnable(seen).len(),
            forall|k: int| 0 <= k < r@.len() ==> doctest_of(#[trigger] r@[k], runnable(seen)[k]),
        decreases nodes@.len() - i,
    {
        let node = &nodes[i];
        assert(nodes@.subrange(0, i + 1).drop_last() =~= nodes@.subrange(0, i as int));
        let ghost own = item_examples(*node);
        let ghost before = seen;
        match &node.js_doc {
            Some(j) => {
                let examples = JSDocExample::from_str(j.clone(), node.filename.clone(), node.line);
                let mut e: usize = 0;
                while e < examples.len()
                    invariant
                        e <= examples@.len(),
                        examples@.len() == own.len(),
                        forall|k: int|
                            0 <= k < examples@.len() ==> (#[trigger] examples@[k].source_code@,
                            examples@[k].filename@, examples@[k].line_number) == own[k],
                        seen == before + own.subrange(0, e as int),
                        r@.len() == runnable(seen).len(),
                        forall|k: int|
                            0 <= k < r@.len() ==> doctest_of(#[trigger] r@[k], runnable(seen)[k]),
                    decreases examples@.len() - e,
                {
                    let ex = &examples[e];
                    let ghost item = (ex.source_code@, ex.filename@, ex.line_number);
                    assert(item == own[e as int]);
                    let ghost next = seen.push(item);
                    assert(next.drop_last() =~= seen);
                    assert(before + own.subrange(0, e + 1) =~= next);
                    match ex.parse() {
                        Some(d) => {
                            r.push(d);
                        },
                        None => {},
                    }
                    proof {
                        seen = next;
                    }
                    e = e + 1;
                }
                assert(own.subrange(0, own.len() as int) =~= own);
            },
            None => {
                assert(before + own =~= before);
            },
        }
        i = i + 1;
    }
    assert(nodes@.subrange(0, nodes@.len() as int) =~= nodes@);
    r
}

} // verus!
