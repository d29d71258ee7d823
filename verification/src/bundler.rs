//! The bundler: collapse a module graph rooted at an entry file into one
//! immediately-invoked expression that returns an object of the entry's
//! exports. Modules are emitted dependencies-first; cycles are rejected.
//! `bundle_files` bundles a plain module table under a complete contract
//! (`spec_bundle_files`); `run_bundle` runs the same walk over any
//! `ModuleLoader`, whose answers no contract can pin.
//!
//! The surface handled here is line-oriented: top-level `import`/`export`
//! statements must start at the beginning of a line, import specifiers are
//! double-quoted, and exports are rewritten into shared-scope bindings.

use vstd::prelude::*;

use crate::text::{append_chars, from_chars, starts_with, to_chars};

verus! {

pub type ModulePath = String;

pub type ModuleSource = String;

/// A bundling failure.
#[derive(Debug)]
pub enum BundleError {
    /// A specifier could not be resolved against its importer.
    ResolveFailed(String, String),
    /// A resolved module could not be loaded.
    LoadFailed(String),
    /// A module's text was not understood; the second field is a diagnostic.
    ParseFailed(String, String),
    /// The module graph has a cycle through this path.
    CyclicImport(String),
}

/// Defines the interface of a module loader.
pub trait ModuleLoader {
    /// The source text of the module at `specifier` (an absolute path).
    fn load(&self, specifier: &str) -> Result<ModuleSource, BundleError>;

    /// The absolute path a specifier denotes, relative to `base`.
    fn resolve(&self, base: Option<&str>, specifier: &str) -> Result<ModulePath, BundleError>;
}

/// How the bundle is emitted.
pub struct BundleOptions {
    /// Collapse whitespace outside string and template literals.
    pub minify: bool,
}

impl Default for BundleOptions {
    /// By default the output is minified.
    fn default() -> (r: BundleOptions)
        ensures
            r.minify == true,
    {
        BundleOptions { minify: true }
    }
}

/// An in-memory loader: a fixed table of path/source pairs. Relative
/// specifiers (`./x`) resolve against the importer's directory; everything
/// else is taken as a path verbatim.
pub struct MemoryLoader {
    pub files: Vec<(String, String)>,
}

impl ModuleLoader for MemoryLoader {
    /// Serves the first table entry under the path; the semantics are
    /// stated and proved on `lookup_files`, which this call delegates to
    /// (a trait impl here cannot carry clauses of its own).
    fn load(&self, specifier: &str) -> Result<ModuleSource, BundleError> {
        match lookup_files(&self.files, specifier) {
            Option::Some(s) => Result::Ok(s),
            Option::None => Result::Err(BundleError::LoadFailed(specifier.to_owned())),
        }
    }

    /// Joins `./` specifiers to the importer's directory and takes others
    /// verbatim; the semantics are stated and proved on `resolve_path`.
    fn resolve(&self, base: Option<&str>, specifier: &str) -> Result<ModulePath, BundleError> {
        Result::Ok(resolve_path(base, specifier))
    }
}

/// A character that can sit inside an identifier.
pub open spec fn spec_identish(c: char) -> bool {
    ('a' <= c && c <= 'z') || ('A' <= c && c <= 'Z') || ('0' <= c && c <= '9') || c == '_' || c
        == '$'
}

/// Whitespace the minifier may collapse.
pub open spec fn spec_ws(c: char) -> bool {
    c == ' ' || c == '\t' || c == '\n' || c == '\r'
}

/// Where the minifier stands in the text.
#[derive(Clone, Copy)]
pub enum MinMode {
    /// Ordinary code.
    Normal,
    /// Inside a string literal opened by the carried quote.
    Str(char),
    /// Right after a backslash inside such a string.
    StrEsc(char),
    /// Inside a template literal.
    Tpl,
    /// Right after a backslash inside a template literal.
    TplEsc,
    /// Right after a `/` in code; whether it opens a comment is undecided.
    Slash,
    /// Inside a `//` comment.
    LineComment,
    /// Inside a `/* */` comment.
    BlockComment,
    /// Inside a `/* */` comment, right after a `*`.
    BlockStar,
}

/// The minifier's whole state: mode, whether whitespace is pending, and
/// whether the last emitted character could continue an identifier.
#[derive(Clone, Copy)]
pub struct MinState {
    pub mode: MinMode,
    pub pending: bool,
    pub last_ident: bool,
}

pub open spec fn min_init() -> MinState {
    MinState { mode: MinMode::Normal, pending: false, last_ident: false }
}

/// One step of the minifier: the successor state and the characters emitted
/// for `c`. Outside literals, a whitespace run collapses to a single space
/// exactly when it separates two identifier characters; `//` and `/* */`
/// comments are removed and count as whitespace; inside string and template
/// literals every character passes through unchanged.
pub open spec fn min_step(st: MinState, c: char) -> (MinState, Seq<char>) {
    match st.mode {
        MinMode::Normal => {
            if spec_ws(c) {
                (MinState { mode: MinMode::Normal, pending: true, last_ident: st.last_ident },
                Seq::empty())
            } else if c == '/' {
                (MinState { mode: MinMode::Slash, pending: st.pending, last_ident: st.last_ident },
                Seq::empty())
            } else {
                let out = if st.pending && st.last_ident && spec_identish(c) {
                    seq![' ', c]
                } else {
                    seq![c]
                };
                let mode = if c == '"' || c == '\'' {
                    MinMode::Str(c)
                } else if c == '`' {
                    MinMode::Tpl
                } else {
                    MinMode::Normal
                };
                (MinState { mode, pending: false, last_ident: spec_identish(c) }, out)
            }
        },
        MinMode::Slash => {
            if c == '/' {
                (MinState { mode: MinMode::LineComment, ..st }, Seq::empty())
            } else if c == '*' {
                (MinState { mode: MinMode::BlockComment, ..st }, Seq::empty())
            } else if spec_ws(c) {
                (MinState { mode: MinMode::Normal, pending: true, last_ident: false }, seq!['/'])
            } else {
                let mode = if c == '"' || c == '\'' {
                    MinMode::Str(c)
                } else if c == '`' {
                    MinMode::Tpl
                } else {
                    MinMode::Normal
                };
                (MinState { mode, pending: false, last_ident: spec_identish(c) }, seq!['/', c])
            }
        },
        MinMode::LineComment => {
            if c == '\n' || c == '\r' {
                (MinState { mode: MinMode::Normal, pending: true, last_ident: st.last_ident },
                Seq::empty())
            } else {
                (st, Seq::empty())
            }
        },
        MinMode::BlockComment => {
            if c == '*' {
                (MinState { mode: MinMode::BlockStar, ..st }, Seq::empty())
            } else {
                (st, Seq::empty())
            }
        },
        MinMode::BlockStar => {
            if c == '/' {
                (MinState { mode: MinMode::Normal, pending: true, last_ident: st.last_ident },
                Seq::empty())
            } else if c == '*' {
                (st, Seq::empty())
            } else {
                (MinState { mode: MinMode::BlockComment, ..st }, Seq::empty())
            }
        },
        MinMode::Str(q) => {
            let mode = if c == '\\' {
                MinMode::StrEsc(q)
            } else if c == q {
                MinMode::Normal
            } else {
                MinMode::Str(q)
            };
            (MinState { mode, pending: false, last_ident: spec_identish(c) }, seq![c])
        },
        MinMode::StrEsc(q) => {
            (MinState { mode: MinMode::Str(q), pending: false, last_ident: spec_identish(c) },
            seq![c])
        },
        MinMode::Tpl => {
            let mode = if c == '\\' {
                MinMode::TplEsc
            } else if c == '`' {
                MinMode::Normal
            } else {
                MinMode::Tpl
            };
            (MinState { mode, pending: false, last_ident: spec_identish(c) }, seq![c])
        },
        MinMode::TplEsc => {
            (MinState { mode: MinMode::Tpl, pending: false, last_ident: spec_identish(c) },
            seq![c])
        },
    }
}

/// What the minifier still owes at the end of the text: a `/` held back
/// while deciding whether it opened a comment.
pub open spec fn min_flush(st: MinState) -> Seq<char> {
    match st.mode {
        MinMode::Slash => seq!['/'],
        _ => Seq::empty(),
    }
}

/// The minifier's output for the suffix of `s` starting at `i`, from `st`.
pub open spec fn min_run(s: Seq<char>, i: int, st: MinState) -> Seq<char>
    decreases s.len() - i,
{
    if i < 0 || i >= s.len() {
        min_flush(st)
    } else {
        min_step(st, s[i]).1 + min_run(s, i + 1, min_step(st, s[i]).0)
    }
}

/// Whitespace-collapsed form of a whole text.
pub open spec fn spec_minify(s: Seq<char>) -> Seq<char> {
    min_run(s, 0, min_init())
}

fn identish(c: char) -> (r: bool)
    ensures
        r == spec_identish(c),
{
    ('a' <= c && c <= 'z') || ('A' <= c && c <= 'Z') || ('0' <= c && c <= '9') || c == '_' || c
        == '$'
}

fn ws(c: char) -> (r: bool)
    ensures
        r == spec_ws(c),
{
    c == ' ' || c == '\t' || c == '\n' || c == '\r'
}

fn min_step_exec(st: MinState, c: char) -> (r: (MinState, Vec<char>))
    ensures
        r.0 == min_step(st, c).0,
        r.1@ == min_step(st, c).1,
{
    match st.mode {
        MinMode::Normal => {
            if ws(c) {
                (
                    MinState { mode: MinMode::Normal, pending: true, last_ident: st.last_ident },
                    Vec::new(),
                )
            } else if c == '/' {
                (
                    MinState {
                        mode: MinMode::Slash,
                        pending: st.pending,
                        last_ident: st.last_ident,
                    },
                    Vec::new(),
                )
            } else {
                let mut out: Vec<char> = Vec::new();
                if st.pending && st.last_ident && identish(c) {
                    out.push(' ');
                }
                out.push(c);
                let mode = if c == '"' || c == '\'' {
                    MinMode::Str(c)
                } else if c == '`' {
                    MinMode::Tpl
                } else {
                    MinMode::Normal
                };
                (MinState { mode, pending: false, last_ident: identish(c) }, out)
            }
        },
        MinMode::Str(q) => {
            let mode = if c == '\\' {
                MinMode::StrEsc(q)
            } else if c == q {
                MinMode::Normal
            } else {
                MinMode::Str(q)
            };
            let mut out: Vec<char> = Vec::new();
            out.push(c);
            (MinState { mode, pending: false, last_ident: identish(c) }, out)
        },
        MinMode::StrEsc(q) => {
            let mut out: Vec<char> = Vec::new();
            out.push(c);
            (MinState { mode: MinMode::Str(q), pending: false, last_ident: identish(c) }, out)
        },
        MinMode::Tpl => {
            let mode = if c == '\\' {
                MinMode::TplEsc
            } else if c == '`' {
                MinMode::Normal
            } else {
                MinMode::Tpl
            };
            let mut out: Vec<char> = Vec::new();
            out.push(c);
            (MinState { mode, pending: false, last_ident: identish(c) }, out)
        },
        MinMode::TplEsc => {
            let mut out: Vec<char> = Vec::new();
            out.push(c);
            (MinState { mode: MinMode::Tpl, pending: false, last_ident: identish(c) }, out)
        },
        MinMode::Slash => {
            if c == '/' {
                (MinState { mode: MinMode::LineComment, ..st }, Vec::new())
            } else if c == '*' {
                (MinState { mode: MinMode::BlockComment, ..st }, Vec::new())
            } else if ws(c) {
                let mut out: Vec<char> = Vec::new();
                out.push('/');
                (MinState { mode: MinMode::Normal, pending: true, last_ident: false }, out)
            } else {
                let mode = if c == '"' || c == '\'' {
                    MinMode::Str(c)
                } else if c == '`' {
                    MinMode::Tpl
                } else {
                    MinMode::Normal
                };
                let mut out: Vec<char> = Vec::new();
                out.push('/');
                out.push(c);
                (MinState { mode, pending: false, last_ident: identish(c) }, out)
            }
        },
        MinMode::LineComment => {
            if c == '\n' || c == '\r' {
                (
                    MinState { mode: MinMode::Normal, pending: true, last_ident: st.last_ident },
                    Vec::new(),
                )
            } else {
                (st, Vec::new())
            }
        },
        MinMode::BlockComment => {
            if c == '*' {
                (MinState { mode: MinMode::BlockStar, ..st }, Vec::new())
            } else {
                (st, Vec::new())
            }
        },
        MinMode::BlockStar => {
            if c == '/' {
                (
                    MinState { mode: MinMode::Normal, pending: true, last_ident: st.last_ident },
                    Vec::new(),
                )
            } else if c == '*' {
                (st, Vec::new())
            } else {
                (MinState { mode: MinMode::BlockComment, ..st }, Vec::new())
            }
        },
    }
}

/// Collapse whitespace and strip comments outside string and template
/// literals; a single space survives only between two identifier
/// characters.
pub fn minify(src: &Vec<char>) -> (out: Vec<char>)
    ensures
        out@ == spec_minify(src@),
{
    let mut out: Vec<char> = Vec::new();
    let mut st = MinState { mode: MinMode::Normal, pending: false, last_ident: false };
    let mut i: usize = 0;
    while i < src.len()
        invariant
            i <= src.len(),
            out@ + min_run(src@, i as int, st) == spec_minify(src@),
        decreases src.len() - i,
    {
        let ghost pre_st = st;
        let (st2, emitted) = min_step_exec(st, src[i]);
        st = st2;
        append_chars(&mut out, &emitted);
        proof {
            assert(min_run(src@, i as int, pre_st) == min_step(pre_st, src@[i as int]).1 + min_run(
                src@,
                i + 1,
                min_step(pre_st, src@[i as int]).0,
            ));
        }
        i += 1;
    }
    match st.mode {
        MinMode::Slash => {
            out.push('/');
        },
        _ => {},
    }
    out
}

/// The property list of the returned object: `name:binding`, comma-joined.
pub open spec fn spec_export_entry(e: (Seq<char>, Seq<char>)) -> Seq<char> {
    e.0 + seq![':'] + e.1
}

pub open spec fn spec_exports_join(es: Seq<(Seq<char>, Seq<char>)>) -> Seq<char>
    decreases es.len(),
{
    if es.len() == 0 {
        Seq::empty()
    } else if es.len() == 1 {
        spec_export_entry(es[0])
    } else {
        spec_exports_join(es.drop_last()) + seq![','] + spec_export_entry(es.last())
    }
}

pub open spec fn spec_concat(bodies: Seq<Seq<char>>) -> Seq<char>
    decreases bodies.len(),
{
    if bodies.len() == 0 {
        Seq::empty()
    } else {
        spec_concat(bodies.drop_last()) + bodies.last()
    }
}

/// The bundle text: one immediately-invoked expression whose body is the
/// emitted modules in dependency order and whose result is the object of
/// the entry's exports.
pub open spec fn spec_bundle(bodies: Seq<Seq<char>>, exports: Seq<(Seq<char>, Seq<char>)>) -> Seq<
    char,
> {
    "(function(){"@ + spec_concat(bodies) + "return{"@ + spec_exports_join(exports) + "};})();"@
}

/// Emit the bundle from already-transformed module bodies (dependencies
/// first) and the entry's exports.
pub fn bundle_modules(bodies: &Vec<Vec<char>>, exports: &Vec<(String, String)>) -> (out: String)
    ensures
        out@ == spec_bundle(crate::text::segs_view(bodies@), crate::model::kvs_view(exports@)),
{
    let ghost gb = crate::text::segs_view(bodies@);
    let ghost ge = crate::model::kvs_view(exports@);
    let mut acc: Vec<char> = Vec::new();
    append_chars(&mut acc, &to_chars("(function(){"));
    let mut i: usize = 0;
    while i < bodies.len()
        invariant
            i <= bodies.len(),
            gb == crate::text::segs_view(bodies@),
            acc@ == "(function(){"@ + spec_concat(gb.take(i as int)),
        decreases bodies.len() - i,
    {
        append_chars(&mut acc, &bodies[i]);
        proof {
            assert(gb.take(i + 1).drop_last() =~= gb.take(i as int));
            assert(gb.take(i + 1).last() == bodies@[i as int]@);
        }
        i += 1;
    }
    proof {
        assert(gb.take(bodies@.len() as int) =~= gb);
    }
    append_chars(&mut acc, &to_chars("return{"));
    let mut j: usize = 0;
    while j < exports.len()
        invariant
            j <= exports.len(),
            gb == crate::text::segs_view(bodies@),
            ge == crate::model::kvs_view(exports@),
            acc@ == "(function(){"@ + spec_concat(gb) + "return{"@ + spec_exports_join(
                ge.take(j as int),
            ),
        decreases exports.len() - j,
    {
        if j > 0 {
            let mut comma: Vec<char> = Vec::new();
            comma.push(',');
            append_chars(&mut acc, &comma);
        }
        append_chars(&mut acc, &to_chars(exports[j].0.as_str()));
        let mut colon: Vec<char> = Vec::new();
        colon.push(':');
        append_chars(&mut acc, &colon);
        append_chars(&mut acc, &to_chars(exports[j].1.as_str()));
        proof {
            assert(ge.take(j + 1).drop_last() =~= ge.take(j as int));
            assert(ge.take(j + 1).last() == ge[j as int]);
            assert(spec_export_entry(ge[j as int]) =~= ge[j as int].0 + seq![':'] + ge[
                j as int].1);
            if j == 0 {
                assert(spec_exports_join(ge.take(1)) == spec_export_entry(ge.take(1)[0]));
                assert(Seq::<char>::empty() + spec_export_entry(ge[0]) =~= spec_export_entry(
                    ge[0],
                ));
            }
        }
        j += 1;
    }
    proof {
        assert(ge.take(exports@.len() as int) =~= ge);
    }
    append_chars(&mut acc, &to_chars("};})();"));
    from_chars(&acc)
}

/// `needle` occurs somewhere inside `hay`.
pub open spec fn contains_sub(hay: Seq<char>, needle: Seq<char>) -> bool {
    exists|k: int| 0 <= k && k + needle.len() <= hay.len() && #[trigger] hay.subrange(
        k,
        k + needle.len(),
    ) == needle
}

proof fn lemma_contains_left(a: Seq<char>, b: Seq<char>, n: Seq<char>)
    requires
        contains_sub(a, n),
    ensures
        contains_sub(a + b, n),
{
    let k = choose|k: int|
        0 <= k && k + n.len() <= a.len() && #[trigger] a.subrange(k, k + n.len()) == n;
    assert((a + b).subrange(k, k + n.len() as int) =~= a.subrange(k, k + n.len() as int));
}

proof fn lemma_contains_right(a: Seq<char>, b: Seq<char>, n: Seq<char>)
    requires
        contains_sub(b, n),
    ensures
        contains_sub(a + b, n),
{
    let k = choose|k: int|
        0 <= k && k + n.len() <= b.len() && #[trigger] b.subrange(k, k + n.len()) == n;
    assert((a + b).subrange(a.len() + k, a.len() + k + n.len() as int) =~= b.subrange(
        k,
        k + n.len() as int,
    ));
}

proof fn lemma_join_has_entry(es: Seq<(Seq<char>, Seq<char>)>, j: int)
    requires
        0 <= j < es.len(),
    ensures
        contains_sub(spec_exports_join(es), spec_export_entry(es[j])),
    decreases es.len(),
{
    let entry = spec_export_entry(es[j]);
    if es.len() == 1 {
        let kk: int = 0;
        assert(spec_exports_join(es).subrange(kk, kk + entry.len()) =~= entry);
    } else if j == es.len() - 1 {
        let pre = spec_exports_join(es.drop_last()) + seq![','];
        assert(spec_exports_join(es) == pre + entry);
        let kk = pre.len() as int;
        assert(spec_exports_join(es).subrange(kk, kk + entry.len()) =~= entry);
    } else {
        assert(es.drop_last()[j] == es[j]);
        lemma_join_has_entry(es.drop_last(), j);
        lemma_contains_left(spec_exports_join(es.drop_last()), seq![','], entry);
        lemma_contains_left(spec_exports_join(es.drop_last()) + seq![','], spec_export_entry(
            es.last(),
        ), entry);
        assert(spec_exports_join(es) == (spec_exports_join(es.drop_last()) + seq![','])
            + spec_export_entry(es.last()));
    }
}

/// The export list carries a property under this name.
pub open spec fn export_names_contain(exports: Seq<(Seq<char>, Seq<char>)>, h: Seq<char>) -> bool {
    exists|j: int| 0 <= j < exports.len() && (#[trigger] exports[j]).0 == h
}

/// A manifest is accepted against a bundle's exports when every route's
/// handler is among the export names.
pub open spec fn spec_manifest_covered(
    routes: Seq<crate::router::RouteV>,
    exports: Seq<(Seq<char>, Seq<char>)>,
) -> bool {
    forall|i: int|
        0 <= i < routes.len() ==> export_names_contain(exports, (#[trigger] routes[i]).handler)
}

/// Check a manifest against a bundle's exports: accepted exactly when every
/// handler names an export.
pub fn manifest_covered(
    routes: &Vec<crate::router::ProjectRoute>,
    exports: &Vec<(String, String)>,
) -> (b: bool)
    ensures
        b == spec_manifest_covered(crate::router::routes_view(routes@), crate::model::kvs_view(
            exports@,
        )),
{
    let ghost rs = crate::router::routes_view(routes@);
    let ghost es = crate::model::kvs_view(exports@);
    let mut i: usize = 0;
    while i < routes.len()
        invariant
            i <= routes.len(),
            rs == crate::router::routes_view(routes@),
            es == crate::model::kvs_view(exports@),
            rs.len() == routes.len(),
            es.len() == exports.len(),
            forall|k: int| 0 <= k < i ==> export_names_contain(es, (#[trigger] rs[k]).handler),
        decreases routes.len() - i,
    {
        let mut found = false;
        let mut j: usize = 0;
        while j < exports.len()
            invariant
                j <= exports.len(),
                es == crate::model::kvs_view(exports@),
                es.len() == exports.len(),
                rs == crate::router::routes_view(routes@),
                rs.len() == routes.len(),
                i < routes.len(),
                found ==> export_names_contain(es, rs[i as int].handler),
                !found ==> forall|l: int| 0 <= l < j ==> (#[trigger] es[l]).0 != rs[
                    i as int].handler,
            decreases exports.len() - j,
        {
            if exports[j].0.eq(&routes[i].handler) {
                found = true;
                proof {
                    assert(es[j as int].0 == rs[i as int].handler);
                }
            }
            j += 1;
        }
        if !found {
            proof {
                assert(!export_names_contain(es, rs[i as int].handler));
            }
            return false;
        }
        i += 1;
    }
    true
}

/// Every route handler of an accepted manifest names an export of the
/// bundle: when each handler is among the export names, the emitted bundle
/// contains the property text `handler:` for every route, so the returned
/// object has a property under that name.
pub proof fn lemma_bundle_exports_handlers(
    bodies: Seq<Seq<char>>,
    exports: Seq<(Seq<char>, Seq<char>)>,
    routes: Seq<crate::router::RouteV>,
)
    requires
        spec_manifest_covered(routes, exports),
    ensures
        forall|i: int|
            0 <= i < routes.len() ==> contains_sub(
                spec_bundle(bodies, exports),
                (#[trigger] routes[i]).handler + seq![':'],
            ),
{
    assert forall|i: int| 0 <= i < routes.len() implies contains_sub(
        spec_bundle(bodies, exports),
        (#[trigger] routes[i]).handler + seq![':'],
    ) by {
        assert(export_names_contain(exports, routes[i].handler));
        let j = choose|j: int| 0 <= j < exports.len() && (#[trigger] exports[j]).0 == routes[i].handler;
        lemma_join_has_entry(exports, j);
        let join = spec_exports_join(exports);
        let entry = spec_export_entry(exports[j]);
        let needle = routes[i].handler + seq![':'];
        let k = choose|k: int|
            0 <= k && k + entry.len() <= join.len() && #[trigger] join.subrange(
                k,
                k + entry.len(),
            ) == entry;
        assert(join.subrange(k, k + needle.len() as int) =~= needle);
        assert(contains_sub(join, needle));
        let head = "(function(){"@ + spec_concat(bodies) + "return{"@;
        lemma_contains_right(head, join, needle);
        lemma_contains_left(head + join, "};})();"@, needle);
        assert(spec_bundle(bodies, exports) =~= (head + join) + "};})();"@);
    }
}

/// A module after import/export rewriting: the emitted body, the import
/// specifiers found, and the exported (property, binding) pairs.
pub struct TransformedModule {
    pub body: Vec<char>,
    pub imports: Vec<String>,
    pub exports: Vec<(String, String)>,
}

/// Ghost form of a transformed module; `any_kept` records whether any line
/// of the body was kept, which decides where newline separators go.
pub ghost struct TransformV {
    pub body: Seq<char>,
    pub any_kept: bool,
    pub imports: Seq<Seq<char>>,
    pub exports: Seq<(Seq<char>, Seq<char>)>,
}

pub open spec fn is_import_line(line: Seq<char>) -> bool {
    crate::text::spec_starts_with(line, "import "@)
}

pub open spec fn is_export_default_line(line: Seq<char>) -> bool {
    crate::text::spec_starts_with(line, "export default "@)
}

pub open spec fn is_export_line(line: Seq<char>) -> bool {
    crate::text::spec_starts_with(line, "export "@)
}

/// The text between the first pair of double quotes of an import line.
pub open spec fn spec_import_specifier(line: Seq<char>) -> Option<Seq<char>> {
    let i = crate::text::first_index(line, '"');
    if i < 0 {
        Option::None
    } else {
        let rest = line.skip(i + 1);
        let j = crate::text::first_index(rest, '"');
        if j < 0 {
            Option::None
        } else {
            Option::Some(rest.take(j))
        }
    }
}

/// The binding of an `export default` line: what stands between the prefix
/// and the first semicolon.
pub open spec fn spec_default_binding(line: Seq<char>) -> Option<Seq<char>> {
    let rest = line.skip("export default "@.len() as int);
    let j = crate::text::first_index(rest, ';');
    if j < 0 {
        Option::None
    } else {
        Option::Some(rest.take(j))
    }
}

/// The length of the declaration keyword an exported declaration opens
/// with, or `-1` if none is recognized.
pub open spec fn spec_export_kw_len(after: Seq<char>) -> int {
    if crate::text::spec_starts_with(after, "function "@) {
        "function "@.len() as int
    } else if crate::text::spec_starts_with(after, "const "@) {
        "const "@.len() as int
    } else if crate::text::spec_starts_with(after, "class "@) {
        "class "@.len() as int
    } else if crate::text::spec_starts_with(after, "let "@) {
        "let "@.len() as int
    } else if crate::text::spec_starts_with(after, "var "@) {
        "var "@.len() as int
    } else {
        -1
    }
}

/// The identifier run starting at `from`.
pub open spec fn spec_ident_at(s: Seq<char>, from: int) -> Seq<char>
    decreases s.len() - from,
{
    if from < 0 || from >= s.len() || !spec_identish(s[from]) {
        Seq::empty()
    } else {
        seq![s[from]] + spec_ident_at(s, from + 1)
    }
}

/// The declared name of an `export `-prefixed declaration: after an
/// optional `async `, a recognized keyword, then a non-empty identifier.
pub open spec fn spec_export_name(line: Seq<char>) -> Option<Seq<char>> {
    let rest = line.skip("export "@.len() as int);
    let at: int = if crate::text::spec_starts_with(rest, "async "@) {
        "async "@.len() as int
    } else {
        0
    };
    let after = rest.skip(at);
    let k = spec_export_kw_len(after);
    if k < 0 {
        Option::None
    } else {
        let name = spec_ident_at(after, k);
        if name.len() == 0 {
            Option::None
        } else {
            Option::Some(name)
        }
    }
}

/// The whole line-by-line rewriting: import lines are recorded and dropped,
/// `export default` records a `("default", binding)` export, an exported
/// declaration loses its `export ` prefix and records its name, every other
/// line is kept verbatim; kept lines are joined with newlines. `None` on
/// the first line no rule accepts.
pub open spec fn spec_transform_lines(lines: Seq<Seq<char>>) -> Option<TransformV>
    decreases lines.len(),
{
    if lines.len() == 0 {
        Option::Some(
            TransformV {
                body: Seq::empty(),
                any_kept: false,
                imports: Seq::empty(),
                exports: Seq::empty(),
            },
        )
    } else {
        match spec_transform_lines(lines.drop_last()) {
            Option::None => Option::None,
            Option::Some(acc) => {
                let line = lines.last();
                if is_import_line(line) {
                    match spec_import_specifier(line) {
                        Option::None => Option::None,
                        Option::Some(s) => Option::Some(
                            TransformV { imports: acc.imports.push(s), ..acc },
                        ),
                    }
                } else if is_export_default_line(line) {
                    match spec_default_binding(line) {
                        Option::None => Option::None,
                        Option::Some(b) => Option::Some(
                            TransformV { exports: acc.exports.push(("default"@, b)), ..acc },
                        ),
                    }
                } else if is_export_line(line) {
                    match spec_export_name(line) {
                        Option::None => Option::None,
                        Option::Some(n) => Option::Some(
                            TransformV {
                                body: if acc.any_kept {
                                    acc.body + seq!['\n'] + line.skip("export "@.len() as int)
                                } else {
                                    line.skip("export "@.len() as int)
                                },
                                any_kept: true,
                                exports: acc.exports.push((n, n)),
                                ..acc
                            },
                        ),
                    }
                } else {
                    Option::Some(
                        TransformV {
                            body: if acc.any_kept {
                                acc.body + seq!['\n'] + line
                            } else {
                                line
                            },
                            any_kept: true,
                            ..acc
                        },
                    )
                }
            },
        }
    }
}

/// The rewriting of a whole module source.
pub open spec fn spec_transform(src: Seq<char>) -> Option<TransformV> {
    spec_transform_lines(crate::text::spec_split(src, '\n'))
}

proof fn lemma_transform_prefix_none(lines: Seq<Seq<char>>, j: int)
    requires
        0 <= j <= lines.len(),
        spec_transform_lines(lines.take(j)) is None,
    ensures
        spec_transform_lines(lines) is None,
    decreases lines.len() - j,
{
    if j < lines.len() {
        assert(lines.take(j + 1).drop_last() =~= lines.take(j));
        lemma_transform_prefix_none(lines, j + 1);
    } else {
        assert(lines.take(j) =~= lines);
    }
}

/// The text between the first pair of double quotes, if both are present.
#[verifier::loop_isolation(false)]
fn quoted_span(line: &Vec<char>) -> (r: Option<Vec<char>>)
    ensures
        r matches Some(s) ==> spec_import_specifier(line@) == Option::Some(s@),
        r is None ==> spec_import_specifier(line@) is None,
{
    let mut i: usize = 0;
    while i < line.len() && line[i] != '"'
        invariant
            i <= line@.len(),
            forall|k: int| 0 <= k < i ==> line@[k] != '"',
        decreases line.len() - i,
    {
        i += 1;
    }
    if i >= line.len() {
        proof {
            crate::text::lemma_first_index(line@, '"');
            if crate::text::first_index(line@, '"') >= 0 {
                assert(line@[crate::text::first_index(line@, '"')] == '"');
            }
        }
        return Option::None;
    }
    proof {
        crate::text::lemma_first_index_is(line@, '"', i as int);
    }
    let ghost rest = line@.skip(i + 1);
    let mut j: usize = i + 1;
    let mut out: Vec<char> = Vec::new();
    while j < line.len() && line[j] != '"'
        invariant
            i + 1 <= j <= line@.len(),
            out@ == line@.subrange(i + 1, j as int),
            forall|k: int| i + 1 <= k < j ==> line@[k] != '"',
        decreases line.len() - j,
    {
        out.push(line[j]);
        proof {
            assert(line@.subrange(i + 1, j + 1) =~= line@.subrange(i + 1, j as int).push(
                line@[j as int]));
        }
        j += 1;
    }
    if j >= line.len() {
        proof {
            crate::text::lemma_first_index(rest, '"');
            if crate::text::first_index(rest, '"') >= 0 {
                let w = crate::text::first_index(rest, '"');
                assert(rest[w] == line@[w + i + 1]);
            }
        }
        return Option::None;
    }
    proof {
        assert(rest[j - i - 1] == line@[j as int]);
        assert forall|k: int| 0 <= k < j - i - 1 implies rest[k] != '"' by {
            assert(rest[k] == line@[k + i + 1]);
        }
        crate::text::lemma_first_index_is(rest, '"', j - i - 1);
        assert(out@ =~= rest.take(j - i - 1));
    }
    Option::Some(out)
}

/// The identifier starting at `from`, and where it ends.
#[verifier::loop_isolation(false)]
fn read_ident(line: &Vec<char>, from: usize) -> (r: (Vec<char>, usize))
    requires
        from <= line@.len(),
    ensures
        from <= r.1 <= line@.len(),
        r.0@ == spec_ident_at(line@, from as int),
{
    let mut j: usize = from;
    let mut out: Vec<char> = Vec::new();
    proof {
        assert(Seq::<char>::empty() + spec_ident_at(line@, from as int) =~= spec_ident_at(
            line@,
            from as int,
        ));
    }
    while j < line.len() && identish(line[j])
        invariant
            from <= j <= line@.len(),
            out@ + spec_ident_at(line@, j as int) == spec_ident_at(line@, from as int),
        decreases line.len() - j,
    {
        out.push(line[j]);
        proof {
            assert(spec_ident_at(line@, j as int) == seq![line@[j as int]] + spec_ident_at(
                line@,
                j + 1,
            ));
            assert(out@ + spec_ident_at(line@, j + 1) =~= spec_ident_at(line@, from as int));
        }
        j += 1;
    }
    proof {
        assert(spec_ident_at(line@, j as int) =~= Seq::<char>::empty());
        assert(out@ =~= out@ + spec_ident_at(line@, j as int));
    }
    (out, j)
}

/// The characters of `line` from `from` on.
#[verifier::loop_isolation(false)]
fn tail_of(line: &Vec<char>, from: usize) -> (r: Vec<char>)
    requires
        from <= line@.len(),
    ensures
        r@ == line@.skip(from as int),
{
    let mut out: Vec<char> = Vec::new();
    let mut j: usize = from;
    while j < line.len()
        invariant
            from <= j <= line@.len(),
            out@ == line@.subrange(from as int, j as int),
        decreases line.len() - j,
    {
        out.push(line[j]);
        proof {
            assert(line@.subrange(from as int, j + 1) =~= line@.subrange(from as int, j as int)
                .push(line@[j as int]));
        }
        j += 1;
    }
    proof {
        assert(out@ =~= line@.skip(from as int));
    }
    out
}

/// Rewrite one module as `spec_transform` says: record and drop `import`
/// lines, record `export default` bindings, strip the `export ` prefix off
/// exported declarations (recording the declared name), and keep everything
/// else verbatim. Fails with `ParseFailed` naming this module exactly on
/// the first line no rule accepts.
#[verifier::loop_isolation(false)]
fn transform_module(path: &str, src: &String) -> (r: Result<TransformedModule, BundleError>)
    ensures
        r is Ok <==> spec_transform(src@) is Some,
        r matches Ok(m) ==> (spec_transform(src@) matches Some(tv) && tv.body == m.body@
            && tv.imports == crate::text::strs_view(m.imports@) && tv.exports
            == crate::model::kvs_view(m.exports@)),
        r matches Err(e) ==> (e matches BundleError::ParseFailed(p, _) && p@ == path@),
{
    let chars = to_chars(src.as_str());
    let lines = crate::text::split_chars(&chars, '\n');
    let ghost lv = crate::text::segs_view(lines@);
    let mut body: Vec<char> = Vec::new();
    let mut first_kept = true;
    let mut imports: Vec<String> = Vec::new();
    let mut exports: Vec<(String, String)> = Vec::new();

    let import_kw = to_chars("import ");
    let export_default_kw = to_chars("export default ");
    let export_kw = to_chars("export ");
    let async_kw = to_chars("async ");
    let function_kw = to_chars("function ");
    let const_kw = to_chars("const ");
    let let_kw = to_chars("let ");
    let var_kw = to_chars("var ");
    let class_kw = to_chars("class ");

    proof {
        assert(lv.take(0) =~= Seq::<Seq<char>>::empty());
        assert(crate::text::strs_view(imports@) =~= Seq::<Seq<char>>::empty());
        assert(crate::model::kvs_view(exports@) =~= Seq::<(Seq<char>, Seq<char>)>::empty());
    }
    let mut i: usize = 0;
    while i < lines.len()
        invariant
            i <= lines.len(),
            lv.len() == lines.len(),
            first_kept ==> body@ == Seq::<char>::empty(),
            spec_transform_lines(lv.take(i as int)) == Option::Some(
                TransformV {
                    body: body@,
                    any_kept: !first_kept,
                    imports: crate::text::strs_view(imports@),
                    exports: crate::model::kvs_view(exports@),
                },
            ),
        decreases lines.len() - i,
    {
        let ghost pv = lv.take(i + 1);
        proof {
            assert(pv.drop_last() =~= lv.take(i as int));
            assert(pv.last() == lv[i as int]);
            assert(lines@[i as int]@ == lv[i as int]);
        }
        let line = &lines[i];
        if starts_with(line, &import_kw) {
            match quoted_span(line) {
                Option::Some(spec) => {
                    let ghost pre_imports = crate::text::strs_view(imports@);
                    imports.push(from_chars(&spec));
                    proof {
                        assert(crate::text::strs_view(imports@) =~= pre_imports.push(spec@));
                    }
                },
                Option::None => {
                    proof {
                        assert(spec_transform_lines(pv) is None);
                        lemma_transform_prefix_none(lv, i + 1);
                    }
                    return Result::Err(
                        BundleError::ParseFailed(
                            path.to_owned(),
                            String::from_str("import without a double-quoted specifier"),
                        ),
                    );
                },
            }
        } else if starts_with(line, &export_default_kw) {
            let rest = tail_of(line, export_default_kw.len());
            let ghost grest = lv[i as int].skip("export default "@.len() as int);
            proof {
                assert(rest@ == grest);
            }
            let mut e: usize = 0;
            while e < rest.len() && rest[e] != ';'
                invariant
                    e <= rest@.len(),
                    forall|k: int| 0 <= k < e ==> rest@[k] != ';',
                decreases rest.len() - e,
            {
                e += 1;
            }
            if e >= rest.len() {
                proof {
                    crate::text::lemma_first_index(grest, ';');
                    if crate::text::first_index(grest, ';') >= 0 {
                        assert(grest[crate::text::first_index(grest, ';')] == ';');
                    }
                    assert(spec_transform_lines(pv) is None);
                    lemma_transform_prefix_none(lv, i + 1);
                }
                return Result::Err(
                    BundleError::ParseFailed(
                        path.to_owned(),
                        String::from_str("export default needs a trailing semicolon"),
                    ),
                );
            }
            proof {
                crate::text::lemma_first_index_is(grest, ';', e as int);
            }
            let mut binding: Vec<char> = Vec::new();
            let mut b: usize = 0;
            while b < e
                invariant
                    b <= e,
                    e < rest@.len(),
                    binding@ == rest@.subrange(0, b as int),
                decreases e - b,
            {
                binding.push(rest[b]);
                proof {
                    assert(rest@.subrange(0, b + 1) =~= rest@.subrange(0, b as int).push(
                        rest@[b as int]));
                }
                b += 1;
            }
            proof {
                assert(binding@ =~= grest.take(e as int));
            }
            let ghost pre_exports = crate::model::kvs_view(exports@);
            exports.push((String::from_str("default"), from_chars(&binding)));
            proof {
                assert(crate::model::kvs_view(exports@) =~= pre_exports.push(
                    ("default"@, binding@)));
            }
        } else if starts_with(line, &export_kw) {
            let rest = tail_of(line, export_kw.len());
            let ghost grest = lv[i as int].skip("export "@.len() as int);
            proof {
                assert(rest@ == grest);
            }
            let mut at: usize = 0;
            if starts_with(&rest, &async_kw) {
                at = async_kw.len();
            }
            let after = tail_of(&rest, at);
            let ghost gafter = grest.skip(
                if crate::text::spec_starts_with(grest, "async "@) {
                    "async "@.len() as int
                } else {
                    0
                },
            );
            proof {
                assert(after@ == gafter);
            }
            let mut kw_len: usize = 0;
            let mut known = false;
            if starts_with(&after, &function_kw) {
                kw_len = function_kw.len();
                known = true;
            } else if starts_with(&after, &const_kw) {
                kw_len = const_kw.len();
                known = true;
            } else if starts_with(&after, &class_kw) {
                kw_len = class_kw.len();
                known = true;
            } else if starts_with(&after, &let_kw) {
                kw_len = let_kw.len();
                known = true;
            } else if starts_with(&after, &var_kw) {
                kw_len = var_kw.len();
                known = true;
            }
            proof {
                assert(known ==> kw_len == spec_export_kw_len(gafter));
                assert(!known ==> spec_export_kw_len(gafter) == -1);
            }
            if !known {
                proof {
                    assert(spec_export_name(lv[i as int]) is None);
                    assert(spec_transform_lines(pv) is None);
                    lemma_transform_prefix_none(lv, i + 1);
                }
                return Result::Err(
                    BundleError::ParseFailed(
                        path.to_owned(),
                        String::from_str("unsupported export form"),
                    ),
                );
            }
            let (name, _end) = read_ident(&after, kw_len);
            if name.len() == 0 {
                proof {
                    assert(spec_export_name(lv[i as int]) is None);
                    assert(spec_transform_lines(pv) is None);
                    lemma_transform_prefix_none(lv, i + 1);
                }
                return Result::Err(
                    BundleError::ParseFailed(
                        path.to_owned(),
                        String::from_str("export without a name"),
                    ),
                );
            }
            proof {
                assert(spec_export_name(lv[i as int]) == Option::Some(name@));
            }
            let name_str = from_chars(&name);
            let binding_str = from_chars(&name);
            let ghost pre_exports = crate::model::kvs_view(exports@);
            exports.push((name_str, binding_str));
            proof {
                assert(crate::model::kvs_view(exports@) =~= pre_exports.push((name@, name@)));
            }
            let ghost pre_body = body@;
            let ghost was_kept = !first_kept;
            if !first_kept {
                body.push('\n');
            }
            first_kept = false;
            append_chars(&mut body, &rest);
            proof {
                assert(body@ =~= (if was_kept {
                    pre_body + seq!['\n'] + grest
                } else {
                    grest
                }));
            }
        } else {
            let ghost pre_body = body@;
            let ghost was_kept = !first_kept;
            if !first_kept {
                body.push('\n');
            }
            first_kept = false;
            append_chars(&mut body, line);
            proof {
                assert(body@ =~= (if was_kept {
                    pre_body + seq!['\n'] + lv[i as int]
                } else {
                    lv[i as int]
                }));
            }
        }
        i += 1;
    }
    proof {
        assert(lv.take(lines@.len() as int) =~= lv);
    }
    Result::Ok(TransformedModule { body, imports, exports })
}

/// The first table entry under `path`, if any: what an in-memory module
/// table serves for a load.
pub open spec fn spec_lookup(files: Seq<(Seq<char>, Seq<char>)>, path: Seq<char>) -> Option<
    Seq<char>,
>
    decreases files.len(),
{
    if files.len() == 0 {
        Option::None
    } else if files[0].0 == path {
        Option::Some(files[0].1)
    } else {
        spec_lookup(files.drop_first(), path)
    }
}

/// Index just past the last `/` of a path, or `0` when it has none: where
/// the directory prefix ends.
pub open spec fn dir_prefix_len(s: Seq<char>) -> int
    decreases s.len(),
{
    if s.len() == 0 {
        0
    } else if s.last() == '/' {
        s.len() as int
    } else {
        dir_prefix_len(s.drop_last())
    }
}

proof fn lemma_dir_prefix_at(s: Seq<char>, e: int)
    requires
        0 <= e <= s.len(),
        e > 0 ==> s[e - 1] == '/',
        forall|k: int| e <= k < s.len() ==> s[k] != '/',
    ensures
        dir_prefix_len(s) == e,
    decreases s.len(),
{
    if s.len() > 0 && s.last() != '/' {
        assert(e < s.len());
        assert forall|k: int| e <= k < s.drop_last().len() implies s.drop_last()[k] != '/' by {
            assert(s.drop_last()[k] == s[k]);
        }
        if e > 0 {
            assert(s.drop_last()[e - 1] == s[e - 1]);
        }
        lemma_dir_prefix_at(s.drop_last(), e);
    }
}

/// How a specifier resolves against an importer: `./x` joins the importer's
/// directory, anything else is taken verbatim.
pub open spec fn spec_resolve_path(base: Option<Seq<char>>, specifier: Seq<char>) -> Seq<char> {
    match base {
        Option::Some(b) => {
            if crate::text::spec_starts_with(specifier, "./"@) {
                b.take(dir_prefix_len(b)) + specifier.skip("./"@.len() as int)
            } else {
                specifier
            }
        },
        Option::None => specifier,
    }
}

/// Look a path up in a module table; mirrors `spec_lookup`.
pub fn lookup_files(files: &Vec<(String, String)>, path: &str) -> (r: Option<String>)
    ensures
        r matches Some(s) ==> spec_lookup(crate::model::kvs_view(files@), path@) == Option::Some(
            s@,
        ),
        r is None ==> spec_lookup(crate::model::kvs_view(files@), path@) is None,
{
    let ghost gf = crate::model::kvs_view(files@);
    let want = to_chars(path);
    proof {
        assert(gf.skip(0) =~= gf);
    }
    let mut i: usize = 0;
    while i < files.len()
        invariant
            i <= files.len(),
            want@ == path@,
            gf == crate::model::kvs_view(files@),
            gf.len() == files.len(),
            spec_lookup(gf, path@) == spec_lookup(gf.skip(i as int), path@),
        decreases files.len() - i,
    {
        proof {
            assert(gf.skip(i as int).len() > 0);
            assert(gf.skip(i as int)[0] == gf[i as int]);
            assert(gf.skip(i as int).drop_first() =~= gf.skip(i + 1));
        }
        if crate::text::chars_eq(&to_chars(files[i].0.as_str()), &want) {
            return Option::Some(files[i].1.clone());
        }
        i += 1;
    }
    proof {
        assert(gf.skip(files@.len() as int) =~= Seq::<(Seq<char>, Seq<char>)>::empty());
    }
    Option::None
}

/// Resolve a specifier against an importer; mirrors `spec_resolve_path`.
#[verifier::loop_isolation(false)]
pub fn resolve_path(base: Option<&str>, specifier: &str) -> (r: String)
    ensures
        r@ == spec_resolve_path(
            match base {
                Option::Some(b) => Option::Some(b@),
                Option::None => Option::None,
            },
            specifier@,
        ),
{
    let spec_chars = to_chars(specifier);
    let rel = starts_with(&spec_chars, &to_chars("./"));
    proof {
        reveal_strlit("./");
    }
    match base {
        Option::Some(b) if rel => {
            let base_chars = to_chars(b);
            let mut end: usize = 0;
            let mut i: usize = 0;
            while i < base_chars.len()
                invariant
                    i <= base_chars@.len(),
                    end <= i,
                    end > 0 ==> b@[end - 1] == '/',
                    forall|k: int| end <= k < i ==> b@[k] != '/',
                decreases base_chars@.len() - i,
            {
                if base_chars[i] == '/' {
                    end = i + 1;
                }
                i += 1;
            }
            proof {
                lemma_dir_prefix_at(b@, end as int);
            }
            let mut out: Vec<char> = Vec::new();
            let mut k: usize = 0;
            while k < end
                invariant
                    k <= end,
                    end <= base_chars@.len(),
                    out@ == b@.take(end as int).take(k as int),
                decreases end - k,
            {
                out.push(base_chars[k]);
                proof {
                    assert(b@.take(end as int).take(k + 1) =~= b@.take(end as int).take(
                        k as int,
                    ).push(b@[k as int]));
                }
                k += 1;
            }
            proof {
                assert(out@ =~= b@.take(end as int));
            }
            let mut k2: usize = 2;
            while k2 < spec_chars.len()
                invariant
                    2 <= k2 <= spec_chars@.len(),
                    out@ == b@.take(end as int) + specifier@.skip(2).take(k2 - 2),
                decreases spec_chars@.len() - k2,
            {
                out.push(spec_chars[k2]);
                proof {
                    assert(b@.take(end as int) + specifier@.skip(2).take(k2 - 1) =~= (b@.take(
                        end as int,
                    ) + specifier@.skip(2).take(k2 - 2)).push(specifier@[k2 as int]));
                }
                k2 += 1;
            }
            proof {
                assert(out@ =~= b@.take(end as int) + specifier@.skip(2));
            }
            from_chars(&out)
        },
        _ => specifier.to_owned(),
    }
}

/// Is `p` among the collected paths?
fn contains_path(v: &Vec<String>, p: &String) -> (r: bool)
    ensures
        r == crate::text::strs_view(v@).contains(p@),
{
    let mut i: usize = 0;
    while i < v.len()
        invariant
            i <= v.len(),
            forall|k: int| 0 <= k < i ==> crate::text::strs_view(v@)[k] != p@,
        decreases v.len() - i,
    {
        if v[i].eq(p) {
            proof {
                assert(crate::text::strs_view(v@)[i as int] == p@);
            }
            return true;
        }
        i += 1;
    }
    proof {
        assert(!crate::text::strs_view(v@).contains(p@));
    }
    false
}

/// One frame of the depth-first walk over the module graph.
struct Frame {
    path: String,
    module: TransformedModule,
    next: usize,
    src: Ghost<Seq<char>>,
    tv: Ghost<TransformV>,
}

/// The frame's module really is the rewriting of the source it was loaded
/// from.
spec fn frame_ok(f: Frame) -> bool {
    &&& spec_transform(f.src@) == Option::Some(f.tv@)
    &&& f.module.body@ == f.tv@.body
    &&& crate::model::kvs_view(f.module.exports@) == f.tv@.exports
    &&& crate::text::strs_view(f.module.imports@) == f.tv@.imports
}

/// The body a module contributes to the bundle: minified, or kept verbatim
/// with a trailing newline.
pub open spec fn spec_emitted_body(tv: TransformV, minify: bool) -> Seq<char> {
    if minify {
        spec_minify(tv.body)
    } else {
        tv.body + seq!['\n']
    }
}

/// What a successful bundle is: there is a sequence of module sources --
/// the ones the loader served, in emission order, the entry last -- each of
/// which rewrites successfully, such that the output is exactly the
/// immediately-invoked expression over their emitted bodies returning the
/// entry's exports.
pub open spec fn bundle_witness(
    out: Seq<char>,
    minify: bool,
    srcs: Seq<Seq<char>>,
    mods: Seq<TransformV>,
) -> bool {
    &&& srcs.len() == mods.len()
    &&& mods.len() >= 1
    &&& (forall|k: int| 0 <= k < mods.len() ==> spec_transform(#[trigger] srcs[k]) == Option::Some(
        mods[k],
    ))
    &&& out == spec_bundle(
        Seq::new(mods.len(), |k: int| spec_emitted_body(mods[k], minify)),
        mods.last().exports,
    )
}

/// Bundle the module graph rooted at `entry`: load and rewrite each module
/// as `spec_transform` says, reject cycles, emit dependencies first, and
/// wrap everything in one immediately-invoked expression returning the
/// entry's exports. On success the output is exactly `spec_bundle` of the
/// loaded modules' emitted bodies; what those modules are depends on the
/// caller's loader, whose trait carries no contract, so `bundle_files`
/// states the whole walk exactly for the case of a plain module table. The
/// graph is bounded; a pathologically large one is rejected as
/// unparseable.
#[verifier::loop_isolation(false)]
#[verifier::rlimit(100)]
#[verifier::spinoff_prover]
pub fn run_bundle<L: ModuleLoader>(loader: &L, entry: &str, opts: &BundleOptions) -> (r: Result<
    String,
    BundleError,
>)
    ensures
        r is Ok ==> exists|srcs: Seq<Seq<char>>, mods: Seq<TransformV>|
            bundle_witness((r->Ok_0)@, opts.minify, srcs, mods),
        r matches Ok(out) ==> crate::text::spec_starts_with(out@, "(function(){"@)
            && crate::text::spec_ends_with(out@, "};})();"@),
{
    let entry_path = match loader.resolve(Option::None, entry) {
        Result::Ok(p) => p,
        Result::Err(e) => {
            return Result::Err(e);
        },
    };
    let entry_src = match loader.load(entry_path.as_str()) {
        Result::Ok(s) => s,
        Result::Err(e) => {
            return Result::Err(e);
        },
    };
    let entry_module = match transform_module(entry_path.as_str(), &entry_src) {
        Result::Ok(m) => m,
        Result::Err(e) => {
            return Result::Err(e);
        },
    };
    let ghost entry_tv = choose|tv: TransformV| spec_transform(entry_src@) == Option::Some(tv);

    let mut stack: Vec<Frame> = Vec::new();
    let mut stack_paths: Vec<String> = Vec::new();
    stack_paths.push(entry_path.clone());
    stack.push(
        Frame {
            path: entry_path,
            module: entry_module,
            next: 0,
            src: Ghost(entry_src@),
            tv: Ghost(entry_tv),
        },
    );
    let mut done: Vec<String> = Vec::new();
    let mut bodies: Vec<Vec<char>> = Vec::new();
    let mut entry_exports: Vec<(String, String)> = Vec::new();
    let ghost mut gsrcs: Seq<Seq<char>> = Seq::empty();
    let ghost mut gmods: Seq<TransformV> = Seq::empty();

    let mut fuel: usize = 1000000;
    while stack.len() > 0 && fuel > 0
        invariant
            stack@.len() == stack_paths@.len(),
            bodies@.len() == gmods.len(),
            gsrcs.len() == gmods.len(),
            forall|k: int| 0 <= k < gmods.len() ==> spec_transform(#[trigger] gsrcs[k])
                == Option::Some(gmods[k]),
            forall|k: int| 0 <= k < gmods.len() ==> (#[trigger] bodies@[k])@ == gmods[k].body,
            forall|k: int| 0 <= k < stack@.len() ==> frame_ok(#[trigger] stack@[k]),
            stack@.len() == 0 ==> gmods.len() >= 1 && crate::model::kvs_view(entry_exports@)
                == gmods.last().exports,
        decreases fuel,
    {
        fuel -= 1;
        let top = stack.len() - 1;
        if stack[top].next < stack[top].module.imports.len() {
            let spec_idx = stack[top].next;
            let spec = stack[top].module.imports[spec_idx].clone();
            let base = stack[top].path.clone();
            let ghost pre_stack = stack@;
            let f = stack.remove(top);
            let f2 = Frame {
                path: f.path,
                module: f.module,
                next: spec_idx + 1,
                src: f.src,
                tv: f.tv,
            };
            let ghost gf2 = f2;
            stack.insert(top, f2);
            proof {
                assert(frame_ok(gf2));
                assert forall|k: int| 0 <= k < stack@.len() implies frame_ok(
                    #[trigger] stack@[k],
                ) by {
                    if k < top {
                        assert(stack@[k] == pre_stack[k]);
                    } else {
                        assert(stack@[k] == gf2);
                    }
                }
            }
            let dep = match loader.resolve(Option::Some(base.as_str()), spec.as_str()) {
                Result::Ok(p) => p,
                Result::Err(e) => {
                    return Result::Err(e);
                },
            };
            if contains_path(&done, &dep) {
                continue ;
            }
            if contains_path(&stack_paths, &dep) {
                return Result::Err(BundleError::CyclicImport(dep));
            }
            let src = match loader.load(dep.as_str()) {
                Result::Ok(s) => s,
                Result::Err(e) => {
                    return Result::Err(e);
                },
            };
            let m = match transform_module(dep.as_str(), &src) {
                Result::Ok(m) => m,
                Result::Err(e) => {
                    return Result::Err(e);
                },
            };
            let ghost dep_tv = choose|tv: TransformV| spec_transform(src@) == Option::Some(tv);
            stack_paths.push(dep.clone());
            let nf = Frame { path: dep, module: m, next: 0, src: Ghost(src@), tv: Ghost(dep_tv) };
            let ghost gnf = nf;
            stack.push(nf);
            proof {
                assert(frame_ok(gnf));
            }
        } else {
            let ghost pre_stack = stack@;
            let f = stack.remove(stack.len() - 1);
            stack_paths.remove(stack_paths.len() - 1);
            done.push(f.path);
            let ghost ftv = f.tv@;
            let ghost fsrc = f.src@;
            proof {
                assert(f == pre_stack.last());
                assert(frame_ok(f));
                gsrcs = gsrcs.push(fsrc);
                gmods = gmods.push(ftv);
            }
            bodies.push(f.module.body);
            if stack.len() == 0 {
                entry_exports = f.module.exports;
                proof {
                    assert(crate::model::kvs_view(entry_exports@) == gmods.last().exports);
                }
            }
        }
    }
    if stack.len() > 0 {
        return Result::Err(
            BundleError::ParseFailed(
                entry.to_owned(),
                String::from_str("module graph too large"),
            ),
        );
    }

    let mut final_bodies: Vec<Vec<char>> = Vec::new();
    let mut bi: usize = 0;
    while bi < bodies.len()
        invariant
            bi <= bodies.len(),
            final_bodies@.len() == bi,
            forall|k: int| 0 <= k < bi ==> (#[trigger] final_bodies@[k])@ == spec_emitted_body(
                gmods[k],
                opts.minify,
            ),
        decreases bodies.len() - bi,
    {
        if opts.minify {
            final_bodies.push(minify(&bodies[bi]));
        } else {
            let mut b: Vec<char> = Vec::new();
            append_chars(&mut b, &bodies[bi]);
            b.push('\n');
            final_bodies.push(b);
        }
        bi += 1;
    }
    let out = bundle_modules(&final_bodies, &entry_exports);
    proof {
        let gb = crate::text::segs_view(final_bodies@);
        let ge = crate::model::kvs_view(entry_exports@);
        assert(gb =~= Seq::new(gmods.len(), |k: int| spec_emitted_body(gmods[k], opts.minify)));
        assert(bundle_witness(out@, opts.minify, gsrcs, gmods));
        let pre = "(function(){"@;
        let post = "};})();"@;
        assert(out@ == pre + spec_concat(gb) + "return{"@ + spec_exports_join(ge) + post);
        assert(out@.take(pre.len() as int) =~= pre);
        assert(out@.skip(out@.len() - post.len()) =~= post);
    }
    let r: Result<String, BundleError> = Result::Ok(out);
    proof {
        assert(bundle_witness((r->Ok_0)@, opts.minify, gsrcs, gmods));
        assert(exists|srcs: Seq<Seq<char>>, mods: Seq<TransformV>|
            bundle_witness((r->Ok_0)@, opts.minify, srcs, mods));
    }
    r
}

/// The entry module's exports alone: the property list the bundle's
/// returned object will expose, for checking a manifest against a bundle
/// before serving it.
pub fn entry_exports<L: ModuleLoader>(loader: &L, entry: &str) -> (r: Result<
    Vec<(String, String)>,
    BundleError,
>)
    ensures
        r matches Ok(es) ==> exists|src: Seq<char>|
            #[trigger] spec_transform(src) matches Some(tv) && tv.exports
                == crate::model::kvs_view(es@),
{
    let entry_path = match loader.resolve(Option::None, entry) {
        Result::Ok(p) => p,
        Result::Err(e) => {
            return Result::Err(e);
        },
    };
    let src = match loader.load(entry_path.as_str()) {
        Result::Ok(s) => s,
        Result::Err(e) => {
            return Result::Err(e);
        },
    };
    let m = match transform_module(entry_path.as_str(), &src) {
        Result::Ok(m) => m,
        Result::Err(e) => {
            return Result::Err(e);
        },
    };
    let ghost gsrc = src@;
    let es = m.exports;
    proof {
        assert(spec_transform(gsrc) matches Some(tv) && tv.exports == crate::model::kvs_view(
            es@,
        ));
    }
    Result::Ok(es)
}

/// The walker's whole state: the stack of open modules (path, rewriting,
/// next import to follow), the finished paths, and the rewritten modules in
/// emission order.
pub ghost struct DfsState {
    pub stack: Seq<(Seq<char>, TransformV, int)>,
    pub done: Seq<Seq<char>>,
    pub mods: Seq<TransformV>,
}

pub open spec fn stack_paths_of(stack: Seq<(Seq<char>, TransformV, int)>) -> Seq<Seq<char>> {
    stack.map_values(|f: (Seq<char>, TransformV, int)| f.0)
}

/// One depth-first walk over the module table, one step per fuel unit:
/// follow the top module's next import (skipping finished modules,
/// rejecting cycles, loading and rewriting new ones), or pop a finished
/// module onto the emission list. `None` on any failure.
pub open spec fn spec_dfs(files: Seq<(Seq<char>, Seq<char>)>, st: DfsState, fuel: nat) -> Option<
    Seq<TransformV>,
>
    decreases fuel,
{
    if st.stack.len() == 0 {
        Option::Some(st.mods)
    } else if fuel == 0 {
        Option::None
    } else {
        let top = st.stack.last();
        if top.2 < top.1.imports.len() {
            let dep = spec_resolve_path(Option::Some(top.0), top.1.imports[top.2]);
            let bumped = DfsState {
                stack: st.stack.update(st.stack.len() - 1, (top.0, top.1, top.2 + 1)),
                ..st
            };
            if st.done.contains(dep) {
                spec_dfs(files, bumped, (fuel - 1) as nat)
            } else if stack_paths_of(bumped.stack).contains(dep) {
                Option::None
            } else {
                match spec_lookup(files, dep) {
                    Option::None => Option::None,
                    Option::Some(src) => match spec_transform(src) {
                        Option::None => Option::None,
                        Option::Some(tv) => spec_dfs(
                            files,
                            DfsState { stack: bumped.stack.push((dep, tv, 0)), ..bumped },
                            (fuel - 1) as nat,
                        ),
                    },
                }
            }
        } else {
            spec_dfs(
                files,
                DfsState {
                    stack: st.stack.drop_last(),
                    done: st.done.push(top.0),
                    mods: st.mods.push(top.1),
                },
                (fuel - 1) as nat,
            )
        }
    }
}

/// What bundling a plain module table means, completely: resolve and load
/// the entry, rewrite it, walk the graph, and emit the bundle; `None`
/// exactly when any step fails.
pub open spec fn spec_bundle_files(
    files: Seq<(Seq<char>, Seq<char>)>,
    entry: Seq<char>,
    minify: bool,
) -> Option<Seq<char>> {
    let entry_path = spec_resolve_path(Option::None, entry);
    match spec_lookup(files, entry_path) {
        Option::None => Option::None,
        Option::Some(src) => match spec_transform(src) {
            Option::None => Option::None,
            Option::Some(tv) => match spec_dfs(
                files,
                DfsState {
                    stack: seq![(entry_path, tv, 0)],
                    done: Seq::empty(),
                    mods: Seq::empty(),
                },
                1000000,
            ) {
                Option::None => Option::None,
                Option::Some(mods) => Option::Some(
                    spec_bundle(
                        Seq::new(mods.len(), |k: int| spec_emitted_body(mods[k], minify)),
                        mods.last().exports,
                    ),
                ),
            },
        },
    }
}

/// The walker's state as the exec walk holds it.
spec fn machine_of(stack: Seq<Frame>, done: Seq<String>, mods: Seq<TransformV>) -> DfsState {
    DfsState {
        stack: stack.map_values(|f: Frame| (f.path@, f.tv@, f.next as int)),
        done: crate::text::strs_view(done),
        mods: mods,
    }
}

/// Bundle from a plain module table: the same walk as `run_bundle` over an
/// in-memory loader, with a complete contract -- it succeeds exactly when
/// `spec_bundle_files` does, and then returns exactly its text.
#[verifier::loop_isolation(false)]
#[verifier::rlimit(100)]
#[verifier::spinoff_prover]
pub fn bundle_files(files: &Vec<(String, String)>, entry: &str, opts: &BundleOptions) -> (r:
    Result<String, BundleError>)
    ensures
        r is Ok <==> spec_bundle_files(crate::model::kvs_view(files@), entry@, opts.minify)
            is Some,
        r matches Ok(out) ==> Option::Some(out@) == spec_bundle_files(
            crate::model::kvs_view(files@),
            entry@,
            opts.minify,
        ),
{
    let ghost gf = crate::model::kvs_view(files@);
    let entry_path = resolve_path(Option::None, entry);
    let ghost gentry = spec_resolve_path(Option::None, entry@);
    let entry_src = match lookup_files(files, entry_path.as_str()) {
        Option::Some(s) => s,
        Option::None => {
            return Result::Err(BundleError::LoadFailed(entry_path));
        },
    };
    let entry_module = match transform_module(entry_path.as_str(), &entry_src) {
        Result::Ok(m) => m,
        Result::Err(e) => {
            return Result::Err(e);
        },
    };
    let ghost entry_tv = choose|tv: TransformV| spec_transform(entry_src@) == Option::Some(tv);
    let ghost init_state = DfsState {
        stack: seq![(gentry, entry_tv, 0)],
        done: Seq::empty(),
        mods: Seq::empty(),
    };

    let mut stack: Vec<Frame> = Vec::new();
    let mut stack_paths: Vec<String> = Vec::new();
    stack_paths.push(entry_path.clone());
    stack.push(
        Frame {
            path: entry_path,
            module: entry_module,
            next: 0,
            src: Ghost(entry_src@),
            tv: Ghost(entry_tv),
        },
    );
    let mut done: Vec<String> = Vec::new();
    let mut bodies: Vec<Vec<char>> = Vec::new();
    let mut entry_exports_v: Vec<(String, String)> = Vec::new();
    let ghost mut gmods: Seq<TransformV> = Seq::empty();

    proof {
        assert(machine_of(stack@, done@, gmods).stack =~= init_state.stack);
        assert(machine_of(stack@, done@, gmods).done =~= init_state.done);
        assert(crate::text::strs_view(stack_paths@) =~= stack_paths_of(init_state.stack));
    }
    let mut fuel: usize = 1000000;
    while stack.len() > 0 && fuel > 0
        invariant
            stack@.len() == stack_paths@.len(),
            crate::text::strs_view(stack_paths@) == stack_paths_of(
                machine_of(stack@, done@, gmods).stack,
            ),
            bodies@.len() == gmods.len(),
            forall|k: int| 0 <= k < gmods.len() ==> (#[trigger] bodies@[k])@ == gmods[k].body,
            forall|k: int| 0 <= k < stack@.len() ==> frame_ok(#[trigger] stack@[k]),
            spec_dfs(gf, machine_of(stack@, done@, gmods), fuel as nat) == spec_dfs(
                gf,
                init_state,
                1000000,
            ),
            stack@.len() == 0 ==> gmods.len() >= 1 && crate::model::kvs_view(entry_exports_v@)
                == gmods.last().exports,
        decreases fuel,
    {
        let ghost pre_m = machine_of(stack@, done@, gmods);
        let ghost pre_fuel = fuel as nat;
        fuel -= 1;
        let top = stack.len() - 1;
        proof {
            assert(pre_m.stack.last() == (stack@[top as int].path@, stack@[top as int].tv@,
                stack@[top as int].next as int));
        }
        if stack[top].next < stack[top].module.imports.len() {
            let spec_idx = stack[top].next;
            let spec = stack[top].module.imports[spec_idx].clone();
            let base = stack[top].path.clone();
            proof {
                assert(spec@ == stack@[top as int].tv@.imports[spec_idx as int]);
            }
            let ghost pre_stack = stack@;
            let f = stack.remove(top);
            let f2 = Frame {
                path: f.path,
                module: f.module,
                next: spec_idx + 1,
                src: f.src,
                tv: f.tv,
            };
            let ghost gf2 = f2;
            stack.insert(top, f2);
            let ghost bumped = DfsState {
                stack: pre_m.stack.update(
                    pre_m.stack.len() - 1,
                    (pre_m.stack.last().0, pre_m.stack.last().1, pre_m.stack.last().2 + 1),
                ),
                ..pre_m
            };
            proof {
                assert(frame_ok(gf2));
                assert forall|k: int| 0 <= k < stack@.len() implies frame_ok(
                    #[trigger] stack@[k],
                ) by {
                    if k < top {
                        assert(stack@[k] == pre_stack[k]);
                    } else {
                        assert(stack@[k] == gf2);
                    }
                }
                assert(machine_of(stack@, done@, gmods).stack =~= bumped.stack);
                assert(machine_of(stack@, done@, gmods) == bumped);
                assert(stack_paths_of(bumped.stack) =~= stack_paths_of(pre_m.stack));
            }
            let dep = resolve_path(Option::Some(base.as_str()), spec.as_str());
            let ghost gdep = spec_resolve_path(
                Option::Some(pre_m.stack.last().0),
                pre_m.stack.last().1.imports[pre_m.stack.last().2],
            );
            proof {
                assert(dep@ == gdep);
            }
            if contains_path(&done, &dep) {
                proof {
                    assert(pre_m.done.contains(gdep));
                    assert(spec_dfs(gf, pre_m, pre_fuel) == spec_dfs(gf, bumped, fuel as nat));
                }
                continue ;
            }
            if contains_path(&stack_paths, &dep) {
                proof {
                    assert(stack_paths_of(bumped.stack).contains(gdep));
                    assert(spec_dfs(gf, pre_m, pre_fuel) is None);
                }
                return Result::Err(BundleError::CyclicImport(dep));
            }
            proof {
                assert(!stack_paths_of(bumped.stack).contains(gdep));
            }
            let src = match lookup_files(files, dep.as_str()) {
                Option::Some(s) => s,
                Option::None => {
                    proof {
                        assert(spec_dfs(gf, pre_m, pre_fuel) is None);
                    }
                    return Result::Err(BundleError::LoadFailed(dep));
                },
            };
            let m = match transform_module(dep.as_str(), &src) {
                Result::Ok(m) => m,
                Result::Err(e) => {
                    proof {
                        assert(spec_dfs(gf, pre_m, pre_fuel) is None);
                    }
                    return Result::Err(e);
                },
            };
            let ghost dep_tv = choose|tv: TransformV| spec_transform(src@) == Option::Some(tv);
            let ghost pre_paths = stack_paths@;
            let dep2 = dep.clone();
            let ghost gdc = dep2;
            stack_paths.push(dep2);
            let nf = Frame { path: dep, module: m, next: 0, src: Ghost(src@), tv: Ghost(dep_tv) };
            let ghost gnf = nf;
            stack.push(nf);
            proof {
                assert(frame_ok(gnf));
                assert(stack_paths@ == pre_paths.push(gdc));
                assert(gdc@ == gdep);
                assert(machine_of(stack@, done@, gmods).stack =~= bumped.stack.push(
                    (gdep, dep_tv, 0)));
                assert(machine_of(stack@, done@, gmods) == (DfsState {
                    stack: bumped.stack.push((gdep, dep_tv, 0)),
                    ..bumped
                }));
                let ghost ms = machine_of(stack@, done@, gmods).stack;
                assert(ms.len() == stack_paths@.len());
                assert forall|k: int| 0 <= k < stack_paths@.len() implies crate::text::strs_view(
                    stack_paths@,
                )[k] == stack_paths_of(ms)[k] by {
                    if k < pre_paths.len() {
                        assert(crate::text::strs_view(stack_paths@)[k] == pre_paths[k]@);
                        assert(crate::text::strs_view(pre_paths)[k] == pre_paths[k]@);
                        assert(ms[k] == bumped.stack[k]);
                        assert(bumped.stack[k].0 == pre_m.stack[k].0);
                        assert(stack_paths_of(pre_m.stack)[k] == pre_m.stack[k].0);
                    } else {
                        assert(crate::text::strs_view(stack_paths@)[k] == gdc@);
                        assert(ms[k].0 == gdep);
                    }
                }
                assert(crate::text::strs_view(stack_paths@) =~= stack_paths_of(ms));
                assert(spec_dfs(gf, pre_m, pre_fuel) == spec_dfs(
                    gf,
                    machine_of(stack@, done@, gmods),
                    fuel as nat,
                ));
            }
        } else {
            let ghost pre_stack = stack@;
            let ghost pre_paths = stack_paths@;
            let f = stack.remove(stack.len() - 1);
            stack_paths.remove(stack_paths.len() - 1);
            done.push(f.path);
            let ghost ftv = f.tv@;
            proof {
                assert(f == pre_stack.last());
                assert(frame_ok(f));
                assert(stack_paths@ =~= pre_paths.drop_last());
                gmods = gmods.push(ftv);
            }
            bodies.push(f.module.body);
            proof {
                assert(machine_of(stack@, done@, gmods).stack =~= pre_m.stack.drop_last());
                assert(machine_of(stack@, done@, gmods).done =~= pre_m.done.push(
                    pre_m.stack.last().0));
                assert(machine_of(stack@, done@, gmods) == (DfsState {
                    stack: pre_m.stack.drop_last(),
                    done: pre_m.done.push(pre_m.stack.last().0),
                    mods: pre_m.mods.push(pre_m.stack.last().1),
                }));
                let ghost ms = machine_of(stack@, done@, gmods).stack;
                assert(ms.len() == stack_paths@.len());
                assert forall|k: int| 0 <= k < stack_paths@.len() implies crate::text::strs_view(
                    stack_paths@,
                )[k] == stack_paths_of(ms)[k] by {
                    assert(crate::text::strs_view(stack_paths@)[k] == pre_paths[k]@);
                    assert(crate::text::strs_view(pre_paths)[k] == pre_paths[k]@);
                    assert(ms[k] == pre_m.stack.drop_last()[k]);
                    assert(pre_m.stack.drop_last()[k].0 == pre_m.stack[k].0);
                    assert(stack_paths_of(pre_m.stack)[k] == pre_m.stack[k].0);
                }
                assert(crate::text::strs_view(stack_paths@) =~= stack_paths_of(ms));
                assert(spec_dfs(gf, pre_m, pre_fuel) == spec_dfs(
                    gf,
                    machine_of(stack@, done@, gmods),
                    fuel as nat,
                ));
            }
            if stack.len() == 0 {
                entry_exports_v = f.module.exports;
                proof {
                    assert(crate::model::kvs_view(entry_exports_v@) == gmods.last().exports);
                }
            }
        }
    }
    if stack.len() > 0 {
        proof {
            assert(spec_dfs(gf, machine_of(stack@, done@, gmods), fuel as nat) is None);
        }
        return Result::Err(
            BundleError::ParseFailed(
                entry.to_owned(),
                String::from_str("module graph too large"),
            ),
        );
    }
    proof {
        assert(spec_dfs(gf, machine_of(stack@, done@, gmods), fuel as nat) == Option::Some(
            gmods,
        ));
        assert(spec_dfs(gf, init_state, 1000000) == Option::Some(gmods));
    }

    let mut final_bodies: Vec<Vec<char>> = Vec::new();
    let mut bi: usize = 0;
    while bi < bodies.len()
        invariant
            bi <= bodies.len(),
            final_bodies@.len() == bi,
            forall|k: int| 0 <= k < bi ==> (#[trigger] final_bodies@[k])@ == spec_emitted_body(
                gmods[k],
                opts.minify,
            ),
        decreases bodies.len() - bi,
    {
        if opts.minify {
            final_bodies.push(minify(&bodies[bi]));
        } else {
            let mut b: Vec<char> = Vec::new();
            append_chars(&mut b, &bodies[bi]);
            b.push('\n');
            final_bodies.push(b);
        }
        bi += 1;
    }
    let out = bundle_modules(&final_bodies, &entry_exports_v);
    proof {
        let gb = crate::text::segs_view(final_bodies@);
        assert(gb =~= Seq::new(gmods.len(), |k: int| spec_emitted_body(gmods[k], opts.minify)));
        assert(spec_bundle_files(gf, entry@, opts.minify) == Option::Some(out@));
    }
    Result::Ok(out)
}

/// The exports a table's entry module declares; fails exactly when the
/// entry cannot be loaded or rewritten.
pub open spec fn spec_entry_exports(
    files: Seq<(Seq<char>, Seq<char>)>,
    entry: Seq<char>,
) -> Option<Seq<(Seq<char>, Seq<char>)>> {
    let entry_path = spec_resolve_path(Option::None, entry);
    match spec_lookup(files, entry_path) {
        Option::None => Option::None,
        Option::Some(src) => match spec_transform(src) {
            Option::None => Option::None,
            Option::Some(tv) => Option::Some(tv.exports),
        },
    }
}

/// The entry module's exports, read from a plain module table: the property
/// list the bundle's returned object will expose, for checking a manifest
/// before serving.
pub fn exports_of_files(files: &Vec<(String, String)>, entry: &str) -> (r: Result<
    Vec<(String, String)>,
    BundleError,
>)
    ensures
        r is Ok <==> spec_entry_exports(crate::model::kvs_view(files@), entry@) is Some,
        r matches Ok(es) ==> Option::Some(crate::model::kvs_view(es@)) == spec_entry_exports(
            crate::model::kvs_view(files@),
            entry@,
        ),
{
    let entry_path = resolve_path(Option::None, entry);
    let src = match lookup_files(files, entry_path.as_str()) {
        Option::Some(s) => s,
        Option::None => {
            return Result::Err(BundleError::LoadFailed(entry_path));
        },
    };
    let m = match transform_module(entry_path.as_str(), &src) {
        Result::Ok(m) => m,
        Result::Err(e) => {
            return Result::Err(e);
        },
    };
    Result::Ok(m.exports)
}

} // verus!
