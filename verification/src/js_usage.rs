use vstd::prelude::*;

use crate::js_ast::{
    bool_str, JsAssignTarget, JsCallee, JsExpr, JsMemberProp, JsModule, JsProp, JsPropKey,
    JsStmt, JsVarDeclarator, VarEntry,
};
use crate::js_vars::{lookup_assoc, VarMap};
use crate::text::{
    clone_string, contains_seq, contains_str, eq_str, lower_seq, starts_with_seq,
    starts_with_str, to_lowercase_ascii,
};

verus! {

/// One detected HTTP call.
pub ghost struct HttpCallView {
    pub method: Seq<char>,
    pub url: Seq<char>,
    pub authorization: Option<Seq<char>>,
}

pub struct HttpCall {
    pub method: String,
    pub url: String,
    pub authorization: Option<String>,
}

impl View for HttpCall {
    type V = HttpCallView;

    open spec fn view(&self) -> HttpCallView {
        HttpCallView {
            method: self.method@,
            url: self.url@,
            authorization: match self.authorization {
                Some(a) => Some(a@),
                None => None,
            },
        }
    }
}

impl DeepView for HttpCall {
    type V = HttpCallView;

    open spec fn deep_view(&self) -> HttpCallView {
        self@
    }
}

/// Method names treated as HTTP verbs on a member callee.
pub open spec fn is_http_method_spec(n: Seq<char>) -> bool {
    n == "get"@ || n == "post"@ || n == "put"@ || n == "delete"@ || n == "patch"@ || n == "fetch"@
}

pub fn is_http_method(name: &str) -> (r: bool)
    ensures
        r == is_http_method_spec(name@),
{
    eq_str(name, "get") || eq_str(name, "post") || eq_str(name, "put") || eq_str(name, "delete")
        || eq_str(name, "patch") || eq_str(name, "fetch")
}

/// Identifier callees treated as HTTP clients by substring.
pub open spec fn is_http_client_name_spec(n: Seq<char>) -> bool {
    contains_seq(n, "http"@) || contains_seq(n, "fetch"@) || contains_seq(n, "axios"@)
        || contains_seq(n, "client"@) || contains_seq(n, "api"@)
}

pub fn is_http_client_name(name: &str) -> (r: bool)
    ensures
        r == is_http_client_name_spec(name@),
{
    contains_str(name, "http") || contains_str(name, "fetch") || contains_str(name, "axios")
        || contains_str(name, "client") || contains_str(name, "api")
}

/// Whether a resolved first argument looks like a URL.
pub open spec fn is_likely_url_spec(u: Seq<char>) -> bool {
    contains_seq(u, "/"@) || starts_with_seq(u, "http"@) || starts_with_seq(u, "./"@)
        || starts_with_seq(u, "../"@) || contains_seq(u, "?"@) || contains_seq(u, "api"@)
        || contains_seq(u, "${"@)
}

pub fn is_likely_url(url: &str) -> (r: bool)
    ensures
        r == is_likely_url_spec(url@),
{
    contains_str(url, "/") || starts_with_str(url, "http") || starts_with_str(url, "./")
        || starts_with_str(url, "../") || contains_str(url, "?") || contains_str(url, "api")
        || contains_str(url, "${")
}

/// Case-insensitive property-name match, for identifier and string keys.
pub open spec fn is_prop_named_spec(key: JsPropKey, name: Seq<char>) -> bool {
    match key {
        JsPropKey::Named(id) => lower_seq(id@) == lower_seq(name),
        JsPropKey::Quoted(s) => lower_seq(s@) == lower_seq(name),
        JsPropKey::Opaque => false,
    }
}

pub fn is_prop_named(key: &JsPropKey, name: &str) -> (r: bool)
    ensures
        r == is_prop_named_spec(*key, name@),
{
    match key {
        JsPropKey::Named(id) => {
            let a = to_lowercase_ascii(id.as_str());
            let b = to_lowercase_ascii(name);
            eq_str(a.as_str(), b.as_str())
        },
        JsPropKey::Quoted(s) => {
            let a = to_lowercase_ascii(s.as_str());
            let b = to_lowercase_ascii(name);
            eq_str(a.as_str(), b.as_str())
        },
        JsPropKey::Opaque => false,
    }
}

/// The rendering of an expression by the small URL evaluator: `+` chains
/// concatenated, literals as themselves, identifiers through the variable
/// environment, trying the name and then its global-scope key, with
/// `${name}` when neither is recorded; template literals with `${…}`
/// placeholders, member accesses re-spelled.
pub open spec fn resolve_expr_spec(e: JsExpr, vars: Seq<VarEntry>) -> Seq<char>
    decreases e, 1int,
{
    match e {
        JsExpr::Bin { op, left, right } => if op@ == "+"@ {
            resolve_expr_spec(*left, vars) + resolve_expr_spec(*right, vars)
        } else {
            "[expr]"@
        },
        JsExpr::StrLit(s) => s@,
        JsExpr::NumLit(n) => n@,
        JsExpr::BoolLit(b) => bool_str(b),
        JsExpr::NullLit => "null"@,
        JsExpr::Ident(id) => match lookup_assoc(vars, id@) {
            Some(v) => v,
            None => match lookup_assoc(vars, "::"@ + id@) {
                Some(v) => v,
                None => "${"@ + id@ + "}"@,
            },
        },
        JsExpr::Tpl { quasis, exprs } => tpl_resolve_spec(
            exprs@,
            quasis.deep_view(),
            vars,
            quasis@.len() as int,
        ),
        JsExpr::Member { obj, prop } => resolve_expr_spec(*obj, vars) + (match prop {
            JsMemberProp::Named(id) => "."@ + id@,
            JsMemberProp::Computed(p) => "["@ + resolve_expr_spec(*p, vars) + "]"@,
            JsMemberProp::Opaque => "[computed]"@,
        }),
        _ => "[expr]"@,
    }
}

/// The first `n` quasis of a template, each followed by the `${…}`
/// placeholder of the interpolation at its index, when there is one.
pub open spec fn tpl_resolve_spec(
    exprs: Seq<JsExpr>,
    quasis: Seq<Seq<char>>,
    vars: Seq<VarEntry>,
    n: int,
) -> Seq<char>
    decreases exprs, n,
{
    if n <= 0 {
        Seq::empty()
    } else {
        tpl_resolve_spec(exprs, quasis, vars, n - 1) + quasis[n - 1] + (if 0 <= n - 1
            < exprs.len() {
            "${"@ + stringify_expr_spec(exprs[n - 1], vars) + "}"@
        } else {
            Seq::empty()
        })
    }
}

/// The rendering of a template interpolation: identifiers through the
/// environment (bare name when unknown), literals, members re-spelled.
pub open spec fn stringify_expr_spec(e: JsExpr, vars: Seq<VarEntry>) -> Seq<char>
    decreases e, 2int,
{
    match e {
        JsExpr::Ident(id) => match lookup_assoc(vars, id@) {
            Some(v) => v,
            None => match lookup_assoc(vars, "::"@ + id@) {
                Some(v) => v,
                None => id@,
            },
        },
        JsExpr::StrLit(s) => s@,
        JsExpr::NumLit(n) => n@,
        JsExpr::Member { .. } => resolve_expr_spec(e, vars),
        _ => "[expr]"@,
    }
}

/// The authorization header resolved from an `authorization` property of
/// a `headers` object among the arguments after the first, scanning
/// forward.
pub open spec fn find_auth_header(hs: Seq<JsProp>, vars: Seq<VarEntry>, k: int) -> Option<
    Seq<char>,
>
    decreases hs, hs.len() - k,
{
    if k < 0 || k >= hs.len() {
        None
    } else {
        match hs[k] {
            JsProp::Pair { key, value } => if is_prop_named_spec(key, "authorization"@) {
                Some(resolve_expr_spec(value, vars))
            } else {
                find_auth_header(hs, vars, k + 1)
            },
            _ => find_auth_header(hs, vars, k + 1),
        }
    }
}

pub open spec fn find_auth_props(props: Seq<JsProp>, vars: Seq<VarEntry>, j: int) -> Option<
    Seq<char>,
>
    decreases props, props.len() - j,
{
    if j < 0 || j >= props.len() {
        None
    } else {
        match props[j] {
            JsProp::Pair { key, value } => if is_prop_named_spec(key, "headers"@) {
                match value {
                    JsExpr::Object(hs) => match find_auth_header(hs@, vars, 0) {
                        Some(a) => Some(a),
                        None => find_auth_props(props, vars, j + 1),
                    },
                    _ => find_auth_props(props, vars, j + 1),
                }
            } else {
                find_auth_props(props, vars, j + 1)
            },
            _ => find_auth_props(props, vars, j + 1),
        }
    }
}

pub open spec fn find_auth_args(args: Seq<JsExpr>, vars: Seq<VarEntry>, i: int) -> Option<
    Seq<char>,
>
    decreases args, args.len() - i,
{
    if i < 0 || i >= args.len() {
        None
    } else {
        match args[i] {
            JsExpr::Object(props) => match find_auth_props(props@, vars, 0) {
                Some(a) => Some(a),
                None => find_auth_args(args, vars, i + 1),
            },
            _ => find_auth_args(args, vars, i + 1),
        }
    }
}

/// What one recognized call contributes: a call record when the resolved
/// first argument looks URL-like, nothing otherwise.
pub open spec fn handle_call_spec(
    method: Seq<char>,
    args: Seq<JsExpr>,
    vars: Seq<VarEntry>,
) -> Seq<HttpCallView> {
    let url = if args.len() > 0 {
        resolve_expr_spec(args[0], vars)
    } else {
        "[unknown]"@
    };
    if is_likely_url_spec(url) {
        seq![
            HttpCallView { method, url, authorization: find_auth_args(args, vars, 1) },
        ]
    } else {
        Seq::empty()
    }
}

/// The calls detected in one expression, in pre-order: the node itself
/// when it is a recognized call, then its children.
pub open spec fn usage_expr_calls(e: JsExpr, vars: Seq<VarEntry>) -> Seq<HttpCallView>
    decreases e, 3int,
{
    (match e {
        JsExpr::Call { callee: JsCallee::Expr(inner), args } => match *inner {
            JsExpr::Member { obj, prop } => match prop {
                JsMemberProp::Named(m) => if is_http_method_spec(m@) {
                    handle_call_spec(m@, args@, vars)
                } else {
                    Seq::empty()
                },
                _ => Seq::empty(),
            },
            JsExpr::Ident(name) => if is_http_client_name_spec(name@) {
                handle_call_spec(name@, args@, vars)
            } else {
                Seq::empty()
            },
            _ => Seq::empty(),
        },
        _ => Seq::empty(),
    }) + (match e {
        JsExpr::Tpl { quasis, exprs } => usage_exprs_calls(exprs@, vars),
        JsExpr::Paren(inner) => usage_expr_calls(*inner, vars),
        JsExpr::Object(props) => usage_props_calls(props@, vars),
        JsExpr::Array(elems) => usage_opt_exprs_calls(elems@, vars),
        JsExpr::Bin { op, left, right } => usage_expr_calls(*left, vars) + usage_expr_calls(
            *right,
            vars,
        ),
        JsExpr::Unary { op, arg } => usage_expr_calls(*arg, vars),
        JsExpr::Call { callee, args } => (match callee {
            JsCallee::Expr(inner) => usage_expr_calls(*inner, vars),
            JsCallee::Opaque => Seq::empty(),
        }) + usage_exprs_calls(args@, vars),
        JsExpr::Member { obj, prop } => usage_expr_calls(*obj, vars) + (match prop {
            JsMemberProp::Computed(p) => usage_expr_calls(*p, vars),
            _ => Seq::empty(),
        }),
        JsExpr::Assign { target, value } => (match target {
            JsAssignTarget::Member { obj, prop } => usage_expr_calls(*obj, vars) + (match prop {
                JsMemberProp::Computed(p) => usage_expr_calls(*p, vars),
                _ => Seq::empty(),
            }),
            JsAssignTarget::Opaque => Seq::empty(),
        }) + usage_expr_calls(*value, vars),
        JsExpr::FnBody(ss) => usage_stmts_calls(ss@, vars),
        JsExpr::Opaque(children) => usage_exprs_calls(children@, vars),
        _ => Seq::empty(),
    })
}

pub open spec fn usage_exprs_calls(es: Seq<JsExpr>, vars: Seq<VarEntry>) -> Seq<HttpCallView>
    decreases es, 3int,
{
    if es.len() == 0 {
        Seq::empty()
    } else {
        usage_exprs_calls(es.drop_last(), vars) + usage_expr_calls(es.last(), vars)
    }
}

pub open spec fn usage_opt_exprs_calls(es: Seq<Option<JsExpr>>, vars: Seq<VarEntry>) -> Seq<
    HttpCallView,
>
    decreases es, 3int,
{
    if es.len() == 0 {
        Seq::empty()
    } else {
        usage_opt_exprs_calls(es.drop_last(), vars) + (match es.last() {
            Some(e) => usage_expr_calls(e, vars),
            None => Seq::empty(),
        })
    }
}

pub open spec fn usage_props_calls(props: Seq<JsProp>, vars: Seq<VarEntry>) -> Seq<HttpCallView>
    decreases props, 3int,
{
    if props.len() == 0 {
        Seq::empty()
    } else {
        usage_props_calls(props.drop_last(), vars) + (match props.last() {
            JsProp::Pair { key, value } => usage_expr_calls(value, vars),
            JsProp::Method { key, body } => usage_stmts_calls(body@, vars),
            JsProp::Opaque => Seq::empty(),
        })
    }
}

pub open spec fn usage_stmts_calls(ss: Seq<JsStmt>, vars: Seq<VarEntry>) -> Seq<HttpCallView>
    decreases ss, 4int,
{
    if ss.len() == 0 {
        Seq::empty()
    } else {
        usage_stmts_calls(ss.drop_last(), vars) + usage_stmt_calls(ss.last(), vars)
    }
}

pub open spec fn usage_stmt_calls(s: JsStmt, vars: Seq<VarEntry>) -> Seq<HttpCallView>
    decreases s, 5int,
{
    match s {
        JsStmt::VarDecl(ds) => usage_decls_calls(ds@, vars),
        JsStmt::FnDecl { name, body } => usage_stmts_calls(body@, vars),
        JsStmt::Expr(e) => usage_expr_calls(e, vars),
        JsStmt::Block(ss) => usage_stmts_calls(ss@, vars),
    }
}

pub open spec fn usage_decls_calls(ds: Seq<JsVarDeclarator>, vars: Seq<VarEntry>) -> Seq<
    HttpCallView,
>
    decreases ds, 4int,
{
    if ds.len() == 0 {
        Seq::empty()
    } else {
        usage_decls_calls(ds.drop_last(), vars) + (match ds.last().init {
            Some(e) => usage_expr_calls(e, vars),
            None => Seq::empty(),
        })
    }
}

/// The calls of a whole module.
pub open spec fn usage_module_calls(m: JsModule, vars: Seq<VarEntry>) -> Seq<HttpCallView> {
    usage_stmts_calls(m.body@, vars)
}


/// Renders an expression through the URL evaluator, realizing
/// `resolve_expr_spec`.
pub fn resolve_expr(e: &JsExpr, vars: &VarMap) -> (r: String)
    ensures
        r@ == resolve_expr_spec(*e, vars.items_view()),
    decreases *e, 1int,
{
    let ghost v = vars.items_view();
    match e {
        JsExpr::Bin { op, left, right } => {
            if eq_str(op.as_str(), "+") {
                proof {
                    assert(decreases_to!(*e => e->Bin_left));
                    assert(decreases_to!(*e => e->Bin_right));
                }
                let mut l = resolve_expr(left, vars);
                let rr = resolve_expr(right, vars);
                l.append(rr.as_str());
                l
            } else {
                "[expr]".to_owned()
            }
        },
        JsExpr::StrLit(s) => clone_string(s),
        JsExpr::NumLit(n) => clone_string(n),
        JsExpr::BoolLit(b) => if *b {
            "true".to_owned()
        } else {
            "false".to_owned()
        },
        JsExpr::NullLit => "null".to_owned(),
        JsExpr::Ident(id) => match vars.get(id.as_str()) {
            Some(val) => val,
            None => {
                let mut scoped = "::".to_owned();
                scoped.append(id.as_str());
                proof {
                    assert(scoped@ =~= "::"@ + id@);
                }
                match vars.get(scoped.as_str()) {
                    Some(val) => val,
                    None => {
                        let mut out = "${".to_owned();
                        out.append(id.as_str());
                        out.append("}");
                        proof {
                            assert(out@ =~= "${"@ + id@ + "}"@);
                        }
                        out
                    },
                }
            },
        },
        JsExpr::Tpl { quasis, exprs } => {
            let mut out = String::new();
            let mut i: usize = 0;
            while i < quasis.len()
                invariant
                    0 <= i <= quasis@.len(),
                    *e == (JsExpr::Tpl { quasis: *quasis, exprs: *exprs }),
                    v == vars.items_view(),
                    out@ == tpl_resolve_spec(exprs@, quasis.deep_view(), v, i as int),
                decreases quasis@.len() - i,
            {
                out.append(quasis[i].as_str());
                if i < exprs.len() {
                    proof {
                        assert(decreases_to!(*e => e->Tpl_exprs));
                        assert(decreases_to!(e->Tpl_exprs => exprs@[i as int]));
                    }
                    let part = stringify_expr(&exprs[i], vars);
                    out.append("${");
                    out.append(part.as_str());
                    out.append("}");
                }
                proof {
                    assert(quasis.deep_view()[i as int] == quasis@[i as int]@);
                    assert(out@ =~= tpl_resolve_spec(exprs@, quasis.deep_view(), v, i + 1));
                }
                i = i + 1;
            }
            out
        },
        JsExpr::Member { obj, prop } => {
            proof {
                assert(decreases_to!(*e => e->Member_obj));
            }
            let mut out = resolve_expr(obj, vars);
            match prop {
                JsMemberProp::Named(id) => {
                    out.append(".");
                    out.append(id.as_str());
                    proof {
                        assert(out@ =~= resolve_expr_spec(*e->Member_obj, v) + ("."@ + id@));
                    }
                },
                JsMemberProp::Computed(p) => {
                    proof {
                        assert(decreases_to!(*e => e->Member_prop));
                        assert(decreases_to!(e->Member_prop => e->Member_prop->Computed_0));
                    }
                    let inner = resolve_expr(p, vars);
                    out.append("[");
                    out.append(inner.as_str());
                    out.append("]");
                    proof {
                        assert(out@ =~= resolve_expr_spec(*e->Member_obj, v) + ("["@
                            + resolve_expr_spec(*e->Member_prop->Computed_0, v) + "]"@));
                    }
                },
                JsMemberProp::Opaque => {
                    out.append("[computed]");
                },
            }
            out
        },
        _ => "[expr]".to_owned(),
    }
}

/// Renders a template interpolation, realizing `stringify_expr_spec`.
fn stringify_expr(e: &JsExpr, vars: &VarMap) -> (r: String)
    ensures
        r@ == stringify_expr_spec(*e, vars.items_view()),
    decreases *e, 2int,
{
    match e {
        JsExpr::Ident(id) => match vars.get(id.as_str()) {
            Some(val) => val,
            None => {
                let mut scoped = "::".to_owned();
                scoped.append(id.as_str());
                proof {
                    assert(scoped@ =~= "::"@ + id@);
                }
                match vars.get(scoped.as_str()) {
                    Some(val) => val,
                    None => clone_string(id),
                }
            },
        },
        JsExpr::StrLit(s) => clone_string(s),
        JsExpr::NumLit(n) => clone_string(n),
        JsExpr::Member { .. } => resolve_expr(e, vars),
        _ => "[expr]".to_owned(),
    }
}

fn find_auth_in_headers(hs: &Vec<JsProp>, vars: &VarMap) -> (r: Option<String>)
    ensures
        match r {
            Some(a) => find_auth_header(hs@, vars.items_view(), 0) == Some(a@),
            None => find_auth_header(hs@, vars.items_view(), 0) is None,
        },
{
    let ghost v = vars.items_view();
    let mut k: usize = 0;
    while k < hs.len()
        invariant
            0 <= k <= hs@.len(),
            v == vars.items_view(),
            find_auth_header(hs@, v, 0) == find_auth_header(hs@, v, k as int),
        decreases hs@.len() - k,
    {
        match &hs[k] {
            JsProp::Pair { key, value } => {
                if is_prop_named(key, "authorization") {
                    return Some(resolve_expr(value, vars));
                }
            },
            _ => {},
        }
        k = k + 1;
    }
    None
}

fn find_auth_in_props(props: &Vec<JsProp>, vars: &VarMap) -> (r: Option<String>)
    ensures
        match r {
            Some(a) => find_auth_props(props@, vars.items_view(), 0) == Some(a@),
            None => find_auth_props(props@, vars.items_view(), 0) is None,
        },
{
    let ghost v = vars.items_view();
    let mut j: usize = 0;
    while j < props.len()
        invariant
            0 <= j <= props@.len(),
            v == vars.items_view(),
            find_auth_props(props@, v, 0) == find_auth_props(props@, v, j as int),
        decreases props@.len() - j,
    {
        match &props[j] {
            JsProp::Pair { key, value } => {
                if is_prop_named(key, "headers") {
                    match value {
                        JsExpr::Object(hs) => {
                            match find_auth_in_headers(hs, vars) {
                                Some(a) => {
                                    return Some(a);
                                },
                                None => {},
                            }
                        },
                        _ => {},
                    }
                }
            },
            _ => {},
        }
        j = j + 1;
    }
    None
}

/// Finds and resolves an `authorization` header among the arguments after
/// the first, realizing `find_auth_args` from index 1.
pub fn extract_authorization_from_args(args: &Vec<JsExpr>, vars: &VarMap) -> (r: Option<String>)
    ensures
        match r {
            Some(a) => find_auth_args(args@, vars.items_view(), 1) == Some(a@),
            None => find_auth_args(args@, vars.items_view(), 1) is None,
        },
{
    let ghost v = vars.items_view();
    let mut i: usize = 1;
    while i < args.len()
        invariant
            1 <= i,
            args@.len() >= 1 ==> i <= args@.len(),
            v == vars.items_view(),
            find_auth_args(args@, v, 1) == find_auth_args(args@, v, i as int),
        decreases args@.len() - i,
    {
        match &args[i] {
            JsExpr::Object(props) => {
                match find_auth_in_props(props, vars) {
                    Some(a) => {
                        return Some(a);
                    },
                    None => {},
                }
            },
            _ => {},
        }
        i = i + 1;
    }
    None
}

/// The result of the JS analysis: the variable environment of the first
/// pass and the HTTP calls of the second.
pub struct JsResult {
    pub calls: Vec<HttpCall>,
    pub vars: VarMap,
}

impl JsResult {
    pub fn new(vars: VarMap) -> (r: Self)
        ensures
            r.calls.deep_view() == Seq::<HttpCallView>::empty(),
            r.vars == vars,
    {
        let r = JsResult { calls: Vec::new(), vars };
        proof {
            assert(r.calls.deep_view() =~= Seq::<HttpCallView>::empty());
        }
        r
    }
}

/// The second analysis pass: walks the module, detecting HTTP calls and
/// resolving their URLs against the variable environment.
pub struct JsUsageAnalyzer {
    pub result: JsResult,
}

impl JsUsageAnalyzer {
    /// Records one recognized call, realizing `handle_call_spec`.
    pub fn handle_http_call(&mut self, method: &str, args: &Vec<JsExpr>)
        ensures
            final(self).result.calls.deep_view() == old(self).result.calls.deep_view()
                + handle_call_spec(method@, args@, old(self).result.vars.items_view()),
            final(self).result.vars == old(self).result.vars,
    {
        let ghost calls0 = self.result.calls.deep_view();
        let ghost v = self.result.vars.items_view();
        let url = if args.len() > 0 {
            resolve_expr(&args[0], &self.result.vars)
        } else {
            "[unknown]".to_owned()
        };
        if !is_likely_url(url.as_str()) {
            proof {
                assert(calls0 + handle_call_spec(method@, args@, v) =~= calls0);
            }
            return;
        }
        let authorization = extract_authorization_from_args(args, &self.result.vars);
        let call = HttpCall { method: method.to_owned(), url, authorization };
        let ghost cv = call@;
        self.result.calls.push(call);
        proof {
            assert(handle_call_spec(method@, args@, v) =~= seq![cv]);
            assert(self.result.calls.deep_view() =~= calls0 + seq![cv]);
        }
    }

    /// Walks a whole module, realizing `usage_module_calls`.
    pub fn visit_module(&mut self, m: &JsModule)
        ensures
            final(self).result.calls.deep_view() == old(self).result.calls.deep_view()
                + usage_module_calls(*m, old(self).result.vars.items_view()),
            final(self).result.vars == old(self).result.vars,
    {
        self.visit_stmts(&m.body);
    }

    pub fn visit_stmts(&mut self, ss: &Vec<JsStmt>)
        ensures
            final(self).result.calls.deep_view() == old(self).result.calls.deep_view()
                + usage_stmts_calls(ss@, old(self).result.vars.items_view()),
            final(self).result.vars == old(self).result.vars,
        decreases ss@, 6int,
    {
        let ghost calls0 = self.result.calls.deep_view();
        let ghost v = self.result.vars.items_view();
        let ghost vars0 = self.result.vars;
        let mut i: usize = 0;
        proof {
            assert(ss@.take(0) =~= Seq::<JsStmt>::empty());
            assert(calls0 + usage_stmts_calls(ss@.take(0), v) =~= calls0);
        }
        while i < ss.len()
            invariant
                0 <= i <= ss@.len(),
                self.result.vars == vars0,
                v == vars0.items_view(),
                self.result.calls.deep_view() == calls0 + usage_stmts_calls(
                    ss@.take(i as int),
                    v,
                ),
            decreases ss@.len() - i,
        {
            proof {
                assert(ss@.take(i + 1).drop_last() =~= ss@.take(i as int));
                assert(ss@.take(i + 1).last() == ss@[i as int]);
                assert(decreases_to!(ss@ => ss@[i as int]));
            }
            self.visit_stmt(&ss[i]);
            proof {
                assert((calls0 + usage_stmts_calls(ss@.take(i as int), v)) + usage_stmt_calls(
                    ss@[i as int],
                    v,
                ) =~= calls0 + usage_stmts_calls(ss@.take(i + 1), v));
            }
            i = i + 1;
        }
        proof {
            assert(ss@.take(ss@.len() as int) =~= ss@);
        }
    }

    pub fn visit_stmt(&mut self, s: &JsStmt)
        ensures
            final(self).result.calls.deep_view() == old(self).result.calls.deep_view()
                + usage_stmt_calls(*s, old(self).result.vars.items_view()),
            final(self).result.vars == old(self).result.vars,
        decreases *s, 7int,
    {
        let ghost calls0 = self.result.calls.deep_view();
        let ghost v = self.result.vars.items_view();
        let ghost vars0 = self.result.vars;
        match s {
            JsStmt::VarDecl(ds) => {
                let mut i: usize = 0;
                proof {
                    assert(ds@.take(0) =~= Seq::<JsVarDeclarator>::empty());
                    assert(calls0 + usage_decls_calls(ds@.take(0), v) =~= calls0);
                }
                while i < ds.len()
                    invariant
                        0 <= i <= ds@.len(),
                        *s == JsStmt::VarDecl(*ds),
                        self.result.vars == vars0,
                        v == vars0.items_view(),
                        self.result.calls.deep_view() == calls0 + usage_decls_calls(
                            ds@.take(i as int),
                            v,
                        ),
                    decreases ds@.len() - i,
                {
                    proof {
                        assert(ds@.take(i + 1).drop_last() =~= ds@.take(i as int));
                        assert(ds@.take(i + 1).last() == ds@[i as int]);
                    }
                    let ghost pre = self.result.calls.deep_view();
                    match &ds[i].init {
                        Some(e) => {
                            proof {
                                assert(decreases_to!(*s => s->VarDecl_0));
                                assert(decreases_to!(s->VarDecl_0 => ds@[i as int]));
                                assert(decreases_to!(ds@[i as int] => ds@[i as int].init));
                                assert(decreases_to!(ds@[i as int].init
                                    => ds@[i as int].init->Some_0));
                            }
                            self.visit_expr(e);
                        },
                        None => {},
                    }
                    proof {
                        assert(self.result.calls.deep_view() =~= calls0 + usage_decls_calls(
                            ds@.take(i + 1),
                            v,
                        ));
                    }
                    i = i + 1;
                }
                proof {
                    assert(ds@.take(ds@.len() as int) =~= ds@);
                }
            },
            JsStmt::FnDecl { name, body } => {
                proof {
                    assert(decreases_to!(*s => s->FnDecl_body));
                    assert(decreases_to!(s->FnDecl_body => s->FnDecl_body@));
                }
                self.visit_stmts(body);
            },
            JsStmt::Expr(e) => {
                proof {
                    assert(decreases_to!(*s => s->Expr_0));
                }
                self.visit_expr(e);
            },
            JsStmt::Block(ss) => {
                proof {
                    assert(decreases_to!(*s => s->Block_0));
                    assert(decreases_to!(s->Block_0 => s->Block_0@));
                }
                self.visit_stmts(ss);
            },
        }
    }

    pub fn visit_exprs(&mut self, es: &Vec<JsExpr>)
        ensures
            final(self).result.calls.deep_view() == old(self).result.calls.deep_view()
                + usage_exprs_calls(es@, old(self).result.vars.items_view()),
            final(self).result.vars == old(self).result.vars,
        decreases es@, 6int,
    {
        let ghost calls0 = self.result.calls.deep_view();
        let ghost v = self.result.vars.items_view();
        let ghost vars0 = self.result.vars;
        let mut i: usize = 0;
        proof {
            assert(es@.take(0) =~= Seq::<JsExpr>::empty());
            assert(calls0 + usage_exprs_calls(es@.take(0), v) =~= calls0);
        }
        while i < es.len()
            invariant
                0 <= i <= es@.len(),
                self.result.vars == vars0,
                v == vars0.items_view(),
                self.result.calls.deep_view() == calls0 + usage_exprs_calls(
                    es@.take(i as int),
                    v,
                ),
            decreases es@.len() - i,
        {
            proof {
                assert(es@.take(i + 1).drop_last() =~= es@.take(i as int));
                assert(es@.take(i + 1).last() == es@[i as int]);
                assert(decreases_to!(es@ => es@[i as int]));
            }
            self.visit_expr(&es[i]);
            proof {
                assert(self.result.calls.deep_view() =~= calls0 + usage_exprs_calls(
                    es@.take(i + 1),
                    v,
                ));
            }
            i = i + 1;
        }
        proof {
            assert(es@.take(es@.len() as int) =~= es@);
        }
    }

    pub fn visit_opt_exprs(&mut self, es: &Vec<Option<JsExpr>>)
        ensures
            final(self).result.calls.deep_view() == old(self).result.calls.deep_view()
                + usage_opt_exprs_calls(es@, old(self).result.vars.items_view()),
            final(self).result.vars == old(self).result.vars,
        decreases es@, 6int,
    {
        let ghost calls0 = self.result.calls.deep_view();
        let ghost v = self.result.vars.items_view();
        let ghost vars0 = self.result.vars;
        let mut i: usize = 0;
        proof {
            assert(es@.take(0) =~= Seq::<Option<JsExpr>>::empty());
            assert(calls0 + usage_opt_exprs_calls(es@.take(0), v) =~= calls0);
        }
        while i < es.len()
            invariant
                0 <= i <= es@.len(),
                self.result.vars == vars0,
                v == vars0.items_view(),
                self.result.calls.deep_view() == calls0 + usage_opt_exprs_calls(
                    es@.take(i as int),
                    v,
                ),
            decreases es@.len() - i,
        {
            proof {
                assert(es@.take(i + 1).drop_last() =~= es@.take(i as int));
                assert(es@.take(i + 1).last() == es@[i as int]);
            }
            match &es[i] {
                Some(el) => {
                    proof {
                        assert(decreases_to!(es@ => es@[i as int]));
                        assert(decreases_to!(es@[i as int] => es@[i as int]->Some_0));
                    }
                    self.visit_expr(el);
                },
                None => {},
            }
            proof {
                assert(self.result.calls.deep_view() =~= calls0 + usage_opt_exprs_calls(
                    es@.take(i + 1),
                    v,
                ));
            }
            i = i + 1;
        }
        proof {
            assert(es@.take(es@.len() as int) =~= es@);
        }
    }

    pub fn visit_props(&mut self, props: &Vec<JsProp>)
        ensures
            final(self).result.calls.deep_view() == old(self).result.calls.deep_view()
                + usage_props_calls(props@, old(self).result.vars.items_view()),
            final(self).result.vars == old(self).result.vars,
        decreases props@, 6int,
    {
        let ghost calls0 = self.result.calls.deep_view();
        let ghost v = self.result.vars.items_view();
        let ghost vars0 = self.result.vars;
        let mut i: usize = 0;
        proof {
            assert(props@.take(0) =~= Seq::<JsProp>::empty());
            assert(calls0 + usage_props_calls(props@.take(0), v) =~= calls0);
        }
        while i < props.len()
            invariant
                0 <= i <= props@.len(),
                self.result.vars == vars0,
                v == vars0.items_view(),
                self.result.calls.deep_view() == calls0 + usage_props_calls(
                    props@.take(i as int),
                    v,
                ),
            decreases props@.len() - i,
        {
            proof {
                assert(props@.take(i + 1).drop_last() =~= props@.take(i as int));
                assert(props@.take(i + 1).last() == props@[i as int]);
            }
            match &props[i] {
                JsProp::Pair { key, value } => {
                    proof {
                        assert(decreases_to!(props@ => props@[i as int]));
                        assert(decreases_to!(props@[i as int] => props@[i as int]->Pair_value));
                    }
                    self.visit_expr(value);
                },
                JsProp::Method { key, body } => {
                    proof {
                        assert(decreases_to!(props@ => props@[i as int]));
                        assert(decreases_to!(props@[i as int] => props@[i as int]->Method_body));
                        assert(decreases_to!(props@[i as int]->Method_body
                            => props@[i as int]->Method_body@));
                    }
                    self.visit_stmts(body);
                },
                JsProp::Opaque => {},
            }
            proof {
                assert(self.result.calls.deep_view() =~= calls0 + usage_props_calls(
                    props@.take(i + 1),
                    v,
                ));
            }
            i = i + 1;
        }
        proof {
            assert(props@.take(props@.len() as int) =~= props@);
        }
    }

    /// Walks one expression of the second pass: a recognized call is
    /// recorded first, then the children are traversed.
    pub fn visit_expr(&mut self, e: &JsExpr)
        ensures
            final(self).result.calls.deep_view() == old(self).result.calls.deep_view()
                + usage_expr_calls(*e, old(self).result.vars.items_view()),
            final(self).result.vars == old(self).result.vars,
        decreases *e, 6int,
    {
        let ghost calls0 = self.result.calls.deep_view();
        let ghost v = self.result.vars.items_view();
        let ghost ee = *e;
        let ghost head: Seq<HttpCallView> = match ee {
            JsExpr::Call { callee: JsCallee::Expr(inner), args } => match *inner {
                JsExpr::Member { obj, prop } => match prop {
                    JsMemberProp::Named(m) => if is_http_method_spec(m@) {
                        handle_call_spec(m@, args@, v)
                    } else {
                        Seq::empty()
                    },
                    _ => Seq::empty(),
                },
                JsExpr::Ident(name) => if is_http_client_name_spec(name@) {
                    handle_call_spec(name@, args@, v)
                } else {
                    Seq::empty()
                },
                _ => Seq::empty(),
            },
            _ => Seq::empty(),
        };
        match e {
            JsExpr::Call { callee: JsCallee::Expr(inner), args } => {
                match &**inner {
                    JsExpr::Member { obj, prop } => {
                        match prop {
                            JsMemberProp::Named(m) => {
                                if is_http_method(m.as_str()) {
                                    self.handle_http_call(m.as_str(), args);
                                }
                            },
                            _ => {},
                        }
                    },
                    JsExpr::Ident(name) => {
                        if is_http_client_name(name.as_str()) {
                            self.handle_http_call(name.as_str(), args);
                        }
                    },
                    _ => {},
                }
            },
            _ => {},
        }
        let ghost mid = self.result.calls.deep_view();
        proof {
            assert(mid =~= calls0 + head);
        }
        match e {
            JsExpr::Tpl { quasis, exprs } => {
                proof {
                    assert(decreases_to!(*e => e->Tpl_exprs));
                    assert(decreases_to!(e->Tpl_exprs => e->Tpl_exprs@));
                }
                self.visit_exprs(exprs);
                proof {
                    assert(self.result.calls.deep_view() =~= calls0 + (head + usage_exprs_calls(
                        e->Tpl_exprs@,
                        v,
                    )));
                }
            },
            JsExpr::Paren(inner) => {
                proof {
                    assert(decreases_to!(*e => e->Paren_0));
                }
                self.visit_expr(inner);
                proof {
                    assert(self.result.calls.deep_view() =~= calls0 + (head + usage_expr_calls(
                        *e->Paren_0,
                        v,
                    )));
                }
            },
            JsExpr::Object(props) => {
                proof {
                    assert(decreases_to!(*e => e->Object_0));
                    assert(decreases_to!(e->Object_0 => e->Object_0@));
                }
                self.visit_props(props);
                proof {
                    assert(self.result.calls.deep_view() =~= calls0 + (head + usage_props_calls(
                        e->Object_0@,
                        v,
                    )));
                }
            },
            JsExpr::Array(elems) => {
                proof {
                    assert(decreases_to!(*e => e->Array_0));
                    assert(decreases_to!(e->Array_0 => e->Array_0@));
                }
                self.visit_opt_exprs(elems);
                proof {
                    assert(self.result.calls.deep_view() =~= calls0 + (head
                        + usage_opt_exprs_calls(e->Array_0@, v)));
                }
            },
            JsExpr::Bin { op, left, right } => {
                proof {
                    assert(decreases_to!(*e => e->Bin_left));
                    assert(decreases_to!(*e => e->Bin_right));
                }
                self.visit_expr(left);
                self.visit_expr(right);
                proof {
                    assert(self.result.calls.deep_view() =~= calls0 + (head + (usage_expr_calls(
                        *e->Bin_left,
                        v,
                    ) + usage_expr_calls(*e->Bin_right, v))));
                }
            },
            JsExpr::Unary { op, arg } => {
                proof {
                    assert(decreases_to!(*e => e->Unary_arg));
                }
                self.visit_expr(arg);
                proof {
                    assert(self.result.calls.deep_view() =~= calls0 + (head + usage_expr_calls(
                        *e->Unary_arg,
                        v,
                    )));
                }
            },
            JsExpr::Call { callee, args } => {
                match callee {
                    JsCallee::Expr(inner) => {
                        proof {
                            assert(decreases_to!(*e => e->Call_callee));
                            assert(decreases_to!(e->Call_callee => e->Call_callee->Expr_0));
                        }
                        self.visit_expr(inner);
                    },
                    JsCallee::Opaque => {},
                }
                proof {
                    assert(decreases_to!(*e => e->Call_args));
                    assert(decreases_to!(e->Call_args => e->Call_args@));
                }
                self.visit_exprs(args);
                proof {
                    let cpart: Seq<HttpCallView> = match e->Call_callee {
                        JsCallee::Expr(inner) => usage_expr_calls(*inner, v),
                        JsCallee::Opaque => Seq::empty(),
                    };
                    assert(self.result.calls.deep_view() =~= calls0 + (head + (cpart
                        + usage_exprs_calls(e->Call_args@, v))));
                }
            },
            JsExpr::Member { obj, prop } => {
                proof {
                    assert(decreases_to!(*e => e->Member_obj));
                }
                self.visit_expr(obj);
                match prop {
                    JsMemberProp::Computed(p) => {
                        proof {
                            assert(decreases_to!(*e => e->Member_prop));
                            assert(decreases_to!(e->Member_prop => e->Member_prop->Computed_0));
                        }
                        self.visit_expr(p);
                    },
                    _ => {},
                }
                proof {
                    let ppart: Seq<HttpCallView> = match e->Member_prop {
                        JsMemberProp::Computed(p) => usage_expr_calls(*p, v),
                        _ => Seq::empty(),
                    };
                    assert(self.result.calls.deep_view() =~= calls0 + (head + (usage_expr_calls(
                        *e->Member_obj,
                        v,
                    ) + ppart)));
                }
            },
            JsExpr::Assign { target, value } => {
                match target {
                    JsAssignTarget::Member { obj, prop } => {
                        proof {
                            assert(decreases_to!(*e => e->Assign_target));
                            assert(decreases_to!(e->Assign_target
                                => e->Assign_target->Member_obj));
                        }
                        self.visit_expr(obj);
                        match prop {
                            JsMemberProp::Computed(p) => {
                                proof {
                                    assert(decreases_to!(*e => e->Assign_target));
                                    assert(decreases_to!(e->Assign_target
                                        => e->Assign_target->Member_prop));
                                    assert(decreases_to!(e->Assign_target->Member_prop
                                        => e->Assign_target->Member_prop->Computed_0));
                                }
                                self.visit_expr(p);
                            },
                            _ => {},
                        }
                    },
                    JsAssignTarget::Opaque => {},
                }
                proof {
                    assert(decreases_to!(*e => e->Assign_value));
                }
                self.visit_expr(value);
                proof {
                    let tpart: Seq<HttpCallView> = match e->Assign_target {
                        JsAssignTarget::Member { obj, prop } => usage_expr_calls(*obj, v) + (
                        match prop {
                            JsMemberProp::Computed(p) => usage_expr_calls(*p, v),
                            _ => Seq::empty(),
                        }),
                        JsAssignTarget::Opaque => Seq::empty(),
                    };
                    assert(self.result.calls.deep_view() =~= calls0 + (head + (tpart
                        + usage_expr_calls(*e->Assign_value, v))));
                }
            },
            JsExpr::FnBody(ss) => {
                proof {
                    assert(decreases_to!(*e => e->FnBody_0));
                    assert(decreases_to!(e->FnBody_0 => e->FnBody_0@));
                }
                self.visit_stmts(ss);
                proof {
                    assert(self.result.calls.deep_view() =~= calls0 + (head + usage_stmts_calls(
                        e->FnBody_0@,
                        v,
                    )));
                }
            },
            JsExpr::Opaque(children) => {
                proof {
                    assert(decreases_to!(*e => e->Opaque_0));
                    assert(decreases_to!(e->Opaque_0 => e->Opaque_0@));
                }
                self.visit_exprs(children);
                proof {
                    assert(self.result.calls.deep_view() =~= calls0 + (head + usage_exprs_calls(
                        e->Opaque_0@,
                        v,
                    )));
                }
            },
            _ => {
                proof {
                    assert(self.result.calls.deep_view() =~= calls0 + (head
                        + Seq::<HttpCallView>::empty()));
                }
            },
        }
    }
}

/// Runs both analysis passes over a parsed module: variable extraction,
/// then HTTP-call detection against the finished environment.
pub fn run_js_analysis(m: &JsModule) -> (r: JsResult)
    ensures
        r.vars.items_view() == crate::js_vars::apply_entries(
            Seq::<VarEntry>::empty(),
            crate::js_ast::walk_module_entries(*m),
        ),
        r.calls.deep_view() == usage_module_calls(*m, r.vars.items_view()),
{
    let mut extractor = crate::js_extract::VarExtractor::new();
    extractor.visit_module(m);
    let mut analyzer = JsUsageAnalyzer { result: JsResult::new(extractor.vars) };
    analyzer.visit_module(m);
    analyzer.result
}
} // verus!
