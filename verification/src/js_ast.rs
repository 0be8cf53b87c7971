use vstd::prelude::*;

use crate::text::{dec_str, join_seq};

verus! {

/// A JavaScript module, reduced to the shapes the analysis reads. The
/// parser in front of the library hands over this form; everything the
/// analysis cannot use arrives as `Opaque` nodes that still carry their
/// children for traversal.
pub struct JsModule {
    pub body: Vec<JsStmt>,
}

pub enum JsStmt {
    /// One `var`/`let`/`const` statement with its declarators.
    VarDecl(Vec<JsVarDeclarator>),
    /// A function declaration: its name scopes the variables inside.
    FnDecl { name: String, body: Vec<JsStmt> },
    /// An expression statement.
    Expr(JsExpr),
    /// Any other statement, reduced to the statements nested in it.
    Block(Vec<JsStmt>),
}

pub struct JsVarDeclarator {
    /// The bound name, for a plain identifier pattern.
    pub name: Option<String>,
    pub init: Option<JsExpr>,
}

pub enum JsPropKey {
    /// An identifier key.
    Named(String),
    /// A string-literal key.
    Quoted(String),
    /// A numeric or computed key.
    Opaque,
}

pub enum JsProp {
    Pair { key: JsPropKey, value: JsExpr },
    Method { key: JsPropKey, body: Vec<JsStmt> },
    Opaque,
}

pub enum JsMemberProp {
    Named(String),
    Computed(Box<JsExpr>),
    Opaque,
}

pub enum JsCallee {
    Expr(Box<JsExpr>),
    /// `super` or `import` callees.
    Opaque,
}

pub enum JsUnaryOp {
    Minus,
    Plus,
    Bang,
    Other,
}

pub enum JsAssignTarget {
    Member { obj: Box<JsExpr>, prop: JsMemberProp },
    Opaque,
}

pub enum JsExpr {
    StrLit(String),
    /// A numeric literal, carrying the decimal rendering of its value.
    NumLit(String),
    BoolLit(bool),
    NullLit,
    /// A template literal: the raw quasis and the interpolated expressions.
    Tpl { quasis: Vec<String>, exprs: Vec<JsExpr> },
    Ident(String),
    This,
    Paren(Box<JsExpr>),
    Object(Vec<JsProp>),
    Array(Vec<Option<JsExpr>>),
    /// A binary expression, with the operator's source spelling.
    Bin { op: String, left: Box<JsExpr>, right: Box<JsExpr> },
    Unary { op: JsUnaryOp, arg: Box<JsExpr> },
    Call { callee: JsCallee, args: Vec<JsExpr> },
    Member { obj: Box<JsExpr>, prop: JsMemberProp },
    Assign { target: JsAssignTarget, value: Box<JsExpr> },
    /// A function or arrow expression, reduced to its body.
    FnBody(Vec<JsStmt>),
    /// Any other expression, reduced to its child expressions.
    Opaque(Vec<JsExpr>),
}

/// One variable-map entry: a fully-qualified key and its rendered value.
pub type VarEntry = (Seq<char>, Seq<char>);

/// The raw quasis of a template literal, concatenated.
pub open spec fn concat_quasis(qs: Seq<Seq<char>>) -> Seq<char>
    decreases qs.len(),
{
    if qs.len() == 0 {
        Seq::empty()
    } else {
        concat_quasis(qs.drop_last()) + qs.last()
    }
}

/// The rendering a binary operand gets when its shape is recognized:
/// string, number and empty-template literals, identifiers, and
/// `ident.prop` members.
pub open spec fn get_expr_string_spec(e: JsExpr) -> Option<Seq<char>> {
    match e {
        JsExpr::StrLit(s) => Some(s@),
        JsExpr::NumLit(n) => Some(n@),
        JsExpr::Ident(id) => Some(id@),
        JsExpr::Tpl { quasis, exprs } => if exprs@.len() == 0 {
            Some(concat_quasis(quasis.deep_view()))
        } else {
            None
        },
        JsExpr::Member { obj, prop } => match (*obj, prop) {
            (JsExpr::Ident(id), JsMemberProp::Named(p)) => Some(id@ + "."@ + p@),
            _ => None,
        },
        _ => None,
    }
}

/// What stands between two rendered binary operands: nothing for `+`,
/// whose operands are concatenated outright, the operator's source
/// spelling otherwise.
pub open spec fn bin_op_sep(op: Seq<char>) -> Seq<char> {
    if op == "+"@ {
        Seq::empty()
    } else {
        op
    }
}

/// The value recorded for a boolean.
pub open spec fn bool_str(b: bool) -> Seq<char> {
    if b {
        "true"@
    } else {
        "false"@
    }
}

/// The variable-map entries that extracting an initializer under `prefix`
/// records, in insertion order.
pub open spec fn extract_entries(e: JsExpr, prefix: Seq<char>) -> Seq<VarEntry>
    decreases e, 1int,
{
    match e {
        JsExpr::StrLit(s) => seq![(prefix, s@)],
        JsExpr::NumLit(n) => seq![(prefix, n@)],
        JsExpr::BoolLit(b) => seq![(prefix, bool_str(b))],
        JsExpr::Tpl { quasis, exprs } => if exprs@.len() == 0 {
            seq![(prefix, concat_quasis(quasis.deep_view()))]
        } else {
            seq![(prefix, "<interpolated>"@)]
        },
        JsExpr::Ident(id) => seq![(prefix, id@)],
        JsExpr::Paren(inner) => extract_entries(*inner, prefix),
        JsExpr::Object(props) => extract_obj_entries(props@, prefix),
        JsExpr::Array(elems) => extract_arr_entries(elems@, prefix),
        JsExpr::Bin { op, left, right } => if op@ == "||"@ || op@ == "??"@ {
            extract_entries(*left, prefix + " (left)"@) + extract_entries(
                *right,
                prefix + " (right)"@,
            )
        } else {
            match (get_expr_string_spec(*left), get_expr_string_spec(*right)) {
                (Some(a), Some(b)) => seq![(prefix, a + bin_op_sep(op@) + b)],
                (Some(a), None) => seq![(prefix, a)],
                (None, Some(b)) => seq![(prefix, b)],
                (None, None) => Seq::empty(),
            }
        },
        JsExpr::Unary { op, arg } => match *arg {
            JsExpr::NumLit(n) => match op {
                JsUnaryOp::Minus => seq![(prefix, "-"@ + n@)],
                _ => seq![(prefix, n@)],
            },
            JsExpr::BoolLit(b) => match op {
                JsUnaryOp::Bang => seq![(prefix, bool_str(!b))],
                _ => seq![(prefix, bool_str(b))],
            },
            _ => Seq::empty(),
        },
        JsExpr::Call { callee, args } => if args@.len() > 0 {
            extract_entries(args@[0], prefix + "()"@)
        } else {
            Seq::empty()
        },
        JsExpr::Member { obj, prop } => {
            let base = match *obj {
                JsExpr::Ident(o) => o@,
                _ => Seq::empty(),
            };
            let full = match prop {
                JsMemberProp::Named(p) => base + "."@ + p@,
                _ => base,
            };
            seq![(prefix, full)]
        },
        _ => Seq::empty(),
    }
}

/// Entries from an object literal: each identifier- or string-keyed
/// property's value, under `prefix.key`.
pub open spec fn extract_obj_entries(props: Seq<JsProp>, prefix: Seq<char>) -> Seq<VarEntry>
    decreases props, 2int,
{
    if props.len() == 0 {
        Seq::empty()
    } else {
        extract_obj_entries(props.drop_last(), prefix) + (match props.last() {
            JsProp::Pair { key, value } => match key {
                JsPropKey::Named(k) => extract_entries(value, prefix + "."@ + k@),
                JsPropKey::Quoted(k) => extract_entries(value, prefix + "."@ + k@),
                JsPropKey::Opaque => Seq::empty(),
            },
            _ => Seq::empty(),
        })
    }
}

/// Entries from an array literal: each present element under `prefix[i]`.
pub open spec fn extract_arr_entries(elems: Seq<Option<JsExpr>>, prefix: Seq<char>) -> Seq<
    VarEntry,
>
    decreases elems, 2int,
{
    if elems.len() == 0 {
        Seq::empty()
    } else {
        extract_arr_entries(elems.drop_last(), prefix) + (match elems.last() {
            Some(e) => extract_entries(
                e,
                prefix + "["@ + dec_str(elems.len() - 1) + "]"@,
            ),
            None => Seq::empty(),
        })
    }
}

/// The scope key of a variable: the stack joined by `::`, then `::name`.
pub open spec fn scoped_key(stack: Seq<Seq<char>>, name: Seq<char>) -> Seq<char> {
    join_seq(stack, "::"@) + "::"@ + name
}

/// The key an assignment to `obj.prop` records: the recognized parts of
/// the member target joined by `.`.
pub open spec fn assign_key(obj: JsExpr, prop: JsMemberProp) -> Seq<char> {
    let parts_obj: Seq<Seq<char>> = match obj {
        JsExpr::Ident(o) => seq![o@],
        JsExpr::This => seq!["this"@],
        _ => Seq::empty(),
    };
    let parts: Seq<Seq<char>> = match prop {
        JsMemberProp::Named(p) => parts_obj.push(p@),
        _ => parts_obj,
    };
    join_seq(parts, "."@)
}

/// The entries the whole first pass records for a module, in order.
pub open spec fn walk_module_entries(m: JsModule) -> Seq<VarEntry> {
    walk_stmts_entries(m.body@, Seq::empty())
}

pub open spec fn walk_stmts_entries(ss: Seq<JsStmt>, stack: Seq<Seq<char>>) -> Seq<VarEntry>
    decreases ss, 3int,
{
    if ss.len() == 0 {
        Seq::empty()
    } else {
        walk_stmts_entries(ss.drop_last(), stack) + walk_stmt_entries(ss.last(), stack)
    }
}

pub open spec fn walk_stmt_entries(s: JsStmt, stack: Seq<Seq<char>>) -> Seq<VarEntry>
    decreases s, 4int,
{
    match s {
        JsStmt::VarDecl(ds) => walk_decls_entries(ds@, stack),
        JsStmt::FnDecl { name, body } => walk_stmts_entries(body@, stack.push(name@)),
        JsStmt::Expr(e) => walk_expr_entries(e, stack),
        JsStmt::Block(ss) => walk_stmts_entries(ss@, stack),
    }
}

pub open spec fn walk_decls_entries(ds: Seq<JsVarDeclarator>, stack: Seq<Seq<char>>) -> Seq<
    VarEntry,
>
    decreases ds, 3int,
{
    if ds.len() == 0 {
        Seq::empty()
    } else {
        walk_decls_entries(ds.drop_last(), stack) + walk_decl_entries(ds.last(), stack)
    }
}

/// One declarator: its extraction first, then the traversal of its
/// initializer, which may record further declarations nested inside.
pub open spec fn walk_decl_entries(d: JsVarDeclarator, stack: Seq<Seq<char>>) -> Seq<VarEntry>
    decreases d, 4int,
{
    (match (d.name, d.init) {
        (Some(n), Some(e)) => extract_entries(e, scoped_key(stack, n@)),
        _ => Seq::empty(),
    }) + (match d.init {
        Some(e) => walk_expr_entries(e, stack),
        None => Seq::empty(),
    })
}

/// One expression node of the first pass: the assignment handling, then
/// the node's children, with object literals and calls getting their
/// special treatment.
pub open spec fn walk_expr_entries(e: JsExpr, stack: Seq<Seq<char>>) -> Seq<VarEntry>
    decreases e, 3int,
{
    (match e {
        JsExpr::Assign { target: JsAssignTarget::Member { obj, prop }, value } => extract_entries(
            *value,
            assign_key(*obj, prop),
        ),
        _ => Seq::empty(),
    }) + (match e {
        JsExpr::Tpl { quasis, exprs } => walk_exprs_entries(exprs@, stack),
        JsExpr::Paren(inner) => walk_expr_entries(*inner, stack),
        JsExpr::Object(props) => walk_object_entries(props@, stack),
        JsExpr::Array(elems) => walk_opt_exprs_entries(elems@, stack),
        JsExpr::Bin { op, left, right } => walk_expr_entries(*left, stack) + walk_expr_entries(
            *right,
            stack,
        ),
        JsExpr::Unary { op, arg } => walk_expr_entries(*arg, stack),
        JsExpr::Call { callee, args } => walk_call_entries(e, stack),
        JsExpr::Member { obj, prop } => walk_expr_entries(*obj, stack) + (match prop {
            JsMemberProp::Computed(p) => walk_expr_entries(*p, stack),
            _ => Seq::empty(),
        }),
        JsExpr::Assign { target, value } => (match target {
            JsAssignTarget::Member { obj, prop } => walk_expr_entries(*obj, stack) + (match prop {
                JsMemberProp::Computed(p) => walk_expr_entries(*p, stack),
                _ => Seq::empty(),
            }),
            JsAssignTarget::Opaque => Seq::empty(),
        }) + walk_expr_entries(*value, stack),
        JsExpr::FnBody(ss) => walk_stmts_entries(ss@, stack),
        JsExpr::Opaque(children) => walk_exprs_entries(children@, stack),
        _ => Seq::empty(),
    })
}

pub open spec fn walk_exprs_entries(es: Seq<JsExpr>, stack: Seq<Seq<char>>) -> Seq<VarEntry>
    decreases es, 3int,
{
    if es.len() == 0 {
        Seq::empty()
    } else {
        walk_exprs_entries(es.drop_last(), stack) + walk_expr_entries(es.last(), stack)
    }
}

pub open spec fn walk_opt_exprs_entries(es: Seq<Option<JsExpr>>, stack: Seq<Seq<char>>) -> Seq<
    VarEntry,
>
    decreases es, 3int,
{
    if es.len() == 0 {
        Seq::empty()
    } else {
        walk_opt_exprs_entries(es.drop_last(), stack) + (match es.last() {
            Some(e) => walk_expr_entries(e, stack),
            None => Seq::empty(),
        })
    }
}

/// A call node of the first pass: the `X.Y("name", { … })` configuration
/// idiom is extracted with the string as prefix, then the callee and the
/// arguments are traversed.
pub open spec fn walk_call_entries(e: JsExpr, stack: Seq<Seq<char>>) -> Seq<VarEntry>
    decreases e, 2int,
{
    match e {
        JsExpr::Call { callee, args } => (match callee {
            JsCallee::Expr(inner) => (match *inner {
                JsExpr::Member { .. } => if args@.len() == 2 {
                    match (args@[0], args@[1]) {
                        (JsExpr::StrLit(name), JsExpr::Object(props)) => extract_entries(
                            args@[1],
                            name@,
                        ),
                        _ => Seq::empty(),
                    }
                } else {
                    Seq::empty()
                },
                _ => Seq::empty(),
            }) + walk_expr_entries(*inner, stack),
            JsCallee::Opaque => Seq::empty(),
        }) + walk_exprs_entries(args@, stack),
        _ => Seq::empty(),
    }
}

/// The scope keys the object-literal pass pushes: each identifier-keyed
/// pair's value and each identifier-keyed method's body is visited under
/// the key's name, and afterwards all children are visited once more
/// without it.
pub open spec fn walk_object_entries(props: Seq<JsProp>, stack: Seq<Seq<char>>) -> Seq<VarEntry>
    decreases props, 3int,
{
    walk_object_scoped(props, stack) + walk_object_children(props, stack)
}

pub open spec fn walk_object_scoped(props: Seq<JsProp>, stack: Seq<Seq<char>>) -> Seq<VarEntry>
    decreases props, 2int,
{
    if props.len() == 0 {
        Seq::empty()
    } else {
        walk_object_scoped(props.drop_last(), stack) + (match props.last() {
            JsProp::Pair { key: JsPropKey::Named(k), value } => walk_expr_entries(
                value,
                stack.push(k@),
            ),
            JsProp::Method { key: JsPropKey::Named(k), body } => walk_stmts_entries(
                body@,
                stack.push(k@),
            ),
            _ => Seq::empty(),
        })
    }
}

pub open spec fn walk_object_children(props: Seq<JsProp>, stack: Seq<Seq<char>>) -> Seq<VarEntry>
    decreases props, 2int,
{
    if props.len() == 0 {
        Seq::empty()
    } else {
        walk_object_children(props.drop_last(), stack) + (match props.last() {
            JsProp::Pair { key, value } => walk_expr_entries(value, stack),
            JsProp::Method { key, body } => walk_stmts_entries(body@, stack),
            JsProp::Opaque => Seq::empty(),
        })
    }
}

} // verus!
