use vstd::prelude::*;

use crate::js_ast::{
    assign_key, bin_op_sep, bool_str, concat_quasis, extract_arr_entries, extract_entries,
    extract_obj_entries, get_expr_string_spec, scoped_key, walk_call_entries, walk_decl_entries,
    walk_decls_entries, walk_expr_entries, walk_exprs_entries, walk_module_entries,
    walk_object_children, walk_object_entries, walk_object_scoped, walk_opt_exprs_entries,
    walk_stmt_entries, walk_stmts_entries, JsAssignTarget, JsCallee, JsExpr, JsMemberProp,
    JsModule, JsProp, JsPropKey, JsStmt, JsUnaryOp, JsVarDeclarator, VarEntry,
};
use crate::js_vars::{apply_entries, insert_assoc, lemma_apply_append, VarMap};
use crate::text::{clone_string, eq_str, join_strings, usize_to_string};

verus! {

/// The first analysis pass: walks a module and fills the variable
/// environment, scoping keys by the stack of enclosing function names and
/// object-literal keys.
pub struct VarExtractor {
    pub vars: VarMap,
    pub stack: Vec<String>,
}

/// Renders the operand of a recognized binary shape, realizing
/// `get_expr_string_spec`.
pub fn get_expr_string(e: &JsExpr) -> (r: Option<String>)
    ensures
        match r {
            Some(s) => get_expr_string_spec(*e) == Some(s@),
            None => get_expr_string_spec(*e) is None,
        },
{
    match e {
        JsExpr::StrLit(s) => Some(clone_string(s)),
        JsExpr::NumLit(n) => Some(clone_string(n)),
        JsExpr::Ident(id) => Some(clone_string(id)),
        JsExpr::Tpl { quasis, exprs } => {
            if exprs.len() == 0 {
                Some(concat_quasis_exec(quasis))
            } else {
                None
            }
        },
        JsExpr::Member { obj, prop } => {
            match (&**obj, prop) {
                (JsExpr::Ident(id), JsMemberProp::Named(p)) => {
                    let mut s = clone_string(id);
                    s.append(".");
                    s.append(p.as_str());
                    proof {
                        assert(s@ =~= id@ + "."@ + p@);
                    }
                    Some(s)
                },
                _ => None,
            }
        },
        _ => None,
    }
}

/// Concatenates a template literal's raw quasis.
fn concat_quasis_exec(quasis: &Vec<String>) -> (r: String)
    ensures
        r@ == concat_quasis(quasis.deep_view()),
{
    let mut out = String::new();
    let mut i: usize = 0;
    proof {
        assert(quasis.deep_view().take(0) =~= Seq::<Seq<char>>::empty());
    }
    while i < quasis.len()
        invariant
            0 <= i <= quasis.len(),
            quasis.deep_view().len() == quasis.len(),
            out@ == concat_quasis(quasis.deep_view().take(i as int)),
        decreases quasis.len() - i,
    {
        out.append(quasis[i].as_str());
        proof {
            let dv = quasis.deep_view();
            assert(dv.take(i + 1).drop_last() =~= dv.take(i as int));
            assert(dv.take(i + 1).last() == dv[i as int]);
            assert(dv[i as int] == quasis@[i as int]@);
        }
        i = i + 1;
    }
    proof {
        assert(quasis.deep_view().take(quasis.len() as int) =~= quasis.deep_view());
    }
    out
}

impl VarExtractor {
    pub fn new() -> (r: Self)
        ensures
            r.vars.items_view() == Seq::<VarEntry>::empty(),
            r.stack.deep_view() == Seq::<Seq<char>>::empty(),
    {
        let r = VarExtractor { vars: VarMap::new(), stack: Vec::new() };
        proof {
            assert(r.stack.deep_view() =~= Seq::<Seq<char>>::empty());
        }
        r
    }

    /// Records one variable.
    pub fn insert_var(&mut self, key: String, value: String)
        ensures
            final(self).vars.items_view() == insert_assoc(
                old(self).vars.items_view(),
                key@,
                value@,
            ),
            final(self).stack == old(self).stack,
    {
        self.vars.insert(key, value);
    }

    /// Walks a whole module, realizing `walk_module_entries`.
    pub fn visit_module(&mut self, m: &JsModule)
        requires
            old(self).stack.deep_view() == Seq::<Seq<char>>::empty(),
        ensures
            final(self).vars.items_view() == apply_entries(
                old(self).vars.items_view(),
                walk_module_entries(*m),
            ),
            final(self).stack.deep_view() == old(self).stack.deep_view(),
    {
        self.visit_stmts(&m.body);
    }

    /// Walks a statement list in order.
    pub fn visit_stmts(&mut self, ss: &Vec<JsStmt>)
        ensures
            final(self).vars.items_view() == apply_entries(
                old(self).vars.items_view(),
                walk_stmts_entries(ss@, old(self).stack.deep_view()),
            ),
            final(self).stack.deep_view() == old(self).stack.deep_view(),
        decreases ss@, 5int,
    {
        let ghost vars0 = self.vars.items_view();
        let ghost sdv = self.stack.deep_view();
        let mut i: usize = 0;
        proof {
            assert(ss@.take(0) =~= Seq::<JsStmt>::empty());
        }
        while i < ss.len()
            invariant
                0 <= i <= ss@.len(),
                self.stack.deep_view() == sdv,
                self.vars.items_view() == apply_entries(
                    vars0,
                    walk_stmts_entries(ss@.take(i as int), sdv),
                ),
            decreases ss@.len() - i,
        {
            proof {
                assert(ss@.take(i + 1).drop_last() =~= ss@.take(i as int));
                assert(ss@.take(i + 1).last() == ss@[i as int]);
                assert(decreases_to!(ss@ => ss@[i as int]));
            }
            self.visit_stmt(&ss[i]);
            proof {
                lemma_apply_append(
                    vars0,
                    walk_stmts_entries(ss@.take(i as int), sdv),
                    walk_stmt_entries(ss@[i as int], sdv),
                );
            }
            i = i + 1;
        }
        proof {
            assert(ss@.take(ss@.len() as int) =~= ss@);
        }
    }

    /// Walks one statement: declarations record entries, a function
    /// declaration scopes its body under its name.
    pub fn visit_stmt(&mut self, s: &JsStmt)
        ensures
            final(self).vars.items_view() == apply_entries(
                old(self).vars.items_view(),
                walk_stmt_entries(*s, old(self).stack.deep_view()),
            ),
            final(self).stack.deep_view() == old(self).stack.deep_view(),
        decreases *s, 6int,
    {
        let ghost vars0 = self.vars.items_view();
        let ghost sdv = self.stack.deep_view();
        match s {
            JsStmt::VarDecl(ds) => {
                let mut i: usize = 0;
                proof {
                    assert(ds@.take(0) =~= Seq::<JsVarDeclarator>::empty());
                }
                while i < ds.len()
                    invariant
                        0 <= i <= ds@.len(),
                        *s == JsStmt::VarDecl(*ds),
                        self.stack.deep_view() == sdv,
                        self.vars.items_view() == apply_entries(
                            vars0,
                            walk_decls_entries(ds@.take(i as int), sdv),
                        ),
                    decreases ds@.len() - i,
                {
                    proof {
                        assert(ds@.take(i + 1).drop_last() =~= ds@.take(i as int));
                        assert(ds@.take(i + 1).last() == ds@[i as int]);
                        assert(decreases_to!(*s => s->VarDecl_0));
                        assert(decreases_to!(s->VarDecl_0 => ds@[i as int]));
                    }
                    self.visit_var_declarator(&ds[i]);
                    proof {
                        lemma_apply_append(
                            vars0,
                            walk_decls_entries(ds@.take(i as int), sdv),
                            walk_decl_entries(ds@[i as int], sdv),
                        );
                    }
                    i = i + 1;
                }
                proof {
                    assert(ds@.take(ds@.len() as int) =~= ds@);
                }
            },
            JsStmt::FnDecl { name, body } => {
                self.stack.push(clone_string(name));
                proof {
                    assert(self.stack.deep_view() =~= sdv.push(name@));
                    assert(decreases_to!(*s => s->FnDecl_body));
                    assert(decreases_to!(s->FnDecl_body => s->FnDecl_body@));
                }
                self.visit_stmts(body);
                let ghost dv_in = self.stack.deep_view();
                let _ = self.stack.pop();
                proof {
                    assert(self.stack.deep_view() =~= dv_in.drop_last());
                    assert(dv_in.drop_last() =~= sdv);
                }
            },
            JsStmt::Expr(e) => {
                proof {
                    assert(decreases_to!(*s => s->Expr_0));
                }
                self.visit_expr(e);
            },
            JsStmt::Block(ss) => {
                proof {
                    assert(decreases_to!(*s => s->Block_0));
                    assert(decreases_to!(s->Block_0 => s->Block_0@));
                }
                self.visit_stmts(ss);
            },
        }
    }

    /// Walks one declarator: a named declarator with an initializer is
    /// extracted under its scope key, then the initializer is traversed.
    pub fn visit_var_declarator(&mut self, d: &JsVarDeclarator)
        ensures
            final(self).vars.items_view() == apply_entries(
                old(self).vars.items_view(),
                walk_decl_entries(*d, old(self).stack.deep_view()),
            ),
            final(self).stack.deep_view() == old(self).stack.deep_view(),
        decreases *d, 6int,
    {
        let ghost vars0 = self.vars.items_view();
        let ghost sdv = self.stack.deep_view();
        let ghost dd = *d;
        let ghost part1: Seq<VarEntry> = match (dd.name, dd.init) {
            (Some(n), Some(e)) => extract_entries(e, scoped_key(sdv, n@)),
            _ => Seq::empty(),
        };
        match (&d.name, &d.init) {
            (Some(n), Some(e)) => {
                let mut key = join_strings(&self.stack, "::");
                key.append("::");
                key.append(n.as_str());
                proof {
                    assert(key@ =~= scoped_key(sdv, n@));
                    assert(decreases_to!(*d => d.init));
                    assert(decreases_to!(d.init => d.init->Some_0));
                }
                self.extract_props(e, key);
            },
            _ => {},
        }
        match &d.init {
            Some(e) => {
                proof {
                    assert(decreases_to!(*d => d.init));
                    assert(decreases_to!(d.init => d.init->Some_0));
                }
                self.visit_expr(e);
                proof {
                    lemma_apply_append(vars0, part1, walk_expr_entries(d.init->Some_0, sdv));
                }
            },
            None => {
                proof {
                    assert(part1 + Seq::<VarEntry>::empty() =~= part1);
                    lemma_apply_append(vars0, part1, Seq::<VarEntry>::empty());
                }
            },
        }
    }

    /// Walks one expression: assignments to member targets are recorded,
    /// then the children are traversed, with object literals and calls
    /// getting their special handling.
    pub fn visit_expr(&mut self, e: &JsExpr)
        ensures
            final(self).vars.items_view() == apply_entries(
                old(self).vars.items_view(),
                walk_expr_entries(*e, old(self).stack.deep_view()),
            ),
            final(self).stack.deep_view() == old(self).stack.deep_view(),
        decreases *e, 5int,
    {
        let ghost vars0 = self.vars.items_view();
        let ghost sdv = self.stack.deep_view();
        let ghost ee = *e;
        let ghost part1: Seq<VarEntry> = match ee {
            JsExpr::Assign { target: JsAssignTarget::Member { obj, prop }, value } =>
                extract_entries(*value, assign_key(*obj, prop)),
            _ => Seq::empty(),
        };
        match e {
            JsExpr::Assign { target: JsAssignTarget::Member { obj, prop }, value } => {
                let mut parts: Vec<String> = Vec::new();
                match &**obj {
                    JsExpr::Ident(o) => {
                        parts.push(clone_string(o));
                    },
                    JsExpr::This => {
                        parts.push("this".to_owned());
                    },
                    _ => {},
                }
                match prop {
                    JsMemberProp::Named(p) => {
                        parts.push(clone_string(p));
                    },
                    _ => {},
                }
                let key = join_strings(&parts, ".");
                proof {
                    let objv = **obj;
                    let propv = *prop;
                    let parts_obj: Seq<Seq<char>> = match objv {
                        JsExpr::Ident(o) => seq![o@],
                        JsExpr::This => seq!["this"@],
                        _ => Seq::empty(),
                    };
                    let parts_spec: Seq<Seq<char>> = match propv {
                        JsMemberProp::Named(p) => parts_obj.push(p@),
                        _ => parts_obj,
                    };
                    assert(parts.deep_view() =~= parts_spec);
                    assert(key@ == assign_key(objv, propv));
                    assert(decreases_to!(*e => e->Assign_value));
                }
                self.extract_props(value, key);
            },
            _ => {
                proof {
                    assert(part1 =~= Seq::<VarEntry>::empty());
                }
            },
        }
        let ghost mid = self.vars.items_view();
        proof {
            assert(mid == apply_entries(vars0, part1));
        }
        match e {
            JsExpr::Tpl { quasis, exprs } => {
                proof {
                    assert(decreases_to!(*e => e->Tpl_exprs));
                    assert(decreases_to!(e->Tpl_exprs => e->Tpl_exprs@));
                }
                self.visit_exprs(exprs);
                proof {
                    lemma_apply_append(vars0, part1, walk_exprs_entries(e->Tpl_exprs@, sdv));
                }
            },
            JsExpr::Paren(inner) => {
                proof {
                    assert(decreases_to!(*e => e->Paren_0));
                }
                self.visit_expr(inner);
                proof {
                    lemma_apply_append(vars0, part1, walk_expr_entries(*e->Paren_0, sdv));
                }
            },
            JsExpr::Object(props) => {
                proof {
                    assert(decreases_to!(*e => e->Object_0));
                    assert(decreases_to!(e->Object_0 => e->Object_0@));
                }
                self.visit_object_lit(props);
                proof {
                    lemma_apply_append(vars0, part1, walk_object_entries(e->Object_0@, sdv));
                }
            },
            JsExpr::Array(elems) => {
                proof {
                    assert(decreases_to!(*e => e->Array_0));
                    assert(decreases_to!(e->Array_0 => e->Array_0@));
                }
                self.visit_opt_exprs(elems);
                proof {
                    lemma_apply_append(vars0, part1, walk_opt_exprs_entries(e->Array_0@, sdv));
                }
            },
            JsExpr::Bin { op, left, right } => {
                proof {
                    assert(decreases_to!(*e => e->Bin_left));
                    assert(decreases_to!(*e => e->Bin_right));
                }
                let ghost mid2 = apply_entries(mid, walk_expr_entries(*e->Bin_left, sdv));
                self.visit_expr(left);
                self.visit_expr(right);
                proof {
                    lemma_apply_append(
                        mid,
                        walk_expr_entries(*e->Bin_left, sdv),
                        walk_expr_entries(*e->Bin_right, sdv),
                    );
                    lemma_apply_append(
                        vars0,
                        part1,
                        walk_expr_entries(*e->Bin_left, sdv) + walk_expr_entries(
                            *e->Bin_right,
                            sdv,
                        ),
                    );
                }
            },
            JsExpr::Unary { op, arg } => {
                proof {
                    assert(decreases_to!(*e => e->Unary_arg));
                }
                self.visit_expr(arg);
                proof {
                    lemma_apply_append(vars0, part1, walk_expr_entries(*e->Unary_arg, sdv));
                }
            },
            JsExpr::Call { callee, args } => {
                self.visit_call_expr(e);
                proof {
                    lemma_apply_append(vars0, part1, walk_call_entries(*e, sdv));
                }
            },
            JsExpr::Member { obj, prop } => {
                proof {
                    assert(decreases_to!(*e => e->Member_obj));
                }
                self.visit_expr(obj);
                let ghost mid2 = self.vars.items_view();
                match prop {
                    JsMemberProp::Computed(p) => {
                        proof {
                            assert(decreases_to!(*e => e->Member_prop));
                            assert(decreases_to!(e->Member_prop => e->Member_prop->Computed_0));
                        }
                        self.visit_expr(p);
                        proof {
                            lemma_apply_append(
                                mid,
                                walk_expr_entries(*e->Member_obj, sdv),
                                walk_expr_entries(*e->Member_prop->Computed_0, sdv),
                            );
                        }
                    },
                    _ => {
                        proof {
                            assert(walk_expr_entries(*e->Member_obj, sdv)
                                + Seq::<VarEntry>::empty() =~= walk_expr_entries(
                                *e->Member_obj,
                                sdv,
                            ));
                        }
                    },
                }
                proof {
                    let children: Seq<VarEntry> = walk_expr_entries(*e->Member_obj, sdv) + (
                    match e->Member_prop {
                        JsMemberProp::Computed(p) => walk_expr_entries(*p, sdv),
                        _ => Seq::<VarEntry>::empty(),
                    });
                    lemma_apply_append(vars0, part1, children);
                }
            },
            JsExpr::Assign { target, value } => {
                let ghost tpart: Seq<VarEntry> = match e->Assign_target {
                    JsAssignTarget::Member { obj, prop } => walk_expr_entries(*obj, sdv) + (
                    match prop {
                        JsMemberProp::Computed(p) => walk_expr_entries(*p, sdv),
                        _ => Seq::<VarEntry>::empty(),
                    }),
                    JsAssignTarget::Opaque => Seq::<VarEntry>::empty(),
                };
                match target {
                    JsAssignTarget::Member { obj, prop } => {
                        proof {
                            assert(decreases_to!(*e => e->Assign_target));
                            assert(decreases_to!(e->Assign_target
                                => e->Assign_target->Member_obj));
                        }
                        self.visit_expr(obj);
                        match prop {
                            JsMemberProp::Computed(p) => {
                                proof {
                                    assert(decreases_to!(*e => e->Assign_target));
                                    assert(decreases_to!(e->Assign_target
                                        => e->Assign_target->Member_prop));
                                    assert(decreases_to!(e->Assign_target->Member_prop
                                        => e->Assign_target->Member_prop->Computed_0));
                                }
                                self.visit_expr(p);
                                proof {
                                    lemma_apply_append(
                                        mid,
                                        walk_expr_entries(*e->Assign_target->Member_obj, sdv),
                                        walk_expr_entries(
                                            *e->Assign_target->Member_prop->Computed_0,
                                            sdv,
                                        ),
                                    );
                                }
                            },
                            _ => {
                                proof {
                                    assert(walk_expr_entries(
                                        *e->Assign_target->Member_obj,
                                        sdv,
                                    ) + Seq::<VarEntry>::empty() =~= walk_expr_entries(
                                        *e->Assign_target->Member_obj,
                                        sdv,
                                    ));
                                }
                            },
                        }
                    },
                    JsAssignTarget::Opaque => {},
                }
                proof {
                    assert(self.vars.items_view() == apply_entries(mid, tpart));
                    assert(decreases_to!(*e => e->Assign_value));
                }
                self.visit_expr(value);
                proof {
                    lemma_apply_append(mid, tpart, walk_expr_entries(*e->Assign_value, sdv));
                    lemma_apply_append(
                        vars0,
                        part1,
                        tpart + walk_expr_entries(*e->Assign_value, sdv),
                    );
                }
            },
            JsExpr::FnBody(ss) => {
                proof {
                    assert(decreases_to!(*e => e->FnBody_0));
                    assert(decreases_to!(e->FnBody_0 => e->FnBody_0@));
                }
                self.visit_stmts(ss);
                proof {
                    lemma_apply_append(vars0, part1, walk_stmts_entries(e->FnBody_0@, sdv));
                }
            },
            JsExpr::Opaque(children) => {
                proof {
                    assert(decreases_to!(*e => e->Opaque_0));
                    assert(decreases_to!(e->Opaque_0 => e->Opaque_0@));
                }
                self.visit_exprs(children);
                proof {
                    lemma_apply_append(vars0, part1, walk_exprs_entries(e->Opaque_0@, sdv));
                }
            },
            _ => {
                proof {
                    assert(part1 + Seq::<VarEntry>::empty() =~= part1);
                    lemma_apply_append(vars0, part1, Seq::<VarEntry>::empty());
                }
            },
        }
    }

    /// Walks an expression list in order.
    pub fn visit_exprs(&mut self, es: &Vec<JsExpr>)
        ensures
            final(self).vars.items_view() == apply_entries(
                old(self).vars.items_view(),
                walk_exprs_entries(es@, old(self).stack.deep_view()),
            ),
            final(self).stack.deep_view() == old(self).stack.deep_view(),
        decreases es@, 5int,
    {
        let ghost vars0 = self.vars.items_view();
        let ghost sdv = self.stack.deep_view();
        let mut i: usize = 0;
        proof {
            assert(es@.take(0) =~= Seq::<JsExpr>::empty());
        }
        while i < es.len()
            invariant
                0 <= i <= es@.len(),
                self.stack.deep_view() == sdv,
                self.vars.items_view() == apply_entries(
                    vars0,
                    walk_exprs_entries(es@.take(i as int), sdv),
                ),
            decreases es@.len() - i,
        {
            proof {
                assert(es@.take(i + 1).drop_last() =~= es@.take(i as int));
                assert(es@.take(i + 1).last() == es@[i as int]);
                assert(decreases_to!(es@ => es@[i as int]));
            }
            self.visit_expr(&es[i]);
            proof {
                lemma_apply_append(
                    vars0,
                    walk_exprs_entries(es@.take(i as int), sdv),
                    walk_expr_entries(es@[i as int], sdv),
                );
            }
            i = i + 1;
        }
        proof {
            assert(es@.take(es@.len() as int) =~= es@);
        }
    }

    /// Walks an array literal's elements in order.
    pub fn visit_opt_exprs(&mut self, es: &Vec<Option<JsExpr>>)
        ensures
            final(self).vars.items_view() == apply_entries(
                old(self).vars.items_view(),
                walk_opt_exprs_entries(es@, old(self).stack.deep_view()),
            ),
            final(self).stack.deep_view() == old(self).stack.deep_view(),
        decreases es@, 5int,
    {
        let ghost vars0 = self.vars.items_view();
        let ghost sdv = self.stack.deep_view();
        let mut i: usize = 0;
        proof {
            assert(es@.take(0) =~= Seq::<Option<JsExpr>>::empty());
        }
        while i < es.len()
            invariant
                0 <= i <= es@.len(),
                self.stack.deep_view() == sdv,
                self.vars.items_view() == apply_entries(
                    vars0,
                    walk_opt_exprs_entries(es@.take(i as int), sdv),
                ),
            decreases es@.len() - i,
        {
            proof {
                assert(es@.take(i + 1).drop_last() =~= es@.take(i as int));
                assert(es@.take(i + 1).last() == es@[i as int]);
            }
            match &es[i] {
                Some(el) => {
                    proof {
                        assert(decreases_to!(es@ => es@[i as int]));
                        assert(decreases_to!(es@[i as int] => es@[i as int]->Some_0));
                    }
                    self.visit_expr(el);
                },
                None => {},
            }
            proof {
                lemma_apply_append(
                    vars0,
                    walk_opt_exprs_entries(es@.take(i as int), sdv),
                    match es@[i as int] {
                        Some(el) => walk_expr_entries(el, sdv),
                        None => Seq::<VarEntry>::empty(),
                    },
                );
            }
            i = i + 1;
        }
        proof {
            assert(es@.take(es@.len() as int) =~= es@);
        }
    }

    /// Walks a call: the `X.Y("name", { … })` configuration idiom records
    /// the object under the string, then callee and arguments are walked.
    pub fn visit_call_expr(&mut self, e: &JsExpr)
        ensures
            final(self).vars.items_view() == apply_entries(
                old(self).vars.items_view(),
                walk_call_entries(*e, old(self).stack.deep_view()),
            ),
            final(self).stack.deep_view() == old(self).stack.deep_view(),
        decreases *e, 4int,
    {
        let ghost vars0 = self.vars.items_view();
        let ghost sdv = self.stack.deep_view();
        match e {
            JsExpr::Call { callee, args } => {
                let ghost cpart: Seq<VarEntry> = match e->Call_callee {
                    JsCallee::Expr(inner) => (match *inner {
                        JsExpr::Member { .. } => if e->Call_args@.len() == 2 {
                            match (e->Call_args@[0], e->Call_args@[1]) {
                                (JsExpr::StrLit(name), JsExpr::Object(props)) => extract_entries(
                                    e->Call_args@[1],
                                    name@,
                                ),
                                _ => Seq::<VarEntry>::empty(),
                            }
                        } else {
                            Seq::<VarEntry>::empty()
                        },
                        _ => Seq::<VarEntry>::empty(),
                    }) + walk_expr_entries(*inner, sdv),
                    JsCallee::Opaque => Seq::<VarEntry>::empty(),
                };
                match callee {
                    JsCallee::Expr(inner) => {
                        let ghost ppart: Seq<VarEntry> = match **inner {
                            JsExpr::Member { .. } => if e->Call_args@.len() == 2 {
                                match (e->Call_args@[0], e->Call_args@[1]) {
                                    (JsExpr::StrLit(name), JsExpr::Object(props)) =>
                                        extract_entries(e->Call_args@[1], name@),
                                    _ => Seq::<VarEntry>::empty(),
                                }
                            } else {
                                Seq::<VarEntry>::empty()
                            },
                            _ => Seq::<VarEntry>::empty(),
                        };
                        let is_member = match &**inner {
                            JsExpr::Member { .. } => true,
                            _ => false,
                        };
                        if is_member && args.len() == 2 {
                            let name_opt: Option<String> = match &args[0] {
                                JsExpr::StrLit(name) => Some(clone_string(name)),
                                _ => None,
                            };
                            let arg1_is_obj = match &args[1] {
                                JsExpr::Object(..) => true,
                                _ => false,
                            };
                            match name_opt {
                                Some(name) => {
                                    if arg1_is_obj {
                                        proof {
                                            assert(decreases_to!(*e => e->Call_args));
                                            assert(decreases_to!(e->Call_args
                                                => e->Call_args@[1]));
                                        }
                                        self.extract_props(&args[1], name);
                                    }
                                },
                                None => {},
                            }
                        }
                        proof {
                            assert(self.vars.items_view() == apply_entries(vars0, ppart));
                            assert(decreases_to!(*e => e->Call_callee));
                            assert(decreases_to!(e->Call_callee => e->Call_callee->Expr_0));
                        }
                        self.visit_expr(inner);
                        proof {
                            lemma_apply_append(vars0, ppart, walk_expr_entries(**inner, sdv));
                            assert(cpart =~= ppart + walk_expr_entries(**inner, sdv));
                        }
                    },
                    JsCallee::Opaque => {},
                }
                proof {
                    assert(self.vars.items_view() == apply_entries(vars0, cpart));
                    assert(decreases_to!(*e => e->Call_args));
                    assert(decreases_to!(e->Call_args => e->Call_args@));
                }
                self.visit_exprs(args);
                proof {
                    lemma_apply_append(vars0, cpart, walk_exprs_entries(e->Call_args@, sdv));
                }
            },
            _ => {
                proof {
                    assert(walk_call_entries(*e, sdv) =~= Seq::<VarEntry>::empty());
                }
            },
        }
    }

    /// Walks an object literal twice, as the extractor does: once with
    /// each identifier key pushed on the scope stack, then once more as
    /// plain children.
    pub fn visit_object_lit(&mut self, props: &Vec<JsProp>)
        ensures
            final(self).vars.items_view() == apply_entries(
                old(self).vars.items_view(),
                walk_object_entries(props@, old(self).stack.deep_view()),
            ),
            final(self).stack.deep_view() == old(self).stack.deep_view(),
        decreases props@, 5int,
    {
        let ghost vars0 = self.vars.items_view();
        let ghost sdv = self.stack.deep_view();
        let mut i: usize = 0;
        proof {
            assert(props@.take(0) =~= Seq::<JsProp>::empty());
        }
        while i < props.len()
            invariant
                0 <= i <= props@.len(),
                self.stack.deep_view() == sdv,
                self.vars.items_view() == apply_entries(
                    vars0,
                    walk_object_scoped(props@.take(i as int), sdv),
                ),
            decreases props@.len() - i,
        {
            proof {
                assert(props@.take(i + 1).drop_last() =~= props@.take(i as int));
                assert(props@.take(i + 1).last() == props@[i as int]);
            }
            match &props[i] {
                JsProp::Pair { key: JsPropKey::Named(k), value } => {
                    let ghost pre_stack = self.stack.deep_view();
                    self.stack.push(clone_string(k));
                    proof {
                        assert(self.stack.deep_view() =~= sdv.push(k@));
                        assert(decreases_to!(props@ => props@[i as int]));
                        assert(decreases_to!(props@[i as int] => props@[i as int]->Pair_value));
                    }
                    self.visit_expr(value);
                    let ghost dv_in = self.stack.deep_view();
                    let _ = self.stack.pop();
                    proof {
                        assert(self.stack.deep_view() =~= dv_in.drop_last());
                        assert(dv_in.drop_last() =~= sdv);
                    }
                },
                JsProp::Method { key: JsPropKey::Named(k), body } => {
                    self.stack.push(clone_string(k));
                    proof {
                        assert(self.stack.deep_view() =~= sdv.push(k@));
                        assert(decreases_to!(props@ => props@[i as int]));
                        assert(decreases_to!(props@[i as int] => props@[i as int]->Method_body));
                        assert(decreases_to!(props@[i as int]->Method_body
                            => props@[i as int]->Method_body@));
                    }
                    self.visit_stmts(body);
                    let ghost dv_in = self.stack.deep_view();
                    let _ = self.stack.pop();
                    proof {
                        assert(self.stack.deep_view() =~= dv_in.drop_last());
                        assert(dv_in.drop_last() =~= sdv);
                    }
                },
                _ => {},
            }
            proof {
                lemma_apply_append(
                    vars0,
                    walk_object_scoped(props@.take(i as int), sdv),
                    match props@[i as int] {
                        JsProp::Pair { key: JsPropKey::Named(k), value } => walk_expr_entries(
                            value,
                            sdv.push(k@),
                        ),
                        JsProp::Method { key: JsPropKey::Named(k), body } => walk_stmts_entries(
                            body@,
                            sdv.push(k@),
                        ),
                        _ => Seq::<VarEntry>::empty(),
                    },
                );
            }
            i = i + 1;
        }
        proof {
            assert(props@.take(props@.len() as int) =~= props@);
        }
        let ghost mid = self.vars.items_view();
        let mut i: usize = 0;
        proof {
            assert(props@.take(0) =~= Seq::<JsProp>::empty());
        }
        while i < props.len()
            invariant
                0 <= i <= props@.len(),
                self.stack.deep_view() == sdv,
                mid == apply_entries(vars0, walk_object_scoped(props@, sdv)),
                self.vars.items_view() == apply_entries(
                    mid,
                    walk_object_children(props@.take(i as int), sdv),
                ),
            decreases props@.len() - i,
        {
            proof {
                assert(props@.take(i + 1).drop_last() =~= props@.take(i as int));
                assert(props@.take(i + 1).last() == props@[i as int]);
            }
            match &props[i] {
                JsProp::Pair { key, value } => {
                    proof {
                        assert(decreases_to!(props@ => props@[i as int]));
                        assert(decreases_to!(props@[i as int] => props@[i as int]->Pair_value));
                    }
                    self.visit_expr(value);
                },
                JsProp::Method { key, body } => {
                    proof {
                        assert(decreases_to!(props@ => props@[i as int]));
                        assert(decreases_to!(props@[i as int] => props@[i as int]->Method_body));
                        assert(decreases_to!(props@[i as int]->Method_body
                            => props@[i as int]->Method_body@));
                    }
                    self.visit_stmts(body);
                },
                JsProp::Opaque => {},
            }
            proof {
                lemma_apply_append(
                    mid,
                    walk_object_children(props@.take(i as int), sdv),
                    match props@[i as int] {
                        JsProp::Pair { key, value } => walk_expr_entries(value, sdv),
                        JsProp::Method { key, body } => walk_stmts_entries(body@, sdv),
                        JsProp::Opaque => Seq::<VarEntry>::empty(),
                    },
                );
            }
            i = i + 1;
        }
        proof {
            assert(props@.take(props@.len() as int) =~= props@);
            lemma_apply_append(
                vars0,
                walk_object_scoped(props@, sdv),
                walk_object_children(props@, sdv),
            );
        }
    }

    /// Extracts the entries of one initializer under `prefix`, realizing
    /// `extract_entries`.
    pub fn extract_props(&mut self, e: &JsExpr, prefix: String)
        ensures
            final(self).vars.items_view() == apply_entries(
                old(self).vars.items_view(),
                extract_entries(*e, prefix@),
            ),
            final(self).stack == old(self).stack,
        decreases *e, 1int,
    {
        let ghost vars0 = self.vars.items_view();
        match e {
            JsExpr::StrLit(s) => {
                self.insert_var(prefix, clone_string(s));
                proof {
                    lemma_single(vars0, extract_entries(*e, prefix@));
                }
            },
            JsExpr::NumLit(n) => {
                self.insert_var(prefix, clone_string(n));
                proof {
                    lemma_single(vars0, extract_entries(*e, prefix@));
                }
            },
            JsExpr::BoolLit(b) => {
                let v = if *b {
                    "true".to_owned()
                } else {
                    "false".to_owned()
                };
                self.insert_var(prefix, v);
                proof {
                    lemma_single(vars0, extract_entries(*e, prefix@));
                }
            },
            JsExpr::Tpl { quasis, exprs } => {
                if exprs.len() == 0 {
                    let v = concat_quasis_exec(quasis);
                    self.insert_var(prefix, v);
                } else {
                    self.insert_var(prefix, "<interpolated>".to_owned());
                }
                proof {
                    lemma_single(vars0, extract_entries(*e, prefix@));
                }
            },
            JsExpr::Ident(id) => {
                self.insert_var(prefix, clone_string(id));
                proof {
                    lemma_single(vars0, extract_entries(*e, prefix@));
                }
            },
            JsExpr::Paren(inner) => {
                proof {
                    assert(decreases_to!(*e => e->Paren_0));
                }
                self.extract_props(inner, prefix);
            },
            JsExpr::Object(props) => {
                let ghost stack0 = self.stack;
                let mut i: usize = 0;
                proof {
                    assert(props@.take(0) =~= Seq::<JsProp>::empty());
                }
                while i < props.len()
                    invariant
                        0 <= i <= props@.len(),
                        *e == JsExpr::Object(*props),
                        self.stack == stack0,
                        self.vars.items_view() == apply_entries(
                            vars0,
                            extract_obj_entries(props@.take(i as int), prefix@),
                        ),
                    decreases props@.len() - i,
                {
                    let ghost pre = self.vars.items_view();
                    proof {
                        assert(props@.take(i + 1).drop_last() =~= props@.take(i as int));
                        assert(props@.take(i + 1).last() == props@[i as int]);
                        assert(decreases_to!(*e => e->Object_0));
                        assert(decreases_to!(e->Object_0 => props@[i as int]));
                    }
                    match &props[i] {
                        JsProp::Pair { key, value } => {
                            let kstr: Option<&String> = match key {
                                JsPropKey::Named(k) => Some(k),
                                JsPropKey::Quoted(k) => Some(k),
                                JsPropKey::Opaque => None,
                            };
                            match kstr {
                                Some(k) => {
                                    let mut p2 = clone_string(&prefix);
                                    p2.append(".");
                                    p2.append(k.as_str());
                                    proof {
                                        assert(p2@ =~= prefix@ + "."@ + k@);
                                        assert(decreases_to!(props@[i as int]
                                            => props@[i as int]->Pair_value));
                                    }
                                    self.extract_props(value, p2);
                                },
                                None => {},
                            }
                        },
                        _ => {},
                    }
                    proof {
                        lemma_apply_append(
                            vars0,
                            extract_obj_entries(props@.take(i as int), prefix@),
                            match props@[i as int] {
                                JsProp::Pair { key, value } => match key {
                                    JsPropKey::Named(k) => extract_entries(
                                        value,
                                        prefix@ + "."@ + k@,
                                    ),
                                    JsPropKey::Quoted(k) => extract_entries(
                                        value,
                                        prefix@ + "."@ + k@,
                                    ),
                                    JsPropKey::Opaque => Seq::empty(),
                                },
                                _ => Seq::empty(),
                            },
                        );
                    }
                    i = i + 1;
                }
                proof {
                    assert(props@.take(props@.len() as int) =~= props@);
                }
            },
            JsExpr::Array(elems) => {
                let ghost stack0 = self.stack;
                let mut i: usize = 0;
                proof {
                    assert(elems@.take(0) =~= Seq::<Option<JsExpr>>::empty());
                }
                while i < elems.len()
                    invariant
                        0 <= i <= elems@.len(),
                        *e == JsExpr::Array(*elems),
                        self.stack == stack0,
                        self.vars.items_view() == apply_entries(
                            vars0,
                            extract_arr_entries(elems@.take(i as int), prefix@),
                        ),
                    decreases elems@.len() - i,
                {
                    let ghost pre = self.vars.items_view();
                    proof {
                        assert(elems@.take(i + 1).drop_last() =~= elems@.take(i as int));
                        assert(elems@.take(i + 1).last() == elems@[i as int]);
                        assert(decreases_to!(*e => e->Array_0));
                        assert(decreases_to!(e->Array_0 => elems@[i as int]));
                    }
                    match &elems[i] {
                        Some(el) => {
                            let mut p2 = clone_string(&prefix);
                            p2.append("[");
                            let idx = usize_to_string(i);
                            p2.append(idx.as_str());
                            p2.append("]");
                            proof {
                                assert(p2@ =~= prefix@ + "["@ + crate::text::dec_str(i as int)
                                    + "]"@);
                                assert(decreases_to!(elems@[i as int]
                                    => elems@[i as int]->Some_0));
                            }
                            self.extract_props(el, p2);
                        },
                        None => {},
                    }
                    proof {
                        lemma_apply_append(
                            vars0,
                            extract_arr_entries(elems@.take(i as int), prefix@),
                            match elems@[i as int] {
                                Some(el) => extract_entries(
                                    el,
                                    prefix@ + "["@ + crate::text::dec_str(i as int) + "]"@,
                                ),
                                None => Seq::empty(),
                            },
                        );
                    }
                    i = i + 1;
                }
                proof {
                    assert(elems@.take(elems@.len() as int) =~= elems@);
                }
            },
            JsExpr::Bin { op, left, right } => {
                if eq_str(op.as_str(), "||") || eq_str(op.as_str(), "??") {
                    let mut pl = clone_string(&prefix);
                    pl.append(" (left)");
                    let mut pr = clone_string(&prefix);
                    pr.append(" (right)");
                    proof {
                        assert(pl@ =~= prefix@ + " (left)"@);
                        assert(pr@ =~= prefix@ + " (right)"@);
                        assert(decreases_to!(*e => e->Bin_left));
                        assert(decreases_to!(*e => e->Bin_right));
                    }
                    let ghost mid_entries = extract_entries(**left, prefix@ + " (left)"@);
                    self.extract_props(left, pl);
                    self.extract_props(right, pr);
                    proof {
                        lemma_apply_append(
                            vars0,
                            mid_entries,
                            extract_entries(**right, prefix@ + " (right)"@),
                        );
                    }
                } else {
                    let lval = get_expr_string(left);
                    let rval = get_expr_string(right);
                    match (lval, rval) {
                        (Some(a), Some(b)) => {
                            let mut v = a;
                            if !eq_str(op.as_str(), "+") {
                                v.append(op.as_str());
                            }
                            v.append(b.as_str());
                            proof {
                                assert(v@ =~= get_expr_string_spec(**left)->Some_0 + bin_op_sep(
                                    op@,
                                ) + get_expr_string_spec(**right)->Some_0);
                            }
                            self.insert_var(prefix, v);
                            proof {
                                lemma_single(vars0, extract_entries(*e, prefix@));
                            }
                        },
                        (Some(a), None) => {
                            self.insert_var(prefix, a);
                            proof {
                                lemma_single(vars0, extract_entries(*e, prefix@));
                            }
                        },
                        (None, Some(b)) => {
                            self.insert_var(prefix, b);
                            proof {
                                lemma_single(vars0, extract_entries(*e, prefix@));
                            }
                        },
                        (None, None) => {},
                    }
                }
            },
            JsExpr::Unary { op, arg } => {
                match &**arg {
                    JsExpr::NumLit(n) => {
                        let v = match op {
                            JsUnaryOp::Minus => {
                                let mut v = "-".to_owned();
                                v.append(n.as_str());
                                proof {
                                    assert(v@ =~= "-"@ + n@);
                                }
                                v
                            },
                            _ => clone_string(n),
                        };
                        self.insert_var(prefix, v);
                        proof {
                            lemma_single(vars0, extract_entries(*e, prefix@));
                        }
                    },
                    JsExpr::BoolLit(b) => {
                        let v = match op {
                            JsUnaryOp::Bang => if !*b {
                                "true".to_owned()
                            } else {
                                "false".to_owned()
                            },
                            _ => if *b {
                                "true".to_owned()
                            } else {
                                "false".to_owned()
                            },
                        };
                        self.insert_var(prefix, v);
                        proof {
                            lemma_single(vars0, extract_entries(*e, prefix@));
                        }
                    },
                    _ => {},
                }
            },
            JsExpr::Call { callee, args } => {
                if args.len() > 0 {
                    let mut p2 = clone_string(&prefix);
                    p2.append("()");
                    proof {
                        assert(p2@ =~= prefix@ + "()"@);
                        assert(decreases_to!(*e => e->Call_args));
                        assert(decreases_to!(e->Call_args => args@[0]));
                    }
                    self.extract_props(&args[0], p2);
                }
            },
            JsExpr::Member { obj, prop } => {
                let mut name = String::new();
                match &**obj {
                    JsExpr::Ident(o) => {
                        name.append(o.as_str());
                    },
                    _ => {},
                }
                match prop {
                    JsMemberProp::Named(p) => {
                        name.append(".");
                        name.append(p.as_str());
                    },
                    _ => {},
                }
                proof {
                    let objv = **obj;
                    let propv = *prop;
                    let base: Seq<char> = match objv {
                        JsExpr::Ident(o) => o@,
                        _ => Seq::empty(),
                    };
                    let full: Seq<char> = match propv {
                        JsMemberProp::Named(p) => base + "."@ + p@,
                        _ => base,
                    };
                    assert(name@ =~= full);
                }
                self.insert_var(prefix, name);
                proof {
                    lemma_single(vars0, extract_entries(*e, prefix@));
                }
            },
            _ => {},
        }
    }
}

/// A single recording is one application.
proof fn lemma_single(items: Seq<VarEntry>, es: Seq<VarEntry>)
    requires
        es.len() == 1,
    ensures
        apply_entries(items, es) == insert_assoc(items, es[0].0, es[0].1),
{
    reveal_with_fuel(apply_entries, 3);
    assert(es.last() == es[0]);
    assert(es.drop_last() =~= Seq::<VarEntry>::empty());
}

} // verus!
