use mboitata::js_ast::{
    JsAssignTarget, JsCallee, JsExpr, JsMemberProp, JsModule, JsProp, JsPropKey, JsStmt,
    JsVarDeclarator,
};
use mboitata::js_usage::run_js_analysis;
use mboitata::js_vars::VarMap;
use mboitata::{InterceptedResponse, ScanJsStage};

fn var_stmt(name: &str, init: JsExpr) -> JsStmt {
    JsStmt::VarDecl(vec![JsVarDeclarator {
        name: Some(name.to_string()),
        init: Some(init),
    }])
}

fn str_lit(s: &str) -> JsExpr {
    JsExpr::StrLit(s.to_string())
}

fn num_lit(s: &str) -> JsExpr {
    JsExpr::NumLit(s.to_string())
}

fn ident(s: &str) -> JsExpr {
    JsExpr::Ident(s.to_string())
}

fn get(m: &VarMap, k: &str) -> Option<String> {
    m.get(k)
}

#[test]
fn numeric_addition_concatenates_the_operand_renderings() {
    // var x = 1 + 2; records the operand renderings concatenated: `+` is
    // the string-building operator and leaves no spelling behind.
    let module = JsModule {
        body: vec![var_stmt(
            "x",
            JsExpr::Bin {
                op: "+".to_string(),
                left: Box::new(num_lit("1")),
                right: Box::new(num_lit("2")),
            },
        )],
    };
    let result = run_js_analysis(&module);
    assert_eq!(get(&result.vars, "::x").as_deref(), Some("12"));
    assert!(result.calls.is_empty());

    // Any other operator keeps its source spelling between the operands.
    let module2 = JsModule {
        body: vec![var_stmt(
            "y",
            JsExpr::Bin {
                op: "*".to_string(),
                left: Box::new(num_lit("3")),
                right: Box::new(num_lit("4")),
            },
        )],
    };
    let result2 = run_js_analysis(&module2);
    assert_eq!(get(&result2.vars, "::y").as_deref(), Some("3*4"));
}

#[test]
fn literals_and_identifiers_are_recorded() {
    let module = JsModule {
        body: vec![
            var_stmt("a", str_lit("hello")),
            var_stmt("b", JsExpr::BoolLit(true)),
            var_stmt("c", ident("a")),
        ],
    };
    let result = run_js_analysis(&module);
    assert_eq!(get(&result.vars, "::a").as_deref(), Some("hello"));
    assert_eq!(get(&result.vars, "::b").as_deref(), Some("true"));
    assert_eq!(get(&result.vars, "::c").as_deref(), Some("a"));
}

#[test]
fn function_names_scope_variables() {
    let module = JsModule {
        body: vec![JsStmt::FnDecl {
            name: "setup".to_string(),
            body: vec![var_stmt("port", num_lit("8085"))],
        }],
    };
    let result = run_js_analysis(&module);
    assert_eq!(get(&result.vars, "setup::port").as_deref(), Some("8085"));
}

#[test]
fn object_literals_nest_keys() {
    let module = JsModule {
        body: vec![var_stmt(
            "cfg",
            JsExpr::Object(vec![JsProp::Pair {
                key: JsPropKey::Named("api".to_string()),
                value: str_lit("https://api.example.com"),
            }]),
        )],
    };
    let result = run_js_analysis(&module);
    assert_eq!(get(&result.vars, "::cfg.api").as_deref(), Some("https://api.example.com"));
}

#[test]
fn arrays_index_their_elements() {
    let module = JsModule {
        body: vec![var_stmt(
            "xs",
            JsExpr::Array(vec![Some(str_lit("u")), None, Some(str_lit("w"))]),
        )],
    };
    let result = run_js_analysis(&module);
    assert_eq!(get(&result.vars, "::xs[0]").as_deref(), Some("u"));
    assert_eq!(get(&result.vars, "::xs[2]").as_deref(), Some("w"));
}

#[test]
fn logical_or_records_both_sides() {
    let module = JsModule {
        body: vec![var_stmt(
            "env",
            JsExpr::Bin {
                op: "||".to_string(),
                left: Box::new(ident("fromEnv")),
                right: Box::new(str_lit("dev")),
            },
        )],
    };
    let result = run_js_analysis(&module);
    assert_eq!(get(&result.vars, "::env (left)").as_deref(), Some("fromEnv"));
    assert_eq!(get(&result.vars, "::env (right)").as_deref(), Some("dev"));
}

#[test]
fn unary_minus_on_number() {
    let module = JsModule {
        body: vec![var_stmt(
            "n",
            JsExpr::Unary { op: mboitata::js_ast::JsUnaryOp::Minus, arg: Box::new(num_lit("5")) },
        )],
    };
    let result = run_js_analysis(&module);
    assert_eq!(get(&result.vars, "::n").as_deref(), Some("-5"));
}

#[test]
fn member_assignments_are_recorded() {
    // this.token = "abc"; obj.url = "u";
    let module = JsModule {
        body: vec![
            JsStmt::Expr(JsExpr::Assign {
                target: JsAssignTarget::Member {
                    obj: Box::new(JsExpr::This),
                    prop: JsMemberProp::Named("token".to_string()),
                },
                value: Box::new(str_lit("abc")),
            }),
            JsStmt::Expr(JsExpr::Assign {
                target: JsAssignTarget::Member {
                    obj: Box::new(ident("obj")),
                    prop: JsMemberProp::Named("url".to_string()),
                },
                value: Box::new(str_lit("u")),
            }),
        ],
    };
    let result = run_js_analysis(&module);
    assert_eq!(get(&result.vars, "this.token").as_deref(), Some("abc"));
    assert_eq!(get(&result.vars, "obj.url").as_deref(), Some("u"));
}

#[test]
fn configuration_idiom_uses_the_string_as_prefix() {
    // X.define("app", { port: 1 })
    let call = JsExpr::Call {
        callee: JsCallee::Expr(Box::new(JsExpr::Member {
            obj: Box::new(ident("X")),
            prop: JsMemberProp::Named("define".to_string()),
        })),
        args: vec![
            str_lit("app"),
            JsExpr::Object(vec![JsProp::Pair {
                key: JsPropKey::Named("port".to_string()),
                value: num_lit("1"),
            }]),
        ],
    };
    let module = JsModule { body: vec![JsStmt::Expr(call)] };
    let result = run_js_analysis(&module);
    assert_eq!(get(&result.vars, "app.port").as_deref(), Some("1"));
}

#[test]
fn fetch_call_with_concatenated_url_is_detected() {
    // var API = "https://api.example.com/v1"; fetch(API + "/users");
    let module = JsModule {
        body: vec![
            var_stmt("API", str_lit("https://api.example.com/v1")),
            JsStmt::Expr(JsExpr::Call {
                callee: JsCallee::Expr(Box::new(ident("fetch"))),
                args: vec![JsExpr::Bin {
                    op: "+".to_string(),
                    left: Box::new(ident("API")),
                    right: Box::new(str_lit("/users")),
                }],
            }),
        ],
    };
    let result = run_js_analysis(&module);
    assert_eq!(result.calls.len(), 1);
    assert_eq!(result.calls[0].method, "fetch");
    assert_eq!(result.calls[0].url, "https://api.example.com/v1/users");
    assert!(result.calls[0].authorization.is_none());
}

#[test]
fn unknown_identifier_resolves_as_placeholder() {
    // axios.get(BASE + "/x") with BASE unknown
    let module = JsModule {
        body: vec![JsStmt::Expr(JsExpr::Call {
            callee: JsCallee::Expr(Box::new(JsExpr::Member {
                obj: Box::new(ident("axios")),
                prop: JsMemberProp::Named("get".to_string()),
            })),
            args: vec![JsExpr::Bin {
                op: "+".to_string(),
                left: Box::new(ident("BASE")),
                right: Box::new(str_lit("/x")),
            }],
        })],
    };
    let result = run_js_analysis(&module);
    assert_eq!(result.calls.len(), 1);
    assert_eq!(result.calls[0].method, "get");
    assert_eq!(result.calls[0].url, "${BASE}/x");
}

#[test]
fn non_url_arguments_are_dropped() {
    // fetch("nope") resolves to something that does not look like a URL.
    let module = JsModule {
        body: vec![JsStmt::Expr(JsExpr::Call {
            callee: JsCallee::Expr(Box::new(ident("fetch"))),
            args: vec![str_lit("nope")],
        })],
    };
    let result = run_js_analysis(&module);
    assert!(result.calls.is_empty());
}

#[test]
fn authorization_header_is_extracted() {
    // client.post("/v1/users", { headers: { Authorization: TOKEN } })
    // with var TOKEN = "Bearer zzz";
    let module = JsModule {
        body: vec![
            var_stmt("TOKEN", str_lit("Bearer zzz")),
            JsStmt::Expr(JsExpr::Call {
                callee: JsCallee::Expr(Box::new(JsExpr::Member {
                    obj: Box::new(ident("client")),
                    prop: JsMemberProp::Named("post".to_string()),
                })),
                args: vec![
                    str_lit("/v1/users"),
                    JsExpr::Object(vec![JsProp::Pair {
                        key: JsPropKey::Named("headers".to_string()),
                        value: JsExpr::Object(vec![JsProp::Pair {
                            key: JsPropKey::Named("Authorization".to_string()),
                            value: ident("TOKEN"),
                        }]),
                    }]),
                ],
            }),
        ],
    };
    let result = run_js_analysis(&module);
    assert_eq!(result.calls.len(), 1);
    assert_eq!(result.calls[0].method, "post");
    assert_eq!(result.calls[0].url, "/v1/users");
    assert_eq!(result.calls[0].authorization.as_deref(), Some("Bearer zzz"));
}

#[test]
fn vars_lines_keep_identical_renderings() {
    // Two distinct keys can render the same `key=value` line; the VARS
    // content keeps both occurrences.
    let module = JsModule {
        body: vec![var_stmt(
            "o",
            JsExpr::Object(vec![
                JsProp::Pair {
                    key: JsPropKey::Quoted("x=1".to_string()),
                    value: str_lit("2"),
                },
                JsProp::Pair {
                    key: JsPropKey::Named("x".to_string()),
                    value: str_lit("1=2"),
                },
            ]),
        )],
    };
    let resp = InterceptedResponse {
        scheme: "https".to_string(),
        host: "example.com".to_string(),
        path: "/app.js".to_string(),
        content_type: "application/javascript".to_string(),
        content_encoding: "identity".to_string(),
        body: vec![],
    };
    let stage = ScanJsStage::new();
    let events = stage.process(&resp, &module);
    let vars = events.iter().find(|e| e.resp.path == "findings/app.js/VARS").unwrap();
    let content = String::from_utf8(vars.resp.body.clone()).unwrap();
    let line = "::o.x=1=2";
    assert_eq!(content.matches(line).count(), 2);
}

#[test]
fn template_literals_render_placeholders() {
    // var u = `${base}/x`;  (with interpolation: value is "<interpolated>")
    let module = JsModule {
        body: vec![var_stmt(
            "u",
            JsExpr::Tpl {
                quasis: vec!["".to_string(), "/x".to_string()],
                exprs: vec![ident("base")],
            },
        )],
    };
    let result = run_js_analysis(&module);
    assert_eq!(get(&result.vars, "::u").as_deref(), Some("<interpolated>"));
}
