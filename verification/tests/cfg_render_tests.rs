use lua_front::ast::{Expression, LuaNumber, Statement, Variable};
use lua_front::cfg::{translate, CFGEdge};
use lua_front::parser::parse;

fn number(mantissa: u64, exponent: i64) -> Expression {
    Expression::LiteralNumber(LuaNumber {
        negative: false,
        mantissa,
        exponent,
    })
}

fn ident_expr(name: &str) -> Expression {
    Expression::Variable(Variable::Identifier(name.to_string()))
}

fn assign(name: &str, value: Expression) -> Statement {
    Statement::Assignment(lua_front::ast::AssignmentStatement {
        variable_list: vec![Variable::Identifier(name.to_string())],
        expression_list: vec![value],
    })
}

#[test]
fn if_cfg_shape() {
    // entry, three branch nodes, and a merge node that each branch enters
    let chunk = parse("if true then a=1 elseif false then a=2 else a=3 end").unwrap();
    let cfg = translate(&chunk.block);

    assert_eq!(cfg.nodes.len(), 5);
    assert_eq!(cfg.nodes[0].statements, vec![]);
    assert_eq!(cfg.nodes[1].statements, vec![assign("a", number(1, 0))]);
    assert_eq!(cfg.nodes[2].statements, vec![assign("a", number(2, 0))]);
    assert_eq!(cfg.nodes[3].statements, vec![assign("a", number(3, 0))]);
    assert_eq!(cfg.nodes[4].statements, vec![]);

    assert_eq!(cfg.edges.len(), 6);
    assert_eq!((cfg.edges[0].from, cfg.edges[0].to), (0, 1));
    assert_eq!(cfg.edges[0].edge, CFGEdge::Conditional(Expression::True));
    assert_eq!((cfg.edges[1].from, cfg.edges[1].to), (0, 2));
    assert_eq!(cfg.edges[1].edge, CFGEdge::Conditional(Expression::False));
    assert_eq!((cfg.edges[2].from, cfg.edges[2].to), (0, 3));
    assert_eq!(cfg.edges[2].edge, CFGEdge::Unconditional());
    assert_eq!((cfg.edges[3].from, cfg.edges[3].to), (1, 4));
    assert_eq!(cfg.edges[3].edge, CFGEdge::Unconditional());
    assert_eq!((cfg.edges[4].from, cfg.edges[4].to), (2, 4));
    assert_eq!(cfg.edges[4].edge, CFGEdge::Unconditional());
    assert_eq!((cfg.edges[5].from, cfg.edges[5].to), (3, 4));
    assert_eq!(cfg.edges[5].edge, CFGEdge::Unconditional());
}

#[test]
fn while_cfg_shape() {
    // condition node, guarded body edge, back edge, and unconditional exit
    let chunk = parse("while a < 10 do a = a + 1 end").unwrap();
    let cfg = translate(&chunk.block);

    assert_eq!(cfg.nodes.len(), 4);
    assert_eq!(cfg.nodes[0].statements, vec![]);
    assert_eq!(cfg.nodes[1].statements, vec![]);
    assert_eq!(
        cfg.nodes[2].statements,
        vec![assign(
            "a",
            Expression::Addition(Box::new(ident_expr("a")), Box::new(number(1, 0)))
        )]
    );
    assert_eq!(cfg.nodes[3].statements, vec![]);

    assert_eq!(cfg.edges.len(), 4);
    assert_eq!((cfg.edges[0].from, cfg.edges[0].to), (0, 1));
    assert_eq!(cfg.edges[0].edge, CFGEdge::Unconditional());
    assert_eq!((cfg.edges[1].from, cfg.edges[1].to), (1, 2));
    assert_eq!(
        cfg.edges[1].edge,
        CFGEdge::Conditional(Expression::LessThan(
            Box::new(ident_expr("a")),
            Box::new(number(10, 0))
        ))
    );
    assert_eq!((cfg.edges[2].from, cfg.edges[2].to), (2, 1));
    assert_eq!(cfg.edges[2].edge, CFGEdge::Unconditional());
    assert_eq!((cfg.edges[3].from, cfg.edges[3].to), (1, 3));
    assert_eq!(cfg.edges[3].edge, CFGEdge::Unconditional());
}

#[test]
fn numeric_for_cfg_guard() {
    // the numeric-for guard is the inclusive bounds check `i <= end`
    let chunk = parse("for i = 1, 2 do a = 1 end").unwrap();
    let cfg = translate(&chunk.block);

    assert_eq!(cfg.nodes.len(), 4);
    assert_eq!(
        cfg.edges[1].edge,
        CFGEdge::Conditional(Expression::LessThanOrEqual(
            Box::new(ident_expr("i")),
            Box::new(number(2, 0))
        ))
    );
}

#[test]
fn straight_line_cfg_chain() {
    let chunk = parse("a = 1 b = 2").unwrap();
    let cfg = translate(&chunk.block);

    assert_eq!(cfg.nodes.len(), 3);
    assert_eq!(cfg.nodes[1].statements, vec![assign("a", number(1, 0))]);
    assert_eq!(cfg.nodes[2].statements, vec![assign("b", number(2, 0))]);
    assert_eq!(cfg.edges.len(), 2);
    assert_eq!((cfg.edges[0].from, cfg.edges[0].to), (0, 1));
    assert_eq!((cfg.edges[1].from, cfg.edges[1].to), (1, 2));
}

#[test]
fn numeric_for_default_step() {
    // an omitted step clause stands for the literal 1
    let chunk = parse("for i = 1, 2 do end").unwrap();
    match &chunk.block.statements[0] {
        Statement::NumericFor(f) => {
            assert!(f.step.is_none());
            assert_eq!(f.effective_step(), number(1, 0));
        }
        other => panic!("expected a numeric for, got {:?}", other),
    }

    let chunk = parse("for i = 1, 10, 2 do end").unwrap();
    match &chunk.block.statements[0] {
        Statement::NumericFor(f) => {
            assert_eq!(f.step, Some(number(2, 0)));
            assert_eq!(f.effective_step(), number(2, 0));
        }
        other => panic!("expected a numeric for, got {:?}", other),
    }
}

#[test]
fn render_exact_forms() {
    assert_eq!(parse("a = 1").unwrap().render(), "a = 1 ");
    assert_eq!(parse("a = 0xff").unwrap().render(), "a = 255 ");
    assert_eq!(parse("a = 1e5").unwrap().render(), "a = 1e5 ");
    assert_eq!(parse("a = -0xff").unwrap().render(), "a = -255 ");
    assert_eq!(parse("a = 1.0").unwrap().render(), "a = 10e-1 ");
    assert_eq!(parse(r#"a = "hi""#).unwrap().render(), "a = \"hi\" ");
    assert_eq!(parse("return 1").unwrap().render(), " return 1");
}

#[test]
fn render_reparse_round_trip() {
    // rendering a parsed chunk and re-parsing it gives back an equal tree
    let sources = [
        "a = 1",
        "local a, b = 1, 2",
        "a = 1 + 2 * 3",
        "a = 2 ^ 3 ^ 2",
        "x = a .. b .. c",
        "while a < 10 do a = a + 1 end",
        "if true then a = 1 elseif false then a = 2 else a = 3 end",
        "for i = 1, 2 do end",
        "for i = 1, 10, 2 do a = 1 end",
        "for k, v in pairs(t) do print(k, v) end",
        "repeat a = a + 1 until a > 10",
        "function f(x, y, ...) return x end",
        "local function g() end",
        "a.b.c[1]:d()",
        "do a = 1 end",
        "goto top",
        "::top::",
        "a = {1, 2, x = 3, [4] = 5}",
        "a = (function() return 1 end)()",
        "a = not b",
        "a = #b",
        "a = -0b100",
        r#"a = "hi""#,
        "break",
        "return 1, 2",
    ];
    for src in sources {
        let first = parse(src).unwrap();
        let text = first.render();
        let second = parse(&text)
            .unwrap_or_else(|e| panic!("re-parse of {text:?} failed at {}", e.position));
        assert_eq!(first, second, "round trip of {src:?} via {text:?}");
    }
}

#[test]
fn render_idempotent() {
    // rendering is a canonicalization: a second round trip changes nothing
    let src = "if a < 10 then b = a .. \"x\" else b = -0xff end";
    let first = parse(src).unwrap();
    let text = first.render();
    let second = parse(&text).unwrap();
    assert_eq!(second.render(), text);
}
