use planner_core::sim::grammar::{parse_expression, BinaryOp, ExprOp, Keyword};

fn show(src: &str) -> Option<Vec<String>> {
    let ops = parse_expression(src)?;
    Some(
        ops.iter()
            .map(|op| match op {
                ExprOp::Number(n) => format!("num{}:{}", n.radix, n.text),
                ExprOp::Text(t) => format!("str:{t}"),
                ExprOp::Keyword(k) => format!("{k:?}"),
                ExprOp::Array(n) => format!("arr{n}"),
                ExprOp::Plus => "pos".to_string(),
                ExprOp::Neg => "neg".to_string(),
                ExprOp::Not => "not".to_string(),
                ExprOp::Binary(b) => format!("{b:?}"),
                ExprOp::Index => "index".to_string(),
            })
            .collect(),
    )
}

fn ops(items: &[&str]) -> Option<Vec<String>> {
    Some(items.iter().map(|s| s.to_string()).collect())
}

#[test]
fn grammar_precedence_and_associativity() {
    assert_eq!(show("1 + 2 * 3"), ops(&["num10:1", "num10:2", "num10:3", "Mul", "Add"]));
    assert_eq!(show("(1 + 2) * 3"), ops(&["num10:1", "num10:2", "Add", "num10:3", "Mul"]));
    assert_eq!(show("8 - 3 - 2"), ops(&["num10:8", "num10:3", "Sub", "num10:2", "Sub"]));
    assert_eq!(show("2 ** 3 * 2"), ops(&["num10:2", "num10:3", "Pow", "num10:2", "Mul"]));
    assert_eq!(
        show("1 < 2 == true && x"),
        None
    );
    assert_eq!(
        show("1 < 2 == true || false && null"),
        ops(&["num10:1", "num10:2", "Lt", "True", "LooseEq", "False", "Null", "And", "Or"])
    );
    assert_eq!(show("1 !== 2"), ops(&["num10:1", "num10:2", "StrictNe"]));
    assert_eq!(show("1 >= 2"), ops(&["num10:1", "num10:2", "Ge"]));
}

#[test]
fn grammar_unary_postfix_and_literals() {
    assert_eq!(show("-!+1"), ops(&["num10:1", "pos", "not", "neg"]));
    assert_eq!(show("[1, 'a', [ ]][1]"), ops(&["num10:1", "str:a", "arr0", "arr3", "num10:1", "index"]));
    assert_eq!(show("\"ab\"[0][0]"), ops(&["str:ab", "num10:0", "index", "num10:0", "index"]));
    assert_eq!(show("0x1F + .5e1"), ops(&["num16:1F", "num10:.5e1", "Add"]));
    assert_eq!(show("  NaN  "), ops(&["NaN"]));
    assert_eq!(show("Infinity"), ops(&["Infinity"]));
    assert_eq!(show("undefined"), ops(&["Undefined"]));
    let _ = (BinaryOp::Or, Keyword::True);
}

#[test]
fn grammar_refuses_what_does_not_read() {
    assert_eq!(show(""), None);
    assert_eq!(show("1 +"), None);
    assert_eq!(show("(1"), None);
    assert_eq!(show("[1,]"), None);
    assert_eq!(show("1 2"), None);
    assert_eq!(show("!= 1"), None);
    assert_eq!(show("01"), None);
    assert_eq!(show("foo"), None);
    assert_eq!(show("'open"), None);
    assert_eq!(show("a[1"), None);
}
