use tail_cleanup::{
    Arm, Block, Expr, ImplicitReturnType, IncCleanup, Label, Lit, LitIntType, Pat, Stmt,
};

fn semi(e: Expr) -> Stmt {
    Stmt::Semi(Box::new(e))
}

fn tail(e: Expr) -> Stmt {
    Stmt::Expr(Box::new(e))
}

fn lit(v: u128) -> Expr {
    Expr::Lit(Lit::Int(v, LitIntType::Unsuffixed))
}

fn var(name: &str) -> Expr {
    Expr::Path(name.to_string())
}

fn ret(v: Option<Expr>) -> Stmt {
    semi(Expr::Ret(v.map(Box::new)))
}

fn brk(l: u64) -> Stmt {
    semi(Expr::Break(Some(Label(l)), None))
}

fn block(stmts: Vec<Stmt>) -> Block {
    Block { stmts }
}

fn if_stmt(cond: Expr, then: Vec<Stmt>, els: Option<Expr>) -> Stmt {
    tail(Expr::If(Box::new(cond), block(then), els.map(Box::new)))
}

fn block_expr(stmts: Vec<Stmt>, lbl: Option<u64>) -> Expr {
    Expr::Block(block(stmts), lbl.map(Label))
}

fn breaks_to(l: u64) -> IncCleanup {
    IncCleanup::new(None, Label(l))
}

fn in_main() -> IncCleanup {
    IncCleanup::new(Some(ImplicitReturnType::Main), Label(0))
}

fn in_void() -> IncCleanup {
    IncCleanup::new(Some(ImplicitReturnType::Void), Label(0))
}

#[test]
fn both_branches_lose_their_break() {
    let mut stmts = vec![if_stmt(var("c"), vec![brk(1)], Some(block_expr(vec![brk(1)], None)))];
    let removed = breaks_to(1).remove_tail_expr(&mut stmts);
    assert!(removed);
    assert_eq!(stmts, vec![if_stmt(var("c"), vec![], None)]);
}

#[test]
fn return_zero_is_dropped_in_main() {
    let mut stmts = vec![ret(Some(lit(0)))];
    assert!(in_main().remove_tail_expr(&mut stmts));
    assert_eq!(stmts, vec![]);
}

#[test]
fn return_one_is_kept_in_main() {
    let mut stmts = vec![ret(Some(lit(1)))];
    assert!(!in_main().remove_tail_expr(&mut stmts));
    assert_eq!(stmts, vec![ret(Some(lit(1)))]);
}

#[test]
fn empty_sequence_is_left_alone() {
    let mut stmts: Vec<Stmt> = vec![];
    assert!(!breaks_to(1).remove_tail_expr(&mut stmts));
    assert!(stmts.is_empty());
    assert!(!in_main().remove_tail_expr(&mut stmts));
    assert!(!in_void().remove_tail_expr(&mut stmts));
}

#[test]
fn only_the_last_statement_is_dropped() {
    let mut stmts = vec![brk(1), semi(var("x")), brk(1)];
    assert!(breaks_to(1).remove_tail_expr(&mut stmts));
    assert_eq!(stmts, vec![brk(1), semi(var("x"))]);
}

#[test]
fn second_pass_after_nothing_dropped_changes_nothing() {
    let original = vec![
        semi(var("x")),
        if_stmt(var("c"), vec![brk(2)], Some(block_expr(vec![], None))),
    ];
    let mut stmts = vec![
        semi(var("x")),
        if_stmt(var("c"), vec![brk(2)], Some(block_expr(vec![], None))),
    ];
    let cleanup = breaks_to(1);
    assert!(!cleanup.remove_tail_expr(&mut stmts));
    assert_ne!(stmts, original);
    let once = vec![semi(var("x")), if_stmt(var("c"), vec![brk(2)], None)];
    assert_eq!(stmts, once);
    assert!(!cleanup.remove_tail_expr(&mut stmts));
    assert_eq!(stmts, once);
}

#[test]
fn second_pass_can_drop_a_repeated_break() {
    let mut stmts = vec![brk(1), brk(1)];
    let cleanup = breaks_to(1);
    assert!(cleanup.remove_tail_expr(&mut stmts));
    assert_eq!(stmts, vec![brk(1)]);
    assert!(cleanup.remove_tail_expr(&mut stmts));
    assert!(stmts.is_empty());
}

#[test]
fn other_returns_are_kept_in_main() {
    let kept: Vec<fn() -> Stmt> = vec![
        || ret(Some(lit(7))),
        || ret(None),
        || ret(Some(var("x"))),
        || ret(Some(Expr::Lit(Lit::Int(0, LitIntType::Signed)))),
        || ret(Some(Expr::Lit(Lit::Bool(false)))),
        || tail(Expr::Ret(Some(Box::new(lit(0))))),
        || brk(0),
    ];
    for make in kept {
        let mut stmts = vec![semi(var("x")), make()];
        assert!(!in_main().remove_tail_expr(&mut stmts));
        assert_eq!(stmts, vec![semi(var("x")), make()]);
    }
}

#[test]
fn bare_return_is_dropped_in_void_function() {
    let mut stmts = vec![semi(var("x")), ret(None)];
    assert!(in_void().remove_tail_expr(&mut stmts));
    assert_eq!(stmts, vec![semi(var("x"))]);

    let mut stmts = vec![ret(Some(lit(0)))];
    assert!(!in_void().remove_tail_expr(&mut stmts));
    assert_eq!(stmts, vec![ret(Some(lit(0)))]);
}

#[test]
fn break_to_another_label_is_kept() {
    let mut stmts = vec![brk(2)];
    assert!(!breaks_to(1).remove_tail_expr(&mut stmts));
    assert_eq!(stmts, vec![brk(2)]);

    let with_value = || semi(Expr::Break(Some(Label(2)), Some(Box::new(lit(3)))));
    let mut stmts = vec![with_value()];
    assert!(!breaks_to(1).remove_tail_expr(&mut stmts));
    assert_eq!(stmts, vec![with_value()]);
}

#[test]
fn break_with_value_or_without_label_is_kept() {
    let valued = || semi(Expr::Break(Some(Label(1)), Some(Box::new(lit(0)))));
    let mut stmts = vec![valued()];
    assert!(!breaks_to(1).remove_tail_expr(&mut stmts));
    assert_eq!(stmts, vec![valued()]);

    let mut stmts = vec![semi(Expr::Break(None, None))];
    assert!(!breaks_to(1).remove_tail_expr(&mut stmts));
    assert_eq!(stmts, vec![semi(Expr::Break(None, None))]);

    let mut stmts = vec![tail(Expr::Break(Some(Label(1)), None))];
    assert!(!breaks_to(1).remove_tail_expr(&mut stmts));
    assert_eq!(stmts, vec![tail(Expr::Break(Some(Label(1)), None))]);
}

#[test]
fn no_implicit_return_type_means_break() {
    let cleanup = IncCleanup::new(Some(ImplicitReturnType::NoImplicitReturnType), Label(4));
    let mut stmts = vec![brk(4)];
    assert!(cleanup.remove_tail_expr(&mut stmts));
    assert!(stmts.is_empty());
}

#[test]
fn else_block_keeping_statements_stays() {
    let mut stmts = vec![if_stmt(
        var("c"),
        vec![semi(var("a")), brk(1)],
        Some(block_expr(vec![semi(var("b")), brk(1)], None)),
    )];
    assert!(breaks_to(1).remove_tail_expr(&mut stmts));
    assert_eq!(
        stmts,
        vec![if_stmt(
            var("c"),
            vec![semi(var("a"))],
            Some(block_expr(vec![semi(var("b"))], None)),
        )]
    );
}

#[test]
fn labelled_else_block_is_not_collapsed() {
    let mut stmts = vec![if_stmt(var("c"), vec![semi(var("a"))], Some(block_expr(vec![brk(1)], Some(9))))];
    assert!(breaks_to(1).remove_tail_expr(&mut stmts));
    assert_eq!(
        stmts,
        vec![if_stmt(var("c"), vec![semi(var("a"))], Some(block_expr(vec![], Some(9))))]
    );
}

#[test]
fn else_if_chain_is_not_entered() {
    let inner = || tail(Expr::If(Box::new(var("d")), block(vec![brk(1)]), None));
    let chain = || {
        if_stmt(
            var("c"),
            vec![semi(var("a"))],
            Some(Expr::If(Box::new(var("d")), block(vec![brk(1)]), None)),
        )
    };
    let mut stmts = vec![chain()];
    assert!(!breaks_to(1).remove_tail_expr(&mut stmts));
    assert_eq!(stmts, vec![chain()]);

    let mut stmts = vec![inner()];
    assert!(breaks_to(1).remove_tail_expr(&mut stmts));
    assert_eq!(stmts, vec![tail(Expr::If(Box::new(var("d")), block(vec![]), None))]);
}

#[test]
fn then_block_is_cleaned_recursively() {
    let nested = if_stmt(var("d"), vec![ret(None)], None);
    let mut stmts = vec![if_stmt(var("c"), vec![semi(var("a")), nested], None)];
    assert!(in_void().remove_tail_expr(&mut stmts));
    assert_eq!(
        stmts,
        vec![if_stmt(
            var("c"),
            vec![semi(var("a")), if_stmt(var("d"), vec![], None)],
            None
        )]
    );
}

#[test]
fn semicolon_conditional_is_not_entered() {
    let stmt = || semi(Expr::If(Box::new(var("c")), block(vec![brk(1)]), None));
    let mut stmts = vec![stmt()];
    assert!(!breaks_to(1).remove_tail_expr(&mut stmts));
    assert_eq!(stmts, vec![stmt()]);
}

fn arm(pat: Pat, body: Expr) -> Arm {
    Arm { pat, body: Box::new(body) }
}

#[test]
fn every_dispatch_arm_is_cleaned() {
    let mut stmts = vec![tail(Expr::Match(
        Box::new(var("x")),
        vec![
            arm(Pat::Lit(Lit::Int(1, LitIntType::Unsuffixed)), block_expr(vec![brk(1)], None)),
            arm(Pat::Lit(Lit::Int(2, LitIntType::Unsuffixed)), block_expr(vec![semi(var("a"))], None)),
            arm(Pat::Wild, block_expr(vec![semi(var("b")), brk(1)], Some(3))),
            arm(Pat::Lit(Lit::Str("s".to_string())), Expr::Break(Some(Label(1)), None)),
        ],
    ))];
    assert!(breaks_to(1).remove_tail_expr(&mut stmts));
    assert_eq!(
        stmts,
        vec![tail(Expr::Match(
            Box::new(var("x")),
            vec![
                arm(Pat::Lit(Lit::Int(1, LitIntType::Unsuffixed)), block_expr(vec![], None)),
                arm(Pat::Lit(Lit::Int(2, LitIntType::Unsuffixed)), block_expr(vec![semi(var("a"))], None)),
                arm(Pat::Wild, block_expr(vec![semi(var("b"))], Some(3))),
                arm(Pat::Lit(Lit::Str("s".to_string())), Expr::Break(Some(Label(1)), None)),
            ],
        ))]
    );
}

#[test]
fn dispatch_without_redundant_arms_reports_nothing() {
    let dispatch = || {
        tail(Expr::Match(
            Box::new(var("x")),
            vec![
                arm(Pat::Wild, block_expr(vec![semi(var("a"))], None)),
                arm(Pat::Wild, block_expr(vec![], None)),
            ],
        ))
    };
    let mut stmts = vec![dispatch()];
    assert!(!breaks_to(1).remove_tail_expr(&mut stmts));
    assert_eq!(stmts, vec![dispatch()]);

    let mut stmts = vec![tail(Expr::Match(Box::new(var("x")), vec![]))];
    assert!(!breaks_to(1).remove_tail_expr(&mut stmts));
    assert_eq!(stmts, vec![tail(Expr::Match(Box::new(var("x")), vec![]))]);
}
