//! Laws of the tail cleanup, stated over the relations that
//! `IncCleanup::remove_tail_expr` is specified with.
use vstd::prelude::*;

use crate::ast::{Arm, Block, Expr, Label, Lit, LitIntType, Stmt};
use crate::inc_cleanup::{is_zero_lit, ImplicitReturnType, IncCleanup};

verus! {

proof fn lemma_seq_stable(c: IncCleanup, s: Seq<Stmt>, t: Seq<Stmt>)
    requires
        c.seq_cleaned(s, t),
        !c.seq_removes(s),
    ensures
        !c.seq_removes(t),
        c.seq_cleaned(t, t),
    decreases s,
{
    if s.len() > 0 {
        lemma_stmt_stable(c, s.last(), t.last());
        assert(t.drop_last() =~= t.drop_last());
    }
}

proof fn lemma_stmt_stable(c: IncCleanup, a: Stmt, b: Stmt)
    requires
        c.stmt_cleaned(a, b),
        !c.stmt_removes(a),
        !c.is_idempotent(a),
    ensures
        !c.stmt_removes(b),
        !c.is_idempotent(b),
        c.stmt_cleaned(b, b),
    decreases a,
{
    if let Stmt::Expr(e) = a {
        match *e {
            Expr::If(cond, body, els) => {
                if let Stmt::Expr(e2) = b {
                    if let Expr::If(_, body2, els2) = *e2 {
                        lemma_seq_stable(c, body.stmts@, body2.stmts@);
                        lemma_else_stable(c, els, els2);
                    }
                }
            },
            Expr::Match(_, arms) => {
                if let Stmt::Expr(e2) = b {
                    if let Expr::Match(_, arms2) = *e2 {
                        lemma_arms_stable(c, arms@, arms2@);
                    }
                }
            },
            _ => {},
        }
    }
}

proof fn lemma_else_stable(c: IncCleanup, a: Option<Box<Expr>>, b: Option<Box<Expr>>)
    requires
        c.else_cleaned(a, b),
        !c.else_removes(a),
    ensures
        !c.else_removes(b),
        c.else_cleaned(b, b),
    decreases a,
{
    if let Some(x) = a {
        if let Expr::Block(blk, lbl) = *x {
            if let Some(y) = b {
                if let Expr::Block(blk2, _) = *y {
                    lemma_seq_stable(c, blk.stmts@, blk2.stmts@);
                }
            }
        }
    }
}

proof fn lemma_arms_stable(c: IncCleanup, a: Seq<Arm>, b: Seq<Arm>)
    requires
        c.arms_cleaned(a, b),
        !c.arms_remove(a),
    ensures
        !c.arms_remove(b),
        c.arms_cleaned(b, b),
    decreases a,
{
    if a.len() > 0 {
        lemma_arms_stable(c, a.drop_last(), b.drop_last());
        lemma_arm_stable(c, a.last(), b.last());
    }
}

proof fn lemma_arm_stable(c: IncCleanup, a: Arm, b: Arm)
    requires
        c.arm_cleaned(a, b),
        !c.arm_removes(a),
    ensures
        !c.arm_removes(b),
        c.arm_cleaned(b, b),
    decreases a,
{
    if let Expr::Block(blk, _) = *a.body {
        if let Expr::Block(blk2, _) = *b.body {
            lemma_seq_stable(c, blk.stmts@, blk2.stmts@);
        }
    }
}

/// A cleanup that drops nothing leaves a sequence on which a second cleanup
/// again drops nothing, and for which keeping the sequence exactly as it is
/// meets the cleanup's contract.
pub proof fn lemma_clean_twice(c: IncCleanup, s: Seq<Stmt>, t: Seq<Stmt>)
    requires
        c.seq_cleaned(s, t),
        !c.seq_removes(s),
    ensures
        !c.seq_removes(t),
        c.seq_cleaned(t, t),
{
    lemma_seq_stable(c, s, t);
}

/// The statement `return 0;` with an unsuffixed literal.
pub open spec fn return_zero_stmt() -> Stmt {
    Stmt::Semi(Box::new(Expr::Ret(Some(Box::new(Expr::Lit(Lit::Int(0, LitIntType::Unsuffixed)))))))
}

/// The statement `break 'l;` without a value.
pub open spec fn break_stmt(l: Label) -> Stmt {
    Stmt::Semi(Box::new(Expr::Break(Some(l), None)))
}

/// At the end of `main`, `return 0;` is the one statement that the cleanup drops;
/// a sequence that ends in a return of any other value, or of nothing, is kept
/// as it is and nothing is reported dropped.
pub proof fn lemma_return_zero_precision(
    c: IncCleanup,
    s: Seq<Stmt>,
    t: Seq<Stmt>,
    v: Option<Box<Expr>>,
)
    requires
        c.in_tail == Some(ImplicitReturnType::Main),
        s.len() > 0,
        s.last() == Stmt::Semi(Box::new(Expr::Ret(v))) || s.last() == Stmt::Expr(
            Box::new(Expr::Ret(v)),
        ),
        !(v matches Some(z) && is_zero_lit(*z)),
    ensures
        forall|st: Stmt| c.is_idempotent(st) <==> st == return_zero_stmt(),
        !c.seq_removes(s),
        c.seq_cleaned(s, t) ==> t == s,
{
    if c.seq_cleaned(s, t) {
        assert(t.last() == s.last());
        assert forall|i: int| 0 <= i < t.len() implies t[i] == s[i] by {
            if i < t.len() - 1 {
                assert(t[i] == t.drop_last()[i]);
            }
        }
        assert(t =~= s);
    }
}

/// Where falling through means a break to one label, a break to another label
/// is never dropped, whatever value it carries: the sequence is kept as it is.
pub proof fn lemma_break_label_precision(
    c: IncCleanup,
    s: Seq<Stmt>,
    t: Seq<Stmt>,
    l: Label,
    v: Option<Box<Expr>>,
)
    requires
        c.breaks_to_label(),
        l != c.brk_lbl,
        s.len() > 0,
        s.last() == Stmt::Semi(Box::new(Expr::Break(Some(l), v))) || s.last() == Stmt::Expr(
            Box::new(Expr::Break(Some(l), v)),
        ),
    ensures
        !c.seq_removes(s),
        c.seq_cleaned(s, t) ==> t == s,
{
    if c.seq_cleaned(s, t) {
        assert(t.last() == s.last());
        assert forall|i: int| 0 <= i < t.len() implies t[i] == s[i] by {
            if i < t.len() - 1 {
                assert(t[i] == t.drop_last()[i]);
            }
        }
        assert(t =~= s);
    }
}

/// A conditional whose then-block and else-block both end in a break to the
/// fallthrough label loses both breaks in one cleanup, which reports a removal;
/// an unlabelled else-block that this empties is dropped.
pub proof fn lemma_both_branches_cleaned(
    c: IncCleanup,
    s: Seq<Stmt>,
    t: Seq<Stmt>,
    cond: Box<Expr>,
    body: Block,
    blk: Block,
    lbl: Option<Label>,
)
    requires
        c.breaks_to_label(),
        s.len() > 0,
        s.last() == Stmt::Expr(
            Box::new(Expr::If(cond, body, Some(Box::new(Expr::Block(blk, lbl))))),
        ),
        body.stmts@.len() > 0,
        body.stmts@.last() == break_stmt(c.brk_lbl),
        blk.stmts@.len() > 0,
        blk.stmts@.last() == break_stmt(c.brk_lbl),
    ensures
        c.seq_removes(s),
        c.seq_cleaned(s, t) ==> {
            &&& t.len() == s.len()
            &&& t.drop_last() == s.drop_last()
            &&& t.last() matches Stmt::Expr(e)
            &&& *e matches Expr::If(cond2, body2, els2)
            &&& cond2 == cond
            &&& body2.stmts@ == body.stmts@.drop_last()
            &&& if lbl is None && blk.stmts@.len() == 1 {
                els2 is None
            } else {
                &&& els2 matches Some(x)
                &&& *x matches Expr::Block(blk2, lbl2)
                &&& lbl2 == lbl
                &&& blk2.stmts@ == blk.stmts@.drop_last()
            }
        },
{
    assert(c.is_idempotent(break_stmt(c.brk_lbl)));
    assert(c.seq_removes(body.stmts@));
    assert(c.stmt_removes(s.last()));
    if c.seq_cleaned(s, t) {
        assert(c.stmt_cleaned(s.last(), t.last()));
        if let Stmt::Expr(e) = t.last() {
            if let Expr::If(_, body2, els2) = *e {
                assert(c.seq_cleaned(body.stmts@, body2.stmts@));
                assert(c.else_cleaned(Some(Box::new(Expr::Block(blk, lbl))), els2));
                if let Some(x) = els2 {
                    if let Expr::Block(blk2, _) = *x {
                        assert(c.seq_cleaned(blk.stmts@, blk2.stmts@));
                    }
                }
            }
        }
    }
}

/// When the cleanup empties an unlabelled else-block by dropping its only
/// statement, the conditional is left with no else-branch at all.
pub proof fn lemma_empty_else_collapses(
    c: IncCleanup,
    s: Seq<Stmt>,
    t: Seq<Stmt>,
    cond: Box<Expr>,
    body: Block,
    blk: Block,
)
    requires
        s.len() > 0,
        s.last() == Stmt::Expr(
            Box::new(Expr::If(cond, body, Some(Box::new(Expr::Block(blk, None))))),
        ),
        blk.stmts@.len() == 1,
        c.is_idempotent(blk.stmts@[0]),
    ensures
        c.seq_removes(s),
        c.seq_cleaned(s, t) ==> (t.last() matches Stmt::Expr(e) && *e matches Expr::If(
            cond2,
            _,
            None,
        ) && cond2 == cond),
{
    assert(blk.stmts@.last() == blk.stmts@[0]);
    assert(c.seq_removes(blk.stmts@));
    assert(c.else_removes(Some(Box::new(Expr::Block(blk, None)))));
    assert(c.stmt_removes(s.last()));
    if c.seq_cleaned(s, t) {
        assert(c.stmt_cleaned(s.last(), t.last()));
        if let Stmt::Expr(e) = t.last() {
            if let Expr::If(_, _, els2) = *e {
                assert(c.cleans_to_empty(blk.stmts@));
                assert(c.else_cleaned(Some(Box::new(Expr::Block(blk, None))), els2));
            }
        }
    }
}

} // verus!
