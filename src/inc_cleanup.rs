//! Removal of redundant tail branches.
use vstd::prelude::*;

use crate::ast::{Arm, Expr, Label, Lit, LitIntType, Stmt};

verus! {

/// What falling off the end of a function body means.
#[derive(Clone, Copy, Debug, PartialEq, Eq, Structural)]
pub enum ImplicitReturnType {
    /// The body of `main`: falling off the end returns the integer 0.
    Main,
    /// A function without a result: falling off the end returns nothing.
    Void,
    /// Not a function's tail: falling off the end leaves the labelled block.
    NoImplicitReturnType,
}

/// A cleanup of tail positions under one fixed meaning of falling through:
/// a return as `in_tail` says, or else a break to `brk_lbl`.
pub struct IncCleanup {
    pub in_tail: Option<ImplicitReturnType>,
    pub brk_lbl: Label,
}

/// The integer literal `0`, written without a suffix.
pub open spec fn is_zero_lit(e: Expr) -> bool {
    e == Expr::Lit(Lit::Int(0, LitIntType::Unsuffixed))
}

impl IncCleanup {
    /// Whether falling off the end of a tail position means a break to `brk_lbl`.
    pub open spec fn breaks_to_label(self) -> bool {
        self.in_tail != Some(ImplicitReturnType::Main) && self.in_tail != Some(ImplicitReturnType::Void)
    }

    /// The expression whose explicit effect equals the implicit fallthrough.
    pub open spec fn is_implicit_effect(self, e: Expr) -> bool {
        match self.in_tail {
            Some(ImplicitReturnType::Main) => match e {
                Expr::Ret(Some(v)) => is_zero_lit(*v),
                _ => false,
            },
            Some(ImplicitReturnType::Void) => e == Expr::Ret(None),
            _ => e == Expr::Break(Some(self.brk_lbl), None),
        }
    }

    /// A statement that may be dropped from a tail position.
    pub open spec fn is_idempotent(self, stmt: Stmt) -> bool {
        match stmt {
            Stmt::Semi(e) => self.is_implicit_effect(*e),
            Stmt::Expr(_) => false,
        }
    }


    /// Whether the cleanup of `stmts` drops a redundant statement anywhere it looks.
    pub open spec fn seq_removes(self, stmts: Seq<Stmt>) -> bool
        decreases stmts,
    {
        if stmts.len() == 0 {
            false
        } else {
            self.is_idempotent(stmts.last()) || self.stmt_removes(stmts.last())
        }
    }

    /// Whether the cleanup inside the branches of a retained tail statement drops anything.
    pub open spec fn stmt_removes(self, stmt: Stmt) -> bool
        decreases stmt,
    {
        match stmt {
            Stmt::Expr(e) => match *e {
                Expr::If(_, body, els) => self.seq_removes(body.stmts@) || self.else_removes(els),
                Expr::Match(_, arms) => self.arms_remove(arms@),
                _ => false,
            },
            Stmt::Semi(_) => false,
        }
    }

    /// Whether the cleanup of an else-block drops anything.
    pub open spec fn else_removes(self, els: Option<Box<Expr>>) -> bool
        decreases els,
    {
        match els {
            Some(x) => match *x {
                Expr::Block(blk, _) => self.seq_removes(blk.stmts@),
                _ => false,
            },
            None => false,
        }
    }

    /// Whether the cleanup of some dispatch arm's block drops anything.
    pub open spec fn arms_remove(self, arms: Seq<Arm>) -> bool
        decreases arms,
    {
        if arms.len() == 0 {
            false
        } else {
            self.arms_remove(arms.drop_last()) || self.arm_removes(arms.last())
        }
    }

    /// Whether the cleanup of a dispatch arm's block drops anything.
    pub open spec fn arm_removes(self, arm: Arm) -> bool
        decreases arm,
    {
        match *arm.body {
            Expr::Block(blk, _) => self.seq_removes(blk.stmts@),
            _ => false,
        }
    }


    /// A block whose cleanup leaves it without statements.
    pub open spec fn cleans_to_empty(self, stmts: Seq<Stmt>) -> bool {
        stmts.len() == 0 || (stmts.len() == 1 && self.is_idempotent(stmts[0]))
    }

    /// `new` is what the cleanup makes of the statement sequence `old`: a redundant
    /// last statement is dropped, any other last statement is cleaned inside its
    /// branches, and every earlier statement stays as it is.
    pub open spec fn seq_cleaned(self, old: Seq<Stmt>, new: Seq<Stmt>) -> bool
        decreases old,
    {
        if old.len() == 0 {
            new == old
        } else if self.is_idempotent(old.last()) {
            new == old.drop_last()
        } else {
            &&& new.len() == old.len()
            &&& new.drop_last() == old.drop_last()
            &&& self.stmt_cleaned(old.last(), new.last())
        }
    }

    /// `new` is the retained tail statement `old` after its then-block, its else-block
    /// and its dispatch-arm blocks are cleaned and an emptied unlabelled else-block is
    /// dropped. Any other statement stays as it is.
    pub open spec fn stmt_cleaned(self, old: Stmt, new: Stmt) -> bool
        decreases old,
    {
        match old {
            Stmt::Expr(e) => match *e {
                Expr::If(cond, body, els) => match new {
                    Stmt::Expr(e2) => match *e2 {
                        Expr::If(cond2, body2, els2) => {
                            &&& cond2 == cond
                            &&& self.seq_cleaned(body.stmts@, body2.stmts@)
                            &&& self.else_cleaned(els, els2)
                        },
                        _ => false,
                    },
                    Stmt::Semi(_) => false,
                },
                Expr::Match(scrut, arms) => match new {
                    Stmt::Expr(e2) => match *e2 {
                        Expr::Match(scrut2, arms2) => {
                            &&& scrut2 == scrut
                            &&& self.arms_cleaned(arms@, arms2@)
                        },
                        _ => false,
                    },
                    Stmt::Semi(_) => false,
                },
                _ => new == old,
            },
            Stmt::Semi(_) => new == old,
        }
    }

    /// `new` is the else-branch `old` after cleanup: a block is cleaned, and dropped
    /// when it is unlabelled and left empty; any other else-expression stays.
    pub open spec fn else_cleaned(self, old: Option<Box<Expr>>, new: Option<Box<Expr>>) -> bool
        decreases old,
    {
        match old {
            Some(x) => match *x {
                Expr::Block(blk, lbl) => if lbl is None && self.cleans_to_empty(blk.stmts@) {
                    new is None
                } else {
                    match new {
                        Some(y) => match *y {
                            Expr::Block(blk2, lbl2) => lbl2 == lbl && self.seq_cleaned(
                                blk.stmts@,
                                blk2.stmts@,
                            ),
                            _ => false,
                        },
                        None => false,
                    }
                },
                _ => new == old,
            },
            None => new is None,
        }
    }

    /// `new` holds the dispatch arms `old`, each after cleanup.
    pub open spec fn arms_cleaned(self, old: Seq<Arm>, new: Seq<Arm>) -> bool
        decreases old,
    {
        if old.len() == 0 {
            new.len() == 0
        } else {
            &&& new.len() == old.len()
            &&& self.arms_cleaned(old.drop_last(), new.drop_last())
            &&& self.arm_cleaned(old.last(), new.last())
        }
    }

    /// `new` is the dispatch arm `old` after cleanup: a block body is cleaned, any
    /// other body stays.
    pub open spec fn arm_cleaned(self, old: Arm, new: Arm) -> bool
        decreases old,
    {
        &&& new.pat == old.pat
        &&& match *old.body {
            Expr::Block(blk, lbl) => match *new.body {
                Expr::Block(blk2, lbl2) => lbl2 == lbl && self.seq_cleaned(blk.stmts@, blk2.stmts@),
                _ => false,
            },
            _ => new.body == old.body,
        }
    }

    pub fn new(in_tail: Option<ImplicitReturnType>, brk_lbl: Label) -> (r: Self)
        ensures
            r.in_tail == in_tail,
            r.brk_lbl == brk_lbl,
    {
        IncCleanup { in_tail, brk_lbl }
    }

    /// The only way we can say for sure that we don't need a labelled block is if we
    /// remove the (unique) break to that label. We know that the label will be unique
    /// because the relooper never duplicates blocks.
    ///
    /// Returns true if we manage to remove a tail expr, here or in a nested branch.
    pub fn remove_tail_expr(&self, stmts: &mut Vec<Stmt>) -> (removed: bool)
        ensures
            removed == self.seq_removes(old(stmts)@),
            self.seq_cleaned(old(stmts)@, final(stmts)@),
        decreases old(stmts)@,
    {
        let ghost before = stmts@;
        if let Some(stmt) = stmts.pop() {
            // If the very last stmt is a return/break that merely restates the
            // fallthrough, drop it: no label is needed for it any more.
            if self.is_idempotent_tail_expr(&stmt) {
                return true;
            }
            let ghost last = stmt;
            let mut removed_tail_expr = false;
            let stmt = match stmt {
                Stmt::Expr(expr) => {
                    let expr = match *expr {
                        Expr::If(cond, mut body, els) => {
                            assert(decreases_to!(before => body.stmts@));
                            removed_tail_expr = self.remove_tail_expr(&mut body.stmts);
                            let els = match els {
                                Some(e) => match *e {
                                    Expr::Block(mut blk, lbl) => {
                                        assert(decreases_to!(before => blk.stmts@));
                                        let r = self.remove_tail_expr(&mut blk.stmts);
                                        removed_tail_expr = removed_tail_expr || r;
                                        Some(Box::new(Expr::Block(blk, lbl)))
                                    },
                                    other => Some(Box::new(other)),
                                },
                                None => None,
                            };
                            Expr::If(cond, body, els)
                        },
                        Expr::Match(scrut, mut arms) => {
                            assert(decreases_to!(before => arms@));
                            removed_tail_expr = self.remove_arm_tail_exprs(&mut arms);
                            Expr::Match(scrut, arms)
                        },
                        other => other,
                    };
                    Stmt::Expr(Box::new(expr))
                },
                Stmt::Semi(expr) => Stmt::Semi(expr),
            };
            assert(removed_tail_expr == self.stmt_removes(last));
            let stmt = cleanup_if(stmt);
            assert(self.stmt_cleaned(last, stmt));
            // Otherwise the last stmt stays, and the block may still need its label.
            stmts.push(stmt);
            proof {
                assert(stmts@.drop_last() =~= before.drop_last());
            }
            removed_tail_expr
        } else {
            false
        }
    }

    /// Cleans the block body of every arm of a dispatch, in order.
    fn remove_arm_tail_exprs(&self, arms: &mut Vec<Arm>) -> (removed: bool)
        ensures
            removed == self.arms_remove(old(arms)@),
            self.arms_cleaned(old(arms)@, final(arms)@),
        decreases old(arms)@,
    {
        let ghost before = arms@;
        let mut removed = false;
        let mut i: usize = 0;
        while i < arms.len()
            invariant
                before == old(arms)@,
                0 <= i <= arms@.len(),
                arms@.len() == before.len(),
                forall|j: int| i <= j < before.len() ==> arms@[j] == before[j],
                self.arms_cleaned(before.take(i as int), arms@.take(i as int)),
                removed == self.arms_remove(before.take(i as int)),
            decreases before.len() - i,
        {
            let ghost arm0 = arms@[i as int];
            let ghost prev = arms@;
            assert(decreases_to!(before => before[i as int]));
            let mut r = false;
            // Block label can be removed from any arm.
            if let Expr::Block(..) = &*arms[i].body {
                let arm = &mut arms[i];
                if let Expr::Block(blk, _) = &mut *arm.body {
                    assert(decreases_to!(before => blk.stmts@));
                    r = self.remove_tail_expr(&mut blk.stmts);
                }
            }
            assert(self.arm_cleaned(arm0, arms@[i as int]));
            assert(r == self.arm_removes(before[i as int]));
            removed = removed || r;
            assert(before.take(i + 1).drop_last() =~= before.take(i as int));
            assert(arms@.take(i + 1).drop_last() =~= prev.take(i as int));
            i = i + 1;
        }
        assert(before.take(i as int) =~= before);
        assert(arms@.take(i as int) =~= arms@);
        removed
    }

    /// Whether `stmt` restates, as an explicit return or break, what falling
    /// off the end of the tail position already does.
    fn is_idempotent_tail_expr(&self, stmt: &Stmt) -> (r: bool)
        ensures
            r == self.is_idempotent(*stmt),
    {
        let tail_expr = match stmt {
            Stmt::Semi(e) => e,
            Stmt::Expr(_) => return false,
        };
        match self.in_tail {
            Some(ImplicitReturnType::Main) => {
                if let Expr::Ret(Some(zero)) = &**tail_expr {
                    if let Expr::Lit(Lit::Int(v, LitIntType::Unsuffixed)) = &**zero {
                        return *v == 0;
                    }
                }
                false
            },
            Some(ImplicitReturnType::Void) => {
                matches!(&**tail_expr, Expr::Ret(None))
            },
            _ => {
                if let Expr::Break(Some(blbl), None) = &**tail_expr {
                    return *blbl == self.brk_lbl;
                }
                false
            },
        }
    }
}

/// The statement with an empty unlabelled else-block taken off its conditional.
pub open spec fn if_cleaned(stmt: Stmt) -> Stmt {
    match stmt {
        Stmt::Expr(e) => match *e {
            Expr::If(cond, body, Some(x)) => match *x {
                Expr::Block(blk, None) => if blk.stmts@.len() == 0 {
                    Stmt::Expr(Box::new(Expr::If(cond, body, None)))
                } else {
                    stmt
                },
                _ => stmt,
            },
            _ => stmt,
        },
        Stmt::Semi(_) => stmt,
    }
}

/// Remove empty else clauses from if expressions that can arise from
/// removing idempotent statements.
fn cleanup_if(stmt: Stmt) -> (r: Stmt)
    ensures
        r == if_cleaned(stmt),
{
    match stmt {
        Stmt::Expr(expr) => match *expr {
            Expr::If(cond, body, Some(els)) => match *els {
                Expr::Block(blk, None) => {
                    if blk.stmts.len() == 0 {
                        Stmt::Expr(Box::new(Expr::If(cond, body, None)))
                    } else {
                        Stmt::Expr(Box::new(Expr::If(cond, body, Some(Box::new(Expr::Block(blk, None))))))
                    }
                },
                other => Stmt::Expr(Box::new(Expr::If(cond, body, Some(Box::new(other))))),
            },
            other => Stmt::Expr(Box::new(other)),
        },
        Stmt::Semi(expr) => Stmt::Semi(expr),
    }
}

} // verus!
