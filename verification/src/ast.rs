//! Expressions, and the printer that writes one in prefix form.

use crate::number::formats_as;
use crate::object::{value_text, value_view, Object, ObjectView};
use crate::token::{Token, TokenView};
use vstd::prelude::*;
use vstd::string::*;

verus! {

/// An expression. The tree owns its parts and is never changed once built.
#[derive(Debug)]
pub enum Expr {
    Binary { left: Box<Expr>, operator: Token, right: Box<Expr> },
    Grouping { expression: Box<Expr> },
    Literal { value: Option<Object> },
    Unary { operator: Token, right: Box<Expr> },
}

/// What an expression is.
pub enum ExprView {
    Binary { left: Box<ExprView>, operator: TokenView, right: Box<ExprView> },
    Grouping { expression: Box<ExprView> },
    Literal { value: Option<ObjectView> },
    Unary { operator: TokenView, right: Box<ExprView> },
}

/// What the expression `expr` is.
pub open spec fn expr_view(expr: Expr) -> ExprView
    decreases expr,
{
    match expr {
        Expr::Binary { left, operator, right } => ExprView::Binary {
            left: Box::new(expr_view(*left)),
            operator: operator@,
            right: Box::new(expr_view(*right)),
        },
        Expr::Grouping { expression } => ExprView::Grouping {
            expression: Box::new(expr_view(*expression)),
        },
        Expr::Literal { value } => ExprView::Literal { value: value_view(value) },
        Expr::Unary { operator, right } => ExprView::Unary {
            operator: operator@,
            right: Box::new(expr_view(*right)),
        },
    }
}

impl View for Expr {
    type V = ExprView;

    open spec fn view(&self) -> ExprView {
        expr_view(*self)
    }
}

/// The number of nodes on the longest path from the root to a leaf.
pub open spec fn depth(expr: ExprView) -> nat
    decreases expr,
{
    match expr {
        ExprView::Binary { left, operator, right } => 1 + if depth(*left) >= depth(*right) {
            depth(*left)
        } else {
            depth(*right)
        },
        ExprView::Grouping { expression } => 1 + depth(*expression),
        ExprView::Literal { value } => 1,
        ExprView::Unary { operator, right } => 1 + depth(*right),
    }
}

/// Each text of `parts` with a space before it, one after the other.
pub open spec fn spaced(parts: Seq<Seq<char>>) -> Seq<char>
    decreases parts.len(),
{
    if parts.len() == 0 {
        Seq::<char>::empty()
    } else {
        spaced(parts.drop_last()) + seq![' '] + parts.last()
    }
}

/// `(name part part ...)`.
pub open spec fn parenthesized(name: Seq<char>, parts: Seq<Seq<char>>) -> Seq<char> {
    seq!['('] + name + spaced(parts) + seq![')']
}

/// The prefix form of an expression, fully parenthesized: an operator with
/// its operands is `(operator operand ...)`, a grouping is `(group inner)`,
/// a literal is the text of its value. A number is written as `number_text`
/// gives it.
pub open spec fn rendered(expr: ExprView, number_text: spec_fn(u64) -> Seq<char>) -> Seq<char>
    decreases expr,
{
    match expr {
        ExprView::Binary { left, operator, right } => parenthesized(
            operator.lexeme,
            seq![rendered(*left, number_text), rendered(*right, number_text)],
        ),
        ExprView::Grouping { expression } => parenthesized(
            "group"@,
            seq![rendered(*expression, number_text)],
        ),
        ExprView::Literal { value } => value_text(value, number_text),
        ExprView::Unary { operator, right } => parenthesized(
            operator.lexeme,
            seq![rendered(*right, number_text)],
        ),
    }
}

/// The prefix forms of several expressions.
pub open spec fn rendered_all(exprs: Seq<&Expr>, number_text: spec_fn(u64) -> Seq<char>) -> Seq<
    Seq<char>,
> {
    exprs.map_values(|e: &Expr| rendered(e@, number_text))
}

/// One more than the depth of the deepest of `exprs`.
pub open spec fn depth_above(exprs: Seq<&Expr>) -> nat
    decreases exprs.len(),
{
    if exprs.len() == 0 {
        1
    } else if depth_above(exprs.drop_last()) > depth(exprs.last()@) {
        depth_above(exprs.drop_last())
    } else {
        1 + depth(exprs.last()@)
    }
}

/// Every one of `exprs` is less deep than `depth_above` says.
pub proof fn lemma_depth_above(exprs: Seq<&Expr>, i: int)
    requires
        0 <= i < exprs.len(),
    ensures
        depth(exprs[i]@) < depth_above(exprs),
    decreases exprs.len(),
{
    if i < exprs.len() - 1 {
        lemma_depth_above(exprs.drop_last(), i);
    }
}

/// With one expression, `depth_above` is one more than its depth.
pub proof fn lemma_depth_above_one(exprs: Seq<&Expr>)
    requires
        exprs.len() == 1,
    ensures
        depth_above(exprs) == 1 + depth(exprs[0]@),
{
    assert(exprs.drop_last() =~= Seq::<&Expr>::empty());
    assert(depth_above(exprs.drop_last()) == 1);
}

/// With two expressions, `depth_above` is one more than the depth of the
/// deeper one.
pub proof fn lemma_depth_above_two(exprs: Seq<&Expr>)
    requires
        exprs.len() == 2,
    ensures
        depth_above(exprs) == 1 + if depth(exprs[0]@) >= depth(exprs[1]@) {
            depth(exprs[0]@)
        } else {
            depth(exprs[1]@)
        },
{
    lemma_depth_above_one(exprs.drop_last());
}

/// Writes expressions in prefix form. `format_number` writes a number.
pub struct ExprPrinter<F> {
    pub format_number: F,
}

impl<F: Fn(u64) -> String> ExprPrinter<F> {
    /// Whether every number may be handed to `format_number`.
    pub open spec fn usable(&self) -> bool {
        forall|bits: u64| call_requires(self.format_number, (bits,))
    }

    /// A printer that writes numbers with `format_number`.
    pub fn new(format_number: F) -> (printer: Self)
        ensures
            printer.format_number == format_number,
    {
        ExprPrinter { format_number }
    }

    /// The prefix form of `expr`.
    pub fn print(&self, expr: &Expr) -> (text: String)
        requires
            self.usable(),
        ensures
            forall|model: spec_fn(u64) -> Seq<char>|
                formats_as(self.format_number, model) ==> text@ == #[trigger] rendered(
                    expr@,
                    model,
                ),
        decreases depth(expr@), 1nat,
    {
        match expr {
            Expr::Binary { left, operator, right } => {
                let operands: [&Expr; 2] = [&**left, &**right];
                proof {
                    lemma_depth_above_two(operands@);
                }
                let text = self.parenthesize(operator.lexeme.as_str(), operands.as_slice());
                proof {
                    assert forall|model: spec_fn(u64) -> Seq<char>|
                        formats_as(self.format_number, model) implies text@ == #[trigger] rendered(
                        expr@,
                        model,
                    ) by {
                        assert(rendered_all(operands@, model) =~= seq![
                            rendered(left@, model),
                            rendered(right@, model),
                        ]);
                    }
                }
                text
            },
            Expr::Grouping { expression } => {
                let operands: [&Expr; 1] = [&**expression];
                proof {
                    lemma_depth_above_one(operands@);
                }
                let text = self.parenthesize("group", operands.as_slice());
                proof {
                    assert forall|model: spec_fn(u64) -> Seq<char>|
                        formats_as(self.format_number, model) implies text@ == #[trigger] rendered(
                        expr@,
                        model,
                    ) by {
                        assert(rendered_all(operands@, model) =~= seq![
                            rendered(expression@, model),
                        ]);
                    }
                }
                text
            },
            Expr::Literal { value } => match value {
                None => String::from_str("nil"),
                Some(object) => object.to_text(&self.format_number),
            },
            Expr::Unary { operator, right } => {
                let operands: [&Expr; 1] = [&**right];
                proof {
                    lemma_depth_above_one(operands@);
                }
                let text = self.parenthesize(operator.lexeme.as_str(), operands.as_slice());
                proof {
                    assert forall|model: spec_fn(u64) -> Seq<char>|
                        formats_as(self.format_number, model) implies text@ == #[trigger] rendered(
                        expr@,
                        model,
                    ) by {
                        assert(rendered_all(operands@, model) =~= seq![rendered(right@, model)]);
                    }
                }
                text
            },
        }
    }

    /// `(name operand operand ...)`, each operand in its prefix form.
    pub fn parenthesize(&self, name: &str, exprs: &[&Expr]) -> (text: String)
        requires
            self.usable(),
        ensures
            forall|model: spec_fn(u64) -> Seq<char>|
                formats_as(self.format_number, model) ==> text@ == parenthesized(
                    name@,
                    #[trigger] rendered_all(exprs@, model),
                ),
        decreases depth_above(exprs@), 0nat,
    {
        let mut text = String::from_str("(");
        text.append(name);
        let mut i: usize = 0;
        proof {
            reveal_strlit("(");
            assert forall|model: spec_fn(u64) -> Seq<char>|
                formats_as(self.format_number, model) implies text@ == seq!['('] + name@ + spaced(
                    #[trigger] rendered_all(exprs@, model).take(i as int),
                ) by {
                assert(text@ =~= seq!['('] + name@ + spaced(
                    rendered_all(exprs@, model).take(i as int),
                ));
            }
        }
        while i < exprs.len()
            invariant
                self.usable(),
                i <= exprs.len(),
                forall|model: spec_fn(u64) -> Seq<char>|
                    formats_as(self.format_number, model) ==> text@ == seq!['('] + name@ + spaced(
                        #[trigger] rendered_all(exprs@, model).take(i as int),
                    ),
            decreases exprs.len() - i,
        {
            proof {
                lemma_depth_above(exprs@, i as int);
            }
            let part = self.print(exprs[i]);
            let ghost before = text@;
            text.push(' ');
            text.append(part.as_str());
            proof {
                assert forall|model: spec_fn(u64) -> Seq<char>|
                    formats_as(self.format_number, model) implies text@ == seq!['('] + name@
                    + spaced(#[trigger] rendered_all(exprs@, model).take(i + 1)) by {
                    let all = rendered_all(exprs@, model);
                    assert(part@ == rendered(exprs@[i as int]@, model));
                    assert(all.take(i + 1).drop_last() =~= all.take(i as int));
                    assert(all.take(i + 1).last() == part@);
                    assert(text@ =~= seq!['('] + name@ + spaced(all.take(i + 1)));
                }
            }
            i += 1;
        }
        text.push(')');
        proof {
            assert forall|model: spec_fn(u64) -> Seq<char>|
                formats_as(self.format_number, model) implies text@ == parenthesized(
                name@,
                #[trigger] rendered_all(exprs@, model),
            ) by {
                let all = rendered_all(exprs@, model);
                assert(all.take(exprs.len() as int) =~= all);
            }
        }
        text
    }
}

} // verus!
