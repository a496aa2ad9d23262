//! Code emission: walking the abstract syntax tree and rendering C source
//! text, in input order, with correct nested indentation.
//!
//! An explicit indentation-depth counter is incremented on entering a block
//! body and decremented on leaving it.  What the emitter produces is pinned
//! down, character for character, by the `sv_*` specification functions
//! below.

use vstd::prelude::*;
use vstd::string::*;

use crate::parser::{
    AddOp, Comparison, Expression, ExpressionOp, Identifier, MulOp, PrintOption, RelOp,
    SpecComparison, SpecExpression, SpecPrimary, SpecPrintOption, SpecStatement, SpecTerm,
    SpecUnary, Statement, Term, TermOp, Unary, Primary, lemma_statements_view_index,
    lemma_statements_view_subrange_push, spec_statements_view,
};
use crate::strutil::{i64_to_string, push_char, spec_idec_str};

verus! {

/// The explicit indentation-depth counter threaded through nested block
/// emission.
pub struct Indent {
    indent_level: usize,
}

/// One tab character for each level of `n`.
pub open spec fn spec_tabs(n: int) -> Seq<char>
    decreases n,
{
    if n <= 0 {
        Seq::empty()
    } else {
        spec_tabs(n - 1).push('\t')
    }
}

impl Indent {
    /// The current indentation depth.
    pub closed spec fn level(&self) -> int {
        self.indent_level as int
    }

    pub fn new() -> (r: Indent)
        ensures
            r.level() == 0,
    {
        Indent { indent_level: 0 }
    }

    pub fn increase(&mut self)
        requires
            old(self).level() < usize::MAX,
        ensures
            final(self).level() == old(self).level() + 1,
    {
        self.indent_level += 1;
    }

    /// Steps one level out; the counter never goes below zero.
    pub fn decrease(&mut self)
        ensures
            final(self).level() == if old(self).level() > 0 {
                old(self).level() - 1
            } else {
                0
            },
    {
        if self.indent_level > 0 {
            self.indent_level -= 1;
        }
    }

    /// The indentation prefix for the current depth: one tab per level.
    pub fn current_indent(&self) -> (s: String)
        ensures
            s@ == spec_tabs(self.level()),
    {
        let mut s = String::new();
        let mut k: usize = 0;
        while k < self.indent_level
            invariant
                k <= self.indent_level,
                s@ == spec_tabs(k as int),
            decreases self.indent_level - k,
        {
            push_char(&mut s, '\t');
            k += 1;
        }
        s
    }
}

/// The rendering of a primary: the decimal literal or the identifier name.
pub open spec fn sv_primary(p: SpecPrimary) -> Seq<char> {
    match p {
        SpecPrimary::Number(n) => spec_idec_str(n as int),
        SpecPrimary::Ident(id) => id,
    }
}

/// The rendering of a unary: the sign, if any, directly prefixed.
pub open spec fn sv_unary(u: SpecUnary) -> Seq<char> {
    match u {
        SpecUnary::Positive(p) => "+"@ + sv_primary(p),
        SpecUnary::Negative(p) => "-"@ + sv_primary(p),
        SpecUnary::UnSigned(p) => sv_primary(p),
    }
}

/// The rendering of a term's `*`/`/` continuations, in source order.
pub open spec fn sv_term_rest(rest: Seq<(MulOp, SpecUnary)>) -> Seq<char>
    decreases rest.len(),
{
    if rest.len() == 0 {
        Seq::empty()
    } else {
        (if rest[0].0 == MulOp::Multiply {
            " * "@
        } else {
            " / "@
        }) + sv_unary(rest[0].1) + sv_term_rest(rest.drop_first())
    }
}

/// The parenthesis-free infix rendering of a term.
pub open spec fn sv_term(t: SpecTerm) -> Seq<char> {
    sv_unary(t.first) + sv_term_rest(t.rest)
}

/// The rendering of an expression's `+`/`-` continuations, in source order.
pub open spec fn sv_expression_rest(rest: Seq<(AddOp, SpecTerm)>) -> Seq<char>
    decreases rest.len(),
{
    if rest.len() == 0 {
        Seq::empty()
    } else {
        (if rest[0].0 == AddOp::Plus {
            " + "@
        } else {
            " - "@
        }) + sv_term(rest[0].1) + sv_expression_rest(rest.drop_first())
    }
}

/// The parenthesis-free infix rendering of an expression, following the
/// tree's right-leaning shape exactly: no re-association.
pub open spec fn sv_expression(e: SpecExpression) -> Seq<char> {
    sv_term(e.first) + sv_expression_rest(e.rest)
}

/// The C spelling of a relational operator.
pub open spec fn sv_relop(op: RelOp) -> Seq<char> {
    match op {
        RelOp::GreaterThan => ">"@,
        RelOp::GreaterThanEquals => ">="@,
        RelOp::LessThan => "<"@,
        RelOp::LessThanEquals => "<="@,
        RelOp::EqualsEquals => "=="@,
        RelOp::NotEquals => "!="@,
    }
}

/// The rendering of a comparison.
pub open spec fn sv_comparison(c: SpecComparison) -> Seq<char> {
    sv_expression(c.lhs) + " "@ + sv_relop(c.op) + " "@ + sv_expression(c.rhs)
}

/// The rendering of a `print` statement body: a direct string write for a
/// literal, a two-fractional-digit float write for an expression.
pub open spec fn sv_print(o: SpecPrintOption) -> Seq<char> {
    match o {
        SpecPrintOption::Literal(s) => "printf(\""@ + s + "\");"@,
        SpecPrintOption::Expr(e) => "printf(\"%.2f\\n\", (float)("@ + sv_expression(e) + "));"@,
    }
}

/// The rendering of a `let` statement body: a mutable float local
/// initialized at the point of declaration.
pub open spec fn sv_let(id: Seq<char>, e: SpecExpression) -> Seq<char> {
    "float "@ + id + " = "@ + sv_expression(e) + ";"@
}

/// The rendering of an assignment body.
pub open spec fn sv_assign(id: Seq<char>, e: SpecExpression) -> Seq<char> {
    id + " = "@ + sv_expression(e) + ";"@
}

/// The rendering of an `input` statement body: declare the variable,
/// attempt a formatted read, and on failure zero the variable and discard
/// exactly one malformed input token.
pub open spec fn sv_input(id: Seq<char>, ind: int) -> Seq<char> {
    "float "@ + id + ";\n"@ + spec_tabs(ind) + "if(0==scanf(\"%f\", &"@ + id + ")) {\n"@
        + spec_tabs(ind) + "\t"@ + id + " = 0;\n"@ + spec_tabs(ind) + "\tscanf(\"%*s\");\n"@
        + spec_tabs(ind) + "}"@
}

/// The rendering of one statement at indentation depth `ind`: the
/// indentation prefix, the statement body, and a newline.
pub open spec fn sv_statement(s: SpecStatement, ind: int) -> Seq<char>
    decreases s,
{
    spec_tabs(ind) + (match s {
        SpecStatement::Print { option } => sv_print(option),
        SpecStatement::If { comparison, statements } => "if ("@ + sv_comparison(comparison)
            + ") {\n"@ + sv_block(statements, ind + 1) + spec_tabs(ind) + "}"@,
        SpecStatement::While { comparison, statements } => "while ("@ + sv_comparison(comparison)
            + ") {\n"@ + sv_block(statements, ind + 1) + spec_tabs(ind) + "}"@,
        SpecStatement::Let { identifier, expression } => sv_let(identifier, expression),
        SpecStatement::Input { identifier } => sv_input(identifier, ind),
        SpecStatement::Assign { identifier, expression } => sv_assign(identifier, expression),
    }) + "\n"@
}

/// The rendering of a block body: each statement in order, one level
/// deeper than the construct that owns it.
pub open spec fn sv_block(q: Seq<SpecStatement>, ind: int) -> Seq<char>
    decreases q,
{
    if q.len() == 0 {
        Seq::empty()
    } else {
        sv_statement(q[0], ind) + sv_block(q.drop_first(), ind)
    }
}

/// The fixed boilerplate the emitted program starts with.
pub open spec fn sv_header() -> Seq<char> {
    "#incl"@ + "ude <stdio.h>\nint main(void){\n"@
}

/// The full emitted program: the boilerplate wrapper around the statement
/// sequence at one level of indentation, and a trailing success return.
pub open spec fn sv_program(stmts: Seq<SpecStatement>) -> Seq<char> {
    sv_header() + sv_block(stmts, 1) + "\treturn 0;\n}\n"@
}

/// The nesting depth of one statement: how far the indentation counter
/// rises while it is emitted.
pub open spec fn sv_height(s: SpecStatement) -> nat
    decreases s,
{
    match s {
        SpecStatement::If { comparison: _, statements } => 1 + sv_block_height(statements),
        SpecStatement::While { comparison: _, statements } => 1 + sv_block_height(statements),
        _ => 1,
    }
}

/// The nesting depth of a block body.
pub open spec fn sv_block_height(q: Seq<SpecStatement>) -> nat
    decreases q,
{
    if q.len() == 0 {
        0
    } else if sv_height(q[0]) >= sv_block_height(q.drop_first()) {
        sv_height(q[0])
    } else {
        sv_block_height(q.drop_first())
    }
}

/// Every statement of a block is within the block's nesting depth.
proof fn lemma_sv_block_height_ge(q: Seq<SpecStatement>, i: int)
    requires
        0 <= i < q.len(),
    ensures
        sv_height(q[i]) <= sv_block_height(q),
    decreases q.len(),
{
    if i > 0 {
        lemma_sv_block_height_ge(q.drop_first(), i - 1);
    }
}

/// Rendering a block one statement longer appends that statement's text.
proof fn lemma_sv_block_snoc(q: Seq<SpecStatement>, x: SpecStatement, ind: int)
    ensures
        sv_block(q.push(x), ind) == sv_block(q, ind) + sv_statement(x, ind),
    decreases q.len(),
{
    if q.len() == 0 {
        assert(q.push(x)[0] == x);
        assert(q.push(x).drop_first() =~= Seq::<SpecStatement>::empty());
        assert(sv_block(q.push(x), ind) == sv_statement(x, ind) + sv_block(
            Seq::<SpecStatement>::empty(),
            ind,
        ));
        assert(sv_block(q.push(x), ind) =~= sv_statement(x, ind));
        assert(sv_block(q, ind) + sv_statement(x, ind) =~= sv_statement(x, ind));
    } else {
        lemma_sv_block_snoc(q.drop_first(), x, ind);
        assert(q.push(x)[0] == q[0]);
        assert(q.push(x).drop_first() =~= q.drop_first().push(x));
        assert(sv_block(q.push(x), ind) == sv_statement(q[0], ind) + sv_block(
            q.drop_first().push(x),
            ind,
        ));
        assert(sv_statement(q[0], ind) + (sv_block(q.drop_first(), ind) + sv_statement(x, ind))
            =~= (sv_statement(q[0], ind) + sv_block(q.drop_first(), ind)) + sv_statement(x, ind));
        assert(sv_block(q.push(x), ind) =~= sv_block(q, ind) + sv_statement(x, ind));
    }
}

/// The emitter: the statement sequence to render, the output text buffer
/// it exclusively owns, and the indentation counter.
pub struct CEmitter {
    statements: Vec<Statement>,
    code: String,
    indentor: Indent,
}

impl CEmitter {
    /// The models of the statements to emit.
    pub closed spec fn program(&self) -> Seq<SpecStatement> {
        spec_statements_view(self.statements@)
    }

    /// An emitter that has not emitted anything yet.
    pub closed spec fn fresh(&self) -> bool {
        self.code@ == Seq::<char>::empty() && self.indentor.level() == 0
    }

    /// Builds an emitter over the parsed program.
    pub fn new(program: Vec<Statement>) -> (r: CEmitter)
        ensures
            r.program() == spec_statements_view(program@),
            r.fresh(),
    {
        CEmitter { statements: program, code: String::new(), indentor: Indent::new() }
    }

    /// Renders the whole program: the boilerplate wrapper, each statement
    /// in input order at one level of indentation, and the trailing
    /// success return.
    pub fn emit(self) -> (code: String)
        requires
            self.fresh(),
            1 + sv_block_height(self.program()) <= usize::MAX,
        ensures
            code@ == sv_program(self.program()),
    {
        let mut this = self;
        let ghost stmts = this.statements@;
        this.code.append("#incl");
        this.code.append("ude <stdio.h>\nint main(void){\n");
        this.indentor.increase();
        let mut i: usize = 0;
        while i < this.statements.len()
            invariant
                i <= this.statements@.len(),
                this.statements@ == stmts,
                this.indentor.level() == 1,
                1 + sv_block_height(spec_statements_view(stmts)) <= usize::MAX,
                this.code@ == sv_header() + sv_block(
                    spec_statements_view(stmts.subrange(0, i as int)),
                    1,
                ),
            decreases this.statements@.len() - i,
        {
            proof {
                lemma_statements_view_index(stmts, i as int);
                lemma_sv_block_height_ge(spec_statements_view(stmts), i as int);
            }
            let s = Self::emit_statement(&this.statements[i], &mut this.indentor);
            this.code.append(s.as_str());
            proof {
                lemma_statements_view_subrange_push(stmts, i as int);
                lemma_sv_block_snoc(
                    spec_statements_view(stmts.subrange(0, i as int)),
                    stmts[i as int]@,
                    1,
                );
            }
            i += 1;
        }
        proof {
            assert(stmts.subrange(0, stmts.len() as int) =~= stmts);
        }
        this.code.append("\treturn 0;\n}\n");
        proof {
            assert(this.code@ =~= sv_program(spec_statements_view(stmts)));
        }
        this.code
    }

    /// Renders one statement at the counter's current depth: the
    /// indentation prefix, the statement body, and a newline.
    fn emit_statement(statement: &Statement, indent: &mut Indent) -> (r: String)
        requires
            old(indent).level() + sv_height(statement@) <= usize::MAX,
        ensures
            final(indent).level() == old(indent).level(),
            r@ == sv_statement(statement@, old(indent).level()),
        decreases statement,
    {
        let mut emit = indent.current_indent();
        match statement {
            Statement::Print { option } => {
                let s = Self::emit_print(option);
                emit.append(s.as_str());
            },
            Statement::If { comparison, statements } => {
                let s = Self::emit_if(comparison, statements.as_slice(), indent);
                emit.append(s.as_str());
            },
            Statement::While { comparison, statements } => {
                let s = Self::emit_while(comparison, statements.as_slice(), indent);
                emit.append(s.as_str());
            },
            Statement::Let { identifier, expression } => {
                let s = Self::emit_let(identifier, expression);
                emit.append(s.as_str());
            },
            Statement::Input { identifier } => {
                let s = Self::emit_input(identifier, indent);
                emit.append(s.as_str());
            },
            Statement::Assign { identifier, expression } => {
                let s = Self::emit_assign(identifier, expression);
                emit.append(s.as_str());
            },
        }
        emit.append("\n");
        proof {
            assert(emit@ =~= sv_statement(statement@, old(indent).level()));
        }
        emit
    }

    /// Renders a conditional: the comparison header, the body one level
    /// deeper, and the closing brace back at the construct's own level.
    fn emit_if(comparison: &Comparison, statements: &[Statement], indent: &mut Indent) -> (r:
        String)
        requires
            old(indent).level() + 1 + sv_block_height(spec_statements_view(statements@))
                <= usize::MAX,
        ensures
            final(indent).level() == old(indent).level(),
            r@ == "if ("@ + sv_comparison(comparison@) + ") {\n"@ + sv_block(
                spec_statements_view(statements@),
                old(indent).level() + 1,
            ) + spec_tabs(old(indent).level()) + "}"@,
        decreases statements@,
    {
        let mut emit = String::from_str("if (");
        let cmp = Self::emit_comparison(comparison);
        emit.append(cmp.as_str());
        emit.append(") {\n");
        indent.increase();
        let ghost q = statements@;
        let ghost lvl = old(indent).level();
        let mut i: usize = 0;
        while i < statements.len()
            invariant
                i <= q.len(),
                statements@ == q,
                indent.level() == lvl + 1,
                lvl + 1 + sv_block_height(spec_statements_view(q)) <= usize::MAX,
                emit@ == "if ("@ + sv_comparison(comparison@) + ") {\n"@ + sv_block(
                    spec_statements_view(q.subrange(0, i as int)),
                    lvl + 1,
                ),
            decreases q.len() - i,
        {
            proof {
                lemma_statements_view_index(q, i as int);
                lemma_sv_block_height_ge(spec_statements_view(q), i as int);
            }
            let s = Self::emit_statement(&statements[i], indent);
            emit.append(s.as_str());
            proof {
                lemma_statements_view_subrange_push(q, i as int);
                lemma_sv_block_snoc(
                    spec_statements_view(q.subrange(0, i as int)),
                    q[i as int]@,
                    lvl + 1,
                );
            }
            i += 1;
        }
        proof {
            assert(q.subrange(0, q.len() as int) =~= q);
        }
        indent.decrease();
        let ti = indent.current_indent();
        emit.append(ti.as_str());
        emit.append("}");
        emit
    }

    /// Renders a loop: the comparison header, the body one level deeper,
    /// and the closing brace back at the construct's own level.
    fn emit_while(comparison: &Comparison, statements: &[Statement], indent: &mut Indent) -> (r:
        String)
        requires
            old(indent).level() + 1 + sv_block_height(spec_statements_view(statements@))
                <= usize::MAX,
        ensures
            final(indent).level() == old(indent).level(),
            r@ == "while ("@ + sv_comparison(comparison@) + ") {\n"@ + sv_block(
                spec_statements_view(statements@),
                old(indent).level() + 1,
            ) + spec_tabs(old(indent).level()) + "}"@,
        decreases statements@,
    {
        let mut emit = String::from_str("while (");
        let cmp = Self::emit_comparison(comparison);
        emit.append(cmp.as_str());
        emit.append(") {\n");
        indent.increase();
        let ghost q = statements@;
        let ghost lvl = old(indent).level();
        let mut i: usize = 0;
        while i < statements.len()
            invariant
                i <= q.len(),
                statements@ == q,
                indent.level() == lvl + 1,
                lvl + 1 + sv_block_height(spec_statements_view(q)) <= usize::MAX,
                emit@ == "while ("@ + sv_comparison(comparison@) + ") {\n"@ + sv_block(
                    spec_statements_view(q.subrange(0, i as int)),
                    lvl + 1,
                ),
            decreases q.len() - i,
        {
            proof {
                lemma_statements_view_index(q, i as int);
                lemma_sv_block_height_ge(spec_statements_view(q), i as int);
            }
            let s = Self::emit_statement(&statements[i], indent);
            emit.append(s.as_str());
            proof {
                lemma_statements_view_subrange_push(q, i as int);
                lemma_sv_block_snoc(
                    spec_statements_view(q.subrange(0, i as int)),
                    q[i as int]@,
                    lvl + 1,
                );
            }
            i += 1;
        }
        proof {
            assert(q.subrange(0, q.len() as int) =~= q);
        }
        indent.decrease();
        let ti = indent.current_indent();
        emit.append(ti.as_str());
        emit.append("}");
        emit
    }

    /// Renders a `print` body: a direct string write for a literal, a
    /// two-fractional-digit float write for an expression.
    fn emit_print(print_option: &PrintOption) -> (r: String)
        ensures
            r@ == sv_print(print_option@),
    {
        match print_option {
            PrintOption::PrintLiteral(s) => {
                let mut emit = String::from_str("printf(\"");
                emit.append(s.as_str());
                emit.append("\");");
                proof {
                    assert(emit@ =~= sv_print(print_option@));
                }
                emit
            },
            PrintOption::PrintExpression(e) => {
                let mut emit = String::from_str("printf(\"%.2f\\n\", (float)(");
                let x = Self::emit_expression(e);
                emit.append(x.as_str());
                emit.append("));");
                proof {
                    assert(emit@ =~= sv_print(print_option@));
                }
                emit
            },
        }
    }

    /// Renders a `let` body.
    fn emit_let(identifier: &Identifier, expression: &Expression) -> (r: String)
        ensures
            r@ == sv_let(identifier.id@, expression@),
    {
        let mut emit = String::from_str("float ");
        emit.append(identifier.id.as_str());
        emit.append(" = ");
        let x = Self::emit_expression(expression);
        emit.append(x.as_str());
        emit.append(";");
        proof {
            assert(emit@ =~= sv_let(identifier.id@, expression@));
        }
        emit
    }

    /// Renders an `input` body: declare, read, and recover from a
    /// malformed input token by zeroing the variable and discarding it.
    fn emit_input(identifier: &Identifier, indent: &mut Indent) -> (r: String)
        ensures
            final(indent).level() == old(indent).level(),
            r@ == sv_input(identifier.id@, old(indent).level()),
    {
        let mut emit = String::from_str("float ");
        emit.append(identifier.id.as_str());
        emit.append(";\n");
        let t1 = indent.current_indent();
        emit.append(t1.as_str());
        emit.append("if(0==scanf(\"%f\", &");
        emit.append(identifier.id.as_str());
        emit.append(")) {\n");
        let t2 = indent.current_indent();
        emit.append(t2.as_str());
        emit.append("\t");
        emit.append(identifier.id.as_str());
        emit.append(" = 0;\n");
        let t3 = indent.current_indent();
        emit.append(t3.as_str());
        emit.append("\tscanf(\"%*s\");\n");
        let t4 = indent.current_indent();
        emit.append(t4.as_str());
        emit.append("}");
        proof {
            assert(emit@ =~= sv_input(identifier.id@, old(indent).level()));
        }
        emit
    }

    /// Renders an assignment body.
    fn emit_assign(identifier: &Identifier, expression: &Expression) -> (r: String)
        ensures
            r@ == sv_assign(identifier.id@, expression@),
    {
        let mut emit = String::new();
        emit.append(identifier.id.as_str());
        emit.append(" = ");
        let x = Self::emit_expression(expression);
        emit.append(x.as_str());
        emit.append(";");
        proof {
            assert(emit@ =~= sv_assign(identifier.id@, expression@));
        }
        emit
    }

    /// Renders a comparison: the two expressions around the operator.
    fn emit_comparison(comparison: &Comparison) -> (r: String)
        ensures
            r@ == sv_comparison(comparison@),
    {
        let (lhs, rhs, sign): (&Expression, &Expression, &str) = match comparison {
            Comparison::GreaterThan { lhs, rhs } => (lhs, rhs, ">"),
            Comparison::GreaterThanEquals { lhs, rhs } => (lhs, rhs, ">="),
            Comparison::LessThan { lhs, rhs } => (lhs, rhs, "<"),
            Comparison::LessThanEquals { lhs, rhs } => (lhs, rhs, "<="),
            Comparison::EqualsEquals { lhs, rhs } => (lhs, rhs, "=="),
            Comparison::NotEquals { lhs, rhs } => (lhs, rhs, "!="),
        };
        let mut emit = Self::emit_expression(lhs);
        emit.append(" ");
        emit.append(sign);
        emit.append(" ");
        let x = Self::emit_expression(rhs);
        emit.append(x.as_str());
        proof {
            assert(emit@ =~= sv_comparison(comparison@));
        }
        emit
    }

    /// Renders an expression following the tree's right-leaning shape.
    fn emit_expression(expression: &Expression) -> (r: String)
        ensures
            r@ == sv_expression(expression@),
        decreases expression,
    {
        let mut emit = Self::emit_term(&expression.lhs);
        match &*expression.rhs {
            Some(ExpressionOp::Plus(e)) => {
                emit.append(" + ");
                let s = Self::emit_expression(e);
                emit.append(s.as_str());
                proof {
                    assert((seq![(AddOp::Plus, e@.first)] + e@.rest).drop_first() =~= e@.rest);
                    assert(emit@ =~= sv_expression(expression@));
                }
            },
            Some(ExpressionOp::Minus(e)) => {
                emit.append(" - ");
                let s = Self::emit_expression(e);
                emit.append(s.as_str());
                proof {
                    assert((seq![(AddOp::Minus, e@.first)] + e@.rest).drop_first() =~= e@.rest);
                    assert(emit@ =~= sv_expression(expression@));
                }
            },
            None => {
                proof {
                    assert(emit@ =~= sv_expression(expression@));
                }
            },
        }
        emit
    }

    /// Renders a term following the tree's right-leaning shape.
    fn emit_term(term: &Term) -> (r: String)
        ensures
            r@ == sv_term(term@),
        decreases term,
    {
        let mut emit = Self::emit_unary(&term.lhs);
        match &*term.rhs {
            Some(TermOp::Multiply(t)) => {
                emit.append(" * ");
                let s = Self::emit_term(t);
                emit.append(s.as_str());
                proof {
                    assert((seq![(MulOp::Multiply, t@.first)] + t@.rest).drop_first() =~= t@.rest);
                    assert(emit@ =~= sv_term(term@));
                }
            },
            Some(TermOp::Divide(t)) => {
                emit.append(" / ");
                let s = Self::emit_term(t);
                emit.append(s.as_str());
                proof {
                    assert((seq![(MulOp::Divide, t@.first)] + t@.rest).drop_first() =~= t@.rest);
                    assert(emit@ =~= sv_term(term@));
                }
            },
            None => {
                proof {
                    assert(emit@ =~= sv_term(term@));
                }
            },
        }
        emit
    }

    /// Renders a unary: the sign, if any, directly prefixed.
    fn emit_unary(unary: &Unary) -> (r: String)
        ensures
            r@ == sv_unary(unary@),
    {
        match unary {
            Unary::Positive(p) => {
                let mut emit = String::from_str("+");
                let s = Self::emit_primary(p);
                emit.append(s.as_str());
                emit
            },
            Unary::Negative(p) => {
                let mut emit = String::from_str("-");
                let s = Self::emit_primary(p);
                emit.append(s.as_str());
                emit
            },
            Unary::UnSigned(p) => Self::emit_primary(p),
        }
    }

    /// Renders a primary: the decimal literal or the identifier name.
    fn emit_primary(primary: &Primary) -> (r: String)
        ensures
            r@ == sv_primary(primary@),
    {
        match primary {
            Primary::LiteralNumber(n) => i64_to_string(*n),
            Primary::IdentifierExpression(id) => id.id.clone(),
        }
    }
}

} // verus!
