//! Writing the Verilog text of a combinatorial block: each expression is
//! written on the current line, each statement ends its lines, blocks are
//! wrapped in `begin` and `end` one level deeper, and loops are unrolled
//! with their index bound to each value in turn.
use crate::hdl_core::ast::{
    mask_hex, radix_digits, VerilogBlockOrConditional, VerilogCase, VerilogExpression, VerilogLink,
    VerilogLoop, VerilogOp, VerilogOpUnary, VerilogStatement,
};
use crate::hdl_core::code_writer::Pen;
use crate::hdl_core::ident_fixup::{
    fixed_ident, index_evaluates, loops_view, plain_ident, LoopVariable, VerilogCodeGenerator,
};
use crate::text::decimal::{decimal_digits, decimal_string};
use vstd::arithmetic::power2::*;
use vstd::prelude::*;

verus! {

/// The text of a binary operator.
pub open spec fn op_text(o: VerilogOp) -> Seq<char> {
    match o {
        VerilogOp::Add => "+"@,
        VerilogOp::Sub => "-"@,
        VerilogOp::Mul => "*"@,
        VerilogOp::LogicalAnd => "&&"@,
        VerilogOp::LogicalOr => "||"@,
        VerilogOp::BitXor => "^"@,
        VerilogOp::BitAnd => "&"@,
        VerilogOp::BitOr => "|"@,
        VerilogOp::Shl => "<<"@,
        VerilogOp::Shr => ">>"@,
        VerilogOp::Eq => "=="@,
        VerilogOp::Lt => "<"@,
        VerilogOp::Le => "<="@,
        VerilogOp::Ne => "!="@,
        VerilogOp::Ge => ">="@,
        VerilogOp::Gt => ">"@,
    }
}

/// The text of a unary operator.
pub open spec fn unop_text(o: VerilogOpUnary) -> Seq<char> {
    match o {
        VerilogOpUnary::Not => "~"@,
        VerilogOpUnary::Neg => "-"@,
        VerilogOpUnary::All => "&"@,
        VerilogOpUnary::Any => "|"@,
        VerilogOpUnary::Xor => "^"@,
    }
}

/// Each signal of the expression has a name that can be made a Verilog
/// identifier under the given loop indices.
pub open spec fn expr_ok(e: VerilogExpression, lv: Seq<(Seq<char>, usize)>) -> bool
    decreases e,
{
    match e {
        VerilogExpression::Signal(s) => index_evaluates(plain_ident(s@, lv), lv),
        VerilogExpression::Literal(_) => true,
        VerilogExpression::Cast(a, _) => expr_ok(*a, lv),
        VerilogExpression::Paren(a) => expr_ok(*a, lv),
        VerilogExpression::Binary(a, _, b) => expr_ok(*a, lv) && expr_ok(*b, lv),
        VerilogExpression::Unary(_, a) => expr_ok(*a, lv),
        VerilogExpression::Index(a, b) => expr_ok(*a, lv) && expr_ok(*b, lv),
        VerilogExpression::Slice(a, _, b) => expr_ok(*a, lv) && expr_ok(*b, lv),
        VerilogExpression::IndexReplace(a, b, c) => expr_ok(*a, lv) && expr_ok(*b, lv) && expr_ok(
            *c,
            lv,
        ),
    }
}

/// The Verilog text of an expression under the given loop indices.
pub open spec fn expr_text(e: VerilogExpression, lv: Seq<(Seq<char>, usize)>) -> Seq<char>
    decreases e,
{
    match e {
        VerilogExpression::Signal(s) => fixed_ident(s@, lv),
        VerilogExpression::Literal(l) => l.text(),
        VerilogExpression::Cast(a, bits) => "("@ + expr_text(*a, lv) + ") & "@ + decimal_digits(
            bits as nat,
        ) + "'h"@ + radix_digits((pow2(bits as nat) - 1) as nat, 16),
        VerilogExpression::Paren(a) => "("@ + expr_text(*a, lv) + ")"@,
        VerilogExpression::Binary(a, o, b) => expr_text(*a, lv) + " "@ + op_text(o) + " "@
            + expr_text(*b, lv),
        VerilogExpression::Unary(o, a) => unop_text(o) + expr_text(*a, lv),
        VerilogExpression::Index(a, b) => expr_text(*a, lv) + "["@ + expr_text(*b, lv) + "]"@,
        VerilogExpression::Slice(a, w, b) => expr_text(*a, lv) + "[("@ + expr_text(*b, lv)
            + ")+:("@ + decimal_digits(w as nat) + ")]"@,
        VerilogExpression::IndexReplace(a, n, v) => "("@ + expr_text(*a, lv) + " & ~(1 << ("@
            + expr_text(*n, lv) + ")) | (("@ + expr_text(*v, lv) + ") << ("@ + expr_text(*n, lv)
            + ")))"@,
    }
}

/// A link as its kind (forward, backward, both ways) and its three names.
pub type LinkView = (int, Seq<char>, Seq<char>, Seq<char>);

/// A link's kind and names.
pub open spec fn link_view(l: VerilogLink) -> LinkView {
    match l {
        VerilogLink::Forward(d) => (0, d.my_name@, d.owner_name@, d.other_name@),
        VerilogLink::Backward(d) => (1, d.my_name@, d.owner_name@, d.other_name@),
        VerilogLink::Bidirectional(d) => (2, d.my_name@, d.owner_name@, d.other_name@),
    }
}

/// A list of links as kinds and names.
pub open spec fn links_view(ls: Seq<VerilogLink>) -> Seq<LinkView> {
    ls.map_values(|l: VerilogLink| link_view(l))
}

/// A name can be made a Verilog identifier under the loop indices.
pub open spec fn name_ok(s: Seq<char>, lv: Seq<(Seq<char>, usize)>) -> bool {
    index_evaluates(plain_ident(s, lv), lv)
}

/// Each name of a link can be made a Verilog identifier.
pub open spec fn link_ok(l: VerilogLink, lv: Seq<(Seq<char>, usize)>) -> bool {
    let v = link_view(l);
    name_ok(v.1, lv) && name_ok(v.2, lv) && name_ok(v.3, lv)
}

/// A link with its names made Verilog identifiers.
pub open spec fn fixed_link(l: VerilogLink, lv: Seq<(Seq<char>, usize)>) -> LinkView {
    let v = link_view(l);
    (v.0, fixed_ident(v.1, lv), fixed_ident(v.2, lv), fixed_ident(v.3, lv))
}

/// What generation has produced: the writer's contents and the links.
pub struct Output {
    pub pen: Pen,
    pub links: Seq<LinkView>,
}

impl Output {
    /// Text written on the current line.
    pub open spec fn write(self, s: Seq<char>) -> Output {
        Output { pen: self.pen.write(s), links: self.links }
    }

    /// Text written, and the line ended.
    pub open spec fn writeln(self, s: Seq<char>) -> Output {
        Output { pen: self.pen.writeln(s), links: self.links }
    }

    /// Lines added.
    pub open spec fn add(self, s: Seq<char>) -> Output {
        Output { pen: self.pen.add(s), links: self.links }
    }

    /// One line added.
    pub open spec fn add_line(self, s: Seq<char>) -> Output {
        Output { pen: self.pen.add_line(s), links: self.links }
    }

    /// One level deeper.
    pub open spec fn push(self) -> Output {
        Output { pen: self.pen.push(), links: self.links }
    }

    /// One level shallower.
    pub open spec fn pop(self) -> Output {
        Output { pen: self.pen.pop(), links: self.links }
    }

    /// Links collected.
    pub open spec fn link(self, ls: Seq<LinkView>) -> Output {
        Output { pen: self.pen, links: self.links + ls }
    }
}

/// The links of a statement, their names made identifiers.
pub open spec fn fixed_links(ls: Seq<VerilogLink>, lv: Seq<(Seq<char>, usize)>) -> Seq<LinkView> {
    ls.map_values(|l: VerilogLink| fixed_link(l, lv))
}

/// A block: `begin`, its statements one level deeper, `end`.
pub open spec fn block_out(o: Output, b: Seq<VerilogStatement>, lv: Seq<(Seq<char>, usize)>) -> Output
    decreases b, b.len() + 1,
{
    walk_out(o.writeln("begin"@).push(), b, b.len() as int, lv).pop().add_line("end"@)
}

/// The first `n` statements of a block, one after the other.
pub open spec fn walk_out(
    o: Output,
    b: Seq<VerilogStatement>,
    n: int,
    lv: Seq<(Seq<char>, usize)>,
) -> Output
    decreases b, n,
{
    if n <= 0 || n > b.len() {
        o
    } else {
        stmt_out(walk_out(o, b, n - 1, lv), b[n - 1], lv)
    }
}

/// What follows `else`.
pub open spec fn else_out(
    o: Output,
    e: VerilogBlockOrConditional,
    lv: Seq<(Seq<char>, usize)>,
) -> Output
    decreases e, 0int,
{
    match e {
        VerilogBlockOrConditional::Block(b) => block_out(o.write("else "@), b@, lv),
        VerilogBlockOrConditional::Conditional(s) => stmt_out(o.write("else "@), *s, lv),
        VerilogBlockOrConditional::Nothing => o,
    }
}

/// The first `n` arms of a `case`: each condition, `:`, and its block one
/// level deeper.
pub open spec fn cases_out(
    o: Output,
    cs: Seq<VerilogCase>,
    n: int,
    lv: Seq<(Seq<char>, usize)>,
) -> Output
    decreases cs, n,
{
    if n <= 0 || n > cs.len() {
        o
    } else {
        let c = cs[n - 1];
        block_out(
            cases_out(o, cs, n - 1, lv).write(fixed_ident(c.condition@, lv)).writeln(":"@).push(),
            c.block@,
            lv,
        ).pop()
    }
}

/// A loop from its index value `i` on: the block's statements once for each
/// value below the upper bound, with the index bound to it.
pub open spec fn iter_out(o: Output, l: VerilogLoop, lv: Seq<(Seq<char>, usize)>, i: int) -> Output
    decreases l, l.to.value() - i,
    when i >= 0
{
    if i >= l.to.value() {
        o
    } else {
        iter_out(
            walk_out(o, l.block@, l.block@.len() as int, lv.push((l.index@, i as usize))),
            l,
            lv,
            i + 1,
        )
    }
}

/// A statement.
pub open spec fn stmt_out(o: Output, s: VerilogStatement, lv: Seq<(Seq<char>, usize)>) -> Output
    decreases s, 0int,
{
    match s {
        VerilogStatement::Assignment(l, r) => o.write(expr_text(l, lv)).write(" = "@).write(
            expr_text(r, lv),
        ).writeln(";"@),
        VerilogStatement::SliceAssignment { base, width, offset, replacement } => o.write(
            fixed_ident(base@, lv),
        ).write("[("@).write(expr_text(offset, lv)).write(")+:("@).write(
            decimal_digits(width as nat),
        ).write(")] = "@).write(expr_text(replacement, lv)).writeln(";"@),
        VerilogStatement::If(c) => else_out(
            block_out(o.write("if ("@).write(expr_text(c.test, lv)).write(") "@), c.then_block@, lv),
            c.otherwise,
            lv,
        ),
        VerilogStatement::Match(m) => cases_out(
            o.write("case ("@).write(expr_text(m.test, lv)).writeln(")"@).push(),
            m.cases@,
            m.cases@.len() as int,
            lv,
        ).pop().writeln("endcase"@),
        VerilogStatement::Loop(l) => iter_out(o, l, lv, l.from.value() as int),
        VerilogStatement::Comment(x) => o.add("// "@ + x@),
        VerilogStatement::Link(ls) => o.link(fixed_links(ls@, lv)),
    }
}

/// A block can be written at indent level `d`: every name in it can be
/// made an identifier, loop bounds fit in 32 bits, and the indent level
/// stays within a machine word.
pub open spec fn block_ok(b: Seq<VerilogStatement>, lv: Seq<(Seq<char>, usize)>, d: nat) -> bool
    decreases b, b.len() + 1,
{
    d + 1 <= usize::MAX && walk_ok(b, b.len() as int, lv, d + 1)
}

/// The first `n` statements of a block can be written at level `d`.
pub open spec fn walk_ok(
    b: Seq<VerilogStatement>,
    n: int,
    lv: Seq<(Seq<char>, usize)>,
    d: nat,
) -> bool
    decreases b, n,
{
    if n <= 0 || n > b.len() {
        true
    } else {
        walk_ok(b, n - 1, lv, d) && stmt_ok(b[n - 1], lv, d)
    }
}

/// What follows `else` can be written at level `d`.
pub open spec fn else_ok(e: VerilogBlockOrConditional, lv: Seq<(Seq<char>, usize)>, d: nat) -> bool
    decreases e, 0int,
{
    match e {
        VerilogBlockOrConditional::Block(b) => block_ok(b@, lv, d),
        VerilogBlockOrConditional::Conditional(s) => stmt_ok(*s, lv, d),
        VerilogBlockOrConditional::Nothing => true,
    }
}

/// The first `n` arms of a `case` can be written at level `d`.
pub open spec fn cases_ok(cs: Seq<VerilogCase>, n: int, lv: Seq<(Seq<char>, usize)>, d: nat) -> bool
    decreases cs, n,
{
    if n <= 0 || n > cs.len() {
        true
    } else {
        let c = cs[n - 1];
        cases_ok(cs, n - 1, lv, d) && name_ok(c.condition@, lv) && d + 1 <= usize::MAX
            && block_ok(c.block@, lv, d + 1)
    }
}

/// A loop can be written at level `d` for its index values from `i` on.
pub open spec fn iter_ok(l: VerilogLoop, lv: Seq<(Seq<char>, usize)>, i: int, d: nat) -> bool
    decreases l, l.to.value() - i,
    when i >= 0
{
    if i >= l.to.value() {
        true
    } else {
        walk_ok(l.block@, l.block@.len() as int, lv.push((l.index@, i as usize)), d) && iter_ok(
            l,
            lv,
            i + 1,
            d,
        )
    }
}

/// A statement can be written at level `d`.
pub open spec fn stmt_ok(s: VerilogStatement, lv: Seq<(Seq<char>, usize)>, d: nat) -> bool
    decreases s, 0int,
{
    match s {
        VerilogStatement::Assignment(l, r) => expr_ok(l, lv) && expr_ok(r, lv),
        VerilogStatement::SliceAssignment { base, width, offset, replacement } => name_ok(
            base@,
            lv,
        ) && expr_ok(offset, lv) && expr_ok(replacement, lv),
        VerilogStatement::If(c) => expr_ok(c.test, lv) && block_ok(c.then_block@, lv, d) && else_ok(
            c.otherwise,
            lv,
            d,
        ),
        VerilogStatement::Match(m) => expr_ok(m.test, lv) && d + 1 <= usize::MAX && cases_ok(
            m.cases@,
            m.cases@.len() as int,
            lv,
            d + 1,
        ),
        VerilogStatement::Loop(l) => l.from.value() < 0x1_0000_0000 && l.to.value()
            < 0x1_0000_0000 && iter_ok(l, lv, l.from.value() as int, d),
        VerilogStatement::Comment(_) => true,
        VerilogStatement::Link(ls) => forall|k: int| 0 <= k < ls@.len() ==> link_ok(#[trigger] ls@[k], lv),
    }
}

impl VerilogCodeGenerator {
    /// The loop indices in scope, as names and values.
    pub open spec fn lv(&self) -> Seq<(Seq<char>, usize)> {
        loops_view(self.loops@)
    }

    /// What has been produced so far.
    pub open spec fn out(&self) -> Output {
        Output { pen: self.io.pen(), links: links_view(self.links@) }
    }

    /// Writes a binary operator.
    fn write_op(&mut self, o: VerilogOp)
        ensures
            final(self).io.pen() == old(self).io.pen().write(op_text(o)),
            final(self).loops@ == old(self).loops@,
            final(self).links@ == old(self).links@,
    {
        self.io.write(
            match o {
                VerilogOp::Add => "+",
                VerilogOp::Sub => "-",
                VerilogOp::Mul => "*",
                VerilogOp::LogicalAnd => "&&",
                VerilogOp::LogicalOr => "||",
                VerilogOp::BitXor => "^",
                VerilogOp::BitAnd => "&",
                VerilogOp::BitOr => "|",
                VerilogOp::Shl => "<<",
                VerilogOp::Shr => ">>",
                VerilogOp::Eq => "==",
                VerilogOp::Lt => "<",
                VerilogOp::Le => "<=",
                VerilogOp::Ne => "!=",
                VerilogOp::Ge => ">=",
                VerilogOp::Gt => ">",
            },
        );
    }

    /// Writes a unary operator.
    fn write_unop(&mut self, o: VerilogOpUnary)
        ensures
            final(self).io.pen() == old(self).io.pen().write(unop_text(o)),
            final(self).loops@ == old(self).loops@,
            final(self).links@ == old(self).links@,
    {
        self.io.write(
            match o {
                VerilogOpUnary::Not => "~",
                VerilogOpUnary::Neg => "-",
                VerilogOpUnary::All => "&",
                VerilogOpUnary::Any => "|",
                VerilogOpUnary::Xor => "^",
            },
        );
    }

    /// Writes the text of an expression on the current line.
    pub fn write_expression(&mut self, e: &VerilogExpression)
        requires
            expr_ok(*e, old(self).lv()),
        ensures
            final(self).io.pen() == old(self).io.pen().write(expr_text(*e, old(self).lv())),
            final(self).loops@ == old(self).loops@,
            final(self).links@ == old(self).links@,
        decreases e,
    {
        let ghost p = self.io.pen();
        let ghost lv = self.lv();
        match e {
            VerilogExpression::Signal(s) => {
                let t = self.ident_fixup(s.as_str());
                self.io.write(t.as_str());
            },
            VerilogExpression::Literal(l) => {
                let t = l.to_string();
                self.io.write(t.as_str());
            },
            VerilogExpression::Cast(a, bits) => {
                self.io.write("(");
                self.write_expression(a);
                self.io.write(") & ");
                let w = decimal_string(*bits as u64);
                self.io.write(w.as_str());
                self.io.write("'h");
                let m = mask_hex(*bits);
                self.io.write(m.as_str());
                assert(self.io.pen().buffer =~= p.write(expr_text(*e, lv)).buffer);
            },
            VerilogExpression::Paren(a) => {
                self.io.write("(");
                self.write_expression(a);
                self.io.write(")");
                assert(self.io.pen().buffer =~= p.write(expr_text(*e, lv)).buffer);
            },
            VerilogExpression::Binary(a, o, b) => {
                self.write_expression(a);
                self.io.write(" ");
                self.write_op(*o);
                self.io.write(" ");
                self.write_expression(b);
                assert(self.io.pen().buffer =~= p.write(expr_text(*e, lv)).buffer);
            },
            VerilogExpression::Unary(o, a) => {
                self.write_unop(*o);
                self.write_expression(a);
                assert(self.io.pen().buffer =~= p.write(expr_text(*e, lv)).buffer);
            },
            VerilogExpression::Index(a, b) => {
                self.write_expression(a);
                self.io.write("[");
                self.write_expression(b);
                self.io.write("]");
                assert(self.io.pen().buffer =~= p.write(expr_text(*e, lv)).buffer);
            },
            VerilogExpression::Slice(a, w, b) => {
                self.write_expression(a);
                self.io.write("[(");
                self.write_expression(b);
                self.io.write(")+:(");
                let t = decimal_string(*w as u64);
                self.io.write(t.as_str());
                self.io.write(")]");
                assert(self.io.pen().buffer =~= p.write(expr_text(*e, lv)).buffer);
            },
            VerilogExpression::IndexReplace(a, n, v) => {
                self.io.write("(");
                self.write_expression(a);
                self.io.write(" & ~(1 << (");
                self.write_expression(n);
                self.io.write(")) | ((");
                self.write_expression(v);
                self.io.write(") << (");
                self.write_expression(n);
                self.io.write(")))");
                assert(self.io.pen().buffer =~= p.write(expr_text(*e, lv)).buffer);
            },
        }
    }
    /// Writes a block: `begin`, its statements one level deeper, `end`.
    pub fn write_block(&mut self, b: &Vec<VerilogStatement>)
        requires
            block_ok(b@, old(self).lv(), old(self).io.indent() as nat),
        ensures
            final(self).out() == block_out(old(self).out(), b@, old(self).lv()),
            final(self).loops@ == old(self).loops@,
            final(self).io.indent() == old(self).io.indent(),
        decreases b@, b@.len() + 1,
    {
        self.io.writeln("begin");
        self.io.push();
        self.walk_block(b);
        self.io.pop();
        self.io.add_line("end");
    }

    /// Writes the statements of a block, one after the other.
    pub fn walk_block(&mut self, b: &Vec<VerilogStatement>)
        requires
            walk_ok(b@, b@.len() as int, old(self).lv(), old(self).io.indent() as nat),
        ensures
            final(self).out() == walk_out(old(self).out(), b@, b@.len() as int, old(self).lv()),
            final(self).loops@ == old(self).loops@,
            final(self).io.indent() == old(self).io.indent(),
        decreases b@, b@.len(),
    {
        let ghost o = self.out();
        let ghost lv = self.lv();
        let ghost d = self.io.indent() as nat;
        for i in 0..b.len()
            invariant
                self.out() == walk_out(o, b@, i as int, lv),
                self.lv() == lv,
                self.loops@ == old(self).loops@,
                self.io.indent() == d,
                walk_ok(b@, b@.len() as int, lv, d),
        {
            proof {
                lemma_walk_ok_prefix(b@, b@.len() as int, i + 1, lv, d);
            }
            self.write_statement(&b[i]);
        }
    }

    /// Writes what follows `else`.
    fn write_else(&mut self, e: &VerilogBlockOrConditional)
        requires
            else_ok(*e, old(self).lv(), old(self).io.indent() as nat),
        ensures
            final(self).out() == else_out(old(self).out(), *e, old(self).lv()),
            final(self).loops@ == old(self).loops@,
            final(self).io.indent() == old(self).io.indent(),
        decreases e, 0int,
    {
        match e {
            VerilogBlockOrConditional::Block(b) => {
                self.io.write("else ");
                self.write_block(b);
            },
            VerilogBlockOrConditional::Conditional(s) => {
                self.io.write("else ");
                self.write_statement(s);
            },
            VerilogBlockOrConditional::Nothing => {},
        }
    }

    /// Writes the arms of a `case`.
    fn write_cases(&mut self, cs: &Vec<VerilogCase>)
        requires
            cases_ok(cs@, cs@.len() as int, old(self).lv(), old(self).io.indent() as nat),
        ensures
            final(self).out() == cases_out(old(self).out(), cs@, cs@.len() as int, old(self).lv()),
            final(self).loops@ == old(self).loops@,
            final(self).io.indent() == old(self).io.indent(),
        decreases cs@, cs@.len(),
    {
        let ghost o = self.out();
        let ghost lv = self.lv();
        let ghost d = self.io.indent() as nat;
        for i in 0..cs.len()
            invariant
                self.out() == cases_out(o, cs@, i as int, lv),
                self.lv() == lv,
                self.loops@ == old(self).loops@,
                self.io.indent() == d,
                cases_ok(cs@, cs@.len() as int, lv, d),
        {
            proof {
                lemma_cases_ok_prefix(cs@, cs@.len() as int, i + 1, lv, d);
            }
            let c = &cs[i];
            let t = self.ident_fixup(c.condition.as_str());
            self.io.write(t.as_str());
            self.io.writeln(":");
            self.io.push();
            self.write_block(&c.block);
            self.io.pop();
        }
    }

    /// Writes the links of a statement, their names made identifiers.
    fn write_links(&mut self, ls: &Vec<VerilogLink>)
        requires
            forall|k: int| 0 <= k < ls@.len() ==> link_ok(#[trigger] ls@[k], old(self).lv()),
        ensures
            final(self).out() == old(self).out().link(fixed_links(ls@, old(self).lv())),
            final(self).loops@ == old(self).loops@,
            final(self).io.indent() == old(self).io.indent(),
    {
        let ghost o = self.out();
        let ghost lv = self.lv();
        for i in 0..ls.len()
            invariant
                self.out() == o.link(fixed_links(ls@.take(i as int), lv)),
                self.lv() == lv,
                self.loops@ == old(self).loops@,
                self.io.indent() == o.pen.indent,
                forall|k: int| 0 <= k < ls@.len() ==> link_ok(#[trigger] ls@[k], lv),
        {
            assert(link_ok(ls@[i as int], lv));
            let fixed = match &ls[i] {
                VerilogLink::Forward(x) => VerilogLink::Forward(self.link_fixup(x)),
                VerilogLink::Backward(x) => VerilogLink::Backward(self.link_fixup(x)),
                VerilogLink::Bidirectional(x) => VerilogLink::Bidirectional(self.link_fixup(x)),
            };
            let ghost before = self.links@;
            self.links.push(fixed);
            proof {
                assert(link_view(fixed) == fixed_link(ls@[i as int], lv));
                assert(links_view(self.links@) =~= links_view(before).push(link_view(fixed)));
                assert(fixed_links(ls@.take(i + 1), lv) =~= fixed_links(ls@.take(i as int), lv).push(
                    fixed_link(ls@[i as int], lv),
                ));
            }
        }
        assert(ls@.take(ls@.len() as int) =~= ls@);
    }

    /// Writes an unrolled loop: the block's statements once for each value
    /// of the index.
    fn write_loop(&mut self, l: &VerilogLoop)
        requires
            l.from.value() < 0x1_0000_0000,
            l.to.value() < 0x1_0000_0000,
            iter_ok(*l, old(self).lv(), l.from.value() as int, old(self).io.indent() as nat),
        ensures
            final(self).out() == iter_out(old(self).out(), *l, old(self).lv(), l.from.value() as int),
            final(self).loops@ == old(self).loops@,
            final(self).io.indent() == old(self).io.indent(),
        decreases *l, 0int,
    {
        let ghost o = self.out();
        let ghost lv = self.lv();
        let ghost d = self.io.indent() as nat;
        let start = l.from.as_usize();
        let end = l.to.as_usize();
        let mut i = start;
        while i < end
            invariant
                start <= i,
                end == l.to.value(),
                iter_out(self.out(), *l, lv, i as int) == iter_out(o, *l, lv, start as int),
                iter_ok(*l, lv, i as int, d),
                self.lv() == lv,
                self.loops@ == old(self).loops@,
                self.io.indent() == d,
            decreases end - i,
        {
            let ghost before = self.loops@;
            self.loops.push(LoopVariable { variable: l.index.clone(), value: i });
            assert(self.lv() =~= lv.push((l.index@, i)));
            self.walk_block(&l.block);
            self.loops.pop();
            assert(self.loops@ =~= before);
            i = i + 1;
        }
    }

    /// Writes a statement.
    pub fn write_statement(&mut self, s: &VerilogStatement)
        requires
            stmt_ok(*s, old(self).lv(), old(self).io.indent() as nat),
        ensures
            final(self).out() == stmt_out(old(self).out(), *s, old(self).lv()),
            final(self).loops@ == old(self).loops@,
            final(self).io.indent() == old(self).io.indent(),
        decreases s, 0int,
    {
        match s {
            VerilogStatement::Assignment(l, r) => {
                self.write_expression(l);
                self.io.write(" = ");
                self.write_expression(r);
                self.io.writeln(";");
            },
            VerilogStatement::SliceAssignment { base, width, offset, replacement } => {
                let t = self.ident_fixup(base.as_str());
                self.io.write(t.as_str());
                self.io.write("[(");
                self.write_expression(offset);
                self.io.write(")+:(");
                let w = decimal_string(*width as u64);
                self.io.write(w.as_str());
                self.io.write(")] = ");
                self.write_expression(replacement);
                self.io.writeln(";");
            },
            VerilogStatement::If(c) => {
                self.io.write("if (");
                self.write_expression(&c.test);
                self.io.write(") ");
                self.write_block(&c.then_block);
                self.write_else(&c.otherwise);
            },
            VerilogStatement::Match(m) => {
                self.io.write("case (");
                self.write_expression(&m.test);
                self.io.writeln(")");
                self.io.push();
                self.write_cases(&m.cases);
                self.io.pop();
                self.io.writeln("endcase");
            },
            VerilogStatement::Loop(l) => {
                self.write_loop(l);
            },
            VerilogStatement::Comment(x) => {
                let mut t = String::from_str("// ");
                t.append(x.as_str());
                self.io.add(t.as_str());
            },
            VerilogStatement::Link(ls) => {
                self.write_links(ls);
            },
        }
    }
}

/// Writing the first `m` statements is possible when writing the first
/// `n` is, for `m <= n`.
proof fn lemma_walk_ok_prefix(
    b: Seq<VerilogStatement>,
    n: int,
    m: int,
    lv: Seq<(Seq<char>, usize)>,
    d: nat,
)
    requires
        walk_ok(b, n, lv, d),
        0 <= m <= n <= b.len(),
    ensures
        walk_ok(b, m, lv, d),
    decreases n - m,
{
    if m < n {
        lemma_walk_ok_prefix(b, n - 1, m, lv, d);
    }
}

/// Writing the first `m` arms is possible when writing the first `n` is,
/// for `m <= n`.
proof fn lemma_cases_ok_prefix(
    cs: Seq<VerilogCase>,
    n: int,
    m: int,
    lv: Seq<(Seq<char>, usize)>,
    d: nat,
)
    requires
        cases_ok(cs, n, lv, d),
        0 <= m <= n <= cs.len(),
    ensures
        cases_ok(cs, m, lv, d),
    decreases n - m,
{
    if m < n {
        lemma_cases_ok_prefix(cs, n - 1, m, lv, d);
    }
}

impl VerilogCodeGenerator {
    /// Whether every signal of the expression can be made an identifier.
    fn expression_writable(&self, e: &VerilogExpression) -> (r: bool)
        ensures
            r == expr_ok(*e, self.lv()),
        decreases e,
    {
        match e {
            VerilogExpression::Signal(s) => self.index_can_be_evaluated(s.as_str()),
            VerilogExpression::Literal(_) => true,
            VerilogExpression::Cast(a, _) => self.expression_writable(a),
            VerilogExpression::Paren(a) => self.expression_writable(a),
            VerilogExpression::Binary(a, _, b) => self.expression_writable(a)
                && self.expression_writable(b),
            VerilogExpression::Unary(_, a) => self.expression_writable(a),
            VerilogExpression::Index(a, b) => self.expression_writable(a)
                && self.expression_writable(b),
            VerilogExpression::Slice(a, _, b) => self.expression_writable(a)
                && self.expression_writable(b),
            VerilogExpression::IndexReplace(a, b, c) => self.expression_writable(a)
                && self.expression_writable(b) && self.expression_writable(c),
        }
    }

    /// Whether a block can be written at indent level `d`.
    pub(crate) fn block_writable(&mut self, b: &Vec<VerilogStatement>, d: usize) -> (r: bool)
        ensures
            r == block_ok(b@, old(self).lv(), d as nat),
            final(self).loops@ == old(self).loops@,
        decreases b@, b@.len() + 1,
    {
        if d == usize::MAX {
            false
        } else {
            self.walk_writable(b, d + 1)
        }
    }

    /// Whether the statements of a block can be written at level `d`.
    fn walk_writable(&mut self, b: &Vec<VerilogStatement>, d: usize) -> (r: bool)
        ensures
            r == walk_ok(b@, b@.len() as int, old(self).lv(), d as nat),
            final(self).loops@ == old(self).loops@,
        decreases b@, b@.len(),
    {
        let ghost lv = self.lv();
        for i in 0..b.len()
            invariant
                walk_ok(b@, i as int, lv, d as nat),
                self.loops@ == old(self).loops@,
                self.lv() == lv,
        {
            if !self.statement_writable(&b[i], d) {
                proof {
                    lemma_walk_ok_fails(b@, i + 1, b@.len() as int, lv, d as nat);
                }
                return false;
            }
        }
        true
    }

    /// Whether what follows `else` can be written at level `d`.
    fn else_writable(&mut self, e: &VerilogBlockOrConditional, d: usize) -> (r: bool)
        ensures
            r == else_ok(*e, old(self).lv(), d as nat),
            final(self).loops@ == old(self).loops@,
        decreases e, 0int,
    {
        match e {
            VerilogBlockOrConditional::Block(b) => self.block_writable(b, d),
            VerilogBlockOrConditional::Conditional(s) => self.statement_writable(s, d),
            VerilogBlockOrConditional::Nothing => true,
        }
    }

    /// Whether the arms of a `case` can be written at level `d`.
    fn cases_writable(&mut self, cs: &Vec<VerilogCase>, d: usize) -> (r: bool)
        ensures
            r == cases_ok(cs@, cs@.len() as int, old(self).lv(), d as nat),
            final(self).loops@ == old(self).loops@,
        decreases cs@, cs@.len(),
    {
        let ghost lv = self.lv();
        for i in 0..cs.len()
            invariant
                cases_ok(cs@, i as int, lv, d as nat),
                self.loops@ == old(self).loops@,
                self.lv() == lv,
        {
            let c = &cs[i];
            let ok = self.index_can_be_evaluated(c.condition.as_str()) && d < usize::MAX
                && self.block_writable(&c.block, d + 1);
            if !ok {
                proof {
                    lemma_cases_ok_fails(cs@, i + 1, cs@.len() as int, lv, d as nat);
                }
                return false;
            }
        }
        true
    }

    /// Whether a loop can be written at level `d`.
    fn loop_writable(&mut self, l: &VerilogLoop, d: usize) -> (r: bool)
        ensures
            r == (l.from.value() < 0x1_0000_0000 && l.to.value() < 0x1_0000_0000 && iter_ok(
                *l,
                old(self).lv(),
                l.from.value() as int,
                d as nat,
            )),
            final(self).loops@ == old(self).loops@,
        decreases *l, 0int,
    {
        if !l.from.fits_u32() || !l.to.fits_u32() {
            return false;
        }
        let ghost lv = self.lv();
        let start = l.from.as_usize();
        let end = l.to.as_usize();
        let mut i = start;
        while i < end
            invariant
                start <= i,
                start == l.from.value(),
                end == l.to.value(),
                l.from.value() < 0x1_0000_0000,
                l.to.value() < 0x1_0000_0000,
                lv == old(self).lv(),
                iter_ok(*l, lv, i as int, d as nat) == iter_ok(*l, lv, start as int, d as nat),
                self.lv() == lv,
                self.loops@ == old(self).loops@,
            decreases end - i,
        {
            let ghost before = self.loops@;
            self.loops.push(LoopVariable { variable: l.index.clone(), value: i });
            assert(self.lv() =~= lv.push((l.index@, i)));
            let ok = self.walk_writable(&l.block, d);
            self.loops.pop();
            assert(self.loops@ =~= before);
            if !ok {
                assert(!iter_ok(*l, lv, i as int, d as nat));
                return false;
            }
            i = i + 1;
        }
        true
    }

    /// Whether a statement can be written at level `d`.
    fn statement_writable(&mut self, s: &VerilogStatement, d: usize) -> (r: bool)
        ensures
            r == stmt_ok(*s, old(self).lv(), d as nat),
            final(self).loops@ == old(self).loops@,
        decreases s, 0int,
    {
        match s {
            VerilogStatement::Assignment(l, r) => self.expression_writable(l)
                && self.expression_writable(r),
            VerilogStatement::SliceAssignment { base, width, offset, replacement } => {
                self.index_can_be_evaluated(base.as_str()) && self.expression_writable(offset)
                    && self.expression_writable(replacement)
            },
            VerilogStatement::If(c) => {
                self.expression_writable(&c.test) && self.block_writable(&c.then_block, d)
                    && self.else_writable(&c.otherwise, d)
            },
            VerilogStatement::Match(m) => {
                self.expression_writable(&m.test) && d < usize::MAX && self.cases_writable(
                    &m.cases,
                    d + 1,
                )
            },
            VerilogStatement::Loop(l) => self.loop_writable(l, d),
            VerilogStatement::Comment(_) => true,
            VerilogStatement::Link(ls) => self.links_writable(ls),
        }
    }

    /// Whether every name of the links can be made an identifier.
    fn links_writable(&self, ls: &Vec<VerilogLink>) -> (r: bool)
        ensures
            r == (forall|k: int| 0 <= k < ls@.len() ==> link_ok(#[trigger] ls@[k], self.lv())),
    {
        for i in 0..ls.len()
            invariant
                forall|k: int| 0 <= k < i ==> link_ok(#[trigger] ls@[k], self.lv()),
        {
            let d = match &ls[i] {
                VerilogLink::Forward(x) => x,
                VerilogLink::Backward(x) => x,
                VerilogLink::Bidirectional(x) => x,
            };
            if !(self.index_can_be_evaluated(d.my_name.as_str()) && self.index_can_be_evaluated(
                d.owner_name.as_str(),
            ) && self.index_can_be_evaluated(d.other_name.as_str())) {
                assert(!link_ok(ls@[i as int], self.lv()));
                return false;
            }
        }
        true
    }
}

/// Once the first `m` statements cannot be written, neither can the first
/// `n`, for `m <= n`.
proof fn lemma_walk_ok_fails(
    b: Seq<VerilogStatement>,
    m: int,
    n: int,
    lv: Seq<(Seq<char>, usize)>,
    d: nat,
)
    requires
        !walk_ok(b, m, lv, d),
        0 <= m <= n <= b.len(),
    ensures
        !walk_ok(b, n, lv, d),
    decreases n - m,
{
    if m < n {
        lemma_walk_ok_fails(b, m, n - 1, lv, d);
    }
}

/// Once the first `m` arms cannot be written, neither can the first `n`,
/// for `m <= n`.
proof fn lemma_cases_ok_fails(
    cs: Seq<VerilogCase>,
    m: int,
    n: int,
    lv: Seq<(Seq<char>, usize)>,
    d: nat,
)
    requires
        !cases_ok(cs, m, lv, d),
        0 <= m <= n <= cs.len(),
    ensures
        !cases_ok(cs, n, lv, d),
    decreases n - m,
{
    if m < n {
        lemma_cases_ok_fails(cs, m, n - 1, lv, d);
    }
}

/// `r` follows from `o` by writing more: the same indent level, and the
/// lines and links of `o` kept in front.
pub open spec fn extends(o: Output, r: Output) -> bool {
    &&& r.pen.indent == o.pen.indent
    &&& o.pen.lines.is_prefix_of(r.pen.lines)
    &&& o.links.is_prefix_of(r.links)
}

/// Writing more after writing more is writing more.
proof fn lemma_extends_trans(a: Output, b: Output, c: Output)
    requires
        extends(a, b),
        extends(b, c),
    ensures
        extends(a, c),
{
    assert(a.pen.lines =~= c.pen.lines.subrange(0, a.pen.lines.len() as int)) by {
        assert forall|k: int| 0 <= k < a.pen.lines.len() implies a.pen.lines[k]
            == c.pen.lines[k] by {
            assert(a.pen.lines[k] == b.pen.lines[k]);
        }
    }
    assert(a.links =~= c.links.subrange(0, a.links.len() as int)) by {
        assert forall|k: int| 0 <= k < a.links.len() implies a.links[k] == c.links[k] by {
            assert(a.links[k] == b.links[k]);
        }
    }
}

/// Ending the line keeps what was written before.
proof fn lemma_writeln_extends(o: Output, t: Seq<char>)
    ensures
        o.pen.lines.is_prefix_of(o.writeln(t).pen.lines),
        o.writeln(t).pen.indent == o.pen.indent,
        o.writeln(t).links == o.links,
{
    assert(o.pen.lines =~= o.writeln(t).pen.lines.subrange(0, o.pen.lines.len() as int));
}

/// A block written keeps the indent level and what was written before.
proof fn lemma_block_extends(o: Output, b: Seq<VerilogStatement>, lv: Seq<(Seq<char>, usize)>)
    requires
        block_ok(b, lv, o.pen.indent as nat),
    ensures
        extends(o, block_out(o, b, lv)),
    decreases b, b.len() + 1,
{
    let o1 = o.writeln("begin"@);
    lemma_writeln_extends(o, "begin"@);
    let o2 = o1.push();
    lemma_walk_extends(o2, b, b.len() as int, lv);
    let o3 = walk_out(o2, b, b.len() as int, lv);
    let o4 = o3.pop().add_line("end"@);
    assert(extends(o, o1));
    assert(extends(o1, o4)) by {
        assert(o1.pen.lines =~= o4.pen.lines.subrange(0, o1.pen.lines.len() as int)) by {
            assert forall|k: int| 0 <= k < o1.pen.lines.len() implies o1.pen.lines[k]
                == o4.pen.lines[k] by {
                assert(o2.pen.lines[k] == o3.pen.lines[k]);
            }
        }
        assert(o1.links =~= o4.links.subrange(0, o1.links.len() as int)) by {
            assert forall|k: int| 0 <= k < o1.links.len() implies o1.links[k] == o4.links[k] by {
                assert(o2.links[k] == o3.links[k]);
            }
        }
    }
    lemma_extends_trans(o, o1, o4);
}

/// Statements written keep the indent level and what was written before.
proof fn lemma_walk_extends(
    o: Output,
    b: Seq<VerilogStatement>,
    n: int,
    lv: Seq<(Seq<char>, usize)>,
)
    requires
        walk_ok(b, n, lv, o.pen.indent as nat),
    ensures
        extends(o, walk_out(o, b, n, lv)),
    decreases b, n,
{
    if n <= 0 || n > b.len() {
        assert(o.pen.lines =~= o.pen.lines.subrange(0, o.pen.lines.len() as int));
        assert(o.links =~= o.links.subrange(0, o.links.len() as int));
    } else {
        lemma_walk_extends(o, b, n - 1, lv);
        let m = walk_out(o, b, n - 1, lv);
        lemma_stmt_extends(m, b[n - 1], lv);
        lemma_extends_trans(o, m, walk_out(o, b, n, lv));
    }
}

/// What follows `else`, written, keeps the indent level and what was
/// written before.
proof fn lemma_else_extends(o: Output, e: VerilogBlockOrConditional, lv: Seq<(Seq<char>, usize)>)
    requires
        else_ok(e, lv, o.pen.indent as nat),
    ensures
        extends(o, else_out(o, e, lv)),
    decreases e, 0int,
{
    let w = o.write("else "@);
    assert(extends(o, w)) by {
        assert(o.pen.lines =~= w.pen.lines.subrange(0, o.pen.lines.len() as int));
        assert(o.links =~= w.links.subrange(0, o.links.len() as int));
    }
    match e {
        VerilogBlockOrConditional::Block(b) => {
            lemma_block_extends(w, b@, lv);
            lemma_extends_trans(o, w, else_out(o, e, lv));
        },
        VerilogBlockOrConditional::Conditional(s) => {
            lemma_stmt_extends(w, *s, lv);
            lemma_extends_trans(o, w, else_out(o, e, lv));
        },
        VerilogBlockOrConditional::Nothing => {
            assert(o.pen.lines =~= o.pen.lines.subrange(0, o.pen.lines.len() as int));
            assert(o.links =~= o.links.subrange(0, o.links.len() as int));
        },
    }
}

/// The arms of a `case`, written, keep the indent level and what was
/// written before.
proof fn lemma_cases_extends(
    o: Output,
    cs: Seq<VerilogCase>,
    n: int,
    lv: Seq<(Seq<char>, usize)>,
)
    requires
        cases_ok(cs, n, lv, o.pen.indent as nat),
    ensures
        extends(o, cases_out(o, cs, n, lv)),
    decreases cs, n,
{
    if n <= 0 || n > cs.len() {
        assert(o.pen.lines =~= o.pen.lines.subrange(0, o.pen.lines.len() as int));
        assert(o.links =~= o.links.subrange(0, o.links.len() as int));
    } else {
        let c = cs[n - 1];
        lemma_cases_extends(o, cs, n - 1, lv);
        let m = cases_out(o, cs, n - 1, lv);
        let m1 = m.write(fixed_ident(c.condition@, lv)).writeln(":"@);
        lemma_writeln_extends(m.write(fixed_ident(c.condition@, lv)), ":"@);
        let m2 = m1.push();
        lemma_block_extends(m2, c.block@, lv);
        let m3 = block_out(m2, c.block@, lv);
        let m4 = m3.pop();
        assert(extends(m, m4)) by {
            assert(m.pen.lines =~= m4.pen.lines.subrange(0, m.pen.lines.len() as int)) by {
                assert forall|k: int| 0 <= k < m.pen.lines.len() implies m.pen.lines[k]
                    == m4.pen.lines[k] by {
                    assert(m1.pen.lines[k] == m.pen.lines[k]);
                    assert(m2.pen.lines[k] == m3.pen.lines[k]);
                }
            }
            assert(m.links =~= m4.links.subrange(0, m.links.len() as int)) by {
                assert forall|k: int| 0 <= k < m.links.len() implies m.links[k] == m4.links[k] by {
                    assert(m2.links[k] == m3.links[k]);
                }
            }
        }
        lemma_extends_trans(o, m, m4);
    }
}

/// A loop, written from index value `i` on, keeps the indent level and
/// what was written before.
proof fn lemma_iter_extends(o: Output, l: VerilogLoop, lv: Seq<(Seq<char>, usize)>, i: int)
    requires
        i >= 0,
        iter_ok(l, lv, i, o.pen.indent as nat),
    ensures
        extends(o, iter_out(o, l, lv, i)),
    decreases l, l.to.value() - i,
{
    if i >= l.to.value() {
        assert(o.pen.lines =~= o.pen.lines.subrange(0, o.pen.lines.len() as int));
        assert(o.links =~= o.links.subrange(0, o.links.len() as int));
    } else {
        let lv2 = lv.push((l.index@, i as usize));
        lemma_walk_extends(o, l.block@, l.block@.len() as int, lv2);
        let m = walk_out(o, l.block@, l.block@.len() as int, lv2);
        lemma_iter_extends(m, l, lv, i + 1);
        lemma_extends_trans(o, m, iter_out(o, l, lv, i));
    }
}

/// A statement written keeps the indent level and what was written
/// before.
proof fn lemma_stmt_extends(o: Output, s: VerilogStatement, lv: Seq<(Seq<char>, usize)>)
    requires
        stmt_ok(s, lv, o.pen.indent as nat),
    ensures
        extends(o, stmt_out(o, s, lv)),
    decreases s, 0int,
{
    let r = stmt_out(o, s, lv);
    match s {
        VerilogStatement::If(c) => {
            let w = o.write("if ("@).write(expr_text(c.test, lv)).write(") "@);
            assert(extends(o, w)) by {
                assert(o.pen.lines =~= w.pen.lines.subrange(0, o.pen.lines.len() as int));
                assert(o.links =~= w.links.subrange(0, o.links.len() as int));
            }
            lemma_block_extends(w, c.then_block@, lv);
            let m = block_out(w, c.then_block@, lv);
            lemma_else_extends(m, c.otherwise, lv);
            lemma_extends_trans(o, w, m);
            lemma_extends_trans(o, m, r);
        },
        VerilogStatement::Match(m) => {
            let w0 = o.write("case ("@).write(expr_text(m.test, lv));
            lemma_writeln_extends(w0, ")"@);
            let w = w0.writeln(")"@).push();
            lemma_cases_extends(w, m.cases@, m.cases@.len() as int, lv);
            let c = cases_out(w, m.cases@, m.cases@.len() as int, lv);
            lemma_writeln_extends(c.pop(), "endcase"@);
            assert(extends(o, r)) by {
                assert(o.pen.lines =~= r.pen.lines.subrange(0, o.pen.lines.len() as int)) by {
                    assert forall|k: int| 0 <= k < o.pen.lines.len() implies o.pen.lines[k]
                        == r.pen.lines[k] by {
                        assert(w.pen.lines[k] == o.pen.lines[k]);
                        assert(w.pen.lines[k] == c.pen.lines[k]);
                        assert(c.pop().pen.lines[k] == r.pen.lines[k]);
                    }
                }
                assert(o.links =~= r.links.subrange(0, o.links.len() as int)) by {
                    assert forall|k: int| 0 <= k < o.links.len() implies o.links[k]
                        == r.links[k] by {
                        assert(w.links[k] == c.links[k]);
                    }
                }
            }
        },
        VerilogStatement::Loop(l) => {
            lemma_iter_extends(o, l, lv, l.from.value() as int);
        },
        VerilogStatement::Assignment(a, b) => {
            lemma_writeln_extends(
                o.write(expr_text(a, lv)).write(" = "@).write(expr_text(b, lv)),
                ";"@,
            );
            assert(o.links =~= r.links.subrange(0, o.links.len() as int));
        },
        VerilogStatement::SliceAssignment { base, width, offset, replacement } => {
            lemma_writeln_extends(
                o.write(fixed_ident(base@, lv)).write("[("@).write(expr_text(offset, lv)).write(
                    ")+:("@,
                ).write(decimal_digits(width as nat)).write(")] = "@).write(
                    expr_text(replacement, lv),
                ),
                ";"@,
            );
            assert(o.links =~= r.links.subrange(0, o.links.len() as int));
        },
        VerilogStatement::Comment(x) => {
            assert(o.pen.lines =~= r.pen.lines.subrange(0, o.pen.lines.len() as int));
            assert(o.links =~= r.links.subrange(0, o.links.len() as int));
        },
        VerilogStatement::Link(ls) => {
            assert(o.pen.lines =~= r.pen.lines.subrange(0, o.pen.lines.len() as int));
            assert(o.links =~= r.links.subrange(0, o.links.len() as int));
        },
    }
}

/// Law: a block is written as one frame at the level it starts at.  The
/// line in progress is ended with `begin`, the statements follow, and
/// the last line is `end`; the lines written before stay, the indent
/// level is back where it was, and the links collected before stay.
pub proof fn law_block_framed(o: Output, b: Seq<VerilogStatement>, lv: Seq<(Seq<char>, usize)>)
    requires
        block_ok(b, lv, o.pen.indent as nat),
        !o.pen.buffer.contains('\n'),
    ensures
        o.pen.lines.push((o.pen.indent, o.pen.buffer + "begin"@)).is_prefix_of(
            block_out(o, b, lv).pen.lines,
        ),
        block_out(o, b, lv).pen.lines.last() == (o.pen.indent, "end"@),
        block_out(o, b, lv).pen.indent == o.pen.indent,
        o.links.is_prefix_of(block_out(o, b, lv).links),
{
    reveal_strlit("begin");
    let t = o.pen.buffer + "begin"@;
    assert(!t.contains('\n')) by {
        if t.contains('\n') {
            let k = choose|k: int| 0 <= k < t.len() && t[k] == '\n';
            if k < o.pen.buffer.len() {
                assert(o.pen.buffer[k] == '\n');
            }
        }
    }
    crate::hdl_core::code_writer::law_single_line(t);
    let o1 = o.writeln("begin"@);
    assert(o1.pen.lines =~= o.pen.lines.push((o.pen.indent, t)));
    let o2 = o1.push();
    lemma_walk_extends(o2, b, b.len() as int, lv);
    lemma_block_extends(o, b, lv);
    let r = block_out(o, b, lv);
    let o3 = walk_out(o2, b, b.len() as int, lv);
    assert(o1.pen.lines =~= r.pen.lines.subrange(0, o1.pen.lines.len() as int)) by {
        assert forall|k: int| 0 <= k < o1.pen.lines.len() implies o1.pen.lines[k]
            == r.pen.lines[k] by {
            assert(o2.pen.lines[k] == o3.pen.lines[k]);
        }
    }
}

/// Law: each binary operator is written as the Verilog operator with its
/// meaning (`<` for less than, `>` for greater than, `<=` and `>=` for
/// the non-strict comparisons, and so on), and no two operators are
/// written alike.
pub proof fn law_operators_are_written_as_verilog()
    ensures
        op_text(VerilogOp::Add) == seq!['+'],
        op_text(VerilogOp::Sub) == seq!['-'],
        op_text(VerilogOp::Mul) == seq!['*'],
        op_text(VerilogOp::LogicalAnd) == seq!['&', '&'],
        op_text(VerilogOp::LogicalOr) == seq!['|', '|'],
        op_text(VerilogOp::BitXor) == seq!['^'],
        op_text(VerilogOp::BitAnd) == seq!['&'],
        op_text(VerilogOp::BitOr) == seq!['|'],
        op_text(VerilogOp::Shl) == seq!['<', '<'],
        op_text(VerilogOp::Shr) == seq!['>', '>'],
        op_text(VerilogOp::Eq) == seq!['=', '='],
        op_text(VerilogOp::Lt) == seq!['<'],
        op_text(VerilogOp::Le) == seq!['<', '='],
        op_text(VerilogOp::Ne) == seq!['!', '='],
        op_text(VerilogOp::Ge) == seq!['>', '='],
        op_text(VerilogOp::Gt) == seq!['>'],
        forall|a: VerilogOp, b: VerilogOp| #[trigger] op_text(a) == #[trigger] op_text(b) ==> a == b,
{
    reveal_strlit("+");
    reveal_strlit("-");
    reveal_strlit("*");
    reveal_strlit("&&");
    reveal_strlit("||");
    reveal_strlit("^");
    reveal_strlit("&");
    reveal_strlit("|");
    reveal_strlit("<<");
    reveal_strlit(">>");
    reveal_strlit("==");
    reveal_strlit("<");
    reveal_strlit("<=");
    reveal_strlit("!=");
    reveal_strlit(">=");
    reveal_strlit(">");
    assert("+"@ =~= seq!['+']);
    assert("-"@ =~= seq!['-']);
    assert("*"@ =~= seq!['*']);
    assert("&&"@ =~= seq!['&', '&']);
    assert("||"@ =~= seq!['|', '|']);
    assert("^"@ =~= seq!['^']);
    assert("&"@ =~= seq!['&']);
    assert("|"@ =~= seq!['|']);
    assert("<<"@ =~= seq!['<', '<']);
    assert(">>"@ =~= seq!['>', '>']);
    assert("=="@ =~= seq!['=', '=']);
    assert("<"@ =~= seq!['<']);
    assert("<="@ =~= seq!['<', '=']);
    assert("!="@ =~= seq!['!', '=']);
    assert(">="@ =~= seq!['>', '=']);
    assert(">"@ =~= seq!['>']);
    assert forall|a: VerilogOp, b: VerilogOp| #[trigger] op_text(a) == #[trigger] op_text(b) implies a == b by {
        if a != b {
            let (x, y) = (op_text(a), op_text(b));
            assert(x.len() != y.len() || x[0] != y[0] || (x.len() == 2 && x[1] != y[1]));
        }
    }
}

/// Law: each unary operator is written as the Verilog operator with its
/// meaning: `~` for bitwise not, `-` for negation, and the reductions `&`
/// (all bits), `|` (any bit) and `^` (parity); no two are written alike.
pub proof fn law_unary_operators_are_written_as_verilog()
    ensures
        unop_text(VerilogOpUnary::Not) == seq!['~'],
        unop_text(VerilogOpUnary::Neg) == seq!['-'],
        unop_text(VerilogOpUnary::All) == seq!['&'],
        unop_text(VerilogOpUnary::Any) == seq!['|'],
        unop_text(VerilogOpUnary::Xor) == seq!['^'],
        forall|a: VerilogOpUnary, b: VerilogOpUnary|
            #[trigger] unop_text(a) == #[trigger] unop_text(b) ==> a == b,
{
    reveal_strlit("~");
    reveal_strlit("-");
    reveal_strlit("&");
    reveal_strlit("|");
    reveal_strlit("^");
    assert("~"@ =~= seq!['~']);
    assert("-"@ =~= seq!['-']);
    assert("&"@ =~= seq!['&']);
    assert("|"@ =~= seq!['|']);
    assert("^"@ =~= seq!['^']);
    assert forall|a: VerilogOpUnary, b: VerilogOpUnary|
        #[trigger] unop_text(a) == #[trigger] unop_text(b) implies a == b by {
        if a != b {
            assert(unop_text(a)[0] != unop_text(b)[0]);
        }
    }
}

} // verus!
