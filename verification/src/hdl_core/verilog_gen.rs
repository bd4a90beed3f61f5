//! Generating the Verilog of a combinatorial block, and post-processing
//! generated Verilog.
use crate::hdl_core::ast::{VerilogBlock, VerilogLink};
use crate::hdl_core::ast::VerilogStatement;
use crate::hdl_core::code_writer::{render, render_line, Pen};
use crate::hdl_core::ident_fixup::VerilogCodeGenerator;
use crate::hdl_core::verilog_code::{block_ok, block_out, law_block_framed, links_view, Output};
use crate::text::lines::{join_seq, join_strings, split_on, split_on_char, strings_view};
use vstd::prelude::*;

verus! {

/// A generator's output before anything is written.
pub open spec fn fresh_output() -> Output {
    Output {
        pen: Pen { lines: Seq::empty(), indent: 0, buffer: Seq::empty() },
        links: Seq::empty(),
    }
}

/// No loop index in scope.
pub open spec fn no_loops() -> Seq<(Seq<char>, usize)> {
    Seq::empty()
}

/// A generator with nothing written, outside any loop.
fn fresh_generator() -> (g: VerilogCodeGenerator)
    ensures
        g.out() == fresh_output(),
        g.lv() == no_loops(),
        g.io.indent() == 0,
{
    let g = VerilogCodeGenerator::new();
    assert(g.out().pen.lines =~= Seq::<(usize, Seq<char>)>::empty());
    assert(g.out().pen.buffer =~= Seq::<char>::empty());
    assert(g.out().links =~= Seq::<(int, Seq<char>, Seq<char>, Seq<char>)>::empty());
    assert(g.lv() =~= no_loops());
    g
}

/// The links of a block, their names made Verilog identifiers.
pub fn verilog_link_extraction(code: &VerilogBlock) -> (r: Vec<VerilogLink>)
    requires
        block_ok(code@, no_loops(), 0),
    ensures
        links_view(r@) == block_out(fresh_output(), code@, no_loops()).links,
{
    let mut g = fresh_generator();
    g.write_block(code);
    g.links
}

/// The Verilog of a combinatorial block: `always @(*) ` and the block.
pub fn verilog_combinatorial(code: &VerilogBlock) -> (r: String)
    requires
        block_ok(code@, no_loops(), 0),
    ensures
        r@ == "always @(*) "@ + render(block_out(fresh_output(), code@, no_loops()).pen.lines)
            + "\n"@,
{
    let mut g = fresh_generator();
    g.write_block(code);
    let mut r = String::from_str("always @(*) ");
    let body = g.io.to_string();
    r.append(body.as_str());
    r.append("\n");
    r
}

/// Whether the block can be generated: each name can be made an
/// identifier, each loop bound fits in 32 bits.
pub fn block_can_be_generated(code: &VerilogBlock) -> (r: bool)
    ensures
        r == block_ok(code@, no_loops(), 0),
{
    let mut g = fresh_generator();
    g.block_writable(code, 0)
}

/// [verilog_combinatorial], or `None` where the block cannot be generated.
pub fn try_verilog_combinatorial(code: &VerilogBlock) -> (r: Option<String>)
    ensures
        r is Some <==> block_ok(code@, no_loops(), 0),
        r matches Some(s) ==> s@ == "always @(*) "@ + render(
            block_out(fresh_output(), code@, no_loops()).pen.lines,
        ) + "\n"@,
{
    if block_can_be_generated(code) {
        Some(verilog_combinatorial(code))
    } else {
        None
    }
}

/// [verilog_link_extraction], or `None` where the block cannot be
/// generated.
pub fn try_verilog_link_extraction(code: &VerilogBlock) -> (r: Option<Vec<VerilogLink>>)
    ensures
        r is Some <==> block_ok(code@, no_loops(), 0),
        r matches Some(v) ==> links_view(v@) == block_out(fresh_output(), code@, no_loops()).links,
{
    if block_can_be_generated(code) {
        Some(verilog_link_extraction(code))
    } else {
        None
    }
}

/// The marker line that opens a black box declaration.
pub open spec fn blackbox_marker() -> Seq<char> {
    "(* blackbox *)"@
}

/// The keyword that closes a module.
pub open spec fn endmodule_marker() -> Seq<char> {
    "endmodule"@
}

/// Whether, after the first `i` lines, a black box declaration is open.
pub open spec fn in_black_box(lines: Seq<Seq<char>>, i: nat) -> bool
    decreases i,
{
    if i == 0 {
        false
    } else {
        let l = lines[i - 1];
        if endmodule_marker().is_prefix_of(l) {
            false
        } else {
            in_black_box(lines, (i - 1) as nat) || blackbox_marker().is_prefix_of(l)
        }
    }
}

/// The lines among the first `i` that lie outside black box declarations; a
/// declaration runs from its marker line to the next line that starts with
/// `endmodule`, both included.
pub open spec fn kept_lines(lines: Seq<Seq<char>>, i: nat) -> Seq<Seq<char>>
    decreases i,
{
    if i == 0 {
        Seq::empty()
    } else {
        let l = lines[i - 1];
        let inside = in_black_box(lines, (i - 1) as nat) || blackbox_marker().is_prefix_of(l);
        if inside {
            kept_lines(lines, (i - 1) as nat)
        } else {
            kept_lines(lines, (i - 1) as nat).push(l)
        }
    }
}

/// Removes black box declarations (from a `(* blackbox *)` line through the
/// next `endmodule` line) from Verilog text.
pub fn filter_blackbox_directives(t: &str) -> (r: String)
    ensures
        r@ == join_seq(
            kept_lines(split_on(t@, '\n'), split_on(t@, '\n').len()),
            seq!['\n'],
        ),
{
    let lines = split_on_char(t, '\n');
    let ghost ls = split_on(t@, '\n');
    let mut in_bb = false;
    let mut ret: Vec<String> = Vec::new();
    for i in 0..lines.len()
        invariant
            strings_view(lines@) == ls,
            in_bb == in_black_box(ls, i as nat),
            strings_view(ret@) == kept_lines(ls, i as nat),
    {
        let line = lines[i].as_str();
        assert(line@ == ls[i as int]);
        in_bb = in_bb || crate::text::lines::starts_with(line, "(* blackbox *)");
        if !in_bb {
            let ghost before = ret@;
            let kept = line.to_owned();
            ret.push(kept);
            proof {
                crate::text::lines::lemma_strings_view_push(before, kept);
            }
        }
        if crate::text::lines::starts_with(line, "endmodule") {
            in_bb = false;
        }
    }
    proof {
        reveal_strlit("\n");
        assert("\n"@ =~= seq!['\n']);
    }
    join_strings(&ret, "\n")
}

/// The print of the first `k` lines begins the print of all lines.
proof fn lemma_render_prefix(ls: Seq<(usize, Seq<char>)>, k: int)
    requires
        0 <= k <= ls.len(),
    ensures
        render(ls.take(k)).is_prefix_of(render(ls)),
    decreases ls.len(),
{
    if k == ls.len() {
        assert(ls.take(k) =~= ls);
    } else {
        lemma_render_prefix(ls.drop_last(), k);
        assert(ls.drop_last().take(k) =~= ls.take(k));
        let a = render(ls.take(k));
        let b = render(ls.drop_last());
        assert(render(ls) == b + render_line(ls.last()));
        assert(a =~= (b + render_line(ls.last())).subrange(0, a.len() as int)) by {
            assert forall|i: int| 0 <= i < a.len() implies a[i] == (b + render_line(
                ls.last(),
            ))[i] by {
                assert(a[i] == b.subrange(0, a.len() as int)[i]);
            }
        }
    }
}

/// Law: the Verilog of a block is one `always @(*)` statement whose body
/// is a single frame: the text starts with `always @(*) begin` and a
/// newline, and ends with `end` and two newlines.
pub proof fn law_combinatorial_framed(code: Seq<VerilogStatement>)
    requires
        block_ok(code, no_loops(), 0),
    ensures
        "always @(*) begin\n"@.is_prefix_of(
            "always @(*) "@ + render(block_out(fresh_output(), code, no_loops()).pen.lines)
                + "\n"@,
        ),
        "end\n\n"@.is_suffix_of(
            "always @(*) "@ + render(block_out(fresh_output(), code, no_loops()).pen.lines)
                + "\n"@,
        ),
{
    reveal_strlit("always @(*) begin\n");
    reveal_strlit("always @(*) ");
    reveal_strlit("end\n\n");
    reveal_strlit("end");
    reveal_strlit("begin");
    reveal_strlit("\n");
    reveal_strlit("begin\n");
    reveal_strlit("end\n");
    let o = fresh_output();
    assert(!o.pen.buffer.contains('\n'));
    law_block_framed(o, code, no_loops());
    let ls = block_out(o, code, no_loops()).pen.lines;
    let first: (usize, Seq<char>) = (0, Seq::<char>::empty() + "begin"@);
    assert(o.pen.lines.push(first) =~= seq![first]);
    assert(ls.subrange(0, 1) =~= seq![first]);
    assert(ls[0] == ls.subrange(0, 1)[0]);
    lemma_render_prefix(ls, 1);
    assert(ls.take(1) =~= seq![first]);
    assert(seq![first].drop_last() =~= Seq::<(usize, Seq<char>)>::empty());
    let head = render(seq![first]);
    assert(render(Seq::<(usize, Seq<char>)>::empty()) =~= Seq::<char>::empty());
    assert(head == render(seq![first].drop_last()) + render_line(first));
    assert(head =~= "begin\n"@) by {
        assert(Seq::new(4 * 0nat, |i: int| ' ') =~= Seq::<char>::empty());
        assert(render_line(first) =~= "begin"@ + seq!['\n']);
    }
    let body = render(ls);
    let t = "always @(*) "@ + body + "\n"@;
    assert("always @(*) begin\n"@ =~= t.subrange(0, 18)) by {
        assert(forall|i: int| 0 <= i < 6 ==> body[i] == head[i]);
    }
    assert(ls.len() > 0);
    let tail = render_line(ls.last());
    assert(tail =~= "end\n"@) by {
        assert(Seq::new(4 * 0nat, |i: int| ' ') =~= Seq::<char>::empty());
    }
    assert(body == render(ls.drop_last()) + tail);
    assert("end\n\n"@ =~= t.subrange(t.len() - 5, t.len() as int));
}

} // verus!
