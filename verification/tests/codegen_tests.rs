use rust_hdl::hdl_core::ast::VerilogLinkDetails;
use rust_hdl::hdl_core::ident_fixup::{LoopVariable, VerilogCodeGenerator};

fn generator(loops: &[(&str, usize)]) -> VerilogCodeGenerator {
    let mut g = VerilogCodeGenerator::new();
    for (name, value) in loops {
        g.loops.push(LoopVariable {
            variable: name.to_string(),
            value: *value,
        });
    }
    g
}

#[test]
fn test_array_replacement() {
    let g = generator(&[("i", 5)]);
    let r = g.array_index_simplification("a[((i+1))]");
    assert_eq!(r, "a$6");
}

#[test]
fn array_index_without_brackets_is_unchanged() {
    let g = generator(&[("i", 5)]);
    assert_eq!(g.array_index_simplification("a$b"), "a$b");
}

#[test]
fn only_the_first_index_is_evaluated() {
    let g = generator(&[("i", 2)]);
    assert_eq!(g.array_index_simplification("a[i][i+1]"), "a$2[i+1]");
}

#[test]
fn separators_become_dollars() {
    let g = generator(&[]);
    assert_eq!(g.ident_fixup(".top.sub::x$next"), "top$sub$x");
    assert_eq!(g.ident_fixup("a::b::c"), "a$b$c");
    assert_eq!(g.ident_fixup("x$next$next"), "x");
    assert_eq!(g.ident_fixup("next"), "next");
}

#[test]
fn loop_index_becomes_its_value() {
    let g = generator(&[("i", 3)]);
    assert_eq!(g.ident_fixup("i"), "3");
    assert_eq!(g.ident_fixup("j"), "j");
}

#[test]
fn later_loop_wins_on_a_chain() {
    // "i" becomes "3", which equals the name of the second loop index.
    let g = generator(&[("i", 3), ("3", 7)]);
    assert_eq!(g.ident_fixup("i"), "7");
}

#[test]
fn index_is_evaluated_with_loop_values() {
    let g = generator(&[("i", 3)]);
    assert_eq!(g.ident_fixup(".a.b[i+1]$next"), "a$b$4");
    assert_eq!(g.ident_fixup("mem[2*i]::data"), "mem$6$data");
}

#[test]
fn unevaluable_index_gives_none() {
    let g = generator(&[]);
    assert!(!g.index_can_be_evaluated("x[j]"));
    assert_eq!(g.try_ident_fixup("x[j]"), None);
    assert!(g.index_can_be_evaluated("x[2*3]"));
    assert_eq!(g.try_ident_fixup("x[2*3]"), Some("x$6".to_string()));
    assert_eq!(g.try_ident_fixup("plain.name"), Some("plain$name".to_string()));
}

#[test]
fn link_names_are_fixed() {
    let g = generator(&[("k", 1)]);
    let l = VerilogLinkDetails {
        my_name: "clock$next".to_string(),
        owner_name: ".outer.inner".to_string(),
        other_name: "parts[k]".to_string(),
    };
    let r = g.link_fixup(&l);
    assert_eq!(r.my_name, "clock");
    assert_eq!(r.owner_name, "outer$inner");
    assert_eq!(r.other_name, "parts$1");
}

use rust_hdl::hdl_core::ast::{
    mask_hex, VerilogBlockOrConditional, VerilogCase, VerilogConditional, VerilogExpression,
    VerilogLink, VerilogLiteral, VerilogLoop, VerilogMatch, VerilogOp, VerilogOpUnary,
    VerilogStatement,
};
use rust_hdl::hdl_core::bits::bits;
use rust_hdl::hdl_core::verilog_gen::{
    block_can_be_generated, try_verilog_combinatorial, try_verilog_link_extraction,
    verilog_combinatorial, verilog_link_extraction,
};

fn sig(name: &str) -> VerilogExpression {
    VerilogExpression::Signal(name.to_string())
}

fn boxed(e: VerilogExpression) -> Box<VerilogExpression> {
    Box::new(e)
}

fn assign(l: VerilogExpression, r: VerilogExpression) -> VerilogStatement {
    VerilogStatement::Assignment(l, r)
}

#[test]
fn literal_text_follows_width() {
    assert_eq!(VerilogLiteral::from_u32(1).to_string(), "32'h1");
    assert_eq!(VerilogLiteral::from_u64(255).to_string(), "64'hff");
    assert_eq!(VerilogLiteral::from_bool(true).to_string(), "1'b1");
    assert_eq!(VerilogLiteral::from_bool(false).to_string(), "1'b0");
    assert_eq!(VerilogLiteral::from_bits(bits::<5>(3)).to_string(), "5'b11");
    assert_eq!(VerilogLiteral::from_bits(bits::<8>(0xa5)).to_string(), "8'ha5");
    assert_eq!(VerilogLiteral::from_bits(bits::<22>(5)).to_string(), "22'h5");
    assert_eq!(VerilogLiteral::from_u32(0).to_string(), "32'h0");
    assert_eq!(VerilogLiteral::from_u64(0x1234).to_lower_hex_string(), "64'h1234");
}

#[test]
fn literal_as_usize() {
    assert_eq!(VerilogLiteral::from_u32(0).as_usize(), 0);
    assert_eq!(VerilogLiteral::from_u64(4294967295).as_usize(), 4294967295);
    assert!(VerilogLiteral::from_u64(4294967295).fits_u32());
    assert!(!VerilogLiteral::from_u64(4294967296).fits_u32());
}

#[test]
fn mask_is_all_ones() {
    assert_eq!(mask_hex(0), "0");
    assert_eq!(mask_hex(5), "1f");
    assert_eq!(mask_hex(8), "ff");
    assert_eq!(mask_hex(68), "fffffffffffffffff");
}

#[test]
fn expressions_are_written_in_place() {
    let mut g = generator(&[]);
    let e = VerilogExpression::Binary(
        boxed(sig("a.b")),
        VerilogOp::Add,
        boxed(VerilogExpression::Literal(VerilogLiteral::from_u32(1))),
    );
    g.write_expression(&e);
    g.io.write(";");
    g.write_expression(&VerilogExpression::Cast(boxed(sig("x")), 5));
    g.io.write(";");
    g.write_expression(&VerilogExpression::Slice(
        boxed(sig("x")),
        4,
        boxed(VerilogExpression::Literal(VerilogLiteral::from_u32(2))),
    ));
    g.io.write(";");
    g.write_expression(&VerilogExpression::IndexReplace(
        boxed(sig("x")),
        boxed(sig("n")),
        boxed(sig("v")),
    ));
    g.io.write(";");
    g.write_expression(&VerilogExpression::Unary(
        VerilogOpUnary::Not,
        boxed(VerilogExpression::Paren(boxed(sig("y")))),
    ));
    g.io.write(";");
    g.write_expression(&VerilogExpression::Index(boxed(sig("m")), boxed(sig("k"))));
    g.io.flush();
    assert_eq!(
        g.io.to_string(),
        "a$b + 32'h1;(x) & 5'h1f;x[(32'h2)+:(4)];(x & ~(1 << (n)) | ((v) << (n)));~(y);m[k]\n"
    );
}

#[test]
fn assignment_block() {
    let code = vec![assign(
        sig("a"),
        VerilogExpression::Binary(
            boxed(sig("b")),
            VerilogOp::Add,
            boxed(VerilogExpression::Literal(VerilogLiteral::from_u32(1))),
        ),
    )];
    assert_eq!(
        verilog_combinatorial(&code),
        "always @(*) begin\n    a = b + 32'h1;\nend\n\n"
    );
}

#[test]
fn if_else_block() {
    let code = vec![VerilogStatement::If(VerilogConditional {
        test: sig("x"),
        then_block: vec![assign(
            sig("y"),
            VerilogExpression::Literal(VerilogLiteral::from_bool(true)),
        )],
        otherwise: VerilogBlockOrConditional::Block(vec![assign(
            sig("y"),
            VerilogExpression::Literal(VerilogLiteral::from_bool(false)),
        )]),
    })];
    assert_eq!(
        verilog_combinatorial(&code),
        "always @(*) begin\n    if (x) begin\n        y = 1'b1;\n    end\n    else begin\n        y = 1'b0;\n    end\nend\n\n"
    );
}

#[test]
fn else_if_chain() {
    let inner = VerilogStatement::If(VerilogConditional {
        test: sig("z"),
        then_block: vec![assign(sig("y"), sig("a"))],
        otherwise: VerilogBlockOrConditional::Nothing,
    });
    let code = vec![VerilogStatement::If(VerilogConditional {
        test: sig("x"),
        then_block: vec![assign(sig("y"), sig("b"))],
        otherwise: VerilogBlockOrConditional::Conditional(Box::new(inner)),
    })];
    assert_eq!(
        verilog_combinatorial(&code),
        "always @(*) begin\n    if (x) begin\n        y = b;\n    end\n    else if (z) begin\n        y = a;\n    end\nend\n\n"
    );
}

#[test]
fn case_block() {
    let code = vec![VerilogStatement::Match(VerilogMatch {
        test: sig("state"),
        cases: vec![
            VerilogCase {
                condition: "State::Idle".to_string(),
                block: vec![assign(sig("q"), sig("a"))],
            },
            VerilogCase {
                condition: "default".to_string(),
                block: vec![],
            },
        ],
    })];
    assert_eq!(
        verilog_combinatorial(&code),
        "always @(*) begin\n    case (state)\n        State$Idle:\n            begin\n                q = a;\n            end\n        default:\n            begin\n            end\n    endcase\nend\n\n"
    );
}

#[test]
fn loops_are_unrolled() {
    let code = vec![VerilogStatement::Loop(VerilogLoop {
        index: "i".to_string(),
        from: VerilogLiteral::from_u32(0),
        to: VerilogLiteral::from_u32(2),
        block: vec![assign(
            VerilogExpression::Index(boxed(sig("a")), boxed(sig("i"))),
            sig("b[i+1]"),
        )],
    })];
    assert_eq!(
        verilog_combinatorial(&code),
        "always @(*) begin\n    a[0] = b$1;\n    a[1] = b$2;\nend\n\n"
    );
}

#[test]
fn empty_loop_writes_nothing() {
    let code = vec![VerilogStatement::Loop(VerilogLoop {
        index: "i".to_string(),
        from: VerilogLiteral::from_u32(3),
        to: VerilogLiteral::from_u32(3),
        block: vec![assign(sig("a"), sig("b"))],
    })];
    assert_eq!(verilog_combinatorial(&code), "always @(*) begin\nend\n\n");
}

#[test]
fn comments_and_slices() {
    let code = vec![
        VerilogStatement::Comment("first\nsecond".to_string()),
        VerilogStatement::SliceAssignment {
            base: "out.bus".to_string(),
            width: 8,
            offset: VerilogExpression::Literal(VerilogLiteral::from_u32(16)),
            replacement: sig("byte"),
        },
    ];
    assert_eq!(
        verilog_combinatorial(&code),
        "always @(*) begin\n    // first\n    second\n    out$bus[(32'h10)+:(8)] = byte;\nend\n\n"
    );
}

#[test]
fn links_are_extracted_with_fixed_names() {
    let details = VerilogLinkDetails {
        my_name: "a".to_string(),
        owner_name: ".top.x".to_string(),
        other_name: "y$next".to_string(),
    };
    let code = vec![
        assign(sig("p"), sig("q")),
        VerilogStatement::Link(vec![VerilogLink::Backward(details)]),
    ];
    let links = verilog_link_extraction(&code);
    assert_eq!(links.len(), 1);
    match &links[0] {
        VerilogLink::Backward(d) => {
            assert_eq!(d.my_name, "a");
            assert_eq!(d.owner_name, "top$x");
            assert_eq!(d.other_name, "y");
        }
        _ => panic!("wrong kind of link"),
    }
    assert_eq!(
        verilog_combinatorial(&code),
        "always @(*) begin\n    p = q;\nend\n\n"
    );
}

#[test]
fn unwritable_blocks_are_refused() {
    let bad = vec![assign(sig("a"), sig("b[q]"))];
    assert!(!block_can_be_generated(&bad));
    assert!(try_verilog_combinatorial(&bad).is_none());
    assert!(try_verilog_link_extraction(&bad).is_none());
    let huge = vec![VerilogStatement::Loop(VerilogLoop {
        index: "i".to_string(),
        from: VerilogLiteral::from_u32(0),
        to: VerilogLiteral::from_u64(1 << 40),
        block: vec![],
    })];
    assert!(!block_can_be_generated(&huge));
    let good = vec![assign(sig("a"), sig("b[1+1]"))];
    assert!(block_can_be_generated(&good));
    assert_eq!(
        try_verilog_combinatorial(&good),
        Some("always @(*) begin\n    a = b$2;\nend\n\n".to_string())
    );
    assert_eq!(try_verilog_link_extraction(&good).map(|v| v.len()), Some(0));
}

use rust_hdl::hdl_core::check_write_inputs::get_write_list;

#[test]
fn write_list_collects_assigned_names() {
    let code = vec![
        assign(sig("a$next"), sig("b")),
        VerilogStatement::If(VerilogConditional {
            test: sig("x"),
            then_block: vec![assign(
                VerilogExpression::Index(boxed(sig("c$next")), boxed(sig("i"))),
                sig("d"),
            )],
            otherwise: VerilogBlockOrConditional::Conditional(Box::new(assign(
                sig("a$next"),
                sig("e"),
            ))),
        }),
        VerilogStatement::SliceAssignment {
            base: "s$next$next".to_string(),
            width: 2,
            offset: sig("o"),
            replacement: sig("r"),
        },
        VerilogStatement::Loop(VerilogLoop {
            index: "j".to_string(),
            from: VerilogLiteral::from_u32(0),
            to: VerilogLiteral::from_u32(4),
            block: vec![assign(sig("f"), sig("g"))],
        }),
        VerilogStatement::Match(VerilogMatch {
            test: sig("state"),
            cases: vec![VerilogCase {
                condition: "A".to_string(),
                block: vec![assign(sig("h"), sig("k"))],
            }],
        }),
        VerilogStatement::Comment("not a signal".to_string()),
    ];
    let mut w = get_write_list(&code);
    w.sort();
    assert_eq!(w, vec!["a", "c", "f", "h", "i", "s"]);
}

#[test]
fn write_list_removes_every_next() {
    let code = vec![assign(sig("x$nextnext$next"), sig("y"))];
    assert_eq!(get_write_list(&code), vec!["xnext".to_string()]);
    assert!(get_write_list(&vec![]).is_empty());
}
