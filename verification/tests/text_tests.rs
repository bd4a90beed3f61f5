use rust_hdl::docs::vcd2svg::symbols;
use rust_hdl::docs::vcd2svg::text_frame::TextFrame;
use rust_hdl::docs::vcd2svg::utils::time_label;
use rust_hdl::hdl_core::code_writer::CodeWriter;
use rust_hdl::hdl_core::named_path::NamedPath;
use rust_hdl::hdl_core::verilog_gen::filter_blackbox_directives;
use rust_hdl::toolchain::ecp5::generate_pcf;

#[test]
fn test_frame_draw_stuff() {
    let mut x = TextFrame::new(16);
    x.write(0, 0, "hello world!");
    assert_eq!(x.to_string(), "hello world!    ");
    x.write(1, 0, "foo!");
    assert_eq!(x.to_string(), "hello world!    \nfoo!            ");
    x.put(1, 1, symbols::HORIZONTAL);
    assert_eq!(x.to_string(), "hello world!    \nf─o!            ");
}

#[test]
fn test_filter_bb_directives() {
    let p = r#"
blah
more code
goes here

(* blackbox *)
module my_famous_module(
    super_secret_arg1,
    super_secret_arg2,
    super_secret_arg3);
/* Comment */
endmodule

stuff
"#;
    let q = filter_blackbox_directives(p);
    println!("{}", q);
    assert!(!q.contains("blackbox"));
    assert!(!q.contains("module"));
    assert!(!q.contains("endmodule"));
    assert!(q.contains("more code"));
    assert!(q.contains("stuff"));
}

#[test]
fn filter_keeps_text_without_black_boxes() {
    let p = "a\nb\nc";
    assert_eq!(filter_blackbox_directives(p), "a\nb\nc");
    assert_eq!(filter_blackbox_directives("x\n(* blackbox *) m\nendmodule\ny"), "x\ny");
}

#[test]
fn frame_write_clips_at_width() {
    let mut x = TextFrame::new(4);
    x.write(2, 2, "abc");
    assert_eq!(x.to_string(), "    \n    \n  ab");
    x.write(0, 9, "zz");
    assert_eq!(x.to_string(), "    \n    \n  ab");
    x.put(0, 3, 'q');
    assert_eq!(x.to_string(), "   q\n    \n  ab");
}

#[test]
fn time_label_picks_unit() {
    assert_eq!(time_label(0), "0ps");
    assert_eq!(time_label(999), "999ps");
    assert_eq!(time_label(1000), "1ns");
    assert_eq!(time_label(25_500_000), "25us");
    assert_eq!(time_label(7_000_000_000), "7ms");
}

#[test]
fn named_path_push_pop() {
    let mut p = NamedPath::new();
    p.push("top");
    p.push("uut");
    p.push("clk");
    assert_eq!(p.to_string(), "top$uut$clk");
    assert_eq!(p.parent(), "top$uut");
    assert_eq!(p.last(), "clk");
    assert_eq!(p.flat("."), "top.uut.clk");
    assert_eq!(p.len(), 3);
    p.pop();
    assert_eq!(p.to_string(), "top$uut");
    p.reset();
    assert_eq!(p.len(), 0);
    assert_eq!(p.to_string(), "");
}

#[test]
fn code_writer_indents_lines() {
    let mut w = CodeWriter::new();
    w.add_line("module top;");
    w.push();
    w.add("wire a;\nwire b;\n");
    w.write("assign a = ");
    w.writeln("b;");
    w.pop();
    w.next();
    w.add_line("endmodule");
    assert_eq!(
        w.to_string(),
        "module top;\n    wire a;\n    wire b;\n    assign a = b;\n\nendmodule\n"
    );
}

#[test]
fn pcf_drops_repeats() {
    let lines = vec![
        "LOCATE COMP \"a\" SITE \"A1\"".to_string(),
        "IOBUF PORT \"a\" IO_TYPE=LVCMOS33".to_string(),
        "LOCATE COMP \"a\" SITE \"A1\"".to_string(),
    ];
    assert_eq!(
        generate_pcf(&lines),
        "LOCATE COMP \"a\" SITE \"A1\";\nIOBUF PORT \"a\" IO_TYPE=LVCMOS33;\n"
    );
    assert_eq!(generate_pcf(&vec![]), ";\n");
}
