use doxygen2man::builders::{collect_function_info, collect_text_and_refid, read_structure_member};
use doxygen2man::detail::collect_detail_bits;
use doxygen2man::dump::print_text_function;
use doxygen2man::events::{Attribute, XmlToken};
use doxygen2man::index::{companion_file_name, read_file};
use doxygen2man::markup::{collect_text, get_attr};
use doxygen2man::pages::{default_copyright, page_date, read_header_copyright};
use doxygen2man::tree::{build_tree, parse_document, Element, Node};

fn root(xml: &str) -> Element {
    let nodes = parse_document(xml.as_bytes()).ok().expect("not a document");
    for n in nodes {
        if let Node::Element(e) = n {
            return e;
        }
    }
    panic!("no element");
}

#[test]
fn tokenizer_reads_elements_and_text() {
    let nodes = parse_document(b"<a x=\"1\">hi<b/></a>").ok().unwrap();
    let e = nodes.iter().find_map(|n| if let Node::Element(e) = n { Some(e) } else { None }).unwrap();
    assert_eq!(e.name, "a");
    assert_eq!(get_attr(e, "x"), "1");
    assert_eq!(get_attr(e, "y"), "");
    assert_eq!(e.children.len(), 2);
    assert!(matches!(&e.children[0], Node::Text(t) if t == "hi"));
    assert!(matches!(&e.children[1], Node::Element(b) if b.name == "b" && b.children.is_empty()));
}

#[test]
fn malformed_input_is_refused() {
    assert!(parse_document(b"<a><b></a>").is_err());
    assert!(parse_document(b"<a>").is_err());
    assert!(parse_document(b"").is_err());
}

#[test]
fn tree_from_tokens() {
    let toks = vec![
        XmlToken::Other,
        XmlToken::Start { name: "a".to_string(), attrs: vec![Attribute { name: "k".to_string(), value: "v".to_string() }] },
        XmlToken::Text("t".to_string()),
        XmlToken::End { name: "a".to_string() },
        XmlToken::EndDocument,
    ];
    let nodes = build_tree(toks).ok().unwrap();
    assert_eq!(nodes.len(), 2);
    let bad = vec![
        XmlToken::Start { name: "a".to_string(), attrs: vec![] },
        XmlToken::End { name: "b".to_string() },
        XmlToken::EndDocument,
    ];
    assert!(build_tree(bad).is_err());
    let err = vec![XmlToken::Error("boom".to_string())];
    match build_tree(err) {
        Err(e) => assert_eq!(e.message, "boom"),
        Ok(_) => panic!("accepted an error"),
    }
}

#[test]
fn markup_is_rendered() {
    let e = root("<d><para>Use <emphasis>this</emphasis> and <computeroutput>that</computeroutput>.<sp/>Done   </para></d>");
    assert_eq!(collect_text(&e), "Use \\fBthis\\fR and that. Done");
    let e = root("<d><programlisting><codeline>a = 1;</codeline></programlisting></d>");
    assert_eq!(collect_text(&e), "\n.nf\na = 1;\n.fi");
    let e = root("<d><itemizedlist><listitem><para>one</para></listitem><listitem><para>two</para></listitem></itemizedlist></d>");
    assert_eq!(collect_text(&e), "\n\n* one\n* two");
    let e = root("<d>keep<bold>dropped</bold><xreftitle>gone</xreftitle></d>");
    assert_eq!(collect_text(&e), "keep");
    let e = root("<d><highlight class=\"keyword\">int</highlight><highlight class=\"normal\"> x</highlight></d>");
    assert_eq!(collect_text(&e), "\\fBint\\fR x");
    let e = root("<d><parameterlist kind=\"param\"><parameteritem><parameternamelist><parametername>n</parametername></parameternamelist><parameterdescription><para>count</para></parameterdescription></parameteritem></parameterlist></d>");
    assert_eq!(collect_text(&e), "\\fBn\\fP\\fIcount\\fP");
    let e = root("<d><note><para>mind</para></note></d>");
    assert_eq!(collect_text(&e), "mind");
}

#[test]
fn detail_blocks_are_concatenated() {
    let e = root(r#"<detaileddescription><para>A<simplesect kind="return"><para>r1</para></simplesect></para><para>B<simplesect kind="return"><para>r2</para></simplesect><simplesect kind="note"><para>n1</para></simplesect><simplesect kind="see"><para>s</para></simplesect></para></detaileddescription>"#);
    let d = collect_detail_bits(&e);
    assert_eq!(d.text, "ABs");
    assert_eq!(d.return_text, "r1r2");
    assert_eq!(d.notes, "n1");
    assert!(d.retvals.is_empty());
}

#[test]
fn parameter_reference_is_captured() {
    let e = root(r#"<type>struct <ref refid="structq" kindref="compound">q</ref> *</type>"#);
    let (text, refid) = collect_text_and_refid(&e);
    assert_eq!(text, "struct q *");
    assert_eq!(refid, Some("structq".to_string()));
    let e = root(r#"<memberdef kind="function"><name>f</name><param><type><ref refid="z">z</ref></type><declname>a</declname></param><param><type><ref refid="y">y</ref></type><declname>b</declname></param><param><type><ref refid="z">z</ref></type><declname>c</declname></param></memberdef>"#);
    let (f, refs) = collect_function_info(&e);
    assert_eq!(f.fn_refids, vec!["y".to_string(), "z".to_string()]);
    assert_eq!(refs.len(), 3);
    assert_eq!(refs[1], ("y".to_string(), "y".to_string()));
    assert_eq!(f.fn_args[2].par_name, "c");
    assert_eq!(f.fn_args[2].par_refid, Some("z".to_string()));
}

#[test]
fn member_name_takes_array_suffix() {
    let e = root("<memberdef><type>char</type><name>buf</name><argsstring>[10]</argsstring><briefdescription><para>storage</para></briefdescription></memberdef>");
    let m = read_structure_member(&e);
    assert_eq!(m.par_name, "buf[10]");
    assert_eq!(m.par_type, "char");
    assert_eq!(m.par_brief, "storage");
}

#[test]
fn first_pass_keeps_header_name_when_none_given() {
    let nodes = parse_document(b"<doxygen><memberdef kind=\"typedef\"><name>t</name><briefdescription><para>x</para></briefdescription></memberdef></doxygen>").ok().unwrap();
    let file = read_file(&nodes, "given.h".to_string());
    assert_eq!(file.headerfile, "given.h");
    assert_eq!(file.functions.len(), 1);
    assert_eq!(file.functions[0].fn_name, "given.h");
    assert_eq!(file.functions[0].fn_brief, "");
}

#[test]
fn text_listing() {
    let nodes = parse_document(br#"<doxygen><compounddef><compoundname>l.h</compoundname><memberdef kind="function"><type>int</type><name>f</name><argsstring>(int a)</argsstring><param><type>int</type><declname>a</declname></param><briefdescription><para>B</para></briefdescription></memberdef></compounddef></doxygen>"#).ok().unwrap();
    let file = read_file(&nodes, "u.h".to_string());
    let text = print_text_function(&file.functions[0], &file.structures);
    assert_eq!(text, "FUNCTION int f (int a)\n  PARAM: int a\nBRIEF: B\nDETAIL: \n----------------------\n");
}

#[test]
fn dates_and_copyright_lines() {
    assert_eq!(page_date("", (2024, 3, 7)), "2024-3-7");
    assert_eq!(page_date("today", (2024, 3, 7)), "today");
    assert_eq!(default_copyright(2010, 2024, "Red Hat Inc"), "Copyright (C) 2010-2024 Red Hat Inc, All rights reserved");
    assert_eq!(read_header_copyright("/*\n * Copyright (C) 2012 Someone\n */\n"), Some("Copyright (C) 2012 Someone".to_string()));
    assert_eq!(read_header_copyright("/* nothing */\r\n"), None);
    assert_eq!(companion_file_name("./xml", "structq"), "./xml/structq.xml");
}
