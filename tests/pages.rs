use doxygen2man::index::{read_file, ParsedFile};
use doxygen2man::model::{FnParam, FunctionInfo, StructureInfo, StructureType};
use doxygen2man::page::{print_man_page, PageOptions};
use doxygen2man::pages::{render_man_pages, print_man_pages};
use doxygen2man::render::print_param;
use doxygen2man::tree::parse_document;

fn options(print_general: bool) -> PageOptions {
    PageOptions {
        man_section: 3,
        package_name: "Pkg".to_string(),
        header: "Manual".to_string(),
        header_prefix: "".to_string(),
        print_params: false,
        print_general,
    }
}

fn parse(xml: &str) -> ParsedFile {
    let nodes = match parse_document(xml.as_bytes()) {
        Ok(n) => n,
        Err(e) => panic!("not a document: {}", e.message),
    };
    read_file(&nodes, "unknown.h".to_string())
}

fn page_of(file: &ParsedFile, name: &str, general: bool) -> String {
    let f = file.functions.iter().find(|f| f.fn_name == name).expect("no such record");
    print_man_page(&options(general), &file.headerfile, "2024-01-02", f, &file.functions, &file.structures, "Copyright (C) me")
        .expect("no page")
}

const ADD: &str = r#"<?xml version="1.0"?>
<doxygen>
  <compounddef kind="file" id="math_8h">
    <compoundname>math.h</compoundname>
    <sectiondef kind="func">
      <memberdef kind="function" id="math_8h_add">
        <type>int</type>
        <definition>int add</definition>
        <argsstring>(int a, int b)</argsstring>
        <name>add</name>
        <param><type>int</type><declname>a</declname></param>
        <param><type>int</type><declname>b</declname></param>
        <briefdescription><para>Adds two numbers</para></briefdescription>
        <detaileddescription></detaileddescription>
      </memberdef>
    </sectiondef>
  </compounddef>
</doxygen>
"#;

#[test]
fn add_page_scenario() {
    let file = parse(ADD);
    let page = page_of(&file, "add", false);
    assert!(page.contains(".SH NAME\nadd \\- Adds two numbers\n"));
    assert!(page.contains("\\fBint add\\fP(\n    \\fBint  \\fP\\fIa\\fP,\n    \\fBint  \\fP\\fIb\\fP\n);\n"));
    assert!(!page.contains(".SH STRUCTURES"));
    assert!(!page.contains(".SH RETURN VALUES"));
    assert!(!page.contains(".SH DESCRIPTION"));
    assert!(page.starts_with(".\\\"  Automatically generated man page, do not edit\n.TH ADD 3 2024-01-02 \"Pkg\" \"Manual\"\n"));
    assert!(page.contains(".B #include <math.h>\n"));
    assert!(page.ends_with(".SH COPYRIGHT\nCopyright (C) me\n"));
}

#[test]
fn synopsis_lists_every_parameter_in_order() {
    let xml = r#"<doxygen><compounddef><compoundname>x.h</compoundname>
      <memberdef kind="function"><type>void</type><definition>void f</definition><name>f</name>
        <param><type>long</type><declname>first</declname></param>
        <param><type>char *</type><declname>second</declname></param>
        <param><type>int</type><declname>third</declname></param>
      </memberdef></compounddef></doxygen>"#;
    let file = parse(xml);
    let page = page_of(&file, "f", false);
    let start = page.find("\\fBvoid f\\fP(\n").unwrap() + "\\fBvoid f\\fP(\n".len();
    let end = page[start..].find(");\n").unwrap() + start;
    let lines: Vec<&str> = page[start..end].lines().collect();
    assert_eq!(lines.len(), 3);
    assert_eq!(lines[0], "    \\fBlong    \\fP\\fIfirst\\fP,");
    assert_eq!(lines[1], "    \\fBchar   *\\fP\\fIsecond\\fP,");
    assert_eq!(lines[2], "    \\fBint     \\fP\\fIthird\\fP");
}

const SHARED: &str = r#"<doxygen><compounddef><compoundname>s.h</compoundname>
  <memberdef kind="function"><type>int</type><definition>int copy</definition><name>copy</name>
    <param><type>struct <ref refid="structbuf" kindref="compound">buf</ref> *</type><declname>to</declname></param>
    <param><type>const struct <ref refid="structbuf" kindref="compound">buf</ref> *</type><declname>from</declname></param>
    <param><type><ref refid="structaaa" kindref="compound">aaa</ref></type><declname>x</declname></param>
  </memberdef></compounddef></doxygen>"#;

const BUF: &str = r#"<doxygen><compounddef id="structbuf" kind="struct"><compoundname>buf</compoundname>
  <briefdescription><para>A buffer</para></briefdescription>
  <sectiondef kind="public-attrib">
    <memberdef kind="variable"><type>char</type><name>data</name><argsstring>[10]</argsstring></memberdef>
    <memberdef kind="variable"><type>size_t</type><name>len</name></memberdef>
  </sectiondef></compounddef></doxygen>"#;

#[test]
fn shared_structure_listed_once() {
    let mut file = parse(SHARED);
    let f = &file.functions[0];
    assert_eq!(f.fn_refids, vec!["structaaa".to_string(), "structbuf".to_string()]);
    let pending = file.structures.pending_structures();
    assert_eq!(pending, vec!["structbuf".to_string(), "structaaa".to_string()]);
    let buf = parse_document(BUF.as_bytes()).ok().unwrap();
    file.structures.resolve_structure("structbuf".to_string(), &buf);
    assert_eq!(file.structures.pending_structures(), vec!["structaaa".to_string()]);
    let page = page_of(&file, "copy", false);
    assert_eq!(page.matches(".SH STRUCTURES").count(), 1);
    assert_eq!(page.matches("struct buf {").count(), 1);
    assert!(page.contains("A buffer\n\n.nf\n\\fB\nstruct buf {\n    char    \\fIdata[10]\\fP;\n    size_t  \\fIlen\\fP\n};\\fP\n.PP\n.fi\n"));
    assert!(!page.contains("aaa {"));
}

#[test]
fn unresolved_structure_is_left_out() {
    let file = parse(SHARED);
    let page = page_of(&file, "copy", false);
    assert!(!page.contains(".SH STRUCTURES"));
}

fn param(ty: &str, name: &str) -> FnParam {
    FnParam { par_name: name.to_string(), par_type: ty.to_string(), par_refid: None, par_desc: String::new(), par_brief: String::new() }
}

#[test]
fn pointer_tokens_are_glued_to_the_name() {
    let mut out = String::new();
    print_param(&mut out, &param("char **", "argv"), 6, false, "");
    assert_eq!(out, "    char  **\\fIargv\\fP\n");
    let mut out = String::new();
    print_param(&mut out, &param("char *", "s"), 6, false, ";");
    assert_eq!(out, "    char   *\\fIs\\fP;\n");
    let mut out = String::new();
    print_param(&mut out, &param("int", "n"), 6, true, ",");
    assert_eq!(out, "    \\fBint     \\fP\\fIn\\fP,\n");
    let mut out = String::new();
    print_param(&mut out, &param("void (*", "cb"), 0, false, "");
    assert_eq!(out, "    void (*\\fIcb\\fP\n");
}

#[test]
fn description_section_only_when_there_is_one() {
    let file = parse(ADD);
    assert!(!page_of(&file, "add", false).contains(".SH DESCRIPTION"));
    let xml = ADD.replace("<detaileddescription></detaileddescription>",
        "<detaileddescription><para>First line.</para>\n<para>Second.</para></detaileddescription>");
    let file = parse(&xml);
    let page = page_of(&file, "add", false);
    assert_eq!(page.matches(".SH DESCRIPTION").count(), 1);
    assert!(page.contains(".SH DESCRIPTION\nFirst line.\n.PP\nSecond.\n.PP\n"));
}

const DEFINES: &str = r#"<doxygen><compounddef kind="file"><compoundname>d.h</compoundname>
  <briefdescription><para>Header brief</para></briefdescription>
  <memberdef kind="define"><name>FOO_BAR</name><initializer>42</initializer><briefdescription><para>The answer</para></briefdescription></memberdef>
  <memberdef kind="define"><name>fooBar</name><initializer>1</initializer></memberdef>
  <memberdef kind="define"><name>Foo_Bar</name><initializer>2</initializer></memberdef>
  <memberdef kind="function"><type>void</type><definition>void g</definition><name>g</name></memberdef>
  </compounddef></doxygen>"#;

#[test]
fn defines_keep_upper_case_names_only() {
    let file = parse(DEFINES);
    assert_eq!(file.headerfile, "d.h");
    let general = file.functions.last().unwrap();
    assert_eq!(general.fn_name, "d.h");
    assert_eq!(general.fn_defines.len(), 3);
    let page = page_of(&file, "d.h", true);
    assert!(page.contains(".SH DEFINES\n.PP\nThe answer\n.br\n#define FOO_BAR 42\n.br\n"));
    assert!(!page.contains("fooBar"));
    assert!(!page.contains("Foo_Bar"));
    assert!(page.contains(".SH NAME\nd.h \\- Header brief\n"));
}

#[test]
fn header_page_only_when_asked_for() {
    let file = parse(DEFINES);
    let f = file.functions.last().unwrap();
    assert!(print_man_page(&options(false), &file.headerfile, "d", f, &file.functions, &file.structures, "").is_none());
    let pages = render_man_pages(&options(false), "out", "d", "", &file);
    assert_eq!(pages.len(), 1);
    assert_eq!(pages[0].file_name, "out/g.3");
    let pages = render_man_pages(&options(true), "out", "d", "", &file);
    assert_eq!(pages.len(), 2);
    assert_eq!(pages[1].file_name, "out/d.h.3");
    assert!(!pages[0].contents.contains(".SH COPYRIGHT"));
}

#[test]
fn see_also_lists_the_other_functions() {
    let xml = r#"<doxygen><compounddef><compoundname>h.h</compoundname>
      <memberdef kind="function"><name>one</name></memberdef>
      <memberdef kind="function"><name>two</name></memberdef>
      <memberdef kind="function"><name>three</name></memberdef>
      </compounddef></doxygen>"#;
    let file = parse(xml);
    let page = page_of(&file, "two", false);
    assert!(page.contains(".SH SEE ALSO\n.PP\n.nh\n.ad l\n\\fIone\\fR(3), \n\\fIthree\\fR(3), \n\\fIh.h\\fR(3)\n"));
    let page = page_of(&file, "h.h", true);
    assert!(page.contains("\\fIone\\fR(3), \n\\fItwo\\fR(3), \n\\fIthree\\fR(3)\n"));
}

#[test]
fn return_values_and_notes() {
    let xml = r#"<doxygen><compounddef><compoundname>r.h</compoundname>
      <memberdef kind="function"><name>r</name>
        <detaileddescription><para>Body text.<simplesect kind="return"><para>0 on success</para></simplesect></para>
          <para><parameterlist kind="retval"><parameteritem><parameternamelist><parametername>-EINVAL</parametername></parameternamelist><parameterdescription><para>bad</para></parameterdescription></parameteritem></parameterlist></para>
          <para><simplesect kind="note"><para>Be careful</para></simplesect></para>
        </detaileddescription>
      </memberdef></compounddef></doxygen>"#;
    let file = parse(xml);
    let f = &file.functions[0];
    assert_eq!(f.fn_detail, "Body text.");
    assert_eq!(f.fn_returnval, "0 on success");
    assert_eq!(f.fn_note, "Be careful");
    assert_eq!(f.fn_retvals.len(), 1);
    assert_eq!(f.fn_retvals[0].ret_name, "\\fB-EINVAL\\fP");
    assert_eq!(f.fn_retvals[0].ret_desc, "bad");
    let page = page_of(&file, "r", false);
    assert!(page.contains(".SH RETURN VALUES\n0 on success\n.br\n\\fB-EINVAL\\fP bad\n.br\n.PP\n"));
    assert!(page.contains(".SH NOTE\nBe careful\n.PP\n"));
}

#[test]
fn enums_are_resolved_in_the_first_pass() {
    let xml = r#"<doxygen><compounddef><compoundname>e.h</compoundname>
      <memberdef kind="enum" id="e_8h_color"><name>color</name>
        <enumvalue><name>RED</name></enumvalue><enumvalue><name>GREEN</name><initializer>= 2</initializer></enumvalue>
      </memberdef>
      <memberdef kind="function"><type>void</type><definition>void paint</definition><name>paint</name>
        <param><type>enum <ref refid="e_8h_color">color</ref></type><declname>c</declname></param>
      </memberdef></compounddef></doxygen>"#;
    let file = parse(xml);
    assert!(file.structures.pending_structures().is_empty());
    let s: &StructureInfo = file.structures.resolved("e_8h_color").unwrap();
    assert!(s.str_type == StructureType::StrEnum);
    assert_eq!(s.str_members.len(), 2);
    let page = page_of(&file, "paint", false);
    assert!(page.contains(".SH STRUCTURES\n\n.nf\n\\fB\nenum color {\n      \\fIRED\\fP;\n      \\fIGREEN\\fP\n};\\fP\n"));
}

#[test]
fn pages_with_today_as_date() {
    let file = parse(ADD);
    let pages = print_man_pages(&options(false), ".", "", 0, 2010, "Acme", None, &file);
    assert_eq!(pages.len(), 1);
    let th = pages[0].contents.lines().nth(1).unwrap().to_string();
    let date = th.split(' ').nth(3).unwrap();
    let parts: Vec<&str> = date.split('-').collect();
    assert_eq!(parts.len(), 3);
    assert!(parts.iter().all(|p| !p.is_empty() && p.chars().all(|c| c.is_ascii_digit())));
    let copyright = pages[0].contents.lines().last().unwrap().to_string();
    assert!(copyright.starts_with("Copyright (C) 2010-"));
    assert!(copyright.ends_with(" Acme, All rights reserved"));
    let pages = print_man_pages(&options(false), ".", "May 2020", 2021, 2010, "Acme", Some("Copyright 2009 X".to_string()), &file);
    assert!(pages[0].contents.contains(".TH ADD 3 May 2020 \"Pkg\""));
    assert!(pages[0].contents.ends_with(".SH COPYRIGHT\nCopyright 2009 X\n"));
}

#[test]
fn empty_function_record() {
    let f = FunctionInfo::new();
    assert!(f.fn_name.is_empty() && f.fn_args.is_empty() && f.fn_refids.is_empty());
    let s = StructureInfo::new();
    assert!(s.str_type == StructureType::StrUnknown && s.str_members.is_empty());
}
