//! The pages of one input file: their dates, copyright line and file names.

use crate::index::{functions_view, EntryView, ParsedFile};
use crate::model::FunctionView;
use crate::page::{has_page, man_page, print_man_page, PageOptions};
use crate::text::{
    append_decimal, append_signed, decimal, lines, signed_decimal, split_lines, starts_with,
    string_of, chars_of,
};
use chrono::Datelike;
use vstd::prelude::*;

verus! {

broadcast use vstd::std_specs::vec::group_vec_axioms;

/// A calendar date as year, month and day of the month.
pub open spec fn valid_day(d: (i32, u32, u32)) -> bool {
    1 <= d.1 <= 12 && 1 <= d.2 <= 31
}

/// Relies on chrono's `Local::now` and its `Datelike` accessors: today's date in the local
/// time zone, with the month from 1 to 12 and the day from 1 to 31.
#[verifier::external_body]
fn local_today() -> (r: (i32, u32, u32))
    ensures
        valid_day(r),
{
    let now = chrono::Local::now();
    (now.year(), now.month(), now.day())
}

/// The date at the top of each page: the one given, or else `today` as `year-month-day`.
pub open spec fn date_text(manpage_date: Seq<char>, today: (i32, u32, u32)) -> Seq<char> {
    if manpage_date.len() > 0 {
        manpage_date
    } else {
        signed_decimal(today.0 as int) + "-"@ + decimal(today.1 as nat) + "-"@ + decimal(
            today.2 as nat,
        )
    }
}

/// The date at the top of each page.
pub fn page_date(manpage_date: &str, today: (i32, u32, u32)) -> (r: String)
    ensures
        r@ == date_text(manpage_date@, today),
{
    if manpage_date.unicode_len() > 0 {
        return String::from_str(manpage_date);
    }
    let mut r = String::new();
    append_signed(&mut r, today.0 as i64);
    r.append("-");
    append_decimal(&mut r, today.1 as u64);
    r.append("-");
    append_decimal(&mut r, today.2 as u64);
    assert(r@ =~= date_text(manpage_date@, today));
    r
}

/// The copyright line made from the years and the company.
pub open spec fn default_copyright_text(start_year: u32, year: i32, company: Seq<char>) -> Seq<
    char,
> {
    "Copyright (C) "@ + decimal(start_year as nat) + "-"@ + signed_decimal(year as int) + " "@
        + company + ", All rights reserved"@
}

/// The copyright line made from the years and the company.
pub fn default_copyright(start_year: u32, year: i32, company: &str) -> (r: String)
    ensures
        r@ == default_copyright_text(start_year, year, company@),
{
    let mut r = String::from_str("Copyright (C) ");
    append_decimal(&mut r, start_year as u64);
    r.append("-");
    append_signed(&mut r, year as i64);
    r.append(" ");
    r.append(company);
    r.append(", All rights reserved");
    assert(r@ =~= default_copyright_text(start_year, year, company@));
    r
}

/// The copyright line of a header's text, from its lines `ls`: the first that starts with
/// ` * Copyright`, without its leading ` * `.
pub open spec fn copyright_in(ls: Seq<Seq<char>>) -> Option<Seq<char>>
    decreases ls.len(),
{
    if ls.len() == 0 {
        None
    } else if ls[0].len() >= 12 && ls[0].subrange(0, 12) == " * Copyright"@ {
        Some(ls[0].subrange(3, ls[0].len() as int))
    } else {
        copyright_in(ls.drop_first())
    }
}

/// The copyright line of a header file's text, if it has one.
pub fn read_header_copyright(contents: &str) -> (r: Option<String>)
    ensures
        match r {
            Some(s) => copyright_in(lines(contents@)) == Some(s@),
            None => copyright_in(lines(contents@)) is None,
        },
{
    let ls = split_lines(contents);
    let ghost lv = ls@.map_values(|l: String| l@);
    let mut i: usize = 0;
    proof {
        reveal_strlit(" * Copyright");
        assert(lv.subrange(0, lv.len() as int) =~= lv);
    }
    while i < ls.len()
        invariant
            i <= ls.len(),
            lv == ls@.map_values(|l: String| l@),
            lv == lines(contents@),
            " * Copyright"@.len() == 12,
            copyright_in(lv) == copyright_in(lv.subrange(i as int, lv.len() as int)),
        decreases ls.len() - i,
    {
        let ghost rest = lv.subrange(i as int, lv.len() as int);
        assert(rest[0] == ls@[i as int]@);
        if starts_with(ls[i].as_str(), " * Copyright") {
            let cs = chars_of(ls[i].as_str());
            return Some(string_of(&cs, 3, cs.len()));
        }
        assert(rest.drop_first() =~= lv.subrange(i + 1, lv.len() as int));
        i = i + 1;
    }
    None
}

/// The copyright line of every page: the header's own where one was read (`Some`, empty if
/// reading it failed), else the line made from the years and the company.
pub open spec fn copyright_text(
    header_copyright: Option<Seq<char>>,
    start_year: u32,
    year: i32,
    company: Seq<char>,
) -> Seq<char> {
    match header_copyright {
        Some(c) => c,
        None => default_copyright_text(start_year, year, company),
    }
}

/// A page and the file it goes to.
pub struct ManPage {
    pub file_name: String,
    pub contents: String,
}

/// The file of the page for `name`: `<dir>/<name>.<section>`.
pub open spec fn man_file_name(dir: Seq<char>, name: Seq<char>, section: u32) -> Seq<char> {
    dir + "/"@ + name + "."@ + decimal(section as nat)
}

/// The pages for the records `fs[..n]` that get one, in order.
pub open spec fn pages_upto(
    o: PageOptions,
    dir: Seq<char>,
    headerfile: Seq<char>,
    date: Seq<char>,
    fs: Seq<FunctionView>,
    idx: Seq<(Seq<char>, EntryView)>,
    copyright: Seq<char>,
    n: int,
) -> Seq<(Seq<char>, Seq<char>)>
    decreases n,
{
    if n <= 0 || n > fs.len() {
        Seq::empty()
    } else {
        let p = pages_upto(o, dir, headerfile, date, fs, idx, copyright, n - 1);
        let f = fs[n - 1];
        if has_page(o, headerfile, f) {
            p.push(
                (
                    man_file_name(dir, f.name, o.man_section),
                    man_page(o, headerfile, date, f, fs, idx, copyright),
                ),
            )
        } else {
            p
        }
    }
}

/// The file name and contents of each page.
pub open spec fn pages_view(ps: Seq<ManPage>) -> Seq<(Seq<char>, Seq<char>)> {
    ps.map_values(|p: ManPage| (p.file_name@, p.contents@))
}

/// The pages of the input file `file`, with the given date and copyright line.
pub fn render_man_pages(
    o: &PageOptions,
    output_dir: &str,
    date: &str,
    copyright: &str,
    file: &ParsedFile,
) -> (r: Vec<ManPage>)
    ensures
        pages_view(r@) == pages_upto(
            *o,
            output_dir@,
            file.headerfile@,
            date@,
            functions_view(file.functions@),
            file.structures@,
            copyright@,
            file.functions@.len() as int,
        ),
{
    let ghost fs = functions_view(file.functions@);
    let mut out: Vec<ManPage> = Vec::new();
    let mut i: usize = 0;
    assert(pages_view(out@) =~= Seq::empty());
    while i < file.functions.len()
        invariant
            i <= file.functions.len(),
            fs == functions_view(file.functions@),
            pages_view(out@) == pages_upto(
                *o,
                output_dir@,
                file.headerfile@,
                date@,
                fs,
                file.structures@,
                copyright@,
                i as int,
            ),
        decreases file.functions.len() - i,
    {
        let f = &file.functions[i];
        let page = print_man_page(
            o,
            file.headerfile.as_str(),
            date,
            f,
            &file.functions,
            &file.structures,
            copyright,
        );
        match page {
            Some(contents) => {
                let mut file_name = String::from_str(output_dir);
                file_name.append("/");
                file_name.append(f.fn_name.as_str());
                file_name.append(".");
                append_decimal(&mut file_name, o.man_section as u64);
                let ghost prev = pages_view(out@);
                let ghost entry = (file_name@, contents@);
                out.push(ManPage { file_name, contents });
                assert(pages_view(out@) =~= prev.push(entry));
            },
            None => {},
        }
        i = i + 1;
    }
    out
}

/// The pages of the input file `file`. The date is `manpage_date`, or today's where it is
/// empty; the copyright line is `header_copyright` where given, or else made from
/// `start_year`, `manpage_year` (today's year where it is 0) and `company`. Whatever today
/// is, the pages are those of `render_man_pages` for that date and line.
pub fn print_man_pages(
    o: &PageOptions,
    output_dir: &str,
    manpage_date: &str,
    manpage_year: i32,
    start_year: u32,
    company: &str,
    header_copyright: Option<String>,
    file: &ParsedFile,
) -> (r: Vec<ManPage>)
    ensures
        exists|today: (i32, u32, u32)|
            valid_day(today) && pages_view(r@) == pages_upto(
                *o,
                output_dir@,
                file.headerfile@,
                date_text(manpage_date@, today),
                functions_view(file.functions@),
                file.structures@,
                copyright_text(
                    crate::model::opt_view(header_copyright),
                    start_year,
                    if manpage_year == 0 {
                        today.0
                    } else {
                        manpage_year
                    },
                    company@,
                ),
                file.functions@.len() as int,
            ),
{
    let today = local_today();
    let date = page_date(manpage_date, today);
    let year = if manpage_year == 0 {
        today.0
    } else {
        manpage_year
    };
    let ghost hc = crate::model::opt_view(header_copyright);
    let copyright = match header_copyright {
        Some(c) => c,
        None => default_copyright(start_year, year, company),
    };
    assert(copyright@ == copyright_text(hc, start_year, year, company@));
    render_man_pages(o, output_dir, date.as_str(), copyright.as_str(), file)
}

} // verus!
