//! The records of one input file: its functions, the record for the header itself, and the
//! structures that the functions' parameters use, keyed by reference id.

use crate::builders::{
    collect_define, collect_enum, collect_function_info, define_fold, enum_fold, function_of,
    function_refs, pairs_view, read_structure_file, struct_file_walk, empty_structure,
};
use crate::detail::{collect_detail_bits, detail_of};
use crate::markup::{attr_value, collect_text, element_text, get_attr, is_markup_tag, markup_tag};
use crate::model::{
    defines_view, DefineView, FunctionInfo, FunctionView, HashDefine, StructureInfo,
    StructureType, StructureView, empty_function,
};
use crate::text::str_eq;
use crate::tree::{Element, Node};
use vstd::prelude::*;

verus! {

broadcast use vstd::std_specs::vec::group_vec_axioms;

/// A structure as the index holds it: only named until its own file has been read, or
/// complete.
pub enum StructEntry {
    Unresolved { name: String },
    Resolved(StructureInfo),
}

/// What an index entry holds.
pub enum EntryView {
    Unresolved(Seq<char>),
    Resolved(StructureView),
}

impl View for StructEntry {
    type V = EntryView;

    open spec fn view(&self) -> EntryView {
        match self {
            StructEntry::Unresolved { name } => EntryView::Unresolved(name@),
            StructEntry::Resolved(s) => EntryView::Resolved(s@),
        }
    }
}

/// One structure of the index, under its reference id.
pub struct IndexEntry {
    pub refid: String,
    pub entry: StructEntry,
}

/// The structures of one input file, in the order they were first met.
pub struct StructureIndex {
    pub entries: Vec<IndexEntry>,
}

/// The reference id and view of each entry.
pub open spec fn entries_view(es: Seq<IndexEntry>) -> Seq<(Seq<char>, EntryView)> {
    es.map_values(|e: IndexEntry| (e.refid@, e.entry@))
}

impl View for StructureIndex {
    type V = Seq<(Seq<char>, EntryView)>;

    open spec fn view(&self) -> Seq<(Seq<char>, EntryView)> {
        entries_view(self.entries@)
    }
}

/// The position of the first entry under `r` at or after `from`, or -1.
pub open spec fn key_pos(v: Seq<(Seq<char>, EntryView)>, r: Seq<char>, from: int) -> int
    decreases v.len() - from,
{
    if from < 0 || from >= v.len() {
        -1
    } else if v[from].0 == r {
        from
    } else {
        key_pos(v, r, from + 1)
    }
}

/// The entry under `r`, if any.
pub open spec fn entry_for(v: Seq<(Seq<char>, EntryView)>, r: Seq<char>) -> Option<EntryView> {
    let k = key_pos(v, r, 0);
    if 0 <= k < v.len() {
        Some(v[k].1)
    } else {
        None
    }
}

/// The complete structure under `r`, if its entry is resolved.
pub open spec fn resolved(v: Seq<(Seq<char>, EntryView)>, r: Seq<char>) -> Option<StructureView> {
    match entry_for(v, r) {
        Some(EntryView::Resolved(s)) => Some(s),
        _ => None,
    }
}

/// `v` with a name-only entry for `r`, unless `r` has an entry already.
pub open spec fn add_placeholder(v: Seq<(Seq<char>, EntryView)>, r: Seq<char>, name: Seq<char>) -> Seq<
    (Seq<char>, EntryView),
> {
    if key_pos(v, r, 0) < 0 {
        v.push((r, EntryView::Unresolved(name)))
    } else {
        v
    }
}

/// `v` with a name-only entry for each pair of `refs` whose reference id is new, in order.
pub open spec fn add_placeholders(
    v: Seq<(Seq<char>, EntryView)>,
    refs: Seq<(Seq<char>, Seq<char>)>,
) -> Seq<(Seq<char>, EntryView)>
    decreases refs.len(),
{
    if refs.len() == 0 {
        v
    } else {
        add_placeholder(add_placeholders(v, refs.drop_last()), refs.last().0, refs.last().1)
    }
}

/// `v` with the complete structure `s` under `r`, in place of any entry there.
pub open spec fn put_resolved(v: Seq<(Seq<char>, EntryView)>, r: Seq<char>, s: StructureView) -> Seq<
    (Seq<char>, EntryView),
> {
    let k = key_pos(v, r, 0);
    if 0 <= k < v.len() {
        v.update(k, (r, EntryView::Resolved(s)))
    } else {
        v.push((r, EntryView::Resolved(s)))
    }
}

/// Every reference id has one entry at most.
pub open spec fn keys_distinct(v: Seq<(Seq<char>, EntryView)>) -> bool {
    forall|i: int, j: int| 0 <= i < j < v.len() ==> #[trigger] v[i].0 != #[trigger] v[j].0
}

proof fn lemma_key_pos(v: Seq<(Seq<char>, EntryView)>, r: Seq<char>, from: int)
    requires
        0 <= from,
    ensures
        key_pos(v, r, from) == -1 || (from <= key_pos(v, r, from) < v.len() && v[key_pos(
            v,
            r,
            from,
        )].0 == r),
        key_pos(v, r, from) == -1 ==> forall|j: int| from <= j < v.len() ==> v[j].0 != r,
    decreases v.len() - from,
{
    if from < v.len() && v[from].0 != r {
        lemma_key_pos(v, r, from + 1);
    }
}

impl StructureIndex {
    /// An index with no structures.
    pub fn new() -> (r: StructureIndex)
        ensures
            r@ == Seq::<(Seq<char>, EntryView)>::empty(),
            keys_distinct(r@),
    {
        let r = StructureIndex { entries: Vec::new() };
        assert(r@ =~= Seq::empty());
        r
    }

    /// The position of the entry under `refid`, if any.
    pub fn position(&self, refid: &str) -> (r: Option<usize>)
        ensures
            match r {
                Some(k) => k as int == key_pos(self@, refid@, 0) && k < self@.len(),
                None => key_pos(self@, refid@, 0) == -1,
            },
    {
        let mut i: usize = 0;
        while i < self.entries.len()
            invariant
                i <= self.entries.len(),
                key_pos(self@, refid@, 0) == key_pos(self@, refid@, i as int),
            decreases self.entries.len() - i,
        {
            if str_eq(self.entries[i].refid.as_str(), refid) {
                return Some(i);
            }
            i = i + 1;
        }
        None
    }

    /// Adds a name-only entry for `refid`, unless it has an entry already.
    pub fn add_placeholder(&mut self, refid: String, name: String)
        ensures
            final(self)@ == add_placeholder(old(self)@, refid@, name@),
            keys_distinct(old(self)@) ==> keys_distinct(final(self)@),
    {
        proof {
            lemma_key_pos(self@, refid@, 0);
        }
        if self.position(refid.as_str()).is_none() {
            let ghost prev = self@;
            let ghost rv = refid@;
            let ghost nv = name@;
            self.entries.push(IndexEntry { refid, entry: StructEntry::Unresolved { name } });
            assert(self@ =~= prev.push((rv, EntryView::Unresolved(nv))));
        }
    }

    /// Puts the complete structure `s` under `refid`, in place of any entry there.
    pub fn put_resolved(&mut self, refid: String, s: StructureInfo)
        ensures
            final(self)@ == put_resolved(old(self)@, refid@, s@),
            keys_distinct(old(self)@) ==> keys_distinct(final(self)@),
    {
        proof {
            lemma_key_pos(self@, refid@, 0);
        }
        let ghost prev = self@;
        let ghost rv = refid@;
        let ghost sv = s@;
        match self.position(refid.as_str()) {
            Some(k) => {
                self.entries.set(k, IndexEntry { refid, entry: StructEntry::Resolved(s) });
                assert(self@ =~= prev.update(k as int, (rv, EntryView::Resolved(sv))));
            },
            None => {
                self.entries.push(IndexEntry { refid, entry: StructEntry::Resolved(s) });
                assert(self@ =~= prev.push((rv, EntryView::Resolved(sv))));
            },
        }
    }

    /// The complete structure under `refid`, if it has been resolved.
    pub fn resolved(&self, refid: &str) -> (r: Option<&StructureInfo>)
        ensures
            match r {
                Some(s) => resolved(self@, refid@) == Some(s@),
                None => resolved(self@, refid@) is None,
            },
    {
        match self.position(refid) {
            Some(k) => match &self.entries[k].entry {
                StructEntry::Resolved(s) => Some(s),
                StructEntry::Unresolved { .. } => None,
            },
            None => None,
        }
    }
}

/// What the scan of an input file has gathered so far.
pub struct ScanView {
    pub functions: Seq<FunctionView>,
    pub defines: Seq<DefineView>,
    pub index: Seq<(Seq<char>, EntryView)>,
    pub header: Seq<char>,
    pub general: FunctionView,
}

/// The views of a sequence of function records.
pub open spec fn functions_view(fs: Seq<FunctionInfo>) -> Seq<FunctionView> {
    fs.map_values(|f: FunctionInfo| f@)
}

/// The state of the scan of an input file.
pub struct FileScan {
    pub functions: Vec<FunctionInfo>,
    pub defines: Vec<HashDefine>,
    pub structures: StructureIndex,
    pub headerfile: String,
    pub general: FunctionInfo,
}

impl View for FileScan {
    type V = ScanView;

    open spec fn view(&self) -> ScanView {
        ScanView {
            functions: functions_view(self.functions@),
            defines: defines_view(self.defines@),
            index: self.structures@,
            header: self.headerfile@,
            general: self.general@,
        }
    }
}

/// The scan after the nodes `ns`, from `acc`: member definitions give records, the header's
/// own name and descriptions are noted, text markup is skipped, and other elements are
/// looked into.
pub open spec fn scan_walk(acc: ScanView, ns: Seq<Node>) -> ScanView
    decreases ns,
{
    if ns.len() == 0 {
        acc
    } else {
        let a = scan_walk(acc, ns.drop_last());
        match ns.last() {
            Node::Element(c) => if c.name@ == "memberdef"@ {
                let kind = attr_value(c.attrs@, "kind"@);
                if kind == "function"@ {
                    ScanView {
                        functions: a.functions.push(function_of(c)),
                        index: add_placeholders(a.index, function_refs(c.children@)),
                        ..a
                    }
                } else if kind == "define"@ {
                    ScanView { defines: a.defines.push(define_fold(c.children@)), ..a }
                } else if kind == "enum"@ {
                    ScanView {
                        index: put_resolved(
                            a.index,
                            attr_value(c.attrs@, "id"@),
                            enum_fold(c.children@),
                        ),
                        ..a
                    }
                } else {
                    a
                }
            } else if c.name@ == "compoundname"@ {
                ScanView { header: element_text(c), ..a }
            } else if c.name@ == "briefdescription"@ {
                ScanView {
                    general: FunctionView { brief: a.general.brief + element_text(c), ..a.general },
                    ..a
                }
            } else if c.name@ == "detaileddescription"@ {
                let d = detail_of(c);
                ScanView {
                    general: FunctionView {
                        detail: d.text,
                        returnval: d.return_text,
                        note: d.notes,
                        ..a.general
                    },
                    ..a
                }
            } else if is_markup_tag(c.name@) {
                a
            } else {
                scan_walk(a, c.children@)
            },
            _ => a,
        }
    }
}

/// The scan before any node, with the header name given by the caller.
pub open spec fn scan_start(headerfile: Seq<char>) -> ScanView {
    ScanView {
        functions: Seq::empty(),
        defines: Seq::empty(),
        index: Seq::empty(),
        header: headerfile,
        general: empty_function(),
    }
}

/// The records of a scanned file: its functions in document order, then the record for the
/// header itself, which carries the header's name, descriptions and defines.
pub open spec fn file_functions(s: ScanView) -> Seq<FunctionView> {
    s.functions.push(FunctionView { name: s.header, defines: s.defines, ..s.general })
}

fn add_placeholders_exec(idx: &mut StructureIndex, refs: &Vec<(String, String)>)
    requires
        keys_distinct(old(idx)@),
    ensures
        final(idx)@ == add_placeholders(old(idx)@, pairs_view(refs@)),
        keys_distinct(final(idx)@),
{
    let ghost start = idx@;
    let ghost pv = pairs_view(refs@);
    let mut i: usize = 0;
    while i < refs.len()
        invariant
            i <= refs.len(),
            pv == pairs_view(refs@),
            idx@ == add_placeholders(start, pv.subrange(0, i as int)),
            keys_distinct(idx@),
        decreases refs.len() - i,
    {
        proof {
            assert(pv.subrange(0, i + 1).drop_last() =~= pv.subrange(0, i as int));
        }
        idx.add_placeholder(refs[i].0.clone(), refs[i].1.clone());
        i = i + 1;
    }
    assert(pv.subrange(0, refs.len() as int) =~= pv);
}

fn scan_nodes(acc: &mut FileScan, ns: &Vec<Node>)
    requires
        keys_distinct(old(acc)@.index),
    ensures
        final(acc)@ == scan_walk(old(acc)@, ns@),
        keys_distinct(final(acc)@.index),
    decreases ns,
{
    let ghost start = acc@;
    let mut i: usize = 0;
    while i < ns.len()
        invariant
            i <= ns.len(),
            acc@ == scan_walk(start, ns@.subrange(0, i as int)),
            keys_distinct(acc@.index),
        decreases ns.len() - i,
    {
        proof {
            assert(ns@.subrange(0, i + 1).drop_last() =~= ns@.subrange(0, i as int));
            assert(ns@.subrange(0, i + 1).last() == ns@[i as int]);
        }
        if let Node::Element(c) = &ns[i] {
            let name = c.name.as_str();
            if str_eq(name, "memberdef") {
                let kind = get_attr(c, "kind");
                if str_eq(kind.as_str(), "function") {
                    let (f, refs) = collect_function_info(c);
                    let ghost prev = functions_view(acc.functions@);
                    acc.functions.push(f);
                    assert(functions_view(acc.functions@) =~= prev.push(function_of(*c)));
                    add_placeholders_exec(&mut acc.structures, &refs);
                } else if str_eq(kind.as_str(), "define") {
                    let d = collect_define(c);
                    let ghost prev = defines_view(acc.defines@);
                    acc.defines.push(d);
                    assert(defines_view(acc.defines@) =~= prev.push(define_fold(c.children@)));
                } else if str_eq(kind.as_str(), "enum") {
                    let id = get_attr(c, "id");
                    let s = collect_enum(c);
                    acc.structures.put_resolved(id, s);
                }
            } else if str_eq(name, "compoundname") {
                acc.headerfile = collect_text(c);
            } else if str_eq(name, "briefdescription") {
                let t = collect_text(c);
                acc.general.fn_brief.append(t.as_str());
            } else if str_eq(name, "detaileddescription") {
                let d = collect_detail_bits(c);
                acc.general.fn_detail = d.text;
                acc.general.fn_returnval = d.return_text;
                acc.general.fn_note = d.notes;
            } else if markup_tag(name) {
            } else {
                scan_nodes(acc, &c.children);
            }
        }
        i = i + 1;
    }
    assert(ns@.subrange(0, ns.len() as int) =~= ns@);
}

/// The records of one input file.
pub struct ParsedFile {
    /// The functions in document order, then the record for the header itself.
    pub functions: Vec<FunctionInfo>,
    pub structures: StructureIndex,
    /// The header's name: from the document, or as given where the document names none.
    pub headerfile: String,
}

/// Reads the records of the input file `doc` (first pass): functions, defines and enums, and
/// a name-only entry for each structure that a parameter names. `headerfile` is the header
/// name to use where the document gives none.
pub fn read_file(doc: &Vec<Node>, headerfile: String) -> (r: ParsedFile)
    ensures
        functions_view(r.functions@) == file_functions(scan_walk(scan_start(headerfile@), doc@)),
        r.structures@ == scan_walk(scan_start(headerfile@), doc@).index,
        r.headerfile@ == scan_walk(scan_start(headerfile@), doc@).header,
        keys_distinct(r.structures@),
{
    let ghost h = headerfile@;
    let mut scan = FileScan {
        functions: Vec::new(),
        defines: Vec::new(),
        structures: StructureIndex::new(),
        headerfile,
        general: FunctionInfo::new(),
    };
    assert(functions_view(scan.functions@) =~= Seq::empty());
    assert(defines_view(scan.defines@) =~= Seq::empty());
    assert(scan@ =~= scan_start(h));
    scan_nodes(&mut scan, doc);
    let FileScan { mut functions, defines, structures, headerfile, mut general } = scan;
    let ghost fs = functions_view(functions@);
    general.fn_name = headerfile.clone();
    general.fn_defines = defines;
    let ghost g = general@;
    functions.push(general);
    assert(functions_view(functions@) =~= fs.push(g));
    ParsedFile { functions, structures, headerfile }
}

/// The reference ids whose structures are still only named, in index order.
pub open spec fn pending(v: Seq<(Seq<char>, EntryView)>) -> Seq<Seq<char>>
    decreases v.len(),
{
    if v.len() == 0 {
        Seq::empty()
    } else {
        let p = pending(v.drop_last());
        match v.last().1 {
            EntryView::Unresolved(_) => p.push(v.last().0),
            EntryView::Resolved(_) => p,
        }
    }
}

impl StructureIndex {
    /// The reference ids whose structures must still be read from their own files (second
    /// pass), in index order.
    pub fn pending_structures(&self) -> (r: Vec<String>)
        ensures
            r@.map_values(|s: String| s@) == pending(self@),
    {
        let mut out: Vec<String> = Vec::new();
        let mut i: usize = 0;
        assert(out@.map_values(|s: String| s@) =~= Seq::empty());
        while i < self.entries.len()
            invariant
                i <= self.entries.len(),
                out@.map_values(|s: String| s@) == pending(self@.subrange(0, i as int)),
            decreases self.entries.len() - i,
        {
            proof {
                assert(self@.subrange(0, i + 1).drop_last() =~= self@.subrange(0, i as int));
            }
            let ghost prev = out@.map_values(|s: String| s@);
            if let StructEntry::Unresolved { .. } = &self.entries[i].entry {
                out.push(self.entries[i].refid.clone());
                assert(out@.map_values(|s: String| s@) =~= prev.push(self@[i as int].0));
            }
            i = i + 1;
        }
        assert(self@.subrange(0, self.entries.len() as int) =~= self@);
        out
    }

    /// Completes the structure under `refid` from `doc`, the tree of its own file.
    pub fn resolve_structure(&mut self, refid: String, doc: &Vec<Node>)
        ensures
            final(self)@ == put_resolved(
                old(self)@,
                refid@,
                struct_file_walk(empty_structure(StructureType::StrStruct), doc@),
            ),
            keys_distinct(old(self)@) ==> keys_distinct(final(self)@),
    {
        let s = read_structure_file(doc);
        self.put_resolved(refid, s);
    }
}

/// The path of the file that describes the structure `refid`: `<dir>/<refid>.xml`.
pub fn companion_file_name(xml_dir: &str, refid: &str) -> (r: String)
    ensures
        r@ == xml_dir@ + "/"@ + refid@ + ".xml"@,
{
    let mut r = String::from_str(xml_dir);
    r.append("/");
    r.append(refid);
    r.append(".xml");
    r
}

} // verus!
