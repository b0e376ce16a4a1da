//! The documentation records built from the XML, each with its mathematical view.

use vstd::prelude::*;

verus! {

/// A function parameter, or a member of a structure or enum.
pub struct FnParam {
    pub par_name: String,
    pub par_type: String,
    /// The reference id of the parameter's type, where the type is a documented compound.
    pub par_refid: Option<String>,
    pub par_desc: String,
    pub par_brief: String,
}

/// What a parameter record holds, as character sequences.
pub struct ParamView {
    pub name: Seq<char>,
    pub ty: Seq<char>,
    pub refid: Option<Seq<char>>,
    pub desc: Seq<char>,
    pub brief: Seq<char>,
}

/// The characters of an optional string.
pub open spec fn opt_view(o: Option<String>) -> Option<Seq<char>> {
    match o {
        Some(s) => Some(s@),
        None => None,
    }
}

impl View for FnParam {
    type V = ParamView;

    open spec fn view(&self) -> ParamView {
        ParamView {
            name: self.par_name@,
            ty: self.par_type@,
            refid: opt_view(self.par_refid),
            desc: self.par_desc@,
            brief: self.par_brief@,
        }
    }
}

/// One entry of a structured list of return values.
pub struct ReturnVal {
    pub ret_name: String,
    pub ret_desc: String,
}

/// What a return-value record holds.
pub struct RetvalView {
    pub name: Seq<char>,
    pub desc: Seq<char>,
}

impl View for ReturnVal {
    type V = RetvalView;

    open spec fn view(&self) -> RetvalView {
        RetvalView { name: self.ret_name@, desc: self.ret_desc@ }
    }
}

/// A `#define` of the header, shown on the page for the whole header.
pub struct HashDefine {
    pub hd_name: String,
    pub hd_init: String,
    pub hd_brief: String,
    pub hd_desc: String,
}

/// What a define record holds.
pub struct DefineView {
    pub name: Seq<char>,
    pub init: Seq<char>,
    pub brief: Seq<char>,
    pub desc: Seq<char>,
}

impl View for HashDefine {
    type V = DefineView;

    open spec fn view(&self) -> DefineView {
        DefineView {
            name: self.hd_name@,
            init: self.hd_init@,
            brief: self.hd_brief@,
            desc: self.hd_desc@,
        }
    }
}

/// What kind of compound a structure record describes.
#[derive(Clone, Copy, Debug, PartialEq, Eq, Structural)]
pub enum StructureType {
    StrUnknown,
    StrEnum,
    StrStruct,
}

/// A struct or enum, with its members in order.
pub struct StructureInfo {
    pub str_type: StructureType,
    pub str_name: String,
    pub str_brief: String,
    pub str_description: String,
    pub str_members: Vec<FnParam>,
}

/// What a structure record holds.
pub struct StructureView {
    pub kind: StructureType,
    pub name: Seq<char>,
    pub brief: Seq<char>,
    pub description: Seq<char>,
    pub members: Seq<ParamView>,
}

/// The views of a sequence of parameters.
pub open spec fn params_view(ps: Seq<FnParam>) -> Seq<ParamView> {
    ps.map_values(|p: FnParam| p@)
}

impl View for StructureInfo {
    type V = StructureView;

    open spec fn view(&self) -> StructureView {
        StructureView {
            kind: self.str_type,
            name: self.str_name@,
            brief: self.str_brief@,
            description: self.str_description@,
            members: params_view(self.str_members@),
        }
    }
}

impl StructureInfo {
    /// A record of unknown kind with every field empty.
    pub fn new() -> (r: StructureInfo)
        ensures
            r@ == (StructureView {
                kind: StructureType::StrUnknown,
                name: Seq::empty(),
                brief: Seq::empty(),
                description: Seq::empty(),
                members: Seq::empty(),
            }),
    {
        let r = StructureInfo {
            str_type: StructureType::StrUnknown,
            str_name: String::new(),
            str_brief: String::new(),
            str_description: String::new(),
            str_members: Vec::new(),
        };
        assert(r@.members =~= Seq::empty());
        r
    }
}

/// Everything known about one function; also used, once per header, for the header itself.
pub struct FunctionInfo {
    pub fn_type: String,
    pub fn_name: String,
    pub fn_def: String,
    pub fn_argsstring: String,
    pub fn_brief: String,
    pub fn_detail: String,
    pub fn_returnval: String,
    pub fn_note: String,
    pub fn_args: Vec<FnParam>,
    pub fn_defines: Vec<HashDefine>,
    pub fn_retvals: Vec<ReturnVal>,
    /// The reference ids of the structures that the parameters use, sorted and distinct.
    pub fn_refids: Vec<String>,
}

/// What a function record holds.
pub struct FunctionView {
    pub ty: Seq<char>,
    pub name: Seq<char>,
    pub def: Seq<char>,
    pub argsstring: Seq<char>,
    pub brief: Seq<char>,
    pub detail: Seq<char>,
    pub returnval: Seq<char>,
    pub note: Seq<char>,
    pub args: Seq<ParamView>,
    pub defines: Seq<DefineView>,
    pub retvals: Seq<RetvalView>,
    pub refids: Seq<Seq<char>>,
}

/// The views of a sequence of defines.
pub open spec fn defines_view(ds: Seq<HashDefine>) -> Seq<DefineView> {
    ds.map_values(|d: HashDefine| d@)
}

/// The views of a sequence of return values.
pub open spec fn retvals_view(rs: Seq<ReturnVal>) -> Seq<RetvalView> {
    rs.map_values(|r: ReturnVal| r@)
}

/// The characters of each string.
pub open spec fn strings_view(ss: Seq<String>) -> Seq<Seq<char>> {
    ss.map_values(|s: String| s@)
}

impl View for FunctionInfo {
    type V = FunctionView;

    open spec fn view(&self) -> FunctionView {
        FunctionView {
            ty: self.fn_type@,
            name: self.fn_name@,
            def: self.fn_def@,
            argsstring: self.fn_argsstring@,
            brief: self.fn_brief@,
            detail: self.fn_detail@,
            returnval: self.fn_returnval@,
            note: self.fn_note@,
            args: params_view(self.fn_args@),
            defines: defines_view(self.fn_defines@),
            retvals: retvals_view(self.fn_retvals@),
            refids: strings_view(self.fn_refids@),
        }
    }
}

/// The record with every field empty.
pub open spec fn empty_function() -> FunctionView {
    FunctionView {
        ty: Seq::empty(),
        name: Seq::empty(),
        def: Seq::empty(),
        argsstring: Seq::empty(),
        brief: Seq::empty(),
        detail: Seq::empty(),
        returnval: Seq::empty(),
        note: Seq::empty(),
        args: Seq::empty(),
        defines: Seq::empty(),
        retvals: Seq::empty(),
        refids: Seq::empty(),
    }
}

impl FunctionInfo {
    /// A record with every field empty.
    pub fn new() -> (r: FunctionInfo)
        ensures
            r@ == empty_function(),
    {
        let r = FunctionInfo {
            fn_type: String::new(),
            fn_name: String::new(),
            fn_def: String::new(),
            fn_argsstring: String::new(),
            fn_brief: String::new(),
            fn_detail: String::new(),
            fn_returnval: String::new(),
            fn_note: String::new(),
            fn_args: Vec::new(),
            fn_defines: Vec::new(),
            fn_retvals: Vec::new(),
            fn_refids: Vec::new(),
        };
        assert(r@.args =~= Seq::empty());
        assert(r@.defines =~= Seq::empty());
        assert(r@.retvals =~= Seq::empty());
        assert(r@.refids =~= Seq::empty());
        r
    }
}

} // verus!
