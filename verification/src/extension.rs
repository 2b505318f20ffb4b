//! Extensions: named groups of tools whose names, once handed to a model, carry
//! the extension's name as a prefix.
use vstd::prelude::*;
use vstd::string::StringExecFns;

use crate::batch::{
    decode_each, lemma_decode_each_err, lemma_decode_each_ok, lemma_decode_each_prefix_err,
    lemma_decode_each_step,
};
use crate::text::{c_str_to_string, spec_c_str_to_string, view_result};
use crate::tool::{create_tool, spec_create_tool, RawToolView, Tool, ToolDefinition, ToolView};

verus! {

broadcast use vstd::seq_lib::group_seq_properties;

/// A named group of tools, with optional instructions for the model.
pub struct Extension {
    pub name: String,
    pub instructions: Option<String>,
    pub tools: Vec<Tool>,
}

pub struct ExtensionView {
    pub name: Seq<char>,
    pub instructions: Option<Seq<char>>,
    pub tools: Seq<ToolView>,
}

pub open spec fn tools_view(v: Seq<Tool>) -> Seq<ToolView> {
    v.map_values(|t: Tool| t@)
}

impl View for Extension {
    type V = ExtensionView;

    open spec fn view(&self) -> ExtensionView {
        ExtensionView {
            name: self.name@,
            instructions: self.instructions.deep_view(),
            tools: tools_view(self.tools@),
        }
    }
}

/// The separator between an extension's name and a tool's name.
pub open spec fn prefix_separator() -> Seq<char> {
    "__"@
}

/// A tool as the model sees it: its name prefixed with the extension's name and
/// the separator, all else unchanged.
pub open spec fn prefixed_tool(extension: Seq<char>, t: ToolView) -> ToolView {
    ToolView {
        name: extension + prefix_separator() + t.name,
        description: t.description,
        input_schema: t.input_schema,
        annotations: t.annotations,
    }
}

pub open spec fn prefixed_tools(e: ExtensionView) -> Seq<ToolView> {
    e.tools.map_values(|t: ToolView| prefixed_tool(e.name, t))
}

/// The tools of all extensions, prefixed, extension after extension.
pub open spec fn all_prefixed_tools(exts: Seq<ExtensionView>) -> Seq<ToolView>
    decreases exts.len(),
{
    if exts.len() == 0 {
        seq![]
    } else {
        all_prefixed_tools(exts.drop_last()) + prefixed_tools(exts.last())
    }
}

/// Prefixing keeps the tools, their number and their order, and changes only
/// each name, to `<extension>__<tool>`: descriptions, schemas and annotations
/// pass through unchanged.
pub proof fn lemma_prefixed_tools(e: ExtensionView)
    ensures
        prefixed_tools(e).len() == e.tools.len(),
        forall|i: int|
            0 <= i < e.tools.len() ==> {
                &&& (#[trigger] prefixed_tools(e)[i]).name == e.name + "__"@ + e.tools[i].name
                &&& prefixed_tools(e)[i].description == e.tools[i].description
                &&& prefixed_tools(e)[i].input_schema == e.tools[i].input_schema
                &&& prefixed_tools(e)[i].annotations == e.tools[i].annotations
            },
{
}

pub open spec fn extensions_view(v: Seq<Extension>) -> Seq<ExtensionView> {
    v.map_values(|e: Extension| e@)
}

impl Extension {
    pub fn new(name: String, instructions: Option<String>, tools: Vec<Tool>) -> (r: Self)
        ensures
            r@ == (ExtensionView {
                name: name@,
                instructions: instructions.deep_view(),
                tools: tools_view(tools@),
            }),
    {
        Self { name, instructions, tools }
    }

    /// The tools of this extension, each named `<extension>__<tool>`.
    pub fn get_prefixed_tools(&self) -> (r: Vec<Tool>)
        ensures
            tools_view(r@) == prefixed_tools(self@),
    {
        let mut r: Vec<Tool> = Vec::new();
        let mut i: usize = 0;
        while i < self.tools.len()
            invariant
                i <= self.tools@.len(),
                tools_view(r@) == prefixed_tools(self@).take(i as int),
            decreases self.tools@.len() - i,
        {
            let tool = &self.tools[i];
            let mut prefixed = tool.clone();
            let mut name = self.name.clone();
            name.append("__");
            name.append(tool.name.as_str());
            prefixed.name = name;
            let ghost before = r@;
            r.push(prefixed);
            proof {
                assert(prefixed@ == prefixed_tool(self@.name, tools_view(self.tools@)[i as int]));
                assert(tools_view(r@) =~= tools_view(before).push(prefixed@));
                assert(prefixed_tools(self@).take(i + 1) =~= prefixed_tools(self@).take(
                    i as int,
                ).push(prefixed_tools(self@)[i as int]));
            }
            i = i + 1;
        }
        assert(prefixed_tools(self@).take(self.tools@.len() as int) =~= prefixed_tools(self@));
        r
    }
}

/// The prefixed tools of all `extensions`, in order, as a completion offers them.
pub fn collect_prefixed_tools(extensions: &[Extension]) -> (r: Vec<Tool>)
    ensures
        tools_view(r@) == all_prefixed_tools(extensions_view(extensions@)),
{
    let ghost exts = extensions_view(extensions@);
    let mut r: Vec<Tool> = Vec::new();
    let mut i: usize = 0;
    while i < extensions.len()
        invariant
            exts == extensions_view(extensions@),
            i <= extensions@.len(),
            tools_view(r@) == all_prefixed_tools(exts.take(i as int)),
        decreases extensions@.len() - i,
    {
        let mut more = extensions[i].get_prefixed_tools();
        let ghost before = r@;
        let ghost added = more@;
        r.append(&mut more);
        proof {
            assert(exts.take(i + 1).drop_last() =~= exts.take(i as int));
            assert(exts.take(i + 1).last() == extensions@[i as int]@);
            assert(tools_view(r@) =~= tools_view(before) + tools_view(added));
        }
        i = i + 1;
    }
    assert(exts.take(extensions@.len() as int) =~= exts);
    r
}

/// An extension as read from C; `tools` holds the tool
/// definitions that its count names.
pub struct GooseFfi2Extension {
    pub name: Option<Vec<u8>>,
    pub instructions: Option<Vec<u8>>,
    pub tools: Vec<ToolDefinition>,
}

pub struct RawExtensionView {
    pub name: Option<Seq<u8>>,
    pub instructions: Option<Seq<u8>>,
    pub tools: Seq<RawToolView>,
}

impl View for GooseFfi2Extension {
    type V = RawExtensionView;

    open spec fn view(&self) -> RawExtensionView {
        RawExtensionView {
            name: self.name.deep_view(),
            instructions: self.instructions.deep_view(),
            tools: self.tools@.map_values(|t: ToolDefinition| t@),
        }
    }
}

/// Instructions are optional: a null pointer means none.
pub open spec fn decode_instructions(raw: Option<Seq<u8>>) -> Result<Option<Seq<char>>, Seq<char>> {
    match raw {
        None => Ok(None),
        Some(b) => match spec_c_str_to_string(Some(b)) {
            Ok(s) => Ok(Some(s)),
            Err(e) => Err(e),
        },
    }
}

/// Builds each tool in order; the first failure is the error.
pub open spec fn create_tools(raw: Seq<RawToolView>) -> Result<Seq<ToolView>, Seq<char>> {
    decode_each(raw, |i: int, t: RawToolView| spec_create_tool(t))
}

/// What `create_extension` gives for a definition.
pub open spec fn spec_create_extension(raw: RawExtensionView) -> Result<ExtensionView, Seq<char>> {
    match spec_c_str_to_string(raw.name) {
        Err(e) => Err(e),
        Ok(name) => match decode_instructions(raw.instructions) {
            Err(e) => Err(e),
            Ok(instructions) => match create_tools(raw.tools) {
                Err(e) => Err(e),
                Ok(tools) => Ok(ExtensionView { name, instructions, tools }),
            },
        },
    }
}

/// The tools offered for a list of extensions are each extension's tools, in
/// order, extension after extension; each is the source tool with its name
/// made `<extension>__<tool>` and its description, schema and annotations
/// unchanged.
pub proof fn law_all_prefixed_tools(exts: Seq<ExtensionView>)
    ensures
        all_prefixed_tools(exts) == exts.map_values(
            |e: ExtensionView|
                e.tools.map_values(
                    |t: ToolView|
                        ToolView {
                            name: e.name + "__"@ + t.name,
                            description: t.description,
                            input_schema: t.input_schema,
                            annotations: t.annotations,
                        },
                ),
        ).flatten(),
    decreases exts.len(),
{
    let m = exts.map_values(
        |e: ExtensionView|
            e.tools.map_values(
                |t: ToolView|
                    ToolView {
                        name: e.name + "__"@ + t.name,
                        description: t.description,
                        input_schema: t.input_schema,
                        annotations: t.annotations,
                    },
            ),
    );
    if exts.len() == 0 {
        assert(m =~= Seq::<Seq<ToolView>>::empty());
    } else {
        let prev = exts.drop_last();
        law_all_prefixed_tools(prev);
        let mp = prev.map_values(
            |e: ExtensionView|
                e.tools.map_values(
                    |t: ToolView|
                        ToolView {
                            name: e.name + "__"@ + t.name,
                            description: t.description,
                            input_schema: t.input_schema,
                            annotations: t.annotations,
                        },
                ),
        );
        assert(m =~= mp.push(m.last()));
        mp.lemma_flatten_push(m.last());
        assert(prefixed_tools(exts.last()) =~= m.last());
    }
}

/// An extension built from a C definition reads exactly when its name, its
/// instructions (when there are any) and every tool definition read; it then
/// has the definition's name and instructions, and one tool per definition, in
/// index order, each what that definition builds into.
pub proof fn law_create_extension(raw: RawExtensionView)
    ensures
        spec_create_extension(raw) is Ok <==> {
            &&& spec_c_str_to_string(raw.name) is Ok
            &&& raw.instructions is Some ==> spec_c_str_to_string(raw.instructions) is Ok
            &&& forall|i: int| 0 <= i < raw.tools.len() ==> (#[trigger] spec_create_tool(raw.tools[i])) is Ok
        },
        spec_create_extension(raw) matches Ok(e) ==> {
            &&& spec_c_str_to_string(raw.name) == Ok::<Seq<char>, Seq<char>>(e.name)
            &&& raw.instructions is None ==> e.instructions is None
            &&& raw.instructions is Some ==> e.instructions is Some && spec_c_str_to_string(
                raw.instructions,
            ) == Ok::<Seq<char>, Seq<char>>(e.instructions->Some_0)
            &&& e.tools.len() == raw.tools.len()
            &&& forall|i: int|
                0 <= i < raw.tools.len() ==> #[trigger] spec_create_tool(raw.tools[i]) == Ok::<
                    ToolView,
                    Seq<char>,
                >(e.tools[i])
        },
{
    let f = |i: int, t: RawToolView| spec_create_tool(t);
    lemma_decode_each_err(raw.tools, f);
    lemma_decode_each_ok(raw.tools, f);
    if forall|i: int| 0 <= i < raw.tools.len() ==> (#[trigger] spec_create_tool(raw.tools[i])) is Ok {
        assert forall|i: int| 0 <= i < raw.tools.len() implies !(#[trigger] f(i, raw.tools[i]) is Err) by {
            assert(spec_create_tool(raw.tools[i]) is Ok);
        }
    } else {
        let i = choose|i: int| 0 <= i < raw.tools.len() && !((#[trigger] spec_create_tool(raw.tools[i])) is Ok);
        assert(f(i, raw.tools[i]) is Err);
    }
    if raw.instructions is Some {
        assert(raw.instructions == Some(raw.instructions->Some_0));
    }
    if spec_create_extension(raw) is Ok {
        let e = spec_create_extension(raw)->Ok_0;
        assert forall|i: int| 0 <= i < raw.tools.len() implies #[trigger] spec_create_tool(raw.tools[i]) == Ok::<
            ToolView,
            Seq<char>,
        >(e.tools[i]) by {
            assert(f(i, raw.tools[i]) == Ok::<ToolView, Seq<char>>(e.tools[i]));
        }
    }
}

/// Builds an extension from its C definition.
pub fn create_extension(def: &GooseFfi2Extension) -> (r: Result<Extension, String>)
    ensures
        view_result(r) == spec_create_extension(def@),
{
    let name = match c_str_to_string(&def.name) {
        Ok(s) => s,
        Err(e) => return Err(e),
    };
    let instructions = match &def.instructions {
        None => None,
        Some(_) => match c_str_to_string(&def.instructions) {
            Ok(s) => Some(s),
            Err(e) => return Err(e),
        },
    };
    let ghost raw = def@.tools;
    let ghost f = |i: int, t: RawToolView| spec_create_tool(t);
    let mut tools: Vec<Tool> = Vec::new();
    assert(raw.take(0) =~= Seq::<RawToolView>::empty());
    assert(tools_view(tools@) =~= Seq::<ToolView>::empty());
    let mut i: usize = 0;
    while i < def.tools.len()
        invariant
            raw == def@.tools,
            f == (|i: int, t: RawToolView| spec_create_tool(t)),
            spec_c_str_to_string(def@.name) == Ok::<Seq<char>, Seq<char>>(name@),
            decode_instructions(def@.instructions) == Ok::<Option<Seq<char>>, Seq<char>>(
                instructions.deep_view(),
            ),
            raw.len() == def.tools@.len(),
            i <= raw.len(),
            decode_each(raw.take(i as int), f) == Ok::<Seq<ToolView>, Seq<char>>(
                tools_view(tools@),
            ),
        decreases raw.len() - i,
    {
        assert(raw[i as int] == def.tools@[i as int]@);
        proof {
            lemma_decode_each_step(raw, f, i as int);
        }
        let tool = match create_tool(&def.tools[i]) {
            Ok(t) => t,
            Err(e) => {
                proof {
                    lemma_decode_each_prefix_err(raw, f, i + 1);
                }
                return Err(e);
            },
        };
        let ghost before = tools@;
        tools.push(tool);
        assert(tools_view(tools@) =~= tools_view(before).push(tool@));
        i = i + 1;
    }
    assert(raw.take(raw.len() as int) =~= raw);
    Ok(Extension::new(name, instructions, tools))
}

} // verus!
