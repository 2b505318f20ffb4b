//! Tools and the JSON schema of their input, built from the C definitions of a
//! tool and its parameters.
use vstd::prelude::*;
use vstd::pervasive::VecAdditionalExecFns;

use vstd::string::StringExecFns;

use crate::json::{json_object, json_string, json_string_array, JsonValue, JsonView};
use crate::batch::{decode_each, lemma_decode_each_prefix_err, lemma_decode_each_step};
use crate::text::{c_str_to_string, spec_c_str_to_string, view_result};

verus! {

broadcast use vstd::seq_lib::group_seq_properties;

/// One entry of a schema's `properties` object: the parameter's name, its JSON
/// type and its description.
pub struct PropertySchema {
    pub name: String,
    pub param_type: String,
    pub description: String,
}

/// The object schema that a tool built from C parameters takes as input: the
/// names listed under `required`, in order, and the entries of `properties`,
/// one per name.
pub struct ToolSchema {
    pub required: Vec<String>,
    pub properties: Vec<PropertySchema>,
}

/// A tool that a model may call: its name, description, the JSON schema of its
/// input, and optional annotations (as their JSON form).
#[derive(Debug)]
pub struct Tool {
    pub name: String,
    pub description: String,
    pub input_schema: JsonValue,
    pub annotations: Option<JsonValue>,
}

pub struct PropertyView {
    pub name: Seq<char>,
    pub param_type: Seq<char>,
    pub description: Seq<char>,
}

pub struct SchemaView {
    pub required: Seq<Seq<char>>,
    pub properties: Seq<PropertyView>,
}

pub struct ToolView {
    pub name: Seq<char>,
    pub description: Seq<char>,
    pub input_schema: JsonView,
    pub annotations: Option<JsonView>,
}

impl View for PropertySchema {
    type V = PropertyView;

    open spec fn view(&self) -> PropertyView {
        PropertyView {
            name: self.name@,
            param_type: self.param_type@,
            description: self.description@,
        }
    }
}

pub open spec fn strings_view(v: Seq<String>) -> Seq<Seq<char>> {
    v.map_values(|s: String| s@)
}

pub open spec fn properties_view(v: Seq<PropertySchema>) -> Seq<PropertyView> {
    v.map_values(|p: PropertySchema| p@)
}

impl View for ToolSchema {
    type V = SchemaView;

    open spec fn view(&self) -> SchemaView {
        SchemaView {
            required: strings_view(self.required@),
            properties: properties_view(self.properties@),
        }
    }
}

pub open spec fn json_option_view(v: Option<JsonValue>) -> Option<JsonView> {
    match v {
        Some(j) => Some(j@),
        None => None,
    }
}

impl View for Tool {
    type V = ToolView;

    open spec fn view(&self) -> ToolView {
        ToolView {
            name: self.name@,
            description: self.description@,
            input_schema: self.input_schema@,
            annotations: json_option_view(self.annotations),
        }
    }
}

impl Clone for Tool {
    fn clone(&self) -> (r: Self)
        ensures
            r@ == self@,
    {
        let annotations = match &self.annotations {
            Some(a) => Some(a.clone()),
            None => None,
        };
        Tool {
            name: self.name.clone(),
            description: self.description.clone(),
            input_schema: self.input_schema.clone(),
            annotations,
        }
    }
}

/// The JSON entry for one property: `{"type": <type>, "description": <description>}`
/// under the parameter's name.
pub open spec fn property_json(p: PropertyView) -> (Seq<char>, JsonView) {
    (
        p.name,
        JsonView::Object(
            seq![
                ("type"@, JsonView::String(p.param_type)),
                ("description"@, JsonView::String(p.description)),
            ],
        ),
    )
}

/// The JSON form of an object schema:
/// `{"type": "object", "required": [...], "properties": {...}}`.
pub open spec fn schema_json(s: SchemaView) -> JsonView {
    JsonView::Object(
        seq![
            ("type"@, JsonView::String("object"@)),
            ("required"@, JsonView::Array(s.required.map_values(|n: Seq<char>| JsonView::String(n)))),
            ("properties"@, JsonView::Object(s.properties.map_values(|p: PropertyView| property_json(p)))),
        ],
    )
}

/// Writes an object schema as JSON.
pub fn schema_value(s: &ToolSchema) -> (r: JsonValue)
    ensures
        r@ == schema_json(s@),
{
    let mut props: Vec<(String, JsonValue)> = Vec::new();
    let mut i: usize = 0;
    while i < s.properties.len()
        invariant
            i <= s.properties@.len(),
            props@.map_values(|e: (String, JsonValue)| (e.0@, e.1@)) == properties_view(
                s.properties@,
            ).take(i as int).map_values(|p: PropertyView| property_json(p)),
        decreases s.properties@.len() - i,
    {
        let p = &s.properties[i];
        let mut fields: Vec<(String, JsonValue)> = Vec::new();
        fields.push((String::from_str("type"), json_string(p.param_type.clone())));
        fields.push((String::from_str("description"), json_string(p.description.clone())));
        assert(fields@.map_values(|e: (String, JsonValue)| (e.0@, e.1@)) =~= seq![
            ("type"@, JsonView::String(p.param_type@)),
            ("description"@, JsonView::String(p.description@)),
        ]);
        let entry = json_object(fields);
        let ghost before = props@;
        props.push((p.name.clone(), entry));
        proof {
            assert(entry@ == property_json(p@).1);
            assert(properties_view(s.properties@).take(i + 1) =~= properties_view(
                s.properties@,
            ).take(i as int).push(p@));
            assert(props@.map_values(|e: (String, JsonValue)| (e.0@, e.1@)) =~= before.map_values(
                |e: (String, JsonValue)| (e.0@, e.1@),
            ).push(property_json(p@)));
            assert(properties_view(s.properties@).take(i + 1).map_values(
                |p: PropertyView| property_json(p),
            ) =~= properties_view(s.properties@).take(i as int).map_values(
                |p: PropertyView| property_json(p),
            ).push(property_json(p@)));
        }
        i = i + 1;
    }
    assert(properties_view(s.properties@).take(s.properties@.len() as int) =~= properties_view(
        s.properties@,
    ));
    let required = json_string_array(&s.required);
    assert(s.required@.map_values(|s: String| JsonView::String(s@)) =~= strings_view(
        s.required@,
    ).map_values(|n: Seq<char>| JsonView::String(n)));
    let properties = json_object(props);
    let mut entries: Vec<(String, JsonValue)> = Vec::new();
    entries.push((String::from_str("type"), json_string(String::from_str("object"))));
    entries.push((String::from_str("required"), required));
    entries.push((String::from_str("properties"), properties));
    assert(entries@.map_values(|e: (String, JsonValue)| (e.0@, e.1@)) =~= seq![
        ("type"@, JsonView::String("object"@)),
        ("required"@, JsonView::Array(strings_view(s.required@).map_values(|n: Seq<char>| JsonView::String(n)))),
        ("properties"@, JsonView::Object(s@.properties.map_values(|p: PropertyView| property_json(p)))),
    ]);
    let r = json_object(entries);
    assert(r@ =~= schema_json(s@));
    r
}

/// Where the entry for `name` stands among `props`: the last entry with that
/// name, or `None`.
pub open spec fn property_position(props: Seq<PropertyView>, name: Seq<char>) -> Option<int>
    decreases props.len(),
{
    if props.len() == 0 {
        None
    } else if props.last().name == name {
        Some(props.len() - 1)
    } else {
        property_position(props.drop_last(), name)
    }
}

/// Setting the entry `p` in `properties`: it replaces the entry with the same
/// name in place, or comes last when there is none.
pub open spec fn insert_property(props: Seq<PropertyView>, p: PropertyView) -> Seq<PropertyView> {
    match property_position(props, p.name) {
        Some(k) => props.update(k, p),
        None => props.push(p),
    }
}

pub proof fn lemma_property_position(props: Seq<PropertyView>, name: Seq<char>)
    ensures
        property_position(props, name) matches Some(k) ==> 0 <= k < props.len() && props[k].name
            == name,
        property_position(props, name) is None <==> (forall|j: int|
            0 <= j < props.len() ==> props[j].name != name),
    decreases props.len(),
{
    if props.len() > 0 {
        lemma_property_position(props.drop_last(), name);
        if props.last().name != name {
            assert forall|j: int| 0 <= j < props.len() - 1 implies props.drop_last()[j] == props[j] by {}
        }
    }
}

/// Sets `p` in `props`, replacing the entry with the same name.
fn set_property(props: &mut Vec<PropertySchema>, p: PropertySchema)
    ensures
        properties_view(final(props)@) == insert_property(properties_view(old(props)@), p@),
{
    let ghost whole = properties_view(props@);
    let mut i: usize = props.len();
    while i > 0
        invariant
            i <= props@.len(),
            whole == properties_view(props@),
            whole == properties_view(old(props)@),
            property_position(whole, p@.name) == property_position(whole.take(i as int), p@.name),
        decreases i,
    {
        if props[i - 1].name == p.name {
            assert(whole.take(i as int).last().name == p@.name);
            assert(whole.take(i as int).len() == i);
            assert(property_position(whole.take(i as int), p@.name) == Some(i - 1));
            assert(insert_property(whole, p@) == whole.update(i - 1, p@));
            props.set(i - 1, p);
            assert(properties_view(props@) =~= whole.update(i - 1, p@));
            return;
        }
        assert(whole.take(i as int).drop_last() =~= whole.take(i - 1));
        i = i - 1;
    }
    props.push(p);
    assert(properties_view(props@) =~= whole.push(p@));
}

/// A tool parameter as read from C: each string as the bytes before
/// its NUL, or `None` for a null pointer.
pub struct ToolParameter {
    pub name: Option<Vec<u8>>,
    pub description: Option<Vec<u8>>,
    pub param_type: Option<Vec<u8>>,
    pub required: bool,
}

/// A tool definition as read from C; `parameters` holds the
/// parameters that its count names.
pub struct ToolDefinition {
    pub name: Option<Vec<u8>>,
    pub description: Option<Vec<u8>>,
    pub parameters: Vec<ToolParameter>,
}

pub struct RawParameterView {
    pub name: Option<Seq<u8>>,
    pub description: Option<Seq<u8>>,
    pub param_type: Option<Seq<u8>>,
    pub required: bool,
}

pub struct RawToolView {
    pub name: Option<Seq<u8>>,
    pub description: Option<Seq<u8>>,
    pub parameters: Seq<RawParameterView>,
}

impl View for ToolParameter {
    type V = RawParameterView;

    open spec fn view(&self) -> RawParameterView {
        RawParameterView {
            name: self.name.deep_view(),
            description: self.description.deep_view(),
            param_type: self.param_type.deep_view(),
            required: self.required,
        }
    }
}

impl View for ToolDefinition {
    type V = RawToolView;

    open spec fn view(&self) -> RawToolView {
        RawToolView {
            name: self.name.deep_view(),
            description: self.description.deep_view(),
            parameters: self.parameters@.map_values(|p: ToolParameter| p@),
        }
    }
}

/// A parameter once its strings are read.
pub struct ParameterView {
    pub name: Seq<char>,
    pub description: Seq<char>,
    pub param_type: Seq<char>,
    pub required: bool,
}

/// Reads a parameter's name, description and type, in that order; the first
/// failure is the error.
pub open spec fn decode_parameter(r: RawParameterView) -> Result<ParameterView, Seq<char>> {
    match spec_c_str_to_string(r.name) {
        Err(e) => Err(e),
        Ok(name) => match spec_c_str_to_string(r.description) {
            Err(e) => Err(e),
            Ok(description) => match spec_c_str_to_string(r.param_type) {
                Err(e) => Err(e),
                Ok(param_type) => Ok(
                    ParameterView { name, description, param_type, required: r.required },
                ),
            },
        },
    }
}

/// Reads the parameters in order; the first failure is the error.
pub open spec fn decode_parameters(raw: Seq<RawParameterView>) -> Result<
    Seq<ParameterView>,
    Seq<char>,
> {
    decode_each(raw, |i: int, r: RawParameterView| decode_parameter(r))
}

/// The object schema of a list of parameters: the required ones' names in
/// order, and one property per name, set by each parameter in turn.
pub open spec fn schema_of(params: Seq<ParameterView>) -> SchemaView
    decreases params.len(),
{
    if params.len() == 0 {
        SchemaView { required: seq![], properties: seq![] }
    } else {
        let s = schema_of(params.drop_last());
        let p = params.last();
        SchemaView {
            required: if p.required {
                s.required.push(p.name)
            } else {
                s.required
            },
            properties: insert_property(
                s.properties,
                PropertyView { name: p.name, param_type: p.param_type, description: p.description },
            ),
        }
    }
}

/// The names of the required parameters, in order.
pub open spec fn required_names(params: Seq<ParameterView>) -> Seq<Seq<char>> {
    params.filter_map(|p: ParameterView| if p.required { Some(p.name) } else { None })
}

/// The schema entry that a parameter sets.
pub open spec fn property_of(p: ParameterView) -> PropertyView {
    PropertyView { name: p.name, param_type: p.param_type, description: p.description }
}

/// No two entries share a name.
pub open spec fn names_distinct(props: Seq<PropertyView>) -> bool {
    forall|i: int, j: int| 0 <= i < j < props.len() ==> props[i].name != props[j].name
}

/// No parameter after the `k`-th has its name.
pub open spec fn last_of_its_name(params: Seq<ParameterView>, k: int) -> bool {
    forall|k2: int| k < k2 < params.len() ==> #[trigger] params[k2].name != params[k].name
}

/// The schema lists the names of the required parameters, in order.
pub proof fn lemma_schema_required(params: Seq<ParameterView>)
    ensures
        schema_of(params).required == required_names(params),
    decreases params.len(),
{
    if params.len() > 0 {
        lemma_schema_required(params.drop_last());
        if params.last().required {
            assert(schema_of(params).required =~= required_names(params));
        }
    }
}

/// The schema's properties after one more parameter: names are those before, plus
/// the new one when it was not there yet.
proof fn lemma_schema_step(params: Seq<ParameterView>)
    requires
        params.len() > 0,
    ensures
        ({
            let old_props = schema_of(params.drop_last()).properties;
            let props = schema_of(params).properties;
            let p = params.last();
            match property_position(old_props, p.name) {
                Some(m) => 0 <= m < old_props.len() && old_props[m].name == p.name && props
                    == old_props.update(m, property_of(p)),
                None => (forall|j: int| 0 <= j < old_props.len() ==> old_props[j].name != p.name)
                    && props == old_props.push(property_of(p)),
            }
        }),
{
    lemma_property_position(schema_of(params.drop_last()).properties, params.last().name);
}

/// No two properties of the schema share a name.
pub proof fn lemma_schema_distinct(params: Seq<ParameterView>)
    ensures
        names_distinct(schema_of(params).properties),
    decreases params.len(),
{
    if params.len() > 0 {
        lemma_schema_distinct(params.drop_last());
        lemma_schema_step(params);
        let old_props = schema_of(params.drop_last()).properties;
        let props = schema_of(params).properties;
        match property_position(old_props, params.last().name) {
            Some(m) => {
                assert forall|i: int| 0 <= i < props.len() implies #[trigger] props[i].name
                    == old_props[i].name by {}
            },
            None => {
                assert forall|i: int, j: int| 0 <= i < j < props.len() implies props[i].name
                    != props[j].name by {
                    if j == old_props.len() {
                        assert(props[i] == old_props[i]);
                    } else {
                        assert(props[i] == old_props[i]);
                        assert(props[j] == old_props[j]);
                    }
                }
            },
        }
    }
}

/// Every parameter's name has a property in the schema.
pub proof fn lemma_schema_covers(params: Seq<ParameterView>, k: int)
    requires
        0 <= k < params.len(),
    ensures
        exists|j: int|
            0 <= j < schema_of(params).properties.len() && schema_of(params).properties[j].name
                == params[k].name,
    decreases params.len(),
{
    lemma_schema_step(params);
    let prev = params.drop_last();
    let old_props = schema_of(prev).properties;
    let props = schema_of(params).properties;
    let n = params.len() - 1;
    if k < n {
        lemma_schema_covers(prev, k);
        let j = choose|j: int| 0 <= j < old_props.len() && old_props[j].name == prev[k].name;
        assert(prev[k] == params[k]);
        match property_position(old_props, params.last().name) {
            Some(m) => {
                assert(props[j].name == params[k].name);
            },
            None => {
                assert(props[j] == old_props[j]);
            },
        }
    } else {
        match property_position(old_props, params.last().name) {
            Some(m) => {
                assert(props[m].name == params[k].name);
            },
            None => {
                assert(props[old_props.len() as int].name == params[k].name);
            },
        }
    }
}

/// Each property of the schema is the one that the last parameter of its name gives.
pub proof fn lemma_schema_last_wins(params: Seq<ParameterView>, j: int)
    requires
        0 <= j < schema_of(params).properties.len(),
    ensures
        exists|k: int|
            0 <= k < params.len() && schema_of(params).properties[j] == property_of(params[k])
                && last_of_its_name(params, k),
    decreases params.len(),
{
    lemma_schema_step(params);
    lemma_schema_distinct(params.drop_last());
    let prev = params.drop_last();
    let old_props = schema_of(prev).properties;
    let props = schema_of(params).properties;
    let n = params.len() - 1;
    let fresh = match property_position(old_props, params.last().name) {
        Some(m) => j == m,
        None => j == old_props.len(),
    };
    if fresh {
        assert(props[j] == property_of(params[n]));
        assert(last_of_its_name(params, n));
        assert(0 <= n < params.len() && props[j] == property_of(params[n]) && last_of_its_name(params, n));
    } else {
        lemma_schema_last_wins(prev, j);
        let k = choose|k: int|
            0 <= k < prev.len() && old_props[j] == property_of(prev[k]) && last_of_its_name(prev, k);
        assert(prev[k] == params[k]);
        assert(props[j] == old_props[j]);
        assert(old_props[j].name != params.last().name);
        assert forall|k2: int| k < k2 < params.len() implies #[trigger] params[k2].name
            != params[k].name by {
            if k2 < n {
                assert(prev[k2] == params[k2]);
            }
        }
        assert(0 <= k < params.len() && props[j] == property_of(params[k]) && last_of_its_name(params, k));
    }
}

/// What `create_tool` gives for a definition.
pub open spec fn spec_create_tool(def: RawToolView) -> Result<ToolView, Seq<char>> {
    match spec_c_str_to_string(def.name) {
        Err(e) => Err(e),
        Ok(name) => match spec_c_str_to_string(def.description) {
            Err(e) => Err(e),
            Ok(description) => match decode_parameters(def.parameters) {
                Err(e) => Err(e),
                Ok(params) => Ok(
                    ToolView {
                        name,
                        description,
                        input_schema: schema_json(schema_of(params)),
                        annotations: None,
                    },
                ),
            },
        },
    }
}

/// Builds a tool from its C definition: its name, its description, and the
/// object schema of its parameters.
pub fn create_tool(def: &ToolDefinition) -> (r: Result<Tool, String>)
    ensures
        view_result(r) == spec_create_tool(def@),
{
    let name = match c_str_to_string(&def.name) {
        Ok(s) => s,
        Err(e) => return Err(e),
    };
    let description = match c_str_to_string(&def.description) {
        Ok(s) => s,
        Err(e) => return Err(e),
    };
    let ghost raw = def@.parameters;
    let mut required: Vec<String> = Vec::new();
    let mut properties: Vec<PropertySchema> = Vec::new();
    let ghost mut decoded: Seq<ParameterView> = seq![];
    let mut i: usize = 0;
    while i < def.parameters.len()
        invariant
            raw == def@.parameters,
            spec_c_str_to_string(def@.name) == Ok::<Seq<char>, Seq<char>>(name@),
            spec_c_str_to_string(def@.description) == Ok::<Seq<char>, Seq<char>>(description@),
            raw.len() == def.parameters@.len(),
            i <= raw.len(),
            decode_parameters(raw.take(i as int)) == Ok::<Seq<ParameterView>, Seq<char>>(decoded),
            strings_view(required@) == schema_of(decoded).required,
            properties_view(properties@) == schema_of(decoded).properties,
        decreases raw.len() - i,
    {
        let p = &def.parameters[i];
        assert(raw[i as int] == p@);
        proof {
            lemma_decode_each_step(raw, |i: int, r: RawParameterView| decode_parameter(r), i as int);
        }
        let pname = match c_str_to_string(&p.name) {
            Ok(s) => s,
            Err(e) => {
                proof {
                    lemma_decode_each_prefix_err(raw, |i: int, r: RawParameterView| decode_parameter(r), i + 1);
                }
                return Err(e);
            },
        };
        let pdescription = match c_str_to_string(&p.description) {
            Ok(s) => s,
            Err(e) => {
                proof {
                    lemma_decode_each_prefix_err(raw, |i: int, r: RawParameterView| decode_parameter(r), i + 1);
                }
                return Err(e);
            },
        };
        let ptype = match c_str_to_string(&p.param_type) {
            Ok(s) => s,
            Err(e) => {
                proof {
                    lemma_decode_each_prefix_err(raw, |i: int, r: RawParameterView| decode_parameter(r), i + 1);
                }
                return Err(e);
            },
        };
        let ghost pv = ParameterView {
            name: pname@,
            description: pdescription@,
            param_type: ptype@,
            required: p.required,
        };
        if p.required {
            required.push(pname.clone());
        }
        set_property(
            &mut properties,
            PropertySchema { name: pname, param_type: ptype, description: pdescription },
        );
        proof {
            let prev = decoded;
            decoded = prev.push(pv);
            assert(decoded.drop_last() =~= prev);
            assert(strings_view(required@) =~= schema_of(decoded).required);
        }
        i = i + 1;
    }
    assert(raw.take(raw.len() as int) =~= raw);
    let schema = ToolSchema { required, properties };
    let tool = Tool { name, description, input_schema: schema_value(&schema), annotations: None };
    Ok(tool)
}

/// Some parameter whose flag is set has the name `n`.
pub open spec fn named_by_required(params: Seq<ParameterView>, n: Seq<char>) -> bool {
    exists|k: int| 0 <= k < params.len() && params[k].required && params[k].name == n
}

/// The names in `required_names(params)` are exactly the names of parameters
/// whose flag is set: each comes from such a parameter, and each such
/// parameter's name is there.
pub proof fn lemma_required_names_members(params: Seq<ParameterView>)
    ensures
        forall|i: int|
            0 <= i < required_names(params).len() ==> named_by_required(
                params,
                #[trigger] required_names(params)[i],
            ),
        forall|k: int|
            0 <= k < params.len() && (#[trigger] params[k]).required ==> required_names(
                params,
            ).contains(params[k].name),
    decreases params.len(),
{
    if params.len() > 0 {
        let prev = params.drop_last();
        lemma_required_names_members(prev);
        let r = required_names(params);
        let rp = required_names(prev);
        assert(forall|k: int| 0 <= k < prev.len() ==> prev[k] == params[k]);
        if params.last().required {
            assert(r == rp + seq![params.last().name]);
        } else {
            assert(r == rp);
        }
        assert forall|i: int| 0 <= i < r.len() implies named_by_required(params, #[trigger] r[i]) by {
            if i < rp.len() {
                assert(r[i] == rp[i]);
                assert(named_by_required(prev, rp[i]));
                let k = choose|k: int|
                    0 <= k < prev.len() && prev[k].required && prev[k].name == rp[i];
                assert(params[k] == prev[k]);
                assert(0 <= k < params.len() && params[k].required && r[i] == params[k].name);
            } else {
                let k = params.len() - 1;
                assert(r[i] == params[k].name);
                assert(0 <= k < params.len() && params[k].required && r[i] == params[k].name);
            }
        }
        assert forall|k: int| 0 <= k < params.len() && (#[trigger] params[k]).required implies r.contains(
            params[k].name,
        ) by {
            if k < prev.len() {
                assert(prev[k] == params[k]);
                assert(rp.contains(prev[k].name));
                let i = choose|i: int| 0 <= i < rp.len() && rp[i] == prev[k].name;
                assert(r[i] == rp[i]);
            } else {
                assert(r[r.len() - 1] == params[k].name);
            }
        }
    } else {
        assert(required_names(params) =~= Seq::<Seq<char>>::empty());
    }
}

/// A tool built from a C definition: its name and description are the
/// definition's strings, it has no annotations, and its input schema is the
/// object `{"type": "object", "required": R, "properties": P}` where, over the
/// definition's parameters read one by one in index order:
/// - `R` lists, in index order, the name of each parameter whose flag is set,
///   and only those;
/// - `P` has one entry per distinct parameter name, no name twice, and the entry
///   for a name is `{"type": t, "description": d}` of the last parameter with
///   that name.
pub proof fn law_create_tool(def: RawToolView)
    ensures
        spec_create_tool(def) matches Ok(t) ==> {
            let params = decode_parameters(def.parameters)->Ok_0;
            let top = t.input_schema->Object_0;
            let req = top[1].1->Array_0;
            let props = top[2].1->Object_0;
            &&& spec_c_str_to_string(def.name) == Ok::<Seq<char>, Seq<char>>(t.name)
            &&& spec_c_str_to_string(def.description) == Ok::<Seq<char>, Seq<char>>(t.description)
            &&& t.annotations is None
            &&& params.len() == def.parameters.len()
            &&& forall|k: int|
                0 <= k < params.len() ==> decode_parameter(#[trigger] def.parameters[k]) == Ok::<
                    ParameterView,
                    Seq<char>,
                >(params[k])
            &&& t.input_schema is Object
            &&& top.len() == 3
            &&& top[0] == ("type"@, JsonView::String("object"@))
            &&& top[1].0 == "required"@
            &&& top[1].1 == JsonView::Array(
                required_names(params).map_values(|n: Seq<char>| JsonView::String(n)),
            )
            &&& forall|i: int|
                0 <= i < req.len() ==> exists|k: int|
                    0 <= k < params.len() && params[k].required && #[trigger] req[i]
                        == JsonView::String(params[k].name)
            &&& forall|k: int|
                0 <= k < params.len() && (#[trigger] params[k]).required ==> req.contains(
                    JsonView::String(params[k].name),
                )
            &&& top[2].0 == "properties"@
            &&& top[2].1 is Object
            &&& forall|i: int, j: int| 0 <= i < j < props.len() ==> props[i].0 != props[j].0
            &&& forall|k: int|
                0 <= k < params.len() ==> exists|j: int|
                    0 <= j < props.len() && #[trigger] props[j].0 == #[trigger] params[k].name
            &&& forall|j: int|
                0 <= j < props.len() ==> exists|k: int|
                    0 <= k < params.len() && last_of_its_name(params, k) && #[trigger] props[j] == (
                        params[k].name,
                        JsonView::Object(
                            seq![
                                ("type"@, JsonView::String(params[k].param_type)),
                                ("description"@, JsonView::String(params[k].description)),
                            ],
                        ),
                    )
        },
{
    if spec_create_tool(def) is Ok {
        let t = spec_create_tool(def)->Ok_0;
        let params = decode_parameters(def.parameters)->Ok_0;
        crate::batch::lemma_decode_each_ok(
            def.parameters,
            |i: int, r: RawParameterView| decode_parameter(r),
        );
        let s = schema_of(params);
        lemma_schema_required(params);
        lemma_schema_distinct(params);
        lemma_required_names_members(params);
        let top = t.input_schema->Object_0;
        let req = top[1].1->Array_0;
        let props = top[2].1->Object_0;
        assert(props == s.properties.map_values(|p: PropertyView| property_json(p)));
        assert(req == required_names(params).map_values(|n: Seq<char>| JsonView::String(n)));
        assert forall|i: int| 0 <= i < req.len() implies exists|k: int|
            0 <= k < params.len() && params[k].required && #[trigger] req[i] == JsonView::String(
                params[k].name,
            ) by {
            assert(named_by_required(params, required_names(params)[i]));
            let k = choose|k: int|
                0 <= k < params.len() && params[k].required && params[k].name == required_names(params)[i];
            assert(req[i] == JsonView::String(required_names(params)[i]));
            assert(0 <= k < params.len() && params[k].required && req[i] == JsonView::String(params[k].name));
        }
        assert forall|k: int| 0 <= k < params.len() && (#[trigger] params[k]).required implies req.contains(
            JsonView::String(params[k].name),
        ) by {
            let i = choose|i: int|
                0 <= i < required_names(params).len() && required_names(params)[i] == params[k].name;
            assert(req[i] == JsonView::String(params[k].name));
        }
        assert forall|i: int, j: int| 0 <= i < j < props.len() implies props[i].0 != props[j].0 by {
            assert(props[i].0 == s.properties[i].name);
            assert(props[j].0 == s.properties[j].name);
        }
        assert forall|k: int| 0 <= k < params.len() implies exists|j: int|
            0 <= j < props.len() && #[trigger] props[j].0 == #[trigger] params[k].name by {
            lemma_schema_covers(params, k);
            let j = choose|j: int| 0 <= j < s.properties.len() && s.properties[j].name == params[k].name;
            assert(props[j].0 == s.properties[j].name);
        }
        assert forall|j: int| 0 <= j < props.len() implies exists|k: int|
            0 <= k < params.len() && last_of_its_name(params, k) && #[trigger] props[j] == (
                params[k].name,
                JsonView::Object(
                    seq![
                        ("type"@, JsonView::String(params[k].param_type)),
                        ("description"@, JsonView::String(params[k].description)),
                    ],
                ),
            ) by {
            lemma_schema_last_wins(params, j);
            let k = choose|k: int|
                0 <= k < params.len() && s.properties[j] == property_of(params[k])
                    && last_of_its_name(params, k);
            assert(props[j] == property_json(s.properties[j]));
        }
    }
}

} // verus!
