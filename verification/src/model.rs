//! Data model of the editor graph: typed ports and typed, coercible
//! parameters.  Each executable type has a mathematical view used by the
//! contracts of the graph store.

use vstd::prelude::*;

verus! {

/// The type of a connection point.  Two ports can only be wired together
/// when their types are exactly equal.
#[derive(Clone, Copy, PartialEq, Eq, Structural, Debug)]
pub enum PortType {
    String,
    Number,
    Object,
    Action,
}

/// The declared type of an editable node attribute.
#[derive(Clone, Copy, PartialEq, Eq, Structural, Debug)]
pub enum ParameterType {
    Text,
    Number,
    Boolean,
    Select,
}

/// Mathematical view of a [`Port`].
pub struct PortModel {
    pub id: Seq<char>,
    pub label: Seq<char>,
    pub port_type: PortType,
}

/// A typed, named connection point on a node.
#[derive(PartialEq, Debug)]
pub struct Port {
    pub id: String,
    pub label: String,
    pub port_type: PortType,
}

impl View for Port {
    type V = PortModel;

    open spec fn view(&self) -> PortModel {
        PortModel { id: self.id@, label: self.label@, port_type: self.port_type }
    }
}

impl Port {
    /// Create a new port with the given id, label, and port type.
    pub fn new(id: String, label: String, port_type: PortType) -> (r: Port)
        ensures
            r@ == (PortModel { id: id@, label: label@, port_type }),
    {
        Port { id, label, port_type }
    }

    /// Get the port id.
    pub fn id(&self) -> (r: &str)
        ensures
            r@ == self@.id,
    {
        self.id.as_str()
    }

    /// Get the port label.
    pub fn label(&self) -> (r: &str)
        ensures
            r@ == self@.label,
    {
        self.label.as_str()
    }

    /// Get the port type.
    pub fn port_type(&self) -> (r: PortType)
        ensures
            r == self@.port_type,
    {
        self.port_type
    }
}

impl Clone for Port {
    fn clone(&self) -> (r: Self)
        ensures
            r@ == self@,
    {
        Port { id: self.id.clone(), label: self.label.clone(), port_type: self.port_type }
    }
}

/// What parsing a given text as a number and rendering the value back
/// yields: `None` when the text is not a valid number, otherwise the
/// canonical rendering of the parsed value.  The result depends on the
/// characters alone.
pub uninterp spec fn numeric_text(s: Seq<char>) -> Option<Seq<char>>;

/// Relies on `serde_json::from_str::<serde_json::Number>`: accepts exactly
/// the texts that parse as a number; the parsed value is converted to its
/// canonical rendering so that the library can hold it as plain text.
/// The accepted grammar is that of JSON numbers — a float parse cannot
/// stand in verified code, so texts such as `.5` or `inf` read as plain
/// text instead.
#[verifier::external_body]
fn parse_numeric(s: &str) -> (r: Option<String>)
    ensures
        r is Some <==> numeric_text(s@) is Some,
        r matches Some(t) ==> numeric_text(s@) == Some(t@),
{
    serde_json::from_str::<serde_json::Number>(s).ok().map(|v| v.to_string())
}

/// Relies on `String::push`: appends one character.
pub assume_specification[ std::string::String::push ](s: &mut String, c: char)
    ensures
        final(s)@ == old(s)@.push(c),
;

/// Mathematical view of a [`ParameterValue`].
pub enum ValueModel {
    Text(Seq<char>),
    Number(Seq<char>),
    Boolean(bool),
    Select(Seq<char>, Seq<Seq<char>>),
}

/// The value of a parameter.  The variant normally matches the parameter's
/// declared type; assigning text that the type cannot hold migrates the
/// value to `Text` (see [`Parameter::set_text_value`]).
///
/// A numeric value is held as the canonical rendering of the parsed float,
/// so the verified core never manipulates floating point itself.
#[derive(PartialEq, Debug)]
pub enum ParameterValue {
    Text(String),
    Number(String),
    Boolean(bool),
    Select(String, Vec<String>),
}

impl View for ParameterValue {
    type V = ValueModel;

    open spec fn view(&self) -> ValueModel {
        match self {
            ParameterValue::Text(t) => ValueModel::Text(t@),
            ParameterValue::Number(t) => ValueModel::Number(t@),
            ParameterValue::Boolean(b) => ValueModel::Boolean(*b),
            ParameterValue::Select(sel, opts) => ValueModel::Select(
                sel@,
                opts@.map_values(|o: String| o@),
            ),
        }
    }
}

impl Clone for ParameterValue {
    fn clone(&self) -> (r: Self)
        ensures
            r@ == self@,
    {
        match self {
            ParameterValue::Text(t) => ParameterValue::Text(t.clone()),
            ParameterValue::Number(t) => ParameterValue::Number(t.clone()),
            ParameterValue::Boolean(b) => ParameterValue::Boolean(*b),
            ParameterValue::Select(sel, opts) => {
                let mut copied: Vec<String> = Vec::new();
                for i in 0..opts.len()
                    invariant
                        copied@.len() == i,
                        forall|j: int| 0 <= j < i ==> copied@[j]@ == opts@[j]@,
                {
                    copied.push(opts[i].clone());
                }
                assert(copied@.map_values(|o: String| o@) =~= opts@.map_values(|o: String| o@));
                ParameterValue::Select(sel.clone(), copied)
            }
        }
    }
}

/// The text a boolean shows as.
pub open spec fn spec_bool_text(b: bool) -> Seq<char> {
    if b {
        "true"@
    } else {
        "false"@
    }
}

/// The strict boolean reading of a text: only the exact tokens are accepted.
pub open spec fn bool_of_text(s: Seq<char>) -> Option<bool> {
    if s == "true"@ {
        Some(true)
    } else if s == "false"@ {
        Some(false)
    } else {
        None
    }
}

/// The text a parameter value displays as.
pub open spec fn value_text(v: ValueModel) -> Seq<char> {
    match v {
        ValueModel::Text(t) => t,
        ValueModel::Number(t) => t,
        ValueModel::Boolean(b) => spec_bool_text(b),
        ValueModel::Select(sel, _) => sel,
    }
}

/// How assigning displayed text re-interprets a parameter value: the text is
/// read according to the current variant, and a reading failure migrates the
/// value to `Text` holding the raw input.
pub open spec fn coerce_value(v: ValueModel, t: Seq<char>) -> ValueModel {
    match v {
        ValueModel::Text(_) => ValueModel::Text(t),
        ValueModel::Number(_) => match numeric_text(t) {
            Some(c) => ValueModel::Number(c),
            None => ValueModel::Text(t),
        },
        ValueModel::Boolean(_) => match bool_of_text(t) {
            Some(b) => ValueModel::Boolean(b),
            None => ValueModel::Text(t),
        },
        ValueModel::Select(_, opts) => if opts.contains(t) {
            ValueModel::Select(t, opts)
        } else {
            ValueModel::Text(t)
        },
    }
}

/// Whether one of the option strings reads as `s`.
pub fn vec_contains_str(opts: &Vec<String>, s: &str) -> (r: bool)
    ensures
        r == opts@.map_values(|o: String| o@).contains(s@),
{
    let ghost views = opts@.map_values(|o: String| o@);
    for i in 0..opts.len()
        invariant
            views == opts@.map_values(|o: String| o@),
            forall|j: int| 0 <= j < i ==> views[j] != s@,
    {
        if str_eq(opts[i].as_str(), s) {
            assert(views[i as int] == s@);
            return true;
        }
    }
    assert(forall|j: int| 0 <= j < views.len() ==> views[j] != s@);
    false
}

/// Mathematical view of a [`Parameter`].
pub struct ParamModel {
    pub id: Seq<char>,
    pub label: Seq<char>,
    pub param_type: ParameterType,
    pub value: ValueModel,
}

/// A typed, editable attribute of a node.  The `id` doubles as the
/// parameter's semantic kind (a string key such as `name` or `url`).
#[derive(PartialEq, Debug)]
pub struct Parameter {
    pub id: String,
    pub label: String,
    pub param_type: ParameterType,
    pub value: ParameterValue,
}

impl View for Parameter {
    type V = ParamModel;

    open spec fn view(&self) -> ParamModel {
        ParamModel {
            id: self.id@,
            label: self.label@,
            param_type: self.param_type,
            value: self.value@,
        }
    }
}

impl Clone for Parameter {
    fn clone(&self) -> (r: Self)
        ensures
            r@ == self@,
    {
        Parameter {
            id: self.id.clone(),
            label: self.label.clone(),
            param_type: self.param_type,
            value: self.value.clone(),
        }
    }
}

impl Parameter {
    /// Create a new parameter with the given id, label, type, and value.
    pub fn new(id: String, label: String, param_type: ParameterType, value: ParameterValue) -> (r:
        Parameter)
        ensures
            r@ == (ParamModel { id: id@, label: label@, param_type, value: value@ }),
    {
        Parameter { id, label, param_type, value }
    }

    /// Get the parameter id, which also serves as its kind.
    pub fn kind(&self) -> (r: &str)
        ensures
            r@ == self@.id,
    {
        self.id.as_str()
    }

    /// Get the parameter id.
    pub fn id(&self) -> (r: &str)
        ensures
            r@ == self@.id,
    {
        self.id.as_str()
    }

    /// Get the label of the parameter.
    pub fn label(&self) -> (r: &str)
        ensures
            r@ == self@.label,
    {
        self.label.as_str()
    }

    /// Get the type of the parameter.
    pub fn param_type(&self) -> (r: &ParameterType)
        ensures
            *r == self@.param_type,
    {
        &self.param_type
    }

    /// Get a reference to the value of the parameter.
    pub fn value(&self) -> (r: &ParameterValue)
        ensures
            r@ == self@.value,
    {
        &self.value
    }

    /// Get the text the parameter displays as, whatever its variant.
    pub fn get_text(&self) -> (r: String)
        ensures
            r@ == value_text(self@.value),
    {
        match &self.value {
            ParameterValue::Text(t) => t.clone(),
            ParameterValue::Number(t) => t.clone(),
            ParameterValue::Boolean(b) => if *b {
                "true".to_owned()
            } else {
                "false".to_owned()
            },
            ParameterValue::Select(sel, _) => sel.clone(),
        }
    }

    /// Set the displayed text of the parameter: the same coerce-or-degrade
    /// policy as [`Parameter::set_text_value`] — a text the current variant
    /// cannot read migrates the value to `Text` holding the raw input.
    pub fn set_text(&mut self, text: String)
        ensures
            final(self)@ == (ParamModel { value: coerce_value(old(self)@.value, text@), ..old(self)@ }),
    {
        self.set_text_value(text);
    }

    /// Re-interpret displayed text according to the current variant; when the
    /// text cannot be read, the value migrates to `Text` holding the input.
    pub fn set_text_value(&mut self, value: String)
        ensures
            final(self)@ == (ParamModel { value: coerce_value(old(self)@.value, value@), ..old(self)@ }),
    {
        let new_value: Option<ParameterValue> = match &mut self.value {
            ParameterValue::Text(_) => Some(ParameterValue::Text(value)),
            ParameterValue::Number(_) => match parse_numeric(value.as_str()) {
                Some(c) => Some(ParameterValue::Number(c)),
                None => Some(ParameterValue::Text(value)),
            },
            ParameterValue::Boolean(_) => {
                if str_eq(value.as_str(), "true") {
                    Some(ParameterValue::Boolean(true))
                } else if str_eq(value.as_str(), "false") {
                    Some(ParameterValue::Boolean(false))
                } else {
                    Some(ParameterValue::Text(value))
                }
            },
            ParameterValue::Select(sel, opts) => {
                if vec_contains_str(opts, value.as_str()) {
                    *sel = value;
                    None
                } else {
                    Some(ParameterValue::Text(value))
                }
            },
        };
        if let Some(v) = new_value {
            self.value = v;
        }
    }
}

/// Compare two string slices by characters.
pub fn str_eq(a: &str, b: &str) -> (r: bool)
    ensures
        r == (a@ == b@),
{
    let a_len = a.unicode_len();
    let b_len = b.unicode_len();
    if a_len != b_len {
        return false;
    }
    for i in 0..a_len
        invariant
            a_len == a@.len(),
            b_len == b@.len(),
            a_len == b_len,
            forall|j: int| 0 <= j < i ==> a@[j] == b@[j],
    {
        if a.get_char(i) != b.get_char(i) {
            return false;
        }
    }
    assert(a@ =~= b@);
    true
}

} // verus!
