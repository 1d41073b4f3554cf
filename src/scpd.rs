use crate::error::Error;
use crate::device::{has_child, list_of, text_of};
use crate::xml::{
    child_of, document_of, find_child, is_missing, optional_text, parse_xml, required_child,
    required_text, str_eq, XmlElement,
};
use vstd::prelude::*;

verus! {

/// Whether an argument goes to the device or comes back from it.
#[derive(PartialEq, Eq, Structural, Clone, Copy, Debug)]
pub enum Direction {
    In,
    Out,
}

/// An argument of an action.
pub struct ArgumentSpec {
    pub name: String,
    pub direction: Direction,
    pub related_state_variable: String,
}

/// An action, its arguments in document order.
pub struct ActionSpec {
    pub name: String,
    pub arguments: Vec<ArgumentSpec>,
}

/// The type of a state variable; a token that is none of the known ones is kept as it is.
#[derive(Debug)]
pub enum DataType {
    UI1,
    UI2,
    UI4,
    I1,
    I2,
    I4,
    Int,
    R4,
    R8,
    Number,
    Fixed14_4,
    Float,
    Char,
    Text,
    Date,
    DateTime,
    DateTimeTz,
    Time,
    TimeTz,
    Boolean,
    BinBase64,
    BinHex,
    Uri,
    Uuid,
    Unknown(String),
}

/// The bounds of a numeric state variable, as the document writes them.
pub struct AllowedRange {
    pub minimum: String,
    pub maximum: String,
    pub step: Option<String>,
}

/// A state variable and its constraints.
pub struct StateVariableSpec {
    pub name: String,
    pub data_type: DataType,
    pub default_value: Option<String>,
    pub allowed_values: Option<Vec<String>>,
    pub allowed_range: Option<AllowedRange>,
}

/// The actions and state variables of a service, in document order.
pub struct ServiceSchema {
    pub actions: Vec<ActionSpec>,
    pub state_variables: Vec<StateVariableSpec>,
}

/// The token that names a data type.
pub open spec fn token_of(d: DataType) -> Seq<char> {
    match d {
        DataType::UI1 => "ui1"@,
        DataType::UI2 => "ui2"@,
        DataType::UI4 => "ui4"@,
        DataType::I1 => "i1"@,
        DataType::I2 => "i2"@,
        DataType::I4 => "i4"@,
        DataType::Int => "int"@,
        DataType::R4 => "r4"@,
        DataType::R8 => "r8"@,
        DataType::Number => "number"@,
        DataType::Fixed14_4 => "fixed.14.4"@,
        DataType::Float => "float"@,
        DataType::Char => "char"@,
        DataType::Text => "string"@,
        DataType::Date => "date"@,
        DataType::DateTime => "dateTime"@,
        DataType::DateTimeTz => "dateTime.tz"@,
        DataType::Time => "time"@,
        DataType::TimeTz => "time.tz"@,
        DataType::Boolean => "boolean"@,
        DataType::BinBase64 => "bin.base64"@,
        DataType::BinHex => "bin.hex"@,
        DataType::Uri => "uri"@,
        DataType::Uuid => "uuid"@,
        DataType::Unknown(s) => s@,
    }
}

/// Whether `t` is one of the known data type tokens.
pub open spec fn is_known_token(t: Seq<char>) -> bool {
    t == "ui1"@ || t == "ui2"@ || t == "ui4"@ || t == "i1"@ || t == "i2"@ || t == "i4"@ || t == "int"@ || t == "r4"@ || t == "r8"@ || t == "number"@ || t == "fixed.14.4"@ || t == "float"@ || t == "char"@ || t == "string"@ || t == "date"@ || t == "dateTime"@ || t == "dateTime.tz"@ || t == "time"@ || t == "time.tz"@ || t == "boolean"@ || t == "bin.base64"@ || t == "bin.hex"@ || t == "uri"@ || t == "uuid"@
}

/// The data type that the token `token` names.
pub fn data_type_of(token: &str) -> (r: DataType)
    ensures
        token_of(r) == token@,
        r is Unknown <==> !is_known_token(token@),
{
    if str_eq(token, "ui1") {
        return DataType::UI1;
    }
    if str_eq(token, "ui2") {
        return DataType::UI2;
    }
    if str_eq(token, "ui4") {
        return DataType::UI4;
    }
    if str_eq(token, "i1") {
        return DataType::I1;
    }
    if str_eq(token, "i2") {
        return DataType::I2;
    }
    if str_eq(token, "i4") {
        return DataType::I4;
    }
    if str_eq(token, "int") {
        return DataType::Int;
    }
    if str_eq(token, "r4") {
        return DataType::R4;
    }
    if str_eq(token, "r8") {
        return DataType::R8;
    }
    if str_eq(token, "number") {
        return DataType::Number;
    }
    if str_eq(token, "fixed.14.4") {
        return DataType::Fixed14_4;
    }
    if str_eq(token, "float") {
        return DataType::Float;
    }
    if str_eq(token, "char") {
        return DataType::Char;
    }
    if str_eq(token, "string") {
        return DataType::Text;
    }
    if str_eq(token, "date") {
        return DataType::Date;
    }
    if str_eq(token, "dateTime") {
        return DataType::DateTime;
    }
    if str_eq(token, "dateTime.tz") {
        return DataType::DateTimeTz;
    }
    if str_eq(token, "time") {
        return DataType::Time;
    }
    if str_eq(token, "time.tz") {
        return DataType::TimeTz;
    }
    if str_eq(token, "boolean") {
        return DataType::Boolean;
    }
    if str_eq(token, "bin.base64") {
        return DataType::BinBase64;
    }
    if str_eq(token, "bin.hex") {
        return DataType::BinHex;
    }
    if str_eq(token, "uri") {
        return DataType::Uri;
    }
    if str_eq(token, "uuid") {
        return DataType::Uuid;
    }
    DataType::Unknown(token.to_owned())
}


/// An argument as values: name, direction, related state variable.
pub type ArgumentView = (Seq<char>, Direction, Seq<char>);

/// An action as values: name and arguments.
pub type ActionView = (Seq<char>, Seq<ArgumentView>);

/// A range as values: minimum, maximum, step.
pub type RangeView = (Seq<char>, Seq<char>, Option<Seq<char>>);

/// A state variable as values: name, type token, default, allowed values, range.
pub type VariableView = (
    Seq<char>,
    Seq<char>,
    Option<Seq<char>>,
    Option<Seq<Seq<char>>>,
    Option<RangeView>,
);

impl View for ArgumentSpec {
    type V = ArgumentView;

    open spec fn view(&self) -> ArgumentView {
        (self.name@, self.direction, self.related_state_variable@)
    }
}

impl View for ActionSpec {
    type V = ActionView;

    open spec fn view(&self) -> ActionView {
        (self.name@, self.arguments@.map_values(|a: ArgumentSpec| a@))
    }
}

impl View for AllowedRange {
    type V = RangeView;

    open spec fn view(&self) -> RangeView {
        (
            self.minimum@,
            self.maximum@,
            match self.step {
                Some(t) => Some(t@),
                None => None,
            },
        )
    }
}

impl View for StateVariableSpec {
    type V = VariableView;

    open spec fn view(&self) -> VariableView {
        (
            self.name@,
            token_of(self.data_type),
            match self.default_value {
                Some(t) => Some(t@),
                None => None,
            },
            match self.allowed_values {
                Some(v) => Some(v@.map_values(|t: String| t@)),
                None => None,
            },
            match self.allowed_range {
                Some(r) => Some(r@),
                None => None,
            },
        )
    }
}

impl View for ServiceSchema {
    type V = (Seq<ActionView>, Seq<VariableView>);

    open spec fn view(&self) -> (Seq<ActionView>, Seq<VariableView>) {
        (
            self.actions@.map_values(|a: ActionSpec| a@),
            self.state_variables@.map_values(|v: StateVariableSpec| v@),
        )
    }
}

/// The text of the child of `e` named `name`, where there is one.
pub open spec fn optional_text_of(e: XmlElement, name: Seq<char>) -> Option<Seq<char>> {
    match child_of(e, name) {
        Some(c) => Some(c.text@),
        None => None,
    }
}

/// The direction that a token names.
pub open spec fn direction_of(t: Seq<char>) -> Direction {
    if t == "in"@ {
        Direction::In
    } else {
        Direction::Out
    }
}

/// An argument element holds a name, a direction that is "in" or "out", and a
/// related state variable.
pub open spec fn argument_valid(e: XmlElement) -> bool {
    &&& has_child(e, "name"@)
    &&& has_child(e, "direction"@)
    &&& (text_of(e, "direction"@) == "in"@ || text_of(e, "direction"@) == "out"@)
    &&& has_child(e, "relatedStateVariable"@)
}

/// What an argument element describes.
pub open spec fn argument_view_of(e: XmlElement) -> ArgumentView {
    (
        text_of(e, "name"@),
        direction_of(text_of(e, "direction"@)),
        text_of(e, "relatedStateVariable"@),
    )
}

/// An action element holds a name and well-formed arguments, if any.
pub open spec fn action_valid(e: XmlElement) -> bool {
    &&& has_child(e, "name"@)
    &&& forall|i: int|
        0 <= i < list_of(e, "argumentList"@).len() ==> argument_valid(
            #[trigger] list_of(e, "argumentList"@)[i],
        )
}

/// What an action element describes: no arguments where it has no argument list.
pub open spec fn action_view_of(e: XmlElement) -> ActionView {
    (text_of(e, "name"@), list_of(e, "argumentList"@).map_values(|a: XmlElement| argument_view_of(a)))
}

/// A range element holds a minimum and a maximum.
pub open spec fn range_valid(e: XmlElement) -> bool {
    has_child(e, "minimum"@) && has_child(e, "maximum"@)
}

/// What a range element describes.
pub open spec fn range_view_of(e: XmlElement) -> RangeView {
    (text_of(e, "minimum"@), text_of(e, "maximum"@), optional_text_of(e, "step"@))
}

/// A state variable element holds a name, a data type and, where it has a range, a well-formed one.
pub open spec fn variable_valid(e: XmlElement) -> bool {
    &&& has_child(e, "name"@)
    &&& has_child(e, "dataType"@)
    &&& child_of(e, "allowedValueRange"@) matches Some(r) ==> range_valid(r)
}

/// What a state variable element describes.
pub open spec fn variable_view_of(e: XmlElement) -> VariableView {
    (
        text_of(e, "name"@),
        text_of(e, "dataType"@),
        optional_text_of(e, "defaultValue"@),
        match child_of(e, "allowedValueList"@) {
            Some(l) => Some(l.children@.map_values(|c: XmlElement| c.text@)),
            None => None,
        },
        match child_of(e, "allowedValueRange"@) {
            Some(r) => Some(range_view_of(r)),
            None => None,
        },
    )
}

/// The argument element `e`.
pub fn parse_argument(e: &XmlElement) -> (r: Result<ArgumentSpec, Error>)
    ensures
        r is Ok <==> argument_valid(*e),
        r matches Ok(a) ==> a@ == argument_view_of(*e),
        !has_child(*e, "name"@) ==> (r matches Err(x) && is_missing(x, e.name@, "name"@)),
        has_child(*e, "name"@) && !has_child(*e, "direction"@) ==> (r matches Err(x) && is_missing(x, e.name@, "direction"@)),
        has_child(*e, "name"@) && has_child(*e, "direction"@) && !has_child(*e, "relatedStateVariable"@) ==> (r matches Err(x) && is_missing(x, e.name@, "relatedStateVariable"@)),
        has_child(*e, "name"@) && has_child(*e, "direction"@) && has_child(
            *e,
            "relatedStateVariable"@,
        ) && !argument_valid(*e) ==> r matches Err(Error::InvalidResponse(_)),
{
    let name = required_text(e, "name")?;
    let direction = required_text(e, "direction")?;
    let related_state_variable = required_text(e, "relatedStateVariable")?;
    let direction = if str_eq(direction.as_str(), "in") {
        Direction::In
    } else if str_eq(direction.as_str(), "out") {
        Direction::Out
    } else {
        return Err(Error::InvalidResponse("direction is neither in nor out".to_owned()));
    };
    Ok(ArgumentSpec { name, direction, related_state_variable })
}

/// The action element `e`.
pub fn parse_action(e: &XmlElement) -> (r: Result<ActionSpec, Error>)
    ensures
        r is Ok <==> action_valid(*e),
        r matches Ok(a) ==> a@ == action_view_of(*e),
        !has_child(*e, "name"@) ==> (r matches Err(x) && is_missing(x, e.name@, "name"@)),
{
    let name = required_text(e, "name")?;
    let mut arguments: Vec<ArgumentSpec> = Vec::new();
    if let Some(k) = find_child(e, "argumentList") {
        let list = &e.children[k];
        let mut i: usize = 0;
        while i < list.children.len()
            invariant
                list_of(*e, "argumentList"@) == list.children@,
                has_child(*e, "name"@),
                i <= list.children@.len(),
                arguments@.len() == i,
                forall|j: int|
                    0 <= j < i ==> (#[trigger] arguments@[j])@ == argument_view_of(
                        list.children@[j],
                    ),
                forall|j: int| 0 <= j < i ==> argument_valid(#[trigger] list.children@[j]),
            decreases list.children.len() - i,
        {
            let a = parse_argument(&list.children[i])?;
            arguments.push(a);
            i += 1;
        }
        assert(forall|j: int|
            0 <= j < list_of(*e, "argumentList"@).len() ==> argument_valid(
                #[trigger] list_of(*e, "argumentList"@)[j],
            ));
    }
    let r = ActionSpec { name, arguments };
    assert(r@.1 =~= action_view_of(*e).1);
    Ok(r)
}

/// The range element `e`.
pub fn parse_range(e: &XmlElement) -> (r: Result<AllowedRange, Error>)
    ensures
        r is Ok <==> range_valid(*e),
        r matches Ok(x) ==> x@ == range_view_of(*e),
        !has_child(*e, "minimum"@) ==> (r matches Err(x) && is_missing(x, e.name@, "minimum"@)),
        has_child(*e, "minimum"@) && !has_child(*e, "maximum"@) ==> (r matches Err(x) && is_missing(x, e.name@, "maximum"@)),
{
    let minimum = required_text(e, "minimum")?;
    let maximum = required_text(e, "maximum")?;
    let step = optional_text(e, "step");
    Ok(AllowedRange { minimum, maximum, step })
}

/// The state variable element `e`.
pub fn parse_state_variable(e: &XmlElement) -> (r: Result<StateVariableSpec, Error>)
    ensures
        r is Ok <==> variable_valid(*e),
        r matches Ok(v) ==> v@ == variable_view_of(*e),
        !has_child(*e, "name"@) ==> (r matches Err(x) && is_missing(x, e.name@, "name"@)),
        has_child(*e, "name"@) && !has_child(*e, "dataType"@) ==> (r matches Err(x) && is_missing(x, e.name@, "dataType"@)),
{
    let name = required_text(e, "name")?;
    let data_type = required_text(e, "dataType")?;
    let default_value = optional_text(e, "defaultValue");
    let allowed_values = match find_child(e, "allowedValueList") {
        Some(k) => {
            let list = &e.children[k];
            let mut values: Vec<String> = Vec::new();
            let mut i: usize = 0;
            while i < list.children.len()
                invariant
                    i <= list.children@.len(),
                    values@.len() == i,
                    forall|j: int|
                        0 <= j < i ==> (#[trigger] values@[j])@ == list.children@[j].text@,
                decreases list.children.len() - i,
            {
                values.push(list.children[i].text.clone());
                i += 1;
            }
            assert(values@.map_values(|t: String| t@) =~= list.children@.map_values(
                |c: XmlElement| c.text@,
            ));
            Some(values)
        },
        None => None,
    };
    let allowed_range = match find_child(e, "allowedValueRange") {
        Some(k) => Some(parse_range(&e.children[k])?),
        None => None,
    };
    Ok(
        StateVariableSpec {
            name,
            data_type: data_type_of(data_type.as_str()),
            default_value,
            allowed_values,
            allowed_range,
        },
    )
}


/// Whether `vars` holds a variable named `name`.
pub open spec fn declared(vars: Seq<VariableView>, name: Seq<char>) -> bool {
    exists|k: int| 0 <= k < vars.len() && (#[trigger] vars[k]).0 == name
}

/// Every argument of every action names a declared state variable.
pub open spec fn references_declared(s: (Seq<ActionView>, Seq<VariableView>)) -> bool {
    forall|i: int, j: int|
        0 <= i < s.0.len() && 0 <= j < s.0[i].1.len() ==> declared(s.1, #[trigger] s.0[i].1[j].2)
}

/// What the schema document with root element `root` describes.
pub open spec fn schema_view_of(root: XmlElement) -> (Seq<ActionView>, Seq<VariableView>) {
    (
        list_of(root, "actionList"@).map_values(|a: XmlElement| action_view_of(a)),
        list_of(root, "serviceStateTable"@).map_values(|v: XmlElement| variable_view_of(v)),
    )
}

/// A schema document holds both lists, and well-formed actions and variables.
pub open spec fn lists_valid(root: XmlElement) -> bool {
    &&& has_child(root, "actionList"@)
    &&& has_child(root, "serviceStateTable"@)
    &&& forall|i: int|
        0 <= i < list_of(root, "actionList"@).len() ==> action_valid(
            #[trigger] list_of(root, "actionList"@)[i],
        )
    &&& forall|i: int|
        0 <= i < list_of(root, "serviceStateTable"@).len() ==> variable_valid(
            #[trigger] list_of(root, "serviceStateTable"@)[i],
        )
}

/// No two actions share a name.
pub open spec fn actions_distinct(s: Seq<ActionView>) -> bool {
    forall|i: int, j: int| 0 <= i < j < s.len() ==> (#[trigger] s[i]).0 != (#[trigger] s[j]).0
}

/// No two state variables share a name.
pub open spec fn variables_distinct(s: Seq<VariableView>) -> bool {
    forall|i: int, j: int| 0 <= i < j < s.len() ==> (#[trigger] s[i]).0 != (#[trigger] s[j]).0
}

/// A schema document holds both lists, well-formed actions and variables, no
/// argument that names an undeclared variable, and no name twice in a list.
pub open spec fn schema_valid(root: XmlElement) -> bool {
    &&& lists_valid(root)
    &&& references_declared(schema_view_of(root))
    &&& actions_distinct(schema_view_of(root).0)
    &&& variables_distinct(schema_view_of(root).1)
}

fn actions_unique(v: &Vec<ActionSpec>) -> (r: bool)
    ensures
        r == actions_distinct(v@.map_values(|a: ActionSpec| a@)),
{
    let ghost m = v@.map_values(|a: ActionSpec| a@);
    let mut j: usize = 0;
    while j < v.len()
        invariant
            j <= v@.len(),
            m == v@.map_values(|a: ActionSpec| a@),
            forall|a: int, b: int| 0 <= a < b < j ==> (#[trigger] m[a]).0 != (#[trigger] m[b]).0,
        decreases v.len() - j,
    {
        let mut i: usize = 0;
        while i < j
            invariant
                i <= j < v@.len(),
                m == v@.map_values(|a: ActionSpec| a@),
                forall|a: int, b: int| 0 <= a < b < j ==> (#[trigger] m[a]).0 != (#[trigger] m[b]).0,
                forall|a: int| 0 <= a < i ==> (#[trigger] m[a]).0 != m[j as int].0,
            decreases j - i,
        {
            assert(m[i as int].0 == v@[i as int].name@ && m[j as int].0 == v@[j as int].name@);
            if str_eq(v[i].name.as_str(), v[j].name.as_str()) {
                return false;
            }
            i += 1;
        }
        j += 1;
    }
    true
}

fn variables_unique(v: &Vec<StateVariableSpec>) -> (r: bool)
    ensures
        r == variables_distinct(v@.map_values(|a: StateVariableSpec| a@)),
{
    let ghost m = v@.map_values(|a: StateVariableSpec| a@);
    let mut j: usize = 0;
    while j < v.len()
        invariant
            j <= v@.len(),
            m == v@.map_values(|a: StateVariableSpec| a@),
            forall|a: int, b: int| 0 <= a < b < j ==> (#[trigger] m[a]).0 != (#[trigger] m[b]).0,
        decreases v.len() - j,
    {
        let mut i: usize = 0;
        while i < j
            invariant
                i <= j < v@.len(),
                m == v@.map_values(|a: StateVariableSpec| a@),
                forall|a: int, b: int| 0 <= a < b < j ==> (#[trigger] m[a]).0 != (#[trigger] m[b]).0,
                forall|a: int| 0 <= a < i ==> (#[trigger] m[a]).0 != m[j as int].0,
            decreases j - i,
        {
            assert(m[i as int].0 == v@[i as int].name@ && m[j as int].0 == v@[j as int].name@);
            if str_eq(v[i].name.as_str(), v[j].name.as_str()) {
                return false;
            }
            i += 1;
        }
        j += 1;
    }
    true
}

fn declares(vars: &Vec<StateVariableSpec>, name: &str) -> (r: bool)
    ensures
        r == declared(vars@.map_values(|v: StateVariableSpec| v@), name@),
{
    let ghost m = vars@.map_values(|v: StateVariableSpec| v@);
    let mut k: usize = 0;
    while k < vars.len()
        invariant
            k <= vars@.len(),
            m == vars@.map_values(|v: StateVariableSpec| v@),
            forall|x: int| 0 <= x < k ==> (#[trigger] m[x]).0 != name@,
        decreases vars.len() - k,
    {
        if str_eq(vars[k].name.as_str(), name) {
            assert(m[k as int].0 == name@);
            return true;
        }
        assert(m[k as int].0 == vars@[k as int].name@);
        k += 1;
    }
    false
}

/// The schema that the document with root element `root` describes.
pub fn parse_scpd(root: &XmlElement) -> (r: Result<ServiceSchema, Error>)
    ensures
        r is Ok <==> schema_valid(*root),
        r matches Ok(s) ==> s@ == schema_view_of(*root),
        !has_child(*root, "actionList"@) ==> (r matches Err(x) && is_missing(
            x,
            root.name@,
            "actionList"@,
        )),
        has_child(*root, "actionList"@) && !has_child(*root, "serviceStateTable"@) ==> (r matches Err(
            x,
        ) && is_missing(x, root.name@, "serviceStateTable"@)),
        lists_valid(*root) && !references_declared(schema_view_of(*root)) ==> (r matches Err(
            Error::MissingElement(p, n),
        ) && p@ == "serviceStateTable"@ && !declared(schema_view_of(*root).1, n@)),
        lists_valid(*root) && references_declared(schema_view_of(*root)) && !schema_valid(*root)
            ==> r matches Err(Error::InvalidResponse(_)),
{
    let ak = match required_child(root, "actionList") {
        Ok(k) => k,
        Err(x) => return Err(x),
    };
    let vk = match required_child(root, "serviceStateTable") {
        Ok(k) => k,
        Err(x) => return Err(x),
    };
    let alist = &root.children[ak];
    let vlist = &root.children[vk];
    let mut actions: Vec<ActionSpec> = Vec::new();
    let mut i: usize = 0;
    while i < alist.children.len()
        invariant
            list_of(*root, "actionList"@) == alist.children@,
            has_child(*root, "actionList"@) && has_child(*root, "serviceStateTable"@),
            i <= alist.children@.len(),
            actions@.len() == i,
            forall|j: int|
                0 <= j < i ==> (#[trigger] actions@[j])@ == action_view_of(alist.children@[j]),
            forall|j: int| 0 <= j < i ==> action_valid(#[trigger] alist.children@[j]),
        decreases alist.children.len() - i,
    {
        let a = parse_action(&alist.children[i])?;
        actions.push(a);
        i += 1;
    }
    let mut state_variables: Vec<StateVariableSpec> = Vec::new();
    let mut i: usize = 0;
    while i < vlist.children.len()
        invariant
            list_of(*root, "serviceStateTable"@) == vlist.children@,
            has_child(*root, "actionList"@) && has_child(*root, "serviceStateTable"@),
            list_of(*root, "actionList"@) == alist.children@,
            forall|j: int| 0 <= j < alist.children@.len() ==> action_valid(#[trigger] alist.children@[j]),
            i <= vlist.children@.len(),
            state_variables@.len() == i,
            forall|j: int|
                0 <= j < i ==> (#[trigger] state_variables@[j])@ == variable_view_of(
                    vlist.children@[j],
                ),
            forall|j: int| 0 <= j < i ==> variable_valid(#[trigger] vlist.children@[j]),
        decreases vlist.children.len() - i,
    {
        let v = parse_state_variable(&vlist.children[i])?;
        state_variables.push(v);
        i += 1;
    }
    let s = ServiceSchema { actions, state_variables };
    assert(s@.0 =~= schema_view_of(*root).0);
    assert(s@.1 =~= schema_view_of(*root).1);
    let mut i: usize = 0;
    while i < s.actions.len()
        invariant
            s@ == schema_view_of(*root),
            lists_valid(*root),
            i <= s.actions@.len(),
            forall|x: int, y: int|
                0 <= x < i && 0 <= y < s@.0[x].1.len() ==> declared(s@.1, #[trigger] s@.0[x].1[y].2),
        decreases s.actions.len() - i,
    {
        let args = &s.actions[i].arguments;
        let mut j: usize = 0;
        while j < args.len()
            invariant
                s@ == schema_view_of(*root),
                lists_valid(*root),
                i < s.actions@.len(),
                *args == s.actions@[i as int].arguments,
                j <= args@.len(),
                forall|x: int, y: int|
                    0 <= x < i && 0 <= y < s@.0[x].1.len() ==> declared(s@.1, #[trigger] s@.0[x].1[y].2),
                forall|y: int| 0 <= y < j ==> declared(s@.1, #[trigger] s@.0[i as int].1[y].2),
            decreases args.len() - j,
        {
            let name = args[j].related_state_variable.as_str();
            if !declares(&s.state_variables, name) {
                assert(s@.0[i as int].1[j as int].2 == name@);
                assert(!references_declared(schema_view_of(*root)));
                return Err(
                    Error::MissingElement("serviceStateTable".to_owned(), name.to_owned()),
                );
            }
            j += 1;
        }
        i += 1;
    }
    if !actions_unique(&s.actions) {
        return Err(Error::InvalidResponse("two actions share a name".to_owned()));
    }
    if !variables_unique(&s.state_variables) {
        return Err(Error::InvalidResponse("two state variables share a name".to_owned()));
    }
    Ok(s)
}

/// The schema that the document `text` describes.
pub fn parse_scpd_text(text: &str) -> (r: Result<ServiceSchema, Error>)
    ensures
        match document_of(text@) {
            None => r matches Err(Error::XmlMalformed),
            Some(root) => {
                &&& r is Ok <==> schema_valid(root)
                &&& r matches Ok(s) ==> s@ == schema_view_of(root)
                &&& !has_child(root, "actionList"@) ==> (r matches Err(x) && is_missing(
                    x,
                    root.name@,
                    "actionList"@,
                ))
                &&& has_child(root, "actionList"@) && !has_child(root, "serviceStateTable"@) ==> (r matches Err(
                    x,
                ) && is_missing(x, root.name@, "serviceStateTable"@))
                &&& lists_valid(root) && !references_declared(schema_view_of(root)) ==> (r matches Err(
                    Error::MissingElement(p, n),
                ) && p@ == "serviceStateTable"@ && !declared(schema_view_of(root).1, n@))
                &&& lists_valid(root) && references_declared(schema_view_of(root)) && !schema_valid(
                    root,
                ) ==> r matches Err(Error::InvalidResponse(_))
            },
        },
{
    let root = parse_xml(text)?;
    parse_scpd(&root)
}

/// Parsing one schema document twice gives two schemas equal field for field.
pub proof fn lemma_parse_scpd_deterministic(root: XmlElement, a: ServiceSchema, b: ServiceSchema)
    requires
        a@ == schema_view_of(root),
        b@ == schema_view_of(root),
    ensures
        a@ == b@,
{
}

/// An action element with a name and no argument list is well-formed and
/// describes an action without arguments.
pub proof fn lemma_action_without_arguments(e: XmlElement)
    requires
        has_child(e, "name"@),
        !has_child(e, "argumentList"@),
    ensures
        action_valid(e),
        action_view_of(e).1.len() == 0,
{
}


/// Index of the first action of `s` named `name`.
pub open spec fn first_action(s: Seq<ActionView>, name: Seq<char>) -> Option<int> {
    if exists|i: int| 0 <= i < s.len() && (#[trigger] s[i]).0 == name {
        Some(choose|i: int| 0 <= i < s.len() && s[i].0 == name && forall|j: int| 0 <= j < i ==> (#[trigger] s[j]).0 != name)
    } else {
        None
    }
}

/// Index of the first variable of `s` named `name`.
pub open spec fn first_variable(s: Seq<VariableView>, name: Seq<char>) -> Option<int> {
    if exists|i: int| 0 <= i < s.len() && (#[trigger] s[i]).0 == name {
        Some(choose|i: int| 0 <= i < s.len() && s[i].0 == name && forall|j: int| 0 <= j < i ==> (#[trigger] s[j]).0 != name)
    } else {
        None
    }
}

impl ServiceSchema {
    /// The first action named `name`.
    pub fn find_action(&self, name: &str) -> (r: Option<&ActionSpec>)
        ensures
            match r {
                Some(a) => first_action(self@.0, name@) matches Some(i) && a@ == self@.0[i],
                None => first_action(self@.0, name@) is None,
            },
    {
        let mut i: usize = 0;
        while i < self.actions.len()
            invariant
                i <= self.actions@.len(),
                forall|j: int| 0 <= j < i ==> (#[trigger] self@.0[j]).0 != name@,
            decreases self.actions.len() - i,
        {
            if str_eq(self.actions[i].name.as_str(), name) {
                assert(self@.0[i as int].0 == name@);
                let ghost k = first_action(self@.0, name@)->Some_0;
                assert(k == i);
                return Some(&self.actions[i]);
            }
            assert(self@.0[i as int].0 == self.actions@[i as int].name@);
            i += 1;
        }
        None
    }

    /// The first state variable named `name`.
    pub fn find_state_variable(&self, name: &str) -> (r: Option<&StateVariableSpec>)
        ensures
            match r {
                Some(v) => first_variable(self@.1, name@) matches Some(i) && v@ == self@.1[i],
                None => first_variable(self@.1, name@) is None,
            },
    {
        let mut i: usize = 0;
        while i < self.state_variables.len()
            invariant
                i <= self.state_variables@.len(),
                forall|j: int| 0 <= j < i ==> (#[trigger] self@.1[j]).0 != name@,
            decreases self.state_variables.len() - i,
        {
            if str_eq(self.state_variables[i].name.as_str(), name) {
                assert(self@.1[i as int].0 == name@);
                let ghost k = first_variable(self@.1, name@)->Some_0;
                assert(k == i);
                return Some(&self.state_variables[i]);
            }
            assert(self@.1[i as int].0 == self.state_variables@[i as int].name@);
            i += 1;
        }
        None
    }
}

} // verus!
