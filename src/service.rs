use crate::error::{err_if_not_200, Error};
use crate::xml::{
    child_of, document_of, escape_text, escaped, find_root, first_in_tree, is_u32_text, u32_value,
    is_missing, parse_u32, parse_xml, required_text, str_eq, XmlElement,
};
use vstd::prelude::*;
use vstd::string::*;

verus! {

/// What an action returned: its output arguments, in the order of the response.
pub struct ActionResponse {
    pub values: Vec<(String, String)>,
}

/// The first value under `name` in a sequence of pairs.
pub open spec fn lookup(s: Seq<(Seq<char>, Seq<char>)>, name: Seq<char>) -> Option<Seq<char>>
    decreases s.len(),
{
    if s.len() == 0 {
        None
    } else if s[0].0 == name {
        Some(s[0].1)
    } else {
        lookup(s.drop_first(), name)
    }
}

impl View for ActionResponse {
    type V = Seq<(Seq<char>, Seq<char>)>;

    open spec fn view(&self) -> Seq<(Seq<char>, Seq<char>)> {
        self.values@.map_values(|p: (String, String)| (p.0@, p.1@))
    }
}

impl ActionResponse {
    /// The value of the output argument `name`, where the response holds one.
    pub fn get(&self, name: &str) -> (r: Option<String>)
        ensures
            match r {
                Some(v) => lookup(self@, name@) == Some(v@),
                None => lookup(self@, name@) is None,
            },
    {
        let mut i: usize = 0;
        assert(self@.subrange(0, self@.len() as int) =~= self@);
        while i < self.values.len()
            invariant
                i <= self@.len() == self.values@.len(),
                lookup(self@, name@) == lookup(self@.subrange(i as int, self@.len() as int), name@),
            decreases self.values.len() - i,
        {
            let ghost rest = self@.subrange(i as int, self@.len() as int);
            assert(rest.drop_first() =~= self@.subrange(i + 1, self@.len() as int));
            if str_eq(self.values[i].0.as_str(), name) {
                return Some(self.values[i].1.clone());
            }
            i += 1;
        }
        None
    }
}

/// The arguments of a request, each as `<name>value</name>`.
pub open spec fn arguments_xml(args: Seq<(Seq<char>, Seq<char>)>) -> Seq<char>
    decreases args.len(),
{
    if args.len() == 0 {
        Seq::empty()
    } else {
        arguments_xml(args.drop_last()) + "<"@ + args.last().0 + ">"@ + escaped(args.last().1)
            + "</"@ + args.last().0 + ">"@
    }
}

/// The envelope that invokes `action` of a service of type `service_type`.
pub open spec fn envelope(
    service_type: Seq<char>,
    action: Seq<char>,
    args: Seq<(Seq<char>, Seq<char>)>,
) -> Seq<char> {
    "<?xml version=\"1.0\"?><s:Envelope xmlns:s=\"http://schemas.xmlsoap.org/soap/envelope/\" s:encodingStyle=\"http://schemas.xmlsoap.org/soap/encoding/\"><s:Body><u:"@
        + action + " xmlns:u=\""@ + service_type + "\">"@ + arguments_xml(args) + "</u:"@ + action
        + "></s:Body></s:Envelope>"@
}

/// The view of a list of argument pairs.
pub open spec fn pairs_view(args: Seq<(String, String)>) -> Seq<(Seq<char>, Seq<char>)> {
    args.map_values(|p: (String, String)| (p.0@, p.1@))
}

/// The request envelope for `action` with `args` in the order given; the
/// argument values are escaped.
pub fn request_body(service_type: &str, action: &str, args: &Vec<(String, String)>) -> (r: String)
    ensures
        r@ == envelope(service_type@, action@, pairs_view(args@)),
{
    let mut out = String::new();
    out.append(
        "<?xml version=\"1.0\"?><s:Envelope xmlns:s=\"http://schemas.xmlsoap.org/soap/envelope/\" s:encodingStyle=\"http://schemas.xmlsoap.org/soap/encoding/\"><s:Body><u:",
    );
    out.append(action);
    out.append(" xmlns:u=\"");
    out.append(service_type);
    out.append("\">");
    let ghost head = out@;
    let mut i: usize = 0;
    assert(pairs_view(args@).subrange(0, 0) =~= Seq::<(Seq<char>, Seq<char>)>::empty());
    while i < args.len()
        invariant
            i <= args@.len(),
            out@ == head + arguments_xml(pairs_view(args@).subrange(0, i as int)),
        decreases args.len() - i,
    {
        let ghost sub = pairs_view(args@).subrange(0, i + 1);
        assert(sub.drop_last() =~= pairs_view(args@).subrange(0, i as int));
        let value = escape_text(args[i].1.as_str());
        out.append("<");
        out.append(args[i].0.as_str());
        out.append(">");
        out.append(value.as_str());
        out.append("</");
        out.append(args[i].0.as_str());
        out.append(">");
        i += 1;
        assert(out@ =~= head + arguments_xml(pairs_view(args@).subrange(0, i as int)));
    }
    assert(pairs_view(args@).subrange(0, args@.len() as int) =~= pairs_view(args@));
    out.append("</u:");
    out.append(action);
    out.append("></s:Body></s:Envelope>");
    out
}

/// The value of the SOAPAction header for `action` of a service of type `service_type`.
pub fn soap_action(service_type: &str, action: &str) -> (r: String)
    ensures
        r@ == "\""@ + service_type@ + "#"@ + action@ + "\""@,
{
    let mut out = String::new();
    out.append("\"");
    out.append(service_type);
    out.append("#");
    out.append(action);
    out.append("\"");
    out
}


/// What a fault element reports: `ActionFailed` with the code and the description
/// under `detail/UPnPError`, or the fault in reading them.
pub open spec fn fault_outcome(f: XmlElement, r: Error) -> bool {
    match child_of(f, "detail"@) {
        None => is_missing(r, f.name@, "detail"@),
        Some(d) => match child_of(d, "UPnPError"@) {
            None => is_missing(r, d.name@, "UPnPError"@),
            Some(u) => match child_of(u, "errorCode"@) {
                None => is_missing(r, u.name@, "errorCode"@),
                Some(c) => match child_of(u, "errorDescription"@) {
                    None => is_missing(r, u.name@, "errorDescription"@),
                    Some(t) => if is_u32_text(c.text@) {
                        r matches Error::ActionFailed(code, text) && code == u32_value(c.text@)
                            && text@ == t.text@
                    } else {
                        r is InvalidResponse
                    },
                },
            },
        },
    }
}

/// The fault that a fault element reports.
pub fn parse_fault(fault: &XmlElement) -> (r: Error)
    ensures
        fault_outcome(*fault, r),
{
    let detail = match crate::xml::required_child(fault, "detail") {
        Ok(i) => &fault.children[i],
        Err(e) => return e,
    };
    let upnp = match crate::xml::required_child(detail, "UPnPError") {
        Ok(i) => &detail.children[i],
        Err(e) => return e,
    };
    let code = match required_text(upnp, "errorCode") {
        Ok(t) => t,
        Err(e) => return e,
    };
    let text = match required_text(upnp, "errorDescription") {
        Ok(t) => t,
        Err(e) => return e,
    };
    match parse_u32(code.as_str()) {
        Ok(c) => Error::ActionFailed(c, text),
        Err(e) => e,
    }
}

/// The pairs of name and text of the children of `e`, in order.
pub open spec fn pairs_of(e: XmlElement) -> Seq<(Seq<char>, Seq<char>)> {
    e.children@.map_values(|c: XmlElement| (c.name@, c.text@))
}

/// What a response document yields for `action`: the fault that its body
/// carries, or the children of its `<action>Response` element.
pub open spec fn response_outcome(
    root: XmlElement,
    action: Seq<char>,
    r: Result<ActionResponse, Error>,
) -> bool {
    match first_in_tree(root, "Body"@) {
        None => r matches Err(e) && is_missing(e, "UPnP Response"@, "Body"@),
        Some(b) => match first_in_tree(b, "Fault"@) {
            Some(f) => r matches Err(e) && fault_outcome(f, e),
            None => match first_in_tree(b, action + "Response"@) {
                None => r matches Err(e) && is_missing(e, "UPnP Response"@, action + "Response"@),
                Some(x) => r matches Ok(a) && a@ == pairs_of(x),
            },
        },
    }
}

/// The output arguments, or the fault, that a response document carries for `action`.
pub fn parse_action_response(root: &XmlElement, action: &str) -> (r: Result<ActionResponse, Error>)
    ensures
        response_outcome(*root, action@, r),
{
    let body = find_root(root, "Body", "UPnP Response")?;
    if let Ok(fault) = find_root(body, "Fault", "UPnP Response") {
        return Err(parse_fault(fault));
    }
    let mut name = action.to_owned();
    name.append("Response");
    let resp = find_root(body, name.as_str(), "UPnP Response")?;
    let mut values: Vec<(String, String)> = Vec::new();
    let mut i: usize = 0;
    while i < resp.children.len()
        invariant
            i <= resp.children@.len(),
            values@.len() == i,
            forall|j: int|
                0 <= j < i ==> (#[trigger] values@[j]).0@ == resp.children@[j].name@
                    && values@[j].1@ == resp.children@[j].text@,
        decreases resp.children.len() - i,
    {
        values.push((resp.children[i].name.clone(), resp.children[i].text.clone()));
        i += 1;
    }
    let a = ActionResponse { values };
    assert(a@ =~= pairs_of(*resp));
    Ok(a)
}

/// What an action call yields from the status and body of the reply: the status
/// fault for any status but 200, with the body left unread; else the outcome of
/// the body's document.
pub fn action_result(status: u16, body: &str, action: &str) -> (r: Result<ActionResponse, Error>)
    ensures
        status != 200 ==> (r matches Err(Error::HttpErrorCode(s)) && s == status),
        status == 200 ==> match document_of(body@) {
            None => r matches Err(Error::XmlMalformed),
            Some(root) => response_outcome(root, action@, r),
        },
{
    err_if_not_200(status)?;
    let root = parse_xml(body)?;
    parse_action_response(&root, action)
}

proof fn lemma_lookup_first(s: Seq<(Seq<char>, Seq<char>)>, name: Seq<char>, i: int)
    requires
        0 <= i < s.len(),
        s[i].0 == name,
        forall|j: int| 0 <= j < i ==> (#[trigger] s[j]).0 != name,
    ensures
        lookup(s, name) == Some(s[i].1),
    decreases s.len(),
{
    if i > 0 {
        let t = s.drop_first();
        assert forall|j: int| 0 <= j < i - 1 implies (#[trigger] t[j]).0 != name by {
            assert(t[j] == s[j + 1]);
        }
        lemma_lookup_first(t, name, i - 1);
    }
}

proof fn lemma_lookup_none(s: Seq<(Seq<char>, Seq<char>)>, name: Seq<char>)
    requires
        forall|j: int| 0 <= j < s.len() ==> (#[trigger] s[j]).0 != name,
    ensures
        lookup(s, name) is None,
    decreases s.len(),
{
    if s.len() > 0 {
        let t = s.drop_first();
        assert forall|j: int| 0 <= j < t.len() implies (#[trigger] t[j]).0 != name by {
            assert(t[j] == s[j + 1]);
        }
        lemma_lookup_none(t, name);
    }
}

/// The response element that a response document holds for `action`, where it holds one.
pub open spec fn response_element(root: XmlElement, action: Seq<char>) -> Option<XmlElement> {
    match first_in_tree(root, "Body"@) {
        Some(b) => first_in_tree(b, action + "Response"@),
        None => None,
    }
}

/// A parsed response maps the name of each child of the response element to
/// the text of the first child of that name, and any name that no child has to
/// nothing: elements elsewhere in the envelope do not show.
pub proof fn lemma_response_mapping(
    root: XmlElement,
    action: Seq<char>,
    r: Result<ActionResponse, Error>,
    name: Seq<char>,
)
    requires
        response_outcome(root, action, r),
        r is Ok,
    ensures
        response_element(root, action) matches Some(x) && r matches Ok(a) && (forall|i: int|
            0 <= i < x.children@.len() && x.children@[i].name@ == name && (forall|j: int|
                0 <= j < i ==> (#[trigger] x.children@[j]).name@ != name) ==> lookup(a@, name)
                == Some(x.children@[i].text@)) && ((forall|i: int|
            0 <= i < x.children@.len() ==> (#[trigger] x.children@[i]).name@ != name) ==> lookup(
            a@,
            name,
        ) is None),
{
    let x = response_element(root, action)->Some_0;
    let a = r->Ok_0;
    let p = pairs_of(x);
    assert forall|i: int|
        0 <= i < x.children@.len() && x.children@[i].name@ == name && (forall|j: int|
            0 <= j < i ==> (#[trigger] x.children@[j]).name@ != name) implies lookup(a@, name)
        == Some(x.children@[i].text@) by {
        assert forall|j: int| 0 <= j < i implies (#[trigger] p[j]).0 != name by {
            assert(p[j].0 == x.children@[j].name@);
        }
        lemma_lookup_first(p, name, i);
    }
    if forall|i: int| 0 <= i < x.children@.len() ==> (#[trigger] x.children@[i]).name@ != name {
        assert forall|j: int| 0 <= j < p.len() implies (#[trigger] p[j]).0 != name by {
            assert(p[j].0 == x.children@[j].name@);
        }
        lemma_lookup_none(p, name);
    }
}

} // verus!
