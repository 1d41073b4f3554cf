use crate::error::Error;
use vstd::prelude::*;
use vstd::string::*;

verus! {

/// An XML element as the parsers read it: its local name, its text (that of its
/// first child, where that is a text node) and its element children in document order.
pub struct XmlElement {
    pub name: String,
    pub text: String,
    pub children: Vec<XmlElement>,
}

#[verifier::external_type_specification]
#[verifier::external_body]
pub struct ExNode<'a, 'input: 'a>(roxmltree::Node<'a, 'input>);

/// The root element of the document that `text` holds, or `None` where the
/// text is not well-formed XML.
pub uninterp spec fn document_of(text: Seq<char>) -> Option<XmlElement>;

/// Relies on roxmltree::Document::parse, which depends on the text alone, to
/// tell well-formed XML and give its root element.
#[verifier::external_body]
pub fn parse_xml(text: &str) -> (r: Result<XmlElement, Error>)
    ensures
        r is Ok <==> document_of(text@) is Some,
        r matches Ok(e) ==> document_of(text@) == Some(e),
        r is Err ==> r matches Err(Error::XmlMalformed),
{
    match roxmltree::Document::parse(text) {
        Ok(doc) => Ok(element_of(doc.root_element())),
        Err(_) => Err(Error::XmlMalformed),
    }
}

/// Relies on roxmltree's Node::tag_name, Node::text and Node::children to copy
/// an element into the library's tree.
#[verifier::external_body]
fn element_of(node: roxmltree::Node<'_, '_>) -> XmlElement {
    XmlElement {
        name: node.tag_name().name().to_string(),
        text: node.text().unwrap_or("").to_string(),
        children: node.children().filter(roxmltree::Node::is_element).map(element_of).collect(),
    }
}


/// Two characters equal up to ASCII case.
pub open spec fn chars_eq_ignore_case(a: char, b: char) -> bool {
    a == b || ('A' <= a <= 'Z' && a as u32 + 32 == b as u32) || ('A' <= b <= 'Z' && b as u32
        + 32 == a as u32)
}

/// Two texts equal up to ASCII case.
pub open spec fn eq_ignore_case(a: Seq<char>, b: Seq<char>) -> bool {
    a.len() == b.len() && forall|i: int| 0 <= i < a.len() ==> chars_eq_ignore_case(a[i], b[i])
}

/// Index of the last element of `s` named `name`.
pub open spec fn last_named(s: Seq<XmlElement>, name: Seq<char>) -> Option<int>
    decreases s.len(),
{
    if s.len() == 0 {
        None
    } else if s.last().name@ == name {
        Some(s.len() - 1)
    } else {
        last_named(s.drop_last(), name)
    }
}

/// The first element, in document order, of the trees of `s` whose name equals
/// `name` up to ASCII case.
pub open spec fn first_in_forest(s: Seq<XmlElement>, name: Seq<char>) -> Option<XmlElement>
    decreases s,
{
    if s.len() == 0 {
        None
    } else if eq_ignore_case(s[0].name@, name) {
        Some(s[0])
    } else {
        match first_in_forest(s[0].children@, name) {
            Some(x) => Some(x),
            None => first_in_forest(s.drop_first(), name),
        }
    }
}

/// The first element of the tree rooted at `root`, in document order, whose
/// name equals `name` up to ASCII case.
pub open spec fn first_in_tree(root: XmlElement, name: Seq<char>) -> Option<XmlElement> {
    if eq_ignore_case(root.name@, name) {
        Some(root)
    } else {
        first_in_forest(root.children@, name)
    }
}

/// Whether two texts are equal.
pub fn str_eq(a: &str, b: &str) -> (r: bool)
    ensures
        r == (a@ == b@),
{
    let n = a.unicode_len();
    if n != b.unicode_len() {
        return false;
    }
    let mut i: usize = 0;
    while i < n
        invariant
            n == a@.len() == b@.len(),
            i <= n,
            forall|j: int| 0 <= j < i ==> a@[j] == b@[j],
        decreases n - i,
    {
        if a.get_char(i) != b.get_char(i) {
            return false;
        }
        i += 1;
    }
    assert(a@ =~= b@);
    true
}

/// Whether two texts are equal up to ASCII case.
pub fn str_eq_ignore_case(a: &str, b: &str) -> (r: bool)
    ensures
        r == eq_ignore_case(a@, b@),
{
    let n = a.unicode_len();
    if n != b.unicode_len() {
        return false;
    }
    let mut i: usize = 0;
    while i < n
        invariant
            n == a@.len() == b@.len(),
            i <= n,
            forall|j: int| 0 <= j < i ==> chars_eq_ignore_case(a@[j], b@[j]),
        decreases n - i,
    {
        let x = a.get_char(i);
        let y = b.get_char(i);
        let same = x == y || ('A' <= x && x <= 'Z' && x as u32 + 32 == y as u32) || ('A' <= y
            && y <= 'Z' && y as u32 + 32 == x as u32);
        if !same {
            return false;
        }
        i += 1;
    }
    true
}

/// Index of the last child of `e` named exactly `name`.
pub fn find_child(e: &XmlElement, name: &str) -> (r: Option<usize>)
    ensures
        match r {
            Some(i) => i < e.children@.len() && last_named(e.children@, name@) == Some(i as int),
            None => last_named(e.children@, name@) is None,
        },
{
    let mut i: usize = e.children.len();
    assert(e.children@.subrange(0, i as int) =~= e.children@);
    while i > 0
        invariant
            i <= e.children@.len(),
            last_named(e.children@, name@) == last_named(e.children@.subrange(0, i as int), name@),
        decreases i,
    {
        let ghost sub = e.children@.subrange(0, i as int);
        assert(sub.drop_last() =~= e.children@.subrange(0, i - 1));
        if str_eq(e.children[i - 1].name.as_str(), name) {
            return Some(i - 1);
        }
        i -= 1;
    }
    None
}

/// The fault for a required child `name` that `e` lacks.
pub open spec fn is_missing(r: Error, parent: Seq<char>, name: Seq<char>) -> bool {
    r matches Error::MissingElement(p, c) && p@ == parent && c@ == name
}

/// Index of the last child of `e` named `name`, which must be there.
pub fn required_child(e: &XmlElement, name: &str) -> (r: Result<usize, Error>)
    ensures
        match r {
            Ok(i) => i < e.children@.len() && last_named(e.children@, name@) == Some(i as int),
            Err(err) => last_named(e.children@, name@) is None && is_missing(err, e.name@, name@),
        },
{
    match find_child(e, name) {
        Some(i) => Ok(i),
        None => Err(Error::MissingElement(e.name.clone(), name.to_owned())),
    }
}

/// The text of the last child of `e` named `name`, which must be there.
pub fn required_text(e: &XmlElement, name: &str) -> (r: Result<String, Error>)
    ensures
        match r {
            Ok(t) => last_named(e.children@, name@) matches Some(i) && 0 <= i < e.children@.len() && t@ == e.children@[i].text@,
            Err(err) => last_named(e.children@, name@) is None && is_missing(err, e.name@, name@),
        },
{
    let i = required_child(e, name)?;
    Ok(e.children[i].text.clone())
}

/// The text of the last child of `e` named `name`, if there is one.
pub fn optional_text(e: &XmlElement, name: &str) -> (r: Option<String>)
    ensures
        match r {
            Some(t) => last_named(e.children@, name@) matches Some(i) && 0 <= i < e.children@.len() && t@ == e.children@[i].text@,
            None => last_named(e.children@, name@) is None,
        },
{
    match find_child(e, name) {
        Some(i) => Some(e.children[i].text.clone()),
        None => None,
    }
}

fn find_in_forest<'a>(s: &'a Vec<XmlElement>, name: &str) -> (r: Option<&'a XmlElement>)
    ensures
        match r {
            Some(x) => first_in_forest(s@, name@) == Some(*x),
            None => first_in_forest(s@, name@) is None,
        },
    decreases s@,
{
    let mut i: usize = 0;
    assert(s@.subrange(0, s@.len() as int) =~= s@);
    while i < s.len()
        invariant
            i <= s@.len(),
            first_in_forest(s@, name@) == first_in_forest(s@.subrange(i as int, s@.len() as int), name@),
        decreases s@.len() - i,
    {
        let ghost rest = s@.subrange(i as int, s@.len() as int);
        assert(rest[0] == s@[i as int]);
        assert(rest.drop_first() =~= s@.subrange(i + 1, s@.len() as int));
        if str_eq_ignore_case(s[i].name.as_str(), name) {
            return Some(&s[i]);
        }
        proof {
            broadcast use vstd::std_specs::vec::axiom_vec_decreases_to_view;
            assert(decreases_to!(s@ => s@[i as int]));
            assert(decreases_to!(s@[i as int] => s@[i as int].children));
            assert(decreases_to!(s@[i as int].children => s@[i as int].children@));
        }
        match find_in_forest(&s[i].children, name) {
            Some(x) => {
                return Some(x);
            },
            None => {},
        }
        i += 1;
    }
    None
}

/// The first element of the tree rooted at `root`, in document order, whose name
/// equals `element` up to ASCII case; where there is none, the fault names
/// `docname` and `element`.
pub fn find_root<'a>(root: &'a XmlElement, element: &str, docname: &str) -> (r: Result<
    &'a XmlElement,
    Error,
>)
    ensures
        match r {
            Ok(x) => first_in_tree(*root, element@) == Some(*x),
            Err(err) => first_in_tree(*root, element@) is None && is_missing(
                err,
                docname@,
                element@,
            ),
        },
{
    if str_eq_ignore_case(root.name.as_str(), element) {
        return Ok(root);
    }
    match find_in_forest(&root.children, element) {
        Some(x) => Ok(x),
        None => Err(Error::MissingElement(docname.to_owned(), element.to_owned())),
    }
}


/// A nonempty run of decimal digits.
pub open spec fn is_digits(s: Seq<char>) -> bool {
    s.len() > 0 && forall|i: int| 0 <= i < s.len() ==> '0' <= #[trigger] s[i] <= '9'
}

/// The number that a run of decimal digits writes.
pub open spec fn digits_value(s: Seq<char>) -> nat
    decreases s.len(),
{
    if s.len() == 0 {
        0
    } else {
        digits_value(s.drop_last()) * 10 + (s.last() as u32 - '0' as u32) as nat
    }
}

proof fn lemma_digits_prefix_le(s: Seq<char>, k: int)
    requires
        0 <= k <= s.len(),
        forall|i: int| 0 <= i < s.len() ==> '0' <= #[trigger] s[i] <= '9',
    ensures
        digits_value(s.subrange(0, k)) <= digits_value(s),
    decreases s.len(),
{
    if k < s.len() {
        let t = s.drop_last();
        assert(t.subrange(0, k) =~= s.subrange(0, k));
        lemma_digits_prefix_le(t, k);
    } else {
        assert(s.subrange(0, k) =~= s);
    }
}

/// The digits of a number's text: all of it after one optional leading '+'.
pub open spec fn unsigned_digits(s: Seq<char>) -> Seq<char> {
    if s.len() > 0 && s[0] == '+' {
        s.drop_first()
    } else {
        s
    }
}

/// Whether `s` writes a `u32`: one optional '+', then decimal digits of a value that fits.
pub open spec fn is_u32_text(s: Seq<char>) -> bool {
    is_digits(unsigned_digits(s)) && digits_value(unsigned_digits(s)) <= u32::MAX
}

/// The number that `s` writes.
pub open spec fn u32_value(s: Seq<char>) -> nat {
    digits_value(unsigned_digits(s))
}

/// The `u32` that `text` writes: one optional leading '+', then decimal digits.
pub fn parse_u32(text: &str) -> (r: Result<u32, Error>)
    ensures
        r is Ok <==> is_u32_text(text@),
        r matches Ok(v) ==> v == u32_value(text@),
        r is Err ==> r matches Err(Error::InvalidResponse(_)),
{
    let n = text.unicode_len();
    if n > 0 && text.get_char(0) == '+' {
        let digits = text.substring_char(1, n);
        assert(digits@ =~= text@.drop_first());
        parse_digits(digits)
    } else {
        parse_digits(text)
    }
}

fn parse_digits(text: &str) -> (r: Result<u32, Error>)
    ensures
        r is Ok <==> is_digits(text@) && digits_value(text@) <= u32::MAX,
        r matches Ok(v) ==> v == digits_value(text@),
        r is Err ==> r matches Err(Error::InvalidResponse(_)),
{
    let n = text.unicode_len();
    if n == 0 {
        return Err(Error::InvalidResponse("empty number".to_owned()));
    }
    let mut acc: u64 = 0;
    let mut i: usize = 0;
    while i < n
        invariant
            n == text@.len(),
            i <= n,
            forall|j: int| 0 <= j < i ==> '0' <= #[trigger] text@[j] <= '9',
            acc == digits_value(text@.subrange(0, i as int)),
            acc <= u32::MAX,
        decreases n - i,
    {
        let c = text.get_char(i);
        if c < '0' || c > '9' {
            return Err(Error::InvalidResponse("not a decimal number".to_owned()));
        }
        let ghost sub = text@.subrange(0, i + 1);
        assert(sub.drop_last() =~= text@.subrange(0, i as int));
        acc = acc * 10 + (c as u32 - '0' as u32) as u64;
        i += 1;
        if acc > 4294967295u64 {
            proof {
                if is_digits(text@) {
                    lemma_digits_prefix_le(text@, i as int);
                }
            }
            return Err(Error::InvalidResponse("number out of range".to_owned()));
        }
    }
    assert(text@.subrange(0, n as int) =~= text@);
    Ok(acc as u32)
}


/// What `c` becomes in XML text.
pub open spec fn escape_char(c: char) -> Seq<char> {
    if c == '&' {
        "&amp;"@
    } else if c == '<' {
        "&lt;"@
    } else if c == '>' {
        "&gt;"@
    } else if c == '"' {
        "&quot;"@
    } else if c == '\'' {
        "&apos;"@
    } else {
        seq![c]
    }
}

/// `s` with each reserved character written as its entity.
pub open spec fn escaped(s: Seq<char>) -> Seq<char>
    decreases s.len(),
{
    if s.len() == 0 {
        Seq::empty()
    } else {
        escaped(s.drop_last()) + escape_char(s.last())
    }
}

/// `text` with each reserved character written as its entity.
pub fn escape_text(text: &str) -> (r: String)
    ensures
        r@ == escaped(text@),
{
    let n = text.unicode_len();
    let mut out = String::new();
    let mut i: usize = 0;
    assert(text@.subrange(0, 0) =~= Seq::<char>::empty());
    while i < n
        invariant
            n == text@.len(),
            i <= n,
            out@ == escaped(text@.subrange(0, i as int)),
        decreases n - i,
    {
        let c = text.get_char(i);
        let ghost sub = text@.subrange(0, i + 1);
        assert(sub.drop_last() =~= text@.subrange(0, i as int));
        assert(sub.last() == c);
        if c == '&' {
            out.append("&amp;");
        } else if c == '<' {
            out.append("&lt;");
        } else if c == '>' {
            out.append("&gt;");
        } else if c == '"' {
            out.append("&quot;");
        } else if c == '\'' {
            out.append("&apos;");
        } else {
            let one = text.substring_char(i, i + 1);
            assert(one@ =~= seq![c]);
            out.append(one);
        }
        i += 1;
    }
    assert(text@.subrange(0, n as int) =~= text@);
    out
}

/// The last child of `e` named `name`.
pub open spec fn child_of(e: XmlElement, name: Seq<char>) -> Option<XmlElement> {
    match last_named(e.children@, name) {
        Some(i) => Some(e.children@[i]),
        None => None,
    }
}

} // verus!
