//! The scripts that put elements into the head of a document.
use vstd::prelude::*;
use vstd::string::StringExecFns;
use crate::outside::{push_char, debug_form, debug_quoted};

verus! {

/// A document that evaluates nothing: the provider for platforms without a
/// document.
#[derive(Clone, Copy, Debug, PartialEq, Eq, Structural)]
pub struct NoOpDocument;

/// How one character stands inside a JavaScript string literal: backslash,
/// newline, carriage return and double quote are escaped, every other
/// character stands for itself.
pub open spec fn js_escape_char(c: char) -> Seq<char> {
    if c == '\\' {
        seq!['\\', '\\']
    } else if c == '\n' {
        seq!['\\', 'n']
    } else if c == '\r' {
        seq!['\\', 'r']
    } else if c == '"' {
        seq!['\\', '"']
    } else {
        seq![c]
    }
}

/// The characters of `text`, each as it stands inside a JavaScript string
/// literal.
pub open spec fn js_escaped(text: Seq<char>) -> Seq<char>
    decreases text.len(),
{
    if text.len() == 0 {
        Seq::empty()
    } else {
        js_escaped(text.drop_last()) + js_escape_char(text.last())
    }
}

/// `text` as a JavaScript string literal, in double quotes.
pub open spec fn js_string(text: Seq<char>) -> Seq<char> {
    seq!['"'] + js_escaped(text) + seq!['"']
}

/// One attribute as a JavaScript pair: `["key", "value"]`.
pub open spec fn js_attribute(key: Seq<char>, value: Seq<char>) -> Seq<char> {
    seq!['['] + js_string(key) + seq![',', ' '] + js_string(value) + seq![']']
}

/// The first `n` attributes as JavaScript pairs with a comma between them.
pub open spec fn js_attribute_list(attributes: Seq<(&str, String)>, n: int) -> Seq<char>
    decreases n,
{
    if n <= 0 {
        Seq::empty()
    } else if n == 1 {
        js_attribute(attributes[0].0@, attributes[0].1@)
    } else {
        js_attribute_list(attributes, n - 1) + seq![','] + js_attribute(
            attributes[n - 1].0@,
            attributes[n - 1].1@,
        )
    }
}

/// The attributes as a JavaScript array of pairs.
pub open spec fn js_attributes(attributes: Seq<(&str, String)>) -> Seq<char> {
    seq!['['] + js_attribute_list(attributes, attributes.len() as int) + seq![']']
}

/// The children of a head element as a JavaScript value: a string literal,
/// or `null` when there are none.
pub open spec fn js_children(children: Option<String>) -> Seq<char> {
    match children {
        Some(text) => js_string(text@),
        None => seq!['n', 'u', 'l', 'l'],
    }
}

/// Appends the characters of `text`, escaped, to `out`.
fn push_escaped(out: &mut String, text: &str)
    ensures
        final(out)@ == old(out)@ + js_escaped(text@),
{
    broadcast use vstd::string::group_string_axioms;

    for c in it: text.chars()
        invariant
            it.seq() == text@,
            out@ == old(out)@ + js_escaped(text@.take(it.index() as int)),
    {
        let ghost before = text@.take(it.index() as int);
        let ghost after = text@.take(it.index() + 1);
        proof {
            assert(after.drop_last() =~= before);
            assert(after.last() == c);
        }
        if c == '\\' {
            out.append("\\\\");
            proof {
                reveal_strlit("\\\\");
            }
            assert("\\\\"@ =~= js_escape_char(c));
        } else if c == '\n' {
            out.append("\\n");
            proof {
                reveal_strlit("\\n");
            }
            assert("\\n"@ =~= js_escape_char(c));
        } else if c == '\r' {
            out.append("\\r");
            proof {
                reveal_strlit("\\r");
            }
            assert("\\r"@ =~= js_escape_char(c));
        } else if c == '"' {
            out.append("\\\"");
            proof {
                reveal_strlit("\\\"");
            }
            assert("\\\""@ =~= js_escape_char(c));
        } else {
            push_char(out, c);
            assert(seq![c] =~= js_escape_char(c));
        }
        assert(out@ =~= old(out)@ + js_escaped(after));
    }
    assert(text@.take(text@.len() as int) =~= text@);
}

/// Appends `text` as a JavaScript string literal to `out`.
fn push_js_string(out: &mut String, text: &str)
    ensures
        final(out)@ == old(out)@ + js_string(text@),
{
    push_char(out, '"');
    push_escaped(out, text);
    push_char(out, '"');
    assert(out@ =~= old(out)@ + js_string(text@));
}

/// `s` as a JavaScript string literal: in double quotes, with backslash,
/// newline, carriage return and double quote escaped.
pub fn format_string_for_js(s: &str) -> (formatted: String)
    ensures
        formatted@ == js_string(s@),
{
    let mut formatted = String::new();
    push_js_string(&mut formatted, s);
    assert(formatted@ =~= js_string(s@));
    formatted
}

/// The attributes as a JavaScript array of `[key, value]` pairs, both as
/// string literals: `[["a", "b"],["c", "d"]]`, and `[]` for none.
pub fn format_attributes(attributes: &[(&str, String)]) -> (formatted: String)
    ensures
        formatted@ == js_attributes(attributes@),
{
    let mut formatted = String::new();
    push_char(&mut formatted, '[');
    let mut i: usize = 0;
    while i < attributes.len()
        invariant
            i <= attributes@.len(),
            formatted@ == seq!['['] + js_attribute_list(attributes@, i as int),
        decreases attributes@.len() - i,
    {
        let ghost before = formatted@;
        if i > 0 {
            push_char(&mut formatted, ',');
        }
        push_char(&mut formatted, '[');
        push_js_string(&mut formatted, attributes[i].0);
        push_char(&mut formatted, ',');
        push_char(&mut formatted, ' ');
        push_js_string(&mut formatted, attributes[i].1.as_str());
        push_char(&mut formatted, ']');
        proof {
            let item = js_attribute(attributes@[i as int].0@, attributes@[i as int].1@);
            if i > 0 {
                assert(formatted@ =~= before + seq![','] + item);
            } else {
                assert(formatted@ =~= before + item);
            }
            assert(formatted@ =~= seq!['['] + js_attribute_list(attributes@, i + 1));
        }
        i = i + 1;
    }
    push_char(&mut formatted, ']');
    formatted
}

/// The script that creates an element in the head of the document: the
/// helper script, then a call of `window.createElementInHead` with the tag,
/// the attributes and the children as JavaScript values.
pub open spec fn head_element_script(
    helpers: Seq<char>,
    tag: Seq<char>,
    attributes: Seq<(&str, String)>,
    children: Option<String>,
) -> Seq<char> {
    helpers + ";window.createElementInHead("@ + js_string(tag) + seq![',', ' '] + js_attributes(
        attributes,
    ) + seq![',', ' '] + js_children(children) + seq![')', ';']
}

/// The script that creates an element in the head of the document, behind
/// the helper script that defines `window.createElementInHead`.
pub fn create_element_in_head(
    helpers: &str,
    tag: &str,
    attributes: &[(&str, String)],
    children: Option<String>,
) -> (script: String)
    ensures
        script@ == head_element_script(helpers@, tag@, attributes@, children),
{
    let attributes_js = format_attributes(attributes);
    let mut script = String::from_str(helpers);
    script.append(";window.createElementInHead(");
    push_js_string(&mut script, tag);
    push_char(&mut script, ',');
    push_char(&mut script, ' ');
    script.append(attributes_js.as_str());
    push_char(&mut script, ',');
    push_char(&mut script, ' ');
    match &children {
        Some(text) => {
            push_js_string(&mut script, text.as_str());
        },
        None => {
            proof {
                reveal_strlit("null");
            }
            script.append("null");
            assert("null"@ =~= js_children(children));
        },
    }
    push_char(&mut script, ')');
    push_char(&mut script, ';');
    assert(script@ =~= head_element_script(helpers@, tag@, attributes@, children));
    script
}

/// The script that sets the title of the document: an assignment to
/// `document.title` of the title as `Debug` prints it.
pub fn set_title(title: &str) -> (script: String)
    ensures
        script@ == "document.title = "@ + debug_form(title@) + seq![';'],
{
    let quoted = debug_quoted(title);
    let mut script = String::from_str("document.title = ");
    script.append(quoted.as_str());
    push_char(&mut script, ';');
    script
}

/// The script that creates a `meta` element with these attributes.
pub fn create_meta(helpers: &str, attributes: &[(&str, String)]) -> (script: String)
    ensures
        script@ == head_element_script(helpers@, "meta"@, attributes@, None),
{
    create_element_in_head(helpers, "meta", attributes, None)
}

/// The script that creates a `link` element with these attributes.
pub fn create_link(helpers: &str, attributes: &[(&str, String)]) -> (script: String)
    ensures
        script@ == head_element_script(helpers@, "link"@, attributes@, None),
{
    create_element_in_head(helpers, "link", attributes, None)
}

/// The script that creates a `script` element. With inline contents the
/// element gets them as its body; without contents but with a source it
/// gets no body; with neither there is nothing to create.
pub fn create_script(
    helpers: &str,
    attributes: &[(&str, String)],
    src: &Option<String>,
    contents: Option<String>,
) -> (script: Option<String>)
    ensures
        contents.is_some() ==> script.is_some() && script.unwrap()@ == head_element_script(
            helpers@,
            "script"@,
            attributes@,
            contents,
        ),
        contents.is_none() && src.is_some() ==> script.is_some() && script.unwrap()@
            == head_element_script(helpers@, "script"@, attributes@, None),
        contents.is_none() && src.is_none() ==> script.is_none(),
{
    match (src, contents) {
        (_, Some(contents)) => Some(
            create_element_in_head(helpers, "script", attributes, Some(contents)),
        ),
        (Some(_), _) => Some(create_element_in_head(helpers, "script", attributes, None)),
        (None, None) => None,
    }
}

/// The attribute that marks a linked style sheet.
pub open spec fn is_css_type(attribute: (&str, String)) -> bool {
    attribute.0@ == "type"@ && attribute.1@ == "text/css"@
}

/// The script that creates a style. With inline contents it is a `style`
/// element with them as its body; without contents but with a link target
/// it is a `link` element with the attributes followed by `type` as
/// `text/css`; with neither there is nothing to create.
pub fn create_style<'a>(
    helpers: &str,
    attributes: Vec<(&'a str, String)>,
    href: &Option<String>,
    contents: Option<String>,
) -> (script: Option<String>)
    ensures
        contents.is_some() ==> script.is_some() && script.unwrap()@ == head_element_script(
            helpers@,
            "style"@,
            attributes@,
            contents,
        ),
        contents.is_none() && href.is_some() ==> script.is_some() && exists|last: (&str, String)|
            is_css_type(last) && script.unwrap()@ == head_element_script(
                helpers@,
                "link"@,
                attributes@.push(last),
                None,
            ),
        contents.is_none() && href.is_none() ==> script.is_none(),
{
    let mut attributes = attributes;
    match (href, contents) {
        (_, Some(contents)) => Some(
            create_element_in_head(helpers, "style", attributes.as_slice(), Some(contents)),
        ),
        (Some(_), _) => {
            let last = ("type", String::from_str("text/css"));
            proof {
                assert(is_css_type(last));
            }
            attributes.push(last);
            Some(create_element_in_head(helpers, "link", attributes.as_slice(), None))
        },
        (None, None) => None,
    }
}

} // verus!
