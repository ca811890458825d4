//! Rendering a template, by the template engine.

use vstd::prelude::*;
use handlebars::Handlebars;
use std::collections::BTreeMap;

verus! {

#[verifier::external_type_specification]
#[verifier::external_body]
pub struct ExRenderError(handlebars::RenderError);

/// The views of a list of keys and values.
pub open spec fn binding_views(data: Seq<(String, String)>) -> Seq<(Seq<char>, Seq<char>)> {
    data.map_values(|p: (String, String)| (p.0@, p.1@))
}

/// The template of a declaration without modifiers.
pub open spec fn plain_template() -> Seq<char> {
    "{{return_type}} {{name}}({{args}})"@
}

/// The template of a declaration with modifiers.
pub open spec fn flags_template() -> Seq<char> {
    "{{flags}} {{return_type}} {{name}}({{args}})"@
}

/// What the template engine writes for one character of a value: the
/// entity of the character for each of seven characters, and else the
/// character itself.
pub open spec fn escaped_char(c: char) -> Seq<char> {
    if c == '<' {
        "&lt;"@
    } else if c == '>' {
        "&gt;"@
    } else if c == '"' {
        "&quot;"@
    } else if c == '&' {
        "&amp;"@
    } else if c == '\'' {
        "&#x27;"@
    } else if c == '`' {
        "&#x60;"@
    } else if c == '=' {
        "&#x3D;"@
    } else {
        seq![c]
    }
}

/// What the template engine writes for a value: each character escaped.
pub open spec fn escaped(s: Seq<char>) -> Seq<char>
    decreases s.len(),
{
    if s.len() == 0 {
        Seq::empty()
    } else {
        escaped(s.drop_last()) + escaped_char(s.last())
    }
}

/// Whether `data` are the data of the template without modifiers: the type
/// of the result, the name and the parameters, under their keys.
pub open spec fn plain_data(data: Seq<(Seq<char>, Seq<char>)>) -> bool {
    data.len() == 3 && data[0].0 == "return_type"@ && data[1].0 == "name"@ && data[2].0 == "args"@
}

/// Whether `data` are the data of the template with modifiers: the
/// modifiers, the type of the result, the name and the parameters, under
/// their keys.
pub open spec fn flags_data(data: Seq<(Seq<char>, Seq<char>)>) -> bool {
    data.len() == 4 && data[0].0 == "flags"@ && data[1].0 == "return_type"@ && data[2].0
        == "name"@ && data[3].0 == "args"@
}

/// The declaration that the template engine renders from the data of one
/// of the two templates: the values escaped, with the text of the template
/// between them.
pub open spec fn declaration_rendering(data: Seq<(Seq<char>, Seq<char>)>) -> Seq<char> {
    if data.len() == 3 {
        escaped(data[0].1) + " "@ + escaped(data[1].1) + "("@ + escaped(data[2].1) + ")"@
    } else {
        escaped(data[0].1) + " "@ + escaped(data[1].1) + " "@ + escaped(data[2].1) + "("@ + escaped(
            data[3].1,
        ) + ")"@
    }
}

/// Renders `template`, one of the two templates of a declaration, with its
/// `data` by `Handlebars::render_template`, on a registry as
/// `Handlebars::new` makes it. The contract claims that the engine gives a
/// text, and that the text is the values escaped with the text of the
/// template between them. The two templates are well formed and hold
/// nothing but variables and plain text; a registry as it is made has no
/// helper that bears the name of one of the variables, and does not ask
/// that a variable be there.
#[verifier::external_body]
pub(crate) fn render_template(template: &str, data: &Vec<(String, String)>) -> (r: Result<
    String,
    handlebars::RenderError,
>)
    requires
        (template@ == plain_template() && plain_data(binding_views(data@))) || (template@
            == flags_template() && flags_data(binding_views(data@))),
    ensures
        match r {
            Ok(text) => text@ == declaration_rendering(binding_views(data@)),
            Err(_) => false,
        },
{
    let map: BTreeMap<&str, &str> = data.iter().map(|p| (p.0.as_str(), p.1.as_str())).collect();
    Handlebars::new().render_template(template, &map)
}

} // verus!
