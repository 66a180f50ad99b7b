//! The set of named templates through which HTML fragments are rendered.

use crate::text::chars_of;
use std::collections::BTreeMap;
use vstd::prelude::*;

verus! {

/// `handlebars::Handlebars`, the registry of compiled templates.
#[verifier::external_type_specification]
#[verifier::external_body]
pub struct ExRegistry<'reg>(handlebars::Handlebars<'reg>);

/// `handlebars::RenderError`, why a template was not rendered.
#[verifier::external_type_specification]
#[verifier::external_body]
pub struct ExRenderError(handlebars::RenderError);

/// `handlebars::TemplateError`, why a template source did not compile.
#[verifier::external_type_specification]
#[verifier::external_body]
pub struct ExTemplateError(handlebars::TemplateError);

/// The templates that a registry holds, as a map from each template's name
/// to the source text it was registered with.
pub uninterp spec fn registered(registry: handlebars::Handlebars<'static>) -> Map<
    Seq<char>,
    Seq<char>,
>;

/// The empty set of templates.
pub open spec fn no_templates() -> Map<Seq<char>, Seq<char>> {
    Map::empty()
}

/// Whether `c` may stand between the `{{` that opens a tag and the `>`
/// that makes the tag a partial: white space, `~` and `#`.
pub open spec fn is_tag_filler(c: char) -> bool {
    c == ' ' || c == '\t' || c == '\n' || c == '\r' || c == '~' || c == '#'
}

/// Whether a tag opens at position `i` of `s` and nothing but filler
/// stands between it and position `j`.
pub open spec fn tag_open(s: Seq<char>, i: int, j: int) -> bool {
    0 <= i && i + 2 <= j <= s.len() && s[i] == '{' && s[i + 1] == '{' && forall|k: int|
        i + 2 <= k < j ==> is_tag_filler(#[trigger] s[k])
}

/// Whether a template source includes another template: somewhere in it a
/// `{{` is followed, after filler only, by `>`. Every partial and every
/// partial block begins so; a source without such a place renders without
/// entering any other template.
pub open spec fn includes_partial(s: Seq<char>) -> bool {
    exists|i: int, j: int| #[trigger] tag_open(s, i, j) && j < s.len() && s[j] == '>'
}

/// No registered template includes another.
pub open spec fn all_plain(templates: Map<Seq<char>, Seq<char>>) -> bool {
    forall|name: Seq<char>|
        templates.dom().contains(name) ==> !includes_partial(#[trigger] templates[name])
}

/// Whether a template source is free of syntax errors.
pub uninterp spec fn template_compiles(source: Seq<char>) -> bool;

/// What rendering the template `name` over the given fields produces, given
/// all the templates that are registered; `None` when rendering fails. A
/// field is a name with a text, or with no value.
pub uninterp spec fn template_output(
    templates: Map<Seq<char>, Seq<char>>,
    name: Seq<char>,
    fields: Seq<(Seq<char>, Option<Seq<char>>)>,
) -> Option<Seq<char>>;

/// `Handlebars::new`: a registry with the built-in helpers and default
/// settings, holding no template yet.
#[verifier::external_body]
fn new_registry() -> (r: handlebars::Handlebars<'static>)
    ensures
        registered(r) == no_templates(),
{
    handlebars::Handlebars::new()
}

/// `Handlebars::register_template_string`: compiles `source` and, if it has
/// no syntax error, stores it under `name`, replacing a template of that
/// name. On a syntax error the registry is left as it was. The call reports
/// every fault of the source as an error and does not panic.
#[verifier::external_body]
fn register_string(registry: &mut handlebars::Handlebars<'static>, name: &str, source: &str) -> (r:
    Result<(), handlebars::TemplateError>)
    ensures
        r is Ok <==> template_compiles(source@),
        r is Ok ==> registered(*final(registry)) == registered(*old(registry)).insert(
            name@,
            source@,
        ),
        r is Err ==> registered(*final(registry)) == registered(*old(registry)),
    no_unwind
{
    registry.register_template_string(name, source)
}

/// `Handlebars::render`: renders the template registered as `name` over an
/// object with the given fields. The result is fixed by the registered
/// templates, the name and the fields; this holds of a registry that has
/// default settings and no helpers but the built-in ones, which is what
/// [`Templates`] keeps. Templates that include each other would be rendered
/// without end, so the call is for registries in which no template
/// includes another.
#[verifier::external_body]
fn render_registered(
    registry: &handlebars::Handlebars<'static>,
    name: &str,
    fields: &Vec<(String, Option<String>)>,
) -> (r: Result<String, handlebars::RenderError>)
    requires
        all_plain(registered(*registry)),
    ensures
        match r {
            Ok(out) => template_output(registered(*registry), name@, fields.deep_view()) == Some(
                out@,
            ),
            Err(_) => template_output(registered(*registry), name@, fields.deep_view()) is None,
        },
{
    let data: BTreeMap<&str, Option<&str>> = fields.iter().map(
        |f| (f.0.as_str(), f.1.as_deref()),
    ).collect();
    registry.render(name, &data)
}

/// Why a template was not registered.
#[derive(Debug, Clone, Copy, PartialEq, Eq)]
pub enum RegisterError {
    /// The template source includes another template.
    IncludesPartial,
    /// The template source has a syntax error.
    InvalidTemplate,
}

/// Whether a template source includes another template.
pub fn source_includes_partial(source: &str) -> (b: bool)
    ensures
        b == includes_partial(source@),
{
    let chars = chars_of(source);
    let n = chars.len();
    let mut open = false;
    let ghost mut start: int = 0;
    let mut p: usize = 0;
    while p < n
        invariant
            0 <= p <= n,
            n == chars.len(),
            chars@ == source@,
            open ==> tag_open(chars@, start, p as int),
            !open ==> forall|i: int| !#[trigger] tag_open(chars@, i, p as int),
            forall|i: int, j: int| #[trigger] tag_open(chars@, i, j) && j < p ==> chars@[j] != '>',
        decreases n - p,
    {
        let c = chars[p];
        if open && c == '>' {
            return true;
        }
        let filler = c == ' ' || c == '\t' || c == '\n' || c == '\r' || c == '~' || c == '#';
        let opens_here = p >= 1 && chars[p - 1] == '{' && c == '{';
        proof {
            let here = p as int;
            let next = p + 1;
            assert forall|i: int, j: int| #[trigger] tag_open(chars@, i, j) && j < next implies chars@[j]
                != '>' by {
                if j == here {
                    assert(open);
                }
            }
            if opens_here {
                assert(tag_open(chars@, here - 1, next));
            } else if open && filler {
                assert(tag_open(chars@, start, next));
            } else {
                assert forall|i: int| !#[trigger] tag_open(chars@, i, next) by {
                    if tag_open(chars@, i, next) {
                        if i + 2 == next {
                            assert(opens_here);
                        } else {
                            assert(is_tag_filler(chars@[here]));
                            assert(tag_open(chars@, i, here));
                        }
                    }
                }
            }
            if opens_here {
                start = here - 1;
            }
        }
        open = opens_here || (open && filler);
        p += 1;
    }
    false
}

/// A set of named templates, none of which includes another: each renders
/// by itself.
pub struct Templates {
    registry: handlebars::Handlebars<'static>,
}

impl View for Templates {
    type V = Map<Seq<char>, Seq<char>>;

    /// The source of each registered template, by name.
    closed spec fn view(&self) -> Map<Seq<char>, Seq<char>> {
        registered(self.registry)
    }
}

impl Templates {
    #[verifier::type_invariant]
    closed spec fn plain(&self) -> bool {
        all_plain(registered(self.registry))
    }

    /// An empty set of templates.
    pub fn new() -> (t: Templates)
        ensures
            t@ == no_templates(),
    {
        Templates { registry: new_registry() }
    }

    /// Adds the template `source` under `name`, replacing any template of
    /// that name. A source that includes another template is refused, and
    /// so is one with a syntax error; a refused source changes nothing.
    pub fn register(&mut self, name: &str, source: &str) -> (r: Result<(), RegisterError>)
        ensures
            r == (if includes_partial(source@) {
                Err(RegisterError::IncludesPartial)
            } else if template_compiles(source@) {
                Ok(())
            } else {
                Err(RegisterError::InvalidTemplate)
            }),
            r is Ok ==> final(self)@ == old(self)@.insert(name@, source@),
            r is Err ==> final(self)@ == old(self)@,
            all_plain(final(self)@),
    {
        proof {
            use_type_invariant(&*self);
        }
        if source_includes_partial(source) {
            return Err(RegisterError::IncludesPartial);
        }
        match register_string(&mut self.registry, name, source) {
            Ok(()) => Ok(()),
            Err(_) => Err(RegisterError::InvalidTemplate),
        }
    }

    /// Renders the template `name` over an object with the given fields.
    /// Returns `None` when rendering fails, as it does when no template of
    /// that name is registered.
    pub fn render(&self, name: &str, fields: &Vec<(String, Option<String>)>) -> (r: Option<String>)
        ensures
            r.deep_view() == template_output(self@, name@, fields.deep_view()),
    {
        proof {
            use_type_invariant(self);
        }
        match render_registered(&self.registry, name, fields) {
            Ok(out) => Some(out),
            Err(_) => None,
        }
    }
}

} // verus!
