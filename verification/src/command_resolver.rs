use crate::name_map::{has_name, lemma_deep_entries_names, lemma_first_index, NameMap};
use crate::template::{
    blanks, closes, marker_names, name_characters, name_length, names_from, opens,
    referenced_names,
};
use vstd::prelude::*;

verus! {

/// Values bound to argument names.
pub type Bindings = NameMap<String>;

/// Why a template did not resolve.
#[derive(Clone, Copy, Debug, PartialEq, Eq, Structural)]
pub enum TemplateErrorKind {
    /// The template is malformed, as with unbalanced markers.
    Syntax,
    /// A marker refers to a name that has no bound value.
    Undefined,
    /// The template engine could not render the template for another
    /// reason.
    Render,
}

/// A template that did not resolve.
#[derive(Clone, Debug, PartialEq, Eq)]
pub struct TemplateError {
    /// Why the template did not resolve.
    pub kind: TemplateErrorKind,
    /// What is said of the failure: by the library of a fault that it finds
    /// itself, by the template engine of a failure of its own.
    pub message: String,
}

/// What minijinja renders from `template` with `bindings` as its context,
/// under strict undefined behavior, or the kind of its failure.
pub uninterp spec fn strict_render(template: Seq<char>, bindings: Seq<(Seq<char>, Seq<char>)>) -> Result<
    Seq<char>,
    TemplateErrorKind,
>;

/// Every one of the names has a bound value.
pub open spec fn all_bound(names: Seq<Seq<char>>, bindings: Seq<(Seq<char>, Seq<char>)>) -> bool {
    forall|i: int| 0 <= i < names.len() ==> has_name(bindings, #[trigger] names[i])
}

/// The template holds nothing but text and markers of one name each, and
/// every such name has a bound value.
pub open spec fn renderable(template: Seq<char>, bindings: Seq<(Seq<char>, Seq<char>)>) -> bool {
    referenced_names(template) matches Some(names) && all_bound(names, bindings)
}

/// Renders with minijinja: a fresh `Environment::new()`, set to
/// `UndefinedBehavior::Strict`, takes the template under the name "command"
/// (`add_template`, `get_template`) and renders it (`Template::render`) with
/// the bindings as a map from name to string. The template may hold text
/// and markers of one bound name only: no filter, call, arithmetic or block
/// reaches the engine. The contract claims that the outcome depends on the
/// template and the bindings alone, and names it `strict_render`; a failure
/// is told apart by `Error::kind`.
#[verifier::external_body]
fn render_strict(template: &str, bindings: &Vec<(String, String)>) -> (rendered: Result<
    String,
    TemplateError,
>)
    requires
        renderable(template@, bindings.deep_view()),
    ensures
        match rendered {
            Ok(text) => strict_render(template@, bindings.deep_view()) == Ok::<
                Seq<char>,
                TemplateErrorKind,
            >(text@),
            Err(fault) => strict_render(template@, bindings.deep_view()) == Err::<
                Seq<char>,
                TemplateErrorKind,
            >(fault.kind),
        },
{
    let mut env = minijinja::Environment::new();
    env.set_undefined_behavior(minijinja::UndefinedBehavior::Strict);
    let ctx = minijinja::Value::from_iter(bindings.iter().map(|entry| (&entry.0, &entry.1)));
    let added = env.add_template("command", template);
    let rendered = added.and_then(|_| env.get_template("command")?.render(ctx));
    rendered.map_err(|fault| {
        let kind = match fault.kind() {
            minijinja::ErrorKind::SyntaxError => TemplateErrorKind::Syntax,
            minijinja::ErrorKind::UndefinedError => TemplateErrorKind::Undefined,
            _ => TemplateErrorKind::Render,
        };
        TemplateError { kind, message: fault.to_string() }
    })
}

/// Name `i` is the first of the names that has no bound value.
pub open spec fn first_unbound_at(
    names: Seq<Seq<char>>,
    bindings: Seq<(Seq<char>, Seq<char>)>,
    i: int,
) -> bool {
    &&& 0 <= i < names.len()
    &&& !has_name(bindings, names[i])
    &&& forall|k: int| 0 <= k < i ==> has_name(bindings, #[trigger] names[k])
}

/// What a fault that the library finds by itself says: that the template is
/// malformed, or which name is the first without a bound value. What the
/// template engine says of a failure of its own is not fixed here.
pub open spec fn own_message(
    template: Seq<char>,
    bindings: Seq<(Seq<char>, Seq<char>)>,
    message: Seq<char>,
) -> bool {
    match referenced_names(template) {
        None => message == "syntax error: malformed marker in template"@,
        Some(names) => all_bound(names, bindings) || exists|i: int|
            first_unbound_at(names, bindings, i) && message == "undefined value: "@ + names[i],
    }
}

/// The resolved form of a template. The empty template resolves to the
/// empty string whatever is bound. A malformed template is a syntax fault,
/// found before any value is looked at. A marker whose name has no bound
/// value is an undefined fault. Any other template is rendered.
pub open spec fn resolution(template: Seq<char>, bindings: Seq<(Seq<char>, Seq<char>)>) -> Result<
    Seq<char>,
    TemplateErrorKind,
> {
    if template.len() == 0 {
        Ok(Seq::empty())
    } else {
        match referenced_names(template) {
            None => Err(TemplateErrorKind::Syntax),
            Some(names) => if all_bound(names, bindings) {
                strict_render(template, bindings)
            } else {
                Err(TemplateErrorKind::Undefined)
            },
        }
    }
}

/// Resolve shell command: the template is rendered with the bound values.
/// It may hold text and markers of one name each, "{{ name }}". A malformed
/// template is refused before any substitution, a marker whose name is not
/// bound is an error and never an empty string, and bound values that no
/// marker refers to are passed over.
pub fn resolve_command(unresolved_command: &str, arguments: &Bindings) -> (resolved: Result<
    String,
    TemplateError,
>)
    ensures
        match resolved {
            Ok(text) => resolution(unresolved_command@, arguments.deep_view()) == Ok::<
                Seq<char>,
                TemplateErrorKind,
            >(text@),
            Err(fault) => resolution(unresolved_command@, arguments.deep_view()) == Err::<
                Seq<char>,
                TemplateErrorKind,
            >(fault.kind) && own_message(
                unresolved_command@,
                arguments.deep_view(),
                fault.message@,
            ),
        },
{
    if unresolved_command.is_empty() {
        return Ok(String::new());
    }
    let names = match marker_names(unresolved_command) {
        Some(names) => names,
        None => {
            return Err(
                TemplateError {
                    kind: TemplateErrorKind::Syntax,
                    message: "syntax error: malformed marker in template".to_owned(),
                },
            );
        },
    };
    let ghost bound = arguments.deep_view();
    let mut i: usize = 0;
    while i < names.len()
        invariant
            i <= names.len(),
            bound == arguments.deep_view(),
            unresolved_command@.len() > 0,
            referenced_names(unresolved_command@) == Some(names.deep_view()),
            forall|k: int| 0 <= k < i ==> has_name(bound, #[trigger] names.deep_view()[k]),
        decreases names.len() - i,
    {
        proof {
            lemma_deep_entries_names(arguments@, names[i as int]@);
        }
        if !arguments.contains_key(names[i].as_str()) {
            assert(first_unbound_at(names.deep_view(), bound, i as int));
            let mut message = String::from_str("undefined value: ");
            message.append(names[i].as_str());
            return Err(TemplateError { kind: TemplateErrorKind::Undefined, message });
        }
        i += 1;
    }
    let entries = arguments.entries();
    assert(entries.deep_view() =~= arguments.deep_view());
    render_strict(unresolved_command, entries)
}

/// The empty template resolves to the empty string with any bindings.
pub proof fn lemma_empty_template(bindings: Seq<(Seq<char>, Seq<char>)>)
    ensures
        resolution(Seq::empty(), bindings) == Ok::<Seq<char>, TemplateErrorKind>(Seq::empty()),
{
}

/// A malformed template is a syntax fault whatever is bound.
pub proof fn lemma_malformed_whatever_is_bound(
    template: Seq<char>,
    bindings: Seq<(Seq<char>, Seq<char>)>,
)
    requires
        template.len() > 0,
        referenced_names(template) is None,
    ensures
        resolution(template, bindings) == Err::<Seq<char>, TemplateErrorKind>(
            TemplateErrorKind::Syntax,
        ),
{
}

/// Strict undefined: a well-formed template with a marker whose name has
/// no bound value is an undefined fault.
pub proof fn lemma_unbound_marker_is_undefined(
    template: Seq<char>,
    bindings: Seq<(Seq<char>, Seq<char>)>,
    i: int,
)
    requires
        referenced_names(template) is Some,
        0 <= i < referenced_names(template)->Some_0.len(),
        !has_name(bindings, referenced_names(template)->Some_0[i]),
    ensures
        resolution(template, bindings) == Err::<Seq<char>, TemplateErrorKind>(
            TemplateErrorKind::Undefined,
        ),
{
    if template.len() == 0 {
        assert(referenced_names(template)->Some_0.len() == 0);
    }
}

/// With unbalanced markers, as in "{{{x}}", a template is a syntax fault
/// whatever is bound.
pub proof fn lemma_unbalanced_markers(bindings: Seq<(Seq<char>, Seq<char>)>)
    ensures
        resolution("{{{x}}"@, bindings) == Err::<Seq<char>, TemplateErrorKind>(
            TemplateErrorKind::Syntax,
        ),
{
    reveal_strlit("{{{x}}");
    let template = "{{{x}}"@;
    assert(opens(template, 0));
    assert(blanks(template, 2) == 0);
    assert(name_length(template, 2) == 0);
}

/// With nothing bound, "echo {{x}}" is an undefined fault.
pub proof fn lemma_marker_without_binding()
    ensures
        resolution("echo {{x}}"@, Seq::empty()) == Err::<Seq<char>, TemplateErrorKind>(
            TemplateErrorKind::Undefined,
        ),
{
    reveal_strlit("echo {{x}}");
    let template = "echo {{x}}"@;
    reveal_with_fuel(names_from, 8);
    reveal_with_fuel(blanks, 2);
    reveal_with_fuel(name_characters, 2);
    assert(!opens(template, 0));
    assert(!opens(template, 1));
    assert(!opens(template, 2));
    assert(!opens(template, 3));
    assert(!opens(template, 4));
    assert(opens(template, 5));
    assert(blanks(template, 7) == 0);
    assert(name_length(template, 7) == 1);
    assert(blanks(template, 8) == 0);
    assert(closes(template, 8));
    assert(names_from(template, 10) == Some(Seq::<Seq<char>>::empty()));
    let names = referenced_names(template)->Some_0;
    assert(referenced_names(template) is Some);
    assert(names.len() == 1);
    lemma_first_index(Seq::<(Seq<char>, Seq<char>)>::empty(), names[0]);
    lemma_unbound_marker_is_undefined(template, Seq::empty(), 0);
}

} // verus!
