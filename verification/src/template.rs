//! Branch names rendered from a Handlebars template.
use vstd::prelude::*;

verus! {

#[verifier::external_type_specification]
#[verifier::external_body]
pub struct ExRenderError(handlebars::RenderError);

/// What a fresh `handlebars::Handlebars` registry renders for `template`
/// with the data `{"number": number}`; `None` when it reports an error.
pub uninterp spec fn handlebars_render(template: Seq<char>, number: Seq<char>) -> Option<Seq<char>>;

/// `handlebars::Handlebars::render_template` on a fresh registry, with the
/// single field `number` as data. Claims only that the text, or the
/// failure, is the one named by `handlebars_render`.
#[verifier::external_body]
fn render_number_template(template: &str, number: &str) -> (res: Result<String, handlebars::RenderError>)
    ensures
        match res {
            Ok(s) => handlebars_render(template@, number@) == Some(s@),
            Err(_) => handlebars_render(template@, number@) is None,
        },
{
    let registry = handlebars::Handlebars::new();
    let mut data = std::collections::BTreeMap::new();
    data.insert("number", number);
    registry.render_template(template, &data)
}

/// Why a branch name could not be rendered.
#[derive(Clone, Copy, Debug, PartialEq, Eq)]
pub enum RenderFailure {
    /// The template does not parse or does not render.
    Template,
}

/// Renders the branch-name template `tmp` with `branch_number` as `number`.
pub fn render_branch_name_by_tmp(branch_number: &str, tmp: &str) -> (res: Result<String, RenderFailure>)
    ensures
        match res {
            Ok(s) => handlebars_render(tmp@, branch_number@) == Some(s@),
            Err(_) => handlebars_render(tmp@, branch_number@) is None,
        },
{
    match render_number_template(tmp, branch_number) {
        Ok(s) => Ok(s),
        Err(_) => Err(RenderFailure::Template),
    }
}

} // verus!
