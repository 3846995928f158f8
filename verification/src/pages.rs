//! The page templates of the library's web view, and the template
//! environment that holds them.

use std::sync::Arc;
use vstd::prelude::*;

verus! {

/// `minijinja::Environment`: the template engine's store of templates and
/// settings. Of what is inside, only [`loaded_templates`] and
/// [`has_default_settings`] are spoken of.
#[verifier::external_type_specification]
#[verifier::external_body]
pub struct ExEnvironment<'source>(minijinja::Environment<'source>);

/// `minijinja::Error`: why a template was refused. Nothing is claimed of its
/// contents; the value is carried through.
#[verifier::external_type_specification]
#[verifier::external_body]
pub struct ExTemplateError(minijinja::Error);

/// The templates that `env` holds: the name of each, with the source text it
/// was loaded from.
pub uninterp spec fn loaded_templates(env: minijinja::Environment<'static>) -> Map<
    Seq<char>,
    Seq<char>,
>;

/// Whether `env` still has the settings that it was made with: the engine's
/// default syntax, white-space handling and escaping.
pub uninterp spec fn has_default_settings(env: minijinja::Environment<'static>) -> bool;

/// Whether the engine, with its default settings, takes `source` as the
/// template called `name`: that is, whether `source` is free of syntax errors.
pub uninterp spec fn template_compiles(name: Seq<char>, source: Seq<char>) -> bool;

/// Name of the page frame.
pub const BASE_NAME: &'static str = "base.html";

/// Name of the library listing.
pub const HOME_NAME: &'static str = "home.html";

/// The page frame: a title and a block for the page's content.
pub const BASE_TEMPLATE: &'static str =
    "<!doctype html>\n<html>\n<head>\n<meta charset=\"utf-8\">\n<title>{% block title %}reamio{% endblock %}</title>\n</head>\n<body>\n{% block content %}{% endblock %}\n</body>\n</html>\n";

/// The library listing: artists, their albums, and each album's tracks.
pub const HOME_TEMPLATE: &'static str =
    "{% extends \"base.html\" %}\n{% block content %}\n{% for artist in artists %}\n<h2>{{ artist.title }}</h2>\n{% for album in artist.albums %}\n<h3>{{ album.title }}</h3>\n<ul>\n{% for track in album.tracks %}\n<li>{{ track.title }}</li>\n{% endfor %}\n</ul>\n{% endfor %}\n{% endfor %}\n{% endblock %}\n";

/// No template at all.
pub open spec fn no_templates() -> Map<Seq<char>, Seq<char>> {
    Map::empty()
}

/// The templates of the web view, by name.
pub open spec fn page_templates() -> Map<Seq<char>, Seq<char>> {
    no_templates().insert(BASE_NAME@, BASE_TEMPLATE@).insert(HOME_NAME@, HOME_TEMPLATE@)
}

/// Whether the engine takes both page templates.
pub open spec fn pages_compile() -> bool {
    template_compiles(BASE_NAME@, BASE_TEMPLATE@) && template_compiles(HOME_NAME@, HOME_TEMPLATE@)
}

/// `minijinja::Environment::new`: an environment with the engine's default
/// settings. Claimed: it holds no template, and its settings are the
/// defaults.
#[verifier::external_body]
fn new_environment() -> (env: minijinja::Environment<'static>)
    ensures
        loaded_templates(env) == no_templates(),
        has_default_settings(env),
{
    minijinja::Environment::new()
}

/// `minijinja::Environment::add_template`: compiles `source` and stores it
/// under `name`. Claimed: the settings stay as they are. Whether the call
/// succeeds depends, under the default settings, on `name` and `source`
/// alone: it fails exactly when the template has a syntax error. On success
/// the environment holds `source` under `name`, in place of what it held
/// under that name, and everything else as before. On failure it holds what
/// it held before, except that a template of that name may be gone (the
/// engine drops an owned template of the name before it compiles).
#[verifier::external_body]
fn add_template(
    env: &mut minijinja::Environment<'static>,
    name: &'static str,
    source: &'static str,
) -> (r: Result<(), minijinja::Error>)
    ensures
        has_default_settings(*final(env)) == has_default_settings(*old(env)),
        has_default_settings(*old(env)) ==> (r is Ok <==> template_compiles(name@, source@)),
        r is Ok ==> loaded_templates(*final(env)) == loaded_templates(*old(env)).insert(
            name@,
            source@,
        ),
        r is Err ==> loaded_templates(*final(env)) == loaded_templates(*old(env))
            || loaded_templates(*final(env)) == loaded_templates(*old(env)).remove(name@),
{
    env.add_template(name, source)
}

/// What an attempt to add a template leaves of `env`: the environment when
/// the engine took the template, and the engine's error when it did not.
pub fn after_adding(
    env: minijinja::Environment<'static>,
    added: Result<(), minijinja::Error>,
) -> (r: Result<minijinja::Environment<'static>, minijinja::Error>)
    ensures
        r == (match added {
            Ok(_) => Ok(env),
            Err(e) => Err(e),
        }),
{
    match added {
        Ok(()) => Ok(env),
        Err(e) => Err(e),
    }
}

/// Builds the template environment of the web view, ready to be shared: the
/// page frame and the library listing, each under its name, and nothing else.
///
/// Succeeds exactly when the engine takes both templates. The page frame is
/// added first, and the first template that the engine refuses ends the
/// attempt with the engine's error.
pub fn load_templates() -> (r: Result<Arc<minijinja::Environment<'static>>, minijinja::Error>)
    ensures
        r is Ok <==> pages_compile(),
        r matches Ok(env) ==> loaded_templates(*env) == page_templates() && has_default_settings(
            *env,
        ),
{
    let mut env = new_environment();
    let added = add_template(&mut env, BASE_NAME, BASE_TEMPLATE);
    let mut env = match after_adding(env, added) {
        Ok(env) => env,
        Err(e) => {
            return Err(e);
        },
    };
    let added = add_template(&mut env, HOME_NAME, HOME_TEMPLATE);
    match after_adding(env, added) {
        Ok(env) => Ok(Arc::new(env)),
        Err(e) => Err(e),
    }
}

} // verus!
