//! Structure templates: manifests, the three-tier loader, and validation.

pub mod manifest;
pub mod loader;
pub mod validate;

pub use loader::{ListedTemplate, TemplateLoader, production_builtins};
pub use manifest::{FolderRules, FolderShape, FrontmatterRef, Invariants, NamingConventions, TemplateManifest, LoadedTemplate, TemplateTier};

use vstd::prelude::*;
use vstd::string::StringExecFns;
use crate::text::join;

verus! {

/// What can go wrong when resolving or loading a template.
#[derive(Debug)]
pub enum TemplateError {
    /// The name was found in no tier; `searched` lists every path checked.
    NotFound { name: String, searched: Vec<String> },
    /// `manifest.toml` could not be parsed or is structurally invalid.
    Malformed { source: String, error: String },
    /// The template references a schema file that does not exist.
    MissingSchema { template: String, schema_path: String },
    /// A filesystem read failed.
    Io(String),
}

/// The texts of a list of strings.
pub open spec fn texts(v: Seq<String>) -> Seq<Seq<char>> {
    v.map_values(|s: String| s@)
}

/// A template error as plain values.
pub enum TemplateErrorView {
    NotFound(Seq<char>, Seq<Seq<char>>),
    Malformed(Seq<char>, Seq<char>),
    MissingSchema(Seq<char>, Seq<char>),
    Io(Seq<char>),
}

impl View for TemplateError {
    type V = TemplateErrorView;

    open spec fn view(&self) -> TemplateErrorView {
        match self {
            TemplateError::NotFound { name, searched } => TemplateErrorView::NotFound(name@, texts(searched@)),
            TemplateError::Malformed { source, error } => TemplateErrorView::Malformed(source@, error@),
            TemplateError::MissingSchema { template, schema_path } => TemplateErrorView::MissingSchema(template@, schema_path@),
            TemplateError::Io(e) => TemplateErrorView::Io(e@),
        }
    }
}

/// How an error is described.
pub open spec fn template_error_text(e: TemplateErrorView) -> Seq<char> {
    match e {
        TemplateErrorView::NotFound(name, searched) => "template '"@ + name + "' not found; searched: "@ + if searched.len() == 0 {
            "(built-in registry only)"@
        } else {
            join(searched, ", "@)
        },
        TemplateErrorView::Malformed(source, error) => "malformed template '"@ + source + "': "@ + error,
        TemplateErrorView::MissingSchema(template, schema_path) => "template '"@ + template + "' references schema '"@
            + schema_path + "' which does not exist"@,
        TemplateErrorView::Io(e) => "I/O error: "@ + e,
    }
}

/// The items of a list of strings joined with `sep`.
pub fn join_strings(items: &Vec<String>, sep: &str) -> (r: String)
    ensures
        r@ == join(texts(items@), sep@),
{
    let mut r = String::new();
    for i in 0..items.len()
        invariant
            r@ == join(texts(items@.take(i as int)), sep@),
    {
        proof {
            assert(texts(items@.take(i + 1)) =~= texts(items@.take(i as int)).push(items@[i as int]@));
            assert(texts(items@.take(i + 1)).drop_last() =~= texts(items@.take(i as int)));
        }
        if i > 0 {
            r.append(sep);
        }
        r.append(items[i].as_str());
    }
    proof {
        assert(items@.take(items@.len() as int) =~= items@);
    }
    r
}

impl TemplateError {
    /// The description of this error.
    pub fn message(&self) -> (r: String)
        ensures
            r@ == template_error_text(self@),
    {
        match self {
            TemplateError::NotFound { name, searched } => {
                let mut s = String::from_str("template '");
                s.append(name.as_str());
                s.append("' not found; searched: ");
                if searched.len() == 0 {
                    s.append("(built-in registry only)");
                } else {
                    let j = join_strings(searched, ", ");
                    s.append(j.as_str());
                }
                s
            },
            TemplateError::Malformed { source, error } => {
                let mut s = String::from_str("malformed template '");
                s.append(source.as_str());
                s.append("': ");
                s.append(error.as_str());
                s
            },
            TemplateError::MissingSchema { template, schema_path } => {
                let mut s = String::from_str("template '");
                s.append(template.as_str());
                s.append("' references schema '");
                s.append(schema_path.as_str());
                s.append("' which does not exist");
                s
            },
            TemplateError::Io(e) => {
                let mut s = String::from_str("I/O error: ");
                s.append(e.as_str());
                s
            },
        }
    }
}

} // verus!
