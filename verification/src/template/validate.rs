//! Internal consistency of a loaded template.

use vstd::prelude::*;
use vstd::string::StringExecFns;
use crate::files::{FileTree, NodeView, exists_at, join_path, path_join};
use crate::template::TemplateError;
use crate::template::manifest::{LoadedTemplate, TemplateView, gaps_folder_of};
use crate::text::{find, find_chars, starts_with, starts_with_chars, to_chars};

verus! {

/// The path of the schema a template references, when it names one and has a
/// directory to resolve it in.
pub open spec fn schema_path_of(t: TemplateView) -> Option<Seq<char>> {
    match (t.manifest.schema, t.dir) {
        (Some(s), Some(d)) => Some(path_join(d, s)),
        _ => None,
    }
}

/// A schema reference that is not a path relative to the template directory:
/// an absolute path or a URL (`scheme://...`).
pub open spec fn schema_ref_rejected(s: Seq<char>) -> bool {
    starts_with(s, "/"@) || find(s, "://"@) is Some
}

/// The error text for a rejected schema reference.
pub open spec fn schema_ref_msg(s: Seq<char>) -> Seq<char> {
    "frontmatter.schema '"@ + s + "' must be a path relative to the template directory; absolute paths and URLs are rejected"@
}

/// Validation: a schema reference must be relative (absolute paths and URLs
/// are rejected), then the referenced schema must exist, then a declared
/// gaps folder must not be empty.
pub open spec fn validate_result(tree: Seq<NodeView>, t: TemplateView, r: Result<(), TemplateError>) -> bool {
    match t.manifest.schema {
        Some(s) if schema_ref_rejected(s) => r matches Err(TemplateError::Malformed { source, error })
            && source@ == t.manifest.name && error@ == schema_ref_msg(s),
        _ => validate_on_disk(tree, t, r),
    }
}

/// Validation of a template whose schema reference, if any, is relative.
pub open spec fn validate_on_disk(tree: Seq<NodeView>, t: TemplateView, r: Result<(), TemplateError>) -> bool {
    match schema_path_of(t) {
        Some(p) if !exists_at(tree, p) => r matches Err(TemplateError::MissingSchema { template, schema_path })
            && template@ == t.manifest.name && schema_path@ == p,
        _ => if gaps_folder_of(t.manifest) == Some(Seq::<char>::empty()) {
            r matches Err(TemplateError::Malformed { source, error }) && source@ == t.manifest.name
                && error@ == "invariants.gaps_folder must not be empty if specified"@
        } else {
            r is Ok
        },
    }
}

/// Checks a loaded template for internal consistency: its schema reference,
/// if any, is relative to the template directory, the referenced schema file
/// exists (for templates on disk) and its gaps folder, if declared, is not
/// empty.
pub fn validate(template: &LoadedTemplate, tree: &FileTree) -> (r: Result<(), TemplateError>)
    ensures
        validate_result(tree@, template@, r),
{
    match &template.manifest.frontmatter {
        Some(f) => {
            let cs = to_chars(f.schema.as_str());
            let slash = to_chars("/");
            let scheme = to_chars("://");
            proof {
                reveal_strlit("/");
                reveal_strlit("://");
            }
            if starts_with_chars(cs.as_slice(), slash.as_slice()) || find_chars(cs.as_slice(), scheme.as_slice()).is_some() {
                let mut error = String::from_str("frontmatter.schema '");
                error.append(f.schema.as_str());
                error.append("' must be a path relative to the template directory; absolute paths and URLs are rejected");
                return Err(TemplateError::Malformed { source: template.manifest.name.clone(), error });
            }
        },
        None => {},
    }
    match (&template.manifest.frontmatter, &template.dir) {
        (Some(f), Some(d)) => {
            let schema_path = join_path(d.as_str(), f.schema.as_str());
            if !tree.path_exists(schema_path.as_str()) {
                return Err(TemplateError::MissingSchema { template: template.manifest.name.clone(), schema_path });
            }
        },
        _ => {},
    }
    match &template.manifest.invariants {
        Some(inv) => match &inv.gaps_folder {
            Some(gf) => {
                if gf.as_str().unicode_len() == 0 {
                    proof {
                        assert(gf@ =~= Seq::<char>::empty());
                    }
                    return Err(TemplateError::Malformed {
                        source: template.manifest.name.clone(),
                        error: String::from_str("invariants.gaps_folder must not be empty if specified"),
                    });
                }
            },
            None => {},
        },
        None => {},
    }
    Ok(())
}

} // verus!
