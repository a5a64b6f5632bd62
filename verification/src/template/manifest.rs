//! The template manifest (`manifest.toml`) and a loaded template.

use vstd::prelude::*;

verus! {

/// A template manifest.
#[derive(Debug, Clone, PartialEq)]
pub struct TemplateManifest {
    pub name: String,
    pub version: String,
    pub description: String,
    pub folder_rules: FolderRules,
    pub frontmatter: Option<FrontmatterRef>,
    pub invariants: Option<Invariants>,
    pub naming_conventions: Option<NamingConventions>,
}

/// The `[folder_rules]` table.
#[derive(Debug, Clone, PartialEq, Eq)]
pub struct FolderRules {
    pub shape: FolderShape,
}

/// Declared output shape for a structure template.
#[derive(Debug, Clone, Copy, PartialEq, Eq, Structural)]
pub enum FolderShape {
    /// Numbered top-level folders (e.g. `10-intake/`, `20-foundations/`).
    NumberedTiers,
    /// All files in a single directory with no subfolder hierarchy.
    Flat,
    /// Files grouped into domain-named subdirectories.
    ByDomain,
    /// Escape hatch: no structural enforcement.
    Custom,
}

/// Reference to a JSON Schema file for frontmatter validation, relative to
/// the template directory.
#[derive(Debug, Clone, PartialEq, Eq)]
pub struct FrontmatterRef {
    pub schema: String,
}

/// The `[invariants]` table.
#[derive(Debug, Clone, PartialEq, Eq)]
pub struct Invariants {
    pub index_required: bool,
    pub gaps_folder: Option<String>,
    pub atomic_file_gate: bool,
}

/// Reserved for future naming-convention rules; parsed but not enforced.
#[derive(Debug, Clone, PartialEq, Eq)]
pub struct NamingConventions {}

/// Which resolution tier a template was found in.
#[derive(Debug, Clone, PartialEq, Eq)]
pub enum TemplateTier {
    BuiltIn,
    Workspace,
    User,
    ExplicitPath(String),
}

/// A loaded template: its manifest, its tier, and its directory (none for
/// built-ins).
#[derive(Debug, Clone)]
pub struct LoadedTemplate {
    pub manifest: TemplateManifest,
    pub tier: TemplateTier,
    pub dir: Option<String>,
}

/// Whether the manifest turns the atomic-file gate on.
pub open spec fn atomic_gate(m: ManifestModel) -> bool {
    match m.invariants {
        Some(inv) => inv.atomic_file_gate,
        None => false,
    }
}

/// The manifest's gaps folder, if it names one.
pub open spec fn gaps_folder_of(m: ManifestModel) -> Option<Seq<char>> {
    match m.invariants {
        Some(inv) => inv.gaps_folder,
        None => None,
    }
}

/// A tier as plain values.
pub enum TierView {
    BuiltIn,
    Workspace,
    User,
    ExplicitPath(Seq<char>),
}

pub open spec fn tier_view(t: TemplateTier) -> TierView {
    match t {
        TemplateTier::BuiltIn => TierView::BuiltIn,
        TemplateTier::Workspace => TierView::Workspace,
        TemplateTier::User => TierView::User,
        TemplateTier::ExplicitPath(p) => TierView::ExplicitPath(p@),
    }
}

/// A loaded template as plain values.
pub struct TemplateView {
    pub manifest: ManifestModel,
    pub tier: TierView,
    pub dir: Option<Seq<char>>,
}

impl View for LoadedTemplate {
    type V = TemplateView;

    open spec fn view(&self) -> TemplateView {
        TemplateView {
            manifest: manifest_model(self.manifest),
            tier: tier_view(self.tier),
            dir: match self.dir {
                Some(d) => Some(d@),
                None => None,
            },
        }
    }
}

} // verus!

use vstd::string::StringExecFns;
use crate::toml_value::{TomlModel, TomlValue, toml_document, toml_get, parse_toml};

verus! {

// ---------------------------------------------------------------------------
// Reading a manifest from a TOML document
// ---------------------------------------------------------------------------

/// The invariants table as plain values.
pub struct InvariantsModel {
    pub index_required: bool,
    pub gaps_folder: Option<Seq<char>>,
    pub atomic_file_gate: bool,
}

/// A manifest as plain values.
pub struct ManifestModel {
    pub name: Seq<char>,
    pub version: Seq<char>,
    pub description: Seq<char>,
    pub shape: FolderShape,
    pub schema: Option<Seq<char>>,
    pub invariants: Option<InvariantsModel>,
    pub naming_conventions: bool,
}

pub open spec fn manifest_model(m: TemplateManifest) -> ManifestModel {
    ManifestModel {
        name: m.name@,
        version: m.version@,
        description: m.description@,
        shape: m.folder_rules.shape,
        schema: match m.frontmatter {
            Some(f) => Some(f.schema@),
            None => None,
        },
        invariants: match m.invariants {
            Some(i) => Some(
                InvariantsModel {
                    index_required: i.index_required,
                    gaps_folder: match i.gaps_folder {
                        Some(g) => Some(g@),
                        None => None,
                    },
                    atomic_file_gate: i.atomic_file_gate,
                },
            ),
            None => None,
        },
        naming_conventions: m.naming_conventions is Some,
    }
}

pub open spec fn missing_field_msg(key: Seq<char>) -> Seq<char> {
    "missing field `"@ + key + "`"@
}

pub open spec fn wrong_type_msg(key: Seq<char>, expected: Seq<char>) -> Seq<char> {
    "invalid type for `"@ + key + "`, expected "@ + expected
}

pub open spec fn unknown_shape_msg(s: Seq<char>) -> Seq<char> {
    "unknown variant `"@ + s + "`, expected one of `numbered-tiers`, `flat`, `by-domain`, `custom`"@
}

/// The shape a `shape` value names.
pub open spec fn shape_named(s: Seq<char>) -> Option<FolderShape> {
    if s == "numbered-tiers"@ {
        Some(FolderShape::NumberedTiers)
    } else if s == "flat"@ {
        Some(FolderShape::Flat)
    } else if s == "by-domain"@ {
        Some(FolderShape::ByDomain)
    } else if s == "custom"@ {
        Some(FolderShape::Custom)
    } else {
        None
    }
}

/// The name of a shape, as manifests write it.
pub open spec fn shape_text(s: FolderShape) -> Seq<char> {
    match s {
        FolderShape::NumberedTiers => "numbered-tiers"@,
        FolderShape::Flat => "flat"@,
        FolderShape::ByDomain => "by-domain"@,
        FolderShape::Custom => "custom"@,
    }
}

/// A required string member of a table.
pub open spec fn text_member(t: TomlModel, key: Seq<char>) -> Result<Seq<char>, Seq<char>> {
    match toml_get(t, key) {
        None => Err(missing_field_msg(key)),
        Some(TomlModel::Text(s)) => Ok(s),
        Some(_) => Err(wrong_type_msg(key, "a string"@)),
    }
}

/// An optional boolean member, false when absent.
pub open spec fn flag_member(t: TomlModel, key: Seq<char>) -> Result<bool, Seq<char>> {
    match toml_get(t, key) {
        None => Ok(false),
        Some(TomlModel::Boolean(b)) => Ok(b),
        Some(_) => Err(wrong_type_msg(key, "a boolean"@)),
    }
}

/// The `[folder_rules]` table's shape.
pub open spec fn folder_rules_member(doc: TomlModel) -> Result<FolderShape, Seq<char>> {
    match toml_get(doc, "folder_rules"@) {
        None => Err(missing_field_msg("folder_rules"@)),
        Some(fr) => if fr is Table {
            match toml_get(fr, "shape"@) {
                None => Err(missing_field_msg("shape"@)),
                Some(TomlModel::Text(s)) => match shape_named(s) {
                    Some(sh) => Ok(sh),
                    None => Err(unknown_shape_msg(s)),
                },
                Some(_) => Err(wrong_type_msg("shape"@, "a string"@)),
            }
        } else {
            Err(wrong_type_msg("folder_rules"@, "a table"@))
        },
    }
}

/// The optional `[frontmatter]` table's schema path.
pub open spec fn frontmatter_member(doc: TomlModel) -> Result<Option<Seq<char>>, Seq<char>> {
    match toml_get(doc, "frontmatter"@) {
        None => Ok(None),
        Some(f) => if f is Table {
            match text_member(f, "schema"@) {
                Ok(s) => Ok(Some(s)),
                Err(e) => Err(e),
            }
        } else {
            Err(wrong_type_msg("frontmatter"@, "a table"@))
        },
    }
}

/// The optional `[invariants]` table.
pub open spec fn invariants_member(doc: TomlModel) -> Result<Option<InvariantsModel>, Seq<char>> {
    match toml_get(doc, "invariants"@) {
        None => Ok(None),
        Some(inv) => if inv is Table {
            match flag_member(inv, "index_required"@) {
                Err(e) => Err(e),
                Ok(ir) => match toml_get(inv, "gaps_folder"@) {
                    Some(g) => if !(g is Text) {
                        Err(wrong_type_msg("gaps_folder"@, "a string"@))
                    } else {
                        match flag_member(inv, "atomic_file_gate"@) {
                            Err(e) => Err(e),
                            Ok(ag) => Ok(Some(InvariantsModel { index_required: ir, gaps_folder: Some(g->Text_0), atomic_file_gate: ag })),
                        }
                    },
                    None => match flag_member(inv, "atomic_file_gate"@) {
                        Err(e) => Err(e),
                        Ok(ag) => Ok(Some(InvariantsModel { index_required: ir, gaps_folder: None, atomic_file_gate: ag })),
                    },
                },
            }
        } else {
            Err(wrong_type_msg("invariants"@, "a table"@))
        },
    }
}

/// Whether the optional `[naming_conventions]` table is present.
pub open spec fn naming_member(doc: TomlModel) -> Result<bool, Seq<char>> {
    match toml_get(doc, "naming_conventions"@) {
        None => Ok(false),
        Some(n) => if n is Table {
            Ok(true)
        } else {
            Err(wrong_type_msg("naming_conventions"@, "a table"@))
        },
    }
}

/// The manifest a TOML document describes, members checked in declaration
/// order; the first problem is reported. Unknown keys are ignored.
pub open spec fn manifest_of_document(doc: TomlModel) -> Result<ManifestModel, Seq<char>> {
    match text_member(doc, "name"@) {
        Err(e) => Err(e),
        Ok(name) => match text_member(doc, "version"@) {
            Err(e) => Err(e),
            Ok(version) => match text_member(doc, "description"@) {
                Err(e) => Err(e),
                Ok(description) => match folder_rules_member(doc) {
                    Err(e) => Err(e),
                    Ok(shape) => match frontmatter_member(doc) {
                        Err(e) => Err(e),
                        Ok(schema) => match invariants_member(doc) {
                            Err(e) => Err(e),
                            Ok(invariants) => match naming_member(doc) {
                                Err(e) => Err(e),
                                Ok(naming_conventions) => Ok(
                                    ManifestModel { name, version, description, shape, schema, invariants, naming_conventions },
                                ),
                            },
                        },
                    },
                },
            },
        },
    }
}

/// The manifest a text describes: a TOML syntax error, or the manifest of
/// the document.
pub open spec fn manifest_of_text(text: Seq<char>) -> Result<ManifestModel, Seq<char>> {
    match toml_document(text) {
        Err(e) => Err(e),
        Ok(doc) => manifest_of_document(doc),
    }
}

fn missing_field_message(key: &str) -> (r: String)
    ensures
        r@ == missing_field_msg(key@),
{
    let mut s = String::from_str("missing field `");
    s.append(key);
    s.append("`");
    s
}

fn wrong_type_message(key: &str, expected: &str) -> (r: String)
    ensures
        r@ == wrong_type_msg(key@, expected@),
{
    let mut s = String::from_str("invalid type for `");
    s.append(key);
    s.append("`, expected ");
    s.append(expected);
    s
}

fn text_member_of(t: &TomlValue, key: &str) -> (r: Result<String, String>)
    ensures
        match r {
            Ok(s) => text_member(t@, key@) == Ok::<Seq<char>, Seq<char>>(s@),
            Err(e) => text_member(t@, key@) == Err::<Seq<char>, Seq<char>>(e@),
        },
{
    match t.get(key) {
        None => Err(missing_field_message(key)),
        Some(TomlValue::Text(s)) => Ok(s.clone()),
        Some(_) => Err(wrong_type_message(key, "a string")),
    }
}

fn flag_member_of(t: &TomlValue, key: &str) -> (r: Result<bool, String>)
    ensures
        match r {
            Ok(b) => flag_member(t@, key@) == Ok::<bool, Seq<char>>(b),
            Err(e) => flag_member(t@, key@) == Err::<bool, Seq<char>>(e@),
        },
{
    match t.get(key) {
        None => Ok(false),
        Some(TomlValue::Boolean(b)) => Ok(*b),
        Some(_) => Err(wrong_type_message(key, "a boolean")),
    }
}

/// The shape a `shape` value names.
pub fn shape_from_name(s: &str) -> (r: Option<FolderShape>)
    ensures
        r == shape_named(s@),
{
    if crate::text::str_eq(s, "numbered-tiers") {
        Some(FolderShape::NumberedTiers)
    } else if crate::text::str_eq(s, "flat") {
        Some(FolderShape::Flat)
    } else if crate::text::str_eq(s, "by-domain") {
        Some(FolderShape::ByDomain)
    } else if crate::text::str_eq(s, "custom") {
        Some(FolderShape::Custom)
    } else {
        None
    }
}

fn folder_rules_of(doc: &TomlValue) -> (r: Result<FolderShape, String>)
    ensures
        match r {
            Ok(s) => folder_rules_member(doc@) == Ok::<FolderShape, Seq<char>>(s),
            Err(e) => folder_rules_member(doc@) == Err::<FolderShape, Seq<char>>(e@),
        },
{
    match doc.get("folder_rules") {
        None => Err(missing_field_message("folder_rules")),
        Some(fr) => match fr {
            TomlValue::Table(_) => match fr.get("shape") {
                None => Err(missing_field_message("shape")),
                Some(TomlValue::Text(s)) => match shape_from_name(s.as_str()) {
                    Some(sh) => Ok(sh),
                    None => {
                        let mut m = String::from_str("unknown variant `");
                        m.append(s.as_str());
                        m.append("`, expected one of `numbered-tiers`, `flat`, `by-domain`, `custom`");
                        Err(m)
                    },
                },
                Some(_) => Err(wrong_type_message("shape", "a string")),
            },
            _ => Err(wrong_type_message("folder_rules", "a table")),
        },
    }
}

fn frontmatter_of(doc: &TomlValue) -> (r: Result<Option<FrontmatterRef>, String>)
    ensures
        match r {
            Ok(f) => frontmatter_member(doc@) == Ok::<Option<Seq<char>>, Seq<char>>(match f { Some(x) => Some(x.schema@), None => None }),
            Err(e) => frontmatter_member(doc@) == Err::<Option<Seq<char>>, Seq<char>>(e@),
        },
{
    match doc.get("frontmatter") {
        None => Ok(None),
        Some(f) => match f {
            TomlValue::Table(_) => match text_member_of(f, "schema") {
                Ok(s) => Ok(Some(FrontmatterRef { schema: s })),
                Err(e) => Err(e),
            },
            _ => Err(wrong_type_message("frontmatter", "a table")),
        },
    }
}

fn invariants_of(doc: &TomlValue) -> (r: Result<Option<Invariants>, String>)
    ensures
        match r {
            Ok(i) => invariants_member(doc@) == Ok::<Option<InvariantsModel>, Seq<char>>(match i {
                Some(x) => Some(InvariantsModel {
                    index_required: x.index_required,
                    gaps_folder: match x.gaps_folder { Some(g) => Some(g@), None => None },
                    atomic_file_gate: x.atomic_file_gate,
                }),
                None => None,
            }),
            Err(e) => invariants_member(doc@) == Err::<Option<InvariantsModel>, Seq<char>>(e@),
        },
{
    match doc.get("invariants") {
        None => Ok(None),
        Some(inv) => match inv {
            TomlValue::Table(_) => {
                let ir = match flag_member_of(inv, "index_required") {
                    Ok(b) => b,
                    Err(e) => return Err(e),
                };
                let gf = match inv.get("gaps_folder") {
                    Some(TomlValue::Text(g)) => Some(g.clone()),
                    Some(_) => return Err(wrong_type_message("gaps_folder", "a string")),
                    None => None,
                };
                let ag = match flag_member_of(inv, "atomic_file_gate") {
                    Ok(b) => b,
                    Err(e) => return Err(e),
                };
                Ok(Some(Invariants { index_required: ir, gaps_folder: gf, atomic_file_gate: ag }))
            },
            _ => Err(wrong_type_message("invariants", "a table")),
        },
    }
}

/// Reads a manifest from a parsed TOML document.
pub fn manifest_from_toml(doc: &TomlValue) -> (r: Result<TemplateManifest, String>)
    ensures
        match r {
            Ok(m) => manifest_of_document(doc@) == Ok::<ManifestModel, Seq<char>>(manifest_model(m)),
            Err(e) => manifest_of_document(doc@) == Err::<ManifestModel, Seq<char>>(e@),
        },
{
    let name = match text_member_of(doc, "name") {
        Ok(s) => s,
        Err(e) => return Err(e),
    };
    let version = match text_member_of(doc, "version") {
        Ok(s) => s,
        Err(e) => return Err(e),
    };
    let description = match text_member_of(doc, "description") {
        Ok(s) => s,
        Err(e) => return Err(e),
    };
    let shape = match folder_rules_of(doc) {
        Ok(s) => s,
        Err(e) => return Err(e),
    };
    let frontmatter = match frontmatter_of(doc) {
        Ok(f) => f,
        Err(e) => return Err(e),
    };
    let invariants = match invariants_of(doc) {
        Ok(i) => i,
        Err(e) => return Err(e),
    };
    let naming_conventions = match doc.get("naming_conventions") {
        None => None,
        Some(TomlValue::Table(_)) => Some(NamingConventions {}),
        Some(_) => return Err(wrong_type_message("naming_conventions", "a table")),
    };
    let m = TemplateManifest {
        name,
        version,
        description,
        folder_rules: FolderRules { shape },
        frontmatter,
        invariants,
        naming_conventions,
    };
    proof {
        assert(manifest_of_document(doc@) == Ok::<ManifestModel, Seq<char>>(manifest_model(m)));
    }
    Ok(m)
}

/// Parses manifest text: a TOML syntax error or a structural problem is
/// returned as its message.
pub fn manifest_from_text(content: &str) -> (r: Result<TemplateManifest, String>)
    ensures
        match r {
            Ok(m) => manifest_of_text(content@) == Ok::<ManifestModel, Seq<char>>(manifest_model(m)),
            Err(e) => manifest_of_text(content@) == Err::<ManifestModel, Seq<char>>(e@),
        },
{
    match parse_toml(content) {
        Err(e) => Err(e),
        Ok(doc) => manifest_from_toml(&doc),
    }
}

} // verus!
