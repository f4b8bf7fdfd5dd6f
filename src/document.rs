//! The parsed form of a registry file, as far as the registry reads it.
use vstd::prelude::*;

verus! {

/// A value stored under a field of a device table.
#[derive(Clone, Copy, Debug, PartialEq, Eq, Structural)]
pub enum FieldValue {
    Integer(i64),
    /// A string, float, boolean, date, array or table.
    Other,
}

/// One `name = value` pair of a device table.
pub struct TomlField {
    pub name: String,
    pub value: FieldValue,
}

/// One top-level key of the document, with its fields when it holds a table.
pub struct TomlEntry {
    pub label: String,
    pub table: Option<Vec<TomlField>>,
}

/// The abstract form of a table: its fields in order.
pub type TableModel = Seq<(Seq<char>, FieldValue)>;

/// The abstract form of a document: its top-level keys in order, each with
/// its table, or `None` where the value is not a table.
pub type DocumentModel = Seq<(Seq<char>, Option<TableModel>)>;

impl View for TomlField {
    type V = (Seq<char>, FieldValue);

    open spec fn view(&self) -> (Seq<char>, FieldValue) {
        (self.name@, self.value)
    }
}

impl View for TomlEntry {
    type V = (Seq<char>, Option<TableModel>);

    open spec fn view(&self) -> (Seq<char>, Option<TableModel>) {
        (
            self.label@,
            match self.table {
                Some(t) => Some(t@.map_values(|f: TomlField| f@)),
                None => None,
            },
        )
    }
}

pub open spec fn document_view(d: Seq<TomlEntry>) -> DocumentModel {
    d.map_values(|e: TomlEntry| e@)
}

/// What the TOML parser makes of a text: `None` where the text is not TOML.
pub uninterp spec fn toml_document(text: Seq<char>) -> Option<DocumentModel>;

#[verifier::external_type_specification]
#[verifier::external_body]
pub struct ExTomlError(toml::de::Error);

/// Relies on `toml::from_str` into a `toml::Table`: the text is parsed as a
/// TOML document, each top-level key is handed back with its value.
#[verifier::external_body]
pub(crate) fn parse_toml(text: &str) -> (r: Result<Vec<TomlEntry>, toml::de::Error>)
    ensures
        match r {
            Ok(d) => toml_document(text@) == Some(document_view(d@)),
            Err(_) => toml_document(text@) is None,
        },
{
    let t = toml::from_str::<toml::Table>(text)?;
    Ok(t.into_iter().map(|(label, v)| TomlEntry { label, table: match v {
        toml::Value::Table(f) => Some(f.into_iter().map(|(name, x)| TomlField { name, value: match x {
            toml::Value::Integer(i) => FieldValue::Integer(i),
            _ => FieldValue::Other,
        } }).collect()),
        _ => None,
    } }).collect())
}

} // verus!
