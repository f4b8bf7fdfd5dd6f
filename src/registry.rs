//! A user's registry: each label the user chose names one authorized device.
use crate::document::{
    document_view, parse_toml, toml_document, DocumentModel, FieldValue, TableModel, TomlEntry,
    TomlField,
};
use vstd::prelude::*;

verus! {

/// A class of USB device, told apart by its vendor and product identifiers.
#[derive(Clone, Copy, Debug, PartialEq, Eq, Structural)]
pub struct DeviceConfig {
    pub vendor_id: u16,
    pub product_id: u16,
}

/// Why a registry could not be read.
#[derive(Clone, Copy, Debug, PartialEq, Eq, Structural)]
pub enum ConfigError {
    /// The file exists but could not be read.
    Unreadable,
    /// The text is not a TOML document.
    Syntax,
    /// A label does not hold a table with both identifiers in the 16-bit range.
    InvalidEntry,
    /// A label occurs twice.
    DuplicateLabel,
}

/// The last value given to field `name` in a table, if any.
pub open spec fn field_of(fields: TableModel, name: Seq<char>) -> Option<FieldValue>
    decreases fields.len(),
{
    if fields.len() == 0 {
        None
    } else if fields.last().0 == name {
        Some(fields.last().1)
    } else {
        field_of(fields.drop_last(), name)
    }
}

/// A field's value as an identifier: an integer from 0 to 65535.
pub open spec fn identifier_of(v: Option<FieldValue>) -> Option<u16> {
    match v {
        Some(FieldValue::Integer(i)) => if 0 <= i <= 65535 {
            Some(i as u16)
        } else {
            None
        },
        _ => None,
    }
}

/// The device that a top-level value describes: a table whose `vendor_id`
/// and `product_id` are identifiers. Other fields are ignored.
pub open spec fn device_of(table: Option<TableModel>) -> Option<DeviceConfig> {
    match table {
        Some(f) => match (
            identifier_of(field_of(f, "vendor_id"@)),
            identifier_of(field_of(f, "product_id"@)),
        ) {
            (Some(v), Some(p)) => Some(DeviceConfig { vendor_id: v, product_id: p }),
            _ => None,
        },
        None => None,
    }
}

pub open spec fn entries_valid(doc: DocumentModel) -> bool {
    forall|i: int| 0 <= i < doc.len() ==> device_of(#[trigger] doc[i].1) is Some
}

pub open spec fn labels_distinct<T>(s: Seq<(Seq<char>, T)>) -> bool {
    forall|i: int, j: int|
        0 <= i < s.len() && 0 <= j < s.len() && i != j ==> #[trigger] s[i].0 != #[trigger] s[j].0
}

/// The labelled devices of a document whose entries are all valid.
pub open spec fn document_pairs(doc: DocumentModel) -> Seq<(Seq<char>, DeviceConfig)> {
    doc.map_values(|e: (Seq<char>, Option<TableModel>)| (e.0, device_of(e.1)->Some_0))
}

/// The mapping that a sequence of labelled devices gives.
pub open spec fn map_of(s: Seq<(Seq<char>, DeviceConfig)>) -> Map<Seq<char>, DeviceConfig>
    decreases s.len(),
{
    if s.len() == 0 {
        Map::empty()
    } else {
        map_of(s.drop_last()).insert(s.last().0, s.last().1)
    }
}

/// What a parsed document gives: its mapping, or the first kind of fault found.
pub open spec fn document_result(doc: DocumentModel) -> Result<
    Map<Seq<char>, DeviceConfig>,
    ConfigError,
> {
    if !entries_valid(doc) {
        Err(ConfigError::InvalidEntry)
    } else if !labels_distinct(doc) {
        Err(ConfigError::DuplicateLabel)
    } else {
        Ok(map_of(document_pairs(doc)))
    }
}

/// What a registry text gives.
pub open spec fn text_result(text: Seq<char>) -> Result<Map<Seq<char>, DeviceConfig>, ConfigError> {
    match toml_document(text) {
        None => Err(ConfigError::Syntax),
        Some(doc) => document_result(doc),
    }
}

/// The value last given to field `name` in a table.
fn field_value(fields: &Vec<TomlField>, name: &str) -> (r: Option<FieldValue>)
    ensures
        r == field_of(fields@.map_values(|f: TomlField| f@), name@),
{
    let ghost model = fields@.map_values(|f: TomlField| f@);
    let key = name.to_owned();
    let mut found: Option<FieldValue> = None;
    let mut i: usize = 0;
    while i < fields.len()
        invariant
            i <= fields@.len(),
            model == fields@.map_values(|f: TomlField| f@),
            key@ == name@,
            found == field_of(model.take(i as int), name@),
        decreases fields@.len() - i,
    {
        proof {
            assert(model.take(i + 1).drop_last() =~= model.take(i as int));
            assert(model.take(i + 1).last() == fields@[i as int]@);
        }
        if fields[i].name == key {
            found = Some(fields[i].value);
        }
        i = i + 1;
    }
    assert(model.take(i as int) =~= model);
    found
}

/// A field's value as an identifier, if it is an integer from 0 to 65535.
fn identifier(v: Option<FieldValue>) -> (r: Option<u16>)
    ensures
        r == identifier_of(v),
{
    match v {
        Some(FieldValue::Integer(i)) => if 0 <= i && i <= 65535 {
            Some(i as u16)
        } else {
            None
        },
        _ => None,
    }
}

/// The device that one top-level entry of a document describes.
pub fn device_from_entry(entry: &TomlEntry) -> (r: Option<DeviceConfig>)
    ensures
        r == device_of(entry@.1),
{
    match &entry.table {
        Some(fields) => {
            let v = identifier(field_value(fields, "vendor_id"));
            let p = identifier(field_value(fields, "product_id"));
            match (v, p) {
                (Some(v), Some(p)) => Some(DeviceConfig { vendor_id: v, product_id: p }),
                _ => None,
            }
        },
        None => None,
    }
}

/// Builds the registry from a parsed document: every top-level value must
/// describe a device, and no label may occur twice.
pub fn registry_from_document(doc: &Vec<TomlEntry>) -> (r: Result<Registry, ConfigError>)
    ensures
        well_formed(r),
        loaded(r) == document_result(document_view(doc@)),
{
    let ghost dv = document_view(doc@);
    let mut entries: Vec<(String, DeviceConfig)> = Vec::new();
    let mut i: usize = 0;
    while i < doc.len()
        invariant
            i <= doc@.len(),
            dv == document_view(doc@),
            entries@.len() == i,
            forall|k: int| 0 <= k < i ==> device_of(#[trigger] dv[k].1) is Some,
            forall|k: int|
                0 <= k < i ==> (#[trigger] entries@[k]).0@ == dv[k].0 && entries@[k].1
                    == device_of(dv[k].1)->Some_0,
        decreases doc@.len() - i,
    {
        match device_from_entry(&doc[i]) {
            Some(d) => {
                entries.push((doc[i].label.clone(), d));
            },
            None => {
                assert(dv[i as int] == doc@[i as int]@);
                assert(!entries_valid(dv));
                return Err(ConfigError::InvalidEntry);
            },
        }
        i = i + 1;
    }
    let reg = Registry { entries };
    let ghost pairs = reg.pairs();
    assert(entries_valid(dv));
    assert(pairs =~= document_pairs(dv));
    let mut i: usize = 0;
    while i < reg.entries.len()
        invariant
            i <= pairs.len(),
            pairs == reg.pairs(),
            pairs == document_pairs(dv),
            pairs.len() == dv.len(),
            entries_valid(dv),
            dv == document_view(doc@),
            forall|a: int, b: int|
                0 <= a < i && 0 <= b < i && a != b ==> #[trigger] pairs[a].0 != #[trigger] pairs[b].0,
        decreases pairs.len() - i,
    {
        let mut j: usize = 0;
        while j < i
            invariant
                j <= i < pairs.len(),
                pairs == reg.pairs(),
                pairs == document_pairs(dv),
                pairs.len() == dv.len(),
                entries_valid(dv),
                dv == document_view(doc@),
            dv == document_view(doc@),
                forall|b: int| 0 <= b < j ==> pairs[b].0 != pairs[i as int].0,
            decreases i - j,
        {
            if reg.entries[j].0 == reg.entries[i].0 {
                assert(pairs[j as int].0 == reg.entries@[j as int].0@);
                assert(pairs[i as int].0 == reg.entries@[i as int].0@);
                assert(pairs[j as int].0 == dv[j as int].0);
                assert(pairs[i as int].0 == dv[i as int].0);
                assert(!labels_distinct(dv));
                return Err(ConfigError::DuplicateLabel);
            }
            j = j + 1;
        }
        i = i + 1;
    }
    assert(labels_distinct(dv)) by {
        assert forall|a: int, b: int|
            0 <= a < dv.len() && 0 <= b < dv.len() && a != b implies #[trigger] dv[a].0
            != #[trigger] dv[b].0 by {
            assert(pairs[a].0 == dv[a].0 && pairs[b].0 == dv[b].0);
        }
    }
    Ok(reg)
}

/// Reads a registry from its text.
pub fn parse_registry(text: &str) -> (r: Result<Registry, ConfigError>)
    ensures
        well_formed(r),
        loaded(r) == text_result(text@),
{
    match parse_toml(text) {
        Ok(doc) => registry_from_document(&doc),
        Err(e) => Err(config_error_from_toml(e)),
    }
}

/// A text that is not TOML is a syntax fault of the registry.
fn config_error_from_toml(_e: toml::de::Error) -> (r: ConfigError)
    ensures
        r == ConfigError::Syntax,
{
    ConfigError::Syntax
}

/// Reads a user's registry from the contents of the user's registry file,
/// `None` where there is no such file: that user registered nothing.
pub fn parse_config(contents: Option<&str>) -> (r: Result<Registry, ConfigError>)
    ensures
        well_formed(r),
        match contents {
            None => loaded(r) == Ok::<_, ConfigError>(Map::<Seq<char>, DeviceConfig>::empty()),
            Some(text) => loaded(r) == text_result(text@),
        },
{
    match contents {
        None => Ok(Registry::new()),
        Some(text) => parse_registry(text),
    }
}

/// The mapping from label to authorized device.
pub struct Registry {
    entries: Vec<(String, DeviceConfig)>,
}

impl Registry {
    pub closed spec fn pairs(&self) -> Seq<(Seq<char>, DeviceConfig)> {
        self.entries@.map_values(|e: (String, DeviceConfig)| (e.0@, e.1))
    }

    /// No label occurs twice.
    pub closed spec fn wf(&self) -> bool {
        labels_distinct(self.pairs())
    }

    /// The empty registry: the user registered nothing.
    pub fn new() -> (r: Registry)
        ensures
            r.wf(),
            r@ == Map::<Seq<char>, DeviceConfig>::empty(),
    {
        let r = Registry { entries: Vec::new() };
        assert(r.pairs() =~= Seq::empty());
        r
    }

    /// The number of labels.
    pub fn len(&self) -> (n: usize)
        requires
            self.wf(),
        ensures
            n == self@.len(),
    {
        proof {
            lemma_map_of_distinct(self.pairs());
        }
        self.entries.len()
    }

    /// The device that `label` names, if any.
    pub fn get(&self, label: &str) -> (r: Option<DeviceConfig>)
        requires
            self.wf(),
        ensures
            r == (if self@.contains_key(label@) {
                Some(self@[label@])
            } else {
                None
            }),
    {
        proof {
            lemma_map_of_distinct(self.pairs());
        }
        let key = label.to_owned();
        let mut i: usize = 0;
        while i < self.entries.len()
            invariant
                i <= self.entries@.len(),
                self.wf(),
                key@ == label@,
                forall|k: int| 0 <= k < i ==> self.pairs()[k].0 != label@,
            decreases self.entries@.len() - i,
        {
            assert(self.pairs()[i as int] == (self.entries@[i as int].0@, self.entries@[i as int].1));
            if self.entries[i].0 == key {
                proof {
                    lemma_map_of_distinct(self.pairs());
                    assert(self@.contains_key(self.pairs()[i as int].0));
                }
                return Some(self.entries[i].1);
            }
            i = i + 1;
        }
        proof {
            lemma_map_of_distinct(self.pairs());
        }
        None
    }

    /// Whether some label names `device`.
    pub fn contains_device(&self, device: DeviceConfig) -> (b: bool)
        requires
            self.wf(),
        ensures
            b == holds_device(self@, device),
    {
        let mut i: usize = 0;
        while i < self.entries.len()
            invariant
                i <= self.entries@.len(),
                self.wf(),
                forall|k: int| 0 <= k < i ==> self.entries@[k].1 != device,
            decreases self.entries@.len() - i,
        {
            if self.entries[i].1 == device {
                proof {
                    lemma_map_of_distinct(self.pairs());
                }
                assert(self.pairs()[i as int].1 == device);
                assert(self@.contains_key(self.pairs()[i as int].0));
                return true;
            }
            i = i + 1;
        }
        proof {
            lemma_map_of_distinct(self.pairs());
            assert forall|l: Seq<char>| #[trigger] self@.contains_key(l) implies self@[l] != device by {
                let k = choose|k: int| 0 <= k < self.pairs().len() && self.pairs()[k].0 == l;
                assert(self.pairs()[k].1 == self.entries@[k].1);
            }
        }
        false
    }
}

impl View for Registry {
    type V = Map<Seq<char>, DeviceConfig>;

    open spec fn view(&self) -> Map<Seq<char>, DeviceConfig> {
        map_of(self.pairs())
    }
}

/// The mapping that a load gives, or its error.
pub open spec fn loaded(r: Result<Registry, ConfigError>) -> Result<
    Map<Seq<char>, DeviceConfig>,
    ConfigError,
> {
    match r {
        Ok(reg) => Ok(reg@),
        Err(e) => Err(e),
    }
}

/// A loaded registry has distinct labels.
pub open spec fn well_formed(r: Result<Registry, ConfigError>) -> bool {
    r matches Ok(reg) ==> reg.wf()
}

/// Some label of the mapping names `device`.
pub open spec fn holds_device(reg: Map<Seq<char>, DeviceConfig>, device: DeviceConfig) -> bool {
    exists|l: Seq<char>| reg.contains_key(l) && reg[l] == device
}

/// With distinct labels, the mapping holds exactly the labels of `s`, each
/// with its own device.
pub proof fn lemma_map_of_distinct(s: Seq<(Seq<char>, DeviceConfig)>)
    requires
        labels_distinct(s),
    ensures
        map_of(s).dom().finite(),
        map_of(s).len() == s.len(),
        forall|i: int|
            0 <= i < s.len() ==> #[trigger] map_of(s).contains_key(s[i].0) && map_of(s)[s[i].0]
                == s[i].1,
        forall|l: Seq<char>| #[trigger]
            map_of(s).contains_key(l) ==> exists|i: int| 0 <= i < s.len() && s[i].0 == l,
    decreases s.len(),
{
    if s.len() > 0 {
        let p = s.drop_last();
        assert(labels_distinct(p)) by {
            assert forall|i: int, j: int|
                0 <= i < p.len() && 0 <= j < p.len() && i != j implies #[trigger] p[i].0
                != #[trigger] p[j].0 by {
                assert(p[i] == s[i] && p[j] == s[j]);
            }
        }
        lemma_map_of_distinct(p);
        let last = s.len() - 1;
        assert(!map_of(p).contains_key(s[last].0)) by {
            if map_of(p).contains_key(s[last].0) {
                let i = choose|i: int| 0 <= i < p.len() && p[i].0 == s[last].0;
                assert(s[i].0 == s[last].0);
            }
        }
        assert forall|i: int| 0 <= i < s.len() implies #[trigger] map_of(s).contains_key(s[i].0)
            && map_of(s)[s[i].0] == s[i].1 by {
            if i < last {
                assert(p[i] == s[i]);
                assert(s[i].0 != s[last].0);
            }
        }
        assert forall|l: Seq<char>| #[trigger] map_of(s).contains_key(l) implies exists|i: int|
            0 <= i < s.len() && s[i].0 == l by {
            if l != s[last].0 {
                let i = choose|i: int| 0 <= i < p.len() && p[i].0 == l;
                assert(s[i] == p[i]);
            }
        }
    }
}

/// A document whose labels are distinct and whose entries all describe a
/// device loads as a mapping with one label per entry, each label holding the
/// identifiers written under it.
pub proof fn lemma_round_trip(doc: DocumentModel)
    requires
        entries_valid(doc),
        labels_distinct(doc),
    ensures
        document_result(doc) is Ok,
        document_result(doc)->Ok_0.len() == doc.len(),
        forall|i: int|
            0 <= i < doc.len() ==> #[trigger] document_result(doc)->Ok_0.contains_key(doc[i].0)
                && document_result(doc)->Ok_0[doc[i].0] == device_of(doc[i].1)->Some_0,
        forall|l: Seq<char>| #[trigger]
            document_result(doc)->Ok_0.contains_key(l) ==> exists|i: int|
                0 <= i < doc.len() && doc[i].0 == l,
{
    let pairs = document_pairs(doc);
    assert(labels_distinct(pairs)) by {
        assert forall|a: int, b: int|
            0 <= a < pairs.len() && 0 <= b < pairs.len() && a != b implies #[trigger] pairs[a].0
            != #[trigger] pairs[b].0 by {
            assert(pairs[a].0 == doc[a].0 && pairs[b].0 == doc[b].0);
        }
    }
    lemma_map_of_distinct(pairs);
    let m = map_of(pairs);
    assert forall|i: int| 0 <= i < doc.len() implies #[trigger] m.contains_key(doc[i].0) && m[doc[i].0]
        == device_of(doc[i].1)->Some_0 by {
        assert(pairs[i].0 == doc[i].0);
    }
    assert forall|l: Seq<char>| #[trigger] m.contains_key(l) implies exists|i: int|
        0 <= i < doc.len() && doc[i].0 == l by {
        let i = choose|i: int| 0 <= i < pairs.len() && pairs[i].0 == l;
        assert(doc[i].0 == l);
    }
}

/// The order in which a well-formed document lists its labels does not change
/// the registry it loads as: `other` lists the entries of `doc` in the order
/// that the permutation `perm` gives.
pub proof fn lemma_order_independent(doc: DocumentModel, other: DocumentModel, perm: Seq<int>)
    requires
        entries_valid(doc),
        labels_distinct(doc),
        other.len() == doc.len(),
        perm.len() == doc.len(),
        forall|j: int| 0 <= j < perm.len() ==> 0 <= #[trigger] perm[j] < doc.len(),
        forall|j: int, k: int|
            0 <= j < perm.len() && 0 <= k < perm.len() && j != k ==> #[trigger] perm[j]
                != #[trigger] perm[k],
        forall|i: int| 0 <= i < doc.len() ==> #[trigger] perm.contains(i),
        forall|j: int| 0 <= j < other.len() ==> #[trigger] other[j] == doc[perm[j]],
    ensures
        document_result(other) == document_result(doc),
{
    assert(entries_valid(other)) by {
        assert forall|j: int| 0 <= j < other.len() implies device_of(#[trigger] other[j].1) is Some by {
            assert(other[j] == doc[perm[j]]);
        }
    }
    assert(labels_distinct(other)) by {
        assert forall|a: int, b: int|
            0 <= a < other.len() && 0 <= b < other.len() && a != b implies #[trigger] other[a].0
            != #[trigger] other[b].0 by {
            assert(other[a] == doc[perm[a]] && other[b] == doc[perm[b]]);
            assert(perm[a] != perm[b]);
        }
    }
    lemma_round_trip(doc);
    lemma_round_trip(other);
    let m1 = document_result(doc)->Ok_0;
    let m2 = document_result(other)->Ok_0;
    assert forall|l: Seq<char>| #[trigger] m1.contains_key(l) implies m2.contains_key(l) && m2[l]
        == m1[l] by {
        let i = choose|i: int| 0 <= i < doc.len() && doc[i].0 == l;
        assert(perm.contains(i));
        let j = choose|j: int| 0 <= j < perm.len() && perm[j] == i;
        assert(other[j] == doc[i]);
        assert(m2.contains_key(other[j].0));
    }
    assert forall|l: Seq<char>| #[trigger] m2.contains_key(l) implies m1.contains_key(l) by {
        let j = choose|j: int| 0 <= j < other.len() && other[j].0 == l;
        assert(other[j] == doc[perm[j]]);
        assert(m1.contains_key(doc[perm[j]].0));
    }
    assert(m1 =~= m2);
}

/// An entry that is not a table, lacks an identifier, or gives one above
/// 65535 makes the whole document a configuration error: nothing of it loads.
pub proof fn lemma_malformed_rejected(doc: DocumentModel, i: int)
    requires
        0 <= i < doc.len(),
        match doc[i].1 {
            None => true,
            Some(t) => {
                ||| field_of(t, "vendor_id"@) is None
                ||| field_of(t, "product_id"@) is None
                ||| (field_of(t, "vendor_id"@) matches Some(FieldValue::Integer(v)) && v > 65535)
                ||| (field_of(t, "product_id"@) matches Some(FieldValue::Integer(v)) && v > 65535)
            },
        },
    ensures
        document_result(doc) == Err::<Map<Seq<char>, DeviceConfig>, _>(ConfigError::InvalidEntry),
{
    assert(device_of(doc[i].1) is None);
}

} // verus!
