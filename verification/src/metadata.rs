use crate::text::{decimal, push_decimal};
use vstd::prelude::*;

verus! {

/// One field of an image's embedded metadata, as it was read: the name of
/// its tag, the number of the image file directory that holds it, and its
/// value written out for display, unit included.
#[derive(Clone, Debug, PartialEq, Eq)]
pub struct RawField {
    pub tag: String,
    pub directory: u16,
    pub value: String,
}

/// A [`RawField`] as plain values.
pub struct FieldView {
    pub tag: Seq<char>,
    pub directory: u16,
    pub value: Seq<char>,
}

impl View for RawField {
    type V = FieldView;

    open spec fn view(&self) -> FieldView {
        FieldView { tag: self.tag@, directory: self.directory, value: self.value@ }
    }
}

/// The fields of `fields`, each as plain values.
pub open spec fn field_views(fields: Seq<RawField>) -> Seq<FieldView> {
    fields.map_values(|f: RawField| f@)
}

/// The key under which a field is filed: the name of its tag, a space, and
/// the number of its directory in decimal.
pub open spec fn field_key(tag: Seq<char>, directory: u16) -> Seq<char> {
    tag + seq![' '] + decimal(directory as nat)
}

/// The mapping that a run of fields gives: each field's value under its key.
/// Where two fields share a key, the later one stays.
pub open spec fn mapping_of(fields: Seq<FieldView>) -> Map<Seq<char>, Seq<char>>
    decreases fields.len(),
{
    if fields.len() == 0 {
        Map::empty()
    } else {
        mapping_of(fields.drop_last()).insert(
            field_key(fields.last().tag, fields.last().directory),
            fields.last().value,
        )
    }
}

/// One entry of a [`Metadata`] mapping.
#[derive(Clone, Debug, PartialEq, Eq)]
pub struct MetadataEntry {
    pub key: String,
    pub value: String,
}

/// Whether no two entries of `entries` have the same key.
pub open spec fn distinct_keys(entries: Seq<MetadataEntry>) -> bool {
    forall|i: int, j: int|
        0 <= i < entries.len() && 0 <= j < entries.len() && i != j ==> (#[trigger] entries[i]).key@
            != (#[trigger] entries[j]).key@
}

/// Whether `entries` holds an entry with the key `key` at place `i`.
pub open spec fn has_key_at(entries: Seq<MetadataEntry>, key: Seq<char>, i: int) -> bool {
    0 <= i < entries.len() && entries[i].key@ == key
}

/// The mapping that a list of entries stands for.
pub open spec fn entries_map(entries: Seq<MetadataEntry>) -> Map<Seq<char>, Seq<char>> {
    Map::new(
        |key: Seq<char>| exists|i: int| has_key_at(entries, key, i),
        |key: Seq<char>| entries[choose|i: int| has_key_at(entries, key, i)].value@,
    )
}

/// A mapping from keys to display values, kept in the order in which the
/// keys first came in.
#[derive(Debug)]
pub struct Metadata {
    entries: Vec<MetadataEntry>,
}

impl View for Metadata {
    type V = Map<Seq<char>, Seq<char>>;

    closed spec fn view(&self) -> Map<Seq<char>, Seq<char>> {
        entries_map(self.entries@)
    }
}

impl Metadata {
    #[verifier::type_invariant]
    spec fn no_key_twice(self) -> bool {
        distinct_keys(self.entries@)
    }

    /// The mapping without entries.
    pub fn new() -> (meta: Metadata)
        ensures
            meta@ == Map::<Seq<char>, Seq<char>>::empty(),
    {
        let meta = Metadata { entries: Vec::new() };
        assert(meta@ =~= Map::<Seq<char>, Seq<char>>::empty());
        meta
    }

    /// The entries, each key once, in the order in which the keys first came
    /// in.
    pub fn entries(&self) -> (entries: &Vec<MetadataEntry>)
        ensures
            distinct_keys(entries@),
            self@ == entries_map(entries@),
    {
        proof {
            use_type_invariant(self);
        }
        &self.entries
    }

    /// The number of entries.
    pub fn len(&self) -> (n: usize)
        ensures
            n == self@.dom().len(),
            self@.dom().finite(),
    {
        proof {
            use_type_invariant(self);
            lemma_entries_map_len(self.entries@);
        }
        self.entries.len()
    }

    /// Whether the mapping has no entry.
    pub fn is_empty(&self) -> (empty: bool)
        ensures
            empty == (self@ == Map::<Seq<char>, Seq<char>>::empty()),
    {
        proof {
            use_type_invariant(self);
            lemma_entries_map_len(self.entries@);
            if self.entries@.len() == 0 {
                assert(self@ =~= Map::<Seq<char>, Seq<char>>::empty());
            } else {
                assert(has_key_at(self.entries@, self.entries@[0].key@, 0));
                assert(self@.dom().contains(self.entries@[0].key@));
            }
        }
        self.entries.len() == 0
    }

    /// The place of the entry with the key `key`, if there is one.
    fn position(&self, key: &String) -> (found: Option<usize>)
        ensures
            match found {
                Some(i) => has_key_at(self.entries@, key@, i as int),
                None => forall|i: int| !has_key_at(self.entries@, key@, i),
            },
    {
        let mut i: usize = 0;
        while i < self.entries.len()
            invariant
                i <= self.entries@.len(),
                forall|j: int| 0 <= j < i ==> !has_key_at(self.entries@, key@, j),
            decreases self.entries@.len() - i,
        {
            if self.entries[i].key == *key {
                return Some(i);
            }
            i += 1;
        }
        None
    }

    /// The value under `key`, if the mapping has one.
    pub fn get(&self, key: &str) -> (value: Option<&String>)
        ensures
            match value {
                Some(v) => self@.dom().contains(key@) && self@[key@] == v@,
                None => !self@.dom().contains(key@),
            },
    {
        proof {
            use_type_invariant(self);
        }
        let owned = key.to_owned();
        match self.position(&owned) {
            Some(i) => {
                proof {
                    lemma_entry_is_mapped(self.entries@, i as int);
                }
                Some(&self.entries[i].value)
            },
            None => None,
        }
    }

    /// Whether the mapping has a value under `key`.
    pub fn contains_key(&self, key: &str) -> (present: bool)
        ensures
            present == self@.dom().contains(key@),
    {
        self.get(key).is_some()
    }

    /// Files `value` under `key`, in place of what was there.
    pub fn insert(&mut self, key: String, value: String)
        ensures
            final(self)@ == old(self)@.insert(key@, value@),
    {
        proof {
            use_type_invariant(&*self);
        }
        let found = self.position(&key);
        let ghost before = self.entries@;
        let ghost k = key@;
        let ghost v = value@;
        let mut entries: Vec<MetadataEntry> = Vec::new();
        std::mem::swap(&mut self.entries, &mut entries);
        match found {
            Some(i) => {
                entries.set(i, MetadataEntry { key, value });
                proof {
                    lemma_replace_is_insert(before, entries@, i as int, k, v);
                }
            },
            None => {
                entries.push(MetadataEntry { key, value });
                proof {
                    lemma_push_is_insert(before, entries@, k, v);
                }
            },
        }
        std::mem::swap(&mut self.entries, &mut entries);
    }
}

/// With distinct keys, each entry's value is what the mapping holds under
/// its key.
pub proof fn lemma_entry_is_mapped(entries: Seq<MetadataEntry>, i: int)
    requires
        distinct_keys(entries),
        0 <= i < entries.len(),
    ensures
        entries_map(entries).dom().contains(entries[i].key@),
        entries_map(entries)[entries[i].key@] == entries[i].value@,
{
    let key = entries[i].key@;
    assert(has_key_at(entries, key, i));
    let j = choose|j: int| has_key_at(entries, key, j);
    assert(j == i);
}

proof fn lemma_replace_is_insert(
    before: Seq<MetadataEntry>,
    after: Seq<MetadataEntry>,
    i: int,
    key: Seq<char>,
    value: Seq<char>,
)
    requires
        distinct_keys(before),
        has_key_at(before, key, i),
        after.len() == before.len(),
        after[i].key@ == key,
        after[i].value@ == value,
        forall|j: int| 0 <= j < before.len() && j != i ==> after[j] == before[j],
    ensures
        distinct_keys(after),
        entries_map(after) == entries_map(before).insert(key, value),
{
    assert forall|a: int, b: int|
        0 <= a < after.len() && 0 <= b < after.len() && a != b implies (#[trigger] after[a]).key@
        != (#[trigger] after[b]).key@ by {
        assert(after[a].key@ == before[a].key@);
        assert(after[b].key@ == before[b].key@);
    }
    let left = entries_map(after);
    let right = entries_map(before).insert(key, value);
    assert forall|k: Seq<char>| left.dom().contains(k) <==> right.dom().contains(k) by {
        if left.dom().contains(k) {
            let j = choose|j: int| has_key_at(after, k, j);
            assert(has_key_at(before, k, j));
        }
        if right.dom().contains(k) {
            if k == key {
                assert(has_key_at(after, k, i));
            } else {
                let j = choose|j: int| has_key_at(before, k, j);
                assert(has_key_at(after, k, j));
            }
        }
    }
    assert forall|k: Seq<char>| left.dom().contains(k) implies left[k] == right[k] by {
        let j = choose|j: int| has_key_at(after, k, j);
        lemma_entry_is_mapped(after, j);
        if k != key {
            assert(j != i);
            lemma_entry_is_mapped(before, j);
        } else {
            assert(j == i);
        }
    }
    assert(left =~= right);
}

proof fn lemma_push_is_insert(
    before: Seq<MetadataEntry>,
    after: Seq<MetadataEntry>,
    key: Seq<char>,
    value: Seq<char>,
)
    requires
        distinct_keys(before),
        forall|i: int| !has_key_at(before, key, i),
        after.len() == before.len() + 1,
        after.last().key@ == key,
        after.last().value@ == value,
        forall|j: int| 0 <= j < before.len() ==> after[j] == before[j],
    ensures
        distinct_keys(after),
        entries_map(after) == entries_map(before).insert(key, value),
{
    let n = before.len() as int;
    assert forall|a: int, b: int|
        0 <= a < after.len() && 0 <= b < after.len() && a != b implies (#[trigger] after[a]).key@
        != (#[trigger] after[b]).key@ by {
        if a < n && b < n {
            assert(after[a].key@ == before[a].key@);
            assert(after[b].key@ == before[b].key@);
        } else if a < n {
            assert(!has_key_at(before, key, a));
        } else {
            assert(!has_key_at(before, key, b));
        }
    }
    let left = entries_map(after);
    let right = entries_map(before).insert(key, value);
    assert forall|k: Seq<char>| left.dom().contains(k) <==> right.dom().contains(k) by {
        if left.dom().contains(k) {
            let j = choose|j: int| has_key_at(after, k, j);
            if j < n {
                assert(has_key_at(before, k, j));
            }
        }
        if right.dom().contains(k) {
            if k == key {
                assert(has_key_at(after, k, n));
            } else {
                let j = choose|j: int| has_key_at(before, k, j);
                assert(has_key_at(after, k, j));
            }
        }
    }
    assert forall|k: Seq<char>| left.dom().contains(k) implies left[k] == right[k] by {
        let j = choose|j: int| has_key_at(after, k, j);
        lemma_entry_is_mapped(after, j);
        if k != key {
            assert(j < n);
            lemma_entry_is_mapped(before, j);
        } else {
            assert(!has_key_at(before, key, j));
        }
    }
    assert(left =~= right);
}

/// With distinct keys, the mapping has as many keys as there are entries.
proof fn lemma_entries_map_len(entries: Seq<MetadataEntry>)
    requires
        distinct_keys(entries),
    ensures
        entries_map(entries).dom().finite(),
        entries_map(entries).dom().len() == entries.len(),
    decreases entries.len(),
{
    if entries.len() == 0 {
        assert(entries_map(entries).dom() =~= Set::<Seq<char>>::empty());
    } else {
        let head = entries.drop_last();
        let last = entries.last();
        lemma_entries_map_len(head);
        assert forall|i: int| !has_key_at(head, last.key@, i) by {
            if has_key_at(head, last.key@, i) {
                assert(entries[i].key@ == entries[entries.len() - 1].key@);
            }
        }
        lemma_push_is_insert(head, entries, last.key@, last.value@);
        assert(!entries_map(head).dom().contains(last.key@));
        assert(entries_map(entries).dom() =~= entries_map(head).dom().insert(last.key@));
    }
}

/// The key of a field whose tag is called `tag` and which lies in the
/// directory numbered `directory`.
pub fn field_key_string(tag: &str, directory: u16) -> (key: String)
    ensures
        key@ == field_key(tag@, directory),
{
    proof {
        reveal_strlit(" ");
    }
    let mut key = tag.to_owned();
    key.append(" ");
    assert(" "@ =~= seq![' ']);
    push_decimal(&mut key, directory as u64);
    key
}

/// Files each field's value under its key, the fields taken in order.
pub fn mapping(fields: &Vec<RawField>) -> (meta: Metadata)
    ensures
        meta@ == mapping_of(field_views(fields@)),
{
    let mut meta = Metadata::new();
    let ghost views = field_views(fields@);
    let mut i: usize = 0;
    while i < fields.len()
        invariant
            i <= fields@.len(),
            views == field_views(fields@),
            meta@ == mapping_of(views.take(i as int)),
        decreases fields@.len() - i,
    {
        let field = &fields[i];
        let key = field_key_string(field.tag.as_str(), field.directory);
        meta.insert(key, field.value.clone());
        proof {
            assert(views.take(i + 1).drop_last() =~= views.take(i as int));
            assert(views.take(i + 1).last() == fields@[i as int]@);
        }
        i += 1;
    }
    proof {
        assert(views.take(i as int) =~= views);
    }
    meta
}

/// What the parser of the `exif` crate finds in `content`: the fields of the
/// embedded metadata in the order in which it lists them, or nothing where
/// it finds no container that it can read.
pub uninterp spec fn container_fields(content: Seq<u8>) -> Option<Seq<FieldView>>;

/// The mapping that `content` gives: that of its fields, and the empty one
/// where it holds no metadata that can be read.
pub open spec fn extracted(content: Seq<u8>) -> Map<Seq<char>, Seq<char>> {
    match container_fields(content) {
        Some(fields) => mapping_of(fields),
        None => Map::empty(),
    }
}

/// Calls `exif::Reader::read_from_container` on `content` and hands out each
/// field that `exif::Exif::fields` lists: the tag as its `Display` writes it,
/// the directory number from `exif::In::index`, and the value as
/// `exif::Field::display_value` writes it with the unit that the other
/// fields give. Taken on trust: that the call returns, and that its result
/// depends on `content` alone. An error of the parser becomes `None`.
#[verifier::external_body]
fn read_container(content: &[u8]) -> (fields: Option<Vec<RawField>>)
    ensures
        match fields {
            Some(found) => container_fields(content@) == Some(field_views(found@)),
            None => container_fields(content@) is None,
        },
{
    match exif::Reader::new().read_from_container(&mut std::io::Cursor::new(content)) {
        Ok(found) => Some(
            found.fields().map(|f| RawField {
                tag: f.tag.to_string(),
                directory: f.ifd_num.index(),
                value: f.display_value().with_unit(&found).to_string(),
            }).collect(),
        ),
        Err(_) => None,
    }
}

/// The metadata embedded in `content`. Content without metadata that can be
/// read gives the empty mapping: that is no failure.
pub fn extract(content: &[u8]) -> (meta: Metadata)
    ensures
        meta@ == extracted(content@),
{
    match read_container(content) {
        Some(fields) => mapping(&fields),
        None => Metadata::new(),
    }
}

/// Every field is filed: the mapping of a run of fields holds the key of
/// each of them.
pub proof fn lemma_every_field_has_its_key(fields: Seq<FieldView>, i: int)
    requires
        0 <= i < fields.len(),
    ensures
        mapping_of(fields).dom().contains(field_key(fields[i].tag, fields[i].directory)),
    decreases fields.len(),
{
    if i < fields.len() - 1 {
        lemma_every_field_has_its_key(fields.drop_last(), i);
    }
}

/// Nothing else is filed: each key of the mapping is the key of a field, and
/// its value is that of the last field with this key.
pub proof fn lemma_every_key_has_its_field(fields: Seq<FieldView>, key: Seq<char>) -> (i: int)
    requires
        mapping_of(fields).dom().contains(key),
    ensures
        0 <= i < fields.len(),
        field_key(fields[i].tag, fields[i].directory) == key,
        mapping_of(fields)[key] == fields[i].value,
        forall|j: int|
            i < j < fields.len() ==> field_key(
                (#[trigger] fields[j]).tag,
                fields[j].directory,
            ) != key,
    decreases fields.len(),
{
    let last = fields.last();
    if field_key(last.tag, last.directory) == key {
        fields.len() - 1
    } else {
        let head = fields.drop_last();
        let i = lemma_every_key_has_its_field(head, key);
        assert forall|j: int| i < j < fields.len() implies field_key(
            (#[trigger] fields[j]).tag,
            fields[j].directory,
        ) != key by {
            if j < head.len() {
                assert(head[j] == fields[j]);
            }
        }
        i
    }
}

/// Content in which no metadata can be read gives the empty mapping, and
/// content in which fields are found gives a mapping that holds the key of
/// each of them.
pub proof fn lemma_extracted_holds_what_was_found(content: Seq<u8>, i: int)
    ensures
        container_fields(content) is None ==> extracted(content) == Map::<
            Seq<char>,
            Seq<char>,
        >::empty(),
        container_fields(content) matches Some(fields) ==> (0 <= i < fields.len()
            ==> extracted(content).dom().contains(
            field_key(fields[i].tag, fields[i].directory),
        )),
{
    if let Some(fields) = container_fields(content) {
        if 0 <= i < fields.len() {
            lemma_every_field_has_its_key(fields, i);
        }
    }
}

} // verus!
