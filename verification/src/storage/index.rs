//! Packfiles: many objects in one byte string, with an index by hash.
use vstd::prelude::*;
use vstd::slice::slice_subrange;
use vstd::string::*;
use crate::error::{CoreError, ErrorView, Result};
use crate::outside::json::{
    json_field, json_list_document, json_pretty, json_str, json_u64, list_view, list_view_items,
    parse_json_list, plain, render_json_pretty, Json, JsonView,
};
use crate::text::{cat2, str_eq};
use crate::types::clone_bytes;

verus! {

/// Where an object lies in a packfile.
#[derive(Debug, PartialEq, Eq)]
pub struct IndexEntry {
    /// Byte offset of the object.
    pub offset: u64,
    /// Length of the object in bytes.
    pub length: u64,
    /// The object's hash.
    pub hash: String,
}

/// Offset and length of an object in a packfile.
pub struct Place {
    pub offset: u64,
    pub length: u64,
}

/// What an [`IndexEntry`] says.
pub struct RowView {
    pub hash: Seq<char>,
    pub place: Place,
}

impl View for IndexEntry {
    type V = RowView;

    open spec fn view(&self) -> RowView {
        RowView {
            hash: self.hash@,
            place: Place { offset: self.offset, length: self.length },
        }
    }
}

/// What index entries say.
pub open spec fn rows(v: Seq<IndexEntry>) -> Seq<RowView> {
    Seq::new(v.len(), |i: int| v[i]@)
}

/// The places by hash; of several rows with one hash the last counts.
pub open spec fn places(s: Seq<RowView>) -> Map<Seq<char>, Place>
    decreases s.len(),
{
    if s.len() == 0 {
        Map::empty()
    } else {
        places(s.drop_last()).insert(s.last().hash, s.last().place)
    }
}

/// Whether no hash occurs twice.
pub open spec fn hashes_distinct(s: Seq<RowView>) -> bool {
    forall|i: int, j: int| 0 <= i < j < s.len() ==> #[trigger] s[i].hash != #[trigger] s[j].hash
}

proof fn places_of_distinct(s: Seq<RowView>)
    requires
        hashes_distinct(s),
    ensures
        places(s).dom().finite(),
        places(s).len() == s.len(),
        forall|i: int|
            0 <= i < s.len() ==> places(s).contains_key(#[trigger] s[i].hash)
                && places(s)[s[i].hash] == s[i].place,
        forall|k: Seq<char>|
            #[trigger] places(s).contains_key(k) ==> exists|i: int|
                0 <= i < s.len() && #[trigger] s[i].hash == k,
    decreases s.len(),
{
    if s.len() > 0 {
        let d = s.drop_last();
        assert(forall|i: int| 0 <= i < d.len() ==> d[i] == s[i]);
        places_of_distinct(d);
        assert(places(s) == places(d).insert(s.last().hash, s.last().place));
        assert forall|i: int| 0 <= i < s.len() implies places(s).contains_key(
            #[trigger] s[i].hash,
        ) && places(s)[s[i].hash] == s[i].place by {
            if i < d.len() {
                assert(places(d).contains_key(d[i].hash));
                assert(s[i].hash != s[s.len() - 1].hash);
            }
        }
        assert forall|k: Seq<char>| #[trigger] places(s).contains_key(k) implies exists|i: int|
            0 <= i < s.len() && #[trigger] s[i].hash == k by {
            if k == s.last().hash {
                assert(s[s.len() - 1].hash == k);
            } else {
                assert(places(d).contains_key(k));
                let i = choose|i: int| 0 <= i < d.len() && d[i].hash == k;
                assert(s[i].hash == k);
            }
        }
        if places(d).contains_key(s.last().hash) {
            let i = choose|i: int| 0 <= i < d.len() && d[i].hash == s.last().hash;
            assert(s[i].hash != s[s.len() - 1].hash);
        }
    }
}

/// An index from object hashes to places in a packfile.
#[derive(Debug)]
pub struct PackIndex {
    entries: Vec<IndexEntry>,
}

impl View for PackIndex {
    type V = Map<Seq<char>, Place>;

    open spec fn view(&self) -> Map<Seq<char>, Place> {
        places(self.row_list())
    }
}

impl PackIndex {
    /// The rows of the index.
    pub closed spec fn row_list(self) -> Seq<RowView> {
        rows(self.entries@)
    }

    /// No hash has two rows.
    pub open spec fn wf(self) -> bool {
        hashes_distinct(self.row_list())
    }

    /// An empty index.
    pub fn new() -> (r: Self)
        ensures
            r.wf(),
            r@ == Map::<Seq<char>, Place>::empty(),
            r.row_list().len() == 0,
    {
        PackIndex { entries: Vec::new() }
    }

    fn position(&self, hash: &str) -> (r: Option<usize>)
        requires
            self.wf(),
        ensures
            match r {
                Some(i) => i < self.entries@.len() && self.entries@[i as int].hash@ == hash@,
                None => !self@.contains_key(hash@),
            },
            r matches Some(i) ==> self@.contains_key(hash@) && self@[hash@]
                == self.entries@[i as int]@.place,
    {
        proof {
            places_of_distinct(self.row_list());
        }
        let ghost list = self.row_list();
        let mut i: usize = 0;
        while i < self.entries.len()
            invariant
                i <= self.entries@.len(),
                list == rows(self.entries@),
                list == self.row_list(),
                hashes_distinct(list),
                forall|k: int| 0 <= k < i ==> (#[trigger] list[k]).hash != hash@,
                forall|k: int|
                    0 <= k < list.len() ==> self@.contains_key(#[trigger] list[k].hash)
                        && self@[list[k].hash] == list[k].place,
            decreases self.entries@.len() - i,
        {
            assert(list[i as int] == self.entries@[i as int]@);
            if str_eq(self.entries[i].hash.as_str(), hash) {
                assert(list[i as int].hash == hash@);
                return Some(i);
            }
            i += 1;
        }
        None
    }

    /// Adds an entry, in place of an earlier one with the same hash.
    pub fn insert(&mut self, entry: IndexEntry)
        requires
            old(self).wf(),
        ensures
            final(self).wf(),
            final(self)@ == old(self)@.insert(entry.hash@, entry@.place),
    {
        let ghost before = self.row_list();
        let ghost row = entry@;
        proof {
            places_of_distinct(before);
        }
        match self.position(entry.hash.as_str()) {
            Some(i) => {
                self.entries.set(i, entry);
                proof {
                    let after = self.row_list();
                    assert(after =~= before.update(i as int, row));
                    assert(before[i as int].hash == row.hash);
                    assert forall|k: int| 0 <= k < after.len() implies #[trigger] after[k].hash
                        == before[k].hash by {}
                    assert(hashes_distinct(after));
                    places_of_distinct(after);
                    assert(places(after) =~= places(before).insert(row.hash, row.place)) by {
                        assert forall|k: Seq<char>| #[trigger] places(after).contains_key(
                            k,
                        ) implies places(before).contains_key(k) by {
                            let j = choose|j: int| 0 <= j < after.len() && after[j].hash == k;
                            assert(before[j].hash == k);
                        }
                        assert forall|k: Seq<char>| #[trigger] places(before).contains_key(
                            k,
                        ) implies places(after).contains_key(k) by {
                            let j = choose|j: int| 0 <= j < before.len() && before[j].hash == k;
                            assert(after[j].hash == k);
                        }
                        assert forall|k: Seq<char>| #[trigger] places(after).contains_key(
                            k,
                        ) implies places(after)[k] == places(before).insert(row.hash, row.place)[k] by {
                            let j = choose|j: int| 0 <= j < after.len() && after[j].hash == k;
                            assert(places(after)[after[j].hash] == after[j].place);
                            if j == i {
                            } else {
                                assert(places(before)[before[j].hash] == before[j].place);
                                if j < i {
                                    assert(before[j].hash != before[i as int].hash);
                                } else {
                                    assert(before[i as int].hash != before[j].hash);
                                }
                            }
                        }
                    }
                }
            },
            None => {
                self.entries.push(entry);
                proof {
                    let after = self.row_list();
                    assert(after =~= before.push(row));
                    assert(after.drop_last() =~= before);
                    assert forall|i: int, j: int| 0 <= i < j < after.len() implies #[trigger] after[i].hash
                        != #[trigger] after[j].hash by {
                        if j == before.len() {
                            assert(places(before).contains_key(before[i].hash));
                        } else {
                            assert(before[i].hash != before[j].hash);
                        }
                    }
                }
            },
        }
    }

    /// The entry of an object.
    pub fn get(&self, hash: &str) -> (r: Option<&IndexEntry>)
        requires
            self.wf(),
        ensures
            match r {
                Some(e) => e.hash@ == hash@ && self@.contains_key(hash@) && self@[hash@]
                    == e@.place,
                None => !self@.contains_key(hash@),
            },
    {
        match self.position(hash) {
            Some(i) => Some(&self.entries[i]),
            None => None,
        }
    }

    /// Number of entries.
    pub fn len(&self) -> (r: usize)
        requires
            self.wf(),
        ensures
            r == self@.len(),
    {
        proof {
            places_of_distinct(self.row_list());
        }
        self.entries.len()
    }

    /// Whether there are no entries.
    pub fn is_empty(&self) -> (r: bool)
        requires
            self.wf(),
        ensures
            r == (self@.len() == 0),
    {
        proof {
            places_of_distinct(self.row_list());
        }
        self.entries.len() == 0
    }

    /// Every entry once.
    pub fn iter(&self) -> (r: &[IndexEntry])
        ensures
            rows(r@) == self.row_list(),
    {
        self.entries.as_slice()
    }
}

/// An object in a pack: its hash and its bytes.
pub struct PackedView {
    pub hash: Seq<char>,
    pub data: Seq<u8>,
}

/// The bytes of packed objects, one behind the other.
pub open spec fn pack_of(objects: Seq<PackedView>) -> Seq<u8>
    decreases objects.len(),
{
    if objects.len() == 0 {
        Seq::empty()
    } else {
        pack_of(objects.drop_last()) + objects.last().data
    }
}

/// The bytes by hash; of several objects with one hash the last counts.
pub open spec fn latest(objects: Seq<PackedView>) -> Map<Seq<char>, Seq<u8>>
    decreases objects.len(),
{
    if objects.len() == 0 {
        Map::empty()
    } else {
        latest(objects.drop_last()).insert(objects.last().hash, objects.last().data)
    }
}

/// Where each hash's latest object begins and how long it is.
pub open spec fn locations(objects: Seq<PackedView>) -> Map<Seq<char>, Place>
    decreases objects.len(),
{
    if objects.len() == 0 {
        Map::empty()
    } else {
        locations(objects.drop_last()).insert(
            objects.last().hash,
            Place {
                offset: pack_of(objects.drop_last()).len() as u64,
                length: objects.last().data.len() as u64,
            },
        )
    }
}

/// The part of a pack that a place names.
pub open spec fn cut(pack: Seq<u8>, place: Place) -> Seq<u8> {
    pack.subrange(place.offset as int, place.offset + place.length)
}

/// A pack gives back what was put into it: at the place recorded for a hash lie
/// the bytes last appended under that hash.
pub proof fn pack_gives_back(objects: Seq<PackedView>, hash: Seq<char>)
    requires
        pack_of(objects).len() <= u64::MAX,
        latest(objects).contains_key(hash),
    ensures
        locations(objects).contains_key(hash),
        locations(objects)[hash].offset + locations(objects)[hash].length <= pack_of(objects).len(),
        cut(pack_of(objects), locations(objects)[hash]) == latest(objects)[hash],
    decreases objects.len(),
{
    let d = objects.drop_last();
    if objects.last().hash == hash {
        assert(cut(pack_of(objects), locations(objects)[hash]) =~= latest(objects)[hash]);
    } else {
        pack_gives_back(d, hash);
        assert(cut(pack_of(objects), locations(objects)[hash]) =~= cut(
            pack_of(d),
            locations(d)[hash],
        ));
    }
}

/// A row of the index file as a JSON object.
pub open spec fn row_json(row: RowView) -> JsonView {
    JsonView::Fields(
        map!["hash"@ => JsonView::Text(row.hash)].insert(
            "offset"@,
            JsonView::Unsigned(row.place.offset),
        ).insert("length"@, JsonView::Unsigned(row.place.length)),
    )
}

/// The index file: an array of rows.
pub open spec fn index_json(list: Seq<RowView>) -> JsonView {
    JsonView::List(list.map_values(|row: RowView| row_json(row)))
}

/// The row that a JSON value stands for; missing numbers are zero, a missing
/// hash is empty.
pub open spec fn json_row(j: JsonView) -> RowView {
    RowView {
        hash: match json_str(json_field(j, "hash"@)) {
            Some(s) => s,
            None => Seq::empty(),
        },
        place: Place {
            offset: match json_u64(json_field(j, "offset"@)) {
                Some(n) => n,
                None => 0,
            },
            length: match json_u64(json_field(j, "length"@)) {
                Some(n) => n,
                None => 0,
            },
        },
    }
}

/// The rows that the items of an index file stand for.
pub open spec fn json_rows(items: Seq<JsonView>) -> Seq<RowView> {
    items.map_values(|j: JsonView| json_row(j))
}

proof fn row_reads_back(row: RowView)
    ensures
        json_row(row_json(row)) == row,
        plain(row_json(row), 1),
{
    reveal_strlit("hash");
    reveal_strlit("offset");
    reveal_strlit("length");
    assert("hash"@.len() == 4 && "offset"@.len() == 6 && "length"@.len() == 6);
    assert("offset"@[0] == 'o' && "length"@[0] == 'l');
    assert("hash"@ != "offset"@ && "hash"@ != "length"@ && "offset"@ != "length"@);
    let m = map!["hash"@ => JsonView::Text(row.hash)].insert(
        "offset"@,
        JsonView::Unsigned(row.place.offset),
    ).insert("length"@, JsonView::Unsigned(row.place.length));
    assert(m.dom().finite());
    assert forall|k: Seq<char>| m.contains_key(k) implies plain(#[trigger] m[k], 0) by {}
}

proof fn rows_read_back(list: Seq<RowView>)
    ensures
        json_rows(index_json(list)->List_0) == list,
        plain(index_json(list), 127),
{
    let items = index_json(list)->List_0;
    assert forall|i: int| 0 <= i < items.len() implies json_row(#[trigger] items[i]) == list[i]
        && plain(items[i], 126) by {
        row_reads_back(list[i]);
        plain_deeper(items[i], 1, 126);
    }
    assert(json_rows(items) =~= list);
}

proof fn plain_deeper(j: JsonView, shallow: nat, deep: nat)
    requires
        plain(j, shallow),
        shallow <= deep,
    ensures
        plain(j, deep),
    decreases shallow,
{
    match j {
        JsonView::List(v) => {
            assert forall|i: int| 0 <= i < v.len() implies plain(
                #[trigger] v[i],
                (deep - 1) as nat,
            ) by {
                plain_deeper(v[i], (shallow - 1) as nat, (deep - 1) as nat);
            }
        },
        JsonView::Fields(m) => {
            assert forall|k: Seq<char>| m.contains_key(k) implies plain(
                #[trigger] m[k],
                (deep - 1) as nat,
            ) by {
                plain_deeper(m[k], (shallow - 1) as nat, (deep - 1) as nat);
            }
        },
        _ => {},
    }
}

/// Collects objects for a packfile and its index.
#[derive(Debug)]
pub struct PackWriter {
    objects: Vec<(String, Vec<u8>)>,
    index: PackIndex,
    offset: u64,
}

impl PackWriter {
    /// The objects in the order they were appended.
    pub closed spec fn appended(self) -> Seq<PackedView> {
        Seq::new(
            self.objects@.len(),
            |i: int| PackedView { hash: self.objects@[i].0@, data: self.objects@[i].1@ },
        )
    }

    /// The rows of the index.
    pub closed spec fn index_rows(self) -> Seq<RowView> {
        self.index.row_list()
    }

    /// The index names where every hash's latest object lies.
    pub closed spec fn wf(self) -> bool {
        &&& self.index.wf()
        &&& self.offset == pack_of(self.appended()).len()
        &&& self.index@ == locations(self.appended())
    }

    /// A pack with nothing in it.
    pub fn new() -> (r: Self)
        ensures
            r.wf(),
            r.appended().len() == 0,
            r.index_rows().len() == 0,
    {
        let r = PackWriter { objects: Vec::new(), index: PackIndex::new(), offset: 0 };
        assert(r.appended() =~= Seq::<PackedView>::empty());
        r
    }

    /// Appends an object.
    pub fn append(&mut self, hash: String, data: Vec<u8>)
        requires
            old(self).wf(),
            pack_of(old(self).appended()).len() + data@.len() <= u64::MAX,
        ensures
            final(self).wf(),
            final(self).appended() == old(self).appended().push(
                PackedView { hash: hash@, data: data@ },
            ),
    {
        let ghost before = self.appended();
        let length: u64 = data.len() as u64;
        self.index.insert(IndexEntry { offset: self.offset, length, hash: hash.clone() });
        self.objects.push((hash, data));
        self.offset = self.offset + length;
        proof {
            assert(self.appended() =~= before.push(PackedView { hash: hash@, data: data@ }));
            assert(self.appended().drop_last() =~= before);
        }
    }

    /// The index built so far.
    pub fn index(&self) -> (r: &PackIndex)
        requires
            self.wf(),
        ensures
            r.wf(),
            r@ == locations(self.appended()),
            r.row_list() == self.index_rows(),
    {
        &self.index
    }

    /// The bytes of the packfile.
    pub fn pack_bytes(&self) -> (r: Vec<u8>)
        ensures
            r@ == pack_of(self.appended()),
    {
        let mut out: Vec<u8> = Vec::new();
        let ghost list = self.appended();
        let mut i: usize = 0;
        assert(out@ =~= pack_of(list.take(0)));
        while i < self.objects.len()
            invariant
                i <= self.objects@.len(),
                list == self.appended(),
                out@ == pack_of(list.take(i as int)),
            decreases self.objects@.len() - i,
        {
            assert(list.take(i + 1).drop_last() =~= list.take(i as int));
            assert(list.take(i + 1).last().data == self.objects@[i as int].1@);
            let ghost before = out@;
            out.extend_from_slice(self.objects[i].1.as_slice());
            assert(out@ =~= before + self.objects@[i as int].1@);
            i += 1;
        }
        assert(list.take(i as int) =~= list);
        out
    }

    /// The text of the index file.
    pub fn index_text(&self) -> (r: Result<String>)
        requires
            self.wf(),
        ensures
            r is Ok,
            r->Ok_0@ == json_pretty(index_json(self.index_rows())),
    {
        let ghost list = self.index_rows();
        let entries = self.index.iter();
        let mut items: Vec<Json> = Vec::new();
        let mut i: usize = 0;
        while i < entries.len()
            invariant
                i <= entries@.len(),
                rows(entries@) == list,
                items@.len() == i,
                forall|k: int| 0 <= k < i ==> (#[trigger] items@[k])@ == row_json(list[k]),
            decreases entries@.len() - i,
        {
            assert(list[i as int] == entries@[i as int]@);
            let row = Json::object1("hash", Json::text(entries[i].hash.as_str())).with(
                "offset",
                Json::Unsigned(entries[i].offset),
            ).with("length", Json::Unsigned(entries[i].length));
            items.push(row);
            i += 1;
        }
        proof {
            list_view_items(items@);
            assert(list_view(items@) =~= list.map_values(|row: RowView| row_json(row)));
        }
        match render_json_pretty(&Json::List(items)) {
            Ok(text) => Ok(text),
            Err(e) => Err(CoreError::Serialization(e)),
        }
    }
}

impl Default for PackWriter {
    fn default() -> (r: Self)
        ensures
            r.wf(),
            r.appended().len() == 0,
            r.index_rows().len() == 0,
    {
        PackWriter::new()
    }
}

/// Random access to the objects of a packfile.
#[derive(Debug)]
pub struct PackReader {
    pack_path: String,
    index: PackIndex,
}

impl PackReader {
    /// Where the objects lie.
    pub closed spec fn index_map(self) -> Map<Seq<char>, Place> {
        self.index@
    }

    /// The index holds no hash twice.
    pub closed spec fn wf(self) -> bool {
        self.index.wf()
    }

    /// The packfile's path.
    pub closed spec fn path_text(self) -> Seq<char> {
        self.pack_path@
    }

    /// Opens a packfile, given the text of its index file. An index file written
    /// for some rows gives an index with those rows.
    pub fn open(pack_path: String, index_text: std::result::Result<String, String>) -> (r: Result<
        Self,
    >)
        ensures
            match index_text {
                Err(e) => r is Err && r->Err_0@ == ErrorView::StorageIo("read index: "@ + e@),
                Ok(text) => match json_list_document(text@) {
                    Err(e) => r is Err && r->Err_0@ == ErrorView::Serialization(
                        "parse index: "@ + e,
                    ),
                    Ok(items) => r is Ok && r->Ok_0.wf() && r->Ok_0.index_map() == places(
                        json_rows(items),
                    ),
                },
            },
            forall|list: Seq<RowView>|
                index_text is Ok && index_text->Ok_0@ == #[trigger] json_pretty(index_json(list))
                    ==> r is Ok && r->Ok_0.wf() && r->Ok_0.index_map() == places(list),
            r is Ok ==> r->Ok_0.path_text() == pack_path@,
    {
        let text = match index_text {
            Err(e) => {
                return Err(CoreError::StorageIo(cat2("read index: ", e.as_str())));
            },
            Ok(text) => text,
        };
        proof {
            assert forall|list: Seq<RowView>| text@ == #[trigger] json_pretty(
                index_json(list),
            ) implies plain(index_json(list), 127) && json_rows(index_json(list)->List_0)
                == list by {
                rows_read_back(list);
            }
        }
        let items = match parse_json_list(text.as_str()) {
            Err(e) => {
                return Err(CoreError::Serialization(cat2("parse index: ", e.as_str())));
            },
            Ok(items) => items,
        };
        let ghost views = list_view(items@);
        proof {
            list_view_items(items@);
        }
        let mut index = PackIndex::new();
        let mut i: usize = 0;
        assert(places(json_rows(views.take(0))) =~= Map::<Seq<char>, Place>::empty());
        while i < items.len()
            invariant
                i <= items@.len(),
                views == list_view(items@),
                views.len() == items@.len(),
                forall|k: int| 0 <= k < items@.len() ==> #[trigger] views[k] == items@[k]@,
                index.wf(),
                index@ == places(json_rows(views.take(i as int))),
            decreases items@.len() - i,
        {
            let item = &items[i];
            assert(views[i as int] == item@);
            let offset: u64 = match item.u64_field("offset") {
                Some(n) => n,
                None => 0,
            };
            let length: u64 = match item.u64_field("length") {
                Some(n) => n,
                None => 0,
            };
            let hash = match item.str_field("hash") {
                Some(s) => String::from_str(s),
                None => String::new(),
            };
            index.insert(IndexEntry { offset, length, hash });
            proof {
                let done = json_rows(views.take(i + 1));
                assert(done.drop_last() =~= json_rows(views.take(i as int)));
                assert(done.last() == json_row(item@));
            }
            i += 1;
        }
        assert(views.take(i as int) =~= views);
        Ok(PackReader { pack_path, index })
    }

    /// The packfile's path.
    pub fn pack_path(&self) -> (r: &str)
        ensures
            r@ == self.path_text(),
    {
        self.pack_path.as_str()
    }

    /// Reads an object out of the bytes of the packfile.
    pub fn read(&self, hash: &str, pack: &[u8]) -> (r: Result<Vec<u8>>)
        requires
            self.wf(),
        ensures
            if !self.index_map().contains_key(hash@) {
                r is Err && r->Err_0@ == ErrorView::ObjectNotFound(hash@)
            } else {
                let place = self.index_map()[hash@];
                if place.length == 0 || place.offset + place.length <= pack@.len() {
                    r is Ok && r->Ok_0@ =~= (if place.length == 0 {
                        Seq::empty()
                    } else {
                        cut(pack@, place)
                    })
                } else {
                    r is Err && r->Err_0@ == ErrorView::StorageIo(
                        "read pack: failed to fill whole buffer"@,
                    )
                }
            },
    {
        match self.index.get(hash) {
            None => Err(CoreError::ObjectNotFound(String::from_str(hash))),
            Some(entry) => {
                let size: u64 = pack.len() as u64;
                if entry.length == 0 {
                    Ok(Vec::new())
                } else if entry.length <= size && entry.offset <= size - entry.length {
                    let from: usize = entry.offset as usize;
                    let to: usize = (entry.offset + entry.length) as usize;
                    Ok(clone_bytes(slice_subrange(pack, from, to)))
                } else {
                    Err(
                        CoreError::StorageIo(
                            String::from_str("read pack: failed to fill whole buffer"),
                        ),
                    )
                }
            },
        }
    }

    /// Whether an object is in the packfile.
    pub fn contains(&self, hash: &str) -> (r: bool)
        requires
            self.wf(),
        ensures
            r == self.index_map().contains_key(hash@),
    {
        match self.index.get(hash) {
            Some(_) => true,
            None => false,
        }
    }
}

/// What a written pack gives back once it is reopened. A reader that was opened
/// on the index a writer wrote finds every hash that was appended, and the pack
/// holds the bytes last appended under it.
pub proof fn reopened_pack_gives_back(writer: PackWriter, reader: PackReader, hash: Seq<char>)
    requires
        writer.wf(),
        pack_of(writer.appended()).len() <= u64::MAX,
        reader.index_map() == places(writer.index_rows()),
        latest(writer.appended()).contains_key(hash),
    ensures
        reader.index_map().contains_key(hash),
        reader.index_map()[hash].offset + reader.index_map()[hash].length <= pack_of(
            writer.appended(),
        ).len(),
        cut(pack_of(writer.appended()), reader.index_map()[hash]) == latest(
            writer.appended(),
        )[hash],
{
    pack_gives_back(writer.appended(), hash);
}

} // verus!
