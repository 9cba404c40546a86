//! The archive store: schema validation, one-time metadata extraction, and
//! the coordinate-keyed tile and UTFGrid queries.

use vstd::prelude::*;
use vstd::pervasive::VecAdditionalExecFns;

use crate::db::{
    query_core_table_count, query_first_grid_blob, query_first_tile_blob, query_grid_blob,
    query_grid_data_rows, query_grid_table_count, query_metadata_rows, query_tile_blob, Connection,
    ConnectionPool,
};
use crate::error::{
    is_conn_pool, is_database, is_invalid_data_format, is_io_error, is_missing_table, is_not_found,
    is_unknown_tile_format, BaseError, TileError,
};
use crate::json::{json_string_array_member, json_wf, parse_json, string_array_member_of};
use crate::parsing::{
    spec_float_entries, spec_parse_u32, float_entries, parse_u32, str_eq, views_of,
};
use crate::tile_format::{spec_classify, DataFormat, get_data_format};

verus! {

/// Descriptive metadata of one archive, computed once when the archive is
/// opened and read-only thereafter. Bounds and center entries are kept as
/// the numeric texts the archive stored.
pub struct TileMeta {
    pub name: Option<String>,
    pub version: Option<String>,
    pub tilejson: String,
    pub scheme: String,
    pub id: String,
    pub tile_format: DataFormat,
    pub grid_format: Option<DataFormat>,
    pub bounds: Option<Vec<String>>,
    pub center: Option<Vec<String>>,
    pub minzoom: Option<u32>,
    pub maxzoom: Option<u32>,
    pub description: Option<String>,
    pub attribution: Option<String>,
    pub layer_type: Option<String>,
    pub legend: Option<String>,
    pub template: Option<String>,
    pub json: Option<serde_json::Value>,
}

/// The mathematical reading of a `TileMeta`: every text as a character
/// sequence, and the free-form JSON blob by its presence (its value is
/// opaque).
pub ghost struct MetaModel {
    pub name: Option<Seq<char>>,
    pub version: Option<Seq<char>>,
    pub tilejson: Seq<char>,
    pub scheme: Seq<char>,
    pub id: Seq<char>,
    pub tile_format: DataFormat,
    pub grid_format: Option<DataFormat>,
    pub bounds: Option<Seq<Seq<char>>>,
    pub center: Option<Seq<Seq<char>>>,
    pub minzoom: Option<u32>,
    pub maxzoom: Option<u32>,
    pub description: Option<Seq<char>>,
    pub attribution: Option<Seq<char>>,
    pub layer_type: Option<Seq<char>>,
    pub legend: Option<Seq<char>>,
    pub template: Option<Seq<char>>,
    pub json_present: bool,
}

pub open spec fn opt_view(o: Option<String>) -> Option<Seq<char>> {
    match o {
        Some(s) => Some(s@),
        None => None,
    }
}

pub open spec fn opt_views(o: Option<Vec<String>>) -> Option<Seq<Seq<char>>> {
    match o {
        Some(v) => Some(views_of(v@)),
        None => None,
    }
}

impl TileMeta {
    pub open spec fn model(&self) -> MetaModel {
        MetaModel {
            name: opt_view(self.name),
            version: opt_view(self.version),
            tilejson: self.tilejson@,
            scheme: self.scheme@,
            id: self.id@,
            tile_format: self.tile_format,
            grid_format: self.grid_format,
            bounds: opt_views(self.bounds),
            center: opt_views(self.center),
            minzoom: self.minzoom,
            maxzoom: self.maxzoom,
            description: opt_view(self.description),
            attribution: opt_view(self.attribution),
            layer_type: opt_view(self.layer_type),
            legend: opt_view(self.legend),
            template: opt_view(self.template),
            json_present: self.json is Some,
        }
    }
}

/// One metadata row folded onto the record. An empty value is excluded
/// from iteration entirely; recognized labels set their field, `bounds`
/// and `center` keep their float entries, `minzoom`/`maxzoom`/`json` are
/// parsed strictly and fail the whole read when malformed; unrecognized
/// labels are ignored.
pub open spec fn spec_apply_row(m: MetaModel, label: Seq<char>, value: Seq<char>) -> Option<
    MetaModel,
> {
    if value.len() == 0 {
        Some(m)
    } else if label == "name"@ {
        Some(MetaModel { name: Some(value), ..m })
    } else if label == "version"@ {
        Some(MetaModel { version: Some(value), ..m })
    } else if label == "bounds"@ {
        Some(MetaModel { bounds: Some(spec_float_entries(value)), ..m })
    } else if label == "center"@ {
        Some(MetaModel { center: Some(spec_float_entries(value)), ..m })
    } else if label == "minzoom"@ {
        match spec_parse_u32(value) {
            Some(z) => Some(MetaModel { minzoom: Some(z), ..m }),
            None => None,
        }
    } else if label == "maxzoom"@ {
        match spec_parse_u32(value) {
            Some(z) => Some(MetaModel { maxzoom: Some(z), ..m }),
            None => None,
        }
    } else if label == "description"@ {
        Some(MetaModel { description: Some(value), ..m })
    } else if label == "attribution"@ {
        Some(MetaModel { attribution: Some(value), ..m })
    } else if label == "type"@ {
        Some(MetaModel { layer_type: Some(value), ..m })
    } else if label == "legend"@ {
        Some(MetaModel { legend: Some(value), ..m })
    } else if label == "template"@ {
        Some(MetaModel { template: Some(value), ..m })
    } else if label == "json"@ {
        if json_wf(value) {
            Some(MetaModel { json_present: true, ..m })
        } else {
            None
        }
    } else {
        Some(m)
    }
}

/// The whole metadata read: rows folded left to right, failing as soon as
/// a strictly parsed field is malformed.
pub open spec fn spec_fold_rows(m: MetaModel, rows: Seq<(Seq<char>, Seq<char>)>) -> Option<
    MetaModel,
>
    decreases rows.len(),
{
    if rows.len() == 0 {
        Some(m)
    } else {
        match spec_apply_row(m, rows[0].0, rows[0].1) {
            Some(m2) => spec_fold_rows(m2, rows.drop_first()),
            None => None,
        }
    }
}

pub open spec fn pair_views(rows: Seq<(String, String)>) -> Seq<(Seq<char>, Seq<char>)> {
    rows.map_values(|p: (String, String)| (p.0@, p.1@))
}

/// Law: a metadata row whose value is the empty string is excluded from
/// iteration entirely, leaving the record unchanged.
pub proof fn lemma_empty_value_row_is_ignored(m: MetaModel, label: Seq<char>, value: Seq<char>)
    requires
        value.len() == 0,
    ensures
        spec_apply_row(m, label, value) == Some(m),
{
}

/// Folding never touches the fields fixed before the read: the formats,
/// the TileJSON version, the scheme and the archive id.
pub proof fn lemma_fold_keeps_fixed_fields(m: MetaModel, rows: Seq<(Seq<char>, Seq<char>)>)
    ensures
        spec_fold_rows(m, rows) matches Some(m2) ==> m2.tile_format == m.tile_format
            && m2.grid_format == m.grid_format && m2.tilejson == m.tilejson && m2.scheme == m.scheme
            && m2.id == m.id,
    decreases rows.len(),
{
    if rows.len() > 0 {
        match spec_apply_row(m, rows[0].0, rows[0].1) {
            Some(m2) => lemma_fold_keeps_fixed_fields(m2, rows.drop_first()),
            None => {},
        }
    }
}

/// Applies the metadata rows to a record, exactly as the fold reads them.
pub fn apply_metadata_rows(meta: TileMeta, rows: &Vec<(String, String)>) -> (r: Result<
    TileMeta,
    BaseError,
>)
    ensures
        match spec_fold_rows(meta.model(), pair_views(rows@)) {
            Some(m2) => r matches Ok(out) && out.model() == m2,
            None => r matches Err(e) && is_database(e),
        },
{
    let ghost rws = pair_views(rows@);
    let ghost start_model = meta.model();
    let mut m = meta;
    let mut i: usize = 0;
    proof {
        assert(rws.skip(0) =~= rws);
    }
    while i < rows.len()
        invariant
            0 <= i <= rows.len(),
            start_model == meta.model(),
            rws == pair_views(rows@),
            rws.len() == rows@.len(),
            spec_fold_rows(start_model, rws) == spec_fold_rows(m.model(), rws.skip(i as int)),
        decreases rows.len() - i,
    {
        let ghost m0 = m.model();
        let label: &String = &rows[i].0;
        let value: &String = &rows[i].1;
        proof {
            assert(rws[i as int] == (rows@[i as int].0@, rows@[i as int].1@));
        }
        if value.as_str().is_empty() {
            // excluded from iteration entirely
        } else if str_eq(label.as_str(), "name") {
            m.name = Some(value.clone());
        } else if str_eq(label.as_str(), "version") {
            m.version = Some(value.clone());
        } else if str_eq(label.as_str(), "bounds") {
            m.bounds = Some(float_entries(value.as_str()));
        } else if str_eq(label.as_str(), "center") {
            m.center = Some(float_entries(value.as_str()));
        } else if str_eq(label.as_str(), "minzoom") {
            match parse_u32(value.as_str()) {
                Some(z) => {
                    m.minzoom = Some(z);
                },
                None => {
                    proof {
                        assert(rws.skip(i as int)[0] == rws[i as int]);
                        assert(spec_apply_row(m0, rws[i as int].0, rws[i as int].1) is None);
                    }
                    return Err(
                        BaseError::TileData(TileError::Database("malformed minzoom".to_owned())),
                    );
                },
            }
        } else if str_eq(label.as_str(), "maxzoom") {
            match parse_u32(value.as_str()) {
                Some(z) => {
                    m.maxzoom = Some(z);
                },
                None => {
                    proof {
                        assert(rws.skip(i as int)[0] == rws[i as int]);
                        assert(spec_apply_row(m0, rws[i as int].0, rws[i as int].1) is None);
                    }
                    return Err(
                        BaseError::TileData(TileError::Database("malformed maxzoom".to_owned())),
                    );
                },
            }
        } else if str_eq(label.as_str(), "description") {
            m.description = Some(value.clone());
        } else if str_eq(label.as_str(), "attribution") {
            m.attribution = Some(value.clone());
        } else if str_eq(label.as_str(), "type") {
            m.layer_type = Some(value.clone());
        } else if str_eq(label.as_str(), "legend") {
            m.legend = Some(value.clone());
        } else if str_eq(label.as_str(), "template") {
            m.template = Some(value.clone());
        } else if str_eq(label.as_str(), "json") {
            match parse_json(value.as_str()) {
                Ok(v) => {
                    m.json = Some(v);
                },
                Err(msg) => {
                    proof {
                        assert(rws.skip(i as int)[0] == rws[i as int]);
                    }
                    return Err(BaseError::TileData(TileError::Database(msg)));
                },
            }
        } else {
            // unrecognized labels are ignored
        }
        proof {
            assert(rws.skip(i as int)[0] == rws[i as int]);
            assert(rws.skip(i as int).drop_first() =~= rws.skip(i + 1));
            assert(spec_apply_row(m0, rws[i as int].0, rws[i as int].1) == Some(m.model()));
        }
        i = i + 1;
    }
    proof {
        assert(rws.skip(i as int) =~= Seq::<(Seq<char>, Seq<char>)>::empty());
    }
    Ok(m)
}

/// A merged UTFGrid: the grid rows and key order of the grid blob kept
/// verbatim, and the per-key JSON details as an association list with
/// distinct keys.
pub struct UTFGrid {
    pub data: Vec<(String, serde_json::Value)>,
    pub grid: Vec<String>,
    pub keys: Vec<String>,
}

/// A short summary of one archive, for listings.
pub struct TileSummaryJSON {
    pub image_type: DataFormat,
    pub url: String,
}

pub open spec fn has_entry_key(rows: Seq<(String, serde_json::Value)>, k: Seq<char>) -> bool {
    exists|i: int| 0 <= i < rows.len() && #[trigger] rows[i].0@ == k
}

pub open spec fn distinct_entry_keys(rows: Seq<(String, serde_json::Value)>) -> bool {
    forall|i: int, j: int|
        0 <= i < j < rows.len() ==> #[trigger] rows[i].0@ != #[trigger] rows[j].0@
}

/// The entry carries the key and value of the last row with that key.
pub open spec fn entry_from_last_row(
    rows: Seq<(String, serde_json::Value)>,
    e: (String, serde_json::Value),
) -> bool {
    exists|j: int|
        0 <= j < rows.len() && (#[trigger] rows[j]).0@ == e.0@ && rows[j].1 == e.1 && (forall|
            j2: int,
        |
            j < j2 < rows.len() ==> (#[trigger] rows[j2]).0@ != e.0@)
}

/// Merges per-key rows into an association list, later rows overwriting
/// earlier ones with the same key: the result's keys are exactly the rows'
/// keys, each held once, and each entry comes from the last row with its
/// key.
pub fn merge_grid_entries(rows: Vec<(String, serde_json::Value)>) -> (r: Vec<
    (String, serde_json::Value),
>)
    ensures
        distinct_entry_keys(r@),
        forall|k: Seq<char>| #[trigger] has_entry_key(r@, k) <==> has_entry_key(rows@, k),
        forall|i: int| 0 <= i < r@.len() ==> entry_from_last_row(rows@, #[trigger] r@[i]),
{
    let ghost orig = rows@;
    let mut rest = rows;
    let mut acc: Vec<(String, serde_json::Value)> = Vec::new();
    let ghost t: int = 0;
    proof {
        assert(orig.skip(0) =~= orig);
        assert(orig.take(0) =~= Seq::<(String, serde_json::Value)>::empty());
    }
    while rest.len() > 0
        invariant
            0 <= t <= orig.len(),
            rest@ == orig.skip(t),
            distinct_entry_keys(acc@),
            forall|k: Seq<char>| #[trigger] has_entry_key(acc@, k) <==> has_entry_key(
                orig.take(t),
                k,
            ),
            forall|i: int|
                0 <= i < acc@.len() ==> entry_from_last_row(orig.take(t), #[trigger] acc@[i]),
        decreases rest@.len(),
    {
        let ghost pre_acc = acc@;
        let pair = rest.remove(0);
        proof {
            assert(rest@ =~= orig.skip(t + 1));
            assert(pair == orig[t]);
        }
        let mut p: usize = 0;
        let mut found: bool = false;
        while p < acc.len() && !found
            invariant
                0 <= p <= acc@.len(),
                acc@ == pre_acc,
                !found ==> forall|q: int| 0 <= q < p ==> (#[trigger] acc@[q]).0@ != pair.0@,
                found ==> p < acc@.len() && acc@[p as int].0@ == pair.0@,
            decreases acc@.len() - p, (if found { 0int } else { 1int }),
        {
            if str_eq(acc[p].0.as_str(), pair.0.as_str()) {
                found = true;
            } else {
                p = p + 1;
            }
        }
        let ghost taken = orig.take(t);
        let ghost taken1 = orig.take(t + 1);
        proof {
            assert(taken1.drop_last() =~= taken);
            assert(taken1.last() == orig[t]);
            assert(taken1[t] == orig[t]);
            assert forall|k: Seq<char>| #[trigger] has_entry_key(taken1, k) <==> (has_entry_key(
                taken,
                k,
            ) || k == pair.0@) by {
                if has_entry_key(taken1, k) {
                    let i = choose|i: int| 0 <= i < taken1.len() && #[trigger] taken1[i].0@ == k;
                    if i < t {
                        assert(taken[i].0@ == k);
                    }
                }
                if has_entry_key(taken, k) {
                    let i = choose|i: int| 0 <= i < taken.len() && #[trigger] taken[i].0@ == k;
                    assert(taken1[i].0@ == k);
                }
                if k == pair.0@ {
                    assert(taken1[t].0@ == k);
                }
            }
        }
        if found {
            proof {
                // every old entry keeps its witness; the replaced slot gets row t
                assert forall|i: int|
                    0 <= i < pre_acc.len() && i != p implies entry_from_last_row(
                        taken1,
                        #[trigger] pre_acc[i],
                    ) by {
                    if 0 <= i < pre_acc.len() && i != p {
                        assert(entry_from_last_row(taken, pre_acc[i]));
                        let j = choose|j: int|
                            0 <= j < taken.len() && (#[trigger] taken[j]).0@ == pre_acc[i].0@
                                && taken[j].1 == pre_acc[i].1 && (forall|j2: int|
                                j < j2 < taken.len() ==> (#[trigger] taken[j2]).0@
                                    != pre_acc[i].0@);
                        assert(taken1[j] == taken[j]);
                        assert(pre_acc[i].0@ != pair.0@);
                        assert(forall|j2: int|
                            j < j2 < taken1.len() ==> (#[trigger] taken1[j2]).0@ != pre_acc[i].0@);
                    }
                }
            }
            acc.set(p, pair);
            proof {
                assert(acc@ =~= pre_acc.update(p as int, acc@[p as int]));
                assert(acc@[p as int].0@ == pre_acc[p as int].0@);
                assert(entry_from_last_row(taken1, acc@[p as int])) by {
                    assert(taken1[t].0@ == acc@[p as int].0@ && taken1[t].1 == acc@[p as int].1);
                }
                assert(distinct_entry_keys(acc@));
                assert forall|k: Seq<char>| #[trigger] has_entry_key(acc@, k) <==> has_entry_key(
                    taken1,
                    k,
                ) by {
                    if has_entry_key(acc@, k) {
                        let i = choose|i: int| 0 <= i < acc@.len() && #[trigger] acc@[i].0@ == k;
                        assert(pre_acc[i].0@ == k);
                    }
                    if has_entry_key(pre_acc, k) {
                        let i = choose|i: int|
                            0 <= i < pre_acc.len() && #[trigger] pre_acc[i].0@ == k;
                        assert(acc@[i].0@ == k);
                    }
                }
            }
        } else {
            proof {
                assert(p == pre_acc.len());
                assert(!has_entry_key(pre_acc, pair.0@));
                assert forall|i: int|
                    0 <= i < pre_acc.len() implies entry_from_last_row(
                        taken1,
                        #[trigger] pre_acc[i],
                    ) by {
                    if 0 <= i < pre_acc.len() {
                        assert(entry_from_last_row(taken, pre_acc[i]));
                        let j = choose|j: int|
                            0 <= j < taken.len() && (#[trigger] taken[j]).0@ == pre_acc[i].0@
                                && taken[j].1 == pre_acc[i].1 && (forall|j2: int|
                                j < j2 < taken.len() ==> (#[trigger] taken[j2]).0@
                                    != pre_acc[i].0@);
                        assert(taken1[j] == taken[j]);
                        assert(pre_acc[i].0@ != pair.0@) by {
                            assert(has_entry_key(pre_acc, pre_acc[i].0@));
                        }
                    }
                }
            }
            acc.push(pair);
            proof {
                assert(acc@ =~= pre_acc.push(acc@[pre_acc.len() as int]));
                assert(entry_from_last_row(taken1, acc@[pre_acc.len() as int])) by {
                    assert(taken1[t].0@ == pair.0@ && taken1[t].1 == pair.1);
                }
                assert(distinct_entry_keys(acc@)) by {
                    assert(forall|q: int|
                        0 <= q < pre_acc.len() ==> (#[trigger] acc@[q]).0@ != pair.0@);
                }
                assert forall|k: Seq<char>| #[trigger] has_entry_key(acc@, k) <==> has_entry_key(
                    taken1,
                    k,
                ) by {
                    if has_entry_key(acc@, k) {
                        let i = choose|i: int| 0 <= i < acc@.len() && #[trigger] acc@[i].0@ == k;
                        if i < pre_acc.len() {
                            assert(has_entry_key(pre_acc, k));
                        } else {
                            assert(k == pair.0@);
                        }
                    }
                    if has_entry_key(pre_acc, k) {
                        let i = choose|i: int|
                            0 <= i < pre_acc.len() && #[trigger] pre_acc[i].0@ == k;
                        assert(acc@[i].0@ == k);
                    }
                    if k == pair.0@ {
                        assert(acc@[pre_acc.len() as int].0@ == k);
                    }
                }
            }
        }
        proof {
            t = t + 1;
        }
    }
    proof {
        assert(orig.take(t) =~= orig);
    }
    acc
}

/// Whether every per-key row's JSON detail text is well-formed.
pub open spec fn all_rows_wf(rows: Seq<(String, String)>) -> bool {
    forall|i: int| 0 <= i < rows.len() ==> json_wf(#[trigger] rows[i].1@)
}

/// Parses each `(key_name, key_json)` row's JSON detail: succeeds exactly
/// when every row's text is well-formed JSON, and keeps the keys verbatim,
/// one parsed entry per row.
pub fn parse_grid_rows(rows: &Vec<(String, String)>) -> (r: Result<
    Vec<(String, serde_json::Value)>,
    BaseError,
>)
    ensures
        match r {
            Ok(entries) => all_rows_wf(rows@) && entries@.len() == rows@.len() && (forall|j: int|
                0 <= j < rows@.len() ==> (#[trigger] entries@[j]).0@ == rows@[j].0@),
            Err(e) => !all_rows_wf(rows@) && is_database(e),
        },
{
    let mut entries: Vec<(String, serde_json::Value)> = Vec::new();
    let mut i: usize = 0;
    while i < rows.len()
        invariant
            0 <= i <= rows@.len(),
            entries@.len() == i,
            forall|j: int| 0 <= j < i ==> (#[trigger] entries@[j]).0@ == rows@[j].0@,
            forall|j: int| 0 <= j < i ==> json_wf(#[trigger] rows@[j].1@),
        decreases rows@.len() - i,
    {
        let val = match parse_json(rows[i].1.as_str()) {
            Ok(v) => v,
            Err(m) => {
                proof {
                    assert(!json_wf(rows@[i as int].1@));
                }
                return Err(BaseError::TileData(TileError::Database(m)));
            },
        };
        let key = rows[i].0.clone();
        entries.push((key, val));
        i = i + 1;
    }
    Ok(entries)
}

/// Assembles a UTFGrid from the decoded grid blob text and the parsed
/// per-key entries. Success is owed exactly when the blob carries `grid`
/// and `keys` string-array members: both are kept verbatim in order, and
/// `data` holds exactly the entries' keys, each held once and taken from
/// the last entry with its key.
pub fn build_utf_grid(text: &str, entries: Vec<(String, serde_json::Value)>) -> (r: Result<
    UTFGrid,
    BaseError,
>)
    ensures
        match (string_array_member_of(text@, "grid"@), string_array_member_of(text@, "keys"@)) {
            (Some(g), Some(k)) => r matches Ok(ug) && views_of(ug.grid@) == g && views_of(ug.keys@)
                == k && distinct_entry_keys(ug.data@) && (forall|key: Seq<char>|
                #[trigger] has_entry_key(ug.data@, key) <==> has_entry_key(entries@, key)) && (
            forall|i: int|
                0 <= i < ug.data@.len() ==> entry_from_last_row(entries@, #[trigger] ug.data@[i])),
            _ => r matches Err(e) && is_database(e),
        },
{
    let grid_rows = match json_string_array_member(text, "grid") {
        Some(v) => v,
        None => {
            return Err(
                BaseError::TileData(TileError::Database("grid blob has no grid array".to_owned())),
            );
        },
    };
    let key_list = match json_string_array_member(text, "keys") {
        Some(v) => v,
        None => {
            return Err(
                BaseError::TileData(TileError::Database("grid blob has no keys array".to_owned())),
            );
        },
    };
    let data = merge_grid_entries(entries);
    Ok(UTFGrid { data, grid: grid_rows, keys: key_list })
}

pub open spec fn opt_bytes_view(o: Option<Vec<u8>>) -> Option<Seq<u8>> {
    match o {
        Some(b) => Some(b@),
        None => None,
    }
}

/// The format of an optional sample payload: sniffed when a sample row
/// exists, `UNKNOWN` when the table is empty.
pub open spec fn spec_sniff_sample(s: Option<Seq<u8>>) -> DataFormat {
    match s {
        Some(b) => spec_classify(b),
        None => DataFormat::UNKNOWN,
    }
}

/// Classifies whatever a sample query returned: the verified step of the
/// format discovery.
pub fn classify_sample(sample: &Option<Vec<u8>>) -> (r: DataFormat)
    ensures
        r == spec_sniff_sample(opt_bytes_view(*sample)),
{
    match sample {
        Some(b) => get_data_format(b),
        None => DataFormat::UNKNOWN,
    }
}

/// Classifies the whole outcome of a sample query: an answered query
/// classifies its sample (an empty table reads as `UNKNOWN`), while a
/// failed query is a database error, as any other failed statement.
pub fn classify_sample_outcome(sample: &Result<Option<Vec<u8>>, String>) -> (r: Result<
    DataFormat,
    BaseError,
>)
    ensures
        match *sample {
            Ok(s) => r == Ok::<DataFormat, BaseError>(spec_sniff_sample(opt_bytes_view(s))),
            Err(_) => r matches Err(e) && is_database(e),
        },
{
    match sample {
        Ok(s) => Ok(classify_sample(s)),
        Err(m) => Err(BaseError::TileData(TileError::Database(m.clone()))),
    }
}

/// Sniffs the archive's stored format from a sample row of the tile or
/// grid table. Any category but `tile` and `grid` is rejected with the
/// archive's name; an empty table reads as `UNKNOWN`, and a failed sample
/// query is a database error.
pub fn get_data_format_via_query(tile_name: &str, connection: &Connection, category: &str) -> (r:
    Result<DataFormat, BaseError>)
    ensures
        category@ == "tile"@ || category@ == "grid"@ ==> (r is Ok || (r matches Err(e)
            && is_database(e))),
        !(category@ == "tile"@ || category@ == "grid"@) ==> (r matches Err(
            BaseError::TileData(TileError::InvalidDataFormat(m)),
        ) && m@ == tile_name@),
{
    let sample = if str_eq(category, "tile") {
        query_first_tile_blob(connection)
    } else if str_eq(category, "grid") {
        query_first_grid_blob(connection)
    } else {
        return Err(BaseError::TileData(TileError::InvalidDataFormat(tile_name.to_owned())));
    };
    classify_sample_outcome(&sample)
}

/// The grid-support decision over the table-count outcome and the sniff
/// outcome: support exists exactly when the count query answered that all
/// five grid tables are present and the sniff answered; anything else,
/// a failed query included, reads as "no grid support", never as an error.
pub fn grid_format_decision(
    tables_found: &Result<i64, String>,
    sniffed: &Result<DataFormat, BaseError>,
) -> (r: Option<DataFormat>)
    ensures
        (tables_found matches Ok(c) && c == 5) ==> (match *sniffed {
            Ok(f) => r == Some(f),
            Err(_) => r is None,
        }),
        !(tables_found matches Ok(c) && c == 5) ==> r is None,
{
    match tables_found {
        Ok(c) => if *c == 5 {
            match sniffed {
                Ok(f) => Some(*f),
                Err(_) => None,
            }
        } else {
            None
        },
        Err(_) => None,
    }
}

/// Grid support discovery: the sniffed sample grid format, present exactly
/// when all five grid tables exist and the sample could be asked for.
fn get_grid_info(connection: &Connection, tile_name: &str) -> Option<DataFormat> {
    let tables_found = query_grid_table_count(connection);
    let sniffed = get_data_format_via_query(tile_name, connection, "grid");
    grid_format_decision(&tables_found, &sniffed)
}

/// Schema validation over the counted required names: both `tiles` and
/// `metadata` exist exactly when the count reaches two; anything less is
/// the missing-table error.
pub fn validate_schema_count(count: i64, tile_name: &str) -> (r: Result<(), BaseError>)
    ensures
        count >= 2 <==> r is Ok,
        count < 2 <==> (r matches Err(BaseError::TileData(TileError::MissingTable(m))) && m@
            == tile_name@),
{
    if count < 2 {
        Err(BaseError::TileData(TileError::MissingTable(tile_name.to_owned())))
    } else {
        Ok(())
    }
}

/// The stored-format translation: an unknown sample fails with
/// `UnknownTileFormat`, a gzip sample means the stored tiles are PBF (gzip
/// is only the wire compression of vector tiles), and anything else is
/// reported as itself.
pub fn effective_tile_format(sniffed: DataFormat, tile_name: &str) -> (r: Result<
    DataFormat,
    BaseError,
>)
    ensures
        sniffed == DataFormat::UNKNOWN <==> (r matches Err(
            BaseError::TileData(TileError::UnknownTileFormat(m)),
        ) && m@ == tile_name@),
        sniffed == DataFormat::GZIP ==> r == Ok::<DataFormat, BaseError>(DataFormat::PBF),
        sniffed != DataFormat::UNKNOWN && sniffed != DataFormat::GZIP ==> r == Ok::<
            DataFormat,
            BaseError,
        >(sniffed),
{
    match sniffed {
        DataFormat::UNKNOWN => Err(
            BaseError::TileData(TileError::UnknownTileFormat(tile_name.to_owned())),
        ),
        DataFormat::GZIP => Ok(DataFormat::PBF),
        other => Ok(other),
    }
}

/// The archive-wide invariants of a successfully read metadata record.
pub open spec fn meta_well_formed(m: MetaModel, tile_name: Seq<char>) -> bool {
    &&& m.tile_format != DataFormat::UNKNOWN
    &&& m.tile_format != DataFormat::GZIP
    &&& m.tilejson == "2.1.0"@
    &&& m.scheme == "xyz"@
    &&& m.id == tile_name
}

/// The metadata read on one connection: schema validation over the counted
/// tables, format discovery with the container translation, then the
/// metadata fold.
fn details_on_connection(conn: &Connection, tile_name: &str) -> (r: Result<TileMeta, BaseError>)
    ensures
        r matches Ok(meta) ==> meta_well_formed(meta.model(), tile_name@),
        r matches Err(e) ==> is_database(e) || is_missing_table(e) || is_unknown_tile_format(e),
        r matches Err(BaseError::TileData(TileError::MissingTable(m))) ==> m@ == tile_name@,
        r matches Err(BaseError::TileData(TileError::UnknownTileFormat(m))) ==> m@ == tile_name@,
{
    let count = match query_core_table_count(conn) {
        Ok(c) => c,
        Err(m) => {
            return Err(BaseError::TileData(TileError::Database(m)));
        },
    };
    match validate_schema_count(count, tile_name) {
        Ok(_) => (),
        Err(e) => {
            return Err(e);
        },
    };
    let sniffed = match get_data_format_via_query(tile_name, conn, "tile") {
        Ok(f) => f,
        Err(e) => {
            return Err(e);
        },
    };
    let tile_format = match effective_tile_format(sniffed, tile_name) {
        Ok(f) => f,
        Err(e) => {
            return Err(e);
        },
    };
    let base = TileMeta {
        name: None,
        version: None,
        tilejson: "2.1.0".to_owned(),
        scheme: "xyz".to_owned(),
        id: tile_name.to_owned(),
        tile_format,
        grid_format: get_grid_info(conn, tile_name),
        bounds: None,
        center: None,
        minzoom: None,
        maxzoom: None,
        description: None,
        attribution: None,
        layer_type: None,
        legend: None,
        template: None,
        json: None,
    };
    let rows = match query_metadata_rows(conn) {
        Ok(v) => v,
        Err(m) => {
            return Err(BaseError::TileData(TileError::Database(m)));
        },
    };
    proof {
        lemma_fold_keeps_fixed_fields(base.model(), pair_views(rows@));
    }
    apply_metadata_rows(base, &rows)
}

/// Validates the archive schema and reads its metadata once: fails with
/// `MissingTable` unless both `tiles` and `metadata` exist, with
/// `UnknownTileFormat` when the sample tile sniffs as unknown; a
/// gzip-format tile store is reported as PBF. The connection is returned
/// to the pool on every path.
pub fn get_tile_details(pool: &mut ConnectionPool, tile_name: &str) -> (r: Result<
    TileMeta,
    BaseError,
>)
    ensures
        final(pool).outstanding_count() == old(pool).outstanding_count(),
        r matches Ok(meta) ==> meta_well_formed(meta.model(), tile_name@),
        r matches Err(e) ==> is_conn_pool(e) || is_database(e) || is_missing_table(e)
            || is_unknown_tile_format(e),
        r matches Err(BaseError::TileData(TileError::MissingTable(m))) ==> m@ == tile_name@,
        r matches Err(BaseError::TileData(TileError::UnknownTileFormat(m))) ==> m@ == tile_name@,
{
    let conn = match pool.acquire() {
        Ok(c) => c,
        Err(e) => {
            return Err(e);
        },
    };
    let result = details_on_connection(&conn, tile_name);
    pool.release(conn);
    result
}

/// Law: a coordinate with a row yields its payload; a coordinate with no
/// row yields the not-found error, never a payload. Both the tile and the
/// grid lookup decide absence through this step.
pub fn resolve_coordinate_row(row: Option<Vec<u8>>) -> (r: Result<Vec<u8>, BaseError>)
    ensures
        row matches Some(b) ==> (r matches Ok(v) && v@ == b@),
        row is None ==> (r matches Err(e) && is_not_found(e)),
{
    match row {
        Some(b) => Ok(b),
        None => Err(BaseError::TileData(TileError::NotFound)),
    }
}

/// The raw payload of the tile at `(z, x, y)`: an exact-match lookup, with
/// a distinct not-found error when no row matches. The connection is
/// returned to the pool on every path.
pub fn get_tile_data(pool: &mut ConnectionPool, z: u32, x: u32, y: u32) -> (r: Result<
    Vec<u8>,
    BaseError,
>)
    ensures
        final(pool).outstanding_count() == old(pool).outstanding_count(),
        r matches Err(e) ==> is_not_found(e) || is_database(e) || is_conn_pool(e),
{
    let conn = match pool.acquire() {
        Ok(c) => c,
        Err(e) => {
            return Err(e);
        },
    };
    let got = query_tile_blob(&conn, z, x, y);
    pool.release(conn);
    match got {
        Ok(row) => resolve_coordinate_row(row),
        Err(m) => Err(BaseError::TileData(TileError::Database(m))),
    }
}

/// The grid read on one connection: blob lookup resolved as the tile
/// lookup is, decode under the claimed container format, then row parsing
/// and assembly.
fn grid_on_connection(conn: &Connection, data_format: DataFormat, z: u32, x: u32, y: u32) -> (r:
    Result<UTFGrid, BaseError>)
    ensures
        r matches Ok(g) ==> distinct_entry_keys(g.data@),
        r matches Err(e) ==> is_not_found(e) || is_database(e) || is_io_error(e)
            || is_invalid_data_format(e),
{
    let row = match query_grid_blob(conn, z, x, y) {
        Ok(o) => o,
        Err(m) => {
            return Err(BaseError::TileData(TileError::Database(m)));
        },
    };
    let blob = match resolve_coordinate_row(row) {
        Ok(b) => b,
        Err(e) => {
            return Err(e);
        },
    };
    let text = match crate::codec::decode(blob, data_format) {
        Ok(s) => s,
        Err(e) => {
            return Err(e);
        },
    };
    let rows = match query_grid_data_rows(conn, z, x, y) {
        Ok(v) => v,
        Err(m) => {
            return Err(BaseError::TileData(TileError::Database(m)));
        },
    };
    let entries = match parse_grid_rows(&rows) {
        Ok(v) => v,
        Err(e) => {
            return Err(e);
        },
    };
    build_utf_grid(text.as_str(), entries)
}

/// The merged UTFGrid of the coordinate: fails with the not-found error
/// when no grid row matches; a key with no JSON row simply has no entry in
/// `data`, and duplicate rows overwrite earlier ones. The connection is
/// returned to the pool on every path.
pub fn get_grid_data(pool: &mut ConnectionPool, data_format: DataFormat, z: u32, x: u32, y: u32) -> (r:
    Result<UTFGrid, BaseError>)
    ensures
        final(pool).outstanding_count() == old(pool).outstanding_count(),
        r matches Ok(g) ==> distinct_entry_keys(g.data@),
        r matches Err(e) ==> is_not_found(e) || is_database(e) || is_io_error(e)
            || is_invalid_data_format(e) || is_conn_pool(e),
{
    let conn = match pool.acquire() {
        Ok(c) => c,
        Err(e) => {
            return Err(e);
        },
    };
    let result = grid_on_connection(&conn, data_format, z, x, y);
    pool.release(conn);
    result
}

} // verus!
